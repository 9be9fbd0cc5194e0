use vstd::prelude::*;
use vstd::string::StringExecFns;

use crate::strutil;
use crate::strutil::starts_with;

verus! {

/// Label key under which every created resource records the tool version.
pub fn label_key_version() -> (r: &'static str)
    ensures
        r@ == "soma.version"@,
{
    "soma.version"
}

/// Label key under which every created resource records its owner.
pub fn label_key_username() -> (r: &'static str)
    ensures
        r@ == "soma.username"@,
{
    "soma.username"
}

/// Label key under which every created resource records its repository.
pub fn label_key_repository() -> (r: &'static str)
    ensures
        r@ == "soma.repository"@,
{
    "soma.repository"
}

/// Classification of a resource's recorded tool version against the version
/// of the running tool.
#[derive(Clone, Copy, Debug, PartialEq, Eq, Structural)]
pub enum VersionStatus {
    Normal,
    VersionMismatch,
    NoVersionFound,
}

/// The value of the first label with the given key, if any.
pub open spec fn spec_label_get(labels: Seq<(String, String)>, key: Seq<char>) -> Option<Seq<char>>
    decreases labels.len(),
{
    if labels.len() == 0 {
        None
    } else if labels[0].0@ == key {
        Some(labels[0].1@)
    } else {
        spec_label_get(labels.drop_first(), key)
    }
}

/// Looks a key up in a label list; the first binding wins.
pub fn label_get<'a>(labels: &'a Vec<(String, String)>, key: &str) -> (r: Option<&'a String>)
    ensures
        match r {
            Some(v) => spec_label_get(labels@, key@) == Some(v@),
            None => spec_label_get(labels@, key@) is None,
        },
{
    let mut i: usize = 0;
    proof {
        assert(labels@.skip(0) =~= labels@);
    }
    while i < labels.len()
        invariant
            i <= labels@.len(),
            spec_label_get(labels@, key@) == spec_label_get(labels@.skip(i as int), key@),
        decreases labels@.len() - i,
    {
        proof {
            assert(labels@.skip(i as int)[0] == labels@[i as int]);
            assert(labels@.skip(i as int).drop_first() =~= labels@.skip(i + 1));
        }
        if strutil::str_eq(labels[i].0.as_str(), key) {
            return Some(&labels[i].1);
        }
        i += 1;
    }
    proof {
        assert(labels@.skip(labels@.len() as int) =~= Seq::<(String, String)>::empty());
    }
    None
}

/// The version status that a recorded version label classifies to.
pub open spec fn spec_version_status(label: Option<Seq<char>>, current: Seq<char>) -> VersionStatus {
    match label {
        None => VersionStatus::NoVersionFound,
        Some(v) => if v == current {
            VersionStatus::Normal
        } else {
            VersionStatus::VersionMismatch
        },
    }
}

/// The repository name that a repository label classifies to: the label's
/// value, or the sentinel when the label is absent.
pub open spec fn spec_repository_label(label: Option<Seq<char>>) -> Seq<char> {
    match label {
        None => "**NONAME**"@,
        Some(n) => n,
    }
}

/// What the daemon reports of one image: its identifier, tag set and labels.
#[derive(Clone, Debug)]
pub struct ImageRecord {
    pub id: String,
    pub repo_tags: Option<Vec<String>>,
    pub labels: Vec<(String, String)>,
}

/// A daemon-reported image annotated with repository ownership and version
/// status; derived from its labels at query time, never cached.
#[derive(Clone, Debug)]
pub struct SomaImage {
    pub repository_name: String,
    pub image: ImageRecord,
    pub status: VersionStatus,
}

impl SomaImage {
    pub fn new(repository_name: String, image: ImageRecord, status: VersionStatus) -> (r:
        SomaImage)
        ensures
            r.repository_name == repository_name,
            r.image == image,
            r.status == status,
    {
        SomaImage { repository_name, image, status }
    }

    pub fn repository_name(&self) -> (r: &String)
        ensures
            r == &self.repository_name,
    {
        &self.repository_name
    }

    pub fn image(&self) -> (r: &ImageRecord)
        ensures
            r == &self.image,
    {
        &self.image
    }

    pub fn status(&self) -> (r: VersionStatus)
        ensures
            r == self.status,
    {
        self.status
    }
}

/// Reads an image's labels into a domain record: the repository label or the
/// sentinel, and the version label classified against `current_version`.
pub fn classify_image(image: ImageRecord, current_version: &str) -> (r: SomaImage)
    ensures
        r.image == image,
        r.repository_name@ == spec_repository_label(
            spec_label_get(image.labels@, "soma.repository"@),
        ),
        r.status == spec_version_status(
            spec_label_get(image.labels@, "soma.version"@),
            current_version@,
        ),
{
    let repository_name = match label_get(&image.labels, label_key_repository()) {
        Some(name) => name.clone(),
        None => String::from_str("**NONAME**"),
    };
    let status = match label_get(&image.labels, label_key_version()) {
        Some(v) => if strutil::str_eq(v.as_str(), current_version) {
            VersionStatus::Normal
        } else {
            VersionStatus::VersionMismatch
        },
        None => VersionStatus::NoVersionFound,
    };
    SomaImage { repository_name, image, status }
}

/// Reads a whole pool of daemon-reported images into domain records, one
/// per report, in order.
pub fn classify_images(mut images: Vec<ImageRecord>, current_version: &str) -> (r: Vec<SomaImage>)
    ensures
        r@.len() == images@.len(),
        forall|i: int|
            0 <= i < r@.len() ==> {
                let rec = (#[trigger] r@[i]);
                rec.image == images@[i] && rec.repository_name@ == spec_repository_label(
                    spec_label_get(images@[i].labels@, "soma.repository"@),
                ) && rec.status == spec_version_status(
                    spec_label_get(images@[i].labels@, "soma.version"@),
                    current_version@,
                )
            },
{
    let ghost orig = images@;
    let mut r: Vec<SomaImage> = Vec::new();
    proof {
        assert(images@ =~= orig.skip(0));
    }
    while images.len() > 0
        invariant
            r@.len() + images@.len() == orig.len(),
            images@ =~= orig.skip(r@.len() as int),
            forall|i: int|
                0 <= i < r@.len() ==> {
                    let rec = (#[trigger] r@[i]);
                    rec.image == orig[i] && rec.repository_name@ == spec_repository_label(
                        spec_label_get(orig[i].labels@, "soma.repository"@),
                    ) && rec.status == spec_version_status(
                        spec_label_get(orig[i].labels@, "soma.version"@),
                        current_version@,
                    )
                },
        decreases images@.len(),
    {
        let ghost k = r@.len() as int;
        proof {
            assert(images@[0] == orig[k]);
            assert(orig.skip(k).remove(0) =~= orig.skip(k + 1));
        }
        let image = images.remove(0);
        r.push(classify_image(image, current_version));
    }
    r
}

/// The image name a problem builds to: a fixed namespace prefix joined to the
/// problem identifier. Stable across runs, so repeated builds of one problem
/// are recognized as the same image.
pub fn image_name(problem_name: &str) -> (r: String)
    ensures
        r@ == "soma/"@ + problem_name@,
{
    strutil::concat2("soma/", problem_name)
}

/// Some tag of the record starts with the given prefix.
pub open spec fn spec_has_tag_prefix(img: SomaImage, prefix: Seq<char>) -> bool {
    match img.image.repo_tags {
        Some(tags) => exists|j: int| 0 <= j < tags@.len() && starts_with(tags@[j]@, prefix),
        None => false,
    }
}

/// The record's tag set contains a tag whose part before the `:` separator is
/// exactly `image_name`.
pub open spec fn spec_image_has_name(img: SomaImage, image_name: Seq<char>) -> bool {
    spec_has_tag_prefix(img, image_name + ":"@)
}

pub open spec fn spec_image_exists(images: Seq<SomaImage>, image_name: Seq<char>) -> bool {
    exists|i: int| 0 <= i < images.len() && spec_image_has_name(images[i], image_name)
}

fn has_tag_prefix(img: &SomaImage, prefix: &str) -> (r: bool)
    ensures
        r == spec_has_tag_prefix(*img, prefix@),
{
    match &img.image.repo_tags {
        Some(tags) => {
            let mut j: usize = 0;
            while j < tags.len()
                invariant
                    j <= tags@.len(),
                    img.image.repo_tags matches Some(t) && t == tags,
                    forall|k: int| 0 <= k < j ==> !starts_with(tags@[k]@, prefix@),
                decreases tags@.len() - j,
            {
                if strutil::str_starts_with(tags[j].as_str(), prefix) {
                    return true;
                }
                j += 1;
            }
            false
        },
        None => false,
    }
}

/// True exactly when some record's tag set contains a tag starting with
/// `image_name` followed by `:`.
pub fn image_exists(images: &Vec<SomaImage>, image_name: &str) -> (r: bool)
    ensures
        r == spec_image_exists(images@, image_name@),
{
    let prefix = strutil::concat2(image_name, ":");
    let mut i: usize = 0;
    while i < images.len()
        invariant
            i <= images@.len(),
            prefix@ == image_name@ + ":"@,
            forall|k: int| 0 <= k < i ==> !spec_image_has_name(images@[k], image_name@),
        decreases images@.len() - i,
    {
        if has_tag_prefix(&images[i], prefix.as_str()) {
            return true;
        }
        i += 1;
    }
    false
}

pub open spec fn spec_image_from_repo_exists(images: Seq<SomaImage>, repo_name: Seq<char>) -> bool {
    exists|i: int| 0 <= i < images.len() && images[i].repository_name@ == repo_name
}

/// Some image is owned by the given repository.
pub fn image_from_repo_exists(images: &Vec<SomaImage>, repo_name: &str) -> (r: bool)
    ensures
        r == spec_image_from_repo_exists(images@, repo_name@),
{
    let mut i: usize = 0;
    while i < images.len()
        invariant
            i <= images@.len(),
            forall|k: int| 0 <= k < i ==> images@[k].repository_name@ != repo_name@,
        decreases images@.len() - i,
    {
        if strutil::str_eq(images[i].repository_name.as_str(), repo_name) {
            return true;
        }
        i += 1;
    }
    false
}

pub open spec fn spec_image_from_repo_and_prob_exists(
    images: Seq<SomaImage>,
    repo_name: Seq<char>,
    prob_name: Seq<char>,
) -> bool {
    exists|i: int|
        0 <= i < images.len() && images[i].repository_name@ == repo_name && spec_image_has_name(
            images[i],
            "soma/"@ + prob_name,
        )
}

/// Some image is owned by the given repository and carries the tag of the
/// given problem's image name.
pub fn image_from_repo_and_prob_exists(
    images: &Vec<SomaImage>,
    repo_name: &str,
    prob_name: &str,
) -> (r: bool)
    ensures
        r == spec_image_from_repo_and_prob_exists(images@, repo_name@, prob_name@),
{
    let name = image_name(prob_name);
    let prefix = strutil::concat2(name.as_str(), ":");
    let mut i: usize = 0;
    while i < images.len()
        invariant
            i <= images@.len(),
            prefix@ == "soma/"@ + prob_name@ + ":"@,
            forall|k: int|
                0 <= k < i ==> !(images@[k].repository_name@ == repo_name@ && spec_image_has_name(
                    images@[k],
                    "soma/"@ + prob_name@,
                )),
        decreases images@.len() - i,
    {
        if strutil::str_eq(images[i].repository_name.as_str(), repo_name) && has_tag_prefix(
            &images[i],
            prefix.as_str(),
        ) {
            return true;
        }
        i += 1;
    }
    false
}

/// What the daemon reports of one container: its identifier, state string and
/// labels.
#[derive(Clone, Debug)]
pub struct ContainerRecord {
    pub id: String,
    pub state: String,
    pub labels: Vec<(String, String)>,
}

/// A daemon-reported container annotated with repository ownership and
/// version status; derived from its labels at query time, never cached.
#[derive(Clone, Debug)]
pub struct SomaContainer {
    pub repository_name: String,
    pub container: ContainerRecord,
    pub status: VersionStatus,
}

impl SomaContainer {
    pub fn new(repository_name: String, container: ContainerRecord, status: VersionStatus) -> (r:
        SomaContainer)
        ensures
            r.repository_name == repository_name,
            r.container == container,
            r.status == status,
    {
        SomaContainer { repository_name, container, status }
    }

    pub fn repository_name(&self) -> (r: &String)
        ensures
            r == &self.repository_name,
    {
        &self.repository_name
    }

    pub fn container(&self) -> (r: &ContainerRecord)
        ensures
            r == &self.container,
    {
        &self.container
    }

    pub fn status(&self) -> (r: VersionStatus)
        ensures
            r == self.status,
    {
        self.status
    }
}

/// Reads a container's labels into a domain record, exactly as
/// `classify_image` does for images.
pub fn classify_container(container: ContainerRecord, current_version: &str) -> (r: SomaContainer)
    ensures
        r.container == container,
        r.repository_name@ == spec_repository_label(
            spec_label_get(container.labels@, "soma.repository"@),
        ),
        r.status == spec_version_status(
            spec_label_get(container.labels@, "soma.version"@),
            current_version@,
        ),
{
    let repository_name = match label_get(&container.labels, label_key_repository()) {
        Some(name) => name.clone(),
        None => String::from_str("**NONAME**"),
    };
    let status = match label_get(&container.labels, label_key_version()) {
        Some(v) => if strutil::str_eq(v.as_str(), current_version) {
            VersionStatus::Normal
        } else {
            VersionStatus::VersionMismatch
        },
        None => VersionStatus::NoVersionFound,
    };
    SomaContainer { repository_name, container, status }
}

/// Reads a whole pool of daemon-reported containers into domain records,
/// one per report, in order.
pub fn classify_containers(mut containers: Vec<ContainerRecord>, current_version: &str) -> (r: Vec<
    SomaContainer,
>)
    ensures
        r@.len() == containers@.len(),
        forall|i: int|
            0 <= i < r@.len() ==> {
                let rec = (#[trigger] r@[i]);
                rec.container == containers@[i] && rec.repository_name@ == spec_repository_label(
                    spec_label_get(containers@[i].labels@, "soma.repository"@),
                ) && rec.status == spec_version_status(
                    spec_label_get(containers@[i].labels@, "soma.version"@),
                    current_version@,
                )
            },
{
    let ghost orig = containers@;
    let mut r: Vec<SomaContainer> = Vec::new();
    proof {
        assert(containers@ =~= orig.skip(0));
    }
    while containers.len() > 0
        invariant
            r@.len() + containers@.len() == orig.len(),
            containers@ =~= orig.skip(r@.len() as int),
            forall|i: int|
                0 <= i < r@.len() ==> {
                    let rec = (#[trigger] r@[i]);
                    rec.container == orig[i] && rec.repository_name@ == spec_repository_label(
                        spec_label_get(orig[i].labels@, "soma.repository"@),
                    ) && rec.status == spec_version_status(
                        spec_label_get(orig[i].labels@, "soma.version"@),
                        current_version@,
                    )
                },
        decreases containers@.len(),
    {
        let ghost k = r@.len() as int;
        proof {
            assert(containers@[0] == orig[k]);
            assert(orig.skip(k).remove(0) =~= orig.skip(k + 1));
        }
        let container = containers.remove(0);
        r.push(classify_container(container, current_version));
    }
    r
}

pub open spec fn spec_container_exists(
    containers: Seq<SomaContainer>,
    container_id: Seq<char>,
) -> bool {
    exists|i: int| 0 <= i < containers.len() && containers[i].container.id@ == container_id
}

/// Some container in the pool has the given identifier.
pub fn container_exists(containers: &Vec<SomaContainer>, container_id: &str) -> (r: bool)
    ensures
        r == spec_container_exists(containers@, container_id@),
{
    let mut i: usize = 0;
    while i < containers.len()
        invariant
            i <= containers@.len(),
            forall|k: int| 0 <= k < i ==> containers@[k].container.id@ != container_id@,
        decreases containers@.len() - i,
    {
        if strutil::str_eq(containers[i].container.id.as_str(), container_id) {
            return true;
        }
        i += 1;
    }
    false
}

pub open spec fn spec_container_from_repo_exists(
    containers: Seq<SomaContainer>,
    repo_name: Seq<char>,
) -> bool {
    exists|i: int| 0 <= i < containers.len() && containers[i].repository_name@ == repo_name
}

/// Some container is owned by the given repository.
pub fn container_from_repo_exists(containers: &Vec<SomaContainer>, repo_name: &str) -> (r: bool)
    ensures
        r == spec_container_from_repo_exists(containers@, repo_name@),
{
    let mut i: usize = 0;
    while i < containers.len()
        invariant
            i <= containers@.len(),
            forall|k: int| 0 <= k < i ==> containers@[k].repository_name@ != repo_name@,
        decreases containers@.len() - i,
    {
        if strutil::str_eq(containers[i].repository_name.as_str(), repo_name) {
            return true;
        }
        i += 1;
    }
    false
}

pub open spec fn spec_container_from_repo_running(
    containers: Seq<SomaContainer>,
    repo_name: Seq<char>,
) -> bool {
    exists|i: int|
        0 <= i < containers.len() && containers[i].repository_name@ == repo_name
            && containers[i].container.state@ == "running"@
}

/// Some container owned by the given repository reports the state `running`.
pub fn container_from_repo_running(containers: &Vec<SomaContainer>, repo_name: &str) -> (r: bool)
    ensures
        r == spec_container_from_repo_running(containers@, repo_name@),
{
    let mut i: usize = 0;
    while i < containers.len()
        invariant
            i <= containers@.len(),
            forall|k: int|
                0 <= k < i ==> !(containers@[k].repository_name@ == repo_name@
                    && containers@[k].container.state@ == "running"@),
        decreases containers@.len() - i,
    {
        if strutil::str_eq(containers[i].repository_name.as_str(), repo_name) && strutil::str_eq(
            containers[i].container.state.as_str(),
            "running",
        ) {
            return true;
        }
        i += 1;
    }
    false
}

/// The containers owned by the given repository, keeping the pool's order.
pub fn containers_from_repo(mut containers: Vec<SomaContainer>, repo_name: &str) -> (r: Vec<
    SomaContainer,
>)
    ensures
        r@ == containers@.filter(|c: SomaContainer| c.repository_name@ == repo_name@),
{
    let ghost orig = containers@;
    let ghost pred = |c: SomaContainer| c.repository_name@ == repo_name@;
    let mut r: Vec<SomaContainer> = Vec::new();
    let ghost k: int = 0;
    proof {
        assert(containers@ =~= orig.skip(0));
        assert(orig.subrange(0, 0).filter(pred) =~= Seq::<SomaContainer>::empty());
    }
    while containers.len() > 0
        invariant
            0 <= k <= orig.len(),
            containers@ =~= orig.skip(k),
            r@ == orig.subrange(0, k).filter(pred),
            pred == (|c: SomaContainer| c.repository_name@ == repo_name@),
        decreases containers@.len(),
    {
        proof {
            assert(containers@[0] == orig[k]);
        }
        let c = containers.remove(0);
        proof {
            assert(orig.skip(k).remove(0) =~= orig.skip(k + 1));
            reveal(Seq::filter);
            assert(orig.subrange(0, k + 1).drop_last() =~= orig.subrange(0, k));
            assert(orig.subrange(0, k + 1).last() == orig[k]);
        }
        if strutil::str_eq(c.repository_name.as_str(), repo_name) {
            r.push(c);
        }
        proof {
            k = k + 1;
        }
    }
    proof {
        assert(orig.subrange(0, orig.len() as int) =~= orig);
    }
    r
}

/// One required label constraint, in the daemon's `key=value` form.
pub open spec fn spec_filter_entry(key: Seq<char>, value: Seq<char>) -> Seq<char> {
    key + "="@ + value
}

/// A label set satisfies a constraint when some label renders to it.
pub open spec fn spec_labels_satisfy(
    labels: Seq<(Seq<char>, Seq<char>)>,
    entry: Seq<char>,
) -> bool {
    exists|i: int|
        0 <= i < labels.len() && spec_filter_entry(labels[i].0, labels[i].1) == entry
}

/// A label set matches a filter when it satisfies every constraint of it.
pub open spec fn spec_filter_matches(
    entries: Seq<Seq<char>>,
    labels: Seq<(Seq<char>, Seq<char>)>,
) -> bool {
    forall|k: int| 0 <= k < entries.len() ==> spec_labels_satisfy(labels, entries[k])
}

/// The key contains no `=` separator, as daemon label keys do not.
pub open spec fn eq_free(s: Seq<char>) -> bool {
    forall|i: int| 0 <= i < s.len() ==> s[i] != '='
}

/// A label filter for daemon queries: every entry is a `key=value` constraint
/// that a matching resource's label set must satisfy.
pub struct SomaFilter {
    pub label: Vec<String>,
}

impl SomaFilter {
    pub open spec fn spec_entries(&self) -> Seq<Seq<char>> {
        self.label@.map_values(|s: String| s@)
    }
}

/// Builds a label filter one constraint at a time.
pub struct SomaFilterBuilder {
    pub label_filter: Vec<String>,
}

impl SomaFilterBuilder {
    pub fn new() -> (r: SomaFilterBuilder)
        ensures
            r.label_filter@.len() == 0,
    {
        SomaFilterBuilder { label_filter: Vec::new() }
    }

    pub fn append_filter(self, key: String, value: String) -> (r: SomaFilterBuilder)
        ensures
            r.label_filter@.len() == self.label_filter@.len() + 1,
            r.label_filter@.drop_last() == self.label_filter@,
            r.label_filter@.last()@ == spec_filter_entry(key@, value@),
    {
        let entry = strutil::concat3(key.as_str(), "=", value.as_str());
        let mut label_filter = self.label_filter;
        label_filter.push(entry);
        proof {
            assert(label_filter@.drop_last() =~= self.label_filter@);
        }
        SomaFilterBuilder { label_filter }
    }

    /// Scopes the filter to resources owned by the given user identity.
    pub fn append_user(self, username: &str) -> (r: SomaFilterBuilder)
        ensures
            r.label_filter@.len() == self.label_filter@.len() + 1,
            r.label_filter@.drop_last() == self.label_filter@,
            r.label_filter@.last()@ == spec_filter_entry("soma.username"@, username@),
    {
        self.append_filter(String::from_str(label_key_username()), String::from_str(username))
    }

    /// Scopes the filter to resources owned by the given repository.
    pub fn append_repo(self, repo_name: &str) -> (r: SomaFilterBuilder)
        ensures
            r.label_filter@.len() == self.label_filter@.len() + 1,
            r.label_filter@.drop_last() == self.label_filter@,
            r.label_filter@.last()@ == spec_filter_entry("soma.repository"@, repo_name@),
    {
        self.append_filter(String::from_str(label_key_repository()), String::from_str(repo_name))
    }

    pub fn build(self) -> (r: SomaFilter)
        ensures
            r.label@ == self.label_filter@,
    {
        SomaFilter { label: self.label_filter }
    }
}

/// The `key=value` rendering is injective for `=`-free keys.
proof fn lemma_filter_entry_injective(a: Seq<char>, b: Seq<char>, c: Seq<char>, d: Seq<char>)
    requires
        eq_free(a),
        eq_free(c),
        spec_filter_entry(a, b) == spec_filter_entry(c, d),
    ensures
        a == c,
        b == d,
{
    reveal_strlit("=");
    assert("="@.len() == 1);
    let e1 = spec_filter_entry(a, b);
    let e2 = spec_filter_entry(c, d);
    assert(e1[a.len() as int] == '=');
    assert(e2[c.len() as int] == '=');
    if a.len() < c.len() {
        assert(e2[a.len() as int] == c[a.len() as int]);
        assert(false);
    }
    if c.len() < a.len() {
        assert(e1[c.len() as int] == a[c.len() as int]);
        assert(false);
    }
    assert forall|i: int| 0 <= i < a.len() implies a[i] == c[i] by {
        assert(e1[i] == a[i]);
        assert(e2[i] == c[i]);
    }
    assert(a =~= c);
    assert(e1.len() == a.len() + 1 + b.len());
    assert(e2.len() == c.len() + 1 + d.len());
    assert(b.len() == d.len());
    assert forall|i: int| 0 <= i < b.len() implies b[i] == d[i] by {
        assert(e1[a.len() + 1 + i] == b[i]);
        assert(e2[c.len() + 1 + i] == d[i]);
    }
    assert(b =~= d);
}

/// Law: a filter scoped to one user and one repository never matches a
/// resource labeled with a different user or a different repository, even
/// when each label individually matches some resource in the pool. The label
/// set is a map (distinct keys) and daemon label keys contain no `=`.
pub proof fn lemma_scoped_filter_excludes_others(
    user_key: Seq<char>,
    user: Seq<char>,
    repo_key: Seq<char>,
    repo: Seq<char>,
    labels: Seq<(Seq<char>, Seq<char>)>,
)
    requires
        eq_free(user_key),
        eq_free(repo_key),
        forall|i: int| 0 <= i < labels.len() ==> eq_free((#[trigger] labels[i]).0),
        forall|i: int, j: int|
            0 <= i < labels.len() && 0 <= j < labels.len() && i != j ==> labels[i].0 != labels[j].0,
        spec_filter_matches(
            seq![spec_filter_entry(user_key, user), spec_filter_entry(repo_key, repo)],
            labels,
        ),
    ensures
        forall|i: int|
            0 <= i < labels.len() && (#[trigger] labels[i]).0 == user_key ==> labels[i].1 == user,
        forall|i: int|
            0 <= i < labels.len() && (#[trigger] labels[i]).0 == repo_key ==> labels[i].1 == repo,
{
    let entries = seq![spec_filter_entry(user_key, user), spec_filter_entry(repo_key, repo)];
    assert(spec_labels_satisfy(labels, entries[0]));
    assert(spec_labels_satisfy(labels, entries[1]));
    let u = choose|i: int|
        0 <= i < labels.len() && spec_filter_entry(labels[i].0, labels[i].1) == entries[0];
    lemma_filter_entry_injective(labels[u].0, labels[u].1, user_key, user);
    let v = choose|i: int|
        0 <= i < labels.len() && spec_filter_entry(labels[i].0, labels[i].1) == entries[1];
    lemma_filter_entry_injective(labels[v].0, labels[v].1, repo_key, repo);
    assert forall|i: int|
        0 <= i < labels.len() && (#[trigger] labels[i]).0 == user_key implies labels[i].1
        == user by {
        assert(i == u);
    }
    assert forall|i: int|
        0 <= i < labels.len() && (#[trigger] labels[i]).0 == repo_key implies labels[i].1
        == repo by {
        assert(i == v);
    }
}

/// The library's own label keys contain no `=`, so the scoped-filter law
/// applies to the filters that `append_user` and `append_repo` build.
pub proof fn lemma_soma_label_keys_eq_free()
    ensures
        eq_free("soma.username"@),
        eq_free("soma.repository"@),
        eq_free("soma.version"@),
{
    reveal_strlit("soma.username");
    reveal_strlit("soma.repository");
    reveal_strlit("soma.version");
    assert(eq_free("soma.username"@)) by {
        assert("soma.username"@ =~= seq![
            's', 'o', 'm', 'a', '.', 'u', 's', 'e', 'r', 'n', 'a', 'm', 'e',
        ]);
    }
    assert(eq_free("soma.repository"@)) by {
        assert("soma.repository"@ =~= seq![
            's', 'o', 'm', 'a', '.', 'r', 'e', 'p', 'o', 's', 'i', 't', 'o', 'r', 'y',
        ]);
    }
    assert(eq_free("soma.version"@)) by {
        assert("soma.version"@ =~= seq!['s', 'o', 'm', 'a', '.', 'v', 'e', 'r', 's', 'i', 'o', 'n']);
    }
}

/// Law, for the library's own keys: the filter that `append_user` and
/// `append_repo` build never matches a resource labeled with a different
/// user or a different repository.
pub proof fn lemma_soma_scoped_filter_excludes_others(
    user: Seq<char>,
    repo: Seq<char>,
    labels: Seq<(Seq<char>, Seq<char>)>,
)
    requires
        forall|i: int| 0 <= i < labels.len() ==> eq_free((#[trigger] labels[i]).0),
        forall|i: int, j: int|
            0 <= i < labels.len() && 0 <= j < labels.len() && i != j ==> labels[i].0 != labels[j].0,
        spec_filter_matches(
            seq![
                spec_filter_entry("soma.username"@, user),
                spec_filter_entry("soma.repository"@, repo),
            ],
            labels,
        ),
    ensures
        forall|i: int|
            0 <= i < labels.len() && (#[trigger] labels[i]).0 == "soma.username"@
                ==> labels[i].1 == user,
        forall|i: int|
            0 <= i < labels.len() && (#[trigger] labels[i]).0 == "soma.repository"@
                ==> labels[i].1 == repo,
{
    lemma_soma_label_keys_eq_free();
    lemma_scoped_filter_excludes_others(
        "soma.username"@,
        user,
        "soma.repository"@,
        repo,
        labels,
    );
}

/// The view of an exec label list, for stating filter laws.
pub open spec fn spec_label_views(labels: Seq<(String, String)>) -> Seq<(Seq<char>, Seq<char>)> {
    labels.map_values(|p: (String, String)| (p.0@, p.1@))
}

/// The plan for one container creation: which image to run, the labels that
/// scope the resource to its owner, and the port binding. The problem's
/// service port is always container port `1337/tcp`, bound to a caller-chosen
/// host port.
pub struct ContainerConfig {
    pub image: String,
    pub labels: Vec<(String, String)>,
    pub container_port: String,
    pub host_port: String,
}

/// Lays out the creation plan for a problem container. Every created resource
/// carries exactly the version, username and repository labels.
pub fn container_config(
    image_name: &str,
    repo_name: &str,
    username: &str,
    version: &str,
    host_port: &str,
) -> (r: ContainerConfig)
    ensures
        r.image@ == image_name@,
        r.labels@.len() == 3,
        r.labels@[0].0@ == "soma.version"@ && r.labels@[0].1@ == version@,
        r.labels@[1].0@ == "soma.username"@ && r.labels@[1].1@ == username@,
        r.labels@[2].0@ == "soma.repository"@ && r.labels@[2].1@ == repo_name@,
        r.container_port@ == "1337/tcp"@,
        r.host_port@ == host_port@,
{
    let mut labels: Vec<(String, String)> = Vec::new();
    labels.push((String::from_str(label_key_version()), String::from_str(version)));
    labels.push((String::from_str(label_key_username()), String::from_str(username)));
    labels.push((String::from_str(label_key_repository()), String::from_str(repo_name)));
    ContainerConfig {
        image: String::from_str(image_name),
        labels,
        container_port: String::from_str("1337/tcp"),
        host_port: String::from_str(host_port),
    }
}

} // verus!
