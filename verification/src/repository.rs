use vstd::prelude::*;
use vstd::string::StringExecFns;

use crate::docker::SomaImage;
use crate::docker::spec_image_from_repo_and_prob_exists;
use crate::docker;
use crate::error::SomaError;
use crate::repo::Backend;
use crate::repo::Manifest;
use crate::repo::RepositoryManager;
use crate::strutil;

verus! {

/// The optional descriptor file at a repository root that declares its
/// problem list.
pub fn list_file_name() -> (r: &'static str)
    ensures
        r@ == "soma-list.toml"@,
{
    "soma-list.toml"
}

/// The declared problem list of a repository: an ordered sequence of
/// relative paths.
pub struct ProblemList {
    pub problems: Vec<String>,
}

impl ProblemList {
    pub fn new(problems: Vec<String>) -> (r: ProblemList)
        ensures
            r.problems == problems,
    {
        ProblemList { problems }
    }

    pub fn problems(&self) -> (r: &Vec<String>)
        ensures
            r == &self.problems,
    {
        &self.problems
    }

    /// Checks the declared entries against their canonical forms, which the
    /// caller resolves on disk beforehand (one per entry, in order; `None`
    /// where an entry is not resolvable). Rejects the list when any entry is
    /// unresolvable or two entries canonicalize to the same path.
    pub fn sanity_check(&self, canonical: &Vec<Option<String>>) -> (r: Result<(), SomaError>)
        requires
            canonical@.len() == self.problems@.len(),
        ensures
            r is Ok <==> (forall|i: int|
                0 <= i < canonical@.len() ==> (#[trigger] canonical@[i]) is Some) && (forall|
                i: int,
                j: int,
            |
                0 <= i < j < canonical@.len() ==> (#[trigger] canonical@[i])->0@ != (
                #[trigger] canonical@[j])->0@),
            r is Err ==> r == Err::<(), SomaError>(SomaError::InvalidProblemList),
    {
        let n = canonical.len();
        let mut i: usize = 0;
        while i < n
            invariant
                i <= n,
                n == canonical@.len(),
                forall|k: int| 0 <= k < i ==> (#[trigger] canonical@[k]) is Some,
                forall|k: int, l: int|
                    0 <= k < l < i ==> (#[trigger] canonical@[k])->0@ != (
                    #[trigger] canonical@[l])->0@,
            decreases n - i,
        {
            let ci = match &canonical[i] {
                Some(c) => c,
                None => {
                    return Err(SomaError::InvalidProblemList);
                },
            };
            let mut j: usize = 0;
            while j < i
                invariant
                    j <= i,
                    i < n,
                    n == canonical@.len(),
                    canonical@[i as int] matches Some(c) && c == ci,
                    forall|k: int| 0 <= k < i ==> (#[trigger] canonical@[k]) is Some,
                    forall|k: int| 0 <= k < j ==> (#[trigger] canonical@[k])->0@ != ci@,
                decreases i - j,
            {
                let cj = match &canonical[j] {
                    Some(c) => c,
                    None => {
                        return Err(SomaError::InvalidProblemList);
                    },
                };
                if strutil::str_eq(cj.as_str(), ci.as_str()) {
                    return Err(SomaError::InvalidProblemList);
                }
                j += 1;
            }
            i += 1;
        }
        Ok(())
    }
}

/// The mapping from one discovered problem's name to its path within the
/// repository.
#[derive(Clone, Debug, PartialEq, Eq, Hash)]
pub struct ProblemIndex {
    pub name: String,
    pub path: String,
}

/// Builds the index entry for one declared problem path from the manifest
/// found there; a missing manifest makes the repository invalid. Reading the
/// manifest file itself is the caller's part.
pub fn read_prob_manifest(manifest: Option<&Manifest>, prob_relative_path: &str) -> (r: Result<
    ProblemIndex,
    SomaError,
>)
    ensures
        match r {
            Ok(p) => manifest matches Some(m) && p.name@ == m.name@ && p.path@
                == prob_relative_path@,
            Err(e) => manifest is None && e == SomaError::InvalidRepository,
        },
{
    match manifest {
        Some(m) => Ok(
            ProblemIndex {
                name: m.name().clone(),
                path: String::from_str(prob_relative_path),
            },
        ),
        None => Err(SomaError::InvalidRepository),
    }
}

/// The paths a repository's problems are read from: the declared list when a
/// descriptor exists, else the repository root as a single problem.
pub fn declared_problem_paths(list: Option<&ProblemList>) -> (r: Vec<String>)
    ensures
        match list {
            Some(l) => r@ == l.problems@,
            None => r@.len() == 1 && r@[0]@ == "./"@,
        },
{
    match list {
        Some(l) => l.problems.clone(),
        None => {
            let mut r: Vec<String> = Vec::new();
            r.push(String::from_str("./"));
            r
        },
    }
}

/// Problem names within one repository must be unique; a duplicate across a
/// problem list is a load-time error, never silently deduplicated.
pub fn check_unique_prob_names(list: &Vec<ProblemIndex>) -> (r: Result<(), SomaError>)
    ensures
        r is Ok <==> (forall|i: int, j: int|
            0 <= i < j < list@.len() ==> (#[trigger] list@[i]).name@ != (
            #[trigger] list@[j]).name@),
        r is Err ==> r == Err::<(), SomaError>(SomaError::InvalidProblemList),
{
    let n = list.len();
    let mut i: usize = 0;
    while i < n
        invariant
            i <= n,
            n == list@.len(),
            forall|k: int, l: int|
                0 <= k < l < i ==> (#[trigger] list@[k]).name@ != (#[trigger] list@[l]).name@,
        decreases n - i,
    {
        let mut j: usize = 0;
        while j < i
            invariant
                j <= i,
                i < n,
                n == list@.len(),
                forall|k: int| 0 <= k < j ==> (#[trigger] list@[k]).name@ != list@[i as int].name@,
            decreases i - j,
        {
            if strutil::str_eq(list[j].name.as_str(), list[i].name.as_str()) {
                return Err(SomaError::InvalidProblemList);
            }
            j += 1;
        }
        i += 1;
    }
    Ok(())
}

/// One synchronized repository: its name, its backend, the problem index
/// resolved from its materialized content, and the manager that maps its
/// name to the local cache path. The problem index always reflects the
/// content last committed by `update`, which replaces it as a unit.
pub struct Repository<'a> {
    pub name: String,
    pub backend: Backend,
    pub prob_list: Vec<ProblemIndex>,
    pub manager: &'a RepositoryManager,
}

/// The names of the problems in an index, in order.
pub open spec fn spec_prob_names(prob_list: Seq<ProblemIndex>) -> Seq<Seq<char>> {
    prob_list.map_values(|p: ProblemIndex| p.name@)
}

/// The update safety condition: no problem that the new list drops still has
/// an image built from this repository. Violating it would orphan an
/// artifact the user could no longer rebuild or clean by name.
pub open spec fn spec_update_allowed(
    current: Seq<ProblemIndex>,
    new: Seq<ProblemIndex>,
    images: Seq<SomaImage>,
    repo_name: Seq<char>,
) -> bool {
    forall|n: Seq<char>|
        spec_prob_names(current).contains(n) && !spec_prob_names(new).contains(n)
            ==> !spec_image_from_repo_and_prob_exists(images, repo_name, n)
}

fn contains_name(list: &Vec<ProblemIndex>, name: &str) -> (r: bool)
    ensures
        r == spec_prob_names(list@).contains(name@),
{
    let mut i: usize = 0;
    while i < list.len()
        invariant
            i <= list@.len(),
            forall|k: int| 0 <= k < i ==> (#[trigger] list@[k]).name@ != name@,
        decreases list@.len() - i,
    {
        if strutil::str_eq(list[i].name.as_str(), name) {
            proof {
                assert(spec_prob_names(list@)[i as int] == name@);
            }
            return true;
        }
        i += 1;
    }
    proof {
        if spec_prob_names(list@).contains(name@) {
            let k = choose|k: int|
                0 <= k < spec_prob_names(list@).len() && spec_prob_names(list@)[k] == name@;
            assert(list@[k].name@ == name@);
        }
    }
    false
}

impl<'a> Repository<'a> {
    pub fn new(
        name: String,
        backend: Backend,
        prob_list: Vec<ProblemIndex>,
        manager: &'a RepositoryManager,
    ) -> (r: Repository<'a>)
        ensures
            r.name == name,
            r.backend == backend,
            r.prob_list == prob_list,
            r.manager == manager,
    {
        Repository { name, backend, prob_list, manager }
    }

    pub fn name(&self) -> (r: &String)
        ensures
            r == &self.name,
    {
        &self.name
    }

    pub fn backend(&self) -> (r: &Backend)
        ensures
            r == &self.backend,
    {
        &self.backend
    }

    pub fn manager(&self) -> (r: &'a RepositoryManager)
        ensures
            r == self.manager,
    {
        self.manager
    }

    /// Where this repository's cache lives on disk.
    pub fn path(&self) -> (r: String)
        ensures
            r@ == self.manager.root_path@ + "/"@ + self.name@,
    {
        self.manager.repo_path(self.name.as_str())
    }

    /// The names of this repository's problems, in index order.
    pub fn prob_name_iter(&self) -> (r: Vec<String>)
        ensures
            r@.map_values(|s: String| s@) == spec_prob_names(self.prob_list@),
    {
        let mut r: Vec<String> = Vec::new();
        let mut i: usize = 0;
        while i < self.prob_list.len()
            invariant
                i <= self.prob_list@.len(),
                r@.map_values(|s: String| s@) =~= spec_prob_names(
                    self.prob_list@.subrange(0, i as int),
                ),
            decreases self.prob_list@.len() - i,
        {
            let ghost prev = r@;
            r.push(self.prob_list[i].name.clone());
            proof {
                assert(self.prob_list@.subrange(0, i + 1) =~= self.prob_list@.subrange(
                    0,
                    i as int,
                ).push(self.prob_list@[i as int]));
                assert(r@.map_values(|s: String| s@) =~= prev.map_values(|s: String| s@).push(
                    r@.last()@,
                ));
                assert(r@.map_values(|s: String| s@) =~= spec_prob_names(
                    self.prob_list@.subrange(0, i + 1),
                ));
            }
            i += 1;
        }
        proof {
            assert(self.prob_list@.subrange(0, self.prob_list@.len() as int) =~= self.prob_list@);
            assert(r@.map_values(|s: String| s@) =~= spec_prob_names(self.prob_list@));
        }
        r
    }

    /// Whether committing `new_prob_list` would pass the update safety
    /// check against the given pool of known images.
    pub fn update_allowed(&self, new_prob_list: &Vec<ProblemIndex>, images: &Vec<SomaImage>) -> (r:
        bool)
        ensures
            r == spec_update_allowed(self.prob_list@, new_prob_list@, images@, self.name@),
    {
        let mut i: usize = 0;
        while i < self.prob_list.len()
            invariant
                i <= self.prob_list@.len(),
                forall|k: int|
                    0 <= k < i ==> {
                        let n = (#[trigger] self.prob_list@[k]).name@;
                        spec_prob_names(new_prob_list@).contains(n)
                            || !spec_image_from_repo_and_prob_exists(images@, self.name@, n)
                    },
            decreases self.prob_list@.len() - i,
        {
            let prob_name = &self.prob_list[i].name;
            if !contains_name(new_prob_list, prob_name.as_str()) {
                if docker::image_from_repo_and_prob_exists(
                    images,
                    self.name.as_str(),
                    prob_name.as_str(),
                ) {
                    proof {
                        assert(spec_prob_names(self.prob_list@)[i as int] == prob_name@);
                        assert(spec_prob_names(self.prob_list@).contains(prob_name@));
                    }
                    return false;
                }
            }
            i += 1;
        }
        proof {
            if !spec_update_allowed(self.prob_list@, new_prob_list@, images@, self.name@) {
                let n = choose|n: Seq<char>|
                    spec_prob_names(self.prob_list@).contains(n) && !spec_prob_names(
                        new_prob_list@,
                    ).contains(n) && spec_image_from_repo_and_prob_exists(images@, self.name@, n);
                let k = choose|k: int|
                    0 <= k < spec_prob_names(self.prob_list@).len() && spec_prob_names(
                        self.prob_list@,
                    )[k] == n;
                assert(self.prob_list@[k].name@ == n);
            }
        }
        true
    }

    /// The update commit point: replaces the problem index as a unit when the
    /// safety check passes against the known images, and rejects the update
    /// wholesale — the index completely untouched — when it does not. The
    /// caller stages, resolves `new_prob_list` from the staged content, and
    /// re-materializes the live cache around this call; no intermediate index
    /// state is ever visible.
    pub fn update(&mut self, new_prob_list: Vec<ProblemIndex>, images: &Vec<SomaImage>) -> (r:
        Result<(), SomaError>)
        ensures
            spec_update_allowed(old(self).prob_list@, new_prob_list@, images@, old(self).name@)
                ==> r is Ok && final(self).prob_list == new_prob_list,
            !spec_update_allowed(old(self).prob_list@, new_prob_list@, images@, old(self).name@)
                ==> r == Err::<(), SomaError>(SomaError::UnsupportedUpdate) && final(self).prob_list
                == old(self).prob_list,
            final(self).name == old(self).name,
            final(self).backend == old(self).backend,
            final(self).manager == old(self).manager,
    {
        if !self.update_allowed(&new_prob_list, images) {
            return Err(SomaError::UnsupportedUpdate);
        }
        self.prob_list = new_prob_list;
        Ok(())
    }
}

} // verus!
