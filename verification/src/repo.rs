use vstd::prelude::*;
use vstd::string::StrSliceExecFns;
use vstd::string::StringExecFns;

use crate::error::SomaError;
use crate::strutil;
use crate::strutil::ends_with;
use crate::strutil::file_name_of;

verus! {

/// The manifest file that every problem directory must hold at its root.
pub fn manifest_file_name() -> (r: &'static str)
    ensures
        r@ == "soma.toml"@,
{
    "soma.toml"
}

/// The data source a repository synchronizes from: a remote version-controlled
/// source reached by address, or a local directory reached by path. Immutable
/// after creation; a closed pair of variants that callers handle exhaustively.
#[derive(Clone, Debug, PartialEq)]
pub enum Backend {
    GitBackend(String),
    LocalBackend(String),
}

impl Backend {
    /// A human-readable description of the backend, for listings.
    pub fn description(&self) -> (r: String)
        ensures
            match self {
                Backend::GitBackend(url) => r@ == "Git: "@ + url@,
                Backend::LocalBackend(path) => r@ == "Local: "@ + path@,
            },
    {
        match self {
            Backend::GitBackend(url) => strutil::concat2("Git: ", url.as_str()),
            Backend::LocalBackend(path) => strutil::concat2("Local: ", path.as_str()),
        }
    }
}

/// What the address parser yields as the last path segment of an address, if
/// the address parses as an absolute URL with a path at all.
pub uninterp spec fn url_last_segment(address: Seq<char>) -> Option<Seq<char>>;

/// Relies on `url::Url::parse` and `url::Url::path_segments`: an address
/// either fails to parse (or cannot be a base), or carries at least one
/// `/`-separated path segment; the outcome is a function of the address
/// string alone.
#[verifier::external_body]
fn url_last_path_segment(address: &str) -> (r: Option<String>)
    ensures
        match r {
            Some(seg) => url_last_segment(address@) == Some(seg@),
            None => url_last_segment(address@) is None,
        },
{
    match url::Url::parse(address) {
        Ok(parsed) => match parsed.path_segments() {
            Some(segments) => segments.last().map(str::to_owned),
            None => None,
        },
        Err(_) => None,
    }
}

/// A remote address's repository name: its last path segment, with one
/// trailing `.git` stripped.
pub open spec fn spec_git_repo_name(segment: Seq<char>) -> Seq<char> {
    if ends_with(segment, ".git"@) {
        segment.subrange(0, segment.len() - ".git"@.len())
    } else {
        segment
    }
}

fn git_repo_name(segment: &str) -> (r: String)
    ensures
        r@ == spec_git_repo_name(segment@),
{
    if strutil::str_ends_with(segment, ".git") {
        proof {
            reveal_strlit(".git");
        }
        let len = segment.unicode_len();
        String::from_str(segment.substring_char(0, len - 4))
    } else {
        String::from_str(segment)
    }
}

/// Derives the registration entry for a remote address: the name is the
/// address's last path segment with a trailing `.git` stripped, the backend
/// records the address itself.
pub fn parse_git_repo_url(address: &str) -> (r: Result<(String, Backend), SomaError>)
    ensures
        match r {
            Ok(p) => match url_last_segment(address@) {
                Some(seg) => p.0@ == spec_git_repo_name(seg) && (p.1 matches Backend::GitBackend(u)
                    && u@ == address@),
                None => false,
            },
            Err(e) => url_last_segment(address@) is None && e
                == SomaError::InvalidRepositoryPathError,
        },
{
    match url_last_path_segment(address) {
        Some(seg) => Ok((git_repo_name(seg.as_str()), Backend::GitBackend(String::from_str(
            address,
        )))),
        None => Err(SomaError::InvalidRepositoryPathError),
    }
}

/// Derives the registration entry for a local directory: the name is `#`
/// prefixed to the path's file name; the backend records the canonical path,
/// which the caller resolves beforehand (resolution needs the filesystem).
pub fn parse_local_repo_path(path: &str, canonical_path: String) -> (r: Result<
    (String, Backend),
    SomaError,
>)
    ensures
        match r {
            Ok(p) => file_name_of(path@) is Some && p.0@ == "#"@ + file_name_of(path@).unwrap()
                && (p.1 matches Backend::LocalBackend(c) && c@ == canonical_path@),
            Err(e) => file_name_of(path@) is None && e == SomaError::InvalidRepositoryPathError,
        },
{
    match strutil::file_name(path) {
        Some(base) => Ok(
            (strutil::concat2("#", base.as_str()), Backend::LocalBackend(canonical_path)),
        ),
        None => Err(SomaError::InvalidRepositoryPathError),
    }
}

/// The backend registered under a name, first registration wins; registration
/// rejects duplicates, so at most one exists.
pub open spec fn spec_registration_get(regs: Seq<(String, Backend)>, name: Seq<char>) -> Option<
    Backend,
>
    decreases regs.len(),
{
    if regs.len() == 0 {
        None
    } else if regs[0].0@ == name {
        Some(regs[0].1)
    } else {
        spec_registration_get(regs.drop_first(), name)
    }
}

/// Owns the set of registered repositories: the authoritative source of truth
/// for which repositories exist, and the deterministic mapping from a
/// registered name to its on-disk cache location under `root_path`.
pub struct RepositoryManager {
    pub root_path: String,
    pub registrations: Vec<(String, Backend)>,
}

impl RepositoryManager {
    pub open spec fn spec_has_name(&self, name: Seq<char>) -> bool {
        exists|i: int|
            0 <= i < self.registrations@.len() && (#[trigger] self.registrations@[i]).0@ == name
    }

    pub fn new(root_path: String) -> (r: RepositoryManager)
        ensures
            r.root_path == root_path,
            r.registrations@.len() == 0,
    {
        RepositoryManager { root_path, registrations: Vec::new() }
    }

    /// Registers a new repository under `name`; rejects a name that is
    /// already taken and leaves the registration state untouched then.
    pub fn add_repo(&mut self, name: String, backend: Backend) -> (r: Result<(), SomaError>)
        ensures
            old(self).spec_has_name(name@) ==> r == Err::<(), SomaError>(
                SomaError::DuplicateRepository,
            ) && *final(self) == *old(self),
            !old(self).spec_has_name(name@) ==> r is Ok && final(self).root_path == old(
                self,
            ).root_path && final(self).registrations@ == old(self).registrations@.push(
                (name, backend),
            ),
    {
        let mut i: usize = 0;
        while i < self.registrations.len()
            invariant
                i <= self.registrations@.len(),
                forall|k: int| 0 <= k < i ==> (#[trigger] self.registrations@[k]).0@ != name@,
            decreases self.registrations@.len() - i,
        {
            if strutil::str_eq(self.registrations[i].0.as_str(), name.as_str()) {
                return Err(SomaError::DuplicateRepository);
            }
            i += 1;
        }
        self.registrations.push((name, backend));
        Ok(())
    }

    /// The on-disk cache location for a registered name: a pure mapping, no
    /// filesystem involved.
    pub fn repo_path(&self, name: &str) -> (r: String)
        ensures
            r@ == self.root_path@ + "/"@ + name@,
    {
        strutil::concat3(self.root_path.as_str(), "/", name)
    }

    /// The backend registered under `name`, if any.
    pub fn get(&self, name: &str) -> (r: Option<&Backend>)
        ensures
            match r {
                Some(b) => spec_registration_get(self.registrations@, name@) == Some(*b),
                None => spec_registration_get(self.registrations@, name@) is None,
            },
    {
        let mut i: usize = 0;
        proof {
            assert(self.registrations@.skip(0) =~= self.registrations@);
        }
        while i < self.registrations.len()
            invariant
                i <= self.registrations@.len(),
                spec_registration_get(self.registrations@, name@) == spec_registration_get(
                    self.registrations@.skip(i as int),
                    name@,
                ),
            decreases self.registrations@.len() - i,
        {
            proof {
                assert(self.registrations@.skip(i as int)[0] == self.registrations@[i as int]);
                assert(self.registrations@.skip(i as int).drop_first() =~= self.registrations@.skip(
                    i + 1,
                ));
            }
            if strutil::str_eq(self.registrations[i].0.as_str(), name) {
                return Some(&self.registrations[i].1);
            }
            i += 1;
        }
        proof {
            assert(self.registrations@.skip(self.registrations@.len() as int) =~= Seq::<
                (String, Backend),
            >::empty());
        }
        None
    }

    /// The registration state, name to backend, in registration order.
    pub fn registrations(&self) -> (r: &Vec<(String, Backend)>)
        ensures
            r == &self.registrations,
    {
        &self.registrations
    }
}

/// One registered repository: its name, its backend, and the manager that
/// maps its name to the local cache path.
pub struct Repository<'a> {
    pub name: String,
    pub backend: Backend,
    pub manager: &'a RepositoryManager,
}

impl<'a> Repository<'a> {
    pub fn new(name: String, backend: Backend, manager: &'a RepositoryManager) -> (r: Repository<
        'a,
    >)
        ensures
            r.name == name,
            r.backend == backend,
            r.manager == manager,
    {
        Repository { name, backend, manager }
    }

    pub fn name(&self) -> (r: &String)
        ensures
            r == &self.name,
    {
        &self.name
    }

    pub fn backend(&self) -> (r: &Backend)
        ensures
            r == &self.backend,
    {
        &self.backend
    }

    pub fn manager(&self) -> (r: &'a RepositoryManager)
        ensures
            r == self.manager,
    {
        self.manager
    }

    /// Where this repository's cache lives on disk.
    pub fn local_path(&self) -> (r: String)
        ensures
            r@ == self.manager.root_path@ + "/"@ + self.name@,
    {
        self.manager.repo_path(self.name.as_str())
    }
}

/// A concrete permission value for one deployed file: a fixed default for
/// the executable group, a fixed default for the read-only group, or an
/// explicit octal override, always at most `0o777`.
#[derive(Clone, Copy, Debug, PartialEq, Eq, Structural)]
pub enum FilePermissions {
    Custom(u16),
    Executable,
    ReadOnly,
}

impl FilePermissions {
    /// The permission bits this value stands for.
    pub open spec fn spec_value(self) -> u16 {
        match self {
            FilePermissions::Custom(v) => v,
            FilePermissions::Executable => 0o550,
            FilePermissions::ReadOnly => 0o440,
        }
    }

    /// No sentinel "unset" state: every value lies in `[0, 0o777]`.
    pub open spec fn spec_wf(self) -> bool {
        self.spec_value() <= 0o777
    }
}

pub open spec fn is_octal_digit(c: char) -> bool {
    c == '0' || c == '1' || c == '2' || c == '3' || c == '4' || c == '5' || c == '6' || c == '7'
}

pub open spec fn octal_digit_value(c: char) -> nat {
    if c == '0' {
        0
    } else if c == '1' {
        1
    } else if c == '2' {
        2
    } else if c == '3' {
        3
    } else if c == '4' {
        4
    } else if c == '5' {
        5
    } else if c == '6' {
        6
    } else {
        7
    }
}

pub open spec fn all_octal_digits(s: Seq<char>) -> bool {
    forall|i: int| 0 <= i < s.len() ==> is_octal_digit(s[i])
}

/// The numeric value of an octal digit string.
pub open spec fn octal_value(s: Seq<char>) -> nat
    decreases s.len(),
{
    if s.len() == 0 {
        0
    } else {
        octal_value(s.drop_last()) * 8 + octal_digit_value(s.last())
    }
}

pub open spec fn octal_digit_char(d: nat) -> char {
    if d == 0 {
        '0'
    } else if d == 1 {
        '1'
    } else if d == 2 {
        '2'
    } else if d == 3 {
        '3'
    } else if d == 4 {
        '4'
    } else if d == 5 {
        '5'
    } else if d == 6 {
        '6'
    } else {
        '7'
    }
}

/// The octal digit string of a value, without leading zeros.
pub open spec fn octal_digits(v: nat) -> Seq<char>
    decreases v,
{
    if v < 8 {
        seq![octal_digit_char(v)]
    } else {
        octal_digits(v / 8).push(octal_digit_char(v % 8))
    }
}

/// Parsing succeeds exactly for a nonempty base-8 digit string whose value is
/// at most `0o777`.
pub open spec fn spec_parse_permissions(s: Seq<char>) -> Result<FilePermissions, SomaError> {
    if s.len() > 0 && all_octal_digits(s) && octal_value(s) <= 0o777 {
        Ok(FilePermissions::Custom(octal_value(s) as u16))
    } else {
        Err(SomaError::InvalidPermissionString)
    }
}

proof fn lemma_octal_prefix_le(s: Seq<char>, i: int)
    requires
        0 <= i <= s.len(),
    ensures
        octal_value(s.subrange(0, i)) <= octal_value(s),
    decreases s.len() - i,
{
    if i == s.len() {
        assert(s.subrange(0, i) =~= s);
    } else {
        lemma_octal_prefix_le(s, i + 1);
        assert(s.subrange(0, i + 1).drop_last() =~= s.subrange(0, i));
        assert(octal_value(s.subrange(0, i + 1)) == octal_value(s.subrange(0, i)) * 8
            + octal_digit_value(s.subrange(0, i + 1).last()));
    }
}

impl FilePermissions {
    /// Parses a permission override string: valid base-8, at most `0o777`.
    pub fn parse(s: &str) -> (r: Result<FilePermissions, SomaError>)
        ensures
            r == spec_parse_permissions(s@),
    {
        let len = s.unicode_len();
        if len == 0 {
            return Err(SomaError::InvalidPermissionString);
        }
        let mut acc: u16 = 0;
        let mut i: usize = 0;
        proof {
            assert(s@.subrange(0, 0) =~= Seq::<char>::empty());
        }
        while i < len
            invariant
                i <= len,
                len == s@.len(),
                all_octal_digits(s@.subrange(0, i as int)),
                acc as nat == octal_value(s@.subrange(0, i as int)),
                acc <= 0o777,
            decreases len - i,
        {
            let c = s.get_char(i);
            let d: u16 = match c {
                '0' => 0,
                '1' => 1,
                '2' => 2,
                '3' => 3,
                '4' => 4,
                '5' => 5,
                '6' => 6,
                '7' => 7,
                _ => {
                    assert(!is_octal_digit(s@[i as int]));
                    return Err(SomaError::InvalidPermissionString);
                },
            };
            let next: u16 = acc * 8 + d;
            proof {
                assert(s@.subrange(0, i + 1).drop_last() =~= s@.subrange(0, i as int));
                assert(s@.subrange(0, i + 1).last() == s@[i as int]);
            }
            if next > 0o777 {
                proof {
                    lemma_octal_prefix_le(s@, i + 1);
                }
                return Err(SomaError::InvalidPermissionString);
            }
            acc = next;
            i += 1;
        }
        proof {
            assert(s@.subrange(0, len as int) =~= s@);
        }
        Ok(FilePermissions::Custom(acc))
    }
}

fn octal_digit_str(d: u16) -> (r: &'static str)
    requires
        d < 8,
    ensures
        r@ == seq![octal_digit_char(d as nat)],
{
    proof {
        reveal_strlit("0");
        reveal_strlit("1");
        reveal_strlit("2");
        reveal_strlit("3");
        reveal_strlit("4");
        reveal_strlit("5");
        reveal_strlit("6");
        reveal_strlit("7");
    }
    match d {
        0 => "0",
        1 => "1",
        2 => "2",
        3 => "3",
        4 => "4",
        5 => "5",
        6 => "6",
        _ => "7",
    }
}

fn push_octal(s: &mut String, v: u16)
    ensures
        final(s)@ == old(s)@ + octal_digits(v as nat),
    decreases v,
{
    if v < 8 {
        s.append(octal_digit_str(v));
    } else {
        push_octal(s, v / 8);
        s.append(octal_digit_str(v % 8));
        proof {
            assert(old(s)@ + octal_digits((v / 8) as nat) + seq![octal_digit_char((v % 8) as nat)]
                =~= old(s)@ + octal_digits(v as nat));
        }
    }
}

/// An octal digit string filled with leading zeros up to three digits; a
/// longer string is kept as it is.
pub open spec fn zero_pad3(s: Seq<char>) -> Seq<char> {
    if s.len() >= 3 {
        s
    } else if s.len() == 2 {
        seq!['0'] + s
    } else if s.len() == 1 {
        seq!['0', '0'] + s
    } else {
        seq!['0', '0', '0']
    }
}

proof fn lemma_octal_digits_len(v: nat)
    ensures
        octal_digits(v).len() >= 1,
        v < 8 ==> octal_digits(v).len() == 1,
        8 <= v < 64 ==> octal_digits(v).len() == 2,
        v >= 64 ==> octal_digits(v).len() >= 3,
    decreases v,
{
    if v >= 8 {
        lemma_octal_digits_len(v / 8);
    }
}

/// The serialized form of a permission value: the fixed strings for the two
/// defaults, the three-digit zero-padded octal string for an override.
pub open spec fn spec_permissions_string(p: FilePermissions) -> Seq<char> {
    match p {
        FilePermissions::Custom(v) => zero_pad3(octal_digits(v as nat)),
        FilePermissions::Executable => "550"@,
        FilePermissions::ReadOnly => "440"@,
    }
}

impl FilePermissions {
    /// Renders this permission value as a three-digit octal string.
    pub fn permissions_string(&self) -> (r: String)
        ensures
            r@ == spec_permissions_string(*self),
    {
        match self {
            FilePermissions::Custom(v) => {
                let mut s = String::new();
                if *v < 8 {
                    s.append("00");
                } else if *v < 64 {
                    s.append("0");
                }
                push_octal(&mut s, *v);
                proof {
                    lemma_octal_digits_len(*v as nat);
                    reveal_strlit("00");
                    reveal_strlit("0");
                    assert("00"@ =~= seq!['0', '0']);
                    assert("0"@ =~= seq!['0']);
                    assert(s@ =~= zero_pad3(octal_digits(*v as nat)));
                }
                s
            },
            FilePermissions::Executable => String::from_str("550"),
            FilePermissions::ReadOnly => String::from_str("440"),
        }
    }
}

/// One file of a problem's deployment plan, as declared: where it comes
/// from, whether it is public, and optionally where it should land.
#[derive(Debug, PartialEq)]
pub struct FileEntry {
    pub path: String,
    pub public: Option<bool>,
    pub target_path: Option<String>,
}

pub ghost struct FileEntryV {
    pub path: Seq<char>,
    pub public: Option<bool>,
    pub target_path: Option<Seq<char>>,
}

impl View for FileEntry {
    type V = FileEntryV;

    open spec fn view(&self) -> FileEntryV {
        FileEntryV {
            path: self.path@,
            public: self.public,
            target_path: match self.target_path {
                Some(t) => Some(t@),
                None => None,
            },
        }
    }
}

/// The declared binary section of a manifest: platform, command, and the two
/// file groups.
#[derive(Debug, PartialEq)]
pub struct BinaryConfig {
    pub os: String,
    pub cmd: String,
    pub executable: Vec<FileEntry>,
    pub readonly: Vec<FileEntry>,
}

pub ghost struct BinaryConfigV {
    pub os: Seq<char>,
    pub cmd: Seq<char>,
    pub executable: Seq<FileEntryV>,
    pub readonly: Seq<FileEntryV>,
}

impl View for BinaryConfig {
    type V = BinaryConfigV;

    open spec fn view(&self) -> BinaryConfigV {
        BinaryConfigV {
            os: self.os@,
            cmd: self.cmd@,
            executable: self.executable@.map_values(|e: FileEntry| e@),
            readonly: self.readonly@.map_values(|e: FileEntry| e@),
        }
    }
}

/// A declarative problem manifest, read-only once parsed.
#[derive(Debug, PartialEq)]
pub struct Manifest {
    pub name: String,
    pub work_dir: Option<String>,
    pub binary: BinaryConfig,
}

pub ghost struct ManifestV {
    pub name: Seq<char>,
    pub work_dir: Option<Seq<char>>,
    pub binary: BinaryConfigV,
}

impl View for Manifest {
    type V = ManifestV;

    open spec fn view(&self) -> ManifestV {
        ManifestV {
            name: self.name@,
            work_dir: match self.work_dir {
                Some(w) => Some(w@),
                None => None,
            },
            binary: self.binary@,
        }
    }
}

/// One fully resolved file placement: concrete target path and concrete
/// permission value.
#[derive(Debug, PartialEq)]
pub struct SolidFileEntry {
    pub path: String,
    pub public: bool,
    pub target_path: String,
    pub permissions: FilePermissions,
}

pub ghost struct SolidFileEntryV {
    pub path: Seq<char>,
    pub public: bool,
    pub target_path: Seq<char>,
    pub permissions: FilePermissions,
}

impl View for SolidFileEntry {
    type V = SolidFileEntryV;

    open spec fn view(&self) -> SolidFileEntryV {
        SolidFileEntryV {
            path: self.path@,
            public: self.public,
            target_path: self.target_path@,
            permissions: self.permissions,
        }
    }
}

#[derive(Debug, PartialEq)]
pub struct SolidBinaryConfig {
    pub os: String,
    pub cmd: String,
    pub file_entries: Vec<SolidFileEntry>,
}

pub ghost struct SolidBinaryConfigV {
    pub os: Seq<char>,
    pub cmd: Seq<char>,
    pub file_entries: Seq<SolidFileEntryV>,
}

impl View for SolidBinaryConfig {
    type V = SolidBinaryConfigV;

    open spec fn view(&self) -> SolidBinaryConfigV {
        SolidBinaryConfigV {
            os: self.os@,
            cmd: self.cmd@,
            file_entries: self.file_entries@.map_values(|e: SolidFileEntry| e@),
        }
    }
}

/// The fully resolved form of a manifest: derived by `solidify`, never the
/// authoritative source.
#[derive(Debug, PartialEq)]
pub struct SolidManifest {
    pub name: String,
    pub work_dir: String,
    pub binary: SolidBinaryConfig,
}

pub ghost struct SolidManifestV {
    pub name: Seq<char>,
    pub work_dir: Seq<char>,
    pub binary: SolidBinaryConfigV,
}

impl View for SolidManifest {
    type V = SolidManifestV;

    open spec fn view(&self) -> SolidManifestV {
        SolidManifestV { name: self.name@, work_dir: self.work_dir@, binary: self.binary@ }
    }
}

/// The resolved work directory: the manifest's explicit value if present,
/// else the per-problem home-directory convention.
pub open spec fn spec_work_dir(m: ManifestV) -> Seq<char> {
    match m.work_dir {
        Some(w) => w,
        None => "/home/"@ + m.name,
    }
}

/// Whether an entry can be resolved at all: either its target is explicit,
/// or its source path has a usable file name.
pub open spec fn spec_entry_ok(e: FileEntryV) -> bool {
    e.target_path is Some || file_name_of(e.path) is Some
}

/// The resolved target: the explicit one verbatim, else the work directory
/// joined to the source's file name with a forward slash — the target is a
/// path inside a container, never a host path.
pub open spec fn spec_target_path(e: FileEntryV, work_dir: Seq<char>) -> Seq<char> {
    match e.target_path {
        Some(t) => t,
        None => work_dir + "/"@ + file_name_of(e.path).unwrap(),
    }
}

pub open spec fn spec_solidify_entry(
    e: FileEntryV,
    work_dir: Seq<char>,
    permissions: FilePermissions,
) -> SolidFileEntryV {
    SolidFileEntryV {
        path: e.path,
        public: match e.public {
            Some(b) => b,
            None => false,
        },
        target_path: spec_target_path(e, work_dir),
        permissions,
    }
}

pub open spec fn spec_entries_ok(entries: Seq<FileEntryV>) -> bool {
    forall|i: int| 0 <= i < entries.len() ==> spec_entry_ok(#[trigger] entries[i])
}

/// The resolved binary section: the executable group with its fixed default
/// permission, then the read-only group with its own, in declaration order.
pub open spec fn spec_solidify_binary(b: BinaryConfigV, work_dir: Seq<char>) -> Result<
    SolidBinaryConfigV,
    SomaError,
> {
    if spec_entries_ok(b.executable) && spec_entries_ok(b.readonly) {
        Ok(
            SolidBinaryConfigV {
                os: b.os,
                cmd: b.cmd,
                file_entries: b.executable.map_values(
                    |e: FileEntryV| spec_solidify_entry(e, work_dir, FilePermissions::Executable),
                ) + b.readonly.map_values(
                    |e: FileEntryV| spec_solidify_entry(e, work_dir, FilePermissions::ReadOnly),
                ),
            },
        )
    } else {
        Err(SomaError::FileNameNotFoundError)
    }
}

/// Solidification as a pure function of the manifest.
pub open spec fn spec_solidify(m: ManifestV) -> Result<SolidManifestV, SomaError> {
    match spec_solidify_binary(m.binary, spec_work_dir(m)) {
        Ok(b) => Ok(SolidManifestV { name: m.name, work_dir: spec_work_dir(m), binary: b }),
        Err(e) => Err(e),
    }
}

/// Law: solidification is deterministic — it is a function of the manifest
/// value alone, so equal manifests solidify to equal plans.
pub proof fn lemma_solidify_deterministic(m1: ManifestV, m2: ManifestV)
    requires
        m1 == m2,
    ensures
        spec_solidify(m1) == spec_solidify(m2),
{
}

/// Law: a parsed permission override never exceeds `0o777`.
pub proof fn lemma_parsed_permissions_wf(s: Seq<char>)
    ensures
        spec_parse_permissions(s) matches Ok(p) ==> p.spec_wf(),
{
}

/// Law: no sentinel "unset" state escapes solidification — every file entry
/// of a solidified manifest carries a permission value in `[0, 0o777]`.
pub proof fn lemma_solid_permissions_wf(m: ManifestV, s: SolidManifestV)
    requires
        spec_solidify(m) == Ok::<SolidManifestV, SomaError>(s),
    ensures
        forall|i: int|
            0 <= i < s.binary.file_entries.len() ==> (#[trigger] s.binary.file_entries[i])
                .permissions
                .spec_wf(),
{
    let wd = spec_work_dir(m);
    let ex = m.binary.executable.map_values(
        |e: FileEntryV| spec_solidify_entry(e, wd, FilePermissions::Executable),
    );
    let ro = m.binary.readonly.map_values(
        |e: FileEntryV| spec_solidify_entry(e, wd, FilePermissions::ReadOnly),
    );
    assert(s.binary.file_entries == ex + ro);
    assert forall|i: int| 0 <= i < s.binary.file_entries.len() implies (
    #[trigger] s.binary.file_entries[i]).permissions.spec_wf() by {
        if i < ex.len() {
            assert(s.binary.file_entries[i] == ex[i]);
        } else {
            assert(s.binary.file_entries[i] == ro[i - ex.len()]);
        }
    }
}

/// Law: a file entry without an explicit target lands at the work directory
/// joined to its source's file name by a forward slash.
pub proof fn lemma_default_target_path(
    e: FileEntryV,
    work_dir: Seq<char>,
    permissions: FilePermissions,
)
    requires
        e.target_path is None,
    ensures
        spec_solidify_entry(e, work_dir, permissions).target_path == work_dir + "/"@
            + file_name_of(e.path).unwrap(),
{
}

impl FileEntry {
    pub fn new(path: String, public: Option<bool>, target_path: Option<String>) -> (r: FileEntry)
        ensures
            r.path == path,
            r.public == public,
            r.target_path == target_path,
    {
        FileEntry { path, public, target_path }
    }

    pub fn path(&self) -> (r: &String)
        ensures
            r == &self.path,
    {
        &self.path
    }

    /// Whether the entry is public; absent means private.
    pub fn public(&self) -> (r: bool)
        ensures
            r == spec_solidify_entry(self@, Seq::empty(), FilePermissions::ReadOnly).public,
    {
        match self.public {
            Some(b) => b,
            None => false,
        }
    }

    /// Resolves this entry against a work directory and a permission value.
    pub fn solidify(&self, work_dir: &str, permissions: FilePermissions) -> (r: Result<
        SolidFileEntry,
        SomaError,
    >)
        ensures
            match r {
                Ok(s) => spec_entry_ok(self@) && s@ == spec_solidify_entry(
                    self@,
                    work_dir@,
                    permissions,
                ),
                Err(e) => !spec_entry_ok(self@) && e == SomaError::FileNameNotFoundError,
            },
    {
        let target_path = match &self.target_path {
            Some(t) => t.clone(),
            None => match strutil::file_name(self.path.as_str()) {
                Some(base) => strutil::concat3(work_dir, "/", base.as_str()),
                None => {
                    return Err(SomaError::FileNameNotFoundError);
                },
            },
        };
        let public = match self.public {
            Some(b) => b,
            None => false,
        };
        Ok(SolidFileEntry { path: self.path.clone(), public, target_path, permissions })
    }
}

impl BinaryConfig {
    pub fn new(os: String, cmd: String, executable: Vec<FileEntry>, readonly: Vec<FileEntry>) -> (r:
        BinaryConfig)
        ensures
            r.os == os,
            r.cmd == cmd,
            r.executable == executable,
            r.readonly == readonly,
    {
        BinaryConfig { os, cmd, executable, readonly }
    }

    pub fn executable(&self) -> (r: &Vec<FileEntry>)
        ensures
            r == &self.executable,
    {
        &self.executable
    }

    pub fn readonly(&self) -> (r: &Vec<FileEntry>)
        ensures
            r == &self.readonly,
    {
        &self.readonly
    }

    /// Resolves both file groups against the work directory: the executable
    /// group with the executable default, the read-only group with the
    /// read-only default.
    pub fn solidify(&self, work_dir: &str) -> (r: Result<SolidBinaryConfig, SomaError>)
        ensures
            match r {
                Ok(s) => spec_solidify_binary(self@, work_dir@) == Ok::<
                    SolidBinaryConfigV,
                    SomaError,
                >(s@),
                Err(e) => spec_solidify_binary(self@, work_dir@) == Err::<
                    SolidBinaryConfigV,
                    SomaError,
                >(e),
            },
    {
        let ghost exec_solid = self@.executable.map_values(
            |e: FileEntryV| spec_solidify_entry(e, work_dir@, FilePermissions::Executable),
        );
        let ghost ro_solid = self@.readonly.map_values(
            |e: FileEntryV| spec_solidify_entry(e, work_dir@, FilePermissions::ReadOnly),
        );
        let mut file_entries: Vec<SolidFileEntry> = Vec::new();
        let mut i: usize = 0;
        while i < self.executable.len()
            invariant
                i <= self.executable@.len(),
                self@.executable == self.executable@.map_values(|e: FileEntry| e@),
                exec_solid == self@.executable.map_values(
                    |e: FileEntryV| spec_solidify_entry(e, work_dir@, FilePermissions::Executable),
                ),
                forall|k: int| 0 <= k < i ==> spec_entry_ok(#[trigger] self@.executable[k]),
                file_entries@.map_values(|s: SolidFileEntry| s@) =~= exec_solid.subrange(
                    0,
                    i as int,
                ),
            decreases self.executable@.len() - i,
        {
            match self.executable[i].solidify(work_dir, FilePermissions::Executable) {
                Ok(s) => {
                    let ghost prev = file_entries@;
                    file_entries.push(s);
                    proof {
                        assert(self@.executable[i as int] == self.executable@[i as int]@);
                        assert(file_entries@.map_values(|s: SolidFileEntry| s@) =~= prev.map_values(
                            |s: SolidFileEntry| s@,
                        ).push(s@));
                        assert(exec_solid.subrange(0, i + 1) =~= exec_solid.subrange(
                            0,
                            i as int,
                        ).push(exec_solid[i as int]));
                    }
                },
                Err(e) => {
                    assert(!spec_entry_ok(self@.executable[i as int]));
                    return Err(e);
                },
            }
            i += 1;
        }
        let mut j: usize = 0;
        while j < self.readonly.len()
            invariant
                j <= self.readonly@.len(),
                self@.readonly == self.readonly@.map_values(|e: FileEntry| e@),
                exec_solid.len() == self.executable@.len(),
                ro_solid == self@.readonly.map_values(
                    |e: FileEntryV| spec_solidify_entry(e, work_dir@, FilePermissions::ReadOnly),
                ),
                spec_entries_ok(self@.executable),
                forall|k: int| 0 <= k < j ==> spec_entry_ok(#[trigger] self@.readonly[k]),
                file_entries@.map_values(|s: SolidFileEntry| s@) =~= exec_solid + ro_solid.subrange(
                    0,
                    j as int,
                ),
            decreases self.readonly@.len() - j,
        {
            match self.readonly[j].solidify(work_dir, FilePermissions::ReadOnly) {
                Ok(s) => {
                    let ghost prev = file_entries@;
                    file_entries.push(s);
                    proof {
                        assert(self@.readonly[j as int] == self.readonly@[j as int]@);
                        assert(file_entries@.map_values(|s: SolidFileEntry| s@) =~= prev.map_values(
                            |s: SolidFileEntry| s@,
                        ).push(s@));
                        assert(exec_solid + ro_solid.subrange(0, j + 1) =~= (exec_solid
                            + ro_solid.subrange(0, j as int)).push(ro_solid[j as int]));
                    }
                },
                Err(e) => {
                    assert(!spec_entry_ok(self@.readonly[j as int]));
                    return Err(e);
                },
            }
            j += 1;
        }
        proof {
            assert(ro_solid.subrange(0, ro_solid.len() as int) =~= ro_solid);
            assert(file_entries@.map_values(|s: SolidFileEntry| s@) =~= exec_solid + ro_solid);
        }
        Ok(SolidBinaryConfig { os: self.os.clone(), cmd: self.cmd.clone(), file_entries })
    }
}

impl Manifest {
    pub fn new(name: String, work_dir: Option<String>, binary: BinaryConfig) -> (r: Manifest)
        ensures
            r.name == name,
            r.work_dir == work_dir,
            r.binary == binary,
    {
        Manifest { name, work_dir, binary }
    }

    pub fn name(&self) -> (r: &String)
        ensures
            r == &self.name,
    {
        &self.name
    }

    pub fn binary(&self) -> (r: &BinaryConfig)
        ensures
            r == &self.binary,
    {
        &self.binary
    }

    /// Turns this manifest into a fully resolved deployment plan: every
    /// target path concrete, every file carrying a concrete permission.
    pub fn solidify(&self) -> (r: Result<SolidManifest, SomaError>)
        ensures
            match r {
                Ok(s) => spec_solidify(self@) == Ok::<SolidManifestV, SomaError>(s@),
                Err(e) => spec_solidify(self@) == Err::<SolidManifestV, SomaError>(e),
            },
    {
        let work_dir = match &self.work_dir {
            Some(p) => p.clone(),
            None => strutil::concat2("/home/", self.name.as_str()),
        };
        match self.binary.solidify(work_dir.as_str()) {
            Ok(binary) => Ok(SolidManifest { name: self.name.clone(), work_dir, binary }),
            Err(e) => Err(e),
        }
    }
}

} // verus!
