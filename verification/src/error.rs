use vstd::prelude::*;

verus! {

/// The domain-specific error taxonomy. Every core operation surfaces one of
/// these to its caller; none of them is transient, so nothing retries.
#[derive(Clone, Copy, Debug, PartialEq, Eq, Structural)]
pub enum SomaError {
    /// A registration address that is neither a local directory nor a
    /// parseable remote address.
    InvalidRepositoryPathError,
    /// A problem-list file with duplicate or unresolvable entries.
    InvalidProblemList,
    /// A declared problem path with no manifest file at it.
    InvalidRepository,
    /// An update that would orphan an already-built artifact.
    UnsupportedUpdate,
    /// A backend whose source could not be materialized.
    SourceUnavailable,
    /// A path that cannot be represented as a target-path string.
    InvalidUnicodeError,
    /// A source path with no usable final component.
    FileNameNotFoundError,
    /// A repository registration under a name that is already taken.
    DuplicateRepository,
    /// A permission override string that is not octal or exceeds 0o777.
    InvalidPermissionString,
}

pub type SomaResult<T> = Result<T, SomaError>;

} // verus!
