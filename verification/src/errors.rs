//! The error taxonomy every provider maps its native failures onto.

use vstd::prelude::*;
use crate::backend_id::BackendId;

verus! {

/// Why an operation failed; consumers branch on the kind, never on text.
#[derive(Clone, Debug, PartialEq, Eq)]
pub enum VcsError {
    /// The path does not hold a repository.
    NotARepo(String),
    /// The named branch does not exist.
    NoSuchBranch(String),
    /// The index after staging equals HEAD.
    NothingToCommit,
    /// The remote tip is not a descendant of HEAD.
    NonFastForward,
    /// The backend does not implement the operation.
    Unsupported(BackendId),
    /// An operating-system level failure.
    Io(String),
    /// Any other provider-native failure.
    Backend { backend: BackendId, msg: String },
}

impl VcsError {
    /// A human-readable description, in place of a `Display` impl.
    pub fn message(&self) -> (r: String)
        ensures
            match self {
                VcsError::NotARepo(p) => r@ == "not a repository: "@ + p@,
                VcsError::NoSuchBranch(b) => r@ == "branch not found: "@ + b@,
                VcsError::NothingToCommit => r@ == "nothing to commit"@,
                VcsError::NonFastForward => r@ == "non-fast-forward; merge or rebase required"@,
                VcsError::Unsupported(b) => r@ == "unsupported backend: "@ + b.chars(),
                VcsError::Io(m) => r@ == "io: "@ + m@,
                VcsError::Backend { backend, msg } => r@ == backend.chars() + ": "@ + msg@,
            },
    {
        match self {
            VcsError::NotARepo(p) => String::from_str("not a repository: ").concat(p.as_str()),
            VcsError::NoSuchBranch(b) => String::from_str("branch not found: ").concat(b.as_str()),
            VcsError::NothingToCommit => String::from_str("nothing to commit"),
            VcsError::NonFastForward => String::from_str(
                "non-fast-forward; merge or rebase required",
            ),
            VcsError::Unsupported(b) => String::from_str("unsupported backend: ").concat(
                b.id.as_str(),
            ),
            VcsError::Io(m) => String::from_str("io: ").concat(m.as_str()),
            VcsError::Backend { backend, msg } => backend.id.clone().concat(": ").concat(
                msg.as_str(),
            ),
        }
    }
}

} // verus!
