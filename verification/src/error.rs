use vstd::prelude::*;

verus! {

/// The closed failure taxonomy of the core. Every failure is recoverable
/// by the caller; none is process-fatal.
#[derive(Clone, Copy, Debug, PartialEq, Eq, Structural)]
pub enum RepoError {
    /// A failure that fits no other kind.
    UnknownError,
    /// The backing store itself failed, here: a counter or the audit log
    /// is at its machine capacity.
    InternalError,
    /// A conditional update touched zero rows.
    NotModified,
    /// The actor or target account is absent.
    NotFound,
    /// The named command is absent.
    CommandNotFound,
    /// The requested audit entry is absent.
    ActionNotFound,
    /// A role or ownership check failed.
    Forbidden,
    /// The target is not in the role the requested transition starts from.
    InvalidRole,
    /// A state precondition failed, e.g. removing a warning at count zero.
    NotAllowed,
    /// A uniqueness constraint collision: a taken command name or handle.
    AlreadyExists,
}

} // verus!
