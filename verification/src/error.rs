use vstd::prelude::*;

verus! {

/// The failure taxonomy of the access-control and materialization layer.
///
/// Every operation reports one of these kinds so that an upstream layer can
/// map a failure to the right response (conflict, not-found, internal, ...).
#[derive(Clone, Copy, Debug, PartialEq, Eq, Structural)]
pub enum AccessError {
    /// A structural precondition on the request parameters failed; the
    /// operation performed no side effect.
    InvalidInput,
    /// A create was asked for a membership that already exists.
    AlreadyExists,
    /// A read was asked for a membership or document that does not exist.
    NotFound,
    /// The external policy store rejected an update; the enclosing
    /// transaction was rolled back.
    PolicyUpdateFailure,
    /// The transaction commit failed after the logical operations succeeded.
    CommitFailure,
    /// A published namespace is not mapped to any workspace.
    NamespaceNotFound,
    /// An encoded folder document could not be decoded; no partial tree is
    /// returned.
    MaterializationFailure,
    /// A workspace structure was requested deeper than the hard ceiling.
    DepthLimitExceeded,
}

} // verus!
