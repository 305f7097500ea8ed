//! Error taxonomy of the agent: configuration errors are fatal at startup,
//! everything else abandons the current operation and is reported to the
//! caller as a value.

use vstd::prelude::*;

verus! {

/// Errors surfaced by the agent core.
#[derive(Clone, Copy, Debug, PartialEq, Eq, Structural)]
pub enum RmakerError {
    /// The agent was initialized twice.
    AlreadyInitialized,
    /// The provisioning identity (node id) is missing or empty.
    InvalidNodeId,
    /// `start` was attempted before a node was registered.
    NodeNotRegistered,
    /// An inbound blob could not be decoded.
    DecodeFailure,
    /// A catch-all for failures of external collaborators, reported by the
    /// surrounding (unverified) shell.
    UnknownError,
}

impl RmakerError {
    /// A short human-readable label for the error.
    pub fn describe(&self) -> (r: &'static str)
        ensures
            *self is AlreadyInitialized ==> r@ == "already initialized"@,
            *self is InvalidNodeId ==> r@ == "invalid node id"@,
            *self is NodeNotRegistered ==> r@ == "node not registered"@,
            *self is DecodeFailure ==> r@ == "decode failure"@,
            *self is UnknownError ==> r@ == "unknown error"@,
    {
        match self {
            RmakerError::AlreadyInitialized => "already initialized",
            RmakerError::InvalidNodeId => "invalid node id",
            RmakerError::NodeNotRegistered => "node not registered",
            RmakerError::DecodeFailure => "decode failure",
            RmakerError::UnknownError => "unknown error",
        }
    }
}

} // verus!
