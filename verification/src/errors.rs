//! Error kinds surfaced by the query core.
//!
//! Every failure terminates the current invocation; nothing is retried
//! or recovered locally.

use vstd::prelude::*;

verus! {

/// Ghost view of a [`ClientError`].
pub enum ClientErrorV {
    /// No supplied filter could be resolved to a query intent.
    MissingRequiredArgument,
    /// The transport reported a non-success status (or, as status 0, a
    /// network-level failure); the body is never decoded in this case.
    RequestError { status: u16 },
    /// The response body does not match the expected entity shape; the
    /// field names the offending key or token.
    DecodeError { field: Seq<char> },
}

/// A structured error of the query core.
#[derive(Clone, Debug, PartialEq, Eq)]
pub enum ClientError {
    /// No supplied filter could be resolved to a query intent.
    MissingRequiredArgument,
    /// The transport reported a non-success status (or, as status 0, a
    /// network-level failure); the body is never decoded in this case.
    RequestError { status: u16 },
    /// The response body does not match the expected entity shape; the
    /// field names the offending key or token.
    DecodeError { field: String },
}

impl View for ClientError {
    type V = ClientErrorV;

    open spec fn view(&self) -> ClientErrorV {
        match self {
            ClientError::MissingRequiredArgument => ClientErrorV::MissingRequiredArgument,
            ClientError::RequestError { status } => ClientErrorV::RequestError { status: *status },
            ClientError::DecodeError { field } => ClientErrorV::DecodeError { field: field@ },
        }
    }
}

} // verus!
