//! The ways on which requests reach a provider.

pub mod codex_desktop;
pub mod jsonrpc;

use vstd::prelude::*;
use vstd::string::*;

use crate::transport::jsonrpc::JsonRpcError;

verus! {

/// A request reached the provider, but no acknowledgement that can be trusted came back. The
/// provider may have carried it out.
#[derive(Debug)]
pub struct AcknowledgementUnknown(pub String);

impl AcknowledgementUnknown {
    /// What is said of it.
    pub fn message(&self) -> (r: String)
        ensures
            r@ == "provider acknowledgement is unknown: "@ + self.0@,
    {
        "provider acknowledgement is unknown: ".to_owned().concat(self.0.as_str())
    }
}

/// Why a request has no result.
#[derive(Debug)]
pub enum TransportError {
    AcknowledgementUnknown(AcknowledgementUnknown),
    /// The provider answered with an error.
    Rpc(JsonRpcError),
    /// The request had no effect, or its answer was an error of another kind.
    Failed(String),
}

/// Whether the provider may have carried a request out all the same.
pub fn acknowledgement_is_unknown(error: &TransportError) -> (r: bool)
    ensures
        r == (error is AcknowledgementUnknown),
{
    match error {
        TransportError::AcknowledgementUnknown(_) => true,
        _ => false,
    }
}

} // verus!
