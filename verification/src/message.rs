//! The messages that travel through a pipeline.

use vstd::prelude::*;

verus! {

/// A client request on its way to the origin server.
#[derive(Debug, PartialEq, Eq)]
pub struct Request {
    /// The target of the request, in text.
    pub uri: String,
}

/// An origin server's response on its way back to the client.
#[derive(Debug, PartialEq, Eq)]
pub struct Response {
    /// The target of the request that this response answers, in text.
    pub uri: String,
    /// The status code of the response.
    pub status: u16,
}

} // verus!
