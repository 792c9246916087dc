//! Why a gateway does not start.

use vstd::prelude::*;

verus! {

/// Why a gateway does not start.
#[derive(Debug)]
pub enum Error {
    /// The command line lacks something.
    Config(String),
    /// The API key cannot be sent in a header.
    InvalidHeaderValue,
    /// The upstream server was not ready in time.
    UpstreamTimeout { url: String, timeout_ns: u128 },
}

} // verus!
