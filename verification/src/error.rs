//! Error taxonomy of the scheduler core.
//!
//! Configuration errors reject invalid client input, discovery errors mark a
//! root without a readable record (recoverable: safe to start), an
//! already-running error aborts only the start attempt, protocol errors are
//! fatal to a single call, and transport errors report a failed connection.

use vstd::prelude::*;

verus! {

/// One error of the scheduler core. Each variant carries a human-readable
/// payload; `AlreadyRunningError` carries the run-directory root at which a
/// live server was found.
#[derive(Debug)]
pub enum HqError {
    ConfigurationError(String),
    DiscoveryError(String),
    AlreadyRunningError(String),
    ProtocolError(String),
    TransportError(String),
    GenericError(String),
}

impl HqError {
    /// The payload text carried by this error.
    pub open spec fn payload(self) -> Seq<char> {
        match self {
            HqError::ConfigurationError(s) => s@,
            HqError::DiscoveryError(s) => s@,
            HqError::AlreadyRunningError(s) => s@,
            HqError::ProtocolError(s) => s@,
            HqError::TransportError(s) => s@,
            HqError::GenericError(s) => s@,
        }
    }

    /// The prefix that `message` puts before the payload of each variant.
    pub open spec fn prefix(self) -> Seq<char> {
        match self {
            HqError::ConfigurationError(_) => "configuration error: "@,
            HqError::DiscoveryError(_) => "discovery error: "@,
            HqError::AlreadyRunningError(_) => "server already running at "@,
            HqError::ProtocolError(_) => "protocol error: "@,
            HqError::TransportError(_) => "transport error: "@,
            HqError::GenericError(_) => ""@,
        }
    }

    /// Render the error as one line of text.
    pub fn message(&self) -> (r: String)
        ensures
            r@ == self.prefix() + self.payload(),
    {
        match self {
            HqError::ConfigurationError(s) => concat_prefix("configuration error: ", s),
            HqError::DiscoveryError(s) => concat_prefix("discovery error: ", s),
            HqError::AlreadyRunningError(s) => concat_prefix("server already running at ", s),
            HqError::ProtocolError(s) => concat_prefix("protocol error: ", s),
            HqError::TransportError(s) => concat_prefix("transport error: ", s),
            HqError::GenericError(s) => concat_prefix("", s),
        }
    }
}

/// Prepend a static prefix to an owned payload.
fn concat_prefix(prefix: &str, payload: &String) -> (r: String)
    ensures
        r@ == prefix@ + payload@,
{
    let mut r = prefix.to_owned();
    r.append(payload.as_str());
    r
}

} // verus!
