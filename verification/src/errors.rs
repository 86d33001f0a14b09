//! The fatal setup errors: any of these aborts the whole run before any
//! probe is sent.  Per-strategy failures are not errors of this type; they
//! only forfeit the one strategy.

use vstd::prelude::*;
use vstd::string::StringExecFns;

verus! {

/// A fatal configuration error.
#[derive(Clone, Copy, Debug, PartialEq, Eq, Structural)]
pub enum ScanError {
    /// The target URL does not parse or has no host.
    InvalidTarget,
    /// The HTTP method is neither GET nor POST.
    InvalidMethod,
    /// The cookie cannot be encoded as a header value.
    InvalidCookie,
    /// The proxy URL does not parse.
    InvalidProxy,
    /// The inter-request delay is not an unsigned number.
    InvalidRateLimit,
    /// The transport could not be constructed from the configuration.
    TransportInitFailed,
}

/// The diagnostic text of each error.
pub open spec fn spec_error_message(e: ScanError) -> Seq<char> {
    match e {
        ScanError::InvalidTarget => "invalid target URL: not parseable or no host"@,
        ScanError::InvalidMethod => "invalid HTTP method: use GET or POST"@,
        ScanError::InvalidCookie => "invalid cookie: not encodable as a header value"@,
        ScanError::InvalidProxy => "invalid proxy URL"@,
        ScanError::InvalidRateLimit => "invalid rate limit: not an unsigned number"@,
        ScanError::TransportInitFailed => "failed to initialize the transport"@,
    }
}

impl ScanError {
    /// A human-readable diagnostic for this error.
    pub fn message(&self) -> (r: String)
        ensures
            r@ == spec_error_message(*self),
    {
        match self {
            ScanError::InvalidTarget => String::from_str(
                "invalid target URL: not parseable or no host",
            ),
            ScanError::InvalidMethod => String::from_str("invalid HTTP method: use GET or POST"),
            ScanError::InvalidCookie => String::from_str(
                "invalid cookie: not encodable as a header value",
            ),
            ScanError::InvalidProxy => String::from_str("invalid proxy URL"),
            ScanError::InvalidRateLimit => String::from_str(
                "invalid rate limit: not an unsigned number",
            ),
            ScanError::TransportInitFailed => String::from_str(
                "failed to initialize the transport",
            ),
        }
    }
}

} // verus!
