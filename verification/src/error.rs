//! The error taxonomy: configuration errors (bad base URL, unsupported
//! scheme, illegal path segment), transport errors reported by the shell,
//! HTTP status failures, and decode failures.

use vstd::prelude::*;
use vstd::string::StringExecFns;

verus! {

/// Why a URL string or a path segment was rejected at construction time.
#[derive(Clone, Copy, Debug, PartialEq, Eq, Structural)]
pub enum UrlFault {
    /// The string does not start with a supported scheme followed by `://`.
    UnsupportedScheme,
    /// The host part is empty or holds a character that no host may hold.
    BadHost,
    /// The port part is empty, not decimal, or above the largest port.
    BadPort,
    /// A path segment is empty or holds a character that no segment may hold.
    BadSegment,
    /// The string carries a query or fragment part, which a base URL may not.
    UnexpectedPart,
}

/// The typed failures this library reports.
#[derive(Debug)]
pub enum AriError {
    /// A configuration error: malformed base URL or illegal path segment.
    UrlParse(UrlFault),
    /// A transport failure on the WebSocket side, as the shell reported it.
    WebSocket(String),
    /// A transport failure on the HTTP side, as the shell reported it.
    Http(String),
    /// A response arrived with a non-success HTTP status code.
    HttpStatus(u16),
    /// A payload that should have been structured data could not be decoded.
    Decode,
    /// Any other failure, described in words.
    Unknown(String),
}

impl AriError {
    /// A short description of the error, for logs and messages.
    pub fn message(&self) -> (r: String)
    {
        match self {
            AriError::UrlParse(UrlFault::UnsupportedScheme) => String::from_str(
                "unsupported URL scheme, expected 'http' or 'https'",
            ),
            AriError::UrlParse(UrlFault::BadHost) => String::from_str("malformed URL host"),
            AriError::UrlParse(UrlFault::BadPort) => String::from_str("malformed URL port"),
            AriError::UrlParse(UrlFault::BadSegment) => String::from_str("illegal path segment"),
            AriError::UrlParse(UrlFault::UnexpectedPart) => String::from_str(
                "base URL may not carry a query or fragment",
            ),
            AriError::WebSocket(s) => String::from_str("WebSocket error: ").concat(s.as_str()),
            AriError::Http(s) => String::from_str("HTTP request error: ").concat(s.as_str()),
            AriError::HttpStatus(_) => String::from_str("HTTP request failed with an error status"),
            AriError::Decode => String::from_str("failed to decode payload"),
            AriError::Unknown(s) => String::from_str("unknown error occurred: ").concat(s.as_str()),
        }
    }
}

} // verus!
