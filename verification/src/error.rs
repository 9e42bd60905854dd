//! The error type shared by the client and the server side of the tunnel.

use vstd::prelude::*;
use vstd::string::StringExecFns;

verus! {

/// What can go wrong on the tunnel.
#[derive(Debug, Clone, Copy, PartialEq, Eq, Structural)]
pub enum WebTonicError {
    /// The url entered is not a valid url.
    InvalidUrl,
    /// The endpoint could not connect to the supplied url, or sending failed.
    ConnectionError,
    /// An outbound request or response could not be turned into a frame.
    EncodingError,
    /// A received frame could not be understood.
    DecodingError,
    /// The peer closed the connection before it replied.
    ConnectionClosed,
}

impl WebTonicError {
    /// The text shown for each error: the name of its variant.
    pub open spec fn spec_name(self) -> Seq<char> {
        match self {
            WebTonicError::InvalidUrl => "InvalidUrl"@,
            WebTonicError::ConnectionError => "ConnectionError"@,
            WebTonicError::EncodingError => "EncodingError"@,
            WebTonicError::DecodingError => "DecodingError"@,
            WebTonicError::ConnectionClosed => "ConnectionClosed"@,
        }
    }

    /// Renders the error as text.
    pub fn name(&self) -> (text: String)
        ensures
            text@ == self.spec_name(),
    {
        match self {
            WebTonicError::InvalidUrl => String::from_str("InvalidUrl"),
            WebTonicError::ConnectionError => String::from_str("ConnectionError"),
            WebTonicError::EncodingError => String::from_str("EncodingError"),
            WebTonicError::DecodingError => String::from_str("DecodingError"),
            WebTonicError::ConnectionClosed => String::from_str("ConnectionClosed"),
        }
    }
}

} // verus!
