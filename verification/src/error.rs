//! Error types for the NTS client library.

use vstd::prelude::*;
use vstd::string::StringExecFns;

verus! {

/// Errors that can occur during NTS client operations.
#[derive(Debug)]
pub enum Error {
    /// Network I/O error.
    Io(String),
    /// TLS/connection error during NTS key exchange.
    Tls(String),
    /// NTS key exchange failed.
    KeyExchange(String),
    /// NTP protocol error.
    Protocol(String),
    /// Invalid server response.
    InvalidResponse(String),
    /// Timeout occurred during operation.
    Timeout,
    /// Invalid configuration.
    InvalidConfig(String),
    /// Server not available or unreachable.
    ServerUnavailable(String),
    /// Authentication failed.
    AuthenticationFailed(String),
    /// The cookie pool is exhausted: no authenticated request can be built.
    NoCookiesAvailable,
    /// Generic error.
    Other(String),
}

impl Error {
    /// The human-readable description of this error.
    pub open spec fn spec_message(&self) -> Seq<char> {
        match self {
            Error::Io(m) => "I/O error: "@ + m@,
            Error::Tls(m) => "TLS error: "@ + m@,
            Error::KeyExchange(m) => "NTS key exchange failed: "@ + m@,
            Error::Protocol(m) => "NTP protocol error: "@ + m@,
            Error::InvalidResponse(m) => "Invalid server response: "@ + m@,
            Error::Timeout => "Operation timed out"@,
            Error::InvalidConfig(m) => "Invalid configuration: "@ + m@,
            Error::ServerUnavailable(m) => "Server unreachable: "@ + m@,
            Error::AuthenticationFailed(m) => "Authentication failed: "@ + m@,
            Error::NoCookiesAvailable => "No cookies available"@,
            Error::Other(m) => m@,
        }
    }

    /// Render the error as a message string.
    pub fn message(&self) -> (r: String)
        ensures
            r@ == self.spec_message(),
    {
        match self {
            Error::Io(m) => {
                let mut s = "I/O error: ".to_owned();
                s.append(m.as_str());
                s
            },
            Error::Tls(m) => {
                let mut s = "TLS error: ".to_owned();
                s.append(m.as_str());
                s
            },
            Error::KeyExchange(m) => {
                let mut s = "NTS key exchange failed: ".to_owned();
                s.append(m.as_str());
                s
            },
            Error::Protocol(m) => {
                let mut s = "NTP protocol error: ".to_owned();
                s.append(m.as_str());
                s
            },
            Error::InvalidResponse(m) => {
                let mut s = "Invalid server response: ".to_owned();
                s.append(m.as_str());
                s
            },
            Error::Timeout => "Operation timed out".to_owned(),
            Error::InvalidConfig(m) => {
                let mut s = "Invalid configuration: ".to_owned();
                s.append(m.as_str());
                s
            },
            Error::ServerUnavailable(m) => {
                let mut s = "Server unreachable: ".to_owned();
                s.append(m.as_str());
                s
            },
            Error::AuthenticationFailed(m) => {
                let mut s = "Authentication failed: ".to_owned();
                s.append(m.as_str());
                s
            },
            Error::NoCookiesAvailable => "No cookies available".to_owned(),
            Error::Other(m) => m.clone(),
        }
    }
}

/// The character of one decimal digit.
pub open spec fn spec_digit(d: int) -> char {
    if d == 0 {
        '0'
    } else if d == 1 {
        '1'
    } else if d == 2 {
        '2'
    } else if d == 3 {
        '3'
    } else if d == 4 {
        '4'
    } else if d == 5 {
        '5'
    } else if d == 6 {
        '6'
    } else if d == 7 {
        '7'
    } else if d == 8 {
        '8'
    } else {
        '9'
    }
}

/// The decimal digits of a non-negative value, most significant
/// first, with no leading zeros (a lone zero for zero itself).
pub open spec fn spec_decimal(x: int) -> Seq<char>
    decreases x,
{
    if x < 10 {
        seq![spec_digit(x)]
    } else {
        spec_decimal(x / 10).push(spec_digit(x % 10))
    }
}

/// The one-character string of one decimal digit.
fn digit_str(d: u16) -> (r: &'static str)
    requires
        d < 10,
    ensures
        r@ == seq![spec_digit(d as int)],
{
    if d == 0 {
        proof { reveal_strlit("0"); }
        "0"
    } else if d == 1 {
        proof { reveal_strlit("1"); }
        "1"
    } else if d == 2 {
        proof { reveal_strlit("2"); }
        "2"
    } else if d == 3 {
        proof { reveal_strlit("3"); }
        "3"
    } else if d == 4 {
        proof { reveal_strlit("4"); }
        "4"
    } else if d == 5 {
        proof { reveal_strlit("5"); }
        "5"
    } else if d == 6 {
        proof { reveal_strlit("6"); }
        "6"
    } else if d == 7 {
        proof { reveal_strlit("7"); }
        "7"
    } else if d == 8 {
        proof { reveal_strlit("8"); }
        "8"
    } else {
        proof { reveal_strlit("9"); }
        "9"
    }
}

/// Render a value as its decimal digits, for error messages.
pub fn to_decimal(x: u16) -> (r: String)
    ensures
        r@ == spec_decimal(x as int),
    decreases x,
{
    if x < 10 {
        digit_str(x).to_owned()
    } else {
        let mut s = to_decimal(x / 10);
        s.append(digit_str(x % 10));
        proof {
            assert(spec_decimal((x / 10) as int) + seq![spec_digit((x % 10) as int)]
                =~= spec_decimal(x as int));
        }
        s
    }
}

} // verus!
