//! User-visible errors of the client: connection attempts fail with a
//! reported reason; per-datagram faults never surface here.

use vstd::prelude::*;

verus! {

/// The character for one decimal digit value.
pub open spec fn digit_char(d: int) -> char {
    if d == 0 {
        '0'
    } else if d == 1 {
        '1'
    } else if d == 2 {
        '2'
    } else if d == 3 {
        '3'
    } else if d == 4 {
        '4'
    } else if d == 5 {
        '5'
    } else if d == 6 {
        '6'
    } else if d == 7 {
        '7'
    } else if d == 8 {
        '8'
    } else {
        '9'
    }
}

/// The decimal digits of `n`, most significant first.
pub open spec fn decimal_digits(n: int) -> Seq<char>
    decreases n,
{
    if n < 10 {
        seq![digit_char(n)]
    } else {
        decimal_digits(n / 10).push(digit_char(n % 10))
    }
}

/// One digit as a string slice.
fn digit_str(d: u64) -> (r: &'static str)
    requires
        d < 10,
    ensures
        r@ =~= seq![digit_char(d as int)],
{
    proof {
        reveal_strlit("0");
        reveal_strlit("1");
        reveal_strlit("2");
        reveal_strlit("3");
        reveal_strlit("4");
        reveal_strlit("5");
        reveal_strlit("6");
        reveal_strlit("7");
        reveal_strlit("8");
        reveal_strlit("9");
    }
    if d == 0 {
        "0"
    } else if d == 1 {
        "1"
    } else if d == 2 {
        "2"
    } else if d == 3 {
        "3"
    } else if d == 4 {
        "4"
    } else if d == 5 {
        "5"
    } else if d == 6 {
        "6"
    } else if d == 7 {
        "7"
    } else if d == 8 {
        "8"
    } else {
        "9"
    }
}

/// `n` written in decimal.
pub fn decimal_string(n: u64) -> (r: String)
    ensures
        r@ =~= decimal_digits(n as int),
    decreases n,
{
    if n < 10 {
        String::from_str(digit_str(n))
    } else {
        let prefix = decimal_string(n / 10);
        let r = prefix.concat(digit_str(n % 10));
        proof {
            assert(r@ =~= decimal_digits(n as int));
        }
        r
    }
}

/// Why a channel identifier failed to name a channel.
#[derive(Clone, Copy, Debug, PartialEq, Eq, Structural)]
pub enum ChannelIdentifierError {
    /// No channel path ends with the identifier.
    Invalid,
    /// More than one channel path ends with the identifier.
    Ambiguous,
}

impl ChannelIdentifierError {
    /// The reported reason, in words.
    pub fn message(&self) -> (r: String)
        ensures
            *self == ChannelIdentifierError::Invalid ==> r@ == "Invalid channel identifier"@,
            *self == ChannelIdentifierError::Ambiguous ==> r@ == "Ambiguous channel identifier"@,
    {
        match self {
            ChannelIdentifierError::Invalid => String::from_str("Invalid channel identifier"),
            ChannelIdentifierError::Ambiguous => String::from_str("Ambiguous channel identifier"),
        }
    }
}

/// A command-level failure reported back to the caller.
pub enum Error {
    /// The command needs a connected server and there is none.
    DisconnectedError,
    /// A connect was asked for while already connected.
    AlreadyConnectedError,
    /// The given channel identifier named no channel, or too many.
    ChannelIdentifierError(String, ChannelIdentifierError),
    /// The host and port did not resolve to a server address.
    InvalidServerAddrError(String, u16),
}

impl Error {
    /// The reported reason, in words.
    pub fn message(&self) -> (r: String)
        ensures
            *self is DisconnectedError ==> r@ == "Not connected to a server"@,
            *self is AlreadyConnectedError ==> r@ == "Already connected to a server"@,
            forall|id: String, kind: ChannelIdentifierError|
                *self == Error::ChannelIdentifierError(id, kind) ==> (kind
                    == ChannelIdentifierError::Invalid ==> r@ == "Invalid channel identifier"@
                    + ": "@ + id@) && (kind == ChannelIdentifierError::Ambiguous ==> r@
                    == "Ambiguous channel identifier"@ + ": "@ + id@),
            forall|addr: String, port: u16|
                *self == Error::InvalidServerAddrError(addr, port) ==> r@
                    == "Invalid server address: "@ + addr@ + ": "@ + decimal_digits(port as int),
    {
        match self {
            Error::DisconnectedError => String::from_str("Not connected to a server"),
            Error::AlreadyConnectedError => String::from_str("Already connected to a server"),
            Error::ChannelIdentifierError(id, kind) => {
                let mut m = kind.message();
                m.append(": ");
                m.append(id.as_str());
                m
            },
            Error::InvalidServerAddrError(addr, port) => {
                let mut m = String::from_str("Invalid server address: ");
                m.append(addr.as_str());
                m.append(": ");
                let digits = decimal_string(*port as u64);
                m.append(digits.as_str());
                m
            },
        }
    }
}

} // verus!
