//! The error type of the transport layer.

use vstd::prelude::*;

verus! {

/// The broad kinds of failure a transport can report.
#[derive(Debug, Clone, Copy, PartialEq, Eq, Structural)]
pub enum ErrorKind {
    /// An error occurred while sending a datagram.
    SendError,
    /// An error occurred while receiving a datagram.
    RecvError,
    /// Invalid address format.
    InvalidAddress,
    /// Unsupported URL scheme.
    UnsupportedScheme,
    /// Network-related error.
    NetworkError,
}

/// A failure of the transport layer.
#[derive(Debug)]
pub enum Error {
    /// A failure the operating system reported, by its code.
    Os(i32),
    /// A failure of which only the kind is known.
    Simple(ErrorKind),
    /// A failure described by a fixed text.
    SimpleMessage(&'static str),
    /// A failure of a given kind with a text that says more.
    Custom { kind: ErrorKind, error: String },
}

/// The character that stands for a digit below ten.
pub open spec fn digit(d: nat) -> char {
    if d == 0 {
        '0'
    } else if d == 1 {
        '1'
    } else if d == 2 {
        '2'
    } else if d == 3 {
        '3'
    } else if d == 4 {
        '4'
    } else if d == 5 {
        '5'
    } else if d == 6 {
        '6'
    } else if d == 7 {
        '7'
    } else if d == 8 {
        '8'
    } else {
        '9'
    }
}

/// The decimal digits of `n`, the most significant first.
pub open spec fn digits(n: nat) -> Seq<char>
    decreases n,
{
    if n < 10 {
        seq![digit(n)]
    } else {
        digits(n / 10).push(digit(n % 10))
    }
}

/// `i` written in decimal, with a minus sign in front where it is negative.
pub open spec fn decimal(i: int) -> Seq<char> {
    if i < 0 {
        seq!['-'] + digits((-i) as nat)
    } else {
        digits(i as nat)
    }
}

/// `i32`'s `to_string`: the number written in decimal, as [`decimal`] has
/// it.
#[verifier::external_body]
fn decimal_string(code: i32) -> (text: String)
    ensures
        text@ == decimal(code as int),
{
    code.to_string()
}

impl ErrorKind {
    /// The text that names this kind.
    pub open spec fn text(self) -> Seq<char> {
        match self {
            ErrorKind::SendError => "Send error"@,
            ErrorKind::RecvError => "Receive error"@,
            ErrorKind::InvalidAddress => "Invalid address"@,
            ErrorKind::UnsupportedScheme => "Unsupported scheme"@,
            ErrorKind::NetworkError => "Network error"@,
        }
    }

    /// The name of this kind, as it is shown to a reader.
    pub fn description(&self) -> (s: &'static str)
        ensures
            s@ == self.text(),
    {
        match self {
            ErrorKind::SendError => "Send error",
            ErrorKind::RecvError => "Receive error",
            ErrorKind::InvalidAddress => "Invalid address",
            ErrorKind::UnsupportedScheme => "Unsupported scheme",
            ErrorKind::NetworkError => "Network error",
        }
    }
}

impl Error {
    /// The text that describes this error.
    pub open spec fn text(self) -> Seq<char> {
        match self {
            Error::Os(code) => "OS error: "@ + decimal(code as int),
            Error::Simple(kind) => kind.text(),
            Error::SimpleMessage(msg) => msg@,
            Error::Custom { kind, error } => kind.text() + ": "@ + error@,
        }
    }

    /// This error, described for a reader: the code of an operating system
    /// error, the name of a kind, the fixed text, or the kind's name with the
    /// text that says more behind it.
    pub fn message(&self) -> (text: String)
        ensures
            text@ == self.text(),
    {
        match self {
            Error::Os(code) => String::from_str("OS error: ").concat(
                decimal_string(*code).as_str(),
            ),
            Error::Simple(kind) => String::from_str(kind.description()),
            Error::SimpleMessage(msg) => String::from_str(msg),
            Error::Custom { kind, error } => String::from_str(kind.description()).concat(
                ": ",
            ).concat(error.as_str()),
        }
    }

    /// The text behind this error that says more than its kind, where it
    /// has one.
    pub fn source(&self) -> (cause: Option<&String>)
        ensures
            match *self {
                Error::Custom { kind, error } => cause == Some(&error),
                _ => cause is None,
            },
    {
        match self {
            Error::Custom { error, .. } => Some(error),
            _ => None,
        }
    }

    /// An address that cannot be understood; `msg` says why.
    pub fn invalid_address(msg: String) -> (e: Self)
        ensures
            e == (Error::Custom { kind: ErrorKind::InvalidAddress, error: msg }),
    {
        Error::Custom { kind: ErrorKind::InvalidAddress, error: msg }
    }

    /// An address whose scheme no transport serves; `msg` says which.
    pub fn unsupported_scheme(msg: String) -> (e: Self)
        ensures
            e == (Error::Custom { kind: ErrorKind::UnsupportedScheme, error: msg }),
    {
        Error::Custom { kind: ErrorKind::UnsupportedScheme, error: msg }
    }

    /// A failure of the network underneath; `msg` says what failed.
    pub fn network_error(msg: String) -> (e: Self)
        ensures
            e == (Error::Custom { kind: ErrorKind::NetworkError, error: msg }),
    {
        Error::Custom { kind: ErrorKind::NetworkError, error: msg }
    }
}

} // verus!
