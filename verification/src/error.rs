//! Errors returned by tool operations.

use vstd::prelude::*;
use vstd::std_specs::convert::FromSpecImpl;

verus! {

/// Errors returned by tool operations.
#[derive(Debug)]
pub enum Error {
    /// A required argument field is absent.
    MissingField(String),
    /// A schema or argument check failed.
    Validation(String),
    /// Input could not be parsed.
    Parse(String),
    /// Anything else.
    Other(String),
}

/// The variant of an [`Error`], as a plain value.
#[derive(Debug, Clone, Copy, PartialEq, Eq, Structural)]
pub enum ErrorKind {
    MissingField,
    Validation,
    Parse,
    Other,
}

impl Error {
    /// The variant of this error.
    pub open spec fn kind(&self) -> ErrorKind {
        match self {
            Error::MissingField(_) => ErrorKind::MissingField,
            Error::Validation(_) => ErrorKind::Validation,
            Error::Parse(_) => ErrorKind::Parse,
            Error::Other(_) => ErrorKind::Other,
        }
    }

    /// The payload carried by this error.
    pub open spec fn msg(&self) -> Seq<char> {
        match self {
            Error::MissingField(m) => m@,
            Error::Validation(m) => m@,
            Error::Parse(m) => m@,
            Error::Other(m) => m@,
        }
    }

    /// The human-readable rendering of this error.
    pub open spec fn display(&self) -> Seq<char> {
        match self {
            Error::MissingField(m) => "missing required field: "@ + m@,
            Error::Validation(m) => "validation failed: "@ + m@,
            Error::Parse(m) => "parse error: "@ + m@,
            Error::Other(m) => m@,
        }
    }

    /// Build a catch-all error carrying `msg`.
    pub fn new(msg: &str) -> (r: Self)
        ensures
            r.kind() == ErrorKind::Other,
            r.msg() == msg@,
    {
        Error::Other(msg.to_string())
    }

    /// Render this error as text (the message a user sees).
    pub fn to_string(&self) -> (r: String)
        ensures
            r@ == self.display(),
    {
        proof {
            reveal_strlit("missing required field: ");
            reveal_strlit("validation failed: ");
            reveal_strlit("parse error: ");
        }
        match self {
            Error::MissingField(m) => {
                let mut s = String::from_str("missing required field: ");
                s.append(m.as_str());
                s
            },
            Error::Validation(m) => {
                let mut s = String::from_str("validation failed: ");
                s.append(m.as_str());
                s
            },
            Error::Parse(m) => {
                let mut s = String::from_str("parse error: ");
                s.append(m.as_str());
                s
            },
            Error::Other(m) => m.clone(),
        }
    }
}

/// The rendered message of an I/O error (`Display` of `std::io::Error`).
/// Nothing is stated of the text: for operating-system errors it depends on the
/// machine.
#[verifier::external_body]
fn io_error_text(err: &std::io::Error) -> String {
    err.to_string()
}


impl From<std::io::Error> for Error {
    fn from(err: std::io::Error) -> (r: Self)
        ensures
            r.kind() == ErrorKind::Other,
    {
        Error::Other(io_error_text(&err))
    }
}

impl FromSpecImpl<std::io::Error> for Error {
    open spec fn obeys_from_spec() -> bool {
        false
    }

    open spec fn from_spec(v: std::io::Error) -> Self {
        Error::Other(arbitrary())
    }
}

/// The rendered message of a serde_json error (`Display` of
/// `serde_json::Error`). Nothing is stated of the text: the error is
/// opaque here.
#[verifier::external_body]
fn json_error_text(err: &serde_json::Error) -> String {
    err.to_string()
}

impl From<serde_json::Error> for Error {
    fn from(err: serde_json::Error) -> (r: Self)
        ensures
            r.kind() == ErrorKind::Parse,
    {
        Error::Parse(json_error_text(&err))
    }
}

impl FromSpecImpl<serde_json::Error> for Error {
    open spec fn obeys_from_spec() -> bool {
        false
    }

    open spec fn from_spec(v: serde_json::Error) -> Self {
        Error::Parse(arbitrary())
    }
}

impl From<String> for Error {
    fn from(msg: String) -> (r: Self)
        ensures
            r == Error::Other(msg),
    {
        Error::Other(msg)
    }
}

impl FromSpecImpl<String> for Error {
    open spec fn obeys_from_spec() -> bool {
        true
    }

    open spec fn from_spec(v: String) -> Self {
        Error::Other(v)
    }
}

impl<'a> From<&'a str> for Error {
    fn from(msg: &'a str) -> (r: Self)
        ensures
            r.kind() == ErrorKind::Other,
            r.msg() == msg@,
    {
        Error::Other(msg.to_string())
    }
}

impl<'a> FromSpecImpl<&'a str> for Error {
    open spec fn obeys_from_spec() -> bool {
        false
    }

    open spec fn from_spec(v: &'a str) -> Self {
        Error::Other(arbitrary())
    }
}

/// Result alias used throughout the crate.
pub type Result<T> = core::result::Result<T, Error>;

} // verus!
