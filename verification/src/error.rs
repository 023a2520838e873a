//! The error of the proxy's fallible steps: a message for the caller.

use vstd::prelude::*;
use vstd::std_specs::convert::FromSpecImpl;
use vstd::string::*;

verus! {

pub type Result<T> = core::result::Result<T, Error>;

/// A failure, described by its message.
#[derive(Debug, PartialEq, Eq)]
pub enum Error {
    AnyError(String),
}

impl View for Error {
    type V = Seq<char>;

    /// The message.
    open spec fn view(&self) -> Seq<char> {
        match self {
            Error::AnyError(message) => message@,
        }
    }
}

impl Error {
    /// The message, as it is shown to a reader.
    pub fn message(&self) -> (r: String)
        ensures
            r@ == self@,
    {
        match self {
            Error::AnyError(message) => message.clone(),
        }
    }
}

/// A string slice becomes the error with that message.
impl From<&str> for Error {
    fn from(val: &str) -> (e: Self)
        ensures
            e@ == val@,
    {
        Error::AnyError(String::from_str(val))
    }
}

impl FromSpecImpl<&str> for Error {
    open spec fn obeys_from_spec() -> bool {
        false
    }

    open spec fn from_spec(val: &str) -> Self {
        arbitrary()
    }
}

/// A string becomes the error with that message.
impl From<String> for Error {
    fn from(val: String) -> (e: Self) {
        Error::AnyError(val)
    }
}

impl FromSpecImpl<String> for Error {
    open spec fn obeys_from_spec() -> bool {
        true
    }

    open spec fn from_spec(val: String) -> Self {
        Error::AnyError(val)
    }
}

} // verus!
