//! The error type shared across the engine.

use vstd::prelude::*;
use vstd::std_specs::convert::FromSpecImpl;
use vstd::string::StringExecFns;

verus! {

/// `std::io::Error`, carried through as an opaque value.
#[verifier::external_type_specification]
#[verifier::external_body]
pub struct ExIoError(std::io::Error);

/// What can go wrong.
#[derive(Debug)]
pub enum Error {
    /// Reading or writing failed.
    Io(std::io::Error),
    /// A resource, named here, was not found.
    NotFound(String),
    /// A handle was used that is not valid.
    InvalidHandle,
    /// Something was in a state, described here, that it must not be in.
    InvalidState(String),
    /// Anything else, in its own words.
    Custom(String),
}

/// The text form of an I/O error: `std::io::Error`'s `Display`. The text
/// comes from the operating system, so nothing is claimed of it.
#[verifier::external_body]
fn io_error_text(error: &std::io::Error) -> String {
    format!("{}", error)
}

impl Error {
    /// The error's message, where `io_text` is the text form of the I/O
    /// error inside, if there is one.
    pub open spec fn render(self, io_text: Seq<char>) -> Seq<char> {
        match self {
            Error::Io(_) => "I/O error: "@ + io_text,
            Error::NotFound(what) => "Resource not found: "@ + what@,
            Error::InvalidHandle => "Invalid handle"@,
            Error::InvalidState(what) => "Invalid state: "@ + what@,
            Error::Custom(text) => text@,
        }
    }

    /// The error's message, with `io_text` standing for the text form of the
    /// I/O error inside, if there is one.
    pub fn message_with(&self, io_text: &str) -> (message: String)
        ensures
            message@ == self.render(io_text@),
    {
        match self {
            Error::Io(_) => String::from_str("I/O error: ").concat(io_text),
            Error::NotFound(what) => String::from_str("Resource not found: ").concat(
                what.as_str(),
            ),
            Error::InvalidHandle => String::from_str("Invalid handle"),
            Error::InvalidState(what) => String::from_str("Invalid state: ").concat(
                what.as_str(),
            ),
            Error::Custom(text) => text.clone(),
        }
    }

    /// The error's message. For an I/O error it ends in the text that the
    /// operating system gives for it.
    pub fn message(&self) -> (message: String)
        ensures
            exists|io_text: Seq<char>| message@ == self.render(io_text),
    {
        match self {
            Error::Io(error) => {
                let text = io_error_text(error);
                self.message_with(text.as_str())
            },
            _ => self.message_with(""),
        }
    }
}

impl From<std::io::Error> for Error {
    fn from(error: std::io::Error) -> (e: Self) {
        Error::Io(error)
    }
}

impl FromSpecImpl<std::io::Error> for Error {
    open spec fn obeys_from_spec() -> bool {
        true
    }

    open spec fn from_spec(error: std::io::Error) -> Self {
        Error::Io(error)
    }
}

} // verus!
