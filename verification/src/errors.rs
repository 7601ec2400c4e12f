//! The one kind of failure that reading a command line can end in, and the
//! wording of its messages.

use vstd::prelude::*;
use vstd::string::StringExecFns;

verus! {

/// A failure of the shell. Every variant carries the message that the shell
/// shows; none is fatal.
#[derive(Clone, Debug, PartialEq, Eq)]
pub enum Error {
    /// The line is no command of the shell.
    CommandParse(String),
}

/// The debug rendering of a string: what std's `Debug` for `str` writes for
/// the characters `s`, the text between double quotes with its escapes.
pub uninterp spec fn quoted(s: Seq<char>) -> Seq<char>;

/// `<str as Debug>::fmt` of std, reached through `format!("{:?}", ..)`.
/// Trusted: the rendering depends on the characters of `s` alone, so it has
/// the name `quoted`; nothing else is claimed of it.
#[verifier::external_body]
pub(crate) fn quote(s: &str) -> (q: String)
    ensures
        q@ == quoted(s@),
{
    format!("{:?}", s)
}

/// The message for a command that lacks its argument.
pub open spec fn missing_argument_text() -> Seq<char> {
    "Missing required argument"@
}

/// The message for an argument too many, whose rendering is `shown`.
pub open spec fn unrecognized_argument_text(shown: Seq<char>) -> Seq<char> {
    "Unrecognized argument "@ + shown
}

/// The message for a line that is no command, whose rendering is `shown`.
pub open spec fn invalid_command_text(shown: Seq<char>) -> Seq<char> {
    "Invalid command "@ + shown
}

impl Error {
    /// The message that the error carries.
    pub open spec fn message(self) -> Seq<char> {
        match self {
            Error::CommandParse(message) => message@,
        }
    }

    /// A command lacks the argument that it requires.
    pub fn missing_argument() -> (e: Error)
        ensures
            e.message() == missing_argument_text(),
    {
        Error::CommandParse(String::from_str("Missing required argument"))
    }

    /// A command got an argument that it does not take; `shown` is that
    /// argument as the message is to show it.
    pub fn unrecognized_argument(shown: &str) -> (e: Error)
        ensures
            e.message() == unrecognized_argument_text(shown@),
    {
        Error::CommandParse(String::from_str("Unrecognized argument ").concat(shown))
    }

    /// A line is no command of the shell; `shown` is the line as the message
    /// is to show it.
    pub fn invalid_command(shown: &str) -> (e: Error)
        ensures
            e.message() == invalid_command_text(shown@),
    {
        Error::CommandParse(String::from_str("Invalid command ").concat(shown))
    }

    /// The message, as the shell prints it.
    pub fn to_string(&self) -> (text: String)
        ensures
            text@ == self.message(),
    {
        match self {
            Error::CommandParse(message) => message.clone(),
        }
    }
}

} // verus!
