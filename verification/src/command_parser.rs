//! Reading one line of input as a command of the shell.

use vstd::prelude::*;
use vstd::string::StrSliceExecFns;
use crate::errors::{quote, Error};
use crate::grammar::{
    answer, body_outcome, close_outcome, help_outcome, open_outcome, outcome, Outcome,
};
pub use crate::grammar::{CLOSE_COMMAND, HELP_COMMAND, OPEN_COMMAND};
use crate::text::{begins_with, count_leading_spaces, split_tokens, texts, to_chars, tokens};

verus! {

/// A command of the shell.
#[derive(Clone, Debug, Eq, PartialEq)]
pub enum Command {
    /// The tokens of a transaction, which may go on over further lines.
    Transact(Vec<String>),
    /// The tokens of a query, which may go on over further lines.
    Query(Vec<String>),
    /// Show help, on the topics given.
    Help(Vec<String>),
    /// Open the database at the path given.
    Open(String),
    /// Close the open database.
    Close,
}

/// A command, as the texts that it holds.
pub enum CommandView {
    Transact(Seq<Seq<char>>),
    Query(Seq<Seq<char>>),
    Help(Seq<Seq<char>>),
    Open(Seq<char>),
    Close,
}

impl CommandView {
    /// Whether the command needs no more input before it is carried out:
    /// every command but a query or a transaction.
    pub open spec fn is_complete(self) -> bool {
        !(self is Query || self is Transact)
    }
}

impl View for Command {
    type V = CommandView;

    open spec fn view(&self) -> CommandView {
        match self {
            Command::Transact(args) => CommandView::Transact(texts(args@)),
            Command::Query(args) => CommandView::Query(texts(args@)),
            Command::Help(args) => CommandView::Help(texts(args@)),
            Command::Open(path) => CommandView::Open(path@),
            Command::Close => CommandView::Close,
        }
    }
}

impl Command {
    /// Whether no more input is required before the command is carried out.
    /// A query or a transaction never is complete here: whether its body is
    /// whole is for the reader of that body to say.
    pub fn is_complete(&self) -> (complete: bool)
        ensures
            complete == self@.is_complete(),
            complete == (self is Help || self is Open || self is Close),
    {
        match self {
            Command::Query(_) | Command::Transact(_) => false,
            Command::Help(_) | Command::Open(_) | Command::Close => true,
        }
    }
}

/// What the grammar made of a line, before any message is worded.
#[derive(Clone, Debug, Eq, PartialEq)]
pub enum Parsed {
    /// The line is this command.
    Command(Command),
    /// The line is `open` without the one argument that it requires.
    MissingArgument,
    /// The line is `open` with more than one argument; this is the second.
    UnrecognizedArgument(String),
    /// The line is no command.
    Invalid,
}

impl View for Parsed {
    type V = Outcome;

    open spec fn view(&self) -> Outcome {
        match self {
            Parsed::Command(cmd) => Outcome::Command(cmd@),
            Parsed::MissingArgument => Outcome::MissingArgument,
            Parsed::UnrecognizedArgument(arg) => Outcome::UnrecognizedArgument(arg@),
            Parsed::Invalid => Outcome::Invalid,
        }
    }
}

/// The command `help` with the arguments `args`.
pub fn help_command(args: Vec<String>) -> (parsed: Parsed)
    ensures
        parsed@ == help_outcome(texts(args@)),
{
    Parsed::Command(Command::Help(args))
}

/// The command `open` with the arguments `args`, of which it takes one.
pub fn open_command(args: Vec<String>) -> (parsed: Parsed)
    ensures
        parsed@ == open_outcome(texts(args@)),
{
    if args.len() < 1 {
        return Parsed::MissingArgument;
    }
    if args.len() > 1 {
        return Parsed::UnrecognizedArgument(args[1].clone());
    }
    Parsed::Command(Command::Open(args[0].clone()))
}

/// The command `close` with the arguments `args`, of which it takes none.
pub fn close_command(args: Vec<String>) -> (parsed: Parsed)
    ensures
        parsed@ == close_outcome(texts(args@)),
{
    if args.len() > 0 {
        return Parsed::Invalid;
    }
    Parsed::Command(Command::Close)
}

/// The arguments that follow `keyword` in `body`, where `body` begins with
/// that keyword.
pub fn arguments_after(body: &str, keyword: &str) -> (args: Option<Vec<String>>)
    ensures
        args is Some == keyword@.is_prefix_of(body@),
        args is Some ==> texts(args->0@) == tokens(body@.skip(keyword@.len() as int)),
{
    let chars = to_chars(body);
    let word = to_chars(keyword);
    if begins_with(chars.as_slice(), word.as_slice()) {
        let rest = body.substring_char(word.len(), chars.len());
        assert(rest@ =~= body@.skip(keyword@.len() as int));
        Some(split_tokens(rest))
    } else {
        None
    }
}

/// Reads `body`, the line after its dot: the keyword, then its arguments.
pub fn parse_body(body: &str) -> (parsed: Parsed)
    ensures
        parsed@ == body_outcome(body@),
{
    if let Some(args) = arguments_after(body, HELP_COMMAND) {
        return help_command(args);
    }
    if let Some(args) = arguments_after(body, OPEN_COMMAND) {
        return open_command(args);
    }
    if let Some(args) = arguments_after(body, CLOSE_COMMAND) {
        return close_command(args);
    }
    Parsed::Invalid
}

/// Reads `line` by the grammar: white space, the dot, then the body.
pub fn parse_line(line: &str) -> (parsed: Parsed)
    ensures
        parsed@ == outcome(line@),
{
    let chars = to_chars(line);
    let dot = count_leading_spaces(chars.as_slice());
    if dot >= chars.len() || chars[dot] != '.' {
        return Parsed::Invalid;
    }
    let body = line.substring_char(dot + 1, chars.len());
    assert(body@ =~= line@.skip(dot + 1));
    parse_body(body)
}

/// What a result of reading holds: the command's texts, or the message.
pub open spec fn result_view(result: Result<Command, Error>) -> Result<CommandView, Seq<char>> {
    match result {
        Ok(cmd) => Ok(cmd@),
        Err(e) => Err(e.message()),
    }
}

/// Reads the line `s` as a command of the shell.
///
/// Returns the command where the grammar finds one, and else the error whose
/// message says what is wrong: `open` without its argument, `open` with a
/// second argument, which the message shows, or a line that is no command,
/// which the message shows whole, as it was given.
pub fn command(s: &str) -> (result: Result<Command, Error>)
    ensures
        result_view(result) == answer(outcome(s@), s@),
{
    match parse_line(s) {
        Parsed::Command(cmd) => Ok(cmd),
        Parsed::MissingArgument => Err(Error::missing_argument()),
        Parsed::UnrecognizedArgument(arg) => {
            let shown = quote(arg.as_str());
            Err(Error::unrecognized_argument(shown.as_str()))
        },
        Parsed::Invalid => {
            let shown = quote(s);
            Err(Error::invalid_command(shown.as_str()))
        },
    }
}

} // verus!
