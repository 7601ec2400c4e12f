//! The grammar of a command line, as a function on its characters.
//!
//! ```text
//! line    := ws* '.' keyword ws* args? ws* EOF
//! keyword := "help" | "open" | "close"
//! args    := token (ws+ token)*
//! token   := (non-whitespace char)+
//! ```

use vstd::prelude::*;
use crate::command_parser::CommandView;
use crate::errors::{invalid_command_text, missing_argument_text, quoted, unrecognized_argument_text};
use crate::text::{
    all_space, is_space, is_word, leading_spaces, lemma_leading_spaces,
    lemma_leading_spaces_from, lemma_tokens_of_parts, lemma_tokens_of_space,
    lemma_tokens_of_word, tokens,
};

verus! {

/// The keyword of the command that shows help.
pub const HELP_COMMAND: &'static str = "help";

/// The keyword of the command that opens a database.
pub const OPEN_COMMAND: &'static str = "open";

/// The keyword of the command that closes the open database.
pub const CLOSE_COMMAND: &'static str = "close";

/// What the grammar makes of a line.
pub enum Outcome {
    /// The line is this command.
    Command(CommandView),
    /// The line is `open` without the one argument that it requires.
    MissingArgument,
    /// The line is `open` with more than one argument; this is the second.
    UnrecognizedArgument(Seq<char>),
    /// The line is no command.
    Invalid,
}

/// What follows the keyword `help`: any arguments at all.
pub open spec fn help_outcome(args: Seq<Seq<char>>) -> Outcome {
    Outcome::Command(CommandView::Help(args))
}

/// What follows the keyword `open`: exactly one argument.
pub open spec fn open_outcome(args: Seq<Seq<char>>) -> Outcome {
    if args.len() == 0 {
        Outcome::MissingArgument
    } else if args.len() == 1 {
        Outcome::Command(CommandView::Open(args[0]))
    } else {
        Outcome::UnrecognizedArgument(args[1])
    }
}

/// What follows the keyword `close`: no argument. An argument makes the line
/// invalid as a whole.
pub open spec fn close_outcome(args: Seq<Seq<char>>) -> Outcome {
    if args.len() == 0 {
        Outcome::Command(CommandView::Close)
    } else {
        Outcome::Invalid
    }
}

/// What the grammar makes of `body`, the line after its dot.
pub open spec fn body_outcome(body: Seq<char>) -> Outcome {
    if HELP_COMMAND@.is_prefix_of(body) {
        help_outcome(tokens(body.skip(HELP_COMMAND@.len() as int)))
    } else if OPEN_COMMAND@.is_prefix_of(body) {
        open_outcome(tokens(body.skip(OPEN_COMMAND@.len() as int)))
    } else if CLOSE_COMMAND@.is_prefix_of(body) {
        close_outcome(tokens(body.skip(CLOSE_COMMAND@.len() as int)))
    } else {
        Outcome::Invalid
    }
}

/// What the grammar makes of `line`.
pub open spec fn outcome(line: Seq<char>) -> Outcome {
    let dot = leading_spaces(line) as int;
    if dot < line.len() && line[dot] == '.' {
        body_outcome(line.skip(dot + 1))
    } else {
        Outcome::Invalid
    }
}

/// What reading `line` returns where the grammar made `found` of it: the
/// command, or the message of the failure. Only the message for an invalid
/// line shows the line, and it shows it whole.
pub open spec fn answer(found: Outcome, line: Seq<char>) -> Result<CommandView, Seq<char>> {
    match found {
        Outcome::Command(cmd) => Ok(cmd),
        Outcome::MissingArgument => Err(missing_argument_text()),
        Outcome::UnrecognizedArgument(arg) => Err(unrecognized_argument_text(quoted(arg))),
        Outcome::Invalid => Err(invalid_command_text(quoted(line))),
    }
}

/// No keyword holds white space.
pub proof fn lemma_keywords_are_words()
    ensures
        is_word(HELP_COMMAND@),
        is_word(OPEN_COMMAND@),
        is_word(CLOSE_COMMAND@),
{
    reveal_strlit("help");
    reveal_strlit("open");
    reveal_strlit("close");
}

/// White space after `body` changes neither whether it begins with the word
/// `word` nor the tokens that follow the word.
pub proof fn lemma_trailing_space_after_word(word: Seq<char>, body: Seq<char>, trail: Seq<char>)
    requires
        is_word(word),
        all_space(trail),
    ensures
        word.is_prefix_of(body + trail) == word.is_prefix_of(body),
        word.is_prefix_of(body) ==> tokens((body + trail).skip(word.len() as int)) == tokens(
            body.skip(word.len() as int),
        ),
{
    let n = word.len() as int;
    let whole = body + trail;
    if word.is_prefix_of(whole) {
        if body.len() < n {
            let k = body.len() as int;
            assert(whole.subrange(0, n)[k] == trail[0]);
            assert(!is_space(word[k]));
        }
        assert(whole.subrange(0, n) =~= body.subrange(0, n));
    }
    if word.is_prefix_of(body) {
        assert(whole.subrange(0, n) =~= body.subrange(0, n));
        let rest = body.skip(n);
        assert(whole.skip(n) =~= rest + trail);
        if trail.len() > 0 {
            assert(is_space(trail[0]));
        }
        lemma_tokens_of_parts(rest, trail);
        lemma_tokens_of_space(trail);
        assert(tokens(rest) + Seq::<Seq<char>>::empty() =~= tokens(rest));
    }
}

/// White space before a line does not change what the grammar makes of it.
pub proof fn law_leading_space_ignored(lead: Seq<char>, line: Seq<char>)
    requires
        all_space(lead),
    ensures
        outcome(lead + line) == outcome(line),
{
    let whole = lead + line;
    let n = lead.len() as int;
    assert(whole.take(n) =~= lead);
    assert(whole.skip(n) =~= line);
    lemma_leading_spaces_from(whole, n);
    lemma_leading_spaces(line);
    let dot = leading_spaces(line) as int;
    if dot < line.len() {
        assert(whole[n + dot] == line[dot]);
        assert(whole.skip(n + dot + 1) =~= line.skip(dot + 1));
    }
}

/// White space after a line does not change what the grammar makes of it.
pub proof fn law_trailing_space_ignored(line: Seq<char>, trail: Seq<char>)
    requires
        all_space(trail),
    ensures
        outcome(line + trail) == outcome(line),
{
    let whole = line + trail;
    lemma_leading_spaces(line);
    let dot = leading_spaces(line) as int;
    if dot < line.len() {
        assert(whole.take(dot) =~= line.take(dot));
        lemma_leading_spaces_from(whole, dot);
        assert(whole.skip(dot)[0] == line[dot]);
        assert(leading_spaces(whole) == dot);
        assert(whole[dot] == line[dot]);
        if line[dot] == '.' {
            let body = line.skip(dot + 1);
            assert(whole.skip(dot + 1) =~= body + trail);
            lemma_keywords_are_words();
            lemma_trailing_space_after_word(HELP_COMMAND@, body, trail);
            lemma_trailing_space_after_word(OPEN_COMMAND@, body, trail);
            lemma_trailing_space_after_word(CLOSE_COMMAND@, body, trail);
        }
    } else {
        assert(line.take(dot) =~= line);
        lemma_leading_spaces(whole);
        let at = leading_spaces(whole) as int;
        if at < whole.len() {
            if at < line.len() {
                assert(whole[at] == line[at]);
            } else {
                assert(whole[at] == trail[at - line.len()]);
            }
        }
    }
}

/// White space around a line is insignificant: the grammar makes of the line
/// with it what it makes of the line without it.
pub proof fn law_surrounding_space_ignored(lead: Seq<char>, line: Seq<char>, trail: Seq<char>)
    requires
        all_space(lead),
        all_space(trail),
    ensures
        outcome(lead + line + trail) == outcome(line),
{
    law_trailing_space_ignored(lead + line, trail);
    law_leading_space_ignored(lead, line);
}

/// After a dot and `help`, whatever follows is read as the arguments, and
/// the line is the command that shows help on them.
pub proof fn law_help_takes_any_arguments(rest: Seq<char>)
    ensures
        outcome(".help"@ + rest) == help_outcome(tokens(rest)),
{
    reveal_strlit(".help");
    reveal_strlit("help");
    let line = ".help"@ + rest;
    assert(line[0] == '.');
    assert(leading_spaces(line) == 0);
    let body = line.skip(1);
    assert(body.subrange(0, 4) =~= HELP_COMMAND@);
    assert(body.skip(4) =~= rest);
}

/// After a dot and `open`, whatever follows is read as the arguments, of
/// which there must be one.
pub proof fn law_open_takes_one_argument(rest: Seq<char>)
    ensures
        outcome(".open"@ + rest) == open_outcome(tokens(rest)),
{
    reveal_strlit(".open");
    reveal_strlit("help");
    reveal_strlit("open");
    let line = ".open"@ + rest;
    assert(line[0] == '.');
    assert(leading_spaces(line) == 0);
    let body = line.skip(1);
    assert(body.subrange(0, 4)[0] == 'o');
    assert(body.subrange(0, 4) =~= OPEN_COMMAND@);
    assert(body.skip(4) =~= rest);
}

/// After a dot and `close`, whatever follows is read as the arguments, and
/// there must be none: with one, the line is invalid as a whole.
pub proof fn law_close_takes_no_argument(rest: Seq<char>)
    ensures
        outcome(".close"@ + rest) == close_outcome(tokens(rest)),
{
    reveal_strlit(".close");
    reveal_strlit("help");
    reveal_strlit("open");
    reveal_strlit("close");
    let line = ".close"@ + rest;
    assert(line[0] == '.');
    assert(leading_spaces(line) == 0);
    let body = line.skip(1);
    assert(body.subrange(0, 4)[0] == 'c');
    assert(body.subrange(0, 5) =~= CLOSE_COMMAND@);
    assert(body.skip(5) =~= rest);
}

/// `.open`, a space and one token is the command that opens the database
/// named by that token, whatever the token holds.
pub proof fn law_open_takes_one_token(path: Seq<char>)
    requires
        is_word(path),
    ensures
        outcome(".open "@ + path) == Outcome::Command(CommandView::Open(path)),
        answer(outcome(".open "@ + path), ".open "@ + path) == Ok::<CommandView, Seq<char>>(
            CommandView::Open(path),
        ),
{
    reveal_strlit(".open ");
    reveal_strlit("help");
    reveal_strlit("open");
    let line = ".open "@ + path;
    assert(line[0] == '.');
    assert(leading_spaces(line) == 0);
    let body = line.skip(1);
    assert(body[0] == 'o');
    assert(body.subrange(0, 4)[0] == 'o');
    assert(!HELP_COMMAND@.is_prefix_of(body));
    assert(body.subrange(0, 4) =~= OPEN_COMMAND@);
    let rest = body.skip(4);
    assert(rest[0] == ' ');
    assert(rest.drop_first() =~= path);
    lemma_tokens_of_word(path);
    assert(tokens(rest) == tokens(path));
}

/// A line that the grammar takes for a command is complete: it is never a
/// query or a transaction.
pub proof fn law_commands_read_are_complete(line: Seq<char>)
    ensures
        outcome(line) is Command ==> outcome(line)->Command_0.is_complete(),
{
}

} // verus!
