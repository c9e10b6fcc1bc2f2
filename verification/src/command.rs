//! Commands: how an answer is normalized and which command it is.

use vstd::prelude::*;

use crate::text::{
    lemma_trim_idempotent, same_text, to_uppercase, trim, trimmed, uppercase_of,
};

verus! {

/// What the participant asks for.
#[derive(Clone, Copy, Debug, PartialEq, Eq, Structural)]
pub enum Command {
    /// Work for credits.
    Produce,
    /// Leave.
    Exit,
    /// No reply came in time.
    NoReply,
    /// Anything else.
    Invalid,
}

/// The normal form of an answer: trimmed, then in upper case.
pub open spec fn normalized(text: Seq<char>) -> Seq<char> {
    uppercase_of(trimmed(text))
}

/// The command that an answer in normal form is.
pub open spec fn command_of(normal: Seq<char>) -> Command {
    if normal == "PRODUCE"@ || normal == "PROCURE"@ {
        Command::Produce
    } else if normal == "QUIT"@ || normal == "EXIT"@ || normal == "ABORT"@ {
        Command::Exit
    } else if normal == "NOOP"@ {
        Command::NoReply
    } else {
        Command::Invalid
    }
}

/// The command that the outcome of a wait for a reply is: none in time is
/// `NoReply`, a reply is what its normal form says.
pub open spec fn dispatched(reply: Option<Seq<char>>) -> Command {
    match reply {
        Some(text) => command_of(normalized(text)),
        None => Command::NoReply,
    }
}

/// Brings an answer into normal form.
pub fn normalize(text: &str) -> (normal: String)
    ensures
        normal@ == normalized(text@),
{
    to_uppercase(trim(text))
}

/// Tells which command an answer in normal form is.
pub fn classify(normal: &str) -> (command: Command)
    ensures
        command == command_of(normal@),
{
    if same_text(normal, "PRODUCE") || same_text(normal, "PROCURE") {
        Command::Produce
    } else if same_text(normal, "QUIT") || same_text(normal, "EXIT") || same_text(
        normal,
        "ABORT",
    ) {
        Command::Exit
    } else if same_text(normal, "NOOP") {
        Command::NoReply
    } else {
        Command::Invalid
    }
}

/// Tells which command an answer is.
pub fn parse_command(text: &str) -> (command: Command)
    ensures
        command == command_of(normalized(text@)),
{
    let normal = normalize(text);
    classify(normal.as_str())
}

/// Tells which command the outcome of a wait for a reply is.
pub fn dispatch(reply: Option<&str>) -> (command: Command)
    ensures
        command == dispatched(
            match reply {
                Some(text) => Some(text@),
                None => None,
            },
        ),
{
    match reply {
        Some(text) => parse_command(text),
        None => Command::NoReply,
    }
}

/// White space around an answer changes nothing: the answer and its
/// trimmed form are the same command.
pub proof fn lemma_outer_whitespace_is_ignored(text: Seq<char>)
    ensures
        normalized(trimmed(text)) == normalized(text),
        command_of(normalized(trimmed(text))) == command_of(normalized(text)),
{
    lemma_trim_idempotent(text);
}

/// Case changes nothing: two answers whose trimmed forms are the same in
/// upper case are the same command.
pub proof fn lemma_case_is_ignored(a: Seq<char>, b: Seq<char>)
    ensures
        uppercase_of(trimmed(a)) == uppercase_of(trimmed(b)) ==> command_of(normalized(a))
            == command_of(normalized(b)),
{
}

} // verus!
