//! The session: one run of the command loop for one participant, as a
//! machine that is handed what came back from each wait for a reply and
//! says what to do next.

use vstd::prelude::*;

use crate::command::{dispatch, dispatched, normalize, normalized, Command};
use crate::failure::Failure;
use crate::text::{lowercase_of, same_text, to_lowercase};

verus! {

/// What the participant is asked at each turn.
pub const MAIN_MENU: &'static str = "What would you like to do?:
Procure: Procure credits by working!
Exit | Quit | Abort: Exit Tycoon!
Todo!: Unimplemented!";

/// The help text.
pub const HELP_MESSAGE: &'static str = "Options:
Credits: Todo!
Cuties: Currency used to gamble in games!";

/// Where a session stands.
#[derive(Clone, Copy, Debug, PartialEq, Eq, Structural)]
pub enum Phase {
    /// The participant was asked for a command.
    AwaitingCommand,
    /// Over. Nothing more is asked.
    Terminated,
}

/// What is said to the participant after a command.
#[derive(Clone, Copy, Debug, PartialEq, Eq, Structural)]
pub enum Announcement {
    /// The participant left.
    Exited,
    /// No reply came in time.
    TimedOut,
    /// The answer was no command.
    Invalid,
}

impl Announcement {
    /// The words of the announcement.
    pub open spec fn words(self) -> Seq<char> {
        match self {
            Announcement::Exited => "Exited tycoon!"@,
            Announcement::TimedOut => "No response, aborting!"@,
            Announcement::Invalid => "Invalid response, retrying!"@,
        }
    }

    /// The words of the announcement.
    pub fn text(&self) -> (text: &'static str)
        ensures
            text@ == self.words(),
    {
        match self {
            Announcement::Exited => "Exited tycoon!",
            Announcement::TimedOut => "No response, aborting!",
            Announcement::Invalid => "Invalid response, retrying!",
        }
    }
}

/// What to do after a command.
#[derive(Clone, Copy, Debug, PartialEq, Eq, Structural)]
pub enum Action {
    /// Ask for an amount and work it off.
    Produce,
    /// Say something.
    Announce(Announcement),
}

/// One step of the machine: what to do, and where the session stands
/// afterwards.
#[derive(Clone, Copy, Debug, PartialEq, Eq, Structural)]
pub struct Step {
    pub action: Action,
    pub next: Phase,
}

/// The step that a command leads to.
pub open spec fn step_for(command: Command) -> Step {
    match command {
        Command::Produce => Step { action: Action::Produce, next: Phase::AwaitingCommand },
        Command::Exit => Step {
            action: Action::Announce(Announcement::Exited),
            next: Phase::Terminated,
        },
        Command::NoReply => Step {
            action: Action::Announce(Announcement::TimedOut),
            next: Phase::Terminated,
        },
        Command::Invalid => Step {
            action: Action::Announce(Announcement::Invalid),
            next: Phase::AwaitingCommand,
        },
    }
}

/// The step that a command leads to.
pub fn step(command: Command) -> (taken: Step)
    ensures
        taken == step_for(command),
{
    match command {
        Command::Produce => Step { action: Action::Produce, next: Phase::AwaitingCommand },
        Command::Exit => Step {
            action: Action::Announce(Announcement::Exited),
            next: Phase::Terminated,
        },
        Command::NoReply => Step {
            action: Action::Announce(Announcement::TimedOut),
            next: Phase::Terminated,
        },
        Command::Invalid => Step {
            action: Action::Announce(Announcement::Invalid),
            next: Phase::AwaitingCommand,
        },
    }
}

/// How a call of the game begins.
#[derive(Clone, Copy, Debug, PartialEq, Eq, Structural)]
pub enum Entry {
    /// Show the help text and start no session.
    Help,
    /// Start a session.
    Play,
}

/// How a call with the argument `argument` begins: with the help text where
/// the argument's normal form is `HELP`, with a session otherwise.
pub open spec fn entry_for(argument: Seq<char>) -> Entry {
    if normalized(argument) == "HELP"@ {
        Entry::Help
    } else {
        Entry::Play
    }
}

/// Tells how a call with the argument `argument` begins.
pub fn entry(argument: &str) -> (begun: Entry)
    ensures
        begun == entry_for(argument@),
{
    let normal = normalize(argument);
    if same_text(normal.as_str(), "HELP") {
        Entry::Help
    } else {
        Entry::Play
    }
}

/// One run of the command loop for one participant.
pub struct Session {
    user: String,
    store_path: String,
    phase: Phase,
}

impl Session {
    /// The key of the participant's record.
    pub closed spec fn user_key(&self) -> Seq<char> {
        self.user@
    }

    /// Where the store is.
    pub closed spec fn path(&self) -> Seq<char> {
        self.store_path@
    }

    /// Where the session stands.
    pub closed spec fn standing(&self) -> Phase {
        self.phase
    }

    /// Starts a session for the participant named `author`, on the store
    /// that the configuration names. Without a store there is no session.
    pub fn start(author: &str, store_path: Option<String>) -> (outcome: Result<Session, Failure>)
        ensures
            match outcome {
                Ok(session) => store_path matches Some(path) && session.path() == path@
                    && session.user_key() == lowercase_of(author@) && session.standing()
                    == Phase::AwaitingCommand,
                Err(failure) => store_path is None && failure == Failure::ConfigMissing,
            },
    {
        match store_path {
            Some(path) => Ok(
                Session { user: to_lowercase(author), store_path: path, phase: Phase::AwaitingCommand },
            ),
            None => Err(Failure::ConfigMissing),
        }
    }

    /// The key of the participant's record.
    pub fn user(&self) -> (key: &str)
        ensures
            key@ == self.user_key(),
    {
        self.user.as_str()
    }

    /// Where the store is. It is settled when the session starts and stays
    /// as it is.
    pub fn store_path(&self) -> (path: &str)
        ensures
            path@ == self.path(),
    {
        self.store_path.as_str()
    }

    /// Where the session stands.
    pub fn phase(&self) -> (phase: Phase)
        ensures
            phase == self.standing(),
    {
        self.phase
    }

    /// What to ask next: the menu while a command is awaited, nothing once
    /// the session is over.
    pub fn prompt(&self) -> (question: Option<&'static str>)
        ensures
            match question {
                Some(text) => self.standing() == Phase::AwaitingCommand && text@ == MAIN_MENU@,
                None => self.standing() == Phase::Terminated,
            },
    {
        match self.phase {
            Phase::AwaitingCommand => Some(MAIN_MENU),
            Phase::Terminated => None,
        }
    }

    /// Takes what came back from the wait for a command. While a command is
    /// awaited this is one step of the machine; once the session is over
    /// nothing is done and nothing changes.
    pub fn on_reply(&mut self, reply: Option<&str>) -> (action: Option<Action>)
        ensures
            final(self).user_key() == old(self).user_key(),
            final(self).path() == old(self).path(),
            match old(self).standing() {
                Phase::AwaitingCommand => {
                    let taken = step_for(
                        dispatched(
                            match reply {
                                Some(text) => Some(text@),
                                None => None,
                            },
                        ),
                    );
                    action == Some(taken.action) && final(self).standing() == taken.next
                },
                Phase::Terminated => action is None && final(self).standing()
                    == Phase::Terminated,
            },
    {
        match self.phase {
            Phase::AwaitingCommand => {
                let taken = step(dispatch(reply));
                self.phase = taken.next;
                Some(taken.action)
            },
            Phase::Terminated => None,
        }
    }

    /// Takes a fatal condition: the session is over, and nothing is
    /// announced.
    pub fn on_failure(&mut self, failure: Failure)
        ensures
            final(self).user_key() == old(self).user_key(),
            final(self).path() == old(self).path(),
            final(self).standing() == Phase::Terminated,
    {
        self.phase = Phase::Terminated;
    }
}

/// No reply in time always ends the session, with the announcement of the
/// timeout.
pub proof fn lemma_timeout_ends_the_session()
    ensures
        step_for(dispatched(None)) == (Step {
            action: Action::Announce(Announcement::TimedOut),
            next: Phase::Terminated,
        }),
{
}

/// The session ends on leaving and on a timeout, and on nothing else.
pub proof fn lemma_what_ends_the_session(command: Command)
    ensures
        step_for(command).next == Phase::Terminated <==> command == Command::Exit || command
            == Command::NoReply,
{
}

} // verus!
