//! The records that the parser yields, and the errors of a run.

use vstd::prelude::*;
use vstd::string::StringExecFns;

use crate::cause::CauseOfDeath;

verus! {

/// What a [`KillEntry`] says: who killed whom, and how.
pub struct KillView {
    /// The name of the killer; `"<world>"` where the environment killed.
    pub player: Seq<char>,
    /// The name of the victim.
    pub killed: Seq<char>,
    /// The instrument of the kill.
    pub cause: CauseOfDeath,
}

/// Kill log entry: the player that performed the kill, the player that was
/// killed and the instrument of killing. Names are taken as they are, empty
/// or with blanks in them.
#[derive(Debug, PartialEq, Eq)]
pub struct KillEntry {
    player: String,
    killed: String,
    cause: CauseOfDeath,
}

impl View for KillEntry {
    type V = KillView;

    closed spec fn view(&self) -> KillView {
        KillView { player: self.player@, killed: self.killed@, cause: self.cause }
    }
}

impl KillEntry {
    /// Create a new kill log entry.
    pub fn new(player: &str, killed: &str, cause: CauseOfDeath) -> (entry: KillEntry)
        ensures
            entry@ == (KillView { player: player@, killed: killed@, cause }),
    {
        KillEntry { player: player.to_owned(), killed: killed.to_owned(), cause }
    }

    /// The name of the killer.
    pub fn player(&self) -> (name: &str)
        ensures
            name@ == self@.player,
    {
        self.player.as_str()
    }

    /// The name of the victim.
    pub fn killed(&self) -> (name: &str)
        ensures
            name@ == self@.killed,
    {
        self.killed.as_str()
    }

    /// The instrument of the kill.
    pub fn cause(&self) -> (cause: CauseOfDeath)
        ensures
            cause == self@.cause,
    {
        self.cause
    }

    /// Takes the entry apart: killer, victim, cause.
    pub fn into_parts(self) -> (parts: (String, String, CauseOfDeath))
        ensures
            parts.0@ == self@.player,
            parts.1@ == self@.killed,
            parts.2 == self@.cause,
    {
        (self.player, self.killed, self.cause)
    }
}

/// What a [`LogEntry`] says.
pub enum LogEntryView {
    /// A new match started.
    InitGame,
    /// A player was killed.
    Kill(KillView),
}

/// A session log entry.
#[derive(Debug, PartialEq, Eq)]
pub enum LogEntry {
    /// New match started.
    InitGame,
    /// A player was killed.
    Kill(KillEntry),
}

impl View for LogEntry {
    type V = LogEntryView;

    open spec fn view(&self) -> LogEntryView {
        match self {
            LogEntry::InitGame => LogEntryView::InitGame,
            LogEntry::Kill(kill) => LogEntryView::Kill(kill@),
        }
    }
}

/// What an [`Error`] says.
pub enum ErrorView {
    /// A kill line named this cause of death, which the vocabulary lacks.
    InvalidCauseOfDeath(Seq<char>),
    /// A kill came before any match had started.
    NoMatch,
    /// Reading the log failed, with this message.
    Io(Seq<char>),
    /// The regular-expression engine rejected this line pattern.
    InvalidPattern(Seq<char>),
}

impl ErrorView {
    /// The message of the error: a sentence that names the kind of failure
    /// and the input at fault.
    pub open spec fn message(self) -> Seq<char> {
        match self {
            ErrorView::InvalidCauseOfDeath(token) => "'"@ + token
                + "' is not a valid cause of death"@,
            ErrorView::NoMatch => "Found a kill entry but the match hasn't started yet"@,
            ErrorView::Io(message) => "IO error: "@ + message,
            ErrorView::InvalidPattern(pattern) => "'"@ + pattern + "' is not a valid line pattern"@,
        }
    }
}

/// Why a run over a session log stops.
#[derive(Debug, PartialEq, Eq)]
pub enum Error {
    /// A kill line named a cause of death that the vocabulary lacks; the
    /// offending token is kept.
    InvalidCauseOfDeath(String),
    /// Found a kill entry but the match hasn't started yet.
    NoMatch,
    /// Reading the log failed. The library reads nothing itself and never
    /// gives this error; it is here so that whoever reads the lines can carry
    /// a failed read in the same sequence of results.
    Io(String),
    /// The regular-expression engine rejected a line pattern; the pattern is
    /// kept.
    InvalidPattern(String),
}

impl View for Error {
    type V = ErrorView;

    open spec fn view(&self) -> ErrorView {
        match self {
            Error::InvalidCauseOfDeath(token) => ErrorView::InvalidCauseOfDeath(token@),
            Error::NoMatch => ErrorView::NoMatch,
            Error::Io(message) => ErrorView::Io(message@),
            Error::InvalidPattern(pattern) => ErrorView::InvalidPattern(pattern@),
        }
    }
}

/// What a parser yields for a line that it does not pass over: the entry
/// that the line holds, or the error that it raises.
pub type Yield = Result<LogEntryView, ErrorView>;

/// What a result of the parser says.
pub open spec fn yield_view(entry: Result<LogEntry, Error>) -> Yield {
    match entry {
        Ok(entry) => Ok(entry@),
        Err(error) => Err(error@),
    }
}

impl Error {
    /// The message of the error.
    pub fn to_string(&self) -> (message: String)
        ensures
            message@ == self@.message(),
    {
        match self {
            Error::InvalidCauseOfDeath(token) => {
                let mut message = "'".to_owned();
                message.append(token.as_str());
                message.append("' is not a valid cause of death");
                message
            },
            Error::NoMatch => "Found a kill entry but the match hasn't started yet".to_owned(),
            Error::Io(cause) => {
                let mut message = "IO error: ".to_owned();
                message.append(cause.as_str());
                message
            },
            Error::InvalidPattern(pattern) => {
                let mut message = "'".to_owned();
                message.append(pattern.as_str());
                message.append("' is not a valid line pattern");
                message
            },
        }
    }
}

} // verus!
