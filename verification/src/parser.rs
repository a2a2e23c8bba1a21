//! Recognising the records of a session log, line by line.
//!
//! A session log is organised with one entry per line, each of which is
//!
//! ```text
//! <min>:<ss> <message>
//! ```
//!
//! Two kinds of message are read: the start of a match and a kill. Every
//! other line is passed over. Player names may contain blanks.

use vstd::prelude::*;

use crate::cause::CauseOfDeath;
use crate::entry::{
    yield_view, Error, ErrorView, KillEntry, KillView, LogEntry, LogEntryView, Yield,
};
use crate::pattern::{regex_captures, regex_compiles, regex_is_match, Pattern};

verus! {

/// The pattern of a line that starts a match. Only the head of the line is
/// looked at; the settings that follow are not read.
pub const INIT_GAME_PATTERN: &'static str = r"^\s*\d+:\d+ InitGame:";

/// The pattern of a line that reports a kill:
///
/// ```text
/// Kill: <a> <b> <c>: <player1> killed <player2> by <type>
/// ```
///
/// Its three groups are the killer, the victim and the token of the cause.
/// Both names are matched greedily, so a name that itself holds ` killed ` or
/// ` by ` is split at the last place that lets the line match.
pub const KILL_PATTERN: &'static str = r"^\s*\d+:\d+ Kill: \d+ \d+ \d+: (.+) killed (.+) by (\S+)";

/// What one line of a log amounts to: `None` for a line that is passed over,
/// else what the parser yields for the line.
pub type Outcome = Option<Yield>;

/// What the result of reading a line says.
pub open spec fn outcome_view(outcome: Option<Result<LogEntry, Error>>) -> Outcome {
    match outcome {
        Some(result) => Some(yield_view(result)),
        None => None,
    }
}

/// What the capture groups of a match of the kill pattern amount to. Groups
/// 1, 2 and 3 are the killer, the victim and the token of the cause. A token
/// outside the vocabulary is an error that keeps the token. A match in which
/// one of the three groups took no part is no kill.
pub open spec fn kill_outcome(groups: Seq<Option<Seq<char>>>) -> Outcome {
    if groups.len() > 3 && groups[1] is Some && groups[2] is Some && groups[3] is Some {
        let token = groups[3]->0;
        match CauseOfDeath::parse(token) {
            Some(cause) => Some(
                Ok(
                    LogEntryView::Kill(
                        KillView { player: groups[1]->0, killed: groups[2]->0, cause },
                    ),
                ),
            ),
            None => Some(Err(ErrorView::InvalidCauseOfDeath(token))),
        }
    } else {
        None
    }
}

/// What the line `line` amounts to. The pattern of a match start is tried
/// first, then the pattern of a kill; a line that neither matches is passed
/// over. A pattern that the regular-expression engine rejects is an error on
/// every line on which it is tried.
pub open spec fn line_outcome(line: Seq<char>) -> Outcome {
    if !regex_compiles(INIT_GAME_PATTERN@) {
        Some(Err(ErrorView::InvalidPattern(INIT_GAME_PATTERN@)))
    } else if regex_is_match(INIT_GAME_PATTERN@, line) {
        Some(Ok(LogEntryView::InitGame))
    } else if !regex_compiles(KILL_PATTERN@) {
        Some(Err(ErrorView::InvalidPattern(KILL_PATTERN@)))
    } else {
        match regex_captures(KILL_PATTERN@, line) {
            Some(groups) => kill_outcome(groups),
            None => None,
        }
    }
}

/// The results that a parser yields over `lines`, in order: one for each line
/// that is not passed over.
pub open spec fn entries(lines: Seq<Seq<char>>) -> Seq<Yield>
    decreases lines.len(),
{
    if lines.len() == 0 {
        Seq::empty()
    } else {
        match line_outcome(lines.first()) {
            Some(result) => seq![result] + entries(lines.drop_first()),
            None => entries(lines.drop_first()),
        }
    }
}

/// How many lines at the front of `lines` are passed over before one yields
/// a result, or the input ends.
pub open spec fn skipped(lines: Seq<Seq<char>>) -> nat
    decreases lines.len(),
{
    if lines.len() == 0 || line_outcome(lines.first()) is Some {
        0
    } else {
        1 + skipped(lines.drop_first())
    }
}

/// Builds the entry of a kill from the capture groups of a match of the kill
/// pattern.
pub fn kill_from_groups(groups: &Vec<Option<String>>) -> (outcome: Option<Result<LogEntry, Error>>)
    ensures
        outcome_view(outcome) == kill_outcome(groups.deep_view()),
{
    if groups.len() < 4 {
        return None;
    }
    match (&groups[1], &groups[2], &groups[3]) {
        (Some(player), Some(killed), Some(token)) => {
            match CauseOfDeath::from_token(token.as_str()) {
                Some(cause) => Some(
                    Ok(LogEntry::Kill(KillEntry::new(player.as_str(), killed.as_str(), cause))),
                ),
                None => Some(Err(Error::InvalidCauseOfDeath(token.clone()))),
            }
        },
        _ => None,
    }
}

/// What compiling the pattern `pattern` leaves to match with: the pattern
/// itself, or nothing where the regular-expression engine rejects it.
pub open spec fn compiled(pattern: Seq<char>) -> Option<Seq<char>> {
    if regex_compiles(pattern) {
        Some(pattern)
    } else {
        None
    }
}

/// Reads the lines of a log, one at a time.
///
/// Both line patterns are compiled when the parser is made, and once only.
pub struct LineParser {
    init_game: Option<Pattern>,
    kill: Option<Pattern>,
}

impl LineParser {
    /// The pattern that the parser holds compiled for the start of a match,
    /// if it holds one.
    pub closed spec fn init_game_pattern(&self) -> Option<Seq<char>> {
        match self.init_game {
            Some(pattern) => Some(pattern.source()),
            None => None,
        }
    }

    /// The pattern that the parser holds compiled for a kill, if it holds
    /// one.
    pub closed spec fn kill_pattern(&self) -> Option<Seq<char>> {
        match self.kill {
            Some(pattern) => Some(pattern.source()),
            None => None,
        }
    }

    /// A parser holds what compiling the two line patterns gave.
    #[verifier::type_invariant]
    spec fn holds_line_patterns(&self) -> bool {
        &&& self.init_game_pattern() == compiled(INIT_GAME_PATTERN@)
        &&& self.kill_pattern() == compiled(KILL_PATTERN@)
    }

    /// Makes a parser of lines: compiles the two line patterns and keeps what
    /// compiling gave, for each the compiled pattern or, where the
    /// regular-expression engine rejects it, nothing.
    pub fn new() -> (parser: LineParser)
        ensures
            parser.init_game_pattern() == compiled(INIT_GAME_PATTERN@),
            parser.kill_pattern() == compiled(KILL_PATTERN@),
    {
        LineParser {
            init_game: Pattern::compile(INIT_GAME_PATTERN),
            kill: Pattern::compile(KILL_PATTERN),
        }
    }

    /// Reads one line of a log.
    pub fn parse_line(&self, line: &str) -> (outcome: Option<Result<LogEntry, Error>>)
        ensures
            outcome_view(outcome) == line_outcome(line@),
    {
        proof {
            use_type_invariant(self);
        }
        let Some(init_game) = &self.init_game else {
            return Some(Err(Error::InvalidPattern(INIT_GAME_PATTERN.to_owned())));
        };
        if init_game.is_match(line) {
            return Some(Ok(LogEntry::InitGame));
        }
        let Some(kill) = &self.kill else {
            return Some(Err(Error::InvalidPattern(KILL_PATTERN.to_owned())));
        };
        match kill.captures(line) {
            Some(groups) => kill_from_groups(&groups),
            None => None,
        }
    }
}

/// Yields the entries of a session log, read from its lines.
pub struct KillLog {
    parser: LineParser,
    lines: Vec<String>,
    next: usize,
}

impl KillLog {
    /// The cursor lies within the lines.
    #[verifier::type_invariant]
    spec fn cursor_in_range(&self) -> bool {
        self.next <= self.lines.len()
    }

    /// The lines that are still to be read.
    pub closed spec fn remaining(&self) -> Seq<Seq<char>> {
        self.lines.deep_view().skip(self.next as int)
    }

    /// The results that are still to be yielded.
    pub open spec fn upcoming(&self) -> Seq<Yield> {
        entries(self.remaining())
    }

    /// Create a new parser over the lines of a log.
    pub fn new(lines: Vec<String>) -> (log: KillLog)
        ensures
            log.remaining() == lines.deep_view(),
    {
        KillLog { parser: LineParser::new(), lines, next: 0 }
    }

    /// Parse and return the next entry of the log, passing over the lines that
    /// hold none. Gives `None` once the lines are used up.
    ///
    /// An error is yielded like an entry, once, for the line that raised it;
    /// a later call goes on with the line after it.
    pub fn next(&mut self) -> (outcome: Option<Result<LogEntry, Error>>)
        ensures
            ({
                let lines = old(self).remaining();
                let k = skipped(lines) as int;
                if k == lines.len() {
                    outcome is None && final(self).remaining() == Seq::<Seq<char>>::empty()
                } else {
                    &&& 0 <= k < lines.len()
                    &&& outcome is Some
                    &&& outcome_view(outcome) == line_outcome(lines[k])
                    &&& final(self).remaining() == lines.skip(k + 1)
                }
            }),
            outcome is None ==> old(self).upcoming().len() == 0,
            outcome is Some ==> {
                &&& old(self).upcoming().len() > 0
                &&& outcome_view(outcome) == Some(old(self).upcoming().first())
                &&& final(self).upcoming() == old(self).upcoming().drop_first()
            },
    {
        proof {
            use_type_invariant(&*self);
        }
        let ghost lines = self.remaining();
        while self.next < self.lines.len()
            invariant
                self.next <= self.lines.len(),
                self.lines == old(self).lines,
                old(self).next <= self.next,
                lines == old(self).remaining(),
                skipped(lines) == (self.next - old(self).next) + skipped(self.remaining()),
                self.remaining() == lines.skip(self.next - old(self).next),
            decreases self.lines.len() - self.next,
        {
            let i = self.next;
            let ghost before = self.remaining();
            assert(before.drop_first() =~= lines.skip(i + 1 - old(self).next));
            self.next += 1;
            assert(self.remaining() =~= before.drop_first());
            let outcome = self.parser.parse_line(self.lines[i].as_str());
            if outcome.is_some() {
                proof {
                    lemma_skipped_in_range(lines);
                    lemma_entries_after_skipped(lines);
                }
                return outcome;
            }
        }
        proof {
            lemma_skipped_in_range(lines);
            lemma_entries_after_skipped(lines);
        }
        None
    }
}

/// The parser passes over at most all lines.
pub proof fn lemma_skipped_in_range(lines: Seq<Seq<char>>)
    ensures
        skipped(lines) <= lines.len(),
        skipped(lines) < lines.len() ==> line_outcome(lines[skipped(lines) as int]) is Some,
        forall|j: int| 0 <= j < skipped(lines) ==> line_outcome(#[trigger] lines[j]) is None,
    decreases lines.len(),
{
    if lines.len() > 0 && line_outcome(lines.first()) is None {
        let rest = lines.drop_first();
        lemma_skipped_in_range(rest);
        assert forall|j: int| 0 <= j < skipped(lines) implies line_outcome(#[trigger] lines[j])
            is None by {
            if j > 0 {
                assert(lines[j] == rest[j - 1]);
            }
        }
    }
}

/// The results over `lines` begin with the result of the first line that is
/// not passed over, and go on with the results over the lines after it.
pub proof fn lemma_entries_after_skipped(lines: Seq<Seq<char>>)
    ensures
        skipped(lines) == lines.len() ==> entries(lines).len() == 0,
        skipped(lines) < lines.len() ==> {
            let k = skipped(lines) as int;
            &&& line_outcome(lines[k]) is Some
            &&& entries(lines) == seq![line_outcome(lines[k])->0] + entries(lines.skip(k + 1))
            &&& entries(lines).len() > 0
            &&& entries(lines).first() == line_outcome(lines[k])->0
            &&& entries(lines).drop_first() == entries(lines.skip(k + 1))
        },
    decreases lines.len(),
{
    lemma_skipped_in_range(lines);
    if lines.len() > 0 && line_outcome(lines.first()) is None {
        let rest = lines.drop_first();
        lemma_entries_after_skipped(rest);
        if skipped(rest) < rest.len() {
            let k = skipped(lines) as int;
            assert(lines.skip(k + 1) =~= rest.skip(k));
        }
    }
}

/// The results over two runs of lines, one after the other, are the results
/// over the first followed by the results over the second.
pub proof fn lemma_entries_concat(first: Seq<Seq<char>>, second: Seq<Seq<char>>)
    ensures
        entries(first + second) == entries(first) + entries(second),
    decreases first.len(),
{
    if first.len() > 0 {
        let rest = first.drop_first();
        lemma_entries_concat(rest, second);
        assert((first + second).drop_first() =~= rest + second);
        if let Some(result) = line_outcome(first.first()) {
            assert(seq![result] + (entries(rest) + entries(second)) =~= (seq![result]
                + entries(rest)) + entries(second));
        }
    }
}

/// Lines that are all passed over yield nothing.
pub proof fn lemma_entries_of_passed_over(lines: Seq<Seq<char>>)
    requires
        forall|i: int| 0 <= i < lines.len() ==> line_outcome(#[trigger] lines[i]) is None,
    ensures
        entries(lines) == Seq::<Yield>::empty(),
    decreases lines.len(),
{
    if lines.len() > 0 {
        lemma_entries_of_passed_over(lines.drop_first());
    }
}

/// Passing over is without effect: lines that hold no entry, put in at any
/// place of a log, leave the results of the parser as they were.
pub proof fn lemma_passed_over_lines_change_nothing(
    before: Seq<Seq<char>>,
    inserted: Seq<Seq<char>>,
    after: Seq<Seq<char>>,
)
    requires
        forall|i: int| 0 <= i < inserted.len() ==> line_outcome(#[trigger] inserted[i]) is None,
    ensures
        entries(before + inserted + after) == entries(before + after),
{
    lemma_entries_of_passed_over(inserted);
    lemma_entries_concat(before, inserted);
    lemma_entries_concat(before + inserted, after);
    lemma_entries_concat(before, after);
}

} // verus!
