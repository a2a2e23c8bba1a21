//! Following a session log from match to match.
//!
//! A run over a log holds at most one scoreboard: none before the first
//! match, and from then on the scoreboard of the match that is being played.
//! Each start of a match puts a blank scoreboard in the place of the one
//! before it; each kill is recorded on the scoreboard in place. The first
//! error ends the run.

use vstd::prelude::*;

use crate::entry::{yield_view, Error, ErrorView, KillView, LogEntry, LogEntryView, Yield};
use crate::history::{lemma_replay_is_consistent, lemma_total_kills_counts_all, replay};
use crate::scoreboard::{MatchScoreboard, ScoreboardView};

verus! {

/// What a run holds between two entries: the scoreboard of the match that is
/// being played, if one has started.
pub type State = Option<ScoreboardView>;

/// What a run holds after it took in `entry`, or the error that ends the run:
/// the error that the parser yielded, or [`ErrorView::NoMatch`] for a kill
/// that comes before the first match.
pub open spec fn step(state: State, entry: Yield) -> Result<State, ErrorView> {
    match entry {
        Ok(LogEntryView::InitGame) => Ok(Some(ScoreboardView::empty())),
        Ok(LogEntryView::Kill(kill)) => match state {
            Some(scoreboard) => Ok(Some(scoreboard.record(kill))),
            None => Err(ErrorView::NoMatch),
        },
        Err(error) => Err(error),
    }
}

/// What a run holds after the entries `entries`, taken in order from the
/// beginning of a log, or the error that ended it.
pub open spec fn run(entries: Seq<Yield>) -> Result<State, ErrorView>
    decreases entries.len(),
{
    if entries.len() == 0 {
        Ok(None)
    } else {
        match run(entries.drop_last()) {
            Ok(state) => step(state, entries.last()),
            Err(error) => Err(error),
        }
    }
}

/// Whether a match starts among `entries`.
pub open spec fn has_started(entries: Seq<Yield>) -> bool {
    exists|i: int| 0 <= i < entries.len() && #[trigger] entries[i] == Ok::<_, ErrorView>(LogEntryView::InitGame)
}

/// The error, if any, that entry `i` of `entries` raises in a run that has
/// come as far: the error that the parser yielded there, or
/// [`ErrorView::NoMatch`] for a kill with no start of a match before it.
pub open spec fn failure_at(entries: Seq<Yield>, i: int) -> Option<ErrorView> {
    match entries[i] {
        Err(error) => Some(error),
        Ok(LogEntryView::Kill(_)) => if has_started(entries.take(i)) {
            None
        } else {
            Some(ErrorView::NoMatch)
        },
        Ok(LogEntryView::InitGame) => None,
    }
}

/// Whether entry `i` of `entries` raises an error and no entry before it
/// does.
pub open spec fn is_first_failure(entries: Seq<Yield>, i: int) -> bool {
    &&& 0 <= i < entries.len()
    &&& failure_at(entries, i) is Some
    &&& forall|j: int| 0 <= j < i ==> (#[trigger] failure_at(entries, j)) is None
}

/// The kills among `entries` that come after the last start of a match; all
/// kills, where no match starts.
pub open spec fn kills_since_start(entries: Seq<Yield>) -> Seq<KillView>
    decreases entries.len(),
{
    if entries.len() == 0 {
        Seq::empty()
    } else {
        match entries.last() {
            Ok(LogEntryView::InitGame) => Seq::empty(),
            Ok(LogEntryView::Kill(kill)) => kills_since_start(entries.drop_last()).push(kill),
            Err(_) => kills_since_start(entries.drop_last()),
        }
    }
}

/// What the state of a run says.
pub open spec fn state_view(scoreboard: Option<MatchScoreboard>) -> State {
    match scoreboard {
        Some(scoreboard) => Some(scoreboard@),
        None => None,
    }
}

/// Whether the scoreboard of a run, if it holds one, is well-formed.
pub open spec fn state_wf(scoreboard: Option<MatchScoreboard>) -> bool {
    scoreboard matches Some(scoreboard) ==> scoreboard.wf()
}

/// What has happened once an entry was taken in.
#[derive(Debug)]
pub enum Progress {
    /// A match has started. The scoreboard of the match before it, if there
    /// was one, is handed over: that match is over.
    MatchStarted(Option<MatchScoreboard>),
    /// A kill was recorded on the scoreboard of the running match.
    KillRecorded,
}

/// Takes the next result of the parser into a run.
///
/// The start of a match puts a blank scoreboard in place and hands the one
/// before it over. A kill is recorded on the scoreboard in place; where there
/// is none, because no match has started, the run ends with
/// [`Error::NoMatch`]. An error of the parser ends the run as it is. Where
/// the run ends, the scoreboard is left as it was.
pub fn process_entry(
    scoreboard: &mut Option<MatchScoreboard>,
    entry: Result<LogEntry, Error>,
) -> (progress: Result<Progress, Error>)
    requires
        state_wf(*old(scoreboard)),
        entry matches Ok(LogEntry::Kill(_)) ==> (*old(scoreboard) matches Some(current)
            ==> current@.total_kills < isize::MAX),
    ensures
        state_wf(*final(scoreboard)),
        match step(state_view(*old(scoreboard)), yield_view(entry)) {
            Ok(state) => progress is Ok && state_view(*final(scoreboard)) == state,
            Err(error) => progress matches Err(e) && e@ == error && *final(scoreboard) == *old(
                scoreboard,
            ),
        },
        progress matches Ok(Progress::MatchStarted(finished)) ==> entry matches Ok(
            LogEntry::InitGame,
        ) && finished == *old(scoreboard),
        progress matches Ok(Progress::KillRecorded) ==> entry matches Ok(LogEntry::Kill(_)),
{
    match entry {
        Ok(LogEntry::InitGame) => {
            let finished = scoreboard.take();
            *scoreboard = Some(MatchScoreboard::new());
            Ok(Progress::MatchStarted(finished))
        },
        Ok(LogEntry::Kill(kill)) => match scoreboard {
            Some(current) => {
                current.record(kill);
                Ok(Progress::KillRecorded)
            },
            None => Err(Error::NoMatch),
        },
        Err(error) => Err(error),
    }
}

/// A run ends at the first entry that raises an error, with that error: an
/// error of the parser, or a kill that comes before the first start of a
/// match. A run without such an entry holds a scoreboard exactly if a match
/// has started.
pub proof fn lemma_run_ends_at_first_failure(entries: Seq<Yield>)
    ensures
        run(entries) matches Err(error) ==> exists|i: int| #[trigger]
            is_first_failure(entries, i) && failure_at(entries, i) == Some(error),
        run(entries) matches Ok(state) ==> {
            &&& forall|i: int| 0 <= i < entries.len() ==> (#[trigger] failure_at(entries, i)) is None
            &&& state is Some <==> has_started(entries)
        },
    decreases entries.len(),
{
    if entries.len() > 0 {
        let earlier = entries.drop_last();
        let n = earlier.len() as int;
        lemma_run_ends_at_first_failure(earlier);
        assert(entries.take(n) =~= earlier);
        assert forall|i: int| 0 <= i < n implies #[trigger] failure_at(entries, i) == failure_at(
            earlier,
            i,
        ) by {
            assert(entries.take(i) =~= earlier.take(i));
        }
        match run(earlier) {
            Err(error) => {
                let i = choose|i: int| #[trigger]
                    is_first_failure(earlier, i) && failure_at(earlier, i) == Some(error);
                assert(is_first_failure(entries, i));
            },
            Ok(state) => {
                if run(entries) is Err {
                    assert(is_first_failure(entries, n));
                }
                if has_started(earlier) {
                    let i = choose|i: int|
                        0 <= i < earlier.len() && #[trigger] earlier[i] == Ok::<_, ErrorView>(
                            LogEntryView::InitGame,
                        );
                    assert(entries[i] == earlier[i]);
                }
                if has_started(entries) && !has_started(earlier) {
                    let i = choose|i: int|
                        0 <= i < entries.len() && #[trigger] entries[i] == Ok::<_, ErrorView>(
                            LogEntryView::InitGame,
                        );
                    if i < n {
                        assert(earlier[i] == entries[i]);
                    }
                }
                if entries.last() == Ok::<_, ErrorView>(LogEntryView::InitGame) {
                    assert(entries[n] == entries.last());
                }
            },
        }
    }
}

/// The scoreboard of a run is the scoreboard of the kills since the last
/// start of a match, and its total is their number: every kill since then
/// counts, kills by the world and suicides too, and no kill from before.
pub proof fn lemma_run_counts_kills_since_start(entries: Seq<Yield>)
    ensures
        run(entries) matches Ok(Some(scoreboard)) ==> {
            &&& scoreboard == replay(kills_since_start(entries))
            &&& scoreboard.total_kills == kills_since_start(entries).len()
            &&& scoreboard.consistent()
        },
    decreases entries.len(),
{
    if entries.len() > 0 {
        lemma_run_counts_kills_since_start(entries.drop_last());
        let kills = kills_since_start(entries);
        lemma_total_kills_counts_all(kills);
        lemma_replay_is_consistent(kills);
        if entries.last() matches Ok(LogEntryView::Kill(kill)) {
            assert(kills.drop_last() =~= kills_since_start(entries.drop_last()));
        }
    }
}

} // verus!
