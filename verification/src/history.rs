//! What a scoreboard holds, said of the kills that were recorded on it.
//!
//! A scoreboard is filled one kill at a time. This module looks at the whole
//! run of kills instead: it counts, for a player, the kills of each kind in
//! the run, and shows that the numbers of the scoreboard are these counts.

use vstd::prelude::*;

use crate::cause::CauseOfDeath;
use crate::entry::KillView;
use crate::score::{count, lemma_total_of_nothing};
use crate::scoreboard::{lemma_record_keeps_consistent, ScoreboardView, WORLD};

verus! {

/// The scoreboard after the kills `kills` were recorded, in order, on a blank
/// scoreboard.
pub open spec fn replay(kills: Seq<KillView>) -> ScoreboardView
    decreases kills.len(),
{
    if kills.len() == 0 {
        ScoreboardView::empty()
    } else {
        replay(kills.drop_last()).record(kills.last())
    }
}

/// What a kill can be to a player.
pub enum Part {
    /// The player killed: another player or itself, not as the world.
    Kill,
    /// The player killed by this cause.
    KillWith(CauseOfDeath),
    /// The player killed another player.
    Point,
    /// The player killed itself.
    Suicide,
    /// The player died.
    Death,
    /// The player died of this cause.
    DeathBy(CauseOfDeath),
    /// The player was killed by the world.
    WorldDeath,
    /// The player was killed by the world or by itself.
    Penalty,
}

/// Whether the kill `kill` is `part` to the player `name`.
pub open spec fn is_part(kill: KillView, name: Seq<char>, part: Part) -> bool {
    let by_world = kill.player == WORLD@;
    let by_self = kill.killed == kill.player;
    match part {
        Part::Kill => kill.player == name && !by_world,
        Part::KillWith(cause) => kill.player == name && !by_world && kill.cause == cause,
        Part::Point => kill.player == name && !by_world && !by_self,
        Part::Suicide => kill.player == name && !by_world && by_self,
        Part::Death => kill.killed == name,
        Part::DeathBy(cause) => kill.killed == name && kill.cause == cause,
        Part::WorldDeath => kill.killed == name && by_world,
        Part::Penalty => kill.killed == name && (by_world || by_self),
    }
}

/// How many of the kills `kills` are `part` to the player `name`.
pub open spec fn parts(kills: Seq<KillView>, name: Seq<char>, part: Part) -> nat
    decreases kills.len(),
{
    if kills.len() == 0 {
        0
    } else {
        parts(kills.drop_last(), name, part) + if is_part(kills.last(), name, part) {
            1nat
        } else {
            0nat
        }
    }
}

/// The total of a scoreboard is the number of kills recorded on it, kills by
/// the world and suicides among them.
pub proof fn lemma_total_kills_counts_all(kills: Seq<KillView>)
    ensures
        replay(kills).total_kills == kills.len(),
    decreases kills.len(),
{
    if kills.len() > 0 {
        lemma_total_kills_counts_all(kills.drop_last());
    }
}

/// The totals of every player agree with the counts per cause, after every
/// kill: the kills per cause add up to the number of kills, and the deaths
/// per cause to the number of deaths.
pub proof fn lemma_replay_is_consistent(kills: Seq<KillView>)
    ensures
        replay(kills).consistent(),
    decreases kills.len(),
{
    if kills.len() == 0 {
        lemma_total_of_nothing();
    } else {
        lemma_replay_is_consistent(kills.drop_last());
        lemma_record_keeps_consistent(replay(kills.drop_last()), kills.last());
    }
}

/// How many of the kills `kills` are by `cause`.
pub open spec fn kills_with(kills: Seq<KillView>, cause: CauseOfDeath) -> nat
    decreases kills.len(),
{
    if kills.len() == 0 {
        0
    } else {
        kills_with(kills.drop_last(), cause) + if kills.last().cause == cause {
            1nat
        } else {
            0nat
        }
    }
}

/// The deaths of a match per cause are the kills that were recorded, each
/// under its cause.
pub proof fn lemma_replay_counts_deaths(kills: Seq<KillView>, cause: CauseOfDeath)
    ensures
        count(replay(kills).deaths, cause) == kills_with(kills, cause),
    decreases kills.len(),
{
    if kills.len() > 0 {
        lemma_replay_counts_deaths(kills.drop_last(), cause);
    }
}

/// What a kill adds to the statistics of a player: to each number, one where
/// the kill is the matching part to the player.
pub proof fn lemma_record_adds_parts(scoreboard: ScoreboardView, kill: KillView, name: Seq<char>)
    ensures
        ({
            let before = scoreboard.score_of(name);
            let after = scoreboard.record(kill).score_of(name);
            let one = |part: Part|
                if is_part(kill, name, part) {
                    1int
                } else {
                    0int
                };
            &&& after.n_kills == before.n_kills + one(Part::Kill)
            &&& after.n_suicides == before.n_suicides + one(Part::Suicide)
            &&& after.n_deaths == before.n_deaths + one(Part::Death)
            &&& after.score == before.score + one(Part::Point) - one(Part::Penalty)
            &&& forall|cause: CauseOfDeath|
                count(after.kills, cause) == #[trigger] count(before.kills, cause) + one(
                    Part::KillWith(cause),
                )
            &&& forall|cause: CauseOfDeath|
                count(after.deaths, cause) == #[trigger] count(before.deaths, cause) + one(
                    Part::DeathBy(cause),
                )
            &&& scoreboard.record(kill).players.dom().contains(name) <==> (
            scoreboard.players.dom().contains(name) || is_part(kill, name, Part::Kill) || is_part(
                kill,
                name,
                Part::Death,
            ))
        }),
{
}

/// The numbers that a scoreboard holds of a player are counts over the kills
/// that were recorded: the kills of the player, its suicides and its deaths,
/// in all and per cause. The score is the number of kills of other players
/// less the number of deaths at the hands of the world or of the player
/// itself. The scoreboard knows exactly the players that killed, not as the
/// world, or died.
pub proof fn lemma_replay_counts_parts(kills: Seq<KillView>, name: Seq<char>)
    ensures
        ({
            let scoreboard = replay(kills);
            let score = scoreboard.score_of(name);
            &&& score.n_kills == parts(kills, name, Part::Kill)
            &&& score.n_suicides == parts(kills, name, Part::Suicide)
            &&& score.n_deaths == parts(kills, name, Part::Death)
            &&& score.score == parts(kills, name, Part::Point) - parts(kills, name, Part::Penalty)
            &&& forall|cause: CauseOfDeath|
                #[trigger] count(score.kills, cause) == parts(kills, name, Part::KillWith(cause))
            &&& forall|cause: CauseOfDeath|
                #[trigger] count(score.deaths, cause) == parts(kills, name, Part::DeathBy(cause))
            &&& scoreboard.players.dom().contains(name) <==> parts(kills, name, Part::Kill) + parts(
                kills,
                name,
                Part::Death,
            ) > 0
        }),
    decreases kills.len(),
{
    if kills.len() > 0 {
        let earlier = kills.drop_last();
        lemma_replay_counts_parts(earlier, name);
        lemma_record_adds_parts(replay(earlier), kills.last(), name);
        let before = replay(earlier).score_of(name);
        let after = replay(kills).score_of(name);
        assert forall|cause: CauseOfDeath| #[trigger]
            count(after.kills, cause) == parts(kills, name, Part::KillWith(cause)) by {
            assert(count(before.kills, cause) == parts(earlier, name, Part::KillWith(cause)));
        }
        assert forall|cause: CauseOfDeath| #[trigger]
            count(after.deaths, cause) == parts(kills, name, Part::DeathBy(cause)) by {
            assert(count(before.deaths, cause) == parts(earlier, name, Part::DeathBy(cause)));
        }
    }
}

/// How the kinds of kills add up: a kill by a player is a kill of another
/// player or a suicide, and a death that costs a point is a suicide or a
/// death by the world.
pub proof fn lemma_parts_add_up(kills: Seq<KillView>, name: Seq<char>)
    ensures
        parts(kills, name, Part::Kill) == parts(kills, name, Part::Point) + parts(
            kills,
            name,
            Part::Suicide,
        ),
        parts(kills, name, Part::Penalty) == parts(kills, name, Part::Suicide) + parts(
            kills,
            name,
            Part::WorldDeath,
        ),
        parts(kills, name, Part::Penalty) <= parts(kills, name, Part::Death),
    decreases kills.len(),
{
    if kills.len() > 0 {
        lemma_parts_add_up(kills.drop_last(), name);
    }
}

/// The score of a player, from the kills that were recorded: with `k` kills
/// of other players, `s` suicides and `w` deaths by the world, the score is
/// `k - s - w`. Said with the deaths that cost a point, suicides and deaths
/// by the world taken together, it is `k` less their number.
pub proof fn lemma_score_identity(kills: Seq<KillView>, name: Seq<char>)
    ensures
        replay(kills).score_of(name).score == parts(kills, name, Part::Point) - parts(
            kills,
            name,
            Part::Suicide,
        ) - parts(kills, name, Part::WorldDeath),
        replay(kills).score_of(name).score == parts(kills, name, Part::Point) - parts(
            kills,
            name,
            Part::Penalty,
        ),
{
    lemma_replay_counts_parts(kills, name);
    lemma_parts_add_up(kills, name);
}

/// The score of a player that never killed itself: with `k` kills of other
/// players, `s` suicides, of which there are none, and `p` deaths that cost a
/// point, the score is `k - s - p`. Where a player did kill itself, each
/// suicide is among the deaths that cost a point and is taken off there, not
/// a second time.
pub proof fn lemma_score_without_suicides(kills: Seq<KillView>, name: Seq<char>)
    requires
        parts(kills, name, Part::Suicide) == 0,
    ensures
        replay(kills).score_of(name).score == parts(kills, name, Part::Point) - parts(
            kills,
            name,
            Part::Suicide,
        ) - parts(kills, name, Part::Penalty),
{
    lemma_score_identity(kills, name);
}

} // verus!
