//! The scoreboard of a single match.

use vstd::prelude::*;

use crate::cause::{lemma_index_round_trip, CauseOfDeath, CAUSE_COUNT};
use crate::entry::{KillEntry, KillView};
use crate::score::{
    bump, count, lemma_count_within_total, lemma_total_of_bump, lemma_total_of_nothing, lists,
    total, PlayerScore, PlayerScoreView, Tally,
};
use crate::text::str_eq;

verus! {

/// The killer's name on a kill by the environment. It stands for no player:
/// such a kill is counted for the victim alone.
pub const WORLD: &'static str = "<world>";

/// What a [`MatchScoreboard`] holds.
#[verifier::ext_equal]
pub struct ScoreboardView {
    /// The statistics of each player, by name.
    pub players: Map<Seq<char>, PlayerScoreView>,
    /// The number of kills of the match.
    pub total_kills: nat,
    /// The deaths of the match per cause, those of all players taken
    /// together.
    pub deaths: Tally,
}

impl ScoreboardView {
    /// The scoreboard of a match in which nothing has happened yet.
    pub open spec fn empty() -> ScoreboardView {
        ScoreboardView { players: Map::empty(), total_kills: 0, deaths: Map::empty() }
    }

    /// The statistics of the player `name`; those of a player of whom nothing
    /// was recorded, where the scoreboard does not know the name.
    pub open spec fn score_of(self, name: Seq<char>) -> PlayerScoreView {
        if self.players.dom().contains(name) {
            self.players[name]
        } else {
            PlayerScoreView::empty()
        }
    }

    /// The scoreboard after the kill `kill`.
    ///
    /// Unless the world did the killing, the kill is counted for the killer,
    /// as a suicide where killer and victim are one. The death is counted for
    /// the victim, and costs the victim a point where the world or the victim
    /// itself did the killing. Every kill counts towards the total of the
    /// match.
    pub open spec fn record(self, kill: KillView) -> ScoreboardView {
        let was_killed_by_world = kill.player == WORLD@;
        let killed_self = kill.killed == kill.player;
        let killed = if was_killed_by_world {
            self
        } else {
            ScoreboardView {
                players: self.players.insert(
                    kill.player,
                    self.score_of(kill.player).with_kill(kill.cause, killed_self),
                ),
                ..self
            }
        };
        ScoreboardView {
            players: killed.players.insert(
                kill.killed,
                killed.score_of(kill.killed).with_death(
                    kill.cause,
                    was_killed_by_world || killed_self,
                ),
            ),
            total_kills: self.total_kills + 1,
            deaths: bump(self.deaths, kill.cause),
        }
    }

    /// The statistics of every player are consistent, no number in them is
    /// beyond the number of kills of the match, and the deaths of the match
    /// add up to that number.
    pub open spec fn consistent(self) -> bool {
        &&& forall|name: Seq<char>| #[trigger]
            self.players.dom().contains(name) ==> self.players[name].consistent()
                && self.players[name].within(self.total_kills)
        &&& total(self.deaths) == self.total_kills
        &&& forall|cause: CauseOfDeath| self.deaths.dom().contains(cause) ==> self.deaths[cause] > 0
    }
}

/// Recording a kill keeps a scoreboard consistent.
pub proof fn lemma_record_keeps_consistent(scoreboard: ScoreboardView, kill: KillView)
    requires
        scoreboard.consistent(),
    ensures
        scoreboard.record(kill).consistent(),
{
    let by_world = kill.player == WORLD@;
    let by_self = kill.killed == kill.player;
    let limit = scoreboard.total_kills;
    lemma_total_of_nothing();
    let killer = scoreboard.score_of(kill.player);
    lemma_total_of_bump(killer.kills, kill.cause);
    let killed = if by_world {
        scoreboard
    } else {
        ScoreboardView {
            players: scoreboard.players.insert(
                kill.player,
                killer.with_kill(kill.cause, by_self),
            ),
            ..scoreboard
        }
    };
    let victim = killed.score_of(kill.killed);
    assert(victim.n_deaths <= limit && victim.n_kills <= limit + 1 && -limit <= victim.score
        <= limit + 1 && victim.n_suicides <= victim.n_kills);
    lemma_total_of_bump(victim.deaths, kill.cause);
    lemma_total_of_bump(scoreboard.deaths, kill.cause);
}

/// The names of the players of a scoreboard, in the order in which the
/// scoreboard holds them.
spec fn names_of(players: Seq<(String, PlayerScore)>) -> Seq<Seq<char>> {
    Seq::new(players.len(), |i: int| players[i].0@)
}

/// The map from names to statistics that a row of players stands for.
spec fn players_map(players: Seq<(String, PlayerScore)>) -> Map<
    Seq<char>,
    PlayerScoreView,
> {
    Map::new(
        |name: Seq<char>| names_of(players).contains(name),
        |name: Seq<char>| players[names_of(players).index_of(name)].1@,
    )
}

/// How often the players of a row have died of `cause`, all together.
spec fn deaths_in(players: Seq<(String, PlayerScore)>, cause: CauseOfDeath) -> nat
    decreases players.len(),
{
    if players.len() == 0 {
        0
    } else {
        deaths_in(players.drop_last(), cause) + count(players.last().1@.deaths, cause)
    }
}

/// The deaths of a row of players per cause.
spec fn deaths_of(players: Seq<(String, PlayerScore)>) -> Tally {
    Map::new(
        |cause: CauseOfDeath| deaths_in(players, cause) > 0,
        |cause: CauseOfDeath| deaths_in(players, cause),
    )
}

/// Whether `list` lists the players of `scoreboard`: each player once, under
/// its name and with its statistics, and nobody else. The order is left open.
pub open spec fn lists_players<'a>(
    list: Seq<(&'a str, &'a PlayerScore)>,
    scoreboard: ScoreboardView,
) -> bool {
    &&& scoreboard.players.dom().finite()
    &&& list.len() == scoreboard.players.dom().len()
    &&& forall|k: int|
        0 <= k < list.len() ==> {
            &&& scoreboard.players.contains_pair((#[trigger] list[k]).0@, list[k].1@)
            &&& list[k].1.wf()
        }
    &&& forall|j: int, k: int|
        0 <= j < list.len() && 0 <= k < list.len() && j != k ==> (#[trigger] list[j]).0@ != (
        #[trigger] list[k]).0@
    &&& forall|name: Seq<char>|
        scoreboard.players.dom().contains(name) ==> exists|k: int|
            0 <= k < list.len() && (#[trigger] list[k]).0@ == name
}

/// How often the players of `list` have died of `cause`, all together.
pub open spec fn deaths_among<'a>(
    list: Seq<(&'a str, &'a PlayerScore)>,
    cause: CauseOfDeath,
) -> nat
    decreases list.len(),
{
    if list.len() == 0 {
        0
    } else {
        deaths_among(list.drop_last(), cause) + count(list.last().1@.deaths, cause)
    }
}

/// Scoreboard for a single match.
#[derive(Debug)]
pub struct MatchScoreboard {
    players: Vec<(String, PlayerScore)>,
    total_kills: usize,
}

impl View for MatchScoreboard {
    type V = ScoreboardView;

    closed spec fn view(&self) -> ScoreboardView {
        ScoreboardView {
            players: players_map(self.players@),
            total_kills: self.total_kills as nat,
            deaths: deaths_of(self.players@),
        }
    }
}

impl Default for MatchScoreboard {
    /// A blank scoreboard.
    fn default() -> (scoreboard: MatchScoreboard)
        ensures
            scoreboard.wf(),
            scoreboard@ == ScoreboardView::empty(),
    {
        MatchScoreboard::new()
    }
}

impl MatchScoreboard {
    /// No two players of the row share a name, and each holds one counter
    /// per cause.
    spec fn row_wf(&self) -> bool {
        &&& names_of(self.players@).no_duplicates()
        &&& forall|i: int| 0 <= i < self.players.len() ==> (#[trigger] self.players[i]).1.wf()
    }

    /// No two players share a name, and the statistics are consistent.
    pub closed spec fn wf(&self) -> bool {
        &&& self.row_wf()
        &&& self@.consistent()
    }

    /// The statistics of a well-formed scoreboard are consistent.
    pub proof fn lemma_consistent(self)
        requires
            self.wf(),
        ensures
            self@.consistent(),
    {
    }

    /// Create a blank scoreboard.
    pub fn new() -> (scoreboard: MatchScoreboard)
        ensures
            scoreboard.wf(),
            scoreboard@ == ScoreboardView::empty(),
            scoreboard@.consistent(),
    {
        let scoreboard = MatchScoreboard { players: Vec::new(), total_kills: 0 };
        proof {
            assert(scoreboard@.deaths =~= Map::empty());
            lemma_total_of_nothing();
        }
        scoreboard
    }

    /// The total number of kills this match, including suicides and `<world>`
    /// kills.
    pub fn total_kills(&self) -> (n: usize)
        ensures
            n == self@.total_kills,
    {
        self.total_kills
    }

    /// All players and their individual scores: each player of the scoreboard
    /// once, in no particular order. The deaths of the match are the deaths of
    /// these players, added up.
    pub fn player_scores(&self) -> (list: Vec<(&str, &PlayerScore)>)
        requires
            self.wf(),
        ensures
            lists_players(list@, self@),
            forall|cause: CauseOfDeath| #[trigger]
                deaths_among(list@, cause) == count(self@.deaths, cause),
    {
        let mut list: Vec<(&str, &PlayerScore)> = Vec::new();
        let mut i: usize = 0;
        while i < self.players.len()
            invariant
                i <= self.players.len(),
                list.len() == i,
                forall|k: int|
                    0 <= k < i ==> {
                        &&& (#[trigger] list[k]).0@ == self.players[k].0@
                        &&& list[k].1 == self.players[k].1
                    },
            decreases self.players.len() - i,
        {
            list.push((self.players[i].0.as_str(), &self.players[i].1));
            i += 1;
        }
        proof {
            let names = names_of(self.players@);
            names.unique_seq_to_set();
            vstd::seq_lib::seq_to_set_is_finite(names);
            assert forall|k: int| 0 <= k < list.len() implies {
                &&& self@.players.contains_pair((#[trigger] list[k]).0@, list[k].1@)
                &&& list[k].1.wf()
            } by {
                lemma_slot(self.players@, k);
            }
            assert forall|name: Seq<char>| self@.players.dom().contains(name) implies exists|k: int|
                0 <= k < list.len() && (#[trigger] list[k]).0@ == name by {
                let k = names.index_of(name);
                assert(list[k].0@ == name);
            }
            assert forall|j: int, k: int|
                0 <= j < list.len() && 0 <= k < list.len() && j != k implies (#[trigger] list[j]).0@
                != (#[trigger] list[k]).0@ by {
                assert(names[j] != names[k]);
            }
            assert forall|cause: CauseOfDeath| #[trigger]
                deaths_among(list@, cause) == count(self@.deaths, cause) by {
                lemma_deaths_among(list@, self.players@, cause);
            }
        }
        list
    }

    /// The deaths of the match per cause, those of all players taken
    /// together, in the order of the vocabulary. Only the causes of which a
    /// player died are listed.
    pub fn deaths(&self) -> (list: Vec<(CauseOfDeath, usize)>)
        requires
            self.wf(),
        ensures
            lists(list@, self@.deaths),
    {
        let mut list: Vec<(CauseOfDeath, usize)> = Vec::new();
        let mut i: usize = 0;
        while i < CAUSE_COUNT
            invariant
                i <= CAUSE_COUNT,
                self.wf(),
                forall|k: int|
                    0 <= k < list.len() ==> {
                        &&& (#[trigger] list[k]).0.index() < i
                        &&& self@.deaths.contains_pair(list[k].0, list[k].1 as nat)
                    },
                forall|c: CauseOfDeath|
                    c.index() < i && self@.deaths.dom().contains(c) ==> exists|k: int|
                        0 <= k < list.len() && (#[trigger] list[k]).0 == c,
                forall|j: int, k: int|
                    0 <= j < k < list.len() ==> (#[trigger] list[j]).0.index() < (
                    #[trigger] list[k]).0.index(),
            decreases CAUSE_COUNT - i,
        {
            let cause = CauseOfDeath::from_ordinal(i);
            let n = self.deaths_by(cause);
            let ghost before = list@;
            if n > 0 {
                list.push((cause, n));
            }
            proof {
                assert forall|c: CauseOfDeath|
                    c.index() < i + 1 && self@.deaths.dom().contains(c) implies exists|k: int|
                    0 <= k < list.len() && (#[trigger] list[k]).0 == c by {
                    if c.index() < i {
                        let k = choose|k: int| 0 <= k < before.len() && (#[trigger] before[k]).0 == c;
                        assert(list[k].0 == c);
                    } else {
                        lemma_index_round_trip(c);
                        assert(list[before.len() as int].0 == c);
                    }
                }
            }
            i += 1;
        }
        proof {
            assert forall|c: CauseOfDeath| self@.deaths.dom().contains(c) implies exists|k: int|
                0 <= k < list.len() && (#[trigger] list[k]).0 == c by {
                lemma_index_round_trip(c);
            }
        }
        list
    }

    /// How often the players of the match have died of `cause`, all together.
    pub fn deaths_by(&self, cause: CauseOfDeath) -> (n: usize)
        requires
            self.wf(),
        ensures
            n == count(self@.deaths, cause),
    {
        let mut n: usize = 0;
        let mut i: usize = 0;
        proof {
            lemma_count_within_total(self@.deaths, cause);
        }
        while i < self.players.len()
            invariant
                i <= self.players.len(),
                self.row_wf(),
                n == deaths_in(self.players@.take(i as int), cause),
                deaths_in(self.players@, cause) <= usize::MAX,
            decreases self.players.len() - i,
        {
            proof {
                lemma_deaths_in_prefix(self.players@, i + 1, cause);
                assert(self.players@.take(i + 1).drop_last() =~= self.players@.take(i as int));
            }
            n += self.players[i].1.deaths_by(cause);
            i += 1;
        }
        assert(self.players@.take(i as int) =~= self.players@);
        n
    }

    /// Record a kill.
    ///
    /// The counters of a scoreboard are machine integers; a scoreboard takes
    /// kills as long as their number is below `isize::MAX`.
    pub fn record(&mut self, kill: KillEntry)
        requires
            old(self).wf(),
            old(self)@.total_kills < isize::MAX,
        ensures
            final(self).wf(),
            final(self)@ == old(self)@.record(kill@),
            final(self)@.consistent(),
    {
        let (player, killed, cause) = kill.into_parts();
        let was_killed_by_world = str_eq(player.as_str(), WORLD);
        let killed_self = killed == player;
        let ghost before = self@;
        if !was_killed_by_world {
            let i = self.slot(player);
            let ghost row = self.players@;
            self.players[i].1.record_kill(cause, killed_self);
            proof {
                lemma_players_map_update(row, self.players@, i as int);
                assert forall|c: CauseOfDeath| deaths_in(self.players@, c) == deaths_in(row, c) by {
                    lemma_deaths_in_update(row, self.players@, i as int, c);
                }
            }
        }
        let ghost killed_view = self@;
        proof {
            assert(killed_view.players == if was_killed_by_world {
                before.players
            } else {
                before.players.insert(
                    kill@.player,
                    before.score_of(kill@.player).with_kill(cause, killed_self),
                )
            });
        }
        let j = self.slot(killed);
        let ghost row = self.players@;
        self.players[j].1.record_death(cause, was_killed_by_world || killed_self);
        self.total_kills += 1;
        proof {
            lemma_players_map_update(row, self.players@, j as int);
            assert forall|c: CauseOfDeath|
                deaths_in(self.players@, c) == deaths_in(row, c) + if c == cause {
                    1nat
                } else {
                    0nat
                } by {
                lemma_deaths_in_update(row, self.players@, j as int, c);
            }
            assert(deaths_of(self.players@) =~= bump(deaths_of(row), cause));
            assert(self@ =~= before.record(kill@));
            lemma_record_keeps_consistent(before, kill@);
        }
    }

    /// The place of the player `name` in the row of players. A player that
    /// the scoreboard does not know yet is put at the end of the row, with
    /// nothing recorded.
    fn slot(&mut self, name: String) -> (i: usize)
        requires
            old(self).row_wf(),
        ensures
            final(self).row_wf(),
            i < final(self).players.len(),
            final(self).players[i as int].0@ == name@,
            final(self).players[i as int].1@ == old(self)@.score_of(name@),
            final(self)@.total_kills == old(self)@.total_kills,
            final(self)@.deaths == old(self)@.deaths,
            final(self)@.players == old(self)@.players.insert(name@, old(self)@.score_of(name@)),
    {
        let mut i: usize = 0;
        while i < self.players.len()
            invariant
                i <= self.players.len(),
                *self == *old(self),
                self.row_wf(),
                forall|k: int| 0 <= k < i ==> self.players[k].0@ != name@,
            decreases self.players.len() - i,
        {
            if self.players[i].0 == name {
                proof {
                    lemma_slot(self.players@, i as int);
                }
                return i;
            }
            i += 1;
        }
        let ghost row = self.players@;
        self.players.push((name, PlayerScore::default()));
        proof {
            assert(!names_of(row).contains(name@));
            lemma_players_map_push(row, self.players@);
            assert(self.players@.drop_last() =~= row);
        }
        i
    }
}

/// In a row without repeated names, a name leads to the player that bears it.
proof fn lemma_slot(players: Seq<(String, PlayerScore)>, i: int)
    requires
        names_of(players).no_duplicates(),
        0 <= i < players.len(),
    ensures
        names_of(players).contains(players[i].0@),
        names_of(players).index_of(players[i].0@) == i,
        players_map(players).contains_pair(players[i].0@, players[i].1@),
{
    let names = names_of(players);
    assert(names[i] == players[i].0@);
}

/// Changing the statistics of one player of a row changes the map at that
/// player's name and nowhere else.
proof fn lemma_players_map_update(
    before: Seq<(String, PlayerScore)>,
    after: Seq<(String, PlayerScore)>,
    i: int,
)
    requires
        names_of(before).no_duplicates(),
        0 <= i < before.len(),
        after.len() == before.len(),
        after[i].0@ == before[i].0@,
        forall|k: int| 0 <= k < before.len() && k != i ==> after[k] == before[k],
    ensures
        names_of(after) == names_of(before),
        players_map(after) == players_map(before).insert(before[i].0@, after[i].1@),
{
    assert(names_of(after) =~= names_of(before));
    let names = names_of(before);
    assert forall|name: Seq<char>| names.contains(name) implies #[trigger] players_map(after)[name]
        == players_map(before).insert(before[i].0@, after[i].1@)[name] by {
        if name == before[i].0@ {
            assert(names[i] == name);
        }
    }
    assert(names[i] == before[i].0@);
}

/// Putting a new player at the end of a row adds that player to the map and
/// changes nothing else.
proof fn lemma_players_map_push(
    before: Seq<(String, PlayerScore)>,
    after: Seq<(String, PlayerScore)>,
)
    requires
        names_of(before).no_duplicates(),
        after.len() == before.len() + 1,
        forall|k: int| 0 <= k < before.len() ==> after[k] == before[k],
        !names_of(before).contains(after.last().0@),
    ensures
        names_of(after).no_duplicates(),
        players_map(after) == players_map(before).insert(after.last().0@, after.last().1@),
{
    let old_names = names_of(before);
    let names = names_of(after);
    let n = before.len() as int;
    assert forall|j: int, k: int| 0 <= j < names.len() && 0 <= k < names.len() && j != k implies names[j]
        != names[k] by {
        if j < n && k < n {
            assert(old_names[j] != old_names[k]);
        } else if j < n {
            assert(old_names[j] == names[j]);
        } else {
            assert(old_names[k] == names[k]);
        }
    }
    let target = players_map(before).insert(after.last().0@, after.last().1@);
    assert forall|name: Seq<char>| names.contains(name) <==> target.dom().contains(name) by {
        if names.contains(name) {
            let k = names.index_of(name);
            if k < n {
                assert(old_names[k] == name);
            }
        }
        if old_names.contains(name) {
            let k = old_names.index_of(name);
            assert(names[k] == name);
        }
        if name == after.last().0@ {
            assert(names[n] == name);
        }
    }
    assert forall|name: Seq<char>| names.contains(name) implies #[trigger] players_map(after)[name]
        == target[name] by {
        let k = names.index_of(name);
        if k < n {
            assert(old_names[k] == name);
        }
    }
}

/// Changing the statistics of one player of a row changes the deaths of the
/// row by what the deaths of that player change.
proof fn lemma_deaths_in_update(
    before: Seq<(String, PlayerScore)>,
    after: Seq<(String, PlayerScore)>,
    i: int,
    cause: CauseOfDeath,
)
    requires
        0 <= i < before.len(),
        after.len() == before.len(),
        forall|k: int| 0 <= k < before.len() && k != i ==> after[k] == before[k],
    ensures
        deaths_in(after, cause) + count(before[i].1@.deaths, cause) == deaths_in(before, cause)
            + count(after[i].1@.deaths, cause),
    decreases before.len(),
{
    let n = before.len() - 1;
    if i == n {
        assert(after.drop_last() =~= before.drop_last());
    } else {
        lemma_deaths_in_update(before.drop_last(), after.drop_last(), i, cause);
    }
}

/// A list of the players of a row, in the order of the row, holds the deaths
/// of the row.
proof fn lemma_deaths_among<'a>(
    list: Seq<(&'a str, &'a PlayerScore)>,
    players: Seq<(String, PlayerScore)>,
    cause: CauseOfDeath,
)
    requires
        list.len() == players.len(),
        forall|k: int| 0 <= k < list.len() ==> (#[trigger] list[k]).1 == players[k].1,
    ensures
        deaths_among(list, cause) == deaths_in(players, cause),
    decreases list.len(),
{
    if list.len() > 0 {
        lemma_deaths_among(list.drop_last(), players.drop_last(), cause);
    }
}

/// The first players of a row have died no more often than all of them.
proof fn lemma_deaths_in_prefix(players: Seq<(String, PlayerScore)>, n: int, cause: CauseOfDeath)
    requires
        0 <= n <= players.len(),
    ensures
        deaths_in(players.take(n), cause) <= deaths_in(players, cause),
    decreases players.len(),
{
    if n < players.len() {
        lemma_deaths_in_prefix(players.drop_last(), n, cause);
        assert(players.drop_last().take(n) =~= players.take(n));
    } else {
        assert(players.take(n) =~= players);
    }
}

} // verus!
