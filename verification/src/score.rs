//! The statistics of a single player.

use vstd::prelude::*;

use crate::cause::{lemma_at_round_trip, lemma_index_round_trip, CauseOfDeath, CAUSE_COUNT};

verus! {

/// A count per cause of death. Only the causes that were counted at least
/// once are in the map.
pub type Tally = Map<CauseOfDeath, nat>;

/// How often `cause` was counted in `tally`.
pub open spec fn count(tally: Tally, cause: CauseOfDeath) -> nat {
    if tally.dom().contains(cause) {
        tally[cause]
    } else {
        0
    }
}

/// `tally` with `cause` counted once more.
pub open spec fn bump(tally: Tally, cause: CauseOfDeath) -> Tally {
    tally.insert(cause, count(tally, cause) + 1)
}

/// The counts of the first `n` causes of the vocabulary, added up.
pub open spec fn total_upto(tally: Tally, n: int) -> nat
    decreases n,
{
    if n <= 0 {
        0
    } else {
        total_upto(tally, n - 1) + count(tally, CauseOfDeath::at(n - 1))
    }
}

/// All counts of `tally`, added up.
pub open spec fn total(tally: Tally) -> nat {
    total_upto(tally, CAUSE_COUNT as int)
}

/// What a [`PlayerScore`] holds.
#[verifier::ext_equal]
pub struct PlayerScoreView {
    /// The kills of the player, per cause; suicides are among them.
    pub kills: Tally,
    /// The deaths of the player, per cause; suicides are among them.
    pub deaths: Tally,
    /// The number of kills.
    pub n_kills: nat,
    /// The number of deaths.
    pub n_deaths: nat,
    /// The number of times the player killed itself.
    pub n_suicides: nat,
    /// The score.
    pub score: int,
}

impl PlayerScoreView {
    /// The statistics of a player of whom nothing was recorded.
    pub open spec fn empty() -> PlayerScoreView {
        PlayerScoreView {
            kills: Map::empty(),
            deaths: Map::empty(),
            n_kills: 0,
            n_deaths: 0,
            n_suicides: 0,
            score: 0,
        }
    }

    /// The statistics after a kill by this player. A kill of another player
    /// earns a point; a kill of oneself is counted as a suicide and earns
    /// none.
    pub open spec fn with_kill(self, cause: CauseOfDeath, killed_self: bool) -> PlayerScoreView {
        PlayerScoreView {
            kills: bump(self.kills, cause),
            n_kills: self.n_kills + 1,
            n_suicides: if killed_self {
                self.n_suicides + 1
            } else {
                self.n_suicides
            },
            score: if killed_self {
                self.score
            } else {
                self.score + 1
            },
            ..self
        }
    }

    /// The statistics after a death of this player. The death costs a point
    /// where `subtract_score` says so: where the world or the player itself
    /// did the killing.
    pub open spec fn with_death(self, cause: CauseOfDeath, subtract_score: bool) -> PlayerScoreView {
        PlayerScoreView {
            deaths: bump(self.deaths, cause),
            n_deaths: self.n_deaths + 1,
            score: if subtract_score {
                self.score - 1
            } else {
                self.score
            },
            ..self
        }
    }

    /// The totals agree with the counts per cause: the kills per cause add up
    /// to the number of kills, the deaths per cause to the number of deaths,
    /// and no cause is listed with a count of zero.
    pub open spec fn consistent(self) -> bool {
        &&& total(self.kills) == self.n_kills
        &&& total(self.deaths) == self.n_deaths
        &&& forall|c: CauseOfDeath| self.kills.dom().contains(c) ==> self.kills[c] > 0
        &&& forall|c: CauseOfDeath| self.deaths.dom().contains(c) ==> self.deaths[c] > 0
    }

    /// No number of these statistics is beyond `limit`: neither the kills,
    /// nor the deaths, nor the suicides, nor the score on either side of
    /// zero.
    pub open spec fn within(self, limit: nat) -> bool {
        &&& self.n_kills <= limit
        &&& self.n_deaths <= limit
        &&& self.n_suicides <= self.n_kills
        &&& -(limit as int) <= self.score <= limit as int
    }
}

/// The tally that a row of counters stands for, one counter per cause in the
/// order of the vocabulary.
spec fn tally_of(counters: Seq<usize>) -> Tally {
    Map::new(
        |c: CauseOfDeath| counters[c.index()] > 0,
        |c: CauseOfDeath| counters[c.index()] as nat,
    )
}

/// The score of a single player.
#[derive(Debug)]
pub struct PlayerScore {
    deaths: Vec<usize>,
    kills: Vec<usize>,
    n_kills: usize,
    n_deaths: usize,
    n_suicides: usize,
    score: isize,
}

impl View for PlayerScore {
    type V = PlayerScoreView;

    closed spec fn view(&self) -> PlayerScoreView {
        PlayerScoreView {
            kills: tally_of(self.kills@),
            deaths: tally_of(self.deaths@),
            n_kills: self.n_kills as nat,
            n_deaths: self.n_deaths as nat,
            n_suicides: self.n_suicides as nat,
            score: self.score as int,
        }
    }
}

impl Default for PlayerScore {
    /// The score of a player of whom nothing was recorded.
    fn default() -> (score: PlayerScore)
        ensures
            score.wf(),
            score@ == PlayerScoreView::empty(),
    {
        let score = PlayerScore {
            deaths: vec![0usize; CAUSE_COUNT],
            kills: vec![0usize; CAUSE_COUNT],
            n_kills: 0,
            n_deaths: 0,
            n_suicides: 0,
            score: 0,
        };
        proof {
            assert(tally_of(score.kills@) =~= Map::empty());
            assert(tally_of(score.deaths@) =~= Map::empty());
            lemma_total_of_nothing();
        }
        score
    }
}

impl PlayerScore {
    /// There is one counter per cause, and the statistics are consistent.
    pub closed spec fn wf(&self) -> bool {
        &&& self.kills.len() == CAUSE_COUNT
        &&& self.deaths.len() == CAUSE_COUNT
        &&& self@.consistent()
        &&& self.n_suicides <= self.n_kills
    }

    /// The statistics of a well-formed score are consistent.
    pub proof fn lemma_consistent(self)
        requires
            self.wf(),
        ensures
            self@.consistent(),
            self@.n_suicides <= self@.n_kills,
    {
    }

    /// The number of times this player has died, including suicides.
    pub fn n_deaths(&self) -> (n: usize)
        ensures
            n == self@.n_deaths,
    {
        self.n_deaths
    }

    /// The deaths of this player per cause, in the order of the vocabulary.
    /// Only the causes of which the player died are listed.
    pub fn deaths(&self) -> (list: Vec<(CauseOfDeath, usize)>)
        requires
            self.wf(),
        ensures
            lists(list@, self@.deaths),
    {
        tally_list(&self.deaths)
    }

    /// The number of times this player has died of `cause`.
    pub(crate) fn deaths_by(&self, cause: CauseOfDeath) -> (n: usize)
        requires
            self.wf(),
        ensures
            n == count(self@.deaths, cause),
    {
        self.deaths[cause.ordinal()]
    }

    /// The number of times this player has killed, including suicides.
    pub fn n_kills(&self) -> (n: usize)
        ensures
            n == self@.n_kills,
    {
        self.n_kills
    }

    /// The kills of this player per cause, in the order of the vocabulary.
    /// Only the causes by which the player killed are listed.
    pub fn kills(&self) -> (list: Vec<(CauseOfDeath, usize)>)
        requires
            self.wf(),
        ensures
            lists(list@, self@.kills),
    {
        tally_list(&self.kills)
    }

    /// The number of times this player has killed itself.
    pub fn n_suicides(&self) -> (n: usize)
        ensures
            n == self@.n_suicides,
    {
        self.n_suicides
    }

    /// This player's total score: one point for each kill of another player,
    /// one point off for each suicide and for each death by the world.
    pub fn score(&self) -> (score: isize)
        ensures
            score == self@.score,
    {
        self.score
    }

    /// Counts a death of this player.
    pub(crate) fn record_death(&mut self, cause: CauseOfDeath, subtract_score: bool)
        requires
            old(self).wf(),
            old(self)@.n_deaths < usize::MAX,
            subtract_score ==> old(self)@.score > isize::MIN,
        ensures
            final(self).wf(),
            final(self)@ == old(self)@.with_death(cause, subtract_score),
    {
        let i = cause.ordinal();
        proof {
            lemma_count_within_total(self@.deaths, cause);
            lemma_total_of_bump(self@.deaths, cause);
            lemma_index_round_trip(cause);
        }
        let n = self.deaths[i];
        self.deaths[i] = n + 1;
        self.n_deaths += 1;
        if subtract_score {
            self.score -= 1;
        }
        proof {
            assert(tally_of(self.deaths@) =~= bump(old(self)@.deaths, cause)) by {
                lemma_index_is_injective();
            }
            assert(self@ =~= old(self)@.with_death(cause, subtract_score));
        }
    }

    /// Counts a kill by this player.
    pub(crate) fn record_kill(&mut self, cause: CauseOfDeath, killed_self: bool)
        requires
            old(self).wf(),
            old(self)@.n_kills < usize::MAX,
            !killed_self ==> old(self)@.score < isize::MAX,
        ensures
            final(self).wf(),
            final(self)@ == old(self)@.with_kill(cause, killed_self),
    {
        let i = cause.ordinal();
        proof {
            lemma_count_within_total(self@.kills, cause);
            lemma_total_of_bump(self@.kills, cause);
            lemma_index_round_trip(cause);
        }
        let n = self.kills[i];
        self.kills[i] = n + 1;
        self.n_kills += 1;
        if killed_self {
            self.n_suicides += 1;
        } else {
            self.score += 1;
        }
        proof {
            assert(tally_of(self.kills@) =~= bump(old(self)@.kills, cause)) by {
                lemma_index_is_injective();
            }
            assert(self@ =~= old(self)@.with_kill(cause, killed_self));
        }
    }
}

/// Whether `list` lists `tally`: each cause of the tally once, with its
/// count, in the order of the vocabulary, and nothing else.
pub open spec fn lists(list: Seq<(CauseOfDeath, usize)>, tally: Tally) -> bool {
    &&& forall|k: int|
        0 <= k < list.len() ==> tally.contains_pair((#[trigger] list[k]).0, list[k].1 as nat)
    &&& forall|c: CauseOfDeath|
        tally.dom().contains(c) ==> exists|k: int| 0 <= k < list.len() && (#[trigger] list[k]).0 == c
    &&& forall|j: int, k: int|
        0 <= j < k < list.len() ==> (#[trigger] list[j]).0.index() < (#[trigger] list[k]).0.index()
}

/// Lists the counters that are not zero, each with its cause.
fn tally_list(counters: &Vec<usize>) -> (list: Vec<(CauseOfDeath, usize)>)
    requires
        counters.len() == CAUSE_COUNT,
    ensures
        lists(list@, tally_of(counters@)),
{
    let mut list: Vec<(CauseOfDeath, usize)> = Vec::new();
    let mut i: usize = 0;
    while i < CAUSE_COUNT
        invariant
            i <= CAUSE_COUNT,
            counters.len() == CAUSE_COUNT,
            forall|k: int|
                0 <= k < list.len() ==> {
                    &&& (#[trigger] list[k]).0.index() < i
                    &&& list[k].1 > 0
                    &&& list[k].1 == counters[list[k].0.index()]
                },
            forall|c: CauseOfDeath|
                c.index() < i && counters[c.index()] > 0 ==> exists|k: int|
                    0 <= k < list.len() && (#[trigger] list[k]).0 == c,
            forall|j: int, k: int|
                0 <= j < k < list.len() ==> (#[trigger] list[j]).0.index() < (
                #[trigger] list[k]).0.index(),
        decreases CAUSE_COUNT - i,
    {
        let n = counters[i];
        if n > 0 {
            let cause = CauseOfDeath::from_ordinal(i);
            let ghost before = list@;
            list.push((cause, n));
            proof {
                assert forall|c: CauseOfDeath|
                    c.index() < i + 1 && counters[c.index()] > 0 implies exists|k: int|
                    0 <= k < list.len() && (#[trigger] list[k]).0 == c by {
                    if c.index() < i {
                        let k = choose|k: int| 0 <= k < before.len() && (#[trigger] before[k]).0 == c;
                        assert(list[k].0 == c);
                    } else {
                        lemma_index_round_trip(c);
                        assert(list[before.len() as int].0 == c);
                    }
                }
            }
        } else {
            proof {
                assert forall|c: CauseOfDeath|
                    c.index() < i + 1 && counters[c.index()] > 0 implies exists|k: int|
                    0 <= k < list.len() && (#[trigger] list[k]).0 == c by {
                    assert(c.index() < i);
                }
            }
        }
        i += 1;
    }
    proof {
        assert forall|c: CauseOfDeath| tally_of(counters@).dom().contains(c) implies exists|k: int|
            0 <= k < list.len() && (#[trigger] list[k]).0 == c by {
            lemma_index_round_trip(c);
        }
    }
    list
}

/// Two causes at one position of the vocabulary are one cause.
proof fn lemma_index_is_injective()
    ensures
        forall|a: CauseOfDeath, b: CauseOfDeath| a.index() == b.index() ==> a == b,
{
    assert forall|a: CauseOfDeath, b: CauseOfDeath| a.index() == b.index() implies a == b by {
        lemma_index_round_trip(a);
        lemma_index_round_trip(b);
    }
}

/// An empty tally adds up to nothing.
pub proof fn lemma_total_of_nothing()
    ensures
        total(Map::empty()) == 0,
{
    lemma_total_upto_of_nothing(CAUSE_COUNT as int);
}

proof fn lemma_total_upto_of_nothing(n: int)
    ensures
        total_upto(Map::empty(), n) == 0,
    decreases n,
{
    if n > 0 {
        lemma_total_upto_of_nothing(n - 1);
    }
}

/// Counting a cause once more raises the total by one.
pub proof fn lemma_total_of_bump(tally: Tally, cause: CauseOfDeath)
    ensures
        total(bump(tally, cause)) == total(tally) + 1,
{
    lemma_index_round_trip(cause);
    lemma_total_upto_of_bump(tally, cause, CAUSE_COUNT as int);
}

proof fn lemma_total_upto_of_bump(tally: Tally, cause: CauseOfDeath, n: int)
    requires
        0 <= n <= CAUSE_COUNT,
    ensures
        total_upto(bump(tally, cause), n) == total_upto(tally, n) + if cause.index() < n {
            1nat
        } else {
            0nat
        },
    decreases n,
{
    if n > 0 {
        lemma_total_upto_of_bump(tally, cause, n - 1);
        lemma_at_round_trip(n - 1);
    }
}

/// No count is above the total.
pub proof fn lemma_count_within_total(tally: Tally, cause: CauseOfDeath)
    ensures
        count(tally, cause) <= total(tally),
{
    lemma_index_round_trip(cause);
    lemma_count_within_total_upto(tally, cause, CAUSE_COUNT as int);
}

proof fn lemma_count_within_total_upto(tally: Tally, cause: CauseOfDeath, n: int)
    requires
        0 <= n <= CAUSE_COUNT,
    ensures
        cause.index() < n ==> count(tally, cause) <= total_upto(tally, n),
    decreases n,
{
    if n > 0 {
        lemma_count_within_total_upto(tally, cause, n - 1);
        lemma_index_round_trip(cause);
    }
}

} // verus!
