//! What a report on a match is made of.

use vstd::prelude::*;

use crate::cause::CauseOfDeath;
use crate::score::{lists, PlayerScore, Tally};
use crate::scoreboard::{lists_players, MatchScoreboard};

verus! {

/// Whether the players of `list` stand from the highest score to the lowest.
pub open spec fn ranked<'a>(list: Seq<(&'a str, &'a PlayerScore)>) -> bool {
    forall|j: int, k: int|
        0 <= j < k < list.len() ==> (#[trigger] list[j]).1@.score >= (#[trigger] list[k]).1@.score
}

/// Whether the entry `first` of a list by count stands before the entry
/// `second`: the higher count first, and of two equal counts the one whose
/// cause comes first in the vocabulary.
pub open spec fn precedes(first: (CauseOfDeath, usize), second: (CauseOfDeath, usize)) -> bool {
    first.1 > second.1 || (first.1 == second.1 && first.0.index() < second.0.index())
}

/// Whether `list` lists `tally` by count: each cause of the tally once, with
/// its count, from the highest count to the lowest, and nothing else. Causes
/// with one count stand in the order of the vocabulary.
pub open spec fn lists_by_count(list: Seq<(CauseOfDeath, usize)>, tally: Tally) -> bool {
    &&& forall|k: int|
        0 <= k < list.len() ==> tally.contains_pair((#[trigger] list[k]).0, list[k].1 as nat)
    &&& forall|c: CauseOfDeath|
        tally.dom().contains(c) ==> exists|k: int| 0 <= k < list.len() && (#[trigger] list[k]).0 == c
    &&& forall|j: int, k: int|
        0 <= j < k < list.len() ==> precedes(#[trigger] list[j], #[trigger] list[k])
}

/// Puts a list of counts per cause, which stands in the order of the
/// vocabulary, in the order of the counts, the highest first.
fn by_count(list: Vec<(CauseOfDeath, usize)>, Ghost(tally): Ghost<Tally>) -> (sorted: Vec<
    (CauseOfDeath, usize),
>)
    requires
        lists(list@, tally),
    ensures
        lists_by_count(sorted@, tally),
{
    let ghost unsorted = list@;
    let mut list = list;
    let n = list.len();
    // Where each entry of the list stood before sorting, and back.
    let ghost mut origin: Seq<int> = Seq::new(n as nat, |k: int| k);
    let ghost mut place: Seq<int> = Seq::new(n as nat, |k: int| k);
    let mut i: usize = 1;
    while i < n
        invariant
            1 <= i,
            list.len() == n,
            unsorted.len() == n,
            origin.len() == n,
            place.len() == n,
            forall|k: int|
                0 <= k < n ==> {
                    &&& 0 <= #[trigger] origin[k] < n
                    &&& list[k] == unsorted[origin[k]]
                    &&& place[origin[k]] == k
                },
            forall|m: int| 0 <= m < n ==> 0 <= #[trigger] place[m] < n && origin[place[m]] == m,
            forall|j: int, k: int|
                0 <= j < k < i && k < n ==> precedes(#[trigger] list[j], #[trigger] list[k]),
            // What is not yet sorted stands as it stood, after all that is.
            forall|j: int, k: int|
                0 <= j < k < n && i <= k ==> (#[trigger] list[j]).0.index() < (#[trigger] list[k]).0.index(),
        decreases n - i,
    {
        let mut j: usize = i;
        while j > 0 && list[j - 1].1 < list[j].1
            invariant
                j <= i < n,
                list.len() == n,
                unsorted.len() == n,
                origin.len() == n,
                place.len() == n,
                forall|k: int|
                    0 <= k < n ==> {
                        &&& 0 <= #[trigger] origin[k] < n
                        &&& list[k] == unsorted[origin[k]]
                        &&& place[origin[k]] == k
                    },
                forall|m: int| 0 <= m < n ==> 0 <= #[trigger] place[m] < n && origin[place[m]] == m,
                forall|a: int, b: int|
                    0 <= a < b <= i && a != j && b != j ==> precedes(
                        #[trigger] list[a],
                        #[trigger] list[b],
                    ),
                forall|b: int| j < b <= i ==> list[j as int].1 > (#[trigger] list[b]).1,
                forall|a: int|
                    0 <= a <= i && a != j ==> (#[trigger] list[a]).0.index() < list[j as int].0.index(),
                forall|a: int, b: int|
                    0 <= a < b < n && i < b ==> (#[trigger] list[a]).0.index() < (
                    #[trigger] list[b]).0.index(),
            decreases j,
        {
            let left = list[j - 1];
            let right = list[j];
            list[j - 1] = right;
            list[j] = left;
            proof {
                let moved_left = origin[j as int];
                let moved_right = origin[j - 1];
                origin = origin.update(j - 1, moved_left).update(j as int, moved_right);
                place = place.update(moved_left, j - 1).update(moved_right, j as int);
            }
            j -= 1;
        }
        proof {
            assert forall|a: int, b: int| 0 <= a < b < i + 1 && b < n implies precedes(
                #[trigger] list[a],
                #[trigger] list[b],
            ) by {
                if b == j && j > 0 && a != j - 1 {
                    assert(precedes(list[a], list[j - 1]));
                }
            }
        }
        i += 1;
    }
    proof {
        assert forall|k: int| 0 <= k < list.len() implies tally.contains_pair(
            (#[trigger] list[k]).0,
            list[k].1 as nat,
        ) by {
            assert(list[k] == unsorted[origin[k]]);
        }
        assert forall|c: CauseOfDeath| tally.dom().contains(c) implies exists|k: int|
            0 <= k < list.len() && (#[trigger] list[k]).0 == c by {
            let m = choose|m: int| 0 <= m < unsorted.len() && (#[trigger] unsorted[m]).0 == c;
            assert(list[place[m]].0 == c);
        }
    }
    list
}

impl MatchScoreboard {
    /// The deaths of the match per cause, those of all players taken
    /// together, from the most frequent cause to the least.
    pub fn deaths_by_cause(&self) -> (list: Vec<(CauseOfDeath, usize)>)
        requires
            self.wf(),
        ensures
            lists_by_count(list@, self@.deaths),
    {
        by_count(self.deaths(), Ghost(self@.deaths))
    }

    /// The players and their scores, from the highest score to the lowest.
    /// Players with one score stand in no particular order.
    pub fn ranking(&self) -> (list: Vec<(&str, &PlayerScore)>)
        requires
            self.wf(),
        ensures
            lists_players(list@, self@),
            ranked(list@),
    {
        let mut list = self.player_scores();
        let n = list.len();
        let ghost unsorted = list@;
        // Where each player of the list stood before sorting, and back.
        let ghost mut origin: Seq<int> = Seq::new(n as nat, |k: int| k);
        let ghost mut place: Seq<int> = Seq::new(n as nat, |k: int| k);
        let mut i: usize = 1;
        while i < n
            invariant
                1 <= i,
                list.len() == n,
                unsorted.len() == n,
                origin.len() == n,
                place.len() == n,
                forall|k: int|
                    0 <= k < n ==> {
                        &&& 0 <= #[trigger] origin[k] < n
                        &&& list[k] == unsorted[origin[k]]
                        &&& place[origin[k]] == k
                    },
                forall|m: int| 0 <= m < n ==> 0 <= #[trigger] place[m] < n && origin[place[m]] == m,
                forall|j: int, k: int|
                    0 <= j < k < i && k < n ==> (#[trigger] list[j]).1@.score >= (
                    #[trigger] list[k]).1@.score,
            decreases n - i,
        {
            let mut j: usize = i;
            while j > 0 && list[j - 1].1.score() < list[j].1.score()
                invariant
                    j <= i < n,
                    list.len() == n,
                    unsorted.len() == n,
                    origin.len() == n,
                    place.len() == n,
                    forall|k: int|
                        0 <= k < n ==> {
                            &&& 0 <= #[trigger] origin[k] < n
                            &&& list[k] == unsorted[origin[k]]
                            &&& place[origin[k]] == k
                        },
                    forall|m: int|
                        0 <= m < n ==> 0 <= #[trigger] place[m] < n && origin[place[m]] == m,
                    forall|a: int, b: int|
                        0 <= a < b <= i && a != j && b != j ==> (#[trigger] list[a]).1@.score >= (
                        #[trigger] list[b]).1@.score,
                    forall|b: int|
                        j < b <= i ==> list[j as int].1@.score >= (#[trigger] list[b]).1@.score,
                decreases j,
            {
                let left = list[j - 1];
                let right = list[j];
                list[j - 1] = right;
                list[j] = left;
                proof {
                    let moved_left = origin[j as int];
                    let moved_right = origin[j - 1];
                    origin = origin.update(j - 1, moved_left).update(j as int, moved_right);
                    place = place.update(moved_left, j - 1).update(moved_right, j as int);
                }
                j -= 1;
            }
            i += 1;
        }
        proof {
            assert(lists_players(unsorted, self@));
            assert forall|k: int| 0 <= k < list.len() implies {
                &&& self@.players.contains_pair((#[trigger] list[k]).0@, list[k].1@)
                &&& list[k].1.wf()
            } by {
                assert(list[k] == unsorted[origin[k]]);
            }
            assert forall|j: int, k: int|
                0 <= j < list.len() && 0 <= k < list.len() && j != k implies (#[trigger] list[j]).0@
                != (#[trigger] list[k]).0@ by {
                assert(origin[j] != origin[k]);
                assert(unsorted[origin[j]].0@ != unsorted[origin[k]].0@);
            }
            assert forall|name: Seq<char>| self@.players.dom().contains(name) implies exists|k: int|
                0 <= k < list.len() && (#[trigger] list[k]).0@ == name by {
                let m = choose|m: int| 0 <= m < unsorted.len() && (#[trigger] unsorted[m]).0@ == name;
                assert(list[place[m]].0@ == name);
            }
        }
        list
    }
}

} // verus!
