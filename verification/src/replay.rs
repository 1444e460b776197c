//! The replay engine: a pure, deterministic fold over recorded histories.
//!
//! Given the dump a live coordinator produced, `Dump::to_filtered` sorts the
//! named policy histories out and selects the best player — the one with the
//! highest overall success proportion, compared exactly, first such player
//! winning. `replay` then walks all histories front to back and materializes
//! one statistical snapshot per step, re-deriving exactly the counters the
//! live run held: no random selection is re-run, only the statistics are
//! recomputed. A history naming an arm outside the fixed arm set is
//! corrupt, and the whole replay is rejected.
//!
//! Snapshots carry the reference deployment's three arms, as the recorded
//! dumps do.

use crate::coordinator::Dump;
use crate::counts::{
    arms_below, clone_history, fail_on, fail_total, lemma_counts_bounded, lemma_counts_push,
    pulls_on, succ_count, succ_on, succ_total,
};
use vstd::prelude::*;
use vstd::string::StringExecFns;

verus! {

/// Number of arms a replayed deployment has.
pub const REPLAY_ARMS: usize = 3;

/// A replay is rejected as a whole when a recorded arm index lies outside
/// the arm set.
#[derive(Clone, Copy, Debug, PartialEq, Eq, Structural)]
pub enum ReplayError {
    CorruptHistory,
}

/// The history of the latest entry under the given display name, or the
/// empty history if no entry carries it.
pub open spec fn last_named(
    algos: Seq<(String, Vec<(usize, bool)>)>,
    name: Seq<char>,
) -> Seq<(usize, bool)>
    decreases algos.len(),
{
    if algos.len() == 0 {
        Seq::empty()
    } else if algos.last().0@ == name {
        algos.last().1@
    } else {
        last_named(algos.drop_last(), name)
    }
}

/// Whether a candidate player with `ch` successes out of `cf` flips shows a
/// strictly higher success proportion than the best so far with `bh` out of
/// `bf`. A player with no flips has no proportion and never wins; before
/// any best is set the candidate must beat a proportion of zero.
pub open spec fn player_beats(ch: int, cf: int, bh: int, bf: int) -> bool {
    &&& cf > 0
    &&& if bf == 0 {
        ch > 0
    } else {
        ch * bf > bh * cf
    }
}

/// Index of the best player among the first `k`: a left-to-right fold in
/// which a later player overtakes only on a strictly higher proportion, or
/// `-1` while no player has a positive one.
pub open spec fn best_player_upto(players: Seq<(String, Vec<(usize, bool)>)>, k: int) -> int
    decreases k,
{
    if k <= 0 {
        -1
    } else {
        let b = best_player_upto(players, k - 1);
        let ch = succ_total(players[k - 1].1@) as int;
        let cf = players[k - 1].1@.len() as int;
        let bh = if b >= 0 {
            succ_total(players[b].1@) as int
        } else {
            0
        };
        let bf = if b >= 0 {
            players[b].1@.len() as int
        } else {
            0
        };
        if player_beats(ch, cf, bh, bf) {
            k - 1
        } else {
            b
        }
    }
}

/// Index of the recorded player with the highest overall success
/// proportion, the first such player winning, or `-1` if every player's
/// proportion is zero or undefined.
pub open spec fn best_player_of(players: Seq<(String, Vec<(usize, bool)>)>) -> int {
    best_player_upto(players, players.len() as int)
}

/// The policy histories of a dump, sorted out by display name, and the
/// best player's record.
pub struct FilteredData {
    /// The Thompson-sampling policy's history.
    pub thompson: Vec<(usize, bool)>,
    /// The explore-then-commit policy's history.
    pub naive: Vec<(usize, bool)>,
    /// The upper-confidence-bound policy's history.
    pub ucb: Vec<(usize, bool)>,
    /// The best player's history.
    pub best_player: Vec<(usize, bool)>,
    /// The best player's id, or empty if no player qualified.
    pub best_player_name: String,
}

impl FilteredData {
    /// Every recorded arm index lies inside the fixed arm set.
    pub open spec fn valid(&self) -> bool {
        &&& arms_below(self.thompson@, REPLAY_ARMS as int)
        &&& arms_below(self.naive@, REPLAY_ARMS as int)
        &&& arms_below(self.ucb@, REPLAY_ARMS as int)
        &&& arms_below(self.best_player@, REPLAY_ARMS as int)
    }

    /// Machine limit: the histories leave room for the snapshot counters.
    pub open spec fn bounded(&self) -> bool {
        &&& self.thompson@.len() + 2 <= usize::MAX
        &&& self.naive@.len() + 2 <= usize::MAX
        &&& self.ucb@.len() + 2 <= usize::MAX
        &&& self.best_player@.len() + 2 <= usize::MAX
    }

    /// Length of the longest recorded history.
    pub open spec fn spec_max_len(&self) -> int {
        let a = if self.thompson@.len() >= self.naive@.len() {
            self.thompson@.len() as int
        } else {
            self.naive@.len() as int
        };
        let b = if self.ucb@.len() >= self.best_player@.len() {
            self.ucb@.len() as int
        } else {
            self.best_player@.len() as int
        };
        if a >= b {
            a
        } else {
            b
        }
    }

    /// An empty filtered record.
    pub fn new() -> (r: FilteredData)
        ensures
            r.thompson@.len() == 0,
            r.naive@.len() == 0,
            r.ucb@.len() == 0,
            r.best_player@.len() == 0,
            r.best_player_name@ == Seq::<char>::empty(),
    {
        FilteredData {
            thompson: Vec::new(),
            naive: Vec::new(),
            ucb: Vec::new(),
            best_player: Vec::new(),
            best_player_name: String::new(),
        }
    }

    /// Checks every recorded arm index against the fixed arm set.
    pub fn validate(&self) -> (r: bool)
        ensures
            r == self.valid(),
    {
        history_in_range(&self.thompson) && history_in_range(&self.naive) && history_in_range(
            &self.ucb,
        ) && history_in_range(&self.best_player)
    }

    /// Length of the longest recorded history.
    pub fn max_len(&self) -> (r: usize)
        ensures
            r == self.spec_max_len(),
    {
        let mut r = self.thompson.len();
        if self.naive.len() > r {
            r = self.naive.len();
        }
        if self.ucb.len() > r {
            r = self.ucb.len();
        }
        if self.best_player.len() > r {
            r = self.best_player.len();
        }
        r
    }
}

/// Whether every arm index in the history lies inside the fixed arm set.
fn history_in_range(h: &Vec<(usize, bool)>) -> (r: bool)
    ensures
        r == arms_below(h@, REPLAY_ARMS as int),
{
    let mut k: usize = 0;
    while k < h.len()
        invariant
            k <= h@.len(),
            forall|j: int| 0 <= j < k ==> (#[trigger] h@[j]).0 < REPLAY_ARMS,
        decreases h@.len() - k,
    {
        if h[k].0 >= REPLAY_ARMS {
            return false;
        }
        k = k + 1;
    }
    true
}

impl Dump {
    /// Sorts the named policy histories out of the dump — the latest entry
    /// under each display name wins — and selects the best player: the
    /// recorded player with the highest overall success proportion,
    /// compared exactly, the first such player winning. With no qualifying
    /// player both the name and the record stay empty.
    pub fn to_filtered(&self) -> (r: FilteredData)
        ensures
            r.thompson@ == last_named(self.algorithms@, "Thompson Strategy"@),
            r.ucb@ == last_named(self.algorithms@, "UCB Strategy"@),
            r.naive@ == last_named(self.algorithms@, "Naive Strategy"@),
            ({
                let b = best_player_of(self.players@);
                if b >= 0 {
                    r.best_player_name@ == self.players@[b].0@ && r.best_player@
                        == self.players@[b].1@
                } else {
                    r.best_player_name@ == Seq::<char>::empty() && r.best_player@ == Seq::<(
                        usize,
                        bool,
                    )>::empty()
                }
            }),
    {
        let mut filtered = FilteredData::new();
        let thompson_name = String::from_str("Thompson Strategy");
        let ucb_name = String::from_str("UCB Strategy");
        let naive_name = String::from_str("Naive Strategy");
        let mut k: usize = 0;
        while k < self.algorithms.len()
            invariant
                k <= self.algorithms@.len(),
                thompson_name@ == "Thompson Strategy"@,
                ucb_name@ == "UCB Strategy"@,
                naive_name@ == "Naive Strategy"@,
                filtered.thompson@ == last_named(
                    self.algorithms@.take(k as int),
                    "Thompson Strategy"@,
                ),
                filtered.ucb@ == last_named(self.algorithms@.take(k as int), "UCB Strategy"@),
                filtered.naive@ == last_named(self.algorithms@.take(k as int), "Naive Strategy"@),
                filtered.best_player@.len() == 0,
                filtered.best_player_name@ == Seq::<char>::empty(),
            decreases self.algorithms@.len() - k,
        {
            proof {
                reveal_strlit("Thompson Strategy");
                reveal_strlit("UCB Strategy");
                reveal_strlit("Naive Strategy");
                assert(self.algorithms@.take(k + 1).drop_last() =~= self.algorithms@.take(
                    k as int,
                ));
                assert(self.algorithms@.take(k + 1).last() == self.algorithms@[k as int]);
                // the three display names differ already in length
                assert("Thompson Strategy"@.len() == 17);
                assert("UCB Strategy"@.len() == 12);
                assert("Naive Strategy"@.len() == 14);
            }
            if self.algorithms[k].0 == thompson_name {
                filtered.thompson = clone_history(&self.algorithms[k].1);
            } else if self.algorithms[k].0 == ucb_name {
                filtered.ucb = clone_history(&self.algorithms[k].1);
            } else if self.algorithms[k].0 == naive_name {
                filtered.naive = clone_history(&self.algorithms[k].1);
            }
            k = k + 1;
        }
        proof {
            assert(self.algorithms@.take(self.algorithms@.len() as int) =~= self.algorithms@);
        }
        let mut have_best: bool = false;
        let mut best_j: usize = 0;
        let mut best_h: usize = 0;
        let mut best_f: usize = 0;
        let mut k: usize = 0;
        while k < self.players.len()
            invariant
                k <= self.players@.len(),
                have_best <==> best_player_upto(self.players@, k as int) >= 0,
                have_best ==> best_j == best_player_upto(self.players@, k as int) && best_j < k
                    && best_h == succ_total(self.players@[best_j as int].1@) && best_f
                    == self.players@[best_j as int].1@.len(),
                !have_best ==> best_h == 0 && best_f == 0,
            decreases self.players@.len() - k,
        {
            let ch = succ_count(&self.players[k].1);
            let cf = self.players[k].1.len();
            let beats = if cf == 0 {
                false
            } else if best_f == 0 {
                ch > 0
            } else {
                proof {
                    vstd::arithmetic::mul::lemma_mul_upper_bound(
                        ch as int,
                        u64::MAX as int,
                        best_f as int,
                        u64::MAX as int,
                    );
                    vstd::arithmetic::mul::lemma_mul_upper_bound(
                        best_h as int,
                        u64::MAX as int,
                        cf as int,
                        u64::MAX as int,
                    );
                }
                (ch as u128) * (best_f as u128) > (best_h as u128) * (cf as u128)
            };
            if beats {
                have_best = true;
                best_j = k;
                best_h = ch;
                best_f = cf;
            }
            k = k + 1;
        }
        if have_best {
            filtered.best_player_name = self.players[best_j].0.clone();
            filtered.best_player = clone_history(&self.players[best_j].1);
        }
        filtered
    }
}

} // verus!
