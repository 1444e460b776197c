//! The bandit coordinator: sole owner of the three live policy states, the
//! arm set, and the per-player flip records.
//!
//! One `tick` runs every policy exactly once, in a fixed order (naive, UCB,
//! Thompson), so that consumption of the shared generator is reproducible
//! for a fixed seed. Player flips arrive through `record_player_flip` and
//! are kept per player in insertion order, which makes the later
//! best-player selection deterministic. `to_dump` is an immutable read of
//! everything recorded, for durable storage and replay.

use crate::arms::{ArmSet, ConfigError};
use crate::counts::{clone_history, fail_total, succ_total};
use crate::naive::{naive_step, NaiveAlgoState, EXPLORATION_TRIALS};
use crate::thompson::{thompson_step, ThompsonAlgoState};
use crate::ucb::{ucb_step, UcbAlgoState};
use rand::rngs::StdRng;
use vstd::prelude::*;

verus! {

/// Everything the coordinator has recorded: one named history per policy
/// and one per player.
pub struct Dump {
    /// `(display name, history)` for each policy.
    pub algorithms: Vec<(String, Vec<(usize, bool)>)>,
    /// `(player id, history)` for each player, in insertion order.
    pub players: Vec<(String, Vec<(usize, bool)>)>,
}

/// The live state of the three policies and the arms they share.
pub struct AlgoState {
    /// The explore-then-commit policy.
    pub naive: NaiveAlgoState,
    /// The upper-confidence-bound policy.
    pub ucb: UcbAlgoState,
    /// The Thompson-sampling policy.
    pub thompson: ThompsonAlgoState,
    /// The arms / coins.
    pub arms: ArmSet,
}

impl AlgoState {
    /// Every policy is well formed, sized to the shared arm set, and all
    /// three have taken the same number of steps.
    pub open spec fn wf(&self) -> bool {
        &&& self.naive.wf()
        &&& self.ucb.wf()
        &&& self.thompson.wf()
        &&& self.naive.stats@.len() == self.arms.num_arms()
        &&& self.ucb.arm_results@.len() == self.arms.num_arms()
        &&& self.thompson.arm_results@.len() == self.arms.num_arms()
        &&& self.naive.past_flips@.len() == self.ucb.past_flips@.len()
        &&& self.ucb.past_flips@.len() == self.thompson.past_flips@.len()
    }

    /// How many ticks have run.
    pub open spec fn steps(&self) -> nat {
        self.naive.past_flips@.len()
    }

    /// Fresh policies over the given arm set, with the default exploration
    /// window.
    pub fn new(arms: ArmSet) -> (r: AlgoState)
        requires
            arms.num_arms() >= 1,
        ensures
            r.wf(),
            r.steps() == 0,
            r.arms.num_arms() == arms.num_arms(),
            r.naive.trials == EXPLORATION_TRIALS,
    {
        Self::with_exploration_trials(arms, EXPLORATION_TRIALS)
    }

    /// Fresh policies over the given arm set, with an exploration window of
    /// `trials` flips.
    pub fn with_exploration_trials(arms: ArmSet, trials: usize) -> (r: AlgoState)
        requires
            arms.num_arms() >= 1,
            trials >= 1,
        ensures
            r.wf(),
            r.steps() == 0,
            r.arms.num_arms() == arms.num_arms(),
            r.naive.trials == trials,
    {
        let n = arms.arm_count();
        AlgoState {
            naive: NaiveAlgoState::new(n, trials),
            ucb: UcbAlgoState::new(n),
            thompson: ThompsonAlgoState::new(n),
            arms,
        }
    }

    /// Runs every policy once, in the fixed order naive, UCB, Thompson.
    /// The two picks that need real-valued scores — the UCB fallback for
    /// the regime where every arm has pulls, and the Thompson pick — are
    /// evaluated by the caller over the exposed counters.
    pub fn update(&mut self, rng: &mut StdRng, ucb_fallback: usize, thompson_pick: usize)
        requires
            old(self).wf(),
            ucb_fallback < old(self).arms.num_arms(),
            thompson_pick < old(self).arms.num_arms(),
            old(self).steps() + 2 <= u32::MAX,
        ensures
            final(self).wf(),
            final(self).steps() == old(self).steps() + 1,
            final(self).arms == old(self).arms,
            naive_step(old(self).naive, final(self).naive),
            ucb_step(old(self).ucb, final(self).ucb, ucb_fallback as int),
            thompson_step(old(self).thompson, final(self).thompson, thompson_pick as int),
    {
        self.naive.choose_flip(rng, &self.arms);
        self.ucb.choose_flip(rng, &self.arms, ucb_fallback);
        self.thompson.choose_flip(rng, &self.arms, thompson_pick);
    }

    /// The display name and history of every policy, in the fixed order.
    pub fn to_dump(&self) -> (r: Vec<(String, Vec<(usize, bool)>)>)
        ensures
            r@.len() == 3,
            r@[0].0@ == "Naive Strategy"@,
            r@[0].1@ == self.naive.past_flips@,
            r@[1].0@ == "UCB Strategy"@,
            r@[1].1@ == self.ucb.past_flips@,
            r@[2].0@ == "Thompson Strategy"@,
            r@[2].1@ == self.thompson.past_flips@,
    {
        let mut r: Vec<(String, Vec<(usize, bool)>)> = Vec::new();
        r.push(self.naive.to_dump());
        r.push(self.ucb.to_dump());
        r.push(self.thompson.to_dump());
        r
    }
}

/// The lowest index whose entry is named `name`, or `-1` if there is none.
pub open spec fn find_player(past: Seq<(String, Vec<(usize, bool)>)>, name: Seq<char>) -> int
    decreases past.len(),
{
    if past.len() == 0 {
        -1
    } else if past[0].0@ == name {
        0
    } else {
        let r = find_player(past.drop_first(), name);
        if r == -1 {
            -1
        } else {
            r + 1
        }
    }
}

/// `find_player` really is the lowest matching index: if nothing below `j`
/// matches and `j` does (or nothing does at all), the search ends there.
proof fn lemma_find_player_char(
    past: Seq<(String, Vec<(usize, bool)>)>,
    name: Seq<char>,
    j: int,
)
    requires
        0 <= j <= past.len(),
        forall|k: int| 0 <= k < j ==> (#[trigger] past[k]).0@ != name,
        j < past.len() ==> past[j].0@ == name,
        j == past.len() ==> forall|k: int| 0 <= k < past.len() ==> (#[trigger] past[k]).0@ != name,
    ensures
        find_player(past, name) == if j < past.len() {
            j
        } else {
            -1
        },
    decreases past.len(),
{
    if past.len() > 0 && past[0].0@ != name {
        lemma_find_player_char(past.drop_first(), name, j - 1);
    }
}

/// What one recorded player flip does to the per-player records: it is
/// appended to the named player's history if the player exists, and opens a
/// new record otherwise.
pub open spec fn recorded_after(
    past: Seq<(String, Vec<(usize, bool)>)>,
    now: Seq<(String, Vec<(usize, bool)>)>,
    name: Seq<char>,
    arm: usize,
    result: bool,
) -> bool {
    let j = find_player(past, name);
    if j >= 0 {
        &&& now.len() == past.len()
        &&& forall|k: int| 0 <= k < past.len() && k != j ==> now[k] == past[k]
        &&& now[j].0@ == past[j].0@
        &&& now[j].1@ == past[j].1@.push((arm, result))
    } else {
        &&& now.len() == past.len() + 1
        &&& forall|k: int| 0 <= k < past.len() ==> now[k] == past[k]
        &&& now.last().0@ == name
        &&& now.last().1@ == seq![(arm, result)]
    }
}

/// The player's net score: one up for each success, one down for each
/// failure.
pub open spec fn net_score(h: Seq<(usize, bool)>) -> int {
    succ_total(h) - fail_total(h)
}

/// The coordinator: sole owner and sole mutator of the live bandit state.
/// Every operation takes `&mut self` or `&self`, so two mutations can never
/// interleave on the same counters; callers that share a coordinator must
/// serialize access around it.
pub struct AppState {
    /// The history of flips for each participant, in insertion order.
    pub past: Vec<(String, Vec<(usize, bool)>)>,
    /// The live policy states and the shared arms.
    pub algorithm_state: AlgoState,
}

impl AppState {
    /// Policies are well formed and player ids are unique, so each record
    /// is found by name at exactly one place.
    pub open spec fn wf(&self) -> bool {
        &&& self.algorithm_state.wf()
        &&& forall|j: int, k: int|
            0 <= j < k < self.past@.len() ==> (#[trigger] self.past@[j]).0@ != (
            #[trigger] self.past@[k]).0@
    }

    /// How many arms the coordinator plays on.
    pub open spec fn num_arms(&self) -> nat {
        self.algorithm_state.arms.num_arms()
    }

    /// Builds a coordinator over coins configured as probability ratios.
    /// Construction fails — and no coordinator starts — on an empty arm
    /// set or on any ratio that is no probability.
    pub fn new(ratios: &Vec<(u32, u32)>) -> (r: Result<AppState, ConfigError>)
        ensures
            r is Ok <==> (ratios@.len() > 0 && forall|i: int|
                0 <= i < ratios@.len() ==> crate::arms::valid_ratio(#[trigger] ratios@[i])),
            r matches Ok(s) ==> s.wf() && s.num_arms() == ratios@.len() && s.past@.len() == 0
                && s.algorithm_state.steps() == 0,
            r matches Err(e) ==> (e == ConfigError::EmptyArmSet <==> ratios@.len() == 0),
    {
        match ArmSet::new(ratios) {
            Ok(arms) => Ok(
                AppState { past: Vec::new(), algorithm_state: AlgoState::new(arms) },
            ),
            Err(e) => Err(e),
        }
    }

    /// One tick: every policy chooses and flips once, in the fixed order.
    /// The caller evaluates the two real-valued picks over the exposed
    /// counters (see `AlgoState::update`).
    pub fn tick(&mut self, rng: &mut StdRng, ucb_fallback: usize, thompson_pick: usize)
        requires
            old(self).wf(),
            ucb_fallback < old(self).num_arms(),
            thompson_pick < old(self).num_arms(),
            old(self).algorithm_state.steps() + 2 <= u32::MAX,
        ensures
            final(self).wf(),
            final(self).past == old(self).past,
            final(self).algorithm_state.steps() == old(self).algorithm_state.steps() + 1,
            naive_step(old(self).algorithm_state.naive, final(self).algorithm_state.naive),
            ucb_step(
                old(self).algorithm_state.ucb,
                final(self).algorithm_state.ucb,
                ucb_fallback as int,
            ),
            thompson_step(
                old(self).algorithm_state.thompson,
                final(self).algorithm_state.thompson,
                thompson_pick as int,
            ),
    {
        self.algorithm_state.update(rng, ucb_fallback, thompson_pick);
    }

    /// Appends one externally driven player flip to that player's record,
    /// opening the record on the player's first flip.
    pub fn record_player_flip(&mut self, user_id: String, arm: usize, result: bool)
        requires
            old(self).wf(),
            arm < old(self).num_arms(),
        ensures
            final(self).wf(),
            final(self).algorithm_state == old(self).algorithm_state,
            recorded_after(old(self).past@, final(self).past@, user_id@, arm, result),
    {
        let mut j: usize = 0;
        while j < self.past.len()
            invariant
                j <= self.past@.len(),
                self == old(self),
                old(self).wf(),
                forall|k: int| 0 <= k < j ==> (#[trigger] self.past@[k]).0@ != user_id@,
            decreases self.past@.len() - j,
        {
            if self.past[j].0 == user_id {
                proof {
                    lemma_find_player_char(self.past@, user_id@, j as int);
                }
                let name_copy = self.past[j].0.clone();
                let mut h = clone_history(&self.past[j].1);
                h.push((arm, result));
                self.past.set(j, (name_copy, h));
                proof {
                    assert forall|a: int, b: int|
                        0 <= a < b < self.past@.len() implies (#[trigger] self.past@[a]).0@ != (
                    #[trigger] self.past@[b]).0@ by {
                        assert(self.past@[a].0@ == old(self).past@[a].0@);
                        assert(self.past@[b].0@ == old(self).past@[b].0@);
                    }
                }
                return ;
            }
            j = j + 1;
        }
        proof {
            lemma_find_player_char(self.past@, user_id@, self.past@.len() as int);
        }
        let mut h: Vec<(usize, bool)> = Vec::new();
        h.push((arm, result));
        self.past.push((user_id, h));
    }

    /// The player's running score, or zero for an unknown player.
    pub fn get_count(&self, user_id: &String) -> (r: i32)
        requires
            find_player(self.past@, user_id@) >= 0 ==> self.past@[find_player(
                self.past@,
                user_id@,
            )].1@.len() <= i32::MAX,
        ensures
            r == (if find_player(self.past@, user_id@) >= 0 {
                net_score(self.past@[find_player(self.past@, user_id@)].1@)
            } else {
                0
            }),
    {
        let mut j: usize = 0;
        while j < self.past.len()
            invariant
                j <= self.past@.len(),
                forall|k: int| 0 <= k < j ==> (#[trigger] self.past@[k]).0@ != user_id@,
                find_player(self.past@, user_id@) >= 0 ==> self.past@[find_player(
                    self.past@,
                    user_id@,
                )].1@.len() <= i32::MAX,
            decreases self.past@.len() - j,
        {
            if self.past[j].0 == *user_id {
                proof {
                    lemma_find_player_char(self.past@, user_id@, j as int);
                }
                return score_of(&self.past[j].1);
            }
            j = j + 1;
        }
        proof {
            lemma_find_player_char(self.past@, user_id@, self.past@.len() as int);
        }
        0
    }

    /// An immutable copy of everything recorded, for durable storage.
    pub fn to_dump(&self) -> (r: Dump)
        ensures
            r.algorithms@.len() == 3,
            r.algorithms@[0].0@ == "Naive Strategy"@,
            r.algorithms@[0].1@ == self.algorithm_state.naive.past_flips@,
            r.algorithms@[1].0@ == "UCB Strategy"@,
            r.algorithms@[1].1@ == self.algorithm_state.ucb.past_flips@,
            r.algorithms@[2].0@ == "Thompson Strategy"@,
            r.algorithms@[2].1@ == self.algorithm_state.thompson.past_flips@,
            r.players@.len() == self.past@.len(),
            forall|j: int|
                0 <= j < self.past@.len() ==> (#[trigger] r.players@[j]).0@ == self.past@[j].0@
                    && r.players@[j].1@ == self.past@[j].1@,
    {
        let mut players: Vec<(String, Vec<(usize, bool)>)> = Vec::new();
        let mut j: usize = 0;
        while j < self.past.len()
            invariant
                j <= self.past@.len(),
                players@.len() == j,
                forall|k: int|
                    0 <= k < j ==> (#[trigger] players@[k]).0@ == self.past@[k].0@
                        && players@[k].1@ == self.past@[k].1@,
            decreases self.past@.len() - j,
        {
            players.push((self.past[j].0.clone(), clone_history(&self.past[j].1)));
            j = j + 1;
        }
        Dump { algorithms: self.algorithm_state.to_dump(), players }
    }
}

/// The net score of one history: successes count one up, failures one down.
fn score_of(h: &Vec<(usize, bool)>) -> (r: i32)
    requires
        h@.len() <= i32::MAX,
    ensures
        r == net_score(h@),
{
    let mut r: i32 = 0;
    let mut k: usize = 0;
    while k < h.len()
        invariant
            k <= h@.len(),
            h@.len() <= i32::MAX,
            r == net_score(h@.take(k as int)),
        decreases h@.len() - k,
    {
        proof {
            crate::counts::lemma_counts_bounded(h@.take(k as int), 0);
            assert(h@.take(k + 1) =~= h@.take(k as int).push(h@[k as int]));
            crate::counts::lemma_counts_push(h@.take(k as int), h@[k as int], 0);
        }
        if h[k].1 {
            r = r + 1;
        } else {
            r = r - 1;
        }
        k = k + 1;
    }
    proof {
        assert(h@.take(h@.len() as int) =~= h@);
    }
    r
}

} // verus!
