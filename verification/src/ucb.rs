//! The upper-confidence-bound policy.
//!
//! Each step scores every arm by its observed success proportion plus an
//! uncertainty bonus and flips the best-scoring arm. An arm with no pulls
//! has an undefined score that dominates every real one, so the lowest
//! untried arm is always taken first; that rule is integer-decidable and
//! proved here. Once every arm has been pulled the score is a real-valued
//! formula (`proportion + sqrt(2 * log10(total) / pulls)`), which this crate
//! does not compute: the caller evaluates it over the exposed counters and
//! passes the winning arm in as the fallback choice.

use crate::arms::ArmSet;
use crate::counts::{
    arms_below, clone_history, fail_on, fill_pairs, lemma_counts_bounded, lemma_counts_push,
    stats_after, succ_on,
};
use rand::rngs::StdRng;
use vstd::prelude::*;
use vstd::string::StringExecFns;

verus! {

/// The lowest index at or after `k` of an arm with no pulls, or the table
/// length if every arm from `k` on has been pulled.
pub open spec fn first_untried_from(stats: Seq<(u32, u32)>, k: int) -> int
    decreases stats.len() - k when 0 <= k <= stats.len()
{
    if k >= stats.len() {
        stats.len() as int
    } else if stats[k].0 + stats[k].1 == 0 {
        k
    } else {
        first_untried_from(stats, k + 1)
    }
}

/// The lowest index of an arm with no pulls, or the table length if every
/// arm has been pulled.
pub open spec fn first_untried(stats: Seq<(u32, u32)>) -> int {
    first_untried_from(stats, 0)
}

/// The arm the policy takes: the lowest untried arm if one exists — its
/// undefined score dominates — and otherwise the caller-evaluated best
/// scoring arm.
pub open spec fn ucb_choice(stats: Seq<(u32, u32)>, fallback: int) -> int {
    if first_untried(stats) < stats.len() {
        first_untried(stats)
    } else {
        fallback
    }
}

/// `first_untried` really is the lowest untried index: if every arm below
/// `i` has pulls and `i` is untried (or the end), the search stops at `i`.
proof fn lemma_first_untried_from_char(stats: Seq<(u32, u32)>, k: int, i: int)
    requires
        0 <= k <= i <= stats.len(),
        forall|j: int| k <= j < i ==> (#[trigger] stats[j]).0 + stats[j].1 > 0,
        i < stats.len() ==> stats[i].0 + stats[i].1 == 0,
    ensures
        first_untried_from(stats, k) == if i < stats.len() {
            i
        } else {
            stats.len() as int
        },
    decreases i - k,
{
    if k < i {
        lemma_first_untried_from_char(stats, k + 1, i);
    }
}

/// The dominant-undefined-score rule: whenever some arm has zero pulls, the
/// policy's choice is the lowest such arm, whatever the fallback.
pub proof fn lemma_untried_dominates(stats: Seq<(u32, u32)>, i: int, fallback: int)
    requires
        0 <= i < stats.len(),
        stats[i].0 + stats[i].1 == 0,
        forall|j: int| 0 <= j < i ==> (#[trigger] stats[j]).0 + stats[j].1 > 0,
    ensures
        ucb_choice(stats, fallback) == i,
{
    lemma_first_untried_from_char(stats, 0, i);
}

/// The transition one `choose_flip` step makes: exactly one flip of the arm
/// `ucb_choice` names is recorded, and the counters and total move with it.
pub open spec fn ucb_step(pre: UcbAlgoState, post: UcbAlgoState, fallback: int) -> bool {
    &&& post.wf()
    &&& post.arm_results@.len() == pre.arm_results@.len()
    &&& post.past_flips@ == pre.past_flips@.push(post.past_flips@.last())
    &&& post.past_flips@.last().0 == ucb_choice(pre.arm_results@, fallback)
    &&& post.arm_results@ == stats_after(
        pre.arm_results@,
        post.past_flips@.last().0 as int,
        post.past_flips@.last().1,
    )
    &&& post.total_flips == pre.total_flips + 1
}

/// State of the upper-confidence-bound policy.
pub struct UcbAlgoState {
    /// Every flip this policy made: chosen arm and outcome, in order.
    pub past_flips: Vec<(usize, bool)>,
    /// Successes and failures seen per arm; there is no warm-up phase.
    pub arm_results: Vec<(u32, u32)>,
    /// Total number of flips so far.
    pub total_flips: u32,
}

impl UcbAlgoState {
    /// The per-arm counters and the running total agree exactly with the
    /// recorded history.
    pub open spec fn wf(&self) -> bool {
        &&& self.arm_results@.len() >= 1
        &&& arms_below(self.past_flips@, self.arm_results@.len() as int)
        &&& forall|a: int|
            0 <= a < self.arm_results@.len() ==> (#[trigger] self.arm_results@[a]).0 == succ_on(
                self.past_flips@,
                a,
            ) && self.arm_results@[a].1 == fail_on(self.past_flips@, a)
        &&& self.total_flips == self.past_flips@.len()
    }

    /// A fresh policy over `num_arms` arms.
    pub fn new(num_arms: usize) -> (r: UcbAlgoState)
        requires
            num_arms >= 1,
        ensures
            r.wf(),
            r.arm_results@.len() == num_arms,
            r.past_flips@.len() == 0,
            forall|a: int| 0 <= a < num_arms ==> r.arm_results@[a] == (0u32, 0u32),
    {
        UcbAlgoState {
            past_flips: Vec::new(),
            arm_results: fill_pairs(num_arms, (0, 0)),
            total_flips: 0,
        }
    }

    /// The lowest arm with no pulls, whose undefined score dominates, or
    /// `None` once every arm has been pulled.
    pub fn untried_arm(&self) -> (r: Option<usize>)
        ensures
            r matches Some(i) ==> i == first_untried(self.arm_results@)
                && i < self.arm_results@.len() && self.arm_results@[i as int].0
                + self.arm_results@[i as int].1 == 0,
            r is None ==> first_untried(self.arm_results@) == self.arm_results@.len(),
            r is None ==> forall|j: int|
                0 <= j < self.arm_results@.len() ==> (#[trigger] self.arm_results@[j]).0
                    + self.arm_results@[j].1 > 0,
    {
        let mut i: usize = 0;
        while i < self.arm_results.len()
            invariant
                i <= self.arm_results@.len(),
                forall|j: int|
                    0 <= j < i ==> (#[trigger] self.arm_results@[j]).0 + self.arm_results@[j].1
                        > 0,
            decreases self.arm_results@.len() - i,
        {
            let (h, t) = self.arm_results[i];
            if h == 0 && t == 0 {
                proof {
                    lemma_first_untried_from_char(self.arm_results@, 0, i as int);
                }
                return Some(i);
            }
            i = i + 1;
        }
        proof {
            lemma_first_untried_from_char(self.arm_results@, 0, self.arm_results@.len() as int);
        }
        None
    }

    /// Flips `arm` once and records the outcome in the counters, the total
    /// and the history.
    pub fn flip(&mut self, rng: &mut StdRng, arms: &ArmSet, arm: usize)
        requires
            old(self).wf(),
            arm < old(self).arm_results@.len(),
            arms.num_arms() == old(self).arm_results@.len(),
            old(self).past_flips@.len() < u32::MAX,
        ensures
            final(self).wf(),
            final(self).arm_results@.len() == old(self).arm_results@.len(),
            final(self).past_flips@ == old(self).past_flips@.push(
                (arm, final(self).past_flips@.last().1),
            ),
            final(self).past_flips@.last().0 == arm,
            final(self).arm_results@ == stats_after(
                old(self).arm_results@,
                arm as int,
                final(self).past_flips@.last().1,
            ),
            final(self).total_flips == old(self).total_flips + 1,
    {
        let result = arms.flip(arm, rng);
        proof {
            lemma_counts_bounded(self.past_flips@, arm as int);
        }
        let (h, t) = self.arm_results[arm];
        if result {
            self.arm_results.set(arm, (h + 1, t));
        } else {
            self.arm_results.set(arm, (h, t + 1));
        }
        self.past_flips.push((arm, result));
        self.total_flips = self.total_flips + 1;
        proof {
            let h0 = old(self).past_flips@;
            assert forall|a: int|
                0 <= a < self.arm_results@.len() implies (#[trigger] self.arm_results@[a]).0
                == succ_on(self.past_flips@, a) && self.arm_results@[a].1 == fail_on(
                self.past_flips@,
                a,
            ) by {
                lemma_counts_push(h0, (arm, result), a);
            }
        }
    }

    /// One step of the policy: the lowest untried arm if any exists, and
    /// otherwise the caller-evaluated `fallback`, the arm with the highest
    /// real-valued confidence score over the current counters.
    pub fn choose_flip(&mut self, rng: &mut StdRng, arms: &ArmSet, fallback: usize)
        requires
            old(self).wf(),
            fallback < old(self).arm_results@.len(),
            arms.num_arms() == old(self).arm_results@.len(),
            old(self).past_flips@.len() < u32::MAX,
        ensures
            ucb_step(*old(self), *final(self), fallback as int),
    {
        let arm = match self.untried_arm() {
            Some(i) => i,
            None => fallback,
        };
        self.flip(rng, arms, arm);
    }

    /// The policy's display name and a copy of its full history.
    pub fn to_dump(&self) -> (r: (String, Vec<(usize, bool)>))
        ensures
            r.0@ == "UCB Strategy"@,
            r.1@ == self.past_flips@,
    {
        (String::from_str("UCB Strategy"), clone_history(&self.past_flips))
    }
}

} // verus!
