//! The explore-then-commit ("naive") policy.
//!
//! For a fixed window the policy flips a uniformly random arm; at the end of
//! the window it freezes the arm with the highest observed success
//! proportion and flips only that arm from then on. Proportions are compared
//! exactly, by cross-multiplication, so an arm that was never pulled has no
//! proportion and never wins, and ties keep the lower index.

use crate::arms::ArmSet;
use crate::counts::{
    arms_below, fail_on, fill_pairs, lemma_counts_bounded, lemma_counts_push, stats_after,
    succ_on,
};
use crate::rng::random_below;
use rand::rngs::StdRng;
use vstd::prelude::*;
use vstd::string::StringExecFns;

verus! {

/// Default length of the exploration window, in flips.
pub const EXPLORATION_TRIALS: usize = 30;

/// Whether the candidate counter pair `c` shows a strictly higher success
/// proportion than the running best `b`. A pair with no pulls has no
/// proportion and never wins; against a best with no pulls the candidate
/// must beat a proportion of zero.
pub open spec fn ratio_wins(c: (u32, u32), b: (u32, u32)) -> bool {
    &&& c.0 + c.1 > 0
    &&& if b.0 + b.1 == 0 {
        c.0 > 0
    } else {
        c.0 * (b.0 + b.1) > b.0 * (c.0 + c.1)
    }
}

/// The best arm among the first `k`: a left-to-right fold from arm 0 in
/// which a later arm overtakes only on a strictly higher proportion, so the
/// lowest index wins ties.
pub open spec fn best_arm_upto(stats: Seq<(u32, u32)>, k: int) -> int
    decreases k,
{
    if k <= 1 {
        0
    } else {
        let b = best_arm_upto(stats, k - 1);
        if ratio_wins(stats[k - 1], stats[b]) {
            k - 1
        } else {
            b
        }
    }
}

/// The arm with the highest observed success proportion, ties to the lowest
/// index.
pub open spec fn best_arm(stats: Seq<(u32, u32)>) -> int {
    best_arm_upto(stats, stats.len() as int)
}

/// Computes `best_arm` over a counter table, comparing proportions exactly
/// by cross-multiplication.
pub fn select_best_arm(stats: &Vec<(u32, u32)>) -> (r: usize)
    requires
        stats@.len() >= 1,
    ensures
        r == best_arm(stats@),
        r < stats@.len(),
{
    let mut best: usize = 0;
    let mut k: usize = 1;
    while k < stats.len()
        invariant
            1 <= k <= stats@.len(),
            best == best_arm_upto(stats@, k as int),
            best < k,
        decreases stats@.len() - k,
    {
        let (ch, ct) = stats[k];
        let (bh, bt) = stats[best];
        let cn: u64 = ch as u64 + ct as u64;
        let bn: u64 = bh as u64 + bt as u64;
        proof {
            vstd::arithmetic::mul::lemma_mul_upper_bound(
                ch as int,
                u32::MAX as int,
                bn as int,
                u64::MAX as int,
            );
            vstd::arithmetic::mul::lemma_mul_upper_bound(
                bh as int,
                u32::MAX as int,
                cn as int,
                u64::MAX as int,
            );
        }
        let wins = if cn == 0 {
            false
        } else if bn == 0 {
            ch > 0
        } else {
            (ch as u128) * (bn as u128) > (bh as u128) * (cn as u128)
        };
        assert(wins == ratio_wins(stats@[k as int], stats@[best as int]));
        if wins {
            best = k;
        }
        k = k + 1;
    }
    best
}

/// No counter pair beats itself.
proof fn lemma_wins_irrefl(x: (u32, u32))
    ensures
        !ratio_wins(x, x),
{
}

/// Beating is asymmetric.
proof fn lemma_wins_asym(x: (u32, u32), y: (u32, u32))
    requires
        ratio_wins(x, y),
    ensures
        !ratio_wins(y, x),
{
}

/// Whoever beats the running best also beats everything the running best
/// was not beaten by.
proof fn lemma_wins_trans(c: (u32, u32), b: (u32, u32), j: (u32, u32))
    requires
        ratio_wins(c, b),
        !ratio_wins(j, b),
    ensures
        ratio_wins(c, j),
{
    if b.0 + b.1 > 0 {
        assert(c.0 > 0) by (nonlinear_arith)
            requires
                c.0 * (b.0 + b.1) > b.0 * (c.0 + c.1),
        ;
        if j.0 + j.1 > 0 {
            assert(c.0 * (j.0 + j.1) > j.0 * (c.0 + c.1)) by (nonlinear_arith)
                requires
                    c.0 * (b.0 + b.1) > b.0 * (c.0 + c.1),
                    j.0 * (b.0 + b.1) <= b.0 * (j.0 + j.1),
                    j.0 + j.1 > 0,
                    c.0 + c.1 > 0,
                    b.0 + b.1 > 0,
            ;
        }
    } else {
        if j.0 + j.1 > 0 {
            assert(j.0 == 0);
            assert(c.0 * (j.0 + j.1) > 0) by (nonlinear_arith)
                requires
                    c.0 > 0,
                    j.0 + j.1 > 0,
            ;
        }
    }
}

/// What the commitment fold promises: the committed arm's proportion is
/// beaten by no arm, and it strictly beats every earlier arm, so among the
/// arms with the highest observed proportion the lowest index wins.
pub proof fn lemma_best_arm_maximal(stats: Seq<(u32, u32)>)
    requires
        stats.len() >= 1,
    ensures
        0 <= best_arm(stats) < stats.len(),
        forall|j: int| 0 <= j < stats.len() ==> !ratio_wins(stats[j], stats[best_arm(stats)]),
        forall|j: int| 0 <= j < best_arm(stats) ==> ratio_wins(stats[best_arm(stats)], stats[j]),
{
    lemma_best_arm_upto_maximal(stats, stats.len() as int);
}

/// The fold invariant behind `lemma_best_arm_maximal`, over the first `k`
/// arms.
proof fn lemma_best_arm_upto_maximal(stats: Seq<(u32, u32)>, k: int)
    requires
        1 <= k <= stats.len(),
    ensures
        0 <= best_arm_upto(stats, k) < k,
        forall|j: int| 0 <= j < k ==> !ratio_wins(stats[j], stats[best_arm_upto(stats, k)]),
        forall|j: int|
            0 <= j < best_arm_upto(stats, k) ==> ratio_wins(
                stats[best_arm_upto(stats, k)],
                stats[j],
            ),
    decreases k,
{
    if k == 1 {
        lemma_wins_irrefl(stats[0]);
    } else {
        lemma_best_arm_upto_maximal(stats, k - 1);
        let b = best_arm_upto(stats, k - 1);
        if ratio_wins(stats[k - 1], stats[b]) {
            assert forall|j: int| 0 <= j < k - 1 implies ratio_wins(
                stats[k - 1],
                #[trigger] stats[j],
            ) by {
                lemma_wins_trans(stats[k - 1], stats[b], stats[j]);
            }
            assert forall|j: int| 0 <= j < k implies !ratio_wins(
                stats[j],
                stats[best_arm_upto(stats, k)],
            ) by {
                if j < k - 1 {
                    lemma_wins_asym(stats[k - 1], stats[j]);
                } else {
                    lemma_wins_irrefl(stats[k - 1]);
                }
            }
        }
    }
}

/// The transition one `choose_flip` step makes: exactly one flip is
/// recorded; inside the exploration window its arm is only known to be in
/// range, afterwards it is the committed arm; and the commitment is written
/// exactly once, at the step whose index equals the window length.
pub open spec fn naive_step(pre: NaiveAlgoState, post: NaiveAlgoState) -> bool {
    &&& post.wf()
    &&& post.trials == pre.trials
    &&& post.stats@.len() == pre.stats@.len()
    &&& post.past_flips@ == pre.past_flips@.push(post.past_flips@.last())
    &&& post.stats@ == stats_after(
        pre.stats@,
        post.past_flips@.last().0 as int,
        post.past_flips@.last().1,
    )
    &&& pre.past_flips@.len() < pre.trials ==> post.past_flips@.last().0 < pre.stats@.len()
    &&& pre.best_coin matches Some(i) ==> post.past_flips@.last().0 == i
    &&& pre.past_flips@.len() >= pre.trials && pre.best_coin is None
        ==> post.past_flips@.last().0 == best_arm(pre.stats@)
    &&& post.best_coin == (if pre.past_flips@.len() == pre.trials {
        Some(best_arm(pre.stats@) as usize)
    } else {
        pre.best_coin
    })
}

/// State of the explore-then-commit policy.
pub struct NaiveAlgoState {
    /// Successes and failures seen per arm.
    pub stats: Vec<(u32, u32)>,
    /// Every flip this policy made: chosen arm and outcome, in order.
    pub past_flips: Vec<(usize, bool)>,
    /// The arm frozen once the exploration window has ended; set exactly
    /// once and never recomputed.
    pub best_coin: Option<usize>,
    /// Length of the exploration window.
    pub trials: usize,
}

impl NaiveAlgoState {
    /// The per-arm counters agree exactly with the recorded history.
    pub open spec fn counters_ok(&self) -> bool {
        &&& self.stats@.len() >= 1
        &&& self.trials >= 1
        &&& arms_below(self.past_flips@, self.stats@.len() as int)
        &&& forall|a: int|
            0 <= a < self.stats@.len() ==> (#[trigger] self.stats@[a]).0 == succ_on(
                self.past_flips@,
                a,
            ) && self.stats@[a].1 == fail_on(self.past_flips@, a)
    }

    /// The commitment is present exactly after the exploration window, and
    /// names a real arm.
    pub open spec fn commit_ok(&self) -> bool {
        &&& (self.best_coin is Some <==> self.past_flips@.len() > self.trials)
        &&& (self.best_coin matches Some(i) ==> i < self.stats@.len())
    }

    /// Full well-formedness of the policy state.
    pub open spec fn wf(&self) -> bool {
        self.counters_ok() && self.commit_ok()
    }

    /// A fresh policy over `num_arms` arms with an exploration window of
    /// `trials` flips.
    pub fn new(num_arms: usize, trials: usize) -> (r: NaiveAlgoState)
        requires
            num_arms >= 1,
            trials >= 1,
        ensures
            r.wf(),
            r.stats@.len() == num_arms,
            r.trials == trials,
            r.past_flips@.len() == 0,
            r.best_coin is None,
    {
        NaiveAlgoState {
            stats: fill_pairs(num_arms, (0, 0)),
            past_flips: Vec::new(),
            best_coin: None,
            trials,
        }
    }

    /// Flips `arm` once and records the outcome in the counters and the
    /// history. The commitment is untouched.
    pub fn flip(&mut self, rng: &mut StdRng, arms: &ArmSet, arm: usize)
        requires
            old(self).counters_ok(),
            arm < old(self).stats@.len(),
            arms.num_arms() == old(self).stats@.len(),
            old(self).past_flips@.len() < u32::MAX,
        ensures
            final(self).counters_ok(),
            final(self).best_coin == old(self).best_coin,
            final(self).trials == old(self).trials,
            final(self).stats@.len() == old(self).stats@.len(),
            final(self).past_flips@ == old(self).past_flips@.push(
                (arm, final(self).past_flips@.last().1),
            ),
            final(self).past_flips@.last().0 == arm,
            final(self).stats@ == stats_after(
                old(self).stats@,
                arm as int,
                final(self).past_flips@.last().1,
            ),
    {
        let result = arms.flip(arm, rng);
        proof {
            lemma_counts_bounded(self.past_flips@, arm as int);
        }
        let (h, t) = self.stats[arm];
        if result {
            self.stats.set(arm, (h + 1, t));
        } else {
            self.stats.set(arm, (h, t + 1));
        }
        self.past_flips.push((arm, result));
        proof {
            let h0 = old(self).past_flips@;
            assert forall|a: int| 0 <= a < self.stats@.len() implies (#[trigger] self.stats@[a]).0
                == succ_on(self.past_flips@, a) && self.stats@[a].1 == fail_on(
                self.past_flips@,
                a,
            ) by {
                lemma_counts_push(h0, (arm, result), a);
            }
        }
    }

    /// One step of the policy: a uniformly random arm inside the
    /// exploration window; at the window's end, the best observed arm,
    /// frozen from then on; afterwards always the frozen arm.
    ///
    /// The commitment is written exactly once, at the step whose index
    /// equals the window length, and never changes afterwards.
    pub fn choose_flip(&mut self, rng: &mut StdRng, arms: &ArmSet)
        requires
            old(self).wf(),
            arms.num_arms() == old(self).stats@.len(),
            old(self).past_flips@.len() < u32::MAX,
        ensures
            naive_step(*old(self), *final(self)),
    {
        if self.past_flips.len() < self.trials {
            let arm = random_below(rng, self.stats.len());
            self.flip(rng, arms, arm);
        } else if let Some(index) = self.best_coin {
            self.flip(rng, arms, index);
        } else {
            let index = select_best_arm(&self.stats);
            self.best_coin = Some(index);
            self.flip(rng, arms, index);
        }
    }

    /// The policy's display name and a copy of its full history.
    pub fn to_dump(&self) -> (r: (String, Vec<(usize, bool)>))
        ensures
            r.0@ == "Naive Strategy"@,
            r.1@ == self.past_flips@,
    {
        (String::from_str("Naive Strategy"), crate::counts::clone_history(&self.past_flips))
    }
}

} // verus!
