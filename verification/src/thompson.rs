//! The Thompson-sampling policy.
//!
//! Each arm carries Beta posterior shape parameters `(a, b)`, starting from
//! the uniform prior `(1, 1)`; a success increments `a`, a failure
//! increments `b`. Each step draws one sample from every arm's posterior
//! and flips the arm with the highest draw. Drawing from a Beta
//! distribution needs floating point, which this crate does not do: the
//! caller draws over the exposed `(a, b)` parameters and passes the winning
//! arm in. The update rule itself is verified, and the posterior after any
//! history depends only on the multiset of recorded outcomes.

use crate::arms::ArmSet;
use crate::counts::{
    arms_below, clone_history, fail_on, fill_pairs, lemma_counts_bounded, lemma_counts_push,
    stats_after, succ_on,
};
use rand::rngs::StdRng;
use vstd::multiset::Multiset;
use vstd::prelude::*;
use vstd::string::StringExecFns;

verus! {

/// The transition one `choose_flip` step makes: exactly one flip of the
/// caller's pick is recorded, and that arm's posterior moves with the
/// outcome.
pub open spec fn thompson_step(pre: ThompsonAlgoState, post: ThompsonAlgoState, pick: int) -> bool {
    &&& post.wf()
    &&& post.arm_results@.len() == pre.arm_results@.len()
    &&& post.past_flips@ == pre.past_flips@.push(post.past_flips@.last())
    &&& post.past_flips@.last().0 == pick
    &&& post.arm_results@ == stats_after(
        pre.arm_results@,
        pick,
        post.past_flips@.last().1,
    )
}

/// State of the Thompson-sampling policy.
pub struct ThompsonAlgoState {
    /// Every flip this policy made: chosen arm and outcome, in order.
    pub past_flips: Vec<(usize, bool)>,
    /// Beta posterior shape parameters `(a, b)` per arm. The distribution
    /// object itself is derived from these on every draw, so it can never
    /// go stale, and both parameters stay at least 1.
    pub arm_results: Vec<(u32, u32)>,
}

impl ThompsonAlgoState {
    /// The posterior parameters agree exactly with the recorded history:
    /// each arm's `(a, b)` is the uniform prior plus its success and
    /// failure counts.
    pub open spec fn wf(&self) -> bool {
        &&& self.arm_results@.len() >= 1
        &&& arms_below(self.past_flips@, self.arm_results@.len() as int)
        &&& forall|a: int|
            0 <= a < self.arm_results@.len() ==> (#[trigger] self.arm_results@[a]).0 == 1
                + succ_on(self.past_flips@, a) && self.arm_results@[a].1 == 1 + fail_on(
                self.past_flips@,
                a,
            )
    }

    /// Both shape parameters of every arm are positive, so constructing
    /// the arm's Beta distribution can never fail.
    pub proof fn lemma_shape_positive(&self)
        requires
            self.wf(),
        ensures
            forall|a: int|
                0 <= a < self.arm_results@.len() ==> (#[trigger] self.arm_results@[a]).0 >= 1
                    && self.arm_results@[a].1 >= 1,
    {
    }

    /// A fresh policy over `num_arms` arms, every posterior at the uniform
    /// prior `(1, 1)`.
    pub fn new(num_arms: usize) -> (r: ThompsonAlgoState)
        requires
            num_arms >= 1,
        ensures
            r.wf(),
            r.arm_results@.len() == num_arms,
            r.past_flips@.len() == 0,
            forall|a: int| 0 <= a < num_arms ==> r.arm_results@[a] == (1u32, 1u32),
    {
        ThompsonAlgoState { past_flips: Vec::new(), arm_results: fill_pairs(num_arms, (1, 1)) }
    }

    /// Flips `arm` once, recording the outcome in the history and moving
    /// the arm's posterior to `(a + 1, b)` on success and `(a, b + 1)` on
    /// failure.
    pub fn flip(&mut self, rng: &mut StdRng, arms: &ArmSet, arm: usize)
        requires
            old(self).wf(),
            arm < old(self).arm_results@.len(),
            arms.num_arms() == old(self).arm_results@.len(),
            old(self).past_flips@.len() + 2 <= u32::MAX,
        ensures
            final(self).wf(),
            final(self).arm_results@.len() == old(self).arm_results@.len(),
            final(self).past_flips@ == old(self).past_flips@.push(
                (arm, final(self).past_flips@.last().1),
            ),
            final(self).past_flips@.last().0 == arm,
            final(self).arm_results@ == stats_after(
                old(self).arm_results@,
                arm as int,
                final(self).past_flips@.last().1,
            ),
    {
        let result = arms.flip(arm, rng);
        proof {
            lemma_counts_bounded(self.past_flips@, arm as int);
        }
        let (a, b) = self.arm_results[arm];
        if result {
            self.arm_results.set(arm, (a + 1, b));
        } else {
            self.arm_results.set(arm, (a, b + 1));
        }
        self.past_flips.push((arm, result));
        proof {
            let h0 = old(self).past_flips@;
            assert forall|a: int|
                0 <= a < self.arm_results@.len() implies (#[trigger] self.arm_results@[a]).0 == 1
                + succ_on(self.past_flips@, a) && self.arm_results@[a].1 == 1 + fail_on(
                self.past_flips@,
                a,
            ) by {
                lemma_counts_push(h0, (arm, result), a);
            }
        }
    }

    /// One step of the policy. The pick is the arm whose single draw from
    /// its current `Beta(a, b)` posterior was the highest, computed by the
    /// caller over the exposed parameters; this records the flip and
    /// updates that arm's posterior.
    pub fn choose_flip(&mut self, rng: &mut StdRng, arms: &ArmSet, pick: usize)
        requires
            old(self).wf(),
            pick < old(self).arm_results@.len(),
            arms.num_arms() == old(self).arm_results@.len(),
            old(self).past_flips@.len() + 2 <= u32::MAX,
        ensures
            thompson_step(*old(self), *final(self), pick as int),
    {
        self.flip(rng, arms, pick);
    }

    /// The policy's display name and a copy of its full history.
    pub fn to_dump(&self) -> (r: (String, Vec<(usize, bool)>))
        ensures
            r.0@ == "Thompson Strategy"@,
            r.1@ == self.past_flips@,
    {
        (String::from_str("Thompson Strategy"), clone_history(&self.past_flips))
    }
}

/// After observing `k` successes and `m` failures on an arm, the arm's
/// posterior is exactly `(1 + k, 1 + m)` — and the counts, hence the
/// posterior, depend only on the multiset of recorded flips, not on their
/// order.
pub proof fn lemma_posterior_exact(s: ThompsonAlgoState, arm: usize)
    requires
        s.wf(),
        arm < s.arm_results@.len(),
    ensures
        s.arm_results@[arm as int].0 == 1 + s.past_flips@.to_multiset().count((arm, true)),
        s.arm_results@[arm as int].1 == 1 + s.past_flips@.to_multiset().count((arm, false)),
{
    lemma_succ_fail_multiset(s.past_flips@, arm);
}

/// The success and failure counts of an arm equal the multiset counts of
/// the corresponding flips, so any reordering of a history leaves them
/// unchanged.
pub proof fn lemma_succ_fail_multiset(h: Seq<(usize, bool)>, arm: usize)
    ensures
        succ_on(h, arm as int) == h.to_multiset().count((arm, true)),
        fail_on(h, arm as int) == h.to_multiset().count((arm, false)),
    decreases h.len(),
{
    broadcast use vstd::seq_lib::group_to_multiset_ensures;

    if h.len() == 0 {
        assert(h.to_multiset() =~= Multiset::<(usize, bool)>::empty());
    } else {
        lemma_succ_fail_multiset(h.drop_last(), arm);
        assert(h.drop_last().push(h.last()) =~= h);
    }
}

} // verus!
