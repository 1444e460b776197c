//! Per-step statistical snapshots, rebuilt from recorded histories.
//!
//! `RenderState` accumulates, step by step, exactly the counters each
//! policy (and the best player) held online: per-arm pull counts, total
//! successes and failures, the Thompson posterior parameters and the UCB
//! per-arm counts. `replay` folds whole histories into one snapshot per
//! step; a snapshot is a pure function of the history prefix, so replaying
//! the same record always rebuilds the same sequence. The real-valued
//! presentation derived from a snapshot (bar geometry, density curves,
//! confidence intervals) needs floating point and is left to the consumer.

use crate::counts::{
    fail_on, fail_total, lemma_counts_bounded, lemma_counts_push, pulls_on, succ_on, succ_total,
};
use crate::naive::NaiveAlgoState;
use crate::replay::{FilteredData, ReplayError, REPLAY_ARMS};
use crate::thompson::ThompsonAlgoState;
use crate::ucb::UcbAlgoState;
use vstd::prelude::*;

verus! {

/// The history prefix a snapshot at `steps` has absorbed: the first
/// `steps` flips, or the whole history once it is shorter.
pub open spec fn prefix_of(h: Seq<(usize, bool)>, steps: int) -> Seq<(usize, bool)> {
    if steps <= h.len() {
        h.take(steps)
    } else {
        h
    }
}

/// Counters every strategy shares: pulls per arm and total successes and
/// failures.
pub struct GeneralState {
    /// Pulls per arm.
    pub count: Vec<usize>,
    /// Total successful flips.
    pub successes: usize,
    /// Total failed flips.
    pub failures: usize,
}

impl GeneralState {
    /// The counters are exactly those of the given history.
    pub open spec fn matches_history(&self, h: Seq<(usize, bool)>) -> bool {
        &&& self.count@.len() == REPLAY_ARMS
        &&& forall|a: int| 0 <= a < REPLAY_ARMS ==> #[trigger] self.count@[a] == pulls_on(h, a)
        &&& self.successes == succ_total(h)
        &&& self.failures == fail_total(h)
    }

    /// Zeroed counters: the state before any flip.
    pub fn new() -> (r: GeneralState)
        ensures
            r.matches_history(Seq::empty()),
    {
        let mut count: Vec<usize> = Vec::new();
        count.push(0);
        count.push(0);
        count.push(0);
        GeneralState { count, successes: 0, failures: 0 }
    }

    /// Absorbs one flip.
    fn apply(&mut self, coin: usize, res: bool)
        requires
            old(self).count@.len() == REPLAY_ARMS,
            coin < REPLAY_ARMS,
            old(self).count@[coin as int] < usize::MAX,
            old(self).successes < usize::MAX,
            old(self).failures < usize::MAX,
        ensures
            final(self).count@ == old(self).count@.update(
                coin as int,
                (old(self).count@[coin as int] + 1) as usize,
            ),
            final(self).successes == old(self).successes + (if res {
                1int
            } else {
                0int
            }),
            final(self).failures == old(self).failures + (if res {
                0int
            } else {
                1int
            }),
    {
        let c = self.count[coin];
        self.count.set(coin, c + 1);
        if res {
            self.successes = self.successes + 1;
        } else {
            self.failures = self.failures + 1;
        }
    }
}

/// The Thompson posterior shape parameters per arm.
pub struct ThompsonBetaState {
    /// First Beta shape parameter per arm: one plus the arm's successes.
    pub a: Vec<usize>,
    /// Second Beta shape parameter per arm: one plus the arm's failures.
    pub b: Vec<usize>,
}

impl ThompsonBetaState {
    /// The parameters are exactly the uniform prior plus the history's
    /// counts.
    pub open spec fn matches_history(&self, h: Seq<(usize, bool)>) -> bool {
        &&& self.a@.len() == REPLAY_ARMS
        &&& self.b@.len() == REPLAY_ARMS
        &&& forall|arm: int|
            0 <= arm < REPLAY_ARMS ==> #[trigger] self.a@[arm] == 1 + succ_on(h, arm)
                && self.b@[arm] == 1 + fail_on(h, arm)
    }

    /// The uniform prior `(1, 1)` on every arm.
    pub fn new() -> (r: ThompsonBetaState)
        ensures
            r.matches_history(Seq::empty()),
    {
        let mut a: Vec<usize> = Vec::new();
        a.push(1);
        a.push(1);
        a.push(1);
        let mut b: Vec<usize> = Vec::new();
        b.push(1);
        b.push(1);
        b.push(1);
        ThompsonBetaState { a, b }
    }

    /// Absorbs one flip.
    fn apply(&mut self, coin: usize, res: bool)
        requires
            old(self).a@.len() == REPLAY_ARMS,
            old(self).b@.len() == REPLAY_ARMS,
            coin < REPLAY_ARMS,
            old(self).a@[coin as int] < usize::MAX,
            old(self).b@[coin as int] < usize::MAX,
        ensures
            final(self).a@ == (if res {
                old(self).a@.update(coin as int, (old(self).a@[coin as int] + 1) as usize)
            } else {
                old(self).a@
            }),
            final(self).b@ == (if res {
                old(self).b@
            } else {
                old(self).b@.update(coin as int, (old(self).b@[coin as int] + 1) as usize)
            }),
    {
        if res {
            let v = self.a[coin];
            self.a.set(coin, v + 1);
        } else {
            let v = self.b[coin];
            self.b.set(coin, v + 1);
        }
    }
}

/// The UCB per-arm counts and the running total.
pub struct UcbCountState {
    /// Successes and failures per arm.
    pub past: Vec<(usize, usize)>,
    /// Total flips so far.
    pub total_flips: usize,
}

impl UcbCountState {
    /// The counters are exactly those of the given history.
    pub open spec fn matches_history(&self, h: Seq<(usize, bool)>) -> bool {
        &&& self.past@.len() == REPLAY_ARMS
        &&& forall|arm: int|
            0 <= arm < REPLAY_ARMS ==> (#[trigger] self.past@[arm]).0 == succ_on(h, arm)
                && self.past@[arm].1 == fail_on(h, arm)
        &&& self.total_flips == h.len()
    }

    /// Zeroed counters.
    pub fn new() -> (r: UcbCountState)
        ensures
            r.matches_history(Seq::empty()),
    {
        let mut past: Vec<(usize, usize)> = Vec::new();
        past.push((0, 0));
        past.push((0, 0));
        past.push((0, 0));
        UcbCountState { past, total_flips: 0 }
    }

    /// Absorbs one flip.
    fn apply(&mut self, coin: usize, res: bool)
        requires
            old(self).past@.len() == REPLAY_ARMS,
            coin < REPLAY_ARMS,
            old(self).past@[coin as int].0 < usize::MAX,
            old(self).past@[coin as int].1 < usize::MAX,
            old(self).total_flips < usize::MAX,
        ensures
            final(self).past@ == old(self).past@.update(
                coin as int,
                (if res {
                    ((old(self).past@[coin as int].0 + 1) as usize, old(self).past@[coin as int].1)
                } else {
                    (old(self).past@[coin as int].0, (old(self).past@[coin as int].1 + 1) as usize)
                }),
            ),
            final(self).total_flips == old(self).total_flips + 1,
    {
        let (h, t) = self.past[coin];
        if res {
            self.past.set(coin, (h + 1, t));
        } else {
            self.past.set(coin, (h, t + 1));
        }
        self.total_flips = self.total_flips + 1;
    }
}

/// One full statistical snapshot: what every strategy and the best player
/// held after a given number of steps.
pub struct RenderState {
    /// Shared counters of the Thompson-sampling policy.
    pub thompson: GeneralState,
    /// The Thompson posterior parameters.
    pub thompson_beta: ThompsonBetaState,
    /// Shared counters of the UCB policy.
    pub ucb: GeneralState,
    /// The UCB per-arm counts and total.
    pub ucb_counts: UcbCountState,
    /// Shared counters of the explore-then-commit policy.
    pub naive: GeneralState,
    /// Shared counters of the best player.
    pub player: GeneralState,
}

/// The snapshot is exactly the statistical state after the first `steps`
/// flips of every history (shorter histories contribute wholly and then
/// persist unchanged).
pub open spec fn state_matches(s: RenderState, d: FilteredData, steps: int) -> bool {
    &&& s.thompson.matches_history(prefix_of(d.thompson@, steps))
    &&& s.thompson_beta.matches_history(prefix_of(d.thompson@, steps))
    &&& s.naive.matches_history(prefix_of(d.naive@, steps))
    &&& s.ucb.matches_history(prefix_of(d.ucb@, steps))
    &&& s.ucb_counts.matches_history(prefix_of(d.ucb@, steps))
    &&& s.player.matches_history(prefix_of(d.best_player@, steps))
}

/// The snapshot of the initial state: zero counts everywhere and the
/// uniform prior `(1, 1)` on every Thompson arm.
pub open spec fn initial_snapshot(s: RenderState) -> bool {
    &&& s.thompson.matches_history(Seq::empty())
    &&& s.thompson_beta.matches_history(Seq::empty())
    &&& s.naive.matches_history(Seq::empty())
    &&& s.ucb.matches_history(Seq::empty())
    &&& s.ucb_counts.matches_history(Seq::empty())
    &&& s.player.matches_history(Seq::empty())
}

/// Two snapshots hold the same statistics.
pub open spec fn same_snapshot(x: RenderState, y: RenderState) -> bool {
    &&& x.thompson.count@ == y.thompson.count@
    &&& x.thompson.successes == y.thompson.successes
    &&& x.thompson.failures == y.thompson.failures
    &&& x.thompson_beta.a@ == y.thompson_beta.a@
    &&& x.thompson_beta.b@ == y.thompson_beta.b@
    &&& x.ucb.count@ == y.ucb.count@
    &&& x.ucb.successes == y.ucb.successes
    &&& x.ucb.failures == y.ucb.failures
    &&& x.ucb_counts.past@ == y.ucb_counts.past@
    &&& x.ucb_counts.total_flips == y.ucb_counts.total_flips
    &&& x.naive.count@ == y.naive.count@
    &&& x.naive.successes == y.naive.successes
    &&& x.naive.failures == y.naive.failures
    &&& x.player.count@ == y.player.count@
    &&& x.player.successes == y.player.successes
    &&& x.player.failures == y.player.failures
}

impl RenderState {
    /// The initial snapshot, before any flip.
    pub fn new() -> (r: RenderState)
        ensures
            initial_snapshot(r),
    {
        RenderState {
            thompson: GeneralState::new(),
            thompson_beta: ThompsonBetaState::new(),
            ucb: GeneralState::new(),
            ucb_counts: UcbCountState::new(),
            naive: GeneralState::new(),
            player: GeneralState::new(),
        }
    }

    /// Absorbs step `index` of every history: each strategy whose history
    /// reaches that far contributes its one flip, the others persist
    /// unchanged.
    pub fn update(&mut self, data: &FilteredData, index: usize)
        requires
            data.valid(),
            data.bounded(),
            state_matches(*old(self), *data, index as int),
        ensures
            state_matches(*final(self), *data, index + 1),
    {
        if index < data.thompson.len() {
            let (coin, res) = data.thompson[index];
            proof {
                lemma_absorb(data.thompson@, index as int, coin, res);
                lemma_counts_bounded(prefix_of(data.thompson@, index as int), coin as int);
            }
            proof {
                assert(prefix_of(data.thompson@, index as int).len() == index);
                assert(old(self).thompson_beta.a@[coin as int] == 1 + succ_on(
                    prefix_of(data.thompson@, index as int),
                    coin as int,
                ));
                assert(old(self).thompson_beta.b@[coin as int] == 1 + fail_on(
                    prefix_of(data.thompson@, index as int),
                    coin as int,
                ));
            }
            self.thompson.apply(coin, res);
            self.thompson_beta.apply(coin, res);
            proof {
                lemma_apply_matches(
                    old(self).thompson,
                    self.thompson,
                    prefix_of(data.thompson@, index as int),
                    coin,
                    res,
                );
                lemma_beta_apply_matches(
                    old(self).thompson_beta,
                    self.thompson_beta,
                    prefix_of(data.thompson@, index as int),
                    coin,
                    res,
                );
            }
        } else {
            proof {
                lemma_keep(data.thompson@, index as int);
            }
        }
        if index < data.naive.len() {
            let (coin, res) = data.naive[index];
            proof {
                lemma_absorb(data.naive@, index as int, coin, res);
                lemma_counts_bounded(prefix_of(data.naive@, index as int), coin as int);
            }
            self.naive.apply(coin, res);
            proof {
                lemma_apply_matches(
                    old(self).naive,
                    self.naive,
                    prefix_of(data.naive@, index as int),
                    coin,
                    res,
                );
            }
        } else {
            proof {
                lemma_keep(data.naive@, index as int);
            }
        }
        if index < data.ucb.len() {
            let (coin, res) = data.ucb[index];
            proof {
                lemma_absorb(data.ucb@, index as int, coin, res);
                lemma_counts_bounded(prefix_of(data.ucb@, index as int), coin as int);
            }
            proof {
                assert(prefix_of(data.ucb@, index as int).len() == index);
            }
            self.ucb.apply(coin, res);
            self.ucb_counts.apply(coin, res);
            proof {
                lemma_apply_matches(
                    old(self).ucb,
                    self.ucb,
                    prefix_of(data.ucb@, index as int),
                    coin,
                    res,
                );
                lemma_ucb_apply_matches(
                    old(self).ucb_counts,
                    self.ucb_counts,
                    prefix_of(data.ucb@, index as int),
                    coin,
                    res,
                );
            }
        } else {
            proof {
                lemma_keep(data.ucb@, index as int);
            }
        }
        if index < data.best_player.len() {
            let (coin, res) = data.best_player[index];
            proof {
                lemma_absorb(data.best_player@, index as int, coin, res);
                lemma_counts_bounded(prefix_of(data.best_player@, index as int), coin as int);
            }
            self.player.apply(coin, res);
            proof {
                lemma_apply_matches(
                    old(self).player,
                    self.player,
                    prefix_of(data.best_player@, index as int),
                    coin,
                    res,
                );
            }
        } else {
            proof {
                lemma_keep(data.best_player@, index as int);
            }
        }
    }
}

/// An element-for-element copy of a counter vector.
fn clone_usizes(v: &Vec<usize>) -> (r: Vec<usize>)
    ensures
        r@ == v@,
{
    let mut r: Vec<usize> = Vec::new();
    let mut i: usize = 0;
    while i < v.len()
        invariant
            i <= v@.len(),
            r@ == v@.take(i as int),
        decreases v@.len() - i,
    {
        r.push(v[i]);
        proof {
            assert(v@.take(i + 1) =~= v@.take(i as int).push(v@[i as int]));
        }
        i = i + 1;
    }
    proof {
        assert(v@.take(v@.len() as int) =~= v@);
    }
    r
}

/// An element-for-element copy of a pair-counter vector.
fn clone_pairs(v: &Vec<(usize, usize)>) -> (r: Vec<(usize, usize)>)
    ensures
        r@ == v@,
{
    let mut r: Vec<(usize, usize)> = Vec::new();
    let mut i: usize = 0;
    while i < v.len()
        invariant
            i <= v@.len(),
            r@ == v@.take(i as int),
        decreases v@.len() - i,
    {
        r.push(v[i]);
        proof {
            assert(v@.take(i + 1) =~= v@.take(i as int).push(v@[i as int]));
        }
        i = i + 1;
    }
    proof {
        assert(v@.take(v@.len() as int) =~= v@);
    }
    r
}

impl GeneralState {
    /// A copy holding the same statistics.
    fn snapshot(&self) -> (r: GeneralState)
        ensures
            r.count@ == self.count@,
            r.successes == self.successes,
            r.failures == self.failures,
    {
        GeneralState {
            count: clone_usizes(&self.count),
            successes: self.successes,
            failures: self.failures,
        }
    }
}

impl RenderState {
    /// A copy holding the same statistics.
    pub fn snapshot(&self) -> (r: RenderState)
        ensures
            same_snapshot(r, *self),
    {
        RenderState {
            thompson: self.thompson.snapshot(),
            thompson_beta: ThompsonBetaState {
                a: clone_usizes(&self.thompson_beta.a),
                b: clone_usizes(&self.thompson_beta.b),
            },
            ucb: self.ucb.snapshot(),
            ucb_counts: UcbCountState {
                past: clone_pairs(&self.ucb_counts.past),
                total_flips: self.ucb_counts.total_flips,
            },
            naive: self.naive.snapshot(),
            player: self.player.snapshot(),
        }
    }
}

/// Snapshots with the same statistics match the same prefixes.
pub proof fn lemma_same_matches(x: RenderState, y: RenderState, d: FilteredData, steps: int)
    requires
        same_snapshot(x, y),
        state_matches(y, d, steps),
    ensures
        state_matches(x, d, steps),
{
}

/// Replays the filtered histories front to back, materializing one
/// snapshot per step: snapshot `i` holds the statistics after the first
/// `i + 1` flips of every history, and the final snapshot — one past the
/// longest history — equals the state at its end. A zero-length record
/// yields exactly one snapshot, the initial state. A history naming an arm
/// outside the fixed arm set fails the whole replay, and nothing else
/// does.
pub fn replay(data: &FilteredData) -> (r: Result<Vec<RenderState>, ReplayError>)
    requires
        data.bounded(),
    ensures
        r is Ok <==> data.valid(),
        r matches Ok(v) ==> v@.len() == data.spec_max_len() + 1 && forall|i: int|
            0 <= i < v@.len() ==> state_matches(#[trigger] v@[i], *data, i + 1),
{
    if !data.validate() {
        return Err(ReplayError::CorruptHistory);
    }
    let total = data.max_len();
    let mut state = RenderState::new();
    let mut out: Vec<RenderState> = Vec::new();
    proof {
        assert(prefix_of(data.thompson@, 0) =~= Seq::<(usize, bool)>::empty());
        assert(prefix_of(data.naive@, 0) =~= Seq::<(usize, bool)>::empty());
        assert(prefix_of(data.ucb@, 0) =~= Seq::<(usize, bool)>::empty());
        assert(prefix_of(data.best_player@, 0) =~= Seq::<(usize, bool)>::empty());
    }
    let mut i: usize = 0;
    while i <= total
        invariant
            i <= total + 1,
            total == data.spec_max_len(),
            total + 2 <= usize::MAX,
            data.valid(),
            data.bounded(),
            state_matches(state, *data, i as int),
            out@.len() == i,
            forall|k: int| 0 <= k < i ==> state_matches(#[trigger] out@[k], *data, k + 1),
        decreases total + 1 - i,
    {
        state.update(data, i);
        let snap = state.snapshot();
        proof {
            lemma_same_matches(snap, state, *data, i + 1);
        }
        out.push(snap);
        i = i + 1;
    }
    Ok(out)
}

/// Replay is deterministic: any two snapshot sequences that replay the
/// same record hold, step for step, the same statistics.
pub proof fn lemma_replay_deterministic(
    d: FilteredData,
    v1: Seq<RenderState>,
    v2: Seq<RenderState>,
)
    requires
        v1.len() == d.spec_max_len() + 1,
        v2.len() == d.spec_max_len() + 1,
        forall|i: int| 0 <= i < v1.len() ==> state_matches(#[trigger] v1[i], d, i + 1),
        forall|i: int| 0 <= i < v2.len() ==> state_matches(#[trigger] v2[i], d, i + 1),
    ensures
        forall|i: int| 0 <= i < v1.len() ==> same_snapshot(#[trigger] v1[i], v2[i]),
{
    assert forall|i: int| 0 <= i < v1.len() implies same_snapshot(#[trigger] v1[i], v2[i]) by {
        assert(state_matches(v1[i], d, i + 1));
        assert(state_matches(v2[i], d, i + 1));
        assert(v1[i].thompson.count@ =~= v2[i].thompson.count@);
        assert forall|arm: int| 0 <= arm < REPLAY_ARMS implies #[trigger] v1[i].thompson_beta.b@[arm]
            == v2[i].thompson_beta.b@[arm] by {
            assert(v1[i].thompson_beta.a@[arm] == 1 + succ_on(prefix_of(d.thompson@, i + 1), arm));
            assert(v2[i].thompson_beta.a@[arm] == 1 + succ_on(prefix_of(d.thompson@, i + 1), arm));
        }
        assert(v1[i].thompson_beta.a@ =~= v2[i].thompson_beta.a@);
        assert(v1[i].thompson_beta.b@ =~= v2[i].thompson_beta.b@);
        assert(v1[i].ucb.count@ =~= v2[i].ucb.count@);
        assert(v1[i].ucb_counts.past@ =~= v2[i].ucb_counts.past@);
        assert(v1[i].naive.count@ =~= v2[i].naive.count@);
        assert(v1[i].player.count@ =~= v2[i].player.count@);
    }
}

/// Replaying a zero-length record yields a single snapshot: the initial
/// state, with zero counts and the uniform prior on every arm.
pub proof fn lemma_zero_length_replay(d: FilteredData, v: Seq<RenderState>)
    requires
        d.thompson@.len() == 0,
        d.naive@.len() == 0,
        d.ucb@.len() == 0,
        d.best_player@.len() == 0,
        v.len() == d.spec_max_len() + 1,
        forall|i: int| 0 <= i < v.len() ==> state_matches(#[trigger] v[i], d, i + 1),
    ensures
        v.len() == 1,
        initial_snapshot(v[0]),
{
    assert(state_matches(v[0], d, 1));
    assert(prefix_of(d.thompson@, 1) =~= Seq::<(usize, bool)>::empty());
    assert(prefix_of(d.naive@, 1) =~= Seq::<(usize, bool)>::empty());
    assert(prefix_of(d.ucb@, 1) =~= Seq::<(usize, bool)>::empty());
    assert(prefix_of(d.best_player@, 1) =~= Seq::<(usize, bool)>::empty());
}

/// Replay reproduces the live run: a snapshot that has absorbed each
/// policy's whole recorded history holds exactly the counters the live
/// policy states hold — per-arm pulls, posterior parameters, per-arm UCB
/// counts and the running total.
pub proof fn lemma_replay_matches_online(
    n: NaiveAlgoState,
    u: UcbAlgoState,
    t: ThompsonAlgoState,
    s: RenderState,
    d: FilteredData,
    steps: int,
)
    requires
        n.wf(),
        u.wf(),
        t.wf(),
        n.stats@.len() == REPLAY_ARMS,
        u.arm_results@.len() == REPLAY_ARMS,
        t.arm_results@.len() == REPLAY_ARMS,
        d.naive@ == n.past_flips@,
        d.ucb@ == u.past_flips@,
        d.thompson@ == t.past_flips@,
        steps >= n.past_flips@.len(),
        steps >= u.past_flips@.len(),
        steps >= t.past_flips@.len(),
        state_matches(s, d, steps),
    ensures
        forall|a: int|
            0 <= a < REPLAY_ARMS ==> #[trigger] s.naive.count@[a] == n.stats@[a].0 + n.stats@[a].1,
        s.naive.successes == succ_total(n.past_flips@),
        forall|a: int|
            0 <= a < REPLAY_ARMS ==> #[trigger] s.thompson_beta.a@[a] == t.arm_results@[a].0
                && s.thompson_beta.b@[a] == t.arm_results@[a].1,
        forall|a: int|
            0 <= a < REPLAY_ARMS ==> (#[trigger] s.ucb_counts.past@[a]).0 == u.arm_results@[a].0
                && s.ucb_counts.past@[a].1 == u.arm_results@[a].1,
        s.ucb_counts.total_flips == u.total_flips,
{
    assert(prefix_of(d.naive@, steps) =~= n.past_flips@);
    assert(prefix_of(d.ucb@, steps) =~= u.past_flips@);
    assert(prefix_of(d.thompson@, steps) =~= t.past_flips@);
}

/// Absorbing step `index` of a history extends its prefix by exactly that
/// flip, and each count moves by the flip's contribution.
proof fn lemma_absorb(h: Seq<(usize, bool)>, index: int, coin: usize, res: bool)
    requires
        0 <= index < h.len(),
        h[index] == (coin, res),
    ensures
        prefix_of(h, index + 1) == prefix_of(h, index).push((coin, res)),
        forall|a: int|
            #![trigger succ_on(prefix_of(h, index + 1), a)]
            succ_on(prefix_of(h, index + 1), a) == succ_on(prefix_of(h, index), a) + (
            if coin == a && res {
                1nat
            } else {
                0nat
            }) && fail_on(prefix_of(h, index + 1), a) == fail_on(prefix_of(h, index), a) + (
            if coin == a && !res {
                1nat
            } else {
                0nat
            }),
        succ_total(prefix_of(h, index + 1)) == succ_total(prefix_of(h, index)) + (if res {
            1nat
        } else {
            0nat
        }),
        fail_total(prefix_of(h, index + 1)) == fail_total(prefix_of(h, index)) + (if res {
            0nat
        } else {
            1nat
        }),
        prefix_of(h, index + 1).len() == index + 1,
{
    assert(h.take(index + 1) =~= h.take(index).push(h[index]));
    assert forall|a: int|
        succ_on(prefix_of(h, index + 1), a) == succ_on(prefix_of(h, index), a) + (if coin == a
            && res {
            1nat
        } else {
            0nat
        }) && fail_on(prefix_of(h, index + 1), a) == fail_on(prefix_of(h, index), a) + (if coin
            == a && !res {
            1nat
        } else {
            0nat
        }) by {
        lemma_counts_push(prefix_of(h, index), (coin, res), a);
    }
    // the totals clauses do not depend on the arm; any instance gives them
    lemma_counts_push(prefix_of(h, index), (coin, res), 0);
}

/// Beyond a history's end the prefix no longer moves.
proof fn lemma_keep(h: Seq<(usize, bool)>, index: int)
    requires
        index >= h.len(),
        index >= 0,
    ensures
        prefix_of(h, index + 1) == prefix_of(h, index),
{
    if index == h.len() {
        assert(h.take(index) =~= h);
    }
}

/// A `ThompsonBetaState` that matched a prefix matches the extended prefix
/// after absorbing the new flip.
proof fn lemma_beta_apply_matches(
    pre: ThompsonBetaState,
    post: ThompsonBetaState,
    h: Seq<(usize, bool)>,
    coin: usize,
    res: bool,
)
    requires
        pre.matches_history(h),
        coin < REPLAY_ARMS,
        pre.a@[coin as int] < usize::MAX,
        pre.b@[coin as int] < usize::MAX,
        post.a@ == (if res {
            pre.a@.update(coin as int, (pre.a@[coin as int] + 1) as usize)
        } else {
            pre.a@
        }),
        post.b@ == (if res {
            pre.b@
        } else {
            pre.b@.update(coin as int, (pre.b@[coin as int] + 1) as usize)
        }),
    ensures
        post.matches_history(h.push((coin, res))),
{
    assert forall|arm: int| 0 <= arm < REPLAY_ARMS implies #[trigger] post.a@[arm] == 1 + succ_on(
        h.push((coin, res)),
        arm,
    ) && post.b@[arm] == 1 + fail_on(h.push((coin, res)), arm) by {
        assert(pre.a@[arm] == 1 + succ_on(h, arm));
        assert(pre.b@[arm] == 1 + fail_on(h, arm));
        lemma_counts_push(h, (coin, res), arm);
    }
}

/// A `UcbCountState` that matched a prefix matches the extended prefix
/// after absorbing the new flip.
proof fn lemma_ucb_apply_matches(
    pre: UcbCountState,
    post: UcbCountState,
    h: Seq<(usize, bool)>,
    coin: usize,
    res: bool,
)
    requires
        pre.matches_history(h),
        coin < REPLAY_ARMS,
        pre.past@[coin as int].0 < usize::MAX,
        pre.past@[coin as int].1 < usize::MAX,
        post.past@ == pre.past@.update(
            coin as int,
            (if res {
                ((pre.past@[coin as int].0 + 1) as usize, pre.past@[coin as int].1)
            } else {
                (pre.past@[coin as int].0, (pre.past@[coin as int].1 + 1) as usize)
            }),
        ),
        post.total_flips == pre.total_flips + 1,
    ensures
        post.matches_history(h.push((coin, res))),
{
    assert forall|arm: int| 0 <= arm < REPLAY_ARMS implies (#[trigger] post.past@[arm]).0
        == succ_on(h.push((coin, res)), arm) && post.past@[arm].1 == fail_on(
        h.push((coin, res)),
        arm,
    ) by {
        lemma_counts_push(h, (coin, res), arm);
    }
}

/// A `GeneralState` that matched a prefix matches the extended prefix
/// after absorbing the new flip.
proof fn lemma_apply_matches(
    pre: GeneralState,
    post: GeneralState,
    h: Seq<(usize, bool)>,
    coin: usize,
    res: bool,
)
    requires
        pre.matches_history(h),
        coin < REPLAY_ARMS,
        post.count@ == pre.count@.update(coin as int, (pre.count@[coin as int] + 1) as usize),
        post.successes == pre.successes + (if res {
            1int
        } else {
            0int
        }),
        post.failures == pre.failures + (if res {
            0int
        } else {
            1int
        }),
        pre.count@[coin as int] < usize::MAX,
        pre.successes < usize::MAX,
        pre.failures < usize::MAX,
    ensures
        post.matches_history(h.push((coin, res))),
{
    assert forall|a: int| 0 <= a < REPLAY_ARMS implies #[trigger] post.count@[a] == pulls_on(
        h.push((coin, res)),
        a,
    ) by {
        lemma_counts_push(h, (coin, res), a);
    }
    // the totals clauses do not depend on the arm; any instance gives them
    lemma_counts_push(h, (coin, res), 0);
}

} // verus!
