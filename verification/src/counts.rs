//! Counting functions over recorded flip histories.
//!
//! A history is a sequence of `(arm, outcome)` pairs. Every statistical
//! invariant of the engine — live policy counters as well as replayed
//! snapshots — is stated in terms of these functions, so that the online
//! and the replayed state can be compared directly.

use vstd::prelude::*;

verus! {

/// Number of successful flips of `arm` recorded in `h`.
pub open spec fn succ_on(h: Seq<(usize, bool)>, arm: int) -> nat
    decreases h.len(),
{
    if h.len() == 0 {
        0
    } else {
        succ_on(h.drop_last(), arm) + if h.last().0 == arm && h.last().1 {
            1nat
        } else {
            0nat
        }
    }
}

/// Number of failed flips of `arm` recorded in `h`.
pub open spec fn fail_on(h: Seq<(usize, bool)>, arm: int) -> nat
    decreases h.len(),
{
    if h.len() == 0 {
        0
    } else {
        fail_on(h.drop_last(), arm) + if h.last().0 == arm && !h.last().1 {
            1nat
        } else {
            0nat
        }
    }
}

/// Number of flips of `arm` recorded in `h`, successful or not.
pub open spec fn pulls_on(h: Seq<(usize, bool)>, arm: int) -> nat {
    succ_on(h, arm) + fail_on(h, arm)
}

/// Number of successful flips in `h`, over all arms.
pub open spec fn succ_total(h: Seq<(usize, bool)>) -> nat
    decreases h.len(),
{
    if h.len() == 0 {
        0
    } else {
        succ_total(h.drop_last()) + if h.last().1 {
            1nat
        } else {
            0nat
        }
    }
}

/// Number of failed flips in `h`, over all arms.
pub open spec fn fail_total(h: Seq<(usize, bool)>) -> nat
    decreases h.len(),
{
    if h.len() == 0 {
        0
    } else {
        fail_total(h.drop_last()) + if h.last().1 {
            0nat
        } else {
            1nat
        }
    }
}

/// Every arm recorded in `h` lies below `arms`.
pub open spec fn arms_below(h: Seq<(usize, bool)>, arms: int) -> bool {
    forall|j: int| 0 <= j < h.len() ==> (#[trigger] h[j]).0 < arms
}

/// Appending one flip changes each count by exactly its contribution.
pub proof fn lemma_counts_push(h: Seq<(usize, bool)>, f: (usize, bool), arm: int)
    ensures
        succ_on(h.push(f), arm) == succ_on(h, arm) + if f.0 == arm && f.1 {
            1nat
        } else {
            0nat
        },
        fail_on(h.push(f), arm) == fail_on(h, arm) + if f.0 == arm && !f.1 {
            1nat
        } else {
            0nat
        },
        succ_total(h.push(f)) == succ_total(h) + if f.1 {
            1nat
        } else {
            0nat
        },
        fail_total(h.push(f)) == fail_total(h) + if f.1 {
            0nat
        } else {
            1nat
        },
{
    assert(h.push(f).drop_last() =~= h);
    assert(h.push(f).last() == f);
}

/// The per-arm counter table after one more flip of `arm` with outcome
/// `res`: the first component counts successes, the second failures.
pub open spec fn stats_after(stats: Seq<(u32, u32)>, arm: int, res: bool) -> Seq<(u32, u32)> {
    stats.update(
        arm,
        if res {
            ((stats[arm].0 + 1) as u32, stats[arm].1)
        } else {
            (stats[arm].0, (stats[arm].1 + 1) as u32)
        },
    )
}

/// Success and failure counts on one arm are bounded by the history length.
pub proof fn lemma_counts_bounded(h: Seq<(usize, bool)>, arm: int)
    ensures
        succ_on(h, arm) + fail_on(h, arm) <= h.len(),
        succ_total(h) + fail_total(h) == h.len(),
    decreases h.len(),
{
    if h.len() > 0 {
        lemma_counts_bounded(h.drop_last(), arm);
    }
}

/// A counter table of `n` identical pairs.
pub fn fill_pairs(n: usize, v: (u32, u32)) -> (r: Vec<(u32, u32)>)
    ensures
        r@.len() == n,
        forall|a: int| 0 <= a < n ==> r@[a] == v,
{
    let mut r: Vec<(u32, u32)> = Vec::new();
    let mut i: usize = 0;
    while i < n
        invariant
            i <= n,
            r@.len() == i,
            forall|a: int| 0 <= a < i ==> r@[a] == v,
        decreases n - i,
    {
        r.push(v);
        i = i + 1;
    }
    r
}

/// Counts the successful flips in a history.
pub fn succ_count(h: &Vec<(usize, bool)>) -> (r: usize)
    ensures
        r == succ_total(h@),
{
    let mut r: usize = 0;
    let mut k: usize = 0;
    while k < h.len()
        invariant
            k <= h@.len(),
            r == succ_total(h@.take(k as int)),
            r <= k,
        decreases h@.len() - k,
    {
        proof {
            assert(h@.take(k + 1) =~= h@.take(k as int).push(h@[k as int]));
            lemma_counts_push(h@.take(k as int), h@[k as int], 0);
        }
        if h[k].1 {
            r = r + 1;
        }
        k = k + 1;
    }
    proof {
        assert(h@.take(h@.len() as int) =~= h@);
    }
    r
}

/// An element-for-element copy of a recorded history.
pub fn clone_history(h: &Vec<(usize, bool)>) -> (r: Vec<(usize, bool)>)
    ensures
        r@ == h@,
{
    let mut r: Vec<(usize, bool)> = Vec::new();
    let mut i: usize = 0;
    while i < h.len()
        invariant
            i <= h@.len(),
            r@ == h@.take(i as int),
        decreases h@.len() - i,
    {
        r.push(h[i]);
        proof {
            assert(h@.take(i + 1) =~= h@.take(i as int).push(h@[i as int]));
        }
        i = i + 1;
    }
    proof {
        assert(h@.take(h@.len() as int) =~= h@);
    }
    r
}

} // verus!
