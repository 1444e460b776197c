//! The fixed set of biased coins (Bernoulli arms) that the policies pull.
//!
//! A coin's success probability is configured as a ratio `num / den` of
//! 32-bit integers, so validity is a plain integer condition; the weighted
//! draw itself is done by the `rand` crate.

use rand::distributions::{Bernoulli, Distribution};
use rand::rngs::StdRng;
use vstd::prelude::*;

verus! {

/// A weighted coin of the `rand` crate; opaque here, only sampled.
#[verifier::external_type_specification]
#[verifier::external_body]
pub struct ExBernoulli(Bernoulli);

/// Rejected configuration: an empty arm set, or a ratio that is no
/// probability.
#[derive(Clone, Copy, Debug, PartialEq, Eq, Structural)]
pub enum ConfigError {
    EmptyArmSet,
    InvalidProbability,
}

/// A ratio `num / den` encodes a probability: a positive denominator and a
/// numerator no larger than it.
pub open spec fn valid_ratio(r: (u32, u32)) -> bool {
    r.1 > 0 && r.0 <= r.1
}

/// Relies on rand's Bernoulli::from_ratio: constructing a coin with success
/// chance `num / den` succeeds exactly when `den > 0` and `num <= den`.
#[verifier::external_body]
fn bernoulli_from_ratio(num: u32, den: u32) -> (r: Option<Bernoulli>)
    ensures
        r is Some <==> (den > 0 && num <= den),
{
    Bernoulli::from_ratio(num, den).ok()
}

/// Relies on rand's Distribution::sample for Bernoulli: one weighted coin
/// flip; nothing is promised of the random outcome.
#[verifier::external_body]
fn bernoulli_sample(coin: &Bernoulli, rng: &mut StdRng) -> bool {
    coin.sample(rng)
}

/// The ordered, fixed set of biased coins shared by all policies.
pub struct ArmSet {
    coins: Vec<Bernoulli>,
}

impl ArmSet {
    /// How many arms the set holds.
    pub closed spec fn num_arms(&self) -> nat {
        self.coins@.len()
    }

    /// Builds the arm set from probability ratios, rejecting an empty set
    /// and any ratio that is no probability.
    pub fn new(ratios: &Vec<(u32, u32)>) -> (r: Result<ArmSet, ConfigError>)
        ensures
            r is Ok <==> (ratios@.len() > 0 && forall|i: int|
                0 <= i < ratios@.len() ==> valid_ratio(#[trigger] ratios@[i])),
            r matches Ok(a) ==> a.num_arms() == ratios@.len(),
            r matches Err(e) ==> (e == ConfigError::EmptyArmSet <==> ratios@.len() == 0),
    {
        if ratios.len() == 0 {
            return Err(ConfigError::EmptyArmSet);
        }
        let mut coins: Vec<Bernoulli> = Vec::new();
        let mut i: usize = 0;
        while i < ratios.len()
            invariant
                i <= ratios@.len(),
                coins@.len() == i,
                forall|j: int| 0 <= j < i ==> valid_ratio(#[trigger] ratios@[j]),
            decreases ratios@.len() - i,
        {
            let (num, den) = ratios[i];
            match bernoulli_from_ratio(num, den) {
                Some(coin) => coins.push(coin),
                None => {
                    return Err(ConfigError::InvalidProbability);
                },
            }
            i = i + 1;
        }
        Ok(ArmSet { coins })
    }

    /// How many arms the set holds.
    pub fn arm_count(&self) -> (n: usize)
        ensures
            n == self.num_arms(),
    {
        self.coins.len()
    }

    /// Flips the given coin once. An arm outside the set never succeeds,
    /// mirroring a zero-probability coin.
    pub fn flip(&self, arm: usize, rng: &mut StdRng) -> (r: bool)
        ensures
            arm >= self.num_arms() ==> r == false,
    {
        if arm < self.coins.len() {
            let coin = self.coins[arm];
            bernoulli_sample(&coin, rng)
        } else {
            false
        }
    }
}

} // verus!
