//! A multi-armed-bandit decision engine with a deterministic replay pipeline.
//!
//! Three selection policies (explore-then-commit, upper confidence bound,
//! Thompson sampling) pull biased coins and record every outcome. A replay
//! engine later folds a recorded history back into the exact per-step
//! statistical state each policy held online.

pub mod arms;
pub mod coordinator;
pub mod counts;
pub mod naive;
pub mod render;
pub mod replay;
pub mod rng;
pub mod thompson;
pub mod ucb;
