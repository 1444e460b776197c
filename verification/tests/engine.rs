use bandit::arms::{ArmSet, ConfigError};
use bandit::coordinator::{AlgoState, AppState};
use bandit::naive::{select_best_arm, NaiveAlgoState};
use bandit::rng::rng_from_seed;
use bandit::thompson::ThompsonAlgoState;
use bandit::ucb::UcbAlgoState;
use rand_distr::Distribution;

#[test]
fn config_rejects_empty_arm_set() {
    let ratios: Vec<(u32, u32)> = Vec::new();
    match AppState::new(&ratios) {
        Err(ConfigError::EmptyArmSet) => (),
        _ => panic!("an empty arm set must be rejected as such"),
    }
}

#[test]
fn config_rejects_ratio_above_one() {
    let ratios = vec![(1, 2), (3, 2)];
    match AppState::new(&ratios) {
        Err(ConfigError::InvalidProbability) => (),
        _ => panic!("a ratio above one must be rejected as such"),
    }
}

#[test]
fn config_rejects_zero_denominator() {
    let ratios = vec![(0, 0)];
    match AppState::new(&ratios) {
        Err(ConfigError::InvalidProbability) => (),
        _ => panic!("a zero denominator must be rejected as such"),
    }
}

#[test]
fn config_accepts_valid_ratios() {
    let ratios = vec![(1, 2), (3, 5), (2, 5)];
    let state = AppState::new(&ratios).expect("valid ratios must be accepted");
    assert_eq!(state.algorithm_state.arms.arm_count(), 3);
}

#[test]
fn sure_coins_flip_as_configured() {
    let mut rng = rng_from_seed(7);
    let arms = ArmSet::new(&vec![(1, 1), (0, 5)]).unwrap();
    for _ in 0..50 {
        assert!(arms.flip(0, &mut rng), "a probability-one coin always succeeds");
        assert!(!arms.flip(1, &mut rng), "a probability-zero coin never succeeds");
    }
}

#[test]
fn out_of_range_arm_never_succeeds() {
    let mut rng = rng_from_seed(7);
    let arms = ArmSet::new(&vec![(1, 1), (1, 1)]).unwrap();
    for _ in 0..20 {
        assert!(!arms.flip(2, &mut rng));
        assert!(!arms.flip(usize::MAX, &mut rng));
    }
}

#[test]
fn select_best_arm_prefers_highest_ratio() {
    // proportions 1/4, 2/4 and 2/4: the first arm holding the maximum wins
    let stats = vec![(1, 3), (2, 2), (2, 2)];
    assert_eq!(select_best_arm(&stats), 1);
}

#[test]
fn select_best_arm_ignores_unpulled_arms() {
    // an arm with no pulls has no proportion and never wins
    let stats = vec![(0, 0), (1, 9), (0, 0)];
    assert_eq!(select_best_arm(&stats), 1);
}

#[test]
fn select_best_arm_all_zero_defaults_to_first() {
    let stats = vec![(0, 0), (0, 0), (0, 0)];
    assert_eq!(select_best_arm(&stats), 0);
    let stats = vec![(0, 5), (0, 7)];
    assert_eq!(select_best_arm(&stats), 0);
}

#[test]
fn select_best_arm_compares_exactly() {
    // 3334/10000 beats 1/3 only because the comparison is exact
    let stats = vec![(1, 2), (3334, 6666)];
    assert_eq!(select_best_arm(&stats), 1);
    let stats = vec![(1, 2), (3333, 6667)];
    assert_eq!(select_best_arm(&stats), 0);
}

#[test]
fn naive_commits_exactly_once_at_window_end() {
    let mut rng = rng_from_seed(11);
    let arms = ArmSet::new(&vec![(1, 2), (3, 5), (2, 5)]).unwrap();
    let mut naive = NaiveAlgoState::new(3, 2);
    // inside the window nothing is committed
    naive.choose_flip(&mut rng, &arms);
    assert_eq!(naive.best_coin, None);
    naive.choose_flip(&mut rng, &arms);
    assert_eq!(naive.best_coin, None);
    // the step whose index equals the window length commits
    naive.choose_flip(&mut rng, &arms);
    let committed = naive.best_coin.expect("the commitment is made at the window's end");
    assert_eq!(naive.past_flips.last().unwrap().0, committed);
    // and it never changes, whatever the later outcomes
    for _ in 0..20 {
        naive.choose_flip(&mut rng, &arms);
        assert_eq!(naive.best_coin, Some(committed));
        assert_eq!(naive.past_flips.last().unwrap().0, committed);
    }
}

#[test]
fn naive_commits_to_perfect_arm() {
    // arm 1 observed two successes out of two, the others nothing: the
    // commitment at the window's end is arm 1, and every later pull hits it
    let mut rng = rng_from_seed(3);
    let arms = ArmSet::new(&vec![(1, 2), (1, 1), (2, 5)]).unwrap();
    let mut naive = NaiveAlgoState::new(3, 2);
    naive.flip(&mut rng, &arms, 1);
    naive.flip(&mut rng, &arms, 1);
    assert_eq!(naive.stats[1], (2, 0));
    naive.choose_flip(&mut rng, &arms);
    assert_eq!(naive.best_coin, Some(1));
    for _ in 0..10 {
        naive.choose_flip(&mut rng, &arms);
        assert_eq!(naive.past_flips.last().unwrap().0, 1);
    }
}

#[test]
fn naive_explores_within_arm_range() {
    let mut rng = rng_from_seed(5);
    let arms = ArmSet::new(&vec![(1, 2); 5]).unwrap();
    let mut naive = NaiveAlgoState::new(5, 30);
    for _ in 0..30 {
        naive.choose_flip(&mut rng, &arms);
        assert!(naive.past_flips.last().unwrap().0 < 5);
    }
}

#[test]
fn ucb_prioritizes_lowest_untried_arm() {
    // arm 1 has five pulls, arms 0 and 2 none: the next choice is arm 0
    let mut rng = rng_from_seed(13);
    let arms = ArmSet::new(&vec![(1, 2), (1, 2), (1, 2)]).unwrap();
    let mut ucb = UcbAlgoState::new(3);
    for _ in 0..5 {
        ucb.flip(&mut rng, &arms, 1);
    }
    assert_eq!(ucb.untried_arm(), Some(0));
    ucb.choose_flip(&mut rng, &arms, 1);
    assert_eq!(ucb.past_flips.last().unwrap().0, 0);
    // now arm 2 is the only untried one, and it dominates the fallback too
    assert_eq!(ucb.untried_arm(), Some(2));
    ucb.choose_flip(&mut rng, &arms, 1);
    assert_eq!(ucb.past_flips.last().unwrap().0, 2);
    // with every arm pulled the caller-evaluated fallback decides
    assert_eq!(ucb.untried_arm(), None);
    ucb.choose_flip(&mut rng, &arms, 2);
    assert_eq!(ucb.past_flips.last().unwrap().0, 2);
}

#[test]
fn ucb_counters_track_history() {
    let mut rng = rng_from_seed(17);
    let arms = ArmSet::new(&vec![(1, 1), (0, 1)]).unwrap();
    let mut ucb = UcbAlgoState::new(2);
    for _ in 0..4 {
        ucb.flip(&mut rng, &arms, 0);
    }
    for _ in 0..3 {
        ucb.flip(&mut rng, &arms, 1);
    }
    assert_eq!(ucb.arm_results[0], (4, 0));
    assert_eq!(ucb.arm_results[1], (0, 3));
    assert_eq!(ucb.total_flips, 7);
    assert_eq!(ucb.past_flips.len(), 7);
}

#[test]
fn thompson_posterior_counts_successes_and_failures() {
    // k successes and m failures on an arm move its posterior to (1+k, 1+m)
    let mut rng = rng_from_seed(19);
    let arms = ArmSet::new(&vec![(1, 1), (0, 1)]).unwrap();
    let mut thompson = ThompsonAlgoState::new(2);
    assert_eq!(thompson.arm_results[0], (1, 1));
    assert_eq!(thompson.arm_results[1], (1, 1));
    for _ in 0..5 {
        thompson.flip(&mut rng, &arms, 0);
    }
    for _ in 0..3 {
        thompson.flip(&mut rng, &arms, 1);
    }
    assert_eq!(thompson.arm_results[0], (6, 1));
    assert_eq!(thompson.arm_results[1], (1, 4));
}

#[test]
fn thompson_posterior_is_order_independent() {
    // the same multiset of flips in two different orders gives the same
    // posterior
    let mut rng = rng_from_seed(23);
    let arms = ArmSet::new(&vec![(1, 1), (0, 1)]).unwrap();
    let mut one = ThompsonAlgoState::new(2);
    let mut other = ThompsonAlgoState::new(2);
    for _ in 0..4 {
        one.flip(&mut rng, &arms, 0);
    }
    for _ in 0..4 {
        one.flip(&mut rng, &arms, 1);
    }
    for _ in 0..4 {
        other.flip(&mut rng, &arms, 1);
        other.flip(&mut rng, &arms, 0);
    }
    assert_eq!(one.arm_results, other.arm_results);
}

#[test]
fn record_player_flip_appends_in_insertion_order() {
    let ratios = vec![(1, 2), (3, 5), (2, 5)];
    let mut state = AppState::new(&ratios).unwrap();
    state.record_player_flip("ada".to_string(), 0, true);
    state.record_player_flip("bob".to_string(), 1, false);
    state.record_player_flip("ada".to_string(), 2, true);
    assert_eq!(state.past.len(), 2);
    assert_eq!(state.past[0].0, "ada");
    assert_eq!(state.past[0].1, vec![(0, true), (2, true)]);
    assert_eq!(state.past[1].0, "bob");
    assert_eq!(state.past[1].1, vec![(1, false)]);
}

#[test]
fn get_count_scores_successes_against_failures() {
    let ratios = vec![(1, 2), (3, 5), (2, 5)];
    let mut state = AppState::new(&ratios).unwrap();
    state.record_player_flip("ada".to_string(), 0, true);
    state.record_player_flip("ada".to_string(), 1, true);
    state.record_player_flip("ada".to_string(), 2, false);
    assert_eq!(state.get_count(&"ada".to_string()), 1);
    assert_eq!(state.get_count(&"nobody".to_string()), 0);
    state.record_player_flip("bob".to_string(), 0, false);
    state.record_player_flip("bob".to_string(), 0, false);
    assert_eq!(state.get_count(&"bob".to_string()), -2);
}

#[test]
fn dump_names_all_three_policies() {
    let ratios = vec![(1, 2), (3, 5), (2, 5)];
    let mut rng = rng_from_seed(29);
    let mut state = AppState::new(&ratios).unwrap();
    state.tick(&mut rng, 0, 0);
    state.record_player_flip("ada".to_string(), 1, true);
    let dump = state.to_dump();
    assert_eq!(dump.algorithms.len(), 3);
    assert_eq!(dump.algorithms[0].0, "Naive Strategy");
    assert_eq!(dump.algorithms[1].0, "UCB Strategy");
    assert_eq!(dump.algorithms[2].0, "Thompson Strategy");
    for (_, history) in &dump.algorithms {
        assert_eq!(history.len(), 1);
    }
    assert_eq!(dump.players, vec![("ada".to_string(), vec![(1, true)])]);
}

#[test]
fn coordinator_with_short_window_commits_early() {
    let mut rng = rng_from_seed(37);
    let arms = ArmSet::new(&vec![(1, 2), (3, 5), (2, 5)]).unwrap();
    let mut algos = AlgoState::with_exploration_trials(arms, 2);
    for _ in 0..3 {
        algos.update(&mut rng, 0, 0);
    }
    let committed = algos.naive.best_coin.expect("committed at the window's end");
    for _ in 0..5 {
        algos.update(&mut rng, 0, 0);
        assert_eq!(algos.naive.best_coin, Some(committed));
        assert_eq!(algos.naive.past_flips.last().unwrap().0, committed);
    }
}

#[test]
fn tick_advances_every_policy_once() {
    let ratios = vec![(1, 2), (3, 5), (2, 5)];
    let mut rng = rng_from_seed(31);
    let mut state = AppState::new(&ratios).unwrap();
    for step in 1..=40 {
        let ucb_fallback = best_ucb_arm(&state.algorithm_state.ucb);
        let thompson_pick = best_thompson_arm(&state.algorithm_state.thompson, &mut rng);
        state.tick(&mut rng, ucb_fallback, thompson_pick);
        assert_eq!(state.algorithm_state.naive.past_flips.len(), step);
        assert_eq!(state.algorithm_state.ucb.past_flips.len(), step);
        assert_eq!(state.algorithm_state.thompson.past_flips.len(), step);
    }
}

/// The real-valued UCB score, evaluated as the live caller would: the
/// observed proportion plus the uncertainty bonus, an undefined score
/// dominating.
fn best_ucb_arm(ucb: &UcbAlgoState) -> usize {
    let total = ucb.total_flips as f64;
    let mut best: usize = 0;
    let mut best_score = f64::NEG_INFINITY;
    for (i, (h, t)) in ucb.arm_results.iter().enumerate() {
        let pulls = (h + t) as f64;
        let score = *h as f64 / pulls + (2.0 * total.log10() / pulls).sqrt();
        if score.is_nan() {
            return i;
        }
        if score > best_score {
            best = i;
            best_score = score;
        }
    }
    best
}

/// One draw from every arm's Beta posterior, as the live caller would make
/// it; the highest draw wins.
fn best_thompson_arm(thompson: &ThompsonAlgoState, rng: &mut rand::rngs::StdRng) -> usize {
    let mut best: usize = 0;
    let mut best_sample = 0.0;
    for (i, (a, b)) in thompson.arm_results.iter().enumerate() {
        let beta = rand_distr::Beta::new(*a as f64, *b as f64).unwrap();
        let sample = beta.sample(rng);
        if sample > best_sample {
            best = i;
            best_sample = sample;
        }
    }
    best
}
