use bandit::coordinator::{AppState, Dump};
use bandit::render::{replay, RenderState};
use bandit::replay::{FilteredData, ReplayError};
use bandit::rng::rng_from_seed;
use rand_distr::Distribution;

fn sample_dump() -> Dump {
    Dump {
        algorithms: vec![
            ("Naive Strategy".to_string(), vec![(0, true), (1, false)]),
            ("UCB Strategy".to_string(), vec![(2, true)]),
            ("Thompson Strategy".to_string(), vec![(1, true), (1, true), (0, false)]),
        ],
        players: vec![
            ("ada".to_string(), vec![(0, true), (1, false)]),
            ("bob".to_string(), vec![(2, true), (2, true), (0, false)]),
        ],
    }
}

#[test]
fn to_filtered_sorts_histories_by_name() {
    let filtered = sample_dump().to_filtered();
    assert_eq!(filtered.naive, vec![(0, true), (1, false)]);
    assert_eq!(filtered.ucb, vec![(2, true)]);
    assert_eq!(filtered.thompson, vec![(1, true), (1, true), (0, false)]);
}

#[test]
fn to_filtered_ignores_unknown_names_and_keeps_latest() {
    let mut dump = sample_dump();
    dump.algorithms.push(("Some Other Strategy".to_string(), vec![(0, true)]));
    dump.algorithms.push(("UCB Strategy".to_string(), vec![(1, false), (1, false)]));
    let filtered = dump.to_filtered();
    assert_eq!(filtered.ucb, vec![(1, false), (1, false)]);
    assert_eq!(filtered.naive, vec![(0, true), (1, false)]);
}

#[test]
fn to_filtered_selects_best_player_by_proportion() {
    // ada scores 1/2, bob 2/3: bob wins
    let filtered = sample_dump().to_filtered();
    assert_eq!(filtered.best_player_name, "bob");
    assert_eq!(filtered.best_player, vec![(2, true), (2, true), (0, false)]);
}

#[test]
fn to_filtered_best_player_ties_keep_first() {
    let mut dump = sample_dump();
    dump.players = vec![
        ("first".to_string(), vec![(0, true), (1, false)]),
        ("second".to_string(), vec![(1, true), (2, false)]),
    ];
    let filtered = dump.to_filtered();
    assert_eq!(filtered.best_player_name, "first");
}

#[test]
fn to_filtered_skips_players_without_success() {
    let mut dump = sample_dump();
    dump.players = vec![
        ("idle".to_string(), Vec::new()),
        ("luckless".to_string(), vec![(0, false), (1, false)]),
    ];
    let filtered = dump.to_filtered();
    assert_eq!(filtered.best_player_name, "");
    assert_eq!(filtered.best_player, Vec::new());
}

#[test]
fn to_filtered_exact_proportion_comparison() {
    let mut dump = sample_dump();
    // 3334/10000 beats 1/3 only under an exact comparison
    let mut close = Vec::new();
    for i in 0..10000 {
        close.push((0, i < 3334));
    }
    let mut third = Vec::new();
    for i in 0..3 {
        third.push((0, i < 1));
    }
    dump.players = vec![("third".to_string(), third), ("close".to_string(), close)];
    let filtered = dump.to_filtered();
    assert_eq!(filtered.best_player_name, "close");
}

#[test]
fn replay_rejects_corrupt_history() {
    let mut filtered = sample_dump().to_filtered();
    filtered.naive.push((3, true));
    assert!(!filtered.validate());
    match replay(&filtered) {
        Err(ReplayError::CorruptHistory) => (),
        _ => panic!("an out-of-range arm index must fail the whole replay"),
    }
}

#[test]
fn replay_zero_length_history_yields_initial_snapshot() {
    let filtered = FilteredData::new();
    let snapshots = replay(&filtered).unwrap();
    assert_eq!(snapshots.len(), 1);
    let s = &snapshots[0];
    assert_eq!(s.thompson_beta.a, vec![1, 1, 1]);
    assert_eq!(s.thompson_beta.b, vec![1, 1, 1]);
    assert_eq!(s.thompson.count, vec![0, 0, 0]);
    assert_eq!(s.naive.count, vec![0, 0, 0]);
    assert_eq!(s.ucb.count, vec![0, 0, 0]);
    assert_eq!(s.player.count, vec![0, 0, 0]);
    assert_eq!(s.ucb_counts.past, vec![(0, 0), (0, 0), (0, 0)]);
    assert_eq!(s.ucb_counts.total_flips, 0);
    assert_eq!((s.thompson.successes, s.thompson.failures), (0, 0));
    assert_eq!((s.player.successes, s.player.failures), (0, 0));
}

#[test]
fn replay_accumulates_exact_counters() {
    let filtered = sample_dump().to_filtered();
    let snapshots = replay(&filtered).unwrap();
    // the longest history (thompson and the best player) has three steps
    assert_eq!(snapshots.len(), 4);
    // after one step each history contributed its first flip
    let s = &snapshots[0];
    assert_eq!(s.naive.count, vec![1, 0, 0]);
    assert_eq!((s.naive.successes, s.naive.failures), (1, 0));
    assert_eq!(s.thompson.count, vec![0, 1, 0]);
    assert_eq!(s.thompson_beta.a, vec![1, 2, 1]);
    assert_eq!(s.thompson_beta.b, vec![1, 1, 1]);
    assert_eq!(s.ucb_counts.past, vec![(0, 0), (0, 0), (1, 0)]);
    assert_eq!(s.ucb_counts.total_flips, 1);
    assert_eq!(s.player.count, vec![0, 0, 1]);
    // after two steps the shorter UCB history persists unchanged
    let s = &snapshots[1];
    assert_eq!(s.naive.count, vec![1, 1, 0]);
    assert_eq!((s.naive.successes, s.naive.failures), (1, 1));
    assert_eq!(s.ucb_counts.total_flips, 1);
    assert_eq!(s.thompson_beta.a, vec![1, 3, 1]);
    // after three steps only the longest histories moved again
    let s = &snapshots[2];
    assert_eq!(s.naive.count, vec![1, 1, 0]);
    assert_eq!(s.thompson_beta.a, vec![1, 3, 1]);
    assert_eq!(s.thompson_beta.b, vec![2, 1, 1]);
    assert_eq!(s.player.count, vec![1, 0, 2]);
    assert_eq!((s.player.successes, s.player.failures), (2, 1));
    // the final snapshot repeats the end state
    assert_eq!(snapshots[3].thompson_beta.a, snapshots[2].thompson_beta.a);
    assert_eq!(snapshots[3].player.count, snapshots[2].player.count);
}

fn assert_same_snapshot(x: &RenderState, y: &RenderState) {
    assert_eq!(x.thompson.count, y.thompson.count);
    assert_eq!(x.thompson.successes, y.thompson.successes);
    assert_eq!(x.thompson.failures, y.thompson.failures);
    assert_eq!(x.thompson_beta.a, y.thompson_beta.a);
    assert_eq!(x.thompson_beta.b, y.thompson_beta.b);
    assert_eq!(x.ucb.count, y.ucb.count);
    assert_eq!(x.ucb.successes, y.ucb.successes);
    assert_eq!(x.ucb.failures, y.ucb.failures);
    assert_eq!(x.ucb_counts.past, y.ucb_counts.past);
    assert_eq!(x.ucb_counts.total_flips, y.ucb_counts.total_flips);
    assert_eq!(x.naive.count, y.naive.count);
    assert_eq!(x.naive.successes, y.naive.successes);
    assert_eq!(x.naive.failures, y.naive.failures);
    assert_eq!(x.player.count, y.player.count);
    assert_eq!(x.player.successes, y.player.successes);
    assert_eq!(x.player.failures, y.player.failures);
}

#[test]
fn replay_is_deterministic() {
    let filtered = sample_dump().to_filtered();
    let once = replay(&filtered).unwrap();
    let twice = replay(&filtered).unwrap();
    assert_eq!(once.len(), twice.len());
    for (x, y) in once.iter().zip(twice.iter()) {
        assert_same_snapshot(x, y);
    }
}

#[test]
fn replay_reproduces_live_run() {
    // a live run of fixed seed and fixed arm probabilities, replayed from
    // its own dump, yields the exact per-step counters the coordinator held
    let ratios = vec![(1, 2), (3, 5), (2, 5)];
    let mut rng = rng_from_seed(2026);
    let mut state = AppState::new(&ratios).unwrap();
    let steps = 50;
    let mut live: Vec<(Vec<(usize, usize)>, usize, Vec<(usize, usize)>, Vec<(usize, usize)>)> =
        Vec::new();
    for _ in 0..steps {
        let ucb_fallback = best_ucb_arm_of(&state.algorithm_state.ucb.arm_results,
            state.algorithm_state.ucb.total_flips);
        let thompson_pick =
            best_thompson_arm_of(&state.algorithm_state.thompson.arm_results, &mut rng);
        state.tick(&mut rng, ucb_fallback, thompson_pick);
        live.push((
            to_usize_pairs(&state.algorithm_state.naive.stats),
            state.algorithm_state.ucb.total_flips as usize,
            to_usize_pairs(&state.algorithm_state.ucb.arm_results),
            to_usize_pairs(&state.algorithm_state.thompson.arm_results),
        ));
    }
    let filtered = state.to_dump().to_filtered();
    let snapshots = replay(&filtered).unwrap();
    assert_eq!(snapshots.len(), steps + 1);
    for i in 0..steps {
        let s = &snapshots[i];
        let (naive_stats, ucb_total, ucb_stats, thompson_params) = &live[i];
        for arm in 0..3 {
            let (h, t) = naive_stats[arm];
            assert_eq!(s.naive.count[arm], h + t);
            assert_eq!(s.ucb_counts.past[arm], ucb_stats[arm]);
            let (a, b) = thompson_params[arm];
            assert_eq!(s.thompson_beta.a[arm], a);
            assert_eq!(s.thompson_beta.b[arm], b);
        }
        assert_eq!(s.ucb_counts.total_flips, *ucb_total);
    }
}

fn to_usize_pairs(v: &Vec<(u32, u32)>) -> Vec<(usize, usize)> {
    v.iter().map(|&(a, b)| (a as usize, b as usize)).collect()
}

fn best_ucb_arm_of(arm_results: &Vec<(u32, u32)>, total_flips: u32) -> usize {
    let total = total_flips as f64;
    let mut best: usize = 0;
    let mut best_score = f64::NEG_INFINITY;
    for (i, (h, t)) in arm_results.iter().enumerate() {
        let pulls = (h + t) as f64;
        let score = *h as f64 / pulls + (2.0 * total.log10() / pulls).sqrt();
        if score.is_nan() {
            return i;
        }
        if score > best_score {
            best = i;
            best_score = score;
        }
    }
    best
}

fn best_thompson_arm_of(arm_results: &Vec<(u32, u32)>, rng: &mut rand::rngs::StdRng) -> usize {
    let mut best: usize = 0;
    let mut best_sample = 0.0;
    for (i, (a, b)) in arm_results.iter().enumerate() {
        let beta = rand_distr::Beta::new(*a as f64, *b as f64).unwrap();
        let sample = beta.sample(rng);
        if sample > best_sample {
            best = i;
            best_sample = sample;
        }
    }
    best
}
