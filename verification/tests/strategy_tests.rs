use timer_overhead::strategies::{
    enabled_strategies, run_baseline, run_strategy, run_wall_clock, run_wall_clock_accum, Strategy,
};

#[test]
fn the_default_strategy_set_runs_baseline_first() {
    assert_eq!(
        enabled_strategies(),
        vec![
            Strategy::Baseline,
            Strategy::WallClockDiscard,
            Strategy::WallClockAccum
        ]
    );
}

#[test]
fn baseline_checksum_is_n_times_triangle() {
    let (_elapsed, checksum) = run_baseline(3, 10);
    assert_eq!(checksum, 3 * 45);
}

#[test]
fn wall_clock_checksum_is_n_times_triangle() {
    let (_elapsed, checksum) = run_wall_clock(4, 10);
    assert_eq!(checksum, 4 * 45);
}

#[test]
fn wall_clock_accum_checksum_is_n_times_triangle() {
    let (_elapsed, checksum) = run_wall_clock_accum(2, 7);
    assert_eq!(checksum, 2 * 21);
}

#[test]
fn every_strategy_returns_the_same_checksum() {
    let strategies = [
        Strategy::Baseline,
        Strategy::WallClockDiscard,
        Strategy::WallClockAccum,
    ];
    for s in strategies {
        let (_elapsed, checksum) = run_strategy(s, 5, 12);
        assert_eq!(checksum, 5 * (12 * 11 / 2));
    }
}

#[test]
fn checksum_with_empty_vector_is_zero() {
    let (_elapsed, checksum) = run_baseline(100, 0);
    assert_eq!(checksum, 0);
}

#[test]
fn strategy_names() {
    assert_eq!(Strategy::Baseline.name(), "baseline");
    assert_eq!(Strategy::WallClockDiscard.name(), "wall_clock");
    assert_eq!(Strategy::WallClockAccum.name(), "wall_clock_acc");
}

#[test]
fn baseline_elapsed_grows_with_the_work() {
    // The elapsed time is monotonically non-decreasing in both `n` and `m`
    // statistically: compare medians over repeated runs of workloads an
    // order of magnitude apart.
    let median = |n: usize, m: usize| -> u128 {
        let mut times: Vec<u128> = (0..9).map(|_| run_baseline(n, m).0).collect();
        times.sort();
        times[times.len() / 2]
    };
    let small = median(50, 20);
    let larger_n = median(5000, 20);
    let larger_m = median(50, 2000);
    assert!(larger_n >= small);
    assert!(larger_m >= small);
}

#[test]
fn instrumented_per_iteration_time_is_at_least_baseline_on_average() {
    // Timer overhead is non-negative: averaged over many samples, each
    // instrumented strategy's per-iteration time is at least the baseline's.
    let n: usize = 2000;
    let m: usize = 10;
    let samples = 30;
    let avg = |f: fn(usize, usize) -> (u128, usize)| -> u128 {
        let total: u128 = (0..samples).map(|_| f(n, m).0 / n as u128).sum();
        total / samples as u128
    };
    let baseline = avg(run_baseline);
    assert!(avg(run_wall_clock) >= baseline);
    assert!(avg(run_wall_clock_accum) >= baseline);
}
