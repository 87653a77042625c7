use timer_overhead::harness::{times_for_strategy, try_collect_measurements, try_summarize};
use timer_overhead::strategies::Strategy;

fn all_strategies() -> Vec<Strategy> {
    vec![
        Strategy::Baseline,
        Strategy::WallClockDiscard,
        Strategy::WallClockAccum,
    ]
}

#[test]
fn end_to_end_five_samples_three_strategies() {
    // samples=5, n=1000, m=10: one row per strategy per sample, and the
    // sink accumulates 5 * 3 * 1000 * 45.
    let strategies = all_strategies();
    let (rows, sink) = try_collect_measurements(&strategies, 5, 1000, 10).unwrap();
    assert_eq!(rows.len(), 15);
    for (k, row) in rows.iter().enumerate() {
        assert_eq!(row.samples, 5);
        assert_eq!(row.iterations, 1000);
        assert_eq!(row.vec_len, 10);
        assert_eq!(row.strategy, strategies[k % 3]);
    }
    assert_eq!(sink, 5 * 3 * 1000 * 45);
}

#[test]
fn zero_iterations_is_rejected() {
    assert!(try_collect_measurements(&all_strategies(), 5, 0, 10).is_none());
}

#[test]
fn an_overflowing_sink_is_rejected() {
    // 1 * usize::MAX * (2 * 3) cannot fit in a machine word.
    assert!(try_collect_measurements(&all_strategies(), usize::MAX, 2, 3).is_none());
}

#[test]
fn empty_strategy_list_yields_no_rows() {
    let strategies: Vec<Strategy> = Vec::new();
    let (rows, sink) = try_collect_measurements(&strategies, 5, 1000, 10).unwrap();
    assert!(rows.is_empty());
    assert_eq!(sink, 0);
}

#[test]
fn times_are_grouped_by_strategy() {
    let strategies = all_strategies();
    let (rows, _sink) = try_collect_measurements(&strategies, 4, 10, 5).unwrap();
    for s in &strategies {
        let times = times_for_strategy(&rows, *s);
        assert_eq!(times.len(), 4);
    }
    let expected: Vec<u128> = rows
        .iter()
        .filter(|row| row.strategy == Strategy::Baseline)
        .map(|row| row.per_iteration_nanos)
        .collect();
    assert_eq!(times_for_strategy(&rows, Strategy::Baseline), expected);
}

#[test]
fn summarize_sorts_and_aggregates() {
    let mut times: Vec<u128> = vec![30, 10, 40, 20];
    let stats = try_summarize(&mut times).unwrap();
    assert_eq!(times, vec![10, 20, 30, 40]);
    assert_eq!(stats.average_nanos, 25);
    assert_eq!(stats.median_nanos, 30);
}

#[test]
fn summarize_of_empty_list_is_none() {
    let mut times: Vec<u128> = Vec::new();
    assert!(try_summarize(&mut times).is_none());
}

#[test]
fn summarize_of_overflowing_sum_is_none() {
    let mut times: Vec<u128> = vec![u128::MAX, 1];
    assert!(try_summarize(&mut times).is_none());
    // The list is left as it was.
    assert_eq!(times, vec![u128::MAX, 1]);
}
