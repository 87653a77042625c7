//! The measurement harness: run every enabled strategy over repeated
//! samples, record one row per run, and aggregate per-strategy statistics.

use vstd::prelude::*;
use crate::stats::{
    average, duration_sum, median_of_sorted, sort_durations, sorted, lemma_duration_sum_take_le,
    lemma_duration_sum_take_step,
};
use crate::strategies::{expected_checksum, run_strategy, Strategy};
use crate::workload::{lemma_range_sum_closed_form, range_sum};
use vstd::arithmetic::div_mod::{lemma_mod_multiples_vanish, lemma_small_mod};

verus! {

/// One row of the report: which strategy ran, the run's parameters, and the
/// elapsed time divided by the iteration count.
#[derive(Clone, Copy, Debug)]
pub struct Measurement {
    pub strategy: Strategy,
    pub samples: usize,
    pub iterations: usize,
    pub vec_len: usize,
    pub per_iteration_nanos: u128,
}

/// What every row of a collected report must satisfy: the run's parameters,
/// and the strategy determined by the row's position (samples are taken in
/// rounds, one run of each enabled strategy per round).
pub open spec fn measurement_matches(
    mm: Measurement,
    strategies: Seq<Strategy>,
    samples: usize,
    n: usize,
    m: usize,
    k: int,
) -> bool {
    &&& mm.samples == samples
    &&& mm.iterations == n
    &&& mm.vec_len == m
    &&& mm.strategy == strategies[k % strategies.len() as int]
}

/// The checksum the whole report accumulates: one `expected_checksum` per
/// run, over `samples` rounds of all enabled strategies.
pub open spec fn expected_sink(strategies: Seq<Strategy>, samples: nat, n: nat, m: nat) -> int {
    strategies.len() * samples * (n as int * range_sum(m))
}

/// For `x, y >= 1` a product is at least each of its factors.
proof fn lemma_mul_lower_bounds(x: int, y: int)
    requires
        x >= 1,
        y >= 1,
    ensures
        x * y >= x,
        x * y >= y,
{
    assert(x * y >= x && x * y >= y) by (nonlinear_arith)
        requires
            x >= 1,
            y >= 1,
    ;
}

/// Counting runs round by round: after `s` full rounds and `j` runs of the
/// next one, one more run still fits under `samples * len` runs in all.
proof fn lemma_run_count(s: int, j: int, samples: int, len: int)
    requires
        0 <= s < samples,
        0 <= j < len,
    ensures
        0 <= s * len + j,
        s * len + j + 1 <= samples * len,
{
    assert(0 <= s * len + j && s * len + j + 1 <= samples * len) by (nonlinear_arith)
        requires
            0 <= s < samples,
            0 <= j < len,
    ;
}

/// A partial sink stays under the full one.
proof fn lemma_partial_sink(c: int, total: int, t: int)
    requires
        0 <= c <= total,
        0 <= t,
    ensures
        c * t <= total * t,
{
    assert(c * t <= total * t) by (nonlinear_arith)
        requires
            0 <= c <= total,
            0 <= t,
    ;
}

/// Run `samples` rounds, one run of every enabled strategy per round, and
/// record one row per run together with the accumulated checksum sink.
pub fn collect_measurements(
    strategies: &Vec<Strategy>,
    samples: usize,
    n: usize,
    m: usize,
) -> (r: (Vec<Measurement>, usize))
    requires
        n >= 1,
        expected_sink(strategies@, samples as nat, n as nat, m as nat) <= usize::MAX,
    ensures
        r.0@.len() == samples * strategies@.len(),
        forall|k: int|
            0 <= k < r.0@.len() ==> measurement_matches(
                #[trigger] r.0@[k],
                strategies@,
                samples,
                n,
                m,
                k,
            ),
        r.1 == expected_sink(strategies@, samples as nat, n as nat, m as nat),
{
    let ghost t = n as int * range_sum(m as nat);
    let ghost len = strategies@.len() as int;
    let mut rows: Vec<Measurement> = Vec::new();
    let mut sink: usize = 0;
    let mut s: usize = 0;
    while s < samples
        invariant
            s <= samples,
            n >= 1,
            t == n as int * range_sum(m as nat),
            len == strategies@.len(),
            samples * len * t <= usize::MAX,
            rows@.len() == s * len,
            sink == s * len * t,
            forall|k: int|
                0 <= k < rows@.len() ==> measurement_matches(
                    #[trigger] rows@[k],
                    strategies@,
                    samples,
                    n,
                    m,
                    k,
                ),
        decreases samples - s,
    {
        let mut j: usize = 0;
        while j < strategies.len()
            invariant
                s < samples,
                j <= strategies@.len(),
                n >= 1,
                t == n as int * range_sum(m as nat),
                len == strategies@.len(),
                samples * len * t <= usize::MAX,
                rows@.len() == s * len + j,
                sink == (s * len + j) * t,
                forall|k: int|
                    0 <= k < rows@.len() ==> measurement_matches(
                        #[trigger] rows@[k],
                        strategies@,
                        samples,
                        n,
                        m,
                        k,
                    ),
            decreases strategies@.len() - j,
        {
            proof {
                lemma_run_count(s as int, j as int, samples as int, len);
                lemma_partial_sink(s * len + j + 1, samples as int * len, t);
                assert((s * len + j + 1) * t == (s * len + j) * t + t) by (nonlinear_arith);
                assert(t <= samples * len * t || t == 0) by (nonlinear_arith)
                    requires
                        1 <= samples * len,
                        0 <= t,
                ;
            }
            let (elapsed, checksum) = run_strategy(strategies[j], n, m);
            let row = Measurement {
                strategy: strategies[j],
                samples,
                iterations: n,
                vec_len: m,
                per_iteration_nanos: elapsed / (n as u128),
            };
            rows.push(row);
            sink = sink + checksum;
            proof {
                lemma_mod_multiples_vanish(s as int, j as int, len);
                lemma_small_mod(j as nat, len as nat);
                assert(len * s + j == s * len + j) by (nonlinear_arith);
                assert(rows@[rows@.len() - 1].strategy == strategies@[(rows@.len() - 1)
                    % len]);
            }
            j = j + 1;
        }
        proof {
            assert((s + 1) * len == s * len + len) by (nonlinear_arith);
        }
        s = s + 1;
    }
    proof {
        assert(samples * len * t == expected_sink(
            strategies@,
            samples as nat,
            n as nat,
            m as nat,
        ));
    }
    (rows, sink)
}

/// Like `collect_measurements`, but checks its own preconditions: it returns
/// `None` exactly when `n` is zero or the full checksum would not fit in a
/// machine word, and never panics.
pub fn try_collect_measurements(
    strategies: &Vec<Strategy>,
    samples: usize,
    n: usize,
    m: usize,
) -> (r: Option<(Vec<Measurement>, usize)>)
    ensures
        r.is_some() <==> (n >= 1 && expected_sink(strategies@, samples as nat, n as nat, m as nat)
            <= usize::MAX),
        r.is_some() ==> {
            &&& r.unwrap().0@.len() == samples * strategies@.len()
            &&& forall|k: int|
                0 <= k < r.unwrap().0@.len() ==> measurement_matches(
                    #[trigger] r.unwrap().0@[k],
                    strategies@,
                    samples,
                    n,
                    m,
                    k,
                )
            &&& r.unwrap().1 == expected_sink(strategies@, samples as nat, n as nat, m as nat)
        },
{
    if n == 0 {
        return None;
    }
    proof {
        lemma_range_sum_closed_form(m as nat);
    }
    let tri: u128 = if m == 0 {
        0
    } else {
        proof {
            assert(usize::MAX as int <= u64::MAX as int);
            assert((m as int) * ((m as int) - 1) <= u128::MAX) by (nonlinear_arith)
                requires
                    0 <= m as int <= u64::MAX as int,
            ;
        }
        (m as u128) * ((m - 1) as u128) / 2
    };
    proof {
        assert(tri == range_sum(m as nat));
    }
    let ghost len = strategies@.len() as int;
    let ghost total_spec = expected_sink(strategies@, samples as nat, n as nat, m as nat);
    if strategies.len() == 0 || samples == 0 || tri == 0 {
        proof {
            assert(total_spec == 0) by (nonlinear_arith)
                requires
                    total_spec == len * samples * (n as int * range_sum(m as nat)),
                    len == 0 || samples == 0 || range_sum(m as nat) == 0,
            ;
        }
        return Some(collect_measurements(strategies, samples, n, m));
    }
    proof {
        lemma_mul_lower_bounds(len, samples as int);
        lemma_mul_lower_bounds(n as int, tri as int);
        lemma_mul_lower_bounds(len * samples, n as int * tri);
    }
    if tri > usize::MAX as u128 {
        return None;
    }
    proof {
        assert(usize::MAX as int <= u64::MAX as int);
        assert((strategies@.len() as int) * (samples as int) <= u128::MAX) by (nonlinear_arith)
            requires
                0 <= strategies@.len() as int <= u64::MAX as int,
                0 <= samples as int <= u64::MAX as int,
        ;
    }
    let p1 = (strategies.len() as u128) * (samples as u128);
    if p1 > usize::MAX as u128 {
        return None;
    }
    proof {
        assert(usize::MAX as int <= u64::MAX as int);
        assert((n as int) * (tri as int) <= u128::MAX) by (nonlinear_arith)
            requires
                0 <= n as int <= u64::MAX as int,
                0 <= tri as int <= u64::MAX as int,
        ;
    }
    let p2 = (n as u128) * tri;
    if p2 > usize::MAX as u128 {
        return None;
    }
    proof {
        assert((p1 as int) * (p2 as int) <= u128::MAX) by (nonlinear_arith)
            requires
                0 <= p1 as int <= u64::MAX as int,
                0 <= p2 as int <= u64::MAX as int,
        ;
    }
    let total = p1 * p2;
    proof {
        assert(total == total_spec);
    }
    if total > usize::MAX as u128 {
        return None;
    }
    Some(collect_measurements(strategies, samples, n, m))
}

/// The per-iteration durations of the rows recorded for one strategy, in
/// the order they were recorded.
pub open spec fn strategy_times(rows: Seq<Measurement>, s: Strategy) -> Seq<u128>
    decreases rows.len(),
{
    if rows.len() == 0 {
        Seq::empty()
    } else {
        let prefix = strategy_times(rows.drop_last(), s);
        if rows.last().strategy == s {
            prefix.push(rows.last().per_iteration_nanos)
        } else {
            prefix
        }
    }
}

/// Extract the per-iteration durations of one strategy's rows.
pub fn times_for_strategy(rows: &Vec<Measurement>, s: Strategy) -> (r: Vec<u128>)
    ensures
        r@ == strategy_times(rows@, s),
{
    let mut r: Vec<u128> = Vec::new();
    let mut i: usize = 0;
    while i < rows.len()
        invariant
            i <= rows@.len(),
            r@ == strategy_times(rows@.take(i as int), s),
        decreases rows@.len() - i,
    {
        proof {
            assert(rows@.take(i + 1).drop_last() =~= rows@.take(i as int));
            assert(rows@.take(i + 1).last() == rows@[i as int]);
        }
        if rows[i].strategy == s {
            r.push(rows[i].per_iteration_nanos);
        }
        i = i + 1;
    }
    proof {
        assert(rows@.take(rows@.len() as int) =~= rows@);
    }
    r
}

/// Aggregated statistics of one strategy's per-iteration durations.
#[derive(Clone, Copy, Debug)]
pub struct StrategyStats {
    pub average_nanos: u128,
    pub median_nanos: u128,
}

/// Sort the durations in place and aggregate them: the arithmetic mean of
/// the values as given, and the element at index `len / 2` once sorted.
/// Returns `None` exactly when the list is empty or its sum does not fit in
/// `u128`; the list is then left unchanged.
pub fn try_summarize(times: &mut Vec<u128>) -> (r: Option<StrategyStats>)
    ensures
        r.is_some() <==> (old(times)@.len() >= 1 && duration_sum(old(times)@) <= u128::MAX),
        r.is_none() ==> final(times)@ == old(times)@,
        r.is_some() ==> {
            &&& final(times)@.len() == old(times)@.len()
            &&& final(times)@.to_multiset() == old(times)@.to_multiset()
            &&& sorted(final(times)@)
            &&& r.unwrap().average_nanos == duration_sum(old(times)@) / old(times)@.len() as int
            &&& r.unwrap().median_nanos == final(times)@[final(times)@.len() as int / 2]
        },
{
    if times.len() == 0 {
        return None;
    }
    let mut acc: u128 = 0;
    let mut i: usize = 0;
    while i < times.len()
        invariant
            i <= times@.len(),
            0 <= duration_sum(times@.take(i as int)),
            acc == duration_sum(times@.take(i as int)),
        decreases times@.len() - i,
    {
        proof {
            lemma_duration_sum_take_step(times@, i as int);
        }
        if times[i] > u128::MAX - acc {
            proof {
                lemma_duration_sum_take_le(times@, i + 1);
            }
            return None;
        }
        acc = acc + times[i];
        i = i + 1;
    }
    proof {
        assert(times@.take(times@.len() as int) =~= times@);
    }
    let avg = average(times);
    sort_durations(times);
    let med = median_of_sorted(times);
    Some(StrategyStats { average_nanos: avg, median_nanos: med })
}

} // verus!
