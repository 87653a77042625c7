//! Timing strategies: the workload wrapped in different timestamp schemes.
//!
//! Every strategy runs the same `n` iterations of summing the vector
//! `[0, ..., m-1]`; they differ only in where and how often a clock reading
//! is taken. Each returns the nanoseconds elapsed over the whole loop and a
//! checksum, which is always `n * range_sum(m)`.

use vstd::prelude::*;
use crate::clock::{instant_now, nanos_between};
use crate::workload::{
    lemma_counting_seq_sum, lemma_range_sum_closed_form, make_vec, range_sum, sum_vec,
};

verus! {

/// One timestamp-acquisition scheme around the fixed workload.
#[derive(Clone, Copy, Debug, PartialEq, Eq, Structural)]
pub enum Strategy {
    /// Two clock readings around the whole loop; pure workload cost.
    Baseline,
    /// Two extra readings per iteration, their distance discarded.
    WallClockDiscard,
    /// Two extra readings per iteration, their distances summed.
    WallClockAccum,
}

impl Strategy {
    /// The strategy's printable name.
    pub open spec fn name_spec(self) -> Seq<char> {
        match self {
            Strategy::Baseline => "baseline"@,
            Strategy::WallClockDiscard => "wall_clock"@,
            Strategy::WallClockAccum => "wall_clock_acc"@,
        }
    }

    /// The strategy's printable name.
    pub fn name(&self) -> (r: String)
        ensures
            r@ == self.name_spec(),
    {
        match self {
            Strategy::Baseline => "baseline".to_owned(),
            Strategy::WallClockDiscard => "wall_clock".to_owned(),
            Strategy::WallClockAccum => "wall_clock_acc".to_owned(),
        }
    }
}

/// The strategies a run enables by default, in the order they are run
/// within each round of sampling.
pub fn enabled_strategies() -> (r: Vec<Strategy>)
    ensures
        r@ =~= seq![Strategy::Baseline, Strategy::WallClockDiscard, Strategy::WallClockAccum],
{
    let mut r: Vec<Strategy> = Vec::new();
    r.push(Strategy::Baseline);
    r.push(Strategy::WallClockDiscard);
    r.push(Strategy::WallClockAccum);
    r
}

/// The checksum every strategy must produce for `n` iterations over a
/// vector of length `m`.
pub open spec fn expected_checksum(n: nat, m: nat) -> nat {
    n * range_sum(m)
}

/// Run the workload `n` times with clock readings only around the whole
/// loop.
pub fn run_baseline(n: usize, m: usize) -> (r: (u128, usize))
    requires
        n >= 1,
        expected_checksum(n as nat, m as nat) <= usize::MAX,
    ensures
        r.1 == expected_checksum(n as nat, m as nat),
        r.1 == n * (m * (m - 1) / 2),
{
    proof {
        lemma_range_sum_closed_form(m as nat);
    }
    let v = make_vec(m);
    proof {
        lemma_counting_seq_sum(v@);
        lemma_checksum_partial(n as nat, 1, range_sum(m as nat));
    }
    let start = instant_now();
    let mut sum: usize = 0;
    let mut i: usize = 0;
    while i < n
        invariant
            i <= n,
            n >= 1,
            v@.len() == m,
            crate::workload::seq_sum(v@) == range_sum(m as nat),
            n * range_sum(m as nat) <= usize::MAX,
            sum == i * range_sum(m as nat),
        decreases n - i,
    {
        proof {
            lemma_checksum_partial(n as nat, 1, range_sum(m as nat));
            lemma_checksum_partial(n as nat, (i + 1) as nat, range_sum(m as nat));
            assert((i + 1) * range_sum(m as nat) == i * range_sum(m as nat) + range_sum(
                m as nat,
            )) by (nonlinear_arith);
        }
        let w = sum_vec(&v);
        sum = sum + w;
        i = i + 1;
    }
    let end = instant_now();
    let elapsed = nanos_between(&start, &end);
    (elapsed, sum)
}

/// Run the workload `n` times, additionally taking and discarding two clock
/// readings inside every iteration.
pub fn run_wall_clock(n: usize, m: usize) -> (r: (u128, usize))
    requires
        n >= 1,
        expected_checksum(n as nat, m as nat) <= usize::MAX,
    ensures
        r.1 == expected_checksum(n as nat, m as nat),
        r.1 == n * (m * (m - 1) / 2),
{
    proof {
        lemma_range_sum_closed_form(m as nat);
    }
    let v = make_vec(m);
    proof {
        lemma_counting_seq_sum(v@);
        lemma_checksum_partial(n as nat, 1, range_sum(m as nat));
    }
    let start = instant_now();
    let mut sum: usize = 0;
    let mut i: usize = 0;
    while i < n
        invariant
            i <= n,
            n >= 1,
            v@.len() == m,
            crate::workload::seq_sum(v@) == range_sum(m as nat),
            n * range_sum(m as nat) <= usize::MAX,
            sum == i * range_sum(m as nat),
        decreases n - i,
    {
        proof {
            lemma_checksum_partial(n as nat, 1, range_sum(m as nat));
            lemma_checksum_partial(n as nat, (i + 1) as nat, range_sum(m as nat));
            assert((i + 1) * range_sum(m as nat) == i * range_sum(m as nat) + range_sum(
                m as nat,
            )) by (nonlinear_arith);
        }
        let inner_start = instant_now();
        let w = sum_vec(&v);
        let inner_end = instant_now();
        let _discarded: u128 = nanos_between(&inner_start, &inner_end);
        sum = sum + w;
        i = i + 1;
    }
    let end = instant_now();
    let elapsed = nanos_between(&start, &end);
    (elapsed, sum)
}

/// Run the workload `n` times, additionally summing the distance between two
/// clock readings inside every iteration (the sum saturates and is dropped;
/// only the bookkeeping cost matters).
pub fn run_wall_clock_accum(n: usize, m: usize) -> (r: (u128, usize))
    requires
        n >= 1,
        expected_checksum(n as nat, m as nat) <= usize::MAX,
    ensures
        r.1 == expected_checksum(n as nat, m as nat),
        r.1 == n * (m * (m - 1) / 2),
{
    proof {
        lemma_range_sum_closed_form(m as nat);
    }
    let v = make_vec(m);
    proof {
        lemma_counting_seq_sum(v@);
        lemma_checksum_partial(n as nat, 1, range_sum(m as nat));
    }
    let start = instant_now();
    let mut sum: usize = 0;
    let mut inner_total: u128 = 0;
    let mut i: usize = 0;
    while i < n
        invariant
            i <= n,
            n >= 1,
            v@.len() == m,
            crate::workload::seq_sum(v@) == range_sum(m as nat),
            n * range_sum(m as nat) <= usize::MAX,
            sum == i * range_sum(m as nat),
        decreases n - i,
    {
        proof {
            lemma_checksum_partial(n as nat, 1, range_sum(m as nat));
            lemma_checksum_partial(n as nat, (i + 1) as nat, range_sum(m as nat));
            assert((i + 1) * range_sum(m as nat) == i * range_sum(m as nat) + range_sum(
                m as nat,
            )) by (nonlinear_arith);
        }
        let inner_start = instant_now();
        let w = sum_vec(&v);
        let inner_end = instant_now();
        let d = nanos_between(&inner_start, &inner_end);
        inner_total = if inner_total <= u128::MAX - d {
            inner_total + d
        } else {
            u128::MAX
        };
        sum = sum + w;
        i = i + 1;
    }
    let end = instant_now();
    let elapsed = nanos_between(&start, &end);
    let _bookkeeping: u128 = inner_total;
    (elapsed, sum)
}

/// Run one strategy; the checksum is the same whichever it is.
pub fn run_strategy(s: Strategy, n: usize, m: usize) -> (r: (u128, usize))
    requires
        n >= 1,
        expected_checksum(n as nat, m as nat) <= usize::MAX,
    ensures
        r.1 == expected_checksum(n as nat, m as nat),
        r.1 == n * (m * (m - 1) / 2),
{
    match s {
        Strategy::Baseline => run_baseline(n, m),
        Strategy::WallClockDiscard => run_wall_clock(n, m),
        Strategy::WallClockAccum => run_wall_clock_accum(n, m),
    }
}

/// A partial checksum stays within the full one: `i * t <= n * t` when
/// `i <= n`, and each strategy's `requires` bounds `n * t`.
proof fn lemma_checksum_partial(n: nat, i: nat, t: nat)
    requires
        i <= n,
    ensures
        i * t <= n * t,
{
    assert(i * t <= n * t) by (nonlinear_arith)
        requires
            i <= n,
    ;
}

} // verus!
