//! The filler workload: build the sequence `0, 1, ..., m-1` and sum it.
//!
//! The sum is deterministic — `m * (m - 1) / 2` — which is what makes the
//! checksum usable as a correctness check for every timing strategy.

use vstd::prelude::*;

verus! {

/// Sum of the integers `0, 1, ..., k-1`.
pub open spec fn range_sum(k: nat) -> nat
    decreases k,
{
    if k == 0 {
        0
    } else {
        range_sum((k - 1) as nat) + (k - 1) as nat
    }
}

/// The workload's sum has the closed form `k * (k - 1) / 2`.
pub proof fn lemma_range_sum_closed_form(k: nat)
    ensures
        2 * range_sum(k) == k * (k - 1),
        range_sum(k) == k * (k - 1) / 2,
    decreases k,
{
    if k > 0 {
        lemma_range_sum_closed_form((k - 1) as nat);
        assert(2 * range_sum(k) == k * (k - 1)) by (nonlinear_arith)
            requires
                2 * range_sum((k - 1) as nat) == (k - 1) * (k - 2),
                range_sum(k) == range_sum((k - 1) as nat) + (k - 1),
                k > 0,
        ;
    }
    assert(range_sum(k) == k * (k - 1) / 2) by (nonlinear_arith)
        requires
            2 * range_sum(k) == k * (k - 1),
    ;
}

/// Sum of the elements of a sequence of machine integers.
pub open spec fn seq_sum(s: Seq<usize>) -> nat
    decreases s.len(),
{
    if s.len() == 0 {
        0
    } else {
        seq_sum(s.drop_last()) + s.last() as nat
    }
}

/// Extending a prefix by one element adds that element to its sum.
pub proof fn lemma_seq_sum_take_step(s: Seq<usize>, i: int)
    requires
        0 <= i < s.len(),
    ensures
        seq_sum(s.take(i + 1)) == seq_sum(s.take(i)) + s[i],
{
    assert(s.take(i + 1).drop_last() =~= s.take(i));
    assert(s.take(i + 1).last() == s[i]);
}

/// A prefix sum never exceeds the sum of the whole sequence.
pub proof fn lemma_seq_sum_take_le(s: Seq<usize>, i: int)
    requires
        0 <= i <= s.len(),
    ensures
        seq_sum(s.take(i)) <= seq_sum(s),
    decreases s.len() - i,
{
    if i == s.len() {
        assert(s.take(i) =~= s);
    } else {
        lemma_seq_sum_take_step(s, i);
        lemma_seq_sum_take_le(s, i + 1);
    }
}

/// A sequence whose element at each position is that position sums to
/// `range_sum` of its length.
pub proof fn lemma_counting_seq_sum(s: Seq<usize>)
    requires
        forall|i: int| 0 <= i < s.len() ==> s[i] == i,
    ensures
        seq_sum(s) == range_sum(s.len()),
    decreases s.len(),
{
    if s.len() > 0 {
        assert(forall|i: int| 0 <= i < s.drop_last().len() ==> s.drop_last()[i] == i);
        lemma_counting_seq_sum(s.drop_last());
    }
}

/// Build the vector `[0, 1, ..., m-1]`.
pub fn make_vec(m: usize) -> (v: Vec<usize>)
    ensures
        v@.len() == m,
        forall|i: int| 0 <= i < m ==> v@[i] == i,
{
    let mut v: Vec<usize> = Vec::new();
    let mut i: usize = 0;
    while i < m
        invariant
            i <= m,
            v@.len() == i,
            forall|j: int| 0 <= j < i ==> v@[j] == j,
        decreases m - i,
    {
        v.push(i);
        i = i + 1;
    }
    v
}

/// Sum the elements of a vector.
pub fn sum_vec(v: &Vec<usize>) -> (s: usize)
    requires
        seq_sum(v@) <= usize::MAX,
    ensures
        s == seq_sum(v@),
{
    let mut acc: usize = 0;
    let mut i: usize = 0;
    while i < v.len()
        invariant
            i <= v@.len(),
            seq_sum(v@) <= usize::MAX,
            acc == seq_sum(v@.take(i as int)),
        decreases v@.len() - i,
    {
        proof {
            lemma_seq_sum_take_step(v@, i as int);
            lemma_seq_sum_take_le(v@, i + 1);
        }
        acc = acc + v[i];
        i = i + 1;
    }
    proof {
        assert(v@.take(v@.len() as int) =~= v@);
    }
    acc
}

/// The whole workload once: build `[0, ..., m-1]` and sum it. The result
/// is always `m * (m - 1) / 2`.
pub fn workload_sum(m: usize) -> (r: usize)
    requires
        range_sum(m as nat) <= usize::MAX,
    ensures
        r == range_sum(m as nat),
        r == m * (m - 1) / 2,
{
    proof {
        lemma_range_sum_closed_form(m as nat);
    }
    let v = make_vec(m);
    proof {
        lemma_counting_seq_sum(v@);
    }
    sum_vec(&v)
}

} // verus!
