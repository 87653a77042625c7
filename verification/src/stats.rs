//! Aggregation of per-iteration durations: sorting, average, and the
//! lower-middle median.

use vstd::prelude::*;

verus! {

/// The elements appear in non-decreasing order.
pub open spec fn sorted(s: Seq<u128>) -> bool {
    forall|i: int, j: int| 0 <= i <= j < s.len() ==> s[i] <= s[j]
}

/// Sum of the elements of a sequence of durations.
pub open spec fn duration_sum(s: Seq<u128>) -> int
    decreases s.len(),
{
    if s.len() == 0 {
        0
    } else {
        duration_sum(s.drop_last()) + s.last()
    }
}

/// Extending a prefix by one element adds that element to its sum.
pub proof fn lemma_duration_sum_take_step(s: Seq<u128>, i: int)
    requires
        0 <= i < s.len(),
    ensures
        duration_sum(s.take(i + 1)) == duration_sum(s.take(i)) + s[i],
{
    assert(s.take(i + 1).drop_last() =~= s.take(i));
    assert(s.take(i + 1).last() == s[i]);
}

/// A prefix sum never exceeds the sum of the whole sequence.
pub proof fn lemma_duration_sum_take_le(s: Seq<u128>, i: int)
    requires
        0 <= i <= s.len(),
    ensures
        duration_sum(s.take(i)) <= duration_sum(s),
    decreases s.len() - i,
{
    if i == s.len() {
        assert(s.take(i) =~= s);
    } else {
        lemma_duration_sum_take_step(s, i);
        lemma_duration_sum_take_le(s, i + 1);
    }
}

/// Sort a vector of durations in place (insertion sort). The result is
/// ordered and holds exactly the elements it started with.
pub fn sort_durations(v: &mut Vec<u128>)
    ensures
        final(v)@.len() == old(v)@.len(),
        final(v)@.to_multiset() == old(v)@.to_multiset(),
        sorted(final(v)@),
{
    broadcast use vstd::seq_lib::group_to_multiset_ensures;

    if v.len() <= 1 {
        return;
    }
    let ghost orig = v@;
    let mut i: usize = 1;
    while i < v.len()
        invariant
            1 <= i <= v@.len(),
            v@.len() == orig.len(),
            v@.to_multiset() == orig.to_multiset(),
            sorted(v@.take(i as int)),
        decreases v@.len() - i,
    {
        let ghost at_entry = v@;
        let x = v.remove(i);
        let ghost before = v@;
        proof {
            assert(before.take(i as int) =~= at_entry.take(i as int));
        }
        let mut j: usize = i;
        while j > 0 && v[j - 1] > x
            invariant
                j <= i,
                i < before.len() + 1,
                i <= before.len(),
                v@ == before,
                sorted(v@.take(i as int)),
                forall|k: int| j <= k < i ==> v@[k] > x,
            decreases j,
        {
            j = j - 1;
        }
        proof {
            assert(forall|k: int| 0 <= k < j ==> v@[k] <= x) by {
                if j > 0 {
                    assert(forall|k: int| 0 <= k < j ==> #[trigger] v@.take(i as int)[k] == v@[k]);
                    assert(v@.take(i as int)[j - 1] == v@[j - 1]);
                }
            }
        }
        v.insert(j, x);
        proof {
            let s = v@;
            assert(s == before.insert(j as int, x));
            assert(sorted(s.take(i + 1))) by {
                assert(forall|k: int| 0 <= k < j ==> s[k] == before[k]);
                assert(s[j as int] == x);
                assert(forall|k: int| j < k <= i ==> s[k] == before[k - 1]);
                assert(forall|k: int| 0 <= k < i ==> before.take(i as int)[k] == before[k]);
                assert(forall|p: int, q: int|
                    0 <= p <= q < i + 1 ==> s.take(i + 1)[p] == s[p] && s.take(i + 1)[q] == s[q]);
            }
            assert(v@.to_multiset() == orig.to_multiset()) by {
                assert(at_entry[i as int] == x);
                vstd::seq_lib::to_multiset_remove(at_entry, i as int);
                assert(before.to_multiset() == at_entry.to_multiset().remove(x));
                vstd::seq_lib::to_multiset_insert(before, j as int, x);
                assert(v@.to_multiset() == before.to_multiset().insert(x));
                assert(at_entry.contains(x));
                vstd::seq_lib::to_multiset_contains(at_entry, x);
                assert(at_entry.to_multiset().contains(x));
                assert(at_entry.to_multiset().remove(x).insert(x) =~= at_entry.to_multiset());
            }
        }
        i = i + 1;
    }
    proof {
        assert(v@.take(v@.len() as int) =~= v@);
    }
}

/// Arithmetic mean of the durations, rounded down.
pub fn average(v: &Vec<u128>) -> (r: u128)
    requires
        v@.len() >= 1,
        duration_sum(v@) <= u128::MAX,
    ensures
        r == duration_sum(v@) / v@.len() as int,
{
    let mut acc: u128 = 0;
    let mut i: usize = 0;
    while i < v.len()
        invariant
            i <= v@.len(),
            duration_sum(v@) <= u128::MAX,
            0 <= duration_sum(v@.take(i as int)),
            acc == duration_sum(v@.take(i as int)),
        decreases v@.len() - i,
    {
        proof {
            lemma_duration_sum_take_step(v@, i as int);
            lemma_duration_sum_take_le(v@, i + 1);
        }
        acc = acc + v[i];
        i = i + 1;
    }
    proof {
        assert(v@.take(v@.len() as int) =~= v@);
    }
    acc / (v.len() as u128)
}

/// The element at index `len / 2`: for an even length this is the
/// lower-middle element, not an interpolation of the two middle ones.
pub fn median_of_sorted(v: &Vec<u128>) -> (r: u128)
    requires
        v@.len() >= 1,
        sorted(v@),
    ensures
        r == v@[v@.len() as int / 2],
{
    v[v.len() / 2]
}

/// The amount by which an instrumented strategy's time exceeds the
/// baseline's, and zero when it does not exceed it.
pub fn overhead(instrumented: u128, baseline: u128) -> (r: u128)
    ensures
        instrumented >= baseline ==> r == instrumented - baseline,
        instrumented < baseline ==> r == 0,
{
    if instrumented >= baseline {
        instrumented - baseline
    } else {
        0
    }
}

} // verus!
