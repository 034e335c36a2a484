//! Sums over sequences of unit results, and the facts about them that the
//! aggregator's contracts rest on.

use vstd::prelude::*;

verus! {

/// The sum of the values of `s`, as a mathematical integer.
pub open spec fn sum_of(s: Seq<u64>) -> int
    decreases s.len(),
{
    if s.len() == 0 {
        0
    } else {
        sum_of(s.drop_last()) + s.last()
    }
}

/// The ordinal indices of a batch of `n` units, in launch order: `0, 1, .., n - 1`.
pub open spec fn indices(n: u64) -> Seq<u64> {
    Seq::new(n as nat, |i: int| i as u64)
}

/// `0 + 1 + .. + (n - 1)` in closed form.
pub open spec fn triangular(n: u64) -> int {
    n * (n - 1) / 2
}

/// Appending one value adds it to the sum.
pub proof fn lemma_sum_push(s: Seq<u64>, v: u64)
    ensures
        sum_of(s.push(v)) == sum_of(s) + v,
{
    assert(s.push(v).drop_last() =~= s);
}

/// A sum of unsigned values is never negative.
pub proof fn lemma_sum_nonnegative(s: Seq<u64>)
    ensures
        sum_of(s) >= 0,
    decreases s.len(),
{
    if s.len() > 0 {
        lemma_sum_nonnegative(s.drop_last());
    }
}

/// Taking one value out of a sequence takes it out of the sum.
pub proof fn lemma_sum_remove(s: Seq<u64>, i: int)
    requires
        0 <= i < s.len(),
    ensures
        sum_of(s) == sum_of(s.remove(i)) + s[i],
    decreases s.len(),
{
    if i == s.len() - 1 {
        assert(s.remove(i) =~= s.drop_last());
    } else {
        assert(s.remove(i).drop_last() =~= s.drop_last().remove(i));
        assert(s.remove(i).last() == s.last());
        lemma_sum_remove(s.drop_last(), i);
    }
}

proof fn lemma_sum_is_fold(s: Seq<u64>)
    ensures
        sum_of(s) == s.fold_left(0int, |acc: int, v: u64| acc + v),
    decreases s.len(),
{
    if s.len() > 0 {
        lemma_sum_is_fold(s.drop_last());
    }
}

/// The sum does not depend on the order of arrival: two sequences that hold
/// the same values the same number of times have the same sum.
pub proof fn lemma_sum_order_independent(a: Seq<u64>, b: Seq<u64>)
    requires
        a.to_multiset() == b.to_multiset(),
    ensures
        sum_of(a) == sum_of(b),
{
    let f = |acc: int, v: u64| acc + v;
    lemma_sum_is_fold(a);
    lemma_sum_is_fold(b);
    assert(vstd::seq_lib::commutative_foldl(f));
    vstd::seq_lib::lemma_fold_left_permutation(a, b, f, 0int);
}

/// The indices of a batch of `n` units, taken in launch order, sum to
/// `n * (n - 1) / 2`.
pub proof fn lemma_sum_of_indices(n: u64)
    ensures
        sum_of(indices(n)) == triangular(n),
    decreases n,
{
    if n > 0 {
        let m: u64 = (n - 1) as u64;
        lemma_sum_of_indices(m);
        assert(indices(n).drop_last() =~= indices(m));
        assert(indices(n).last() == m);
        lemma_triangular_step(m);
    } else {
        assert(indices(n).len() == 0);
    }
}

/// The closed form grows by `m` from `m` units to `m + 1`.
pub proof fn lemma_triangular_step(m: u64)
    requires
        m < u64::MAX,
    ensures
        triangular((m + 1) as u64) == triangular(m) + m,
        triangular(m) >= 0,
{
    let a: int = m * (m - 1);
    let b: int = (m + 1) * m;
    assert(b == a + 2 * m) by (nonlinear_arith)
        requires
            a == m * (m - 1),
            b == (m + 1) * m,
    ;
    assert(a >= 0) by (nonlinear_arith)
        requires
            a == m * (m - 1),
            m >= 0,
    ;
}

/// Whatever the order in which the units of a batch of `n` complete, if each
/// index in `[0, n)` arrives exactly once, the sum is `n * (n - 1) / 2`.
pub proof fn lemma_sum_of_any_arrival_order(arrivals: Seq<u64>, n: u64)
    requires
        arrivals.to_multiset() == indices(n).to_multiset(),
    ensures
        sum_of(arrivals) == triangular(n),
{
    lemma_sum_order_independent(arrivals, indices(n));
    lemma_sum_of_indices(n);
}

/// An arrival order of a batch of `n` units holds exactly `n` values, none of
/// them twice, each of them an index of the batch.
pub proof fn lemma_arrival_order_is_distinct_indices(arrivals: Seq<u64>, n: u64)
    requires
        arrivals.to_multiset() == indices(n).to_multiset(),
    ensures
        arrivals.len() == n,
        arrivals.no_duplicates(),
        forall|i: int| 0 <= i < arrivals.len() ==> arrivals[i] < n,
{
    let launch = indices(n);
    vstd::seq_lib::to_multiset_len(arrivals);
    vstd::seq_lib::to_multiset_len(launch);
    assert(launch.no_duplicates());
    launch.lemma_multiset_has_no_duplicates();
    arrivals.lemma_multiset_has_no_duplicates_conv();
    assert forall|i: int| 0 <= i < arrivals.len() implies arrivals[i] < n by {
        let v = arrivals[i];
        assert(arrivals.contains(v));
        vstd::seq_lib::to_multiset_contains(arrivals, v);
        vstd::seq_lib::to_multiset_contains(launch, v);
        assert(launch.contains(v));
        let j = choose|j: int| 0 <= j < launch.len() && launch[j] == v;
        assert(launch[j] == j);
    }
}

/// Distinct indices of a batch of `n` units never sum to more than all of
/// them: a partial sum of honest results stays within `n * (n - 1) / 2`.
pub proof fn lemma_distinct_indices_bounded(s: Seq<u64>, n: u64)
    requires
        s.no_duplicates(),
        forall|i: int| 0 <= i < s.len() ==> s[i] < n,
    ensures
        sum_of(s) <= triangular(n),
    decreases n,
{
    if n == 0 {
        assert(s.len() == 0) by {
            if s.len() > 0 {
                assert(s[0] < n);
            }
        }
    } else {
        let m: u64 = (n - 1) as u64;
        lemma_triangular_step(m);
        if s.contains(m) {
            let i = s.index_of(m);
            let rest = s.remove(i);
            lemma_sum_remove(s, i);
            assert forall|j: int| 0 <= j < rest.len() implies rest[j] < m by {
                if j < i {
                    assert(rest[j] == s[j]);
                } else {
                    assert(rest[j] == s[j + 1]);
                }
            }
            assert(rest.no_duplicates());
            lemma_distinct_indices_bounded(rest, m);
        } else {
            assert forall|j: int| 0 <= j < s.len() implies s[j] < m by {
                assert(s.contains(s[j]));
            }
            lemma_distinct_indices_bounded(s, m);
        }
    }
}

} // verus!
