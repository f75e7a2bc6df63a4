//! Latency figures of a benchmark run, in whole nanoseconds.

use vstd::prelude::*;
use vstd::relations::{sorted_by, total_ordering};
use vstd::seq_lib::*;

verus! {

broadcast use vstd::multiset::group_multiset_axioms;

/// Latencies in ascending order.
pub open spec fn ascending() -> spec_fn(u64, u64) -> bool {
    |a: u64, b: u64| a <= b
}

/// The middle of the sorted latencies `s`: the middle one, or the mean of
/// the two middle ones rounded down; zero where there are none.
pub open spec fn middle_of(s: Seq<u64>) -> int {
    if s.len() == 0 {
        0
    } else {
        let m = (s.len() / 2) as int;
        if s.len() % 2 == 0 {
            (s[m - 1] + s[m]) / 2
        } else {
            s[m] as int
        }
    }
}

/// The median of the latencies `latencies`.
pub open spec fn median(latencies: Seq<u64>) -> int {
    middle_of(latencies.sort_by(ascending()))
}

proof fn lemma_ascending_total()
    ensures
        total_ordering(ascending()),
{
}

/// The latencies `v` in ascending order.
pub fn sorted_latencies(v: &[u64]) -> (r: Vec<u64>)
    ensures
        r@ == v@.sort_by(ascending()),
{
    let mut out: Vec<u64> = Vec::new();
    let mut i: usize = 0;
    assert(out@ =~= v@.take(0));
    while i < v.len()
        invariant
            i <= v@.len(),
            sorted_by(out@, ascending()),
            out@.to_multiset() == v@.take(i as int).to_multiset(),
        decreases v.len() - i,
    {
        let x = v[i];
        let mut p: usize = 0;
        while p < out.len() && out[p] <= x
            invariant
                p <= out@.len(),
                forall|k: int| 0 <= k < p ==> out@[k] <= x,
            decreases out.len() - p,
        {
            p += 1;
        }
        let ghost before = out@;
        out.insert(p, x);
        proof {
            assert forall|a: int, b: int| 0 <= a < b < out@.len() implies #[trigger] (ascending())(
                out@[a],
                out@[b],
            ) by {
                if b > p {
                    assert(out@[b] == before[b - 1]);
                    if b - 1 > p {
                        assert((ascending())(before[p as int], before[b - 1]));
                    }
                }
                if a < p {
                    assert(out@[a] == before[a]);
                    if b < p {
                        assert((ascending())(before[a], before[b]));
                    }
                } else if a > p {
                    assert(out@[a] == before[a - 1]);
                    assert((ascending())(before[a - 1], before[b - 1]));
                }
            }
            assert(out@.remove(p as int) =~= before);
            to_multiset_remove(out@, p as int);
            assert(out@.to_multiset().contains(x)) by {
                out@.to_multiset_ensures();
                assert(out@.contains(x)) by {
                    assert(out@[p as int] == x);
                }
            }
            assert(out@.to_multiset() =~= before.to_multiset().insert(x));
            assert(v@.take(i + 1) =~= v@.take(i as int).push(x));
            to_multiset_build(v@.take(i as int), x);
        }
        i += 1;
    }
    proof {
        assert(v@.take(i as int) =~= v@);
        lemma_ascending_total();
        v@.lemma_sort_by_ensures(ascending());
        lemma_sorted_unique(out@, v@.sort_by(ascending()), ascending());
    }
    out
}

/// The median latency of `latencies`: zero for none, else the middle one
/// in ascending order, or the mean of the two middle ones rounded down.
pub fn p50_nanos(latencies: &[u64]) -> (r: u64)
    ensures
        r == median(latencies@),
{
    let s = sorted_latencies(latencies);
    let n = s.len();
    if n == 0 {
        return 0;
    }
    let m = n / 2;
    if n % 2 == 0 {
        let a = s[m - 1];
        let b = s[m];
        let total: u128 = a as u128 + b as u128;
        (total / 2) as u64
    } else {
        s[m]
    }
}

} // verus!
