//! Sorting of numbers.

use vstd::prelude::*;
use vstd::relations::sorted_by;
use vstd::seq_lib::lemma_multiset_commutative;

verus! {

/// The order by which numbers are sorted.
pub open spec fn leq() -> spec_fn(u64, u64) -> bool {
    |a: u64, b: u64| a <= b
}

/// The numbers of `s`, each as often as it occurs there, in increasing order.
pub open spec fn ranked(s: Seq<u64>) -> Seq<u64> {
    s.sort_by(leq())
}

/// A sequence in increasing order with the numbers of `s` is `ranked(s)`.
pub proof fn lemma_ranked_unique(s: Seq<u64>, r: Seq<u64>)
    requires
        sorted_by(r, leq()),
        r.to_multiset() == s.to_multiset(),
    ensures
        r == ranked(s),
        r.len() == s.len(),
{
    s.lemma_sort_by_ensures(leq());
    vstd::seq_lib::lemma_sorted_unique(r, ranked(s), leq());
    s.to_multiset_ensures();
    r.to_multiset_ensures();
}

/// `ranked` keeps the numbers and puts them in order.
pub proof fn lemma_ranked(s: Seq<u64>)
    ensures
        sorted_by(ranked(s), leq()),
        ranked(s).to_multiset() == s.to_multiset(),
        ranked(s).len() == s.len(),
{
    s.lemma_sort_by_ensures(leq());
    s.to_multiset_ensures();
    ranked(s).to_multiset_ensures();
}

fn merge(a: &Vec<u64>, b: &Vec<u64>) -> (r: Vec<u64>)
    requires
        sorted_by(a@, leq()),
        sorted_by(b@, leq()),
    ensures
        sorted_by(r@, leq()),
        r@.to_multiset() == (a@ + b@).to_multiset(),
{
    let mut r: Vec<u64> = Vec::new();
    let mut i: usize = 0;
    let mut j: usize = 0;
    proof {
        assert(a@.take(0) + b@.take(0) =~= r@);
    }
    while i < a.len() || j < b.len()
        invariant
            sorted_by(a@, leq()),
            sorted_by(b@, leq()),
            i <= a.len(),
            j <= b.len(),
            sorted_by(r@, leq()),
            forall|x: int, y: int| 0 <= x < r@.len() && i <= y < a@.len() ==> r@[x] <= a@[y],
            forall|x: int, y: int| 0 <= x < r@.len() && j <= y < b@.len() ==> r@[x] <= b@[y],
            r@.to_multiset() == (a@.take(i as int) + b@.take(j as int)).to_multiset(),
        decreases a.len() - i + b.len() - j,
    {
        let ghost before = r@;
        let ghost ta = a@.take(i as int);
        let ghost tb = b@.take(j as int);
        proof {
            before.to_multiset_ensures();
            ta.to_multiset_ensures();
            tb.to_multiset_ensures();
            lemma_multiset_commutative(ta, tb);
            assert forall|x: int, y: int| i <= x <= y < a@.len() implies a@[x] <= a@[y] by {
                if x < y {
                    assert(leq()(a@[x], a@[y]));
                }
            }
            assert forall|x: int, y: int| j <= x <= y < b@.len() implies b@[x] <= b@[y] by {
                if x < y {
                    assert(leq()(b@[x], b@[y]));
                }
            }
            assert forall|x: int, y: int| 0 <= x < y < before.len() implies before[x]
                <= before[y] by {
                assert(leq()(before[x], before[y]));
            }
        }
        if j >= b.len() || (i < a.len() && a[i] <= b[j]) {
            r.push(a[i]);
            proof {
                assert(a@.take(i + 1) =~= ta.push(a@[i as int]));
                lemma_multiset_commutative(a@.take(i + 1), tb);
                assert(r@.to_multiset() =~= (a@.take(i + 1) + tb).to_multiset());
            }
            i = i + 1;
        } else {
            r.push(b[j]);
            proof {
                assert(b@.take(j + 1) =~= tb.push(b@[j as int]));
                lemma_multiset_commutative(ta, b@.take(j + 1));
                assert(r@.to_multiset() =~= (ta + b@.take(j + 1)).to_multiset());
            }
            j = j + 1;
        }
    }
    assert(a@.take(i as int) =~= a@);
    assert(b@.take(j as int) =~= b@);
    r
}

/// The numbers in increasing order.
pub fn sort(v: &Vec<u64>) -> (r: Vec<u64>)
    ensures
        r@ == ranked(v@),
        sorted_by(r@, leq()),
        r@.len() == v@.len(),
    decreases v.len(),
{
    if v.len() <= 1 {
        let mut r: Vec<u64> = Vec::new();
        if v.len() == 1 {
            r.push(v[0]);
        }
        assert(r@ =~= v@);
        proof {
            lemma_ranked_unique(v@, r@);
        }
        return r;
    }
    let mid: usize = v.len() / 2;
    let mut left: Vec<u64> = Vec::new();
    let mut right: Vec<u64> = Vec::new();
    for i in 0..mid
        invariant
            mid <= v.len(),
            left@ == v@.take(i as int),
    {
        left.push(v[i]);
        assert(left@ =~= v@.take(i + 1));
    }
    let n = v.len();
    for i in mid..n
        invariant
            n == v.len(),
            mid <= n,
            mid <= i,
            right@ == v@.subrange(mid as int, i as int),
    {
        right.push(v[i]);
        assert(right@ =~= v@.subrange(mid as int, i + 1));
    }
    let a = sort(&left);
    let b = sort(&right);
    let r = merge(&a, &b);
    proof {
        lemma_ranked(left@);
        lemma_ranked(right@);
        lemma_multiset_commutative(a@, b@);
        lemma_multiset_commutative(left@, right@);
        assert(left@ + right@ =~= v@);
        lemma_ranked_unique(v@, r@);
    }
    r
}

} // verus!
