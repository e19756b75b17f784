//! Facts about parts of sequences that several components build on.
use vstd::prelude::*;

verus! {

/// How many of the first `k` elements satisfy `p`.
pub open spec fn count_before<A>(s: Seq<A>, p: spec_fn(A) -> bool, k: int) -> nat
    decreases k,
{
    if k <= 0 {
        0
    } else {
        count_before(s, p, k - 1) + if p(s[k - 1]) {
            1nat
        } else {
            0
        }
    }
}

/// A filter leaves each element that satisfies `p` behind those before it that do, and nothing
/// else.
pub proof fn lemma_filter_rank<A>(s: Seq<A>, p: spec_fn(A) -> bool, k: int)
    requires
        0 <= k <= s.len(),
    ensures
        count_before(s, p, k) <= s.filter(p).len(),
        s.filter(p).len() == count_before(s, p, s.len() as int),
        k < s.len() && p(s[k]) ==> count_before(s, p, k) < s.filter(p).len() && s.filter(
            p,
        )[count_before(s, p, k) as int] == s[k],
    decreases s.len(),
{
    reveal(Seq::filter);
    if s.len() > 0 {
        let d = s.drop_last();
        let n = s.len() - 1;
        lemma_filter_rank(d, p, d.len() as int);
        lemma_count_same(d, s, p, n);
        if k < s.len() {
            lemma_filter_rank(d, p, k);
            lemma_count_same(d, s, p, k);
            if k == n {
                assert(s.last() == s[n]);
            }
        }
    }
}

proof fn lemma_count_same<A>(a: Seq<A>, b: Seq<A>, p: spec_fn(A) -> bool, k: int)
    requires
        k <= a.len(),
        k <= b.len(),
        forall|i: int| 0 <= i < k ==> a[i] == b[i],
    ensures
        count_before(a, p, k) == count_before(b, p, k),
    decreases k,
{
    if k > 0 {
        lemma_count_same(a, b, p, k - 1);
    }
}

/// What a filter leaves satisfies `p` and was there.
pub proof fn lemma_filter_there<A>(s: Seq<A>, p: spec_fn(A) -> bool, i: int)
    requires
        0 <= i < s.filter(p).len(),
    ensures
        p(s.filter(p)[i]),
        exists|j: int| 0 <= j < s.len() && #[trigger] s[j] == s.filter(p)[i],
    decreases s.len(),
{
    reveal(Seq::filter);
    if s.len() > 0 {
        let d = s.drop_last();
        if i < d.filter(p).len() {
            lemma_filter_there(d, p, i);
            let j = choose|j: int| 0 <= j < d.len() && #[trigger] d[j] == d.filter(p)[i];
            assert(s[j] == s.filter(p)[i]);
        } else {
            assert(s[s.len() - 1] == s.filter(p)[i]);
        }
    }
}

/// No more of the first `k` elements satisfy `p` than there are.
pub proof fn lemma_count_bound<A>(s: Seq<A>, p: spec_fn(A) -> bool, k: int)
    requires
        0 <= k,
    ensures
        count_before(s, p, k) <= k,
    decreases k,
{
    if k > 0 {
        lemma_count_bound(s, p, k - 1);
    }
}

} // verus!
