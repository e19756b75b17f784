//! Registries keyed by a token, kept in the order of their tokens.
use vstd::prelude::*;
use crate::text::{group_views, views};

verus! {

broadcast use group_views;

/// How many entries stand before the place of token `t`.
pub open spec fn slot<X>(s: Seq<(u32, X)>, t: u32) -> nat
    decreases s.len(),
{
    if s.len() > 0 && s[0].0 < t {
        1 + slot(s.skip(1), t)
    } else {
        0
    }
}

/// Whether there is an entry under `t`.
pub open spec fn holds<X>(s: Seq<(u32, X)>, t: u32) -> bool {
    slot(s, t) < s.len() && s[slot(s, t) as int].0 == t
}

/// The entry under `t`.
pub open spec fn lookup<X>(s: Seq<(u32, X)>, t: u32) -> Option<X> {
    if holds(s, t) {
        Some(s[slot(s, t) as int].1)
    } else {
        None
    }
}

/// The registry with `x` under `t`, in place of what was there.
pub open spec fn put<X>(s: Seq<(u32, X)>, t: u32, x: X) -> Seq<(u32, X)> {
    if holds(s, t) {
        s.update(slot(s, t) as int, (t, x))
    } else {
        s.insert(slot(s, t) as int, (t, x))
    }
}

/// The registry without the entry under `t`.
pub open spec fn without<X>(s: Seq<(u32, X)>, t: u32) -> Seq<(u32, X)> {
    if holds(s, t) {
        s.remove(slot(s, t) as int)
    } else {
        s
    }
}

/// Tokens go up, so each stands there once and the first is the lowest.
pub open spec fn ascending<X>(s: Seq<(u32, X)>) -> bool {
    forall|i: int, j: int| 0 <= i < j < s.len() ==> (#[trigger] s[i]).0 < (#[trigger] s[j]).0
}

/// The lowest token of a registry, other than `keep`.
pub open spec fn lowest_but<X>(s: Seq<(u32, X)>, keep: Option<u32>) -> u32 {
    if keep == Some(s[0].0) {
        s[1].0
    } else {
        s[0].0
    }
}

/// A registry within a bound: where it holds too many entries, the one with the lowest token other
/// than `keep` gives way.
pub open spec fn within_bound<X>(s: Seq<(u32, X)>, max: nat, keep: Option<u32>) -> Seq<(u32, X)> {
    if s.len() > max {
        without(s, lowest_but(s, keep))
    } else {
        s
    }
}

pub proof fn lemma_slot<X>(s: Seq<(u32, X)>, t: u32, i: int)
    requires
        0 <= i <= s.len(),
        forall|j: int| 0 <= j < i ==> (#[trigger] s[j]).0 < t,
        i < s.len() ==> s[i].0 >= t,
    ensures
        slot(s, t) == i,
    decreases s.len(),
{
    if s.len() > 0 && s[0].0 < t {
        assert forall|j: int| 0 <= j < i - 1 implies (#[trigger] s.skip(1)[j]).0 < t by {
            assert(s[j + 1].0 < t);
        }
        lemma_slot(s.skip(1), t, i - 1);
    }
}

pub proof fn lemma_slot_is<X>(s: Seq<(u32, X)>, t: u32)
    ensures
        slot(s, t) <= s.len(),
        forall|j: int| 0 <= j < slot(s, t) ==> (#[trigger] s[j]).0 < t,
        slot(s, t) < s.len() ==> s[slot(s, t) as int].0 >= t,
    decreases s.len(),
{
    if s.len() > 0 && s[0].0 < t {
        lemma_slot_is(s.skip(1), t);
        assert forall|j: int| 0 <= j < slot(s, t) implies (#[trigger] s[j]).0 < t by {
            if j > 0 {
                assert(s.skip(1)[j - 1].0 < t);
            }
        }
        let k = slot(s.skip(1), t) as int;
        if slot(s, t) < s.len() {
            assert(s.skip(1)[k] == s[k + 1]);
        }
    }
}

/// Adding and removing keep the order.
pub proof fn lemma_order_kept<X>(s: Seq<(u32, X)>, t: u32, x: X)
    requires
        ascending(s),
    ensures
        ascending(put(s, t, x)),
        ascending(without(s, t)),
{
    lemma_slot_is(s, t);
    let k = slot(s, t) as int;
    let p = put(s, t, x);
    assert forall|i: int, j: int| 0 <= i < j < p.len() implies (#[trigger] p[i]).0 < (
    #[trigger] p[j]).0 by {
        if holds(s, t) {
            assert(s[i].0 < s[j].0);
        } else {
            if j < k {
                assert(s[i].0 < s[j].0);
            } else if j == k {
                assert(s[i].0 < t);
            } else if i < k {
                assert(s[i].0 < s[j - 1].0);
            } else if i == k {
                if k < j - 1 {
                    assert(s[k].0 < s[j - 1].0);
                }
                assert(t < s[k].0);
            } else {
                assert(s[i - 1].0 < s[j - 1].0);
            }
        }
    }
    let w = without(s, t);
    assert forall|i: int, j: int| 0 <= i < j < w.len() implies (#[trigger] w[i]).0 < (
    #[trigger] w[j]).0 by {
        if holds(s, t) {
            let i0 = if i < k {
                i
            } else {
                i + 1
            };
            let j0 = if j < k {
                j
            } else {
                j + 1
            };
            assert(w[i] == s[i0] && w[j] == s[j0]);
            assert(s[i0].0 < s[j0].0);
        }
    }
}

/// An entry is found under its own token alone.
pub proof fn lemma_has_iff<X>(s: Seq<(u32, X)>, t: u32)
    requires
        ascending(s),
    ensures
        holds(s, t) <==> exists|i: int| 0 <= i < s.len() && (#[trigger] s[i]).0 == t,
{
    lemma_slot_is(s, t);
    if exists|i: int| 0 <= i < s.len() && (#[trigger] s[i]).0 == t {
        let i = choose|i: int| 0 <= i < s.len() && (#[trigger] s[i]).0 == t;
        let k = slot(s, t) as int;
        if k < i {
            assert(s[k].0 < s[i].0);
        }
    }
}

/// Two ordered registries that agree on the entries under `other` give the same answer for it.
proof fn lemma_other<X>(a: Seq<(u32, X)>, b: Seq<(u32, X)>, other: u32)
    requires
        ascending(a),
        ascending(b),
        forall|e: (u32, X)| e.0 == other ==> (#[trigger] a.contains(e) <==> b.contains(e)),
    ensures
        lookup(a, other) == lookup(b, other),
{
    lemma_has_iff(a, other);
    lemma_has_iff(b, other);
    if holds(a, other) {
        let e = a[slot(a, other) as int];
        assert(a.contains(e));
        assert(b.contains(e));
        let i = choose|i: int| 0 <= i < b.len() && b[i] == e;
        lemma_slot_is(b, other);
        let j = slot(b, other) as int;
        assert(b[i].0 == other);
        if i < j {
            assert(b[i].0 < other);
        }
        if j < i {
            assert(b[j].0 < b[i].0);
        }
    }
    if holds(b, other) {
        let e = b[slot(b, other) as int];
        assert(b.contains(e));
        assert(a.contains(e));
    }
}

/// What was put under a token is found under it.
pub proof fn lemma_put_is_found<X>(s: Seq<(u32, X)>, t: u32, x: X)
    requires
        ascending(s),
    ensures
        lookup(put(s, t, x), t) == Some(x),
        put(s, t, x).len() <= s.len() + 1,
{
    lemma_slot_is(s, t);
    let k = slot(s, t) as int;
    let p = put(s, t, x);
    assert(p[k] == (t, x));
    assert forall|j: int| 0 <= j < k implies (#[trigger] p[j]).0 < t by {
        assert(p[j] == s[j]);
    }
    lemma_slot(p, t, k);
}

/// What was removed is gone.
pub proof fn lemma_removed_is_gone<X>(s: Seq<(u32, X)>, t: u32)
    requires
        ascending(s),
    ensures
        !holds(without(s, t), t),
{
    lemma_slot_is(s, t);
    let k = slot(s, t) as int;
    let w = without(s, t);
    if holds(s, t) && holds(w, t) {
        let i = slot(w, t) as int;
        if i < k {
            assert(w[i] == s[i]);
        } else {
            assert(w[i] == s[i + 1]);
            assert(s[k].0 < s[i + 1].0);
        }
    }
}

proof fn lemma_put_elsewhere<X>(s: Seq<(u32, X)>, t: u32, x: X, other: u32)
    requires
        ascending(s),
        other != t,
    ensures
        lookup(put(s, t, x), other) == lookup(s, other),
{
    lemma_order_kept(s, t, x);
    lemma_slot_is(s, t);
    let k = slot(s, t) as int;
    let p = put(s, t, x);
    assert forall|e: (u32, X)| e.0 == other implies (#[trigger] s.contains(e) <==> p.contains(
        e,
    )) by {
        if s.contains(e) {
            let i = choose|i: int| 0 <= i < s.len() && s[i] == e;
            let to = if holds(s, t) || i < k {
                i
            } else {
                i + 1
            };
            assert(p[to] == e);
        }
        if p.contains(e) {
            let i = choose|i: int| 0 <= i < p.len() && p[i] == e;
            let from = if holds(s, t) || i < k {
                i
            } else {
                i - 1
            };
            assert(p[k] == (t, x));
            assert(s[from] == e);
        }
    }
    lemma_other(s, p, other);
}

proof fn lemma_removed_elsewhere<X>(s: Seq<(u32, X)>, t: u32, other: u32)
    requires
        ascending(s),
        other != t,
    ensures
        lookup(without(s, t), other) == lookup(s, other),
{
    lemma_slot_is(s, t);
    let k = slot(s, t) as int;
    let w = without(s, t);
    if holds(s, t) {
        lemma_order_kept(s, t, s[k].1);
        assert forall|e: (u32, X)| e.0 == other implies (#[trigger] s.contains(e) <==> w.contains(
            e,
        )) by {
            if s.contains(e) {
                let i = choose|i: int| 0 <= i < s.len() && s[i] == e;
                let to = if i < k {
                    i
                } else {
                    i - 1
                };
                assert(w[to] == e);
            }
            if w.contains(e) {
                let i = choose|i: int| 0 <= i < w.len() && w[i] == e;
                let from = if i < k {
                    i
                } else {
                    i + 1
                };
                assert(s[from] == e);
            }
        }
        lemma_other(s, w, other);
    }
}

/// What was put under a token is found under it, what was removed is not, and neither touches
/// what stands under another token.
pub proof fn law_registry_reads_back<X>(s: Seq<(u32, X)>, t: u32, x: X, other: u32)
    requires
        ascending(s),
        other != t,
    ensures
        lookup(put(s, t, x), t) == Some(x),
        lookup(without(s, t), t) is None,
        lookup(put(s, t, x), other) == lookup(s, other),
        lookup(without(s, t), other) == lookup(s, other),
{
    lemma_put_is_found(s, t, x);
    lemma_removed_is_gone(s, t);
    lemma_put_elsewhere(s, t, x, other);
    lemma_removed_elsewhere(s, t, other);
}

/// Taking an entry out before putting one in makes no difference.
pub proof fn lemma_put_without<X>(s: Seq<(u32, X)>, t: u32, x: X)
    requires
        ascending(s),
    ensures
        put(without(s, t), t, x) == put(s, t, x),
{
    lemma_slot_is(s, t);
    let k = slot(s, t) as int;
    let w = without(s, t);
    if holds(s, t) {
        assert forall|j: int| 0 <= j < k implies (#[trigger] w[j]).0 < t by {
            assert(w[j] == s[j]);
        }
        if k < w.len() {
            assert(w[k] == s[k + 1]);
            assert(s[k].0 < s[k + 1].0);
        }
        lemma_slot(w, t, k);
        assert(put(w, t, x) =~= put(s, t, x));
    }
}

/// The entry that gives way is there, and is not the one that is kept.
pub proof fn lemma_lowest_but<X>(s: Seq<(u32, X)>, keep: Option<u32>)
    requires
        ascending(s),
        s.len() >= 2,
    ensures
        holds(s, lowest_but(s, keep)),
        without(s, lowest_but(s, keep)).len() == s.len() - 1,
        keep != Some(lowest_but(s, keep)),
{
    assert(s[0].0 < s[1].0);
    if keep == Some(s[0].0) {
        lemma_slot(s, s[1].0, 1);
    } else {
        lemma_slot(s, s[0].0, 0);
    }
}

/// A registry that takes in one more entry and makes room for it stays ordered and within its
/// bound, and an entry that is kept is found under its token.
pub proof fn law_registry_stays_bounded<X>(
    s: Seq<(u32, X)>,
    t: u32,
    x: X,
    max: nat,
    keep: Option<u32>,
)
    requires
        ascending(s),
        1 <= max,
        s.len() <= max,
    ensures
        ascending(within_bound(put(s, t, x), max, keep)),
        within_bound(put(s, t, x), max, keep).len() <= max,
        keep == Some(t) ==> lookup(within_bound(put(s, t, x), max, keep), t) == Some(x),
{
    let p = put(s, t, x);
    lemma_order_kept(s, t, x);
    lemma_put_is_found(s, t, x);
    if p.len() > max {
        let low = lowest_but(p, keep);
        lemma_lowest_but(p, keep);
        lemma_order_kept(p, low, x);
        if keep == Some(t) {
            lemma_removed_elsewhere(p, low, t);
        }
    }
}

/// What a filter leaves of an ordered registry is ordered, and is found where it was.
pub proof fn lemma_filter_ascending<X>(s: Seq<(u32, X)>, p: spec_fn((u32, X)) -> bool)
    requires
        ascending(s),
    ensures
        ascending(s.filter(p)),
        forall|j: int|
            0 <= j < s.filter(p).len() ==> lookup(s, (#[trigger] s.filter(p)[j]).0) == Some(
                s.filter(p)[j].1,
            ),
{
    lemma_filter_order(s, p);
    let f = s.filter(p);
    assert forall|j: int| 0 <= j < f.len() implies lookup(s, (#[trigger] f[j]).0) == Some(
        f[j].1,
    ) by {
        assert(s.contains(f[j]));
        let i = choose|i: int| 0 <= i < s.len() && s[i] == f[j];
        assert forall|q: int| 0 <= q < i implies (#[trigger] s[q]).0 < f[j].0 by {
            assert(s[q].0 < s[i].0);
        }
        lemma_slot(s, f[j].0, i);
    }
}

proof fn lemma_filter_order<X>(s: Seq<(u32, X)>, p: spec_fn((u32, X)) -> bool)
    requires
        ascending(s),
    ensures
        ascending(s.filter(p)),
        forall|j: int| 0 <= j < s.filter(p).len() ==> s.contains(#[trigger] s.filter(p)[j]),
    decreases s.len(),
{
    reveal(Seq::filter);
    if s.len() > 0 {
        let d = s.drop_last();
        assert(ascending(d)) by {
            assert forall|i: int, j: int| 0 <= i < j < d.len() implies (#[trigger] d[i]).0 < (
            #[trigger] d[j]).0 by {
                assert(s[i].0 < s[j].0);
            }
        }
        lemma_filter_order(d, p);
        let f = s.filter(p);
        let fd = d.filter(p);
        assert forall|j: int| 0 <= j < fd.len() implies s.contains(#[trigger] fd[j]) by {
            assert(d.contains(fd[j]));
            let i = choose|i: int| 0 <= i < d.len() && d[i] == fd[j];
            assert(s[i] == fd[j]);
        }
        if p(s.last()) {
            assert(f == fd.push(s.last()));
            assert forall|i: int, j: int| 0 <= i < j < f.len() implies (#[trigger] f[i]).0 < (
            #[trigger] f[j]).0 by {
                if j < fd.len() {
                    assert(fd[i].0 < fd[j].0);
                } else {
                    assert(d.contains(fd[i]));
                    let q = choose|q: int| 0 <= q < d.len() && d[q] == fd[i];
                    assert(s[q].0 < s[s.len() - 1].0);
                }
            }
            assert forall|j: int| 0 <= j < f.len() implies s.contains(#[trigger] f[j]) by {
                if j < fd.len() {
                    assert(f[j] == fd[j]);
                } else {
                    assert(f[j] == s[s.len() - 1]);
                }
            }
        }
    }
}


/// Values under tokens.
pub struct TokenMap<V> {
    entries: Vec<(u32, V)>,
}

impl<V: View> View for TokenMap<V> {
    type V = Seq<(u32, V::V)>;

    closed spec fn view(&self) -> Seq<(u32, V::V)> {
        views(self.entries@)
    }
}

impl<V: View> TokenMap<V> {
    pub open spec fn wf(&self) -> bool {
        ascending(self@)
    }

    pub fn new() -> (r: Self)
        ensures
            r@ == Seq::<(u32, V::V)>::empty(),
            r.wf(),
    {
        let r = TokenMap { entries: Vec::new() };
        assert(r@ =~= Seq::<(u32, V::V)>::empty());
        r
    }

    pub fn len(&self) -> (n: usize)
        ensures
            n == self@.len(),
    {
        self.entries.len()
    }

    fn place(&self, t: u32) -> (i: usize)
        ensures
            i == slot(self@, t),
            i <= self.entries@.len(),
    {
        let mut i: usize = 0;
        while i < self.entries.len() && self.entries[i].0 < t
            invariant
                i <= self.entries@.len(),
                forall|j: int| 0 <= j < i ==> (#[trigger] self@[j]).0 < t,
            decreases self.entries@.len() - i,
        {
            assert(self@[i as int].0 == self.entries@[i as int].0);
            i += 1;
        }
        proof {
            if i < self.entries@.len() {
                assert(self@[i as int].0 == self.entries@[i as int].0);
            }
            lemma_slot(self@, t, i as int);
        }
        i
    }

    /// The token and the value at a position, counted in the order of tokens.
    pub fn at(&self, i: usize) -> (r: (u32, &V))
        requires
            i < self@.len(),
        ensures
            (r.0, r.1@) == self@[i as int],
    {
        let e = &self.entries[i];
        assert(self@[i as int] == (self.entries@[i as int])@);
        (e.0, &e.1)
    }

    /// The lowest token other than `keep`.
    pub fn lowest(&self, keep: Option<u32>) -> (t: u32)
        requires
            self@.len() >= 2,
        ensures
            t == lowest_but(self@, keep),
    {
        let (first, _) = self.at(0);
        let (second, _) = self.at(1);
        match keep {
            Some(k) if k == first => second,
            _ => first,
        }
    }

    /// The value under a token.
    pub fn get(&self, t: u32) -> (r: Option<&V>)
        ensures
            match r {
                Some(v) => lookup(self@, t) == Some(v@),
                None => lookup(self@, t) is None,
            },
    {
        let i = self.place(t);
        if i < self.entries.len() {
            let e = &self.entries[i];
            assert(self@[i as int] == (self.entries@[i as int])@);
            if e.0 == t {
                return Some(&e.1);
            }
        }
        None
    }

    /// Puts a value under a token, in place of what was there.
    pub fn insert(&mut self, t: u32, v: V)
        requires
            old(self).wf(),
        ensures
            final(self)@ == put(old(self)@, t, v@),
            final(self).wf(),
    {
        let i = self.place(t);
        let ghost before = self.entries@;
        proof {
            lemma_order_kept(self@, t, v@);
        }
        let present = i < self.entries.len() && self.entries[i].0 == t;
        if i < self.entries.len() {
            assert(self@[i as int].0 == self.entries@[i as int].0);
        }
        if present {
            self.entries.set(i, (t, v));
            assert(views(self.entries@) =~= views(before).update(i as int, (t, v@)));
        } else {
            self.entries.insert(i, (t, v));
            assert(views(self.entries@) =~= views(before).insert(i as int, (t, v@)));
        }
    }

    /// Takes the value under a token out.
    pub fn remove(&mut self, t: u32) -> (r: Option<V>)
        requires
            old(self).wf(),
        ensures
            final(self)@ == without(old(self)@, t),
            final(self).wf(),
            match r {
                Some(v) => lookup(old(self)@, t) == Some(v@),
                None => lookup(old(self)@, t) is None,
            },
    {
        let i = self.place(t);
        let ghost before = self.entries@;
        proof {
            if self@.len() > 0 {
                lemma_order_kept(self@, t, self@[0].1);
            }
        }
        if i < self.entries.len() {
            assert(self@[i as int] == (self.entries@[i as int])@);
            if self.entries[i].0 == t {
                let e = self.entries.remove(i);
                assert(views(self.entries@) =~= views(before).remove(i as int));
                return Some(e.1);
            }
        }
        None
    }
}

/// An entry is found under its token, and nothing under a token that no entry has.
pub proof fn law_entries_are_found_by_token<X>(s: Seq<(u32, X)>, t: u32, i: int)
    requires
        ascending(s),
    ensures
        0 <= i < s.len() && s[i].0 == t ==> lookup(s, t) == Some(s[i].1),
        (forall|k: int| 0 <= k < s.len() ==> (#[trigger] s[k]).0 != t) ==> lookup(s, t) is None,
{
    lemma_slot_is(s, t);
    let k = slot(s, t) as int;
    if 0 <= i < s.len() && s[i].0 == t {
        if k < i {
            assert(s[k].0 < s[i].0);
        }
    }
}

/// A registry beyond its bound gives up the entry with the lowest token, but for one to keep; a
/// registry within it gives up none.
pub proof fn law_the_lowest_token_is_given_up<X>(
    s: Seq<(u32, X)>,
    max: nat,
    keep: Option<u32>,
    t: u32,
)
    requires
        ascending(s),
        s.len() >= 2,
    ensures
        s.len() <= max ==> within_bound(s, max, keep) == s,
        s.len() > max && keep != Some(s[0].0) && t != s[0].0 ==> lookup(
            within_bound(s, max, keep),
            t,
        ) == lookup(s, t),
        s.len() > max && keep != Some(s[0].0) ==> lookup(within_bound(s, max, keep), s[0].0)
            is None,
        s.len() > max && keep == Some(s[0].0) ==> lookup(within_bound(s, max, keep), s[0].0)
            == Some(s[0].1) && lookup(within_bound(s, max, keep), s[1].0) is None,
{
    let gone = lowest_but(s, keep);
    lemma_removed_is_gone(s, gone);
    law_entries_are_found_by_token(s, s[0].0, 0);
    if t != gone {
        law_registry_reads_back(s, gone, s[0].1, t);
    }
    if s[0].0 != gone {
        law_registry_reads_back(s, gone, s[0].1, s[0].0);
    }
}

} // verus!
