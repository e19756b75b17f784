//! Putting things in order: by number, or by text as its bytes compare.
use vstd::prelude::*;
use vstd::string::*;

verus! {

/// What something is ordered by.
pub enum Key {
    Number(u64),
    Text(Vec<u8>),
}

pub enum KeyView {
    Number(u64),
    Text(Seq<u8>),
}

impl View for Key {
    type V = KeyView;

    open spec fn view(&self) -> KeyView {
        match self {
            Key::Number(n) => KeyView::Number(*n),
            Key::Text(t) => KeyView::Text(t@),
        }
    }
}

/// Whether one run of bytes stands before another: at the first place where they differ it has
/// the lesser byte, or it is a proper prefix.
pub open spec fn bytes_before(a: Seq<u8>, b: Seq<u8>) -> bool
    decreases a.len(),
{
    if b.len() == 0 {
        false
    } else if a.len() == 0 {
        true
    } else if a[0] != b[0] {
        a[0] < b[0]
    } else {
        bytes_before(a.skip(1), b.skip(1))
    }
}

/// Whether one key stands before another. A number stands before any text.
pub open spec fn key_before(a: KeyView, b: KeyView) -> bool {
    match (a, b) {
        (KeyView::Number(x), KeyView::Number(y)) => x < y,
        (KeyView::Text(x), KeyView::Text(y)) => bytes_before(x, y),
        (KeyView::Number(_), KeyView::Text(_)) => true,
        (KeyView::Text(_), KeyView::Number(_)) => false,
    }
}

pub proof fn lemma_bytes_before_irreflexive(a: Seq<u8>)
    ensures
        !bytes_before(a, a),
    decreases a.len(),
{
    if a.len() > 0 {
        lemma_bytes_before_irreflexive(a.skip(1));
    }
}

pub proof fn lemma_bytes_before_transitive(a: Seq<u8>, b: Seq<u8>, c: Seq<u8>)
    requires
        bytes_before(a, b),
        bytes_before(b, c),
    ensures
        bytes_before(a, c),
    decreases a.len(),
{
    if a.len() > 0 && b.len() > 0 && c.len() > 0 && a[0] == b[0] && b[0] == c[0] {
        lemma_bytes_before_transitive(a.skip(1), b.skip(1), c.skip(1));
    }
}

pub proof fn lemma_bytes_before_total(a: Seq<u8>, b: Seq<u8>)
    ensures
        a == b || bytes_before(a, b) || bytes_before(b, a),
    decreases a.len(),
{
    if a.len() > 0 && b.len() > 0 {
        if a[0] == b[0] {
            lemma_bytes_before_total(a.skip(1), b.skip(1));
            if a.skip(1) == b.skip(1) {
                assert(a =~= seq![a[0]] + a.skip(1));
                assert(b =~= seq![b[0]] + b.skip(1));
            }
        }
    } else if a.len() == 0 && b.len() == 0 {
        assert(a =~= b);
    }
}

pub proof fn lemma_key_order(a: KeyView, b: KeyView, c: KeyView)
    ensures
        !key_before(a, a),
        key_before(a, b) && key_before(b, c) ==> key_before(a, c),
        a == b || key_before(a, b) || key_before(b, a),
        !(key_before(a, b) && key_before(b, a)),
{
    if let KeyView::Text(x) = a {
        lemma_bytes_before_irreflexive(x);
        if let KeyView::Text(y) = b {
            lemma_bytes_before_total(x, y);
            if bytes_before(x, y) && bytes_before(y, x) {
                lemma_bytes_before_transitive(x, y, x);
            }
            if let KeyView::Text(z) = c {
                if bytes_before(x, y) && bytes_before(y, z) {
                    lemma_bytes_before_transitive(x, y, z);
                }
            }
        }
    }
}

fn text_before(a: &Vec<u8>, b: &Vec<u8>) -> (r: bool)
    ensures
        r == bytes_before(a@, b@),
{
    let mut i: usize = 0;
    assert(a@.skip(0) =~= a@);
    assert(b@.skip(0) =~= b@);
    while i < a.len() && i < b.len()
        invariant
            i <= a@.len(),
            i <= b@.len(),
            bytes_before(a@, b@) == bytes_before(a@.skip(i as int), b@.skip(i as int)),
        decreases a@.len() - i,
    {
        assert(a@.skip(i as int).skip(1) =~= a@.skip(i as int + 1));
        assert(b@.skip(i as int).skip(1) =~= b@.skip(i as int + 1));
        if a[i] != b[i] {
            return a[i] < b[i];
        }
        i += 1;
    }
    i < b.len()
}

/// A text as its bytes, which is what orders it.
pub open spec fn text_key(s: Seq<char>) -> KeyView {
    KeyView::Text(vstd::utf8::encode_utf8(s))
}

/// The key that orders a text by its bytes.
pub fn key_of_text(s: &str) -> (key: Key)
    ensures
        key@ == text_key(s@),
{
    let bytes = s.as_bytes();
    let mut copy: Vec<u8> = Vec::new();
    let mut i: usize = 0;
    while i < bytes.len()
        invariant
            i <= bytes@.len(),
            copy@ == bytes@.take(i as int),
        decreases bytes@.len() - i,
    {
        copy.push(bytes[i]);
        i += 1;
        assert(bytes@.take(i as int) =~= bytes@.take(i as int - 1).push(bytes@[i as int - 1]));
    }
    assert(bytes@.take(i as int) =~= bytes@);
    Key::Text(copy)
}

/// Whether one key stands before another.
pub fn is_before(a: &Key, b: &Key) -> (r: bool)
    ensures
        r == key_before(a@, b@),
{
    match (a, b) {
        (Key::Number(x), Key::Number(y)) => *x < *y,
        (Key::Text(x), Key::Text(y)) => text_before(x, y),
        (Key::Number(_), Key::Text(_)) => true,
        (Key::Text(_), Key::Number(_)) => false,
    }
}

/// Whether position `i` comes before position `j` in a stable order by `keys`: by key, and among
/// equal keys as they stand.
pub open spec fn goes_before(keys: Seq<KeyView>, i: int, j: int) -> bool {
    key_before(keys[i], keys[j]) || (keys[i] == keys[j] && i < j)
}

/// Whether `order` lists the positions below `n`, each once, in the stable order by `keys`.
pub open spec fn is_stable_order(order: Seq<usize>, keys: Seq<KeyView>, n: int) -> bool {
    &&& order.len() == n
    &&& forall|a: int| 0 <= a < n ==> 0 <= #[trigger] order[a] < n
    &&& forall|p: int| 0 <= p < n ==> #[trigger] listed_at(order, p)
    &&& forall|a: int, b: int|
        0 <= a < b < n ==> goes_before(keys, #[trigger] order[a] as int, #[trigger] order[b] as int)
}

pub open spec fn listed_at(order: Seq<usize>, p: int) -> bool {
    exists|a: int| 0 <= a < order.len() && #[trigger] order[a] == p
}

proof fn lemma_goes_before(keys: Seq<KeyView>, i: int, j: int, k: int)
    ensures
        goes_before(keys, i, j) && goes_before(keys, j, k) ==> goes_before(keys, i, k),
        i != j ==> goes_before(keys, i, j) || goes_before(keys, j, i),
{
    lemma_key_order(keys[i], keys[j], keys[k]);
    lemma_key_order(keys[j], keys[k], keys[i]);
    lemma_key_order(keys[i], keys[k], keys[j]);
}

/// The positions of `keys` in their stable order.
pub fn stable_order(keys: &Vec<Key>) -> (order: Vec<usize>)
    ensures
        is_stable_order(order@, crate::text::views(keys@), keys@.len() as int),
{
    broadcast use crate::text::group_views;

    let ghost ks = crate::text::views(keys@);
    let mut order: Vec<usize> = Vec::new();
    let mut n: usize = 0;
    while n < keys.len()
        invariant
            n <= keys@.len(),
            ks == crate::text::views(keys@),
            is_stable_order(order@, ks, n as int),
        decreases keys@.len() - n,
    {
        let at = place_for(keys, &order, n);
        let ghost before = order@;
        order.insert(at, n);
        proof {
            lemma_inserted(before, ks, n as int, at as int);
        }
        n += 1;
    }
    order
}

/// Where position `n` goes among those below it: behind all whose key is not greater.
fn place_for(keys: &Vec<Key>, order: &Vec<usize>, n: usize) -> (at: usize)
    requires
        n < keys@.len(),
        is_stable_order(order@, crate::text::views(keys@), n as int),
    ensures
        at <= n,
        forall|a: int|
            0 <= a < at ==> goes_before(
                crate::text::views(keys@),
                #[trigger] order@[a] as int,
                n as int,
            ),
        forall|a: int|
            at <= a < n ==> goes_before(
                crate::text::views(keys@),
                n as int,
                #[trigger] order@[a] as int,
            ),
{
    broadcast use crate::text::group_views;

    let ghost ks = crate::text::views(keys@);
    let mut lo: usize = 0;
    let mut hi: usize = n;
    while lo < hi
        invariant
            lo <= hi <= n < keys@.len(),
            ks == crate::text::views(keys@),
            is_stable_order(order@, ks, n as int),
            forall|a: int|
                0 <= a < lo ==> goes_before(ks, #[trigger] order@[a] as int, n as int),
            forall|a: int|
                hi <= a < n ==> goes_before(ks, n as int, #[trigger] order@[a] as int),
        decreases hi - lo,
    {
        let mid: usize = lo + (hi - lo) / 2;
        let p: usize = order[mid];
        if is_before(&keys[n], &keys[p]) {
            assert(goes_before(ks, n as int, p as int));
            assert forall|a: int| mid <= a < n implies goes_before(
                ks,
                n as int,
                #[trigger] order@[a] as int,
            ) by {
                if a > mid {
                    assert(goes_before(ks, order@[mid as int] as int, order@[a] as int));
                    lemma_goes_before(ks, n as int, p as int, order@[a] as int);
                }
            }
            hi = mid;
        } else {
            proof {
                lemma_key_order(ks[n as int], ks[p as int], ks[p as int]);
            }
            assert(goes_before(ks, p as int, n as int));
            assert forall|a: int| 0 <= a < mid + 1 implies goes_before(
                ks,
                #[trigger] order@[a] as int,
                n as int,
            ) by {
                if a < mid {
                    assert(goes_before(ks, order@[a] as int, order@[mid as int] as int));
                    lemma_goes_before(ks, order@[a] as int, p as int, n as int);
                }
            }
            lo = mid + 1;
        }
    }
    lo
}

proof fn lemma_inserted(before: Seq<usize>, keys: Seq<KeyView>, n: int, at: int)
    requires
        0 <= n < keys.len(),
        n <= usize::MAX,
        is_stable_order(before, keys, n),
        0 <= at <= n,
        forall|a: int| 0 <= a < at ==> goes_before(keys, #[trigger] before[a] as int, n),
        forall|a: int| at <= a < n ==> goes_before(keys, n, #[trigger] before[a] as int),
    ensures
        is_stable_order(before.insert(at, n as usize), keys, n + 1),
{
    let after = before.insert(at, n as usize);
    assert(after[at] == n);
    assert forall|p: int| 0 <= p < n + 1 implies #[trigger] listed_at(after, p) by {
        if p == n {
            assert(after[at] == p);
        } else {
            assert(listed_at(before, p));
            let a = choose|a: int| 0 <= a < before.len() && #[trigger] before[a] == p;
            if a < at {
                assert(after[a] == p);
            } else {
                assert(after[a + 1] == p);
            }
        }
    }
    assert forall|a: int, b: int| 0 <= a < b < n + 1 implies goes_before(
        keys,
        #[trigger] after[a] as int,
        #[trigger] after[b] as int,
    ) by {
        let a0 = if a < at {
            a
        } else {
            a - 1
        };
        let b0 = if b < at {
            b
        } else {
            b - 1
        };
        if a != at && b != at {
            assert(after[a] == before[a0] && after[b] == before[b0]);
            assert(goes_before(keys, before[a0] as int, before[b0] as int));
        } else if a == at {
            assert(after[b] == before[b0]);
        } else {
            assert(after[a] == before[a0]);
        }
    }
}

/// Where position `n` goes among the positions below it, of which the first `k` stand before it.
proof fn lemma_place(order: Seq<usize>, keys: Seq<KeyView>, n: int, k: int) -> (at: int)
    requires
        is_stable_order(order, keys, n),
        0 <= n < keys.len(),
        0 <= k <= n,
        forall|a: int| 0 <= a < k ==> goes_before(keys, #[trigger] order[a] as int, n),
    ensures
        0 <= at <= n,
        forall|a: int| 0 <= a < at ==> goes_before(keys, #[trigger] order[a] as int, n),
        forall|a: int| at <= a < n ==> goes_before(keys, n, #[trigger] order[a] as int),
    decreases n - k,
{
    if k == n {
        n
    } else if goes_before(keys, order[k] as int, n) {
        lemma_place(order, keys, n, k + 1)
    } else {
        lemma_goes_before(keys, order[k] as int, n, n);
        assert forall|a: int| k <= a < n implies goes_before(
            keys,
            n,
            #[trigger] order[a] as int,
        ) by {
            if a > k {
                assert(goes_before(keys, order[k] as int, order[a] as int));
                lemma_goes_before(keys, n, order[k] as int, order[a] as int);
            }
        }
        k
    }
}

/// There is a stable order of the first `n` positions.
pub proof fn lemma_stable_order_exists(keys: Seq<KeyView>, n: int) -> (order: Seq<usize>)
    requires
        0 <= n <= keys.len(),
        n <= usize::MAX,
    ensures
        is_stable_order(order, keys, n),
    decreases n,
{
    if n == 0 {
        Seq::empty()
    } else {
        let before = lemma_stable_order_exists(keys, n - 1);
        let at = lemma_place(before, keys, n - 1, 0);
        lemma_inserted(before, keys, n - 1, at);
        before.insert(at, (n - 1) as usize)
    }
}

/// There is only one stable order.
pub proof fn law_stable_order_is_unique(
    x: Seq<usize>,
    y: Seq<usize>,
    keys: Seq<KeyView>,
    n: int,
)
    requires
        is_stable_order(x, keys, n),
        is_stable_order(y, keys, n),
    ensures
        x == y,
{
    lemma_orders_agree(x, y, keys, n, n);
    assert(x =~= y);
}

proof fn lemma_orders_agree(x: Seq<usize>, y: Seq<usize>, keys: Seq<KeyView>, n: int, k: int)
    requires
        is_stable_order(x, keys, n),
        is_stable_order(y, keys, n),
        0 <= k <= n,
    ensures
        forall|i: int| 0 <= i < k ==> x[i] == y[i],
    decreases k,
{
    if k > 0 {
        lemma_orders_agree(x, y, keys, n, k - 1);
        let p = x[k - 1] as int;
        let q = y[k - 1] as int;
        if p != q {
            assert(listed_at(y, p));
            let a = choose|a: int| 0 <= a < y.len() && #[trigger] y[a] == p;
            assert(listed_at(x, q));
            let b = choose|b: int| 0 <= b < x.len() && #[trigger] x[b] == q;
            if a < k - 1 {
                assert(x[a] == y[a]);
                assert(goes_before(keys, x[a] as int, x[k - 1] as int));
                lemma_key_order(keys[p], keys[p], keys[p]);
            } else if b < k - 1 {
                assert(x[b] == y[b]);
                assert(goes_before(keys, y[b] as int, y[k - 1] as int));
                lemma_key_order(keys[q], keys[q], keys[q]);
            } else {
                assert(goes_before(keys, y[k - 1] as int, y[a] as int));
                assert(goes_before(keys, x[k - 1] as int, x[b] as int));
                lemma_key_order(keys[p], keys[q], keys[p]);
            }
        }
    }
}

/// One run of bytes stands before another if and only if, behind what both begin with, it ends or
/// goes on with the lesser byte.
pub proof fn law_bytes_stand_by_their_first_difference(a: Seq<u8>, b: Seq<u8>, k: int)
    requires
        0 <= k <= a.len(),
        k <= b.len(),
        forall|i: int| 0 <= i < k ==> a[i] == b[i],
        k < a.len() && k < b.len() ==> a[k] != b[k],
    ensures
        k < a.len() && k < b.len() ==> bytes_before(a, b) == (a[k] < b[k]),
        k == a.len() || k == b.len() ==> bytes_before(a, b) == (a.len() < b.len()),
    decreases k,
{
    if k > 0 {
        assert forall|i: int| 0 <= i < k - 1 implies a.skip(1)[i] == b.skip(1)[i] by {
            assert(a[i + 1] == b[i + 1]);
        }
        law_bytes_stand_by_their_first_difference(a.skip(1), b.skip(1), k - 1);
    }
}

} // verus!
