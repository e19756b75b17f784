//! Uploads that were offered and have not started yet.
use vstd::prelude::*;
use vstd::string::*;
use crate::text::{group_views, same, views};
use crate::tokens::{ascending, lookup, lowest_but, put, without, TokenMap};

verus! {

broadcast use group_views;

/// Bound on the registries of transfers by token: the uploads that we offered, and the downloads
/// that were agreed on. A peer that asks for files and never takes them, or offers files and never
/// sends them, would otherwise grow them without limit.
pub const MAX_PENDING_TRANSFERS: usize = 1024;

/// The waiting uploads, first come first. They are always served in that order: the setting
/// `sharing.fifo_queue` has no effect on it.
pub struct UploadQueue {
    waiting: Vec<u64>,
    next_id: u64,
}

pub struct QueueModel {
    pub waiting: Seq<u64>,
    pub next_id: u64,
}

/// The position of an upload, counted from 1; 0 for one that is not waiting.
pub open spec fn place_of(waiting: Seq<u64>, id: u64) -> nat
    decreases waiting.len(),
{
    if waiting.len() == 0 {
        0
    } else if waiting[0] == id {
        1
    } else {
        let rest = place_of(waiting.skip(1), id);
        if rest == 0 {
            0
        } else {
            rest + 1
        }
    }
}

pub open spec fn not_id(id: u64) -> spec_fn(u64) -> bool {
    |x: u64| x != id
}

pub open spec fn enqueued(q: QueueModel) -> QueueModel {
    QueueModel {
        waiting: q.waiting.push(q.next_id),
        next_id: ((q.next_id + 1) % 0x1_0000_0000_0000_0000) as u64,
    }
}

pub open spec fn dequeued(q: QueueModel, id: u64) -> QueueModel {
    QueueModel { waiting: q.waiting.filter(not_id(id)), ..q }
}

impl View for UploadQueue {
    type V = QueueModel;

    closed spec fn view(&self) -> QueueModel {
        QueueModel { waiting: self.waiting@, next_id: self.next_id }
    }
}

impl UploadQueue {
    pub fn new() -> (r: Self)
        ensures
            r@ == (QueueModel { waiting: Seq::empty(), next_id: 0 }),
    {
        let r = UploadQueue { waiting: Vec::new(), next_id: 0 };
        assert(r@.waiting =~= Seq::empty());
        r
    }

    /// How many uploads wait.
    pub fn len(&self) -> (n: usize)
        ensures
            n == self@.waiting.len(),
    {
        self.waiting.len()
    }

    /// An upload gets in line, under the id that is returned.
    pub fn enqueue(&mut self) -> (id: u64)
        ensures
            id == old(self)@.next_id,
            final(self)@ == enqueued(old(self)@),
    {
        let id: u64 = self.next_id;
        self.next_id = self.next_id.wrapping_add(1);
        self.waiting.push(id);
        id
    }

    /// An upload leaves the line.
    pub fn dequeue(&mut self, id: u64)
        ensures
            final(self)@ == dequeued(old(self)@, id),
    {
        let mut kept: Vec<u64> = Vec::new();
        let mut i: usize = 0;
        proof {
            reveal(Seq::filter);
            assert(self.waiting@.take(0) =~= Seq::empty());
            assert(kept@ =~= self.waiting@.take(0).filter(not_id(id)));
        }
        while i < self.waiting.len()
            invariant
                i <= self.waiting@.len(),
                *self == *old(self),
                kept@ == self.waiting@.take(i as int).filter(not_id(id)),
            decreases self.waiting@.len() - i,
        {
            proof {
                reveal(Seq::filter);
                assert(self.waiting@.take(i as int + 1).drop_last() =~= self.waiting@.take(
                    i as int,
                ));
            }
            if self.waiting[i] != id {
                kept.push(self.waiting[i]);
            }
            i += 1;
        }
        assert(self.waiting@.take(i as int) =~= self.waiting@);
        self.waiting = kept;
    }

    /// Where an upload stands in line, counted from 1; 0 where it does not.
    pub fn place_in_queue(&self, id: u64) -> (r: usize)
        ensures
            r == place_of(self@.waiting, id),
    {
        let mut i: usize = 0;
        let ghost all = self.waiting@;
        assert(all.skip(0) =~= all);
        while i < self.waiting.len()
            invariant
                i <= all.len(),
                all == self.waiting@,
                place_of(all, id) == (if place_of(all.skip(i as int), id) == 0 {
                    0
                } else {
                    place_of(all.skip(i as int), id) + i as nat
                }),
            decreases all.len() - i,
        {
            assert(all.skip(i as int).skip(1) =~= all.skip(i as int + 1));
            if self.waiting[i] == id {
                return i + 1;
            }
            i += 1;
        }
        0
    }
}

/// An upload that was offered to a peer.
#[derive(Debug, PartialEq)]
pub struct PendingUpload {
    pub username: String,
    pub filename: String,
    pub real_path: String,
    pub size: u64,
    /// Whether the peer has said that it takes the file, so that we connect to it.
    pub approved: bool,
    /// The upload's id in the queue.
    pub transfer_id: u64,
}

pub struct PendingUploadView {
    pub username: Seq<char>,
    pub filename: Seq<char>,
    pub real_path: Seq<char>,
    pub size: u64,
    pub approved: bool,
    pub transfer_id: u64,
}

impl View for PendingUpload {
    type V = PendingUploadView;

    open spec fn view(&self) -> PendingUploadView {
        PendingUploadView {
            username: self.username@,
            filename: self.filename@,
            real_path: self.real_path@,
            size: self.size,
            approved: self.approved,
            transfer_id: self.transfer_id,
        }
    }
}

/// The offers by token, together with the queue in which they wait.
pub struct OffersModel {
    pub by_token: Seq<(u32, PendingUploadView)>,
    pub queue: QueueModel,
}

/// An offer leaves the registry and its queue together.
pub open spec fn withdrawn(m: OffersModel, token: u32) -> OffersModel {
    match lookup(m.by_token, token) {
        Some(u) => OffersModel {
            by_token: without(m.by_token, token),
            queue: dequeued(m.queue, u.transfer_id),
        },
        None => m,
    }
}

/// Where there are too many offers the one with the lowest token, other than `keep`, gives way.
pub open spec fn bounded(m: OffersModel, keep: Option<u32>) -> OffersModel {
    if m.by_token.len() > MAX_PENDING_TRANSFERS {
        withdrawn(m, lowest_but(m.by_token, keep))
    } else {
        m
    }
}

/// A file is offered under a token, last in the queue. `keep` says whether the new offer itself
/// may never be the one that gives way.
pub open spec fn offered(
    m: OffersModel,
    token: u32,
    username: Seq<char>,
    filename: Seq<char>,
    real_path: Seq<char>,
    size: u64,
    keep: bool,
) -> OffersModel {
    let u = PendingUploadView {
        username,
        filename,
        real_path,
        size,
        approved: false,
        transfer_id: m.queue.next_id,
    };
    bounded(
        OffersModel { by_token: put(m.by_token, token, u), queue: enqueued(m.queue) },
        if keep {
            Some(token)
        } else {
            None
        },
    )
}

/// The offer of a file to a user; of several, the one with the lowest token.
pub open spec fn first_offer(
    s: Seq<(u32, PendingUploadView)>,
    username: Seq<char>,
    filename: Seq<char>,
) -> Option<PendingUploadView>
    decreases s.len(),
{
    if s.len() == 0 {
        None
    } else if s[0].1.username == username && s[0].1.filename == filename {
        Some(s[0].1)
    } else {
        first_offer(s.skip(1), username, filename)
    }
}

/// Where the offer of a file to a user stands in the queue; 0 where there is none.
pub open spec fn place_of_offer(m: OffersModel, username: Seq<char>, filename: Seq<char>) -> nat {
    match first_offer(m.by_token, username, filename) {
        Some(u) => place_of(m.queue.waiting, u.transfer_id),
        None => 0,
    }
}

/// Offers and their queue.
pub struct Uploads {
    by_token: TokenMap<PendingUpload>,
    queue: UploadQueue,
}

impl View for Uploads {
    type V = OffersModel;

    closed spec fn view(&self) -> OffersModel {
        OffersModel { by_token: self.by_token@, queue: self.queue@ }
    }
}

impl Uploads {
    /// The registry is ordered by token, and within its bound.
    pub open spec fn wf(&self) -> bool {
        ascending(self@.by_token) && self@.by_token.len() <= MAX_PENDING_TRANSFERS
    }

    pub fn new() -> (r: Self)
        ensures
            r.wf(),
            r@ == (OffersModel {
                by_token: Seq::empty(),
                queue: QueueModel { waiting: Seq::empty(), next_id: 0 },
            }),
    {
        Uploads { by_token: TokenMap::new(), queue: UploadQueue::new() }
    }

    /// How many uploads wait in the queue.
    pub fn queue_len(&self) -> (n: usize)
        ensures
            n == self@.queue.waiting.len(),
    {
        self.queue.len()
    }

    /// How many offers are registered.
    pub fn len(&self) -> (n: usize)
        ensures
            n == self@.by_token.len(),
    {
        self.by_token.len()
    }

    /// The offer under a token.
    pub fn get(&self, token: u32) -> (r: Option<&PendingUpload>)
        ensures
            match r {
                Some(u) => lookup(self@.by_token, token) == Some(u@),
                None => lookup(self@.by_token, token) is None,
            },
    {
        self.by_token.get(token)
    }

    fn drop_offer(&mut self, token: u32) -> (r: Option<PendingUpload>)
        requires
            ascending(old(self)@.by_token),
        ensures
            ascending(final(self)@.by_token),
            final(self)@ == withdrawn(old(self)@, token),
            match r {
                Some(u) => lookup(old(self)@.by_token, token) == Some(u@),
                None => lookup(old(self)@.by_token, token) is None,
            },
    {
        match self.by_token.remove(token) {
            Some(u) => {
                self.queue.dequeue(u.transfer_id);
                Some(u)
            },
            None => None,
        }
    }

    /// Takes an offer out of the registry and the queue.
    pub fn withdraw(&mut self, token: u32) -> (r: Option<PendingUpload>)
        requires
            old(self).wf(),
        ensures
            final(self).wf(),
            final(self)@ == withdrawn(old(self)@, token),
            match r {
                Some(u) => lookup(old(self)@.by_token, token) == Some(u@),
                None => lookup(old(self)@.by_token, token) is None,
            },
    {
        self.drop_offer(token)
    }

    /// Offers a file under a token.
    pub fn offer(
        &mut self,
        token: u32,
        username: &str,
        filename: &str,
        real_path: &str,
        size: u64,
        keep: bool,
    )
        requires
            old(self).wf(),
        ensures
            final(self).wf(),
            final(self)@ == offered(
                old(self)@,
                token,
                username@,
                filename@,
                real_path@,
                size,
                keep,
            ),
    {
        let ghost before = self@;
        let transfer_id = self.queue.enqueue();
        let u = PendingUpload {
            username: username.to_owned(),
            filename: filename.to_owned(),
            real_path: real_path.to_owned(),
            size,
            approved: false,
            transfer_id,
        };
        self.by_token.insert(token, u);
        assert(self@ == (OffersModel {
            by_token: put(before.by_token, token, u@),
            queue: enqueued(before.queue),
        }));
        proof {
            crate::tokens::lemma_order_kept(before.by_token, token, u@);
            crate::tokens::lemma_put_is_found(before.by_token, token, u@);
        }
        if self.by_token.len() > MAX_PENDING_TRANSFERS {
            let kept = if keep {
                Some(token)
            } else {
                None
            };
            proof {
                crate::tokens::lemma_lowest_but(self.by_token@, kept);
            }
            let lowest: u32 = self.by_token.lowest(kept);
            self.drop_offer(lowest);
        }
    }

    /// The peer takes the file: from now on we connect to it. Says whether there was an offer.
    pub fn approve(&mut self, token: u32) -> (r: bool)
        requires
            old(self).wf(),
        ensures
            final(self).wf(),
            r == (lookup(old(self)@.by_token, token) is Some),
            final(self)@ == (match lookup(old(self)@.by_token, token) {
                Some(u) => OffersModel {
                    by_token: put(
                        old(self)@.by_token,
                        token,
                        PendingUploadView { approved: true, ..u },
                    ),
                    ..old(self)@
                },
                None => old(self)@,
            }),
    {
        let ghost before = self.by_token@;
        match self.by_token.remove(token) {
            Some(u) => {
                let mut taken = u;
                taken.approved = true;
                let ghost v = taken@;
                proof {
                    crate::tokens::lemma_put_without(before, token, v);
                    crate::tokens::lemma_slot_is(before, token);
                }
                self.by_token.insert(token, taken);
                true
            },
            None => false,
        }
    }

    /// Where the offer of a file to a user stands in the queue; 0 where there is none.
    pub fn place(&self, username: &str, filename: &str) -> (r: usize)
        ensures
            r == place_of_offer(self@, username@, filename@),
    {
        let mut i: usize = 0;
        let ghost all = self.by_token@;
        assert(all.skip(0) =~= all);
        while i < self.by_token.len()
            invariant
                i <= all.len(),
                all == self.by_token@,
                first_offer(all, username@, filename@) == first_offer(
                    all.skip(i as int),
                    username@,
                    filename@,
                ),
            decreases all.len() - i,
        {
            let (_, u) = self.by_token.at(i);
            assert(all.skip(i as int)[0] == all[i as int]);
            assert(all.skip(i as int).skip(1) =~= all.skip(i as int + 1));
            if same(u.username.as_str(), username) && same(u.filename.as_str(), filename) {
                return self.queue.place_in_queue(u.transfer_id);
            }
            i += 1;
        }
        0
    }

    /// The offers to a user that it has approved, by token, taken out of registry and queue.
    pub fn take_approved(&mut self, username: &str) -> (r: Vec<(u32, PendingUpload)>)
        requires
            old(self).wf(),
        ensures
            final(self).wf(),
            views(r@) == old(self)@.by_token.filter(approved_for(username@)),
            final(self)@ == all_withdrawn(old(self)@, views(r@)),
    {
        let mut tokens: Vec<u32> = Vec::new();
        let mut i: usize = 0;
        let ghost all = self.by_token@;
        let ghost p = approved_for(username@);
        proof {
            reveal(Seq::filter);
            assert(all.take(0) =~= Seq::empty());
            assert(tokens@ =~= tokens_of(all.take(0).filter(p)));
        }
        while i < self.by_token.len()
            invariant
                i <= all.len(),
                *self == *old(self),
                all == self.by_token@,
                p == approved_for(username@),
                tokens@ == tokens_of(all.take(i as int).filter(p)),
            decreases all.len() - i,
        {
            let (token, u) = self.by_token.at(i);
            proof {
                reveal(Seq::filter);
                assert(all.take(i as int + 1).drop_last() =~= all.take(i as int));
                assert(all.take(i as int + 1).last() == (token, u@));
            }
            let ghost chosen = all.take(i as int).filter(p);
            if u.approved && same(u.username.as_str(), username) {
                tokens.push(token);
                assert(p((token, u@)));
                assert(all.take(i as int + 1).filter(p) == chosen.push((token, u@)));
                assert(tokens@ =~= tokens_of(chosen.push((token, u@))));
            } else {
                assert(!p((token, u@)));
            }
            i += 1;
        }
        assert(all.take(i as int) =~= all);
        let ghost chosen = all.filter(p);
        let mut out: Vec<(u32, PendingUpload)> = Vec::new();
        let mut k: usize = 0;
        assert(views(out@) =~= chosen.take(0));
        proof {
            crate::tokens::lemma_filter_ascending(all, p);
        }
        while k < tokens.len()
            invariant
                k <= tokens@.len(),
                self.wf(),
                ascending(chosen),
                tokens@ == tokens_of(chosen),
                views(out@) == chosen.take(k as int),
                self@ == all_withdrawn(old(self)@, chosen.take(k as int)),
                forall|j: int|
                    k <= j < chosen.len() ==> lookup(self@.by_token, (#[trigger] chosen[j]).0)
                        == Some(chosen[j].1),
            decreases tokens@.len() - k,
        {
            let token = tokens[k];
            assert(token == chosen[k as int].0);
            let ghost before = self@;
            match self.withdraw(token) {
                Some(u) => {
                    assert(u@ == chosen[k as int].1);
                    out.push((token, u));
                    assert(views(out@) =~= chosen.take(k as int + 1));
                },
                None => {},
            }
            proof {
                assert(chosen.take(k as int + 1).drop_last() =~= chosen.take(k as int));
                assert forall|j: int| k + 1 <= j < chosen.len() implies lookup(
                    self@.by_token,
                    (#[trigger] chosen[j]).0,
                ) == Some(chosen[j].1) by {
                    assert(chosen[k as int].0 < chosen[j].0);
                    crate::tokens::law_registry_reads_back(
                        before.by_token,
                        token,
                        chosen[k as int].1,
                        chosen[j].0,
                    );
                }
            }
            k += 1;
        }
        assert(chosen.take(k as int) =~= chosen);
        out
    }
}

/// Which offers are to a user that has approved them.
pub open spec fn approved_for(username: Seq<char>) -> spec_fn((u32, PendingUploadView)) -> bool {
    |e: (u32, PendingUploadView)| e.1.username == username && e.1.approved
}

pub open spec fn tokens_of(s: Seq<(u32, PendingUploadView)>) -> Seq<u32> {
    s.map_values(|e: (u32, PendingUploadView)| e.0)
}

/// The offers without some of them.
pub open spec fn all_withdrawn(m: OffersModel, some: Seq<(u32, PendingUploadView)>) -> OffersModel
    decreases some.len(),
{
    if some.len() == 0 {
        m
    } else {
        withdrawn(all_withdrawn(m, some.drop_last()), some.last().0)
    }
}

/// Registry and queue in step: each offer waits in the queue under an id of its own.
pub open spec fn in_step(m: OffersModel) -> bool {
    &&& forall|i: int|
        0 <= i < m.by_token.len() ==> m.queue.waiting.contains(
            (#[trigger] m.by_token[i]).1.transfer_id,
        )
    &&& forall|i: int, j: int|
        0 <= i < j < m.by_token.len() ==> (#[trigger] m.by_token[i]).1.transfer_id != (
        #[trigger] m.by_token[j]).1.transfer_id
    &&& forall|k: int| 0 <= k < m.queue.waiting.len() ==> #[trigger] m.queue.waiting[k]
        < m.queue.next_id
}

proof fn lemma_withdrawn_in_step(m: OffersModel, token: u32)
    requires
        ascending(m.by_token),
        in_step(m),
    ensures
        in_step(withdrawn(m, token)),
        ascending(withdrawn(m, token).by_token),
        withdrawn(m, token).queue.next_id == m.queue.next_id,
{
    broadcast use vstd::seq_lib::group_filter_ensures;

    if lookup(m.by_token, token) is Some {
        let s = m.by_token;
        let k = crate::tokens::slot(s, token) as int;
        let id = s[k].1.transfer_id;
        let w = withdrawn(m, token);
        crate::tokens::lemma_order_kept(s, token, s[k].1);
        assert forall|i: int| 0 <= i < w.by_token.len() implies w.queue.waiting.contains(
            (#[trigger] w.by_token[i]).1.transfer_id,
        ) by {
            let from = if i < k {
                i
            } else {
                i + 1
            };
            assert(w.by_token[i] == s[from]);
            let x = s[from].1.transfer_id;
            assert(x != id);
            assert(m.queue.waiting.contains(x));
            let q = choose|q: int| 0 <= q < m.queue.waiting.len() && m.queue.waiting[q] == x;
            assert(not_id(id)(m.queue.waiting[q]));
            m.queue.waiting.lemma_filter_contains(not_id(id), q);
        }
        assert forall|i: int, j: int| 0 <= i < j < w.by_token.len() implies (
        #[trigger] w.by_token[i]).1.transfer_id != (#[trigger] w.by_token[j]).1.transfer_id by {
            let a = if i < k {
                i
            } else {
                i + 1
            };
            let b = if j < k {
                j
            } else {
                j + 1
            };
            assert(w.by_token[i] == s[a] && w.by_token[j] == s[b]);
        }
        assert forall|q: int| 0 <= q < w.queue.waiting.len() implies #[trigger] w.queue.waiting[q]
            < w.queue.next_id by {
            let all = m.queue.waiting;
            assert(all.filter(not_id(id)).contains(w.queue.waiting[q]));
            lemma_filter_member(all, not_id(id), q);
        }
    }
}

proof fn lemma_filter_member(s: Seq<u64>, p: spec_fn(u64) -> bool, q: int)
    requires
        0 <= q < s.filter(p).len(),
    ensures
        s.contains(s.filter(p)[q]),
    decreases s.len(),
{
    reveal(Seq::filter);
    if s.len() > 0 {
        let d = s.drop_last();
        if q < d.filter(p).len() {
            lemma_filter_member(d, p, q);
            let i = choose|i: int| 0 <= i < d.len() && d[i] == d.filter(p)[q];
            assert(s[i] == s.filter(p)[q]);
        } else {
            assert(s[s.len() - 1] == s.filter(p)[q]);
        }
    }
}

/// The entries of a registry after putting one in are that one and the others.
proof fn lemma_put_entries(s: Seq<(u32, PendingUploadView)>, token: u32, u: PendingUploadView)
    requires
        ascending(s),
    ensures
        ({
            let p = put(s, token, u);
            let k = crate::tokens::slot(s, token) as int;
            &&& 0 <= k < p.len()
            &&& p[k] == (token, u)
            &&& forall|i: int|
                0 <= i < p.len() && i != k ==> #[trigger] p[i] == s[old_index(s, token, i)] && 0
                    <= old_index(s, token, i) < s.len()
        }),
{
    crate::tokens::lemma_slot_is(s, token);
}

/// Where an entry was before something was put under `token`.
spec fn old_index(s: Seq<(u32, PendingUploadView)>, token: u32, i: int) -> int {
    if crate::tokens::holds(s, token) || i < crate::tokens::slot(s, token) {
        i
    } else {
        i - 1
    }
}

proof fn lemma_offer_in_step(m: OffersModel, token: u32, u: PendingUploadView)
    requires
        ascending(m.by_token),
        in_step(m),
        m.queue.next_id < u64::MAX,
        u.transfer_id == m.queue.next_id,
    ensures
        in_step(OffersModel { by_token: put(m.by_token, token, u), queue: enqueued(m.queue) }),
{
    let s = m.by_token;
    let k = crate::tokens::slot(s, token) as int;
    let p = put(s, token, u);
    let w = m.queue.waiting;
    let q = enqueued(m.queue).waiting;
    lemma_put_entries(s, token, u);
    assert(q[w.len() as int] == m.queue.next_id);
    assert forall|i: int| 0 <= i < s.len() implies q.contains((#[trigger] s[i]).1.transfer_id)
        && s[i].1.transfer_id < m.queue.next_id by {
        assert(w.contains(s[i].1.transfer_id));
        let j = choose|j: int| 0 <= j < w.len() && w[j] == s[i].1.transfer_id;
        assert(q[j] == w[j]);
    }
    assert forall|i: int| 0 <= i < p.len() implies q.contains(
        (#[trigger] p[i]).1.transfer_id,
    ) by {
        if i != k {
            assert(p[i] == s[old_index(s, token, i)]);
        }
    }
    assert forall|i: int, j: int| 0 <= i < j < p.len() implies (#[trigger] p[i]).1.transfer_id != (
    #[trigger] p[j]).1.transfer_id by {
        let a = old_index(s, token, i);
        let b = old_index(s, token, j);
        if i != k {
            assert(p[i] == s[a]);
        }
        if j != k {
            assert(p[j] == s[b]);
        }
        if i != k && j != k {
            assert(a < b);
        }
    }
    assert forall|j: int| 0 <= j < q.len() implies #[trigger] q[j] < enqueued(m.queue).next_id by {
        if j < w.len() {
            assert(q[j] == w[j]);
        }
    }
}

/// An offer keeps the registry ordered and within its bound, whoever chose its token; and one that
/// is kept is found under it.
pub proof fn law_offers_are_bounded(
    m: OffersModel,
    token: u32,
    username: Seq<char>,
    filename: Seq<char>,
    real_path: Seq<char>,
    size: u64,
    keep: bool,
)
    requires
        ascending(m.by_token),
        m.by_token.len() <= MAX_PENDING_TRANSFERS,
    ensures
        ascending(offered(m, token, username, filename, real_path, size, keep).by_token),
        offered(m, token, username, filename, real_path, size, keep).by_token.len()
            <= MAX_PENDING_TRANSFERS,
        keep ==> lookup(
            offered(m, token, username, filename, real_path, size, keep).by_token,
            token,
        ) == Some(
            PendingUploadView {
                username,
                filename,
                real_path,
                size,
                approved: false,
                transfer_id: m.queue.next_id,
            },
        ),
{
    let u = PendingUploadView {
        username,
        filename,
        real_path,
        size,
        approved: false,
        transfer_id: m.queue.next_id,
    };
    let kept = if keep {
        Some(token)
    } else {
        None
    };
    let p = put(m.by_token, token, u);
    crate::tokens::law_registry_stays_bounded(
        m.by_token,
        token,
        u,
        MAX_PENDING_TRANSFERS as nat,
        kept,
    );
    crate::tokens::lemma_order_kept(m.by_token, token, u);
    if p.len() > MAX_PENDING_TRANSFERS {
        crate::tokens::lemma_lowest_but(p, kept);
    }
}

/// Offering a file and withdrawing an offer keep registry and queue in step.
pub proof fn law_registry_and_queue_stay_in_step(
    m: OffersModel,
    token: u32,
    username: Seq<char>,
    filename: Seq<char>,
    real_path: Seq<char>,
    size: u64,
    keep: bool,
)
    requires
        ascending(m.by_token),
        in_step(m),
        m.queue.next_id < u64::MAX,
    ensures
        in_step(withdrawn(m, token)),
        in_step(offered(m, token, username, filename, real_path, size, keep)),
{
    lemma_withdrawn_in_step(m, token);
    let u = PendingUploadView {
        username,
        filename,
        real_path,
        size,
        approved: false,
        transfer_id: m.queue.next_id,
    };
    crate::tokens::lemma_order_kept(m.by_token, token, u);
    lemma_offer_in_step(m, token, u);
    let all = OffersModel { by_token: put(m.by_token, token, u), queue: enqueued(m.queue) };
    let kept = if keep {
        Some(token)
    } else {
        None
    };
    lemma_withdrawn_in_step(all, lowest_but(all.by_token, kept));
}

proof fn lemma_all_withdrawn(m: OffersModel, some: Seq<(u32, PendingUploadView)>, token: u32)
    requires
        ascending(m.by_token),
        ascending(some),
        forall|j: int|
            0 <= j < some.len() ==> lookup(m.by_token, (#[trigger] some[j]).0) == Some(some[j].1),
    ensures
        ascending(all_withdrawn(m, some).by_token),
        lookup(all_withdrawn(m, some).by_token, token) == (if exists|j: int|
            0 <= j < some.len() && (#[trigger] some[j]).0 == token {
            None
        } else {
            lookup(m.by_token, token)
        }),
        forall|id: u64| #[trigger]
            all_withdrawn(m, some).queue.waiting.contains(id) <==> m.queue.waiting.contains(id) && (
            forall|j: int| 0 <= j < some.len() ==> (#[trigger] some[j]).1.transfer_id != id),
    decreases some.len(),
{
    if some.len() > 0 {
        let d = some.drop_last();
        let e = some.last();
        let n = some.len() - 1;
        assert(some[n] == e);
        assert forall|i: int, j: int| 0 <= i < j < d.len() implies (#[trigger] d[i]).0 < (
        #[trigger] d[j]).0 by {
            assert(some[i].0 < some[j].0);
        }
        assert forall|j: int| 0 <= j < d.len() implies lookup(m.by_token, (#[trigger] d[j]).0)
            == Some(d[j].1) by {
            assert(some[j] == d[j]);
        }
        lemma_all_withdrawn(m, d, token);
        lemma_all_withdrawn(m, d, e.0);
        let b = all_withdrawn(m, d);
        let w = all_withdrawn(m, some);
        assert forall|j: int| 0 <= j < d.len() implies (#[trigger] d[j]).0 != e.0 by {
            assert(some[j].0 < some[n].0);
        }
        assert(lookup(b.by_token, e.0) == Some(e.1));
        crate::tokens::lemma_order_kept(b.by_token, e.0, e.1);
        crate::tokens::lemma_removed_is_gone(b.by_token, e.0);
        if token != e.0 {
            crate::tokens::law_registry_reads_back(b.by_token, e.0, e.1, token);
        }
        if exists|j: int| 0 <= j < some.len() && (#[trigger] some[j]).0 == token {
            let j = choose|j: int| 0 <= j < some.len() && (#[trigger] some[j]).0 == token;
            if j < n {
                assert(d[j].0 == token);
            }
        }
        if exists|j: int| 0 <= j < d.len() && (#[trigger] d[j]).0 == token {
            let j = choose|j: int| 0 <= j < d.len() && (#[trigger] d[j]).0 == token;
            assert(some[j].0 == token);
        }
        assert forall|id: u64| #[trigger] w.queue.waiting.contains(id) <==> m.queue.waiting.contains(
            id,
        ) && (forall|j: int| 0 <= j < some.len() ==> (#[trigger] some[j]).1.transfer_id != id) by {
            lemma_dequeued(b.queue.waiting, e.1.transfer_id, id);
            assert(b.queue.waiting.contains(id) <==> m.queue.waiting.contains(id) && (forall|
                j: int,
            |
                0 <= j < d.len() ==> (#[trigger] d[j]).1.transfer_id != id));
            if forall|j: int| 0 <= j < some.len() ==> (#[trigger] some[j]).1.transfer_id != id {
                assert forall|j: int| 0 <= j < d.len() implies (
                #[trigger] d[j]).1.transfer_id != id by {
                    assert(some[j] == d[j]);
                }
                assert(some[n].1.transfer_id != id);
            }
            if w.queue.waiting.contains(id) {
                assert forall|j: int| 0 <= j < some.len() implies (
                #[trigger] some[j]).1.transfer_id != id by {
                    if j < n {
                        assert(d[j] == some[j]);
                    }
                }
            }
        }
    }
}

proof fn lemma_dequeued(waiting: Seq<u64>, id: u64, x: u64)
    ensures
        waiting.filter(not_id(id)).contains(x) <==> waiting.contains(x) && x != id,
{
    let f = waiting.filter(not_id(id));
    if f.contains(x) {
        let i = choose|i: int| 0 <= i < f.len() && f[i] == x;
        crate::sequences::lemma_filter_there(waiting, not_id(id), i);
        let j = choose|j: int| 0 <= j < waiting.len() && #[trigger] waiting[j] == f[i];
        assert(waiting.contains(x));
    }
    if waiting.contains(x) && x != id {
        let j = choose|j: int| 0 <= j < waiting.len() && waiting[j] == x;
        assert(not_id(id)(waiting[j]));
        waiting.lemma_filter_contains(not_id(id), j);
    }
}

/// What is taken for a user is what this very user approved, all of it and in the order of the
/// tokens. Every other offer is still found under its token, and waits in the queue as before.
pub proof fn law_only_what_the_user_approved_is_taken(m: OffersModel, username: Seq<char>)
    requires
        ascending(m.by_token),
    ensures
        ({
            let taken = m.by_token.filter(approved_for(username));
            let after = all_withdrawn(m, taken);
            &&& forall|i: int|
                0 <= i < taken.len() ==> (#[trigger] taken[i]).1.username == username
                    && taken[i].1.approved && m.by_token.contains(taken[i])
            &&& forall|i: int|
                0 <= i < m.by_token.len() && (#[trigger] m.by_token[i]).1.username == username
                    && m.by_token[i].1.approved ==> taken.contains(m.by_token[i])
            &&& forall|i: int, j: int|
                0 <= i < j < taken.len() ==> (#[trigger] taken[i]).0 < (#[trigger] taken[j]).0
            &&& forall|token: u32| #[trigger]
                lookup(after.by_token, token) == (match lookup(m.by_token, token) {
                    Some(u) => if u.username == username && u.approved {
                        None
                    } else {
                        Some(u)
                    },
                    None => None,
                })
            &&& forall|id: u64| #[trigger]
                after.queue.waiting.contains(id) <==> m.queue.waiting.contains(id) && (forall|i: int|
                    0 <= i < taken.len() ==> (#[trigger] taken[i]).1.transfer_id != id)
        }),
{
    let p = approved_for(username);
    let s = m.by_token;
    let taken = s.filter(p);
    let after = all_withdrawn(m, taken);
    crate::tokens::lemma_filter_ascending(s, p);
    assert forall|i: int| 0 <= i < taken.len() implies (#[trigger] taken[i]).1.username == username
        && taken[i].1.approved && s.contains(taken[i]) by {
        crate::sequences::lemma_filter_there(s, p, i);
        let j = choose|j: int| 0 <= j < s.len() && #[trigger] s[j] == taken[i];
        assert(s.contains(taken[i]));
    }
    assert forall|i: int|
        0 <= i < s.len() && (#[trigger] s[i]).1.username == username && s[i].1.approved implies taken.contains(
    s[i]) by {
        assert(p(s[i]));
        s.lemma_filter_contains(p, i);
    }
    assert forall|token: u32| #[trigger] lookup(after.by_token, token) == (match lookup(s, token) {
        Some(u) => if u.username == username && u.approved {
            None
        } else {
            Some(u)
        },
        None => None,
    }) by {
        lemma_all_withdrawn(m, taken, token);
        if exists|j: int| 0 <= j < taken.len() && (#[trigger] taken[j]).0 == token {
            let j = choose|j: int| 0 <= j < taken.len() && (#[trigger] taken[j]).0 == token;
            assert(lookup(s, taken[j].0) == Some(taken[j].1));
        } else if crate::tokens::holds(s, token) {
            let k = crate::tokens::slot(s, token) as int;
            if p(s[k]) {
                s.lemma_filter_contains(p, k);
                let j = choose|j: int| 0 <= j < taken.len() && taken[j] == s[k];
                assert(taken[j].0 == token);
            }
        }
    }
    lemma_all_withdrawn(m, taken, 0);
}

/// An offer that is withdrawn is gone from the registry and from the queue, and no other is.
pub proof fn law_a_withdrawn_offer_is_gone(m: OffersModel, token: u32, other: u32, id: u64)
    requires
        ascending(m.by_token),
    ensures
        lookup(withdrawn(m, token).by_token, token) is None,
        other != token ==> lookup(withdrawn(m, token).by_token, other) == lookup(
            m.by_token,
            other,
        ),
        withdrawn(m, token).queue.waiting.contains(id) <==> m.queue.waiting.contains(id) && !(lookup(
            m.by_token,
            token,
        ) matches Some(u) && u.transfer_id == id),
{
    crate::tokens::lemma_removed_is_gone(m.by_token, token);
    if let Some(u) = lookup(m.by_token, token) {
        lemma_dequeued(m.queue.waiting, u.transfer_id, id);
        if other != token {
            crate::tokens::law_registry_reads_back(m.by_token, token, u, other);
        }
    }
}

/// The place of an upload counts from 1, and nothing before it is that upload; 0 tells that it does
/// not wait.
pub proof fn law_places_count_from_one(waiting: Seq<u64>, id: u64)
    ensures
        place_of(waiting, id) == 0 <==> !waiting.contains(id),
        place_of(waiting, id) > 0 ==> place_of(waiting, id) <= waiting.len() && waiting[place_of(
            waiting,
            id,
        ) - 1] == id && forall|i: int|
            0 <= i < place_of(waiting, id) - 1 ==> #[trigger] waiting[i] != id,
    decreases waiting.len(),
{
    if waiting.len() > 0 {
        let rest = waiting.skip(1);
        law_places_count_from_one(rest, id);
        if waiting[0] != id {
            if rest.contains(id) {
                let i = choose|i: int| 0 <= i < rest.len() && rest[i] == id;
                assert(waiting[i + 1] == id);
            }
            if waiting.contains(id) {
                let i = choose|i: int| 0 <= i < waiting.len() && waiting[i] == id;
                assert(rest[i - 1] == id);
            }
            assert forall|i: int| 0 <= i < place_of(waiting, id) - 1 implies #[trigger] waiting[i]
                != id by {
                if i > 0 {
                    assert(rest[i - 1] == waiting[i]);
                }
            }
        }
    }
}

/// An upload that gets in line stands last, behind all that wait; leaving the line keeps the order
/// of the others.
pub proof fn law_the_queue_is_first_come_first_served(q: QueueModel, id: u64)
    requires
        q.next_id < u64::MAX,
    ensures
        enqueued(q).waiting.len() == q.waiting.len() + 1,
        enqueued(q).waiting.last() == q.next_id,
        enqueued(q).waiting.take(q.waiting.len() as int) == q.waiting,
        enqueued(q).next_id == q.next_id + 1,
        dequeued(q, id).waiting == q.waiting.filter(|x: u64| x != id),
        dequeued(q, id).next_id == q.next_id,
{
    assert(enqueued(q).waiting.take(q.waiting.len() as int) =~= q.waiting);
    assert(not_id(id) =~= (|x: u64| x != id));
}

/// The place told of a file is that of an offer of this file to this user.
pub proof fn law_the_place_is_that_of_the_users_offer(
    s: Seq<(u32, PendingUploadView)>,
    username: Seq<char>,
    filename: Seq<char>,
)
    ensures
        match first_offer(s, username, filename) {
            Some(u) => u.username == username && u.filename == filename && exists|i: int|
                0 <= i < s.len() && (#[trigger] s[i]).1 == u,
            None => forall|i: int|
                0 <= i < s.len() ==> !((#[trigger] s[i]).1.username == username && s[i].1.filename
                    == filename),
        },
    decreases s.len(),
{
    if s.len() > 0 {
        let rest = s.skip(1);
        if s[0].1.username == username && s[0].1.filename == filename {
            assert(s[0].1 == first_offer(s, username, filename)->0);
        } else {
            law_the_place_is_that_of_the_users_offer(rest, username, filename);
            match first_offer(rest, username, filename) {
                Some(u) => {
                    let i = choose|i: int| 0 <= i < rest.len() && (#[trigger] rest[i]).1 == u;
                    assert(s[i + 1].1 == u);
                },
                None => {
                    assert forall|i: int| 0 <= i < s.len() implies !((
                    #[trigger] s[i]).1.username == username && s[i].1.filename == filename) by {
                        if i > 0 {
                            assert(rest[i - 1] == s[i]);
                        }
                    }
                },
            }
        }
    }
}

/// A file that is offered is registered under its token as it was offered, not yet approved, and
/// stands last in the queue; as long as the registry has room, no other offer changes.
pub proof fn law_an_offer_is_registered(
    m: OffersModel,
    token: u32,
    username: Seq<char>,
    filename: Seq<char>,
    real_path: Seq<char>,
    size: u64,
    keep: bool,
    other: u32,
)
    requires
        ascending(m.by_token),
        m.by_token.len() < MAX_PENDING_TRANSFERS,
    ensures
        ({
            let after = offered(m, token, username, filename, real_path, size, keep);
            &&& lookup(after.by_token, token) matches Some(u) && u.username == username
                && u.filename == filename && u.real_path == real_path && u.size == size
                && !u.approved && u.transfer_id == m.queue.next_id
            &&& after.queue.waiting == m.queue.waiting.push(m.queue.next_id)
            &&& other != token ==> lookup(after.by_token, other) == lookup(m.by_token, other)
        }),
{
    let u = PendingUploadView {
        username,
        filename,
        real_path,
        size,
        approved: false,
        transfer_id: m.queue.next_id,
    };
    crate::tokens::lemma_slot_is(m.by_token, token);
    crate::tokens::lemma_put_is_found(m.by_token, token, u);
    if other != token {
        crate::tokens::law_registry_reads_back(m.by_token, token, u, other);
    }
    assert(put(m.by_token, token, u).len() <= m.by_token.len() + 1);
}

/// The place that a user is told of a file is where the offer of this file to this user, of several
/// the first, stands in the queue, counted from 1; it is 0 where there is none, or where it waits no
/// more.
pub proof fn law_the_place_told_is_that_in_the_queue(
    m: OffersModel,
    username: Seq<char>,
    filename: Seq<char>,
    k: int,
)
    ensures
        (forall|i: int|
            0 <= i < m.by_token.len() ==> !((#[trigger] m.by_token[i]).1.username == username
                && m.by_token[i].1.filename == filename)) ==> place_of_offer(m, username, filename)
            == 0,
        0 <= k < m.by_token.len() && m.by_token[k].1.username == username && m.by_token[k].1.filename
            == filename && (forall|i: int|
            0 <= i < k ==> !((#[trigger] m.by_token[i]).1.username == username
                && m.by_token[i].1.filename == filename)) ==> {
            let id = m.by_token[k].1.transfer_id;
            let place = place_of_offer(m, username, filename);
            &&& place == 0 <==> !m.queue.waiting.contains(id)
            &&& place > 0 ==> place <= m.queue.waiting.len() && m.queue.waiting[place - 1] == id
                && forall|i: int| 0 <= i < place - 1 ==> #[trigger] m.queue.waiting[i] != id
        },
{
    let s = m.by_token;
    law_the_place_is_that_of_the_users_offer(s, username, filename);
    if 0 <= k < s.len() && s[k].1.username == username && s[k].1.filename == filename && (forall|
        i: int,
    |
        0 <= i < k ==> !((#[trigger] s[i]).1.username == username && s[i].1.filename
            == filename)) {
        lemma_first_offer(s, username, filename, k);
        law_places_count_from_one(m.queue.waiting, s[k].1.transfer_id);
    }
}

proof fn lemma_first_offer(
    s: Seq<(u32, PendingUploadView)>,
    username: Seq<char>,
    filename: Seq<char>,
    k: int,
)
    requires
        0 <= k < s.len(),
        s[k].1.username == username,
        s[k].1.filename == filename,
        forall|i: int|
            0 <= i < k ==> !((#[trigger] s[i]).1.username == username && s[i].1.filename
                == filename),
    ensures
        first_offer(s, username, filename) == Some(s[k].1),
    decreases k,
{
    if k > 0 {
        let rest = s.skip(1);
        assert(!(s[0].1.username == username && s[0].1.filename == filename));
        assert forall|i: int| 0 <= i < k - 1 implies !((#[trigger] rest[i]).1.username == username
            && rest[i].1.filename == filename) by {
            assert(rest[i] == s[i + 1]);
        }
        assert(rest[k - 1] == s[k]);
        lemma_first_offer(rest, username, filename, k - 1);
    }
}

} // verus!
