//! Frames that wait for a peer to connect in and collect them.
use vstd::prelude::*;
use crate::text::{group_views, views};
use crate::tokens::{ascending, holds, lemma_put_without, lookup, put, without, TokenMap};

verus! {

broadcast use group_views;

/// Bound on distinct pending deliveries. A searcher that never connects back would otherwise
/// leave its frames here forever.
pub const MAX_PENDING_DELIVERIES: usize = 1024;

/// The frames under one token, in the order in which they were queued.
pub struct Frames {
    pub list: Vec<Vec<u8>>,
}

impl View for Frames {
    type V = Seq<Seq<u8>>;

    open spec fn view(&self) -> Seq<Seq<u8>> {
        views(self.list@)
    }
}

/// Outgoing frames, under the relay token that the peer echoes when it connects in.
pub struct PendingDeliveries {
    by_token: TokenMap<Frames>,
}

/// The frames under a token; none where nothing was queued.
pub open spec fn frames_under(s: Seq<(u32, Seq<Seq<u8>>)>, token: u32) -> Seq<Seq<u8>> {
    match lookup(s, token) {
        Some(f) => f,
        None => Seq::empty(),
    }
}

/// Drops the oldest deliveries (those with the lowest tokens) until `max` are left.
pub open spec fn newest<X>(s: Seq<(u32, X)>, max: nat) -> Seq<(u32, X)> {
    if s.len() > max {
        s.skip(s.len() - max)
    } else {
        s
    }
}

/// What is pending after one more frame: it stands behind those under its token, and the oldest
/// delivery gives way where there are too many.
pub open spec fn queued(s: Seq<(u32, Seq<Seq<u8>>)>, token: u32, frame: Seq<u8>) -> Seq<
    (u32, Seq<Seq<u8>>),
> {
    newest(put(s, token, frames_under(s, token).push(frame)), MAX_PENDING_DELIVERIES as nat)
}

impl PendingDeliveries {
    pub closed spec fn pending(&self) -> Seq<(u32, Seq<Seq<u8>>)> {
        self.by_token@
    }

    /// What is pending is ordered by token, and within its bound.
    pub open spec fn wf(&self) -> bool {
        ascending(self.pending()) && self.pending().len() <= MAX_PENDING_DELIVERIES
    }

    pub fn new() -> (r: Self)
        ensures
            r.wf(),
            r.pending() == Seq::<(u32, Seq<Seq<u8>>)>::empty(),
    {
        PendingDeliveries { by_token: TokenMap::new() }
    }

    /// How many peers have something to collect.
    pub fn len(&self) -> (n: usize)
        requires
            self.wf(),
        ensures
            n == self.pending().len(),
            n <= MAX_PENDING_DELIVERIES,
    {
        self.by_token.len()
    }

    /// Queues a frame under a relay token.
    pub fn queue(&mut self, token: u32, frame: Vec<u8>)
        requires
            old(self).wf(),
        ensures
            final(self).wf(),
            final(self).pending() == queued(old(self).pending(), token, frame@),
    {
        let ghost before = self.by_token@;
        let mut frames = match self.by_token.remove(token) {
            Some(f) => f,
            None => {
                let f = Frames { list: Vec::new() };
                assert(f@ =~= Seq::<Seq<u8>>::empty());
                f
            },
        };
        assert(frames@ == frames_under(before, token));
        let ghost had = frames@;
        frames.list.push(frame);
        assert(frames@ == had.push(frame@));
        self.by_token.insert(token, frames);
        proof {
            lemma_put_without(before, token, had.push(frame@));
            crate::tokens::lemma_put_is_found(before, token, had.push(frame@));
        }
        let ghost all = put(before, token, had.push(frame@));
        assert(self.by_token@ == all);
        if self.by_token.len() > MAX_PENDING_DELIVERIES {
            let (oldest, _) = self.by_token.at(0);
            proof {
                crate::tokens::lemma_slot(all, oldest, 0);
                assert(all.remove(0) =~= all.skip(1));
            }
            self.by_token.remove(oldest);
        }
    }

    /// Takes the frames under a relay token out, if any are there.
    pub fn take(&mut self, token: u32) -> (r: Option<Vec<Vec<u8>>>)
        requires
            old(self).wf(),
        ensures
            final(self).wf(),
            final(self).pending() == without(old(self).pending(), token),
            match r {
                Some(list) => lookup(old(self).pending(), token) == Some(views(list@)),
                None => lookup(old(self).pending(), token) is None,
            },
    {
        match self.by_token.remove(token) {
            Some(f) => Some(f.list),
            None => None,
        }
    }
}

/// A frame that was queued stands last among those that its token collects, unless the delivery
/// is itself the oldest of too many; and a token collects once.
pub proof fn law_delivery_is_collected_once(
    s: Seq<(u32, Seq<Seq<u8>>)>,
    token: u32,
    frame: Seq<u8>,
)
    requires
        ascending(s),
        s.len() <= MAX_PENDING_DELIVERIES,
        s.len() < MAX_PENDING_DELIVERIES || holds(s, token) || s[0].0 < token,
    ensures
        lookup(queued(s, token, frame), token) == Some(frames_under(s, token).push(frame)),
        lookup(without(queued(s, token, frame), token), token) is None,
{
    let all = frames_under(s, token).push(frame);
    let p = put(s, token, all);
    crate::tokens::lemma_order_kept(s, token, all);
    crate::tokens::lemma_put_is_found(s, token, all);
    if p.len() > MAX_PENDING_DELIVERIES {
        crate::tokens::lemma_slot_is(s, token);
        assert(p[0] == s[0]);
        assert(queued(s, token, frame) == p.skip(1));
        assert forall|i: int, j: int| 0 <= i < j < p.skip(1).len() implies (#[trigger] p.skip(
            1,
        )[i]).0 < (#[trigger] p.skip(1)[j]).0 by {
            assert(p[i + 1].0 < p[j + 1].0);
        }
        crate::tokens::lemma_removed_is_gone(p.skip(1), token);
    } else {
        crate::tokens::lemma_removed_is_gone(p, token);
    }
}

/// Answers that wait for one searcher are apart from those that wait for another.
pub proof fn law_deliveries_keep_apart(
    s: Seq<(u32, Seq<Seq<u8>>)>,
    token: u32,
    other: u32,
    frame: Seq<u8>,
)
    requires
        ascending(s),
        s.len() < MAX_PENDING_DELIVERIES,
        other != token,
    ensures
        lookup(queued(s, token, frame), other) == lookup(s, other),
        lookup(without(s, token), other) == lookup(s, other),
{
    crate::tokens::lemma_slot_is(s, token);
    crate::tokens::law_registry_reads_back(s, token, frames_under(s, token).push(frame), other);
    assert(put(s, token, frames_under(s, token).push(frame)).len() <= s.len() + 1);
}

} // verus!
