//! Downloads that were asked for, and those whose transfer was agreed on.
use vstd::prelude::*;
use vstd::string::*;
use crate::text::{group_views, same, views};
use crate::peer_net::uploads::MAX_PENDING_TRANSFERS;
use crate::tokens::{ascending, lookup, put, within_bound, without, TokenMap};

verus! {

broadcast use group_views;

/// A file that we want from a user, of the size that we recorded when asking for it.
#[derive(Debug, PartialEq)]
pub struct ActiveDownload {
    pub username: String,
    pub filename: String,
    pub size: u64,
}

pub struct DownloadView {
    pub username: Seq<char>,
    pub filename: Seq<char>,
    pub size: u64,
}

impl View for ActiveDownload {
    type V = DownloadView;

    open spec fn view(&self) -> DownloadView {
        DownloadView { username: self.username@, filename: self.filename@, size: self.size }
    }
}

/// Downloads in flight: the negotiation and the file arrive on different connections.
pub struct DownloadsModel {
    /// Asked for, and not offered yet.
    pub pending: Seq<DownloadView>,
    /// Agreed on, under the uploader's token, and not arrived yet.
    pub by_token: Seq<(u32, DownloadView)>,
}

/// The size of a file that was asked for.
pub open spec fn wanted(pending: Seq<DownloadView>, username: Seq<char>, filename: Seq<char>)
    -> Option<u64>
    decreases pending.len(),
{
    if pending.len() == 0 {
        None
    } else if pending[0].username == username && pending[0].filename == filename {
        Some(pending[0].size)
    } else {
        wanted(pending.skip(1), username, filename)
    }
}

/// Which downloads are not of this file from this user.
pub open spec fn other_file(username: Seq<char>, filename: Seq<char>) -> spec_fn(
    DownloadView,
) -> bool {
    |d: DownloadView| !(d.username == username && d.filename == filename)
}

/// Which agreed downloads are not of this file from this user.
pub open spec fn other_active(username: Seq<char>, filename: Seq<char>) -> spec_fn(
    (u32, DownloadView),
) -> bool {
    |e: (u32, DownloadView)| !(e.1.username == username && e.1.filename == filename)
}

/// A file is asked for; asking again replaces the size.
pub open spec fn asked(m: DownloadsModel, d: DownloadView) -> DownloadsModel {
    DownloadsModel {
        pending: m.pending.filter(other_file(d.username, d.filename)).push(d),
        ..m
    }
}

/// A file is no longer asked for.
pub open spec fn dropped(m: DownloadsModel, username: Seq<char>, filename: Seq<char>)
    -> DownloadsModel {
    DownloadsModel { pending: m.pending.filter(other_file(username, filename)), ..m }
}

/// An offer of a file under a token is accepted if and only if the file was asked for. The size
/// is the one that we recorded, whatever the offer says. Where too many downloads are agreed on,
/// the one with the lowest token gives way to the new one.
pub open spec fn accepted(
    m: DownloadsModel,
    token: u32,
    username: Seq<char>,
    filename: Seq<char>,
) -> DownloadsModel {
    match wanted(m.pending, username, filename) {
        Some(size) => DownloadsModel {
            pending: m.pending.filter(other_file(username, filename)),
            by_token: within_bound(
                put(m.by_token, token, DownloadView { username, filename, size }),
                MAX_PENDING_TRANSFERS as nat,
                Some(token),
            ),
        },
        None => m,
    }
}

/// A download is forgotten, whether an offer was accepted or not.
pub open spec fn cancelled(m: DownloadsModel, username: Seq<char>, filename: Seq<char>)
    -> DownloadsModel {
    DownloadsModel {
        pending: m.pending.filter(other_file(username, filename)),
        by_token: m.by_token.filter(other_active(username, filename)),
    }
}

/// The agreed download that a peer may deliver under a token: one that was agreed with that very
/// peer.
pub open spec fn deliverable(m: DownloadsModel, token: u32, username: Seq<char>) -> Option<
    DownloadView,
> {
    match lookup(m.by_token, token) {
        Some(d) if d.username == username => Some(d),
        _ => None,
    }
}

/// The downloads in flight.
pub struct Downloads {
    pending: Vec<ActiveDownload>,
    by_token: TokenMap<ActiveDownload>,
}

impl View for Downloads {
    type V = DownloadsModel;

    closed spec fn view(&self) -> DownloadsModel {
        DownloadsModel { pending: views(self.pending@), by_token: self.by_token@ }
    }
}

impl Downloads {
    /// The registry of agreed downloads is ordered by token, and within its bound.
    pub open spec fn wf(&self) -> bool {
        ascending(self@.by_token) && self@.by_token.len() <= MAX_PENDING_TRANSFERS
    }

    pub fn new() -> (r: Self)
        ensures
            r.wf(),
            r@ == (DownloadsModel { pending: Seq::empty(), by_token: Seq::empty() }),
    {
        let r = Downloads { pending: Vec::new(), by_token: TokenMap::new() };
        assert(r@.pending =~= Seq::empty());
        r
    }

    /// The size of a file that was asked for.
    pub fn wanted_size(&self, username: &str, filename: &str) -> (r: Option<u64>)
        ensures
            r == wanted(self@.pending, username@, filename@),
    {
        let mut i: usize = 0;
        let ghost all = views(self.pending@);
        assert(all.skip(0) =~= all);
        while i < self.pending.len()
            invariant
                i <= all.len(),
                all == views(self.pending@),
                wanted(all, username@, filename@) == wanted(
                    all.skip(i as int),
                    username@,
                    filename@,
                ),
            decreases all.len() - i,
        {
            let d = &self.pending[i];
            assert(all.skip(i as int)[0] == d@);
            assert(all.skip(i as int).skip(1) =~= all.skip(i as int + 1));
            if same(d.username.as_str(), username) && same(d.filename.as_str(), filename) {
                return Some(d.size);
            }
            i += 1;
        }
        None
    }

    /// How many files are asked for and not offered yet.
    pub fn pending_len(&self) -> (n: usize)
        ensures
            n == self@.pending.len(),
    {
        self.pending.len()
    }

    /// The agreed download under a token.
    pub fn active(&self, token: u32) -> (r: Option<&ActiveDownload>)
        ensures
            match r {
                Some(d) => lookup(self@.by_token, token) == Some(d@),
                None => lookup(self@.by_token, token) is None,
            },
    {
        self.by_token.get(token)
    }

    /// Drops a file that was asked for; says whether it was.
    pub fn drop_pending(&mut self, username: &str, filename: &str) -> (r: bool)
        requires
            old(self).wf(),
        ensures
            final(self).wf(),
            r == (wanted(old(self)@.pending, username@, filename@) is Some),
            final(self)@ == dropped(old(self)@, username@, filename@),
    {
        let found = self.wanted_size(username, filename).is_some();
        let mut kept: Vec<ActiveDownload> = Vec::new();
        let mut i: usize = 0;
        let ghost all = views(self.pending@);
        let ghost p = other_file(username@, filename@);
        proof {
            reveal(Seq::filter);
            assert(all.take(0) =~= Seq::empty());
            assert(views(kept@) =~= all.take(0).filter(p));
        }
        while i < self.pending.len()
            invariant
                i <= all.len(),
                *self == *old(self),
                all == views(self.pending@),
                p == other_file(username@, filename@),
                views(kept@) == all.take(i as int).filter(p),
            decreases all.len() - i,
        {
            let d = &self.pending[i];
            proof {
                reveal(Seq::filter);
                assert(all.take(i as int + 1).drop_last() =~= all.take(i as int));
                assert(all.take(i as int + 1).last() == d@);
            }
            if !(same(d.username.as_str(), username) && same(d.filename.as_str(), filename)) {
                assert(p(d@));
                kept.push(
                    ActiveDownload {
                        username: d.username.clone(),
                        filename: d.filename.clone(),
                        size: d.size,
                    },
                );
            } else {
                assert(!p(d@));
            }
            i += 1;
        }
        assert(all.take(i as int) =~= all);
        self.pending = kept;
        assert(self.by_token@ == old(self)@.by_token);
        found
    }

    /// Asks for a file.
    pub fn ask(&mut self, username: &str, filename: &str, size: u64)
        requires
            old(self).wf(),
        ensures
            final(self).wf(),
            final(self)@ == asked(
                old(self)@,
                DownloadView { username: username@, filename: filename@, size },
            ),
    {
        self.drop_pending(username, filename);
        self.pending.push(
            ActiveDownload { username: username.to_owned(), filename: filename.to_owned(), size },
        );
    }

    /// Decides on an uploader's offer of a file under a token; says whether it is accepted.
    pub fn accept(&mut self, token: u32, username: &str, filename: &str) -> (r: bool)
        requires
            old(self).wf(),
        ensures
            final(self).wf(),
            r == (wanted(old(self)@.pending, username@, filename@) is Some),
            final(self)@ == accepted(old(self)@, token, username@, filename@),
    {
        match self.wanted_size(username, filename) {
            Some(size) => {
                self.drop_pending(username, filename);
                let ghost before = self.by_token@;
                let d = ActiveDownload {
                    username: username.to_owned(),
                    filename: filename.to_owned(),
                    size,
                };
                let ghost v = d@;
                self.by_token.insert(token, d);
                proof {
                    crate::tokens::law_registry_stays_bounded(
                        before,
                        token,
                        v,
                        MAX_PENDING_TRANSFERS as nat,
                        Some(token),
                    );
                }
                if self.by_token.len() > MAX_PENDING_TRANSFERS {
                    let lowest: u32 = self.by_token.lowest(Some(token));
                    self.by_token.remove(lowest);
                }
                true
            },
            None => false,
        }
    }

    /// Takes out the download that a peer delivers under a token, if it was agreed with that
    /// peer; otherwise nothing changes.
    pub fn deliver(&mut self, token: u32, username: &str) -> (r: Option<ActiveDownload>)
        requires
            old(self).wf(),
        ensures
            final(self).wf(),
            match r {
                Some(d) => deliverable(old(self)@, token, username@) == Some(d@) && final(self)@
                    == (DownloadsModel {
                    by_token: without(old(self)@.by_token, token),
                    ..old(self)@
                }),
                None => deliverable(old(self)@, token, username@) is None && final(self)@ == old(
                    self,
                )@,
            },
    {
        let ours = match self.by_token.get(token) {
            Some(d) => same(d.username.as_str(), username),
            None => false,
        };
        if ours {
            self.by_token.remove(token)
        } else {
            None
        }
    }

    /// Forgets a download, so that a later offer or delivery of it is turned away.
    pub fn cancel(&mut self, username: &str, filename: &str)
        requires
            old(self).wf(),
        ensures
            final(self).wf(),
            final(self)@ == cancelled(old(self)@, username@, filename@),
    {
        self.drop_pending(username, filename);
        let ghost all = self.by_token@;
        let ghost p = other_active(username@, filename@);
        let ghost mut done: int = 0;
        let mut i: usize = 0;
        let ghost base = self@;
        proof {
            reveal(Seq::filter);
            assert(all.take(0) =~= Seq::empty());
            assert(all.take(0).filter(p) =~= Seq::empty());
            assert(Seq::<(u32, DownloadView)>::empty() + all.skip(0) =~= all);
        }
        while i < self.by_token.len()
            invariant
                0 <= done <= all.len(),
                self.wf(),
                ascending(all),
                p == other_active(username@, filename@),
                self@ == (DownloadsModel { by_token: self.by_token@, ..base }),
                i == all.take(done).filter(p).len(),
                self.by_token@ == all.take(done).filter(p) + all.skip(done),
            decreases all.len() - done,
        {
            let ghost head = all.take(done).filter(p);
            let ghost now = self.by_token@;
            let (token, d) = self.by_token.at(i);
            proof {
                assert(now[i as int] == all[done]);
                reveal(Seq::filter);
                assert(all.take(done + 1).drop_last() =~= all.take(done));
                assert(all.take(done + 1).last() == all[done]);
            }
            if same(d.username.as_str(), username) && same(d.filename.as_str(), filename) {
                proof {
                    assert(!p(all[done]));
                    assert forall|q: int| 0 <= q < i implies (#[trigger] now[q]).0 < token by {
                        assert(now[q].0 < now[i as int].0);
                    }
                    crate::tokens::lemma_slot(now, token, i as int);
                    assert(now.remove(i as int) =~= head + all.skip(done + 1));
                }
                self.by_token.remove(token);
            } else {
                proof {
                    assert(p(all[done]));
                    assert(all.take(done + 1).filter(p) == head.push(all[done]));
                    assert(now =~= head.push(all[done]) + all.skip(done + 1));
                }
                i += 1;
            }
            proof {
                done = done + 1;
            }
        }
        proof {
            assert(done == all.len());
            assert(all.take(done) =~= all);
            assert(self.by_token@ =~= all.filter(p));
        }
    }
}

proof fn lemma_wanted_filtered(
    s: Seq<DownloadView>,
    username: Seq<char>,
    filename: Seq<char>,
    u: Seq<char>,
    f: Seq<char>,
)
    ensures
        wanted(s.filter(other_file(username, filename)), u, f) == (if u == username && f
            == filename {
            None
        } else {
            wanted(s, u, f)
        }),
    decreases s.len(),
{
    let p = other_file(username, filename);
    reveal(Seq::filter);
    if s.len() > 0 {
        lemma_wanted_filtered(s.skip(1), username, filename, u, f);
        lemma_filter_first(s, p);
        if p(s[0]) {
            let rest = s.skip(1).filter(p);
            assert((seq![s[0]] + rest).skip(1) =~= rest);
        }
    }
}

/// A filter keeps or drops the first entry, and goes on with the rest.
proof fn lemma_filter_first(s: Seq<DownloadView>, p: spec_fn(DownloadView) -> bool)
    requires
        s.len() > 0,
    ensures
        s.filter(p) == (if p(s[0]) {
            seq![s[0]] + s.skip(1).filter(p)
        } else {
            s.skip(1).filter(p)
        }),
    decreases s.len(),
{
    reveal(Seq::filter);
    if s.len() == 1 {
        assert(s.drop_last() =~= Seq::empty());
        assert(s.skip(1) =~= Seq::empty());
        assert(s.drop_last().filter(p) =~= Seq::empty());
        assert(s.skip(1).filter(p) =~= Seq::empty());
        assert(s.filter(p) =~= (if p(s[0]) {
            seq![s[0]] + s.skip(1).filter(p)
        } else {
            s.skip(1).filter(p)
        }));
    } else {
        let d = s.drop_last();
        lemma_filter_first(d, p);
        assert(d.skip(1) =~= s.skip(1).drop_last());
        assert(s.skip(1).last() == s.last());
        assert(d[0] == s[0]);
        assert(s.filter(p) =~= (if p(s[0]) {
            seq![s[0]] + s.skip(1).filter(p)
        } else {
            s.skip(1).filter(p)
        }));
    }
}

/// A file that was asked for is accepted once when it is offered, with the size that we
/// recorded; the same offer again is turned away, and nothing else that was asked for is
/// affected.
pub proof fn law_an_offer_is_accepted_once(
    m: DownloadsModel,
    token: u32,
    username: Seq<char>,
    filename: Seq<char>,
    u: Seq<char>,
    f: Seq<char>,
)
    requires
        ascending(m.by_token),
        m.by_token.len() <= MAX_PENDING_TRANSFERS,
        wanted(m.pending, username, filename) is Some,
    ensures
        ({
            let after = accepted(m, token, username, filename);
            &&& deliverable(after, token, username) == Some(
                DownloadView {
                    username,
                    filename,
                    size: wanted(m.pending, username, filename)->0,
                },
            )
            &&& wanted(after.pending, username, filename) is None
            &&& !(u == username && f == filename) ==> wanted(after.pending, u, f) == wanted(
                m.pending,
                u,
                f,
            )
        }),
{
    let size = wanted(m.pending, username, filename)->0;
    crate::tokens::law_registry_stays_bounded(
        m.by_token,
        token,
        DownloadView { username, filename, size },
        MAX_PENDING_TRANSFERS as nat,
        Some(token),
    );
    lemma_wanted_filtered(m.pending, username, filename, username, filename);
    lemma_wanted_filtered(m.pending, username, filename, u, f);
}

/// However many offers are accepted, the registry of agreed downloads stays ordered and within its
/// bound.
pub proof fn law_agreed_downloads_stay_bounded(
    m: DownloadsModel,
    token: u32,
    username: Seq<char>,
    filename: Seq<char>,
)
    requires
        ascending(m.by_token),
        m.by_token.len() <= MAX_PENDING_TRANSFERS,
    ensures
        ascending(accepted(m, token, username, filename).by_token),
        accepted(m, token, username, filename).by_token.len() <= MAX_PENDING_TRANSFERS,
{
    if let Some(size) = wanted(m.pending, username, filename) {
        crate::tokens::law_registry_stays_bounded(
            m.by_token,
            token,
            DownloadView { username, filename, size },
            MAX_PENDING_TRANSFERS as nat,
            Some(token),
        );
    }
}

/// No peer can deliver a download that was agreed with another.
pub proof fn law_only_the_agreed_peer_delivers(m: DownloadsModel, token: u32, username: Seq<char>)
    ensures
        deliverable(m, token, username) matches Some(d) ==> d.username == username && lookup(
            m.by_token,
            token,
        ) == Some(d),
{
}

/// A cancelled download is neither accepted nor delivered any more.
pub proof fn law_cancelled_downloads_stay_away(
    m: DownloadsModel,
    username: Seq<char>,
    filename: Seq<char>,
    token: u32,
)
    requires
        ascending(m.by_token),
    ensures
        wanted(cancelled(m, username, filename).pending, username, filename) is None,
        deliverable(cancelled(m, username, filename), token, username) matches Some(d)
            ==> d.filename != filename,
{
    lemma_wanted_filtered(m.pending, username, filename, username, filename);
    let p = other_active(username, filename);
    let f = m.by_token.filter(p);
    crate::tokens::lemma_filter_ascending(m.by_token, p);
    if crate::tokens::holds(f, token) {
        let k = crate::tokens::slot(f, token) as int;
        assert(f.contains(f[k]));
        m.by_token.lemma_filter_pred(p, k);
    }
}

/// A file is wanted of a user if and only if it was asked for and has not been offered or dropped
/// since, at the size that was asked for.
pub proof fn law_a_file_is_wanted_once_asked_for(
    m: DownloadsModel,
    d: DownloadView,
    username: Seq<char>,
    filename: Seq<char>,
)
    ensures
        wanted(m.pending, username, filename) is Some <==> exists|k: int|
            0 <= k < m.pending.len() && (#[trigger] m.pending[k]).username == username
                && m.pending[k].filename == filename,
        wanted(asked(m, d).pending, d.username, d.filename) == Some(d.size),
        !(username == d.username && filename == d.filename) ==> wanted(
            asked(m, d).pending,
            username,
            filename,
        ) == wanted(m.pending, username, filename),
        wanted(dropped(m, username, filename).pending, username, filename) is None,
        asked(m, d).by_token == m.by_token,
        dropped(m, username, filename).by_token == m.by_token,
{
    lemma_wanted_is(m.pending, username, filename);
    let kept = m.pending.filter(other_file(d.username, d.filename));
    lemma_wanted_filtered(m.pending, d.username, d.filename, d.username, d.filename);
    lemma_wanted_filtered(m.pending, d.username, d.filename, username, filename);
    lemma_wanted_filtered(m.pending, username, filename, username, filename);
    lemma_wanted_pushed(kept, d, d.username, d.filename);
    lemma_wanted_pushed(kept, d, username, filename);
}

proof fn lemma_wanted_is(s: Seq<DownloadView>, username: Seq<char>, filename: Seq<char>)
    ensures
        wanted(s, username, filename) is Some <==> exists|k: int|
            0 <= k < s.len() && (#[trigger] s[k]).username == username && s[k].filename == filename,
    decreases s.len(),
{
    if s.len() > 0 && !(s[0].username == username && s[0].filename == filename) {
        let rest = s.skip(1);
        lemma_wanted_is(rest, username, filename);
        if exists|k: int|
            0 <= k < rest.len() && (#[trigger] rest[k]).username == username && rest[k].filename
                == filename {
            let k = choose|k: int|
                0 <= k < rest.len() && (#[trigger] rest[k]).username == username && rest[k].filename
                    == filename;
            assert(s[k + 1] == rest[k]);
        }
        if exists|k: int|
            0 <= k < s.len() && (#[trigger] s[k]).username == username && s[k].filename
                == filename {
            let k = choose|k: int|
                0 <= k < s.len() && (#[trigger] s[k]).username == username && s[k].filename
                    == filename;
            assert(rest[k - 1] == s[k]);
        }
    }
}

proof fn lemma_wanted_pushed(
    s: Seq<DownloadView>,
    d: DownloadView,
    username: Seq<char>,
    filename: Seq<char>,
)
    ensures
        wanted(s.push(d), username, filename) == (match wanted(s, username, filename) {
            Some(size) => Some(size),
            None => if d.username == username && d.filename == filename {
                Some(d.size)
            } else {
                None
            },
        }),
    decreases s.len(),
{
    if s.len() == 0 {
        assert(s.push(d).skip(1) =~= s);
    } else if !(s[0].username == username && s[0].filename == filename) {
        lemma_wanted_pushed(s.skip(1), d, username, filename);
        assert(s.push(d).skip(1) =~= s.skip(1).push(d));
    }
}

/// A download that is cancelled is gone, asked for or agreed on, and no other is: another file, or
/// the same of another user, is wanted and can be delivered as before.
pub proof fn law_only_the_cancelled_download_is_gone(
    m: DownloadsModel,
    username: Seq<char>,
    filename: Seq<char>,
    other_user: Seq<char>,
    other_name: Seq<char>,
    token: u32,
)
    requires
        ascending(m.by_token),
    ensures
        lookup(cancelled(m, username, filename).by_token, token) == (match lookup(
            m.by_token,
            token,
        ) {
            Some(d) => if d.username == username && d.filename == filename {
                None
            } else {
                Some(d)
            },
            None => None,
        }),
        !(other_user == username && other_name == filename) ==> wanted(
            cancelled(m, username, filename).pending,
            other_user,
            other_name,
        ) == wanted(m.pending, other_user, other_name) && wanted(
            dropped(m, username, filename).pending,
            other_user,
            other_name,
        ) == wanted(m.pending, other_user, other_name) && wanted(
            accepted(m, token, username, filename).pending,
            other_user,
            other_name,
        ) == wanted(m.pending, other_user, other_name),
{
    lemma_wanted_filtered(m.pending, username, filename, other_user, other_name);
    let p = other_active(username, filename);
    let s = m.by_token;
    let f = s.filter(p);
    crate::tokens::lemma_filter_ascending(s, p);
    if exists|i: int| 0 <= i < f.len() && (#[trigger] f[i]).0 == token {
        let i = choose|i: int| 0 <= i < f.len() && (#[trigger] f[i]).0 == token;
        crate::sequences::lemma_filter_there(s, p, i);
        let j = choose|j: int| 0 <= j < s.len() && #[trigger] s[j] == f[i];
        crate::tokens::law_entries_are_found_by_token(f, token, i);
        crate::tokens::law_entries_are_found_by_token(s, token, j);
    } else {
        crate::tokens::law_entries_are_found_by_token(f, token, 0);
        if exists|j: int| 0 <= j < s.len() && (#[trigger] s[j]).0 == token {
            let j = choose|j: int| 0 <= j < s.len() && (#[trigger] s[j]).0 == token;
            crate::tokens::law_entries_are_found_by_token(s, token, j);
            if p(s[j]) {
                s.lemma_filter_contains(p, j);
                let i = choose|i: int| 0 <= i < f.len() && f[i] == s[j];
                assert(f[i].0 == token);
            }
        } else {
            crate::tokens::law_entries_are_found_by_token(s, token, 0);
        }
    }
}

} // verus!
