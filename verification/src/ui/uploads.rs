//! The uploads to peers, and the page that lists them.
use vstd::prelude::*;
use vstd::string::*;

use crate::format::{human_size, size_text};
use crate::html::{escape, escaped};
use crate::peer_net::naming::{basename, basename_of};
use crate::template::{
    blanks, fill, fill1, fill2, filled, lemma_blank_at, lemma_text_behind, Values,
};
use crate::text::{decimal, group_views, same, views};
use crate::ui::downloads::{DOWNLOADS, DOWNLOAD_TABLE, STATUS_FAILED};

verus! {

broadcast use group_views;

/// Cap on the uploads that are kept.
pub const MAX_UPLOADS: usize = 200;

/// The latest known state of an upload.
#[derive(Debug, PartialEq)]
pub enum UploadState<S> {
    /// On its way: so many bytes of so many.
    Active { bytes: u64, size: u64 },
    Completed,
    /// Given up, for this reason.
    Failed(S),
}

impl View for UploadState<String> {
    type V = UploadState<Seq<char>>;

    open spec fn view(&self) -> UploadState<Seq<char>> {
        match self {
            UploadState::Active { bytes, size } => UploadState::Active {
                bytes: *bytes,
                size: *size,
            },
            UploadState::Completed => UploadState::Completed,
            UploadState::Failed(reason) => UploadState::Failed(reason@),
        }
    }
}

impl UploadState<String> {
    /// Whether the upload is on its way.
    pub fn is_active(&self) -> (r: bool)
        ensures
            r == (self@ is Active),
    {
        match self {
            UploadState::Active { .. } => true,
            _ => false,
        }
    }
}

/// The upload of a file to a peer.
#[derive(Debug, PartialEq)]
pub struct UploadEntry {
    pub username: String,
    pub filename: String,
    pub state: UploadState<String>,
}

pub struct UploadEntryView {
    pub username: Seq<char>,
    pub filename: Seq<char>,
    pub state: UploadState<Seq<char>>,
}

impl View for UploadEntry {
    type V = UploadEntryView;

    open spec fn view(&self) -> UploadEntryView {
        UploadEntryView {
            username: self.username@,
            filename: self.filename@,
            state: self.state@,
        }
    }
}

/// Whether an upload is of this file to this user.
pub open spec fn is_upload(e: UploadEntryView, username: Seq<char>, filename: Seq<char>) -> bool {
    e.username == username && e.filename == filename
}

/// Where the upload of a file to a user stands in the list, or the list's length.
pub open spec fn upload_slot(
    list: Seq<UploadEntryView>,
    username: Seq<char>,
    filename: Seq<char>,
) -> int
    decreases list.len(),
{
    if list.len() == 0 || is_upload(list[0], username, filename) {
        0
    } else {
        1 + upload_slot(list.skip(1), username, filename)
    }
}

/// The state of the upload of a file to a user, if there is one.
pub open spec fn upload_state(
    list: Seq<UploadEntryView>,
    username: Seq<char>,
    filename: Seq<char>,
) -> Option<UploadState<Seq<char>>> {
    let i = upload_slot(list, username, filename);
    if i < list.len() {
        Some(list[i].state)
    } else {
        None
    }
}

/// Where the first upload that is not on its way stands, or the list's length.
pub open spec fn first_ended(list: Seq<UploadEntryView>) -> int
    decreases list.len(),
{
    if list.len() == 0 || !(list[0].state is Active) {
        0
    } else {
        1 + first_ended(list.skip(1))
    }
}

/// The list after it grew: where it is too long, the oldest upload that has ended leaves, or the
/// oldest of all where none has.
pub open spec fn uploads_kept(list: Seq<UploadEntryView>) -> Seq<UploadEntryView> {
    let i = first_ended(list);
    if list.len() <= MAX_UPLOADS {
        list
    } else if i < list.len() {
        list.remove(i)
    } else {
        list.remove(0)
    }
}

/// The list after an upload's state became known.
pub open spec fn with_upload(
    list: Seq<UploadEntryView>,
    username: Seq<char>,
    filename: Seq<char>,
    state: UploadState<Seq<char>>,
) -> Seq<UploadEntryView> {
    let i = upload_slot(list, username, filename);
    let entry = UploadEntryView { username, filename, state };
    if i < list.len() {
        list.update(i, entry)
    } else {
        uploads_kept(list.push(entry))
    }
}

/// The list after bytes of an upload went out. Late news does not bring back one that has ended.
pub open spec fn with_progress(
    list: Seq<UploadEntryView>,
    username: Seq<char>,
    filename: Seq<char>,
    bytes: u64,
    size: u64,
) -> Seq<UploadEntryView> {
    if upload_state(list, username, filename) matches Some(UploadState::Active { .. }) {
        with_upload(list, username, filename, UploadState::Active { bytes, size })
    } else {
        list
    }
}

/// How many uploads are on their way.
pub open spec fn uploads_active(list: Seq<UploadEntryView>) -> nat
    decreases list.len(),
{
    if list.len() == 0 {
        0
    } else {
        uploads_active(list.drop_last()) + if list.last().state is Active {
            1nat
        } else {
            0
        }
    }
}

proof fn lemma_upload_slot(
    list: Seq<UploadEntryView>,
    username: Seq<char>,
    filename: Seq<char>,
    i: int,
)
    requires
        0 <= i <= list.len(),
        forall|j: int| 0 <= j < i ==> !is_upload(#[trigger] list[j], username, filename),
        i < list.len() ==> is_upload(list[i], username, filename),
    ensures
        upload_slot(list, username, filename) == i,
    decreases i,
{
    if i > 0 {
        assert(!is_upload(list[0], username, filename));
        assert forall|j: int| 0 <= j < i - 1 implies !is_upload(
            #[trigger] list.skip(1)[j],
            username,
            filename,
        ) by {
            assert(!is_upload(list[j + 1], username, filename));
        }
        lemma_upload_slot(list.skip(1), username, filename, i - 1);
    }
}

proof fn lemma_upload_slot_is(
    list: Seq<UploadEntryView>,
    username: Seq<char>,
    filename: Seq<char>,
)
    ensures
        0 <= upload_slot(list, username, filename) <= list.len(),
        forall|j: int|
            0 <= j < upload_slot(list, username, filename) ==> !is_upload(
                #[trigger] list[j],
                username,
                filename,
            ),
    decreases list.len(),
{
    if list.len() > 0 && !is_upload(list[0], username, filename) {
        let rest = list.skip(1);
        lemma_upload_slot_is(rest, username, filename);
        assert forall|j: int| 0 <= j < upload_slot(list, username, filename) implies !is_upload(
            #[trigger] list[j],
            username,
            filename,
        ) by {
            if j > 0 {
                assert(!is_upload(rest[j - 1], username, filename));
            }
        }
    }
}

proof fn lemma_first_ended(list: Seq<UploadEntryView>, i: int)
    requires
        0 <= i <= list.len(),
        forall|j: int| 0 <= j < i ==> (#[trigger] list[j]).state is Active,
        i < list.len() ==> !(list[i].state is Active),
    ensures
        first_ended(list) == i,
    decreases i,
{
    if i > 0 {
        assert(list[0].state is Active);
        assert forall|j: int| 0 <= j < i - 1 implies (#[trigger] list.skip(1)[j]).state
            is Active by {
            assert(list[j + 1].state is Active);
        }
        lemma_first_ended(list.skip(1), i - 1);
    }
}

proof fn lemma_first_ended_is(list: Seq<UploadEntryView>)
    ensures
        0 <= first_ended(list) <= list.len(),
        first_ended(list) < list.len() ==> !(list[first_ended(list)].state is Active),
        forall|j: int| 0 <= j < first_ended(list) ==> (#[trigger] list[j]).state is Active,
    decreases list.len(),
{
    if list.len() > 0 && list[0].state is Active {
        let rest = list.skip(1);
        lemma_first_ended_is(rest);
        assert forall|j: int| 0 <= j < first_ended(list) implies (#[trigger] list[j]).state
            is Active by {
            if j > 0 {
                assert(rest[j - 1].state is Active);
            }
        }
    }
}

/// The list of uploads stays within its cap, and where it has room what became known of an upload
/// is listed.
pub proof fn law_uploads_are_listed(
    list: Seq<UploadEntryView>,
    username: Seq<char>,
    filename: Seq<char>,
    state: UploadState<Seq<char>>,
)
    requires
        list.len() <= MAX_UPLOADS,
    ensures
        with_upload(list, username, filename, state).len() <= MAX_UPLOADS,
        list.len() < MAX_UPLOADS ==> upload_state(
            with_upload(list, username, filename, state),
            username,
            filename,
        ) == Some(state),
{
    let entry = UploadEntryView { username, filename, state };
    let i = upload_slot(list, username, filename);
    lemma_upload_slot_is(list, username, filename);
    lemma_first_ended_is(list.push(entry));
    if i < list.len() {
        lemma_upload_slot(list.update(i, entry), username, filename, i);
    } else {
        lemma_upload_slot(list.push(entry), username, filename, i);
    }
}

/// An upload on its way is never given up to make room while there is one that has ended.
pub proof fn law_active_uploads_stay_listed(list: Seq<UploadEntryView>, i: int, ended: int)
    requires
        0 <= i < list.len(),
        list[i].state is Active,
        0 <= ended < list.len(),
        !(list[ended].state is Active),
    ensures
        uploads_kept(list).contains(list[i]),
{
    lemma_first_ended_is(list);
    let k = first_ended(list);
    assert(k <= ended);
    if list.len() > MAX_UPLOADS {
        let after = list.remove(k);
        if i < k {
            assert(after[i] == list[i]);
        } else {
            assert(after[i - 1] == list[i]);
        }
    }
}

/// The list of uploads.
pub struct UploadList {
    entries: Vec<UploadEntry>,
}

impl View for UploadList {
    type V = Seq<UploadEntryView>;

    closed spec fn view(&self) -> Seq<UploadEntryView> {
        views(self.entries@)
    }
}

impl UploadList {
    pub fn new() -> (r: UploadList)
        ensures
            r@ == Seq::<UploadEntryView>::empty(),
    {
        let r = UploadList { entries: Vec::new() };
        assert(r@ =~= Seq::<UploadEntryView>::empty());
        r
    }

    fn slot(&self, username: &str, filename: &str) -> (i: usize)
        ensures
            i == upload_slot(self@, username@, filename@),
            i <= self@.len(),
    {
        let mut i: usize = 0;
        while i < self.entries.len()
            invariant
                i <= self.entries@.len(),
                self@ == views(self.entries@),
                forall|j: int|
                    0 <= j < i ==> !is_upload(#[trigger] self@[j], username@, filename@),
            decreases self.entries@.len() - i,
        {
            let e = &self.entries[i];
            if same(e.username.as_str(), username) && same(e.filename.as_str(), filename) {
                proof {
                    lemma_upload_slot(self@, username@, filename@, i as int);
                }
                return i;
            }
            i += 1;
        }
        proof {
            lemma_upload_slot(self@, username@, filename@, i as int);
        }
        i
    }

    /// An upload's state became known.
    pub fn set_state(&mut self, username: &str, filename: &str, state: UploadState<String>)
        ensures
            final(self)@ == with_upload(old(self)@, username@, filename@, state@),
    {
        let i = self.slot(username, filename);
        let entry = UploadEntry {
            username: username.to_owned(),
            filename: filename.to_owned(),
            state,
        };
        let ghost e = entry@;
        if i < self.entries.len() {
            self.entries.set(i, entry);
            assert(self@ =~= old(self)@.update(i as int, e));
            return;
        }
        self.entries.push(entry);
        let ghost all = self@;
        assert(all == old(self)@.push(e));
        if self.entries.len() > MAX_UPLOADS {
            let mut k: usize = 0;
            while k < self.entries.len() && self.entries[k].state.is_active()
                invariant
                    k <= self.entries@.len(),
                    all == views(self.entries@),
                    forall|j: int| 0 <= j < k ==> (#[trigger] all[j]).state is Active,
                decreases self.entries@.len() - k,
            {
                k += 1;
            }
            proof {
                lemma_first_ended(all, k as int);
            }
            if k < self.entries.len() {
                self.entries.remove(k);
                assert(self@ =~= all.remove(k as int));
            } else {
                self.entries.remove(0);
                assert(self@ =~= all.remove(0));
            }
        }
    }

    /// Bytes of an upload went out.
    pub fn progress(&mut self, username: &str, filename: &str, bytes: u64, size: u64)
        ensures
            final(self)@ == with_progress(old(self)@, username@, filename@, bytes, size),
    {
        let i = self.slot(username, filename);
        if i < self.entries.len() && self.entries[i].state.is_active() {
            self.set_state(username, filename, UploadState::Active { bytes, size });
        }
    }
}

/// An upload on its way: what went out, and of how much.
pub const UPLOAD_ACTIVE: &'static str = r#"<span class="pill ok">uploading…</span> <span class="muted">{} of {}</span>"#;

pub const UPLOAD_DONE: &'static str = r#"<span class="pill ok">done</span>"#;

/// A row of the table: path, name, user and status.
pub const UPLOAD_ROW: &'static str = r##"<tr><td class="col-file" title="{}">{}</td><td class="col-user">{}</td><td>{}</td></tr>"##;

pub const NO_UPLOAD_ACTIVE: &'static str = r#"<p class="muted">nothing uploading right now</p>"#;

pub const NO_UPLOAD_ENDED: &'static str = r#"<p class="muted">no finished uploads yet</p>"#;

/// How an upload's state is shown.
pub open spec fn upload_status_html(state: UploadState<Seq<char>>) -> Seq<char> {
    match state {
        UploadState::Active { bytes, size } => filled(
            UPLOAD_ACTIVE@,
            blanks().push(size_text(bytes)).push(size_text(size)),
        ),
        UploadState::Completed => UPLOAD_DONE@,
        UploadState::Failed(reason) => filled(STATUS_FAILED@, blanks().push(escaped(reason))),
    }
}

fn render_upload_status(state: &UploadState<String>) -> (html: String)
    ensures
        html@ == upload_status_html(state@),
{
    match state {
        UploadState::Active { bytes, size } => fill2(
            UPLOAD_ACTIVE,
            human_size(*bytes).as_str(),
            human_size(*size).as_str(),
        ),
        UploadState::Completed => UPLOAD_DONE.to_owned(),
        UploadState::Failed(reason) => fill1(STATUS_FAILED, escape(reason.as_str()).as_str()),
    }
}

/// A row of the table.
pub open spec fn upload_row_html(e: UploadEntryView) -> Seq<char> {
    filled(
        UPLOAD_ROW@,
        blanks()
            .push(escaped(e.filename))
            .push(escaped(basename_of(e.filename)))
            .push(escaped(e.username))
            .push(upload_status_html(e.state)),
    )
}

fn render_upload_row(e: &UploadEntry) -> (html: String)
    ensures
        html@ == upload_row_html(e@),
{
    let mut v = Values::new();
    v.add(escape(e.filename.as_str()));
    v.add(escape(basename(e.filename.as_str())));
    v.add(escape(e.username.as_str()));
    v.add(render_upload_status(&e.state));
    fill(UPLOAD_ROW, &v)
}

/// The rows of the uploads that are on their way, or of those that have ended, newest first.
pub open spec fn upload_rows_html(list: Seq<UploadEntryView>, active: bool) -> Seq<char>
    decreases list.len(),
{
    if list.len() == 0 {
        Seq::empty()
    } else if (list.last().state is Active) == active {
        upload_row_html(list.last()) + upload_rows_html(list.drop_last(), active)
    } else {
        upload_rows_html(list.drop_last(), active)
    }
}

/// The table of the uploads that are on their way, or of those that have ended.
pub open spec fn upload_table_html(list: Seq<UploadEntryView>, active: bool) -> Seq<char> {
    let count = if active {
        uploads_active(list)
    } else {
        (list.len() - uploads_active(list)) as nat
    };
    if count == 0 {
        if active {
            NO_UPLOAD_ACTIVE@
        } else {
            NO_UPLOAD_ENDED@
        }
    } else {
        filled(DOWNLOAD_TABLE@, blanks().push(upload_rows_html(list, active)))
    }
}

/// The uploads, those on their way first.
pub open spec fn uploads_html(list: Seq<UploadEntryView>) -> Seq<char> {
    filled(
        DOWNLOADS@,
        blanks()
            .push(decimal(uploads_active(list)))
            .push(upload_table_html(list, true))
            .push(decimal((list.len() - uploads_active(list)) as nat))
            .push(upload_table_html(list, false)),
    )
}

impl UploadList {
    fn count_active(&self) -> (n: usize)
        ensures
            n == uploads_active(self@),
            n <= self@.len(),
    {
        let ghost all = self@;
        let mut n: usize = 0;
        let mut i: usize = 0;
        assert(all.take(0) =~= Seq::<UploadEntryView>::empty());
        while i < self.entries.len()
            invariant
                i <= self.entries@.len(),
                all == views(self.entries@),
                n <= i,
                n == uploads_active(all.take(i as int)),
            decreases self.entries@.len() - i,
        {
            assert(all.take(i as int + 1).drop_last() =~= all.take(i as int));
            if self.entries[i].state.is_active() {
                n += 1;
            }
            i += 1;
        }
        assert(all.take(i as int) =~= all);
        n
    }

    fn render_table(&self, active: bool) -> (html: String)
        ensures
            html@ == upload_table_html(self@, active),
    {
        let n = self.count_active();
        let count: usize = if active {
            n
        } else {
            self.entries.len() - n
        };
        if count == 0 {
            if active {
                return NO_UPLOAD_ACTIVE.to_owned();
            } else {
                return NO_UPLOAD_ENDED.to_owned();
            }
        }
        let ghost all = self@;
        let mut rows = String::new();
        let mut i: usize = self.entries.len();
        assert(all.take(i as int) =~= all);
        assert(rows@ + upload_rows_html(all, active) =~= upload_rows_html(all, active));
        while i > 0
            invariant
                i <= self.entries@.len(),
                all == views(self.entries@),
                rows@ + upload_rows_html(all.take(i as int), active) == upload_rows_html(
                    all,
                    active,
                ),
            decreases i,
        {
            let e = &self.entries[i - 1];
            let ghost now = all.take(i as int);
            let ghost before = rows@;
            assert(now.drop_last() =~= all.take(i as int - 1));
            assert(now.last() == e@);
            if e.state.is_active() == active {
                rows.append(render_upload_row(e).as_str());
                assert(rows@ + upload_rows_html(now.drop_last(), active) =~= before
                    + upload_rows_html(now, active));
            }
            i -= 1;
        }
        assert(rows@ + upload_rows_html(all.take(0), active) =~= rows@);
        fill1(DOWNLOAD_TABLE, rows.as_str())
    }

    /// The uploads as the page lists them.
    pub fn render(&self) -> (html: String)
        ensures
            html@ == uploads_html(self@),
    {
        let n = self.count_active();
        let mut v = Values::new();
        v.add_number(n as u64);
        v.add(self.render_table(true));
        v.add_number((self.entries.len() - n) as u64);
        v.add(self.render_table(false));
        fill(DOWNLOADS, &v)
    }
}

proof fn lemma_upload_found(list: Seq<UploadEntryView>, username: Seq<char>, filename: Seq<char>)
    ensures
        0 <= upload_slot(list, username, filename) <= list.len(),
        forall|i: int|
            0 <= i < upload_slot(list, username, filename) ==> !((#[trigger] list[i]).username
                == username && list[i].filename == filename),
        upload_slot(list, username, filename) < list.len() ==> list[upload_slot(
            list,
            username,
            filename,
        )].username == username && list[upload_slot(list, username, filename)].filename == filename,
    decreases list.len(),
{
    if list.len() > 0 && !(list[0].username == username && list[0].filename == filename) {
        let rest = list.skip(1);
        lemma_upload_found(rest, username, filename);
        assert forall|i: int| 0 <= i < upload_slot(list, username, filename) implies !((
        #[trigger] list[i]).username == username && list[i].filename == filename) by {
            if i > 0 {
                assert(rest[i - 1] == list[i]);
            }
        }
    }
}

/// An upload is found by user and file: its state is that of the first entry that names both, and
/// there is none where no entry does.
pub proof fn law_an_upload_is_found_by_user_and_file(
    list: Seq<UploadEntryView>,
    username: Seq<char>,
    filename: Seq<char>,
    k: int,
)
    ensures
        0 <= k < list.len() && list[k].username == username && list[k].filename == filename && (
        forall|i: int|
            0 <= i < k ==> !((#[trigger] list[i]).username == username && list[i].filename
                == filename)) ==> upload_state(list, username, filename) == Some(list[k].state),
        (forall|i: int|
            0 <= i < list.len() ==> !((#[trigger] list[i]).username == username
                && list[i].filename == filename)) <==> upload_state(
            list,
            username,
            filename,
        ) is None,
{
    lemma_upload_found(list, username, filename);
    let s = upload_slot(list, username, filename);
    if 0 <= k < list.len() && list[k].username == username && list[k].filename == filename && (
    forall|i: int|
        0 <= i < k ==> !((#[trigger] list[i]).username == username && list[i].filename
            == filename)) {
        lemma_upload_slot(list, username, filename, k);
    }
    if s < list.len() {
        assert(list[s].username == username && list[s].filename == filename);
    }
}

/// An upload's state that is set reads back, and no other upload changes, as long as the list has
/// room or the upload is listed.
pub proof fn law_an_upload_reads_back(
    list: Seq<UploadEntryView>,
    username: Seq<char>,
    filename: Seq<char>,
    state: UploadState<Seq<char>>,
    other_user: Seq<char>,
    other_file: Seq<char>,
)
    requires
        list.len() < MAX_UPLOADS || upload_state(list, username, filename) is Some,
    ensures
        upload_state(with_upload(list, username, filename, state), username, filename) == Some(
            state,
        ),
        !(other_user == username && other_file == filename) ==> upload_state(
            with_upload(list, username, filename, state),
            other_user,
            other_file,
        ) == upload_state(list, other_user, other_file),
{
    let after = with_upload(list, username, filename, state);
    let s = upload_slot(list, username, filename);
    lemma_upload_found(list, username, filename);
    assert forall|i: int| 0 <= i < s implies !((#[trigger] after[i]).username == username
        && after[i].filename == filename) by {
        assert(after[i] == list[i]);
    }
    lemma_upload_slot(after, username, filename, s);
    if !(other_user == username && other_file == filename) {
        let t = upload_slot(list, other_user, other_file);
        lemma_upload_found(list, other_user, other_file);
        let k = if t < list.len() {
            t
        } else {
            after.len() as int
        };
        assert forall|i: int| 0 <= i < k implies !((#[trigger] after[i]).username == other_user
            && after[i].filename == other_file) by {
            if i < list.len() && i != s {
                assert(after[i] == list[i]);
            }
        }
        if t < list.len() {
            assert(t != s);
            assert(after[t] == list[t]);
        }
        lemma_upload_slot(after, other_user, other_file, k);
    }
}

/// Progress counts for an upload that is under way; one that ended, or that is not listed, stays as
/// it is.
pub proof fn law_progress_counts_under_way(
    list: Seq<UploadEntryView>,
    username: Seq<char>,
    filename: Seq<char>,
    bytes: u64,
    size: u64,
)
    ensures
        ({
            let before = upload_state(list, username, filename);
            let after = with_progress(list, username, filename, bytes, size);
            &&& (before matches Some(s) && s is Active) ==> upload_state(after, username, filename)
                == Some(UploadState::<Seq<char>>::Active { bytes, size }) && after.len() == list.len()
            &&& !(before matches Some(s) && s is Active) ==> after == list
        }),
{
    lemma_upload_found(list, username, filename);
    if upload_state(list, username, filename) is Some {
        law_an_upload_reads_back(
            list,
            username,
            filename,
            UploadState::Active { bytes, size },
            username,
            filename,
        );
    }
}

/// A list that is full gives up its oldest upload that ended.
pub proof fn law_the_oldest_ended_is_given_up(list: Seq<UploadEntryView>, k: int)
    requires
        0 <= k < list.len(),
        forall|i: int| 0 <= i < k ==> (#[trigger] list[i]).state is Active,
        list[k].state is Completed || list[k].state is Failed,
    ensures
        list.len() > MAX_UPLOADS ==> uploads_kept(list) == list.remove(k),
        list.len() <= MAX_UPLOADS ==> uploads_kept(list) == list,
{
    lemma_first_ended(list, k);
}

/// The uploads that count as active are those under way.
pub proof fn law_active_uploads_are_counted(list: Seq<UploadEntryView>)
    ensures
        uploads_active(list) == list.filter(|e: UploadEntryView| e.state is Active).len(),
    decreases list.len(),
{
    reveal(Seq::filter);
    if list.len() > 0 {
        law_active_uploads_are_counted(list.drop_last());
    }
}

/// A table shows every upload of its kind, newest first: what is listed later stands above.
pub proof fn law_newer_uploads_stand_above(
    a: Seq<UploadEntryView>,
    b: Seq<UploadEntryView>,
    e: UploadEntryView,
    active: bool,
)
    ensures
        upload_rows_html(a + b, active) == upload_rows_html(b, active) + upload_rows_html(
            a,
            active,
        ),
        upload_rows_html(seq![e], active) == (if active == (e.state is Active) {
            upload_row_html(e)
        } else {
            Seq::empty()
        }),
    decreases b.len(),
{
    let one = seq![e];
    assert(one.drop_last() =~= Seq::<UploadEntryView>::empty());
    assert(one.last() == e);
    assert(upload_rows_html(one.drop_last(), active) =~= Seq::<char>::empty());
    assert(upload_row_html(e) + Seq::<char>::empty() =~= upload_row_html(e));
    if b.len() == 0 {
        assert(a + b =~= a);
        assert(upload_rows_html(b, active) + upload_rows_html(a, active) =~= upload_rows_html(
            a,
            active,
        ));
    } else {
        law_newer_uploads_stand_above(a, b.drop_last(), e, active);
        assert((a + b).drop_last() =~= a + b.drop_last());
        assert((a + b).last() == b.last());
        assert(upload_rows_html(a + b, active) =~= upload_rows_html(b, active) + upload_rows_html(
            a,
            active,
        ));
    }
}

proof fn lemma_upload_row_pieces()
    ensures
        UPLOAD_ROW@.len() == 87,
        UPLOAD_ROW@.subrange(0, 32) == "<tr><td class=\"col-file\" title=\""@,
        UPLOAD_ROW@[32] == '{' && UPLOAD_ROW@[33] == '}',
        UPLOAD_ROW@.subrange(34, 36) == "\">"@,
        UPLOAD_ROW@[36] == '{' && UPLOAD_ROW@[37] == '}',
        UPLOAD_ROW@.subrange(38, 64) == "</td><td class=\"col-user\">"@,
        UPLOAD_ROW@[64] == '{' && UPLOAD_ROW@[65] == '}',
        UPLOAD_ROW@.subrange(66, 75) == "</td><td>"@,
        UPLOAD_ROW@[75] == '{' && UPLOAD_ROW@[76] == '}',
        UPLOAD_ROW@.subrange(77, 87) == "</td></tr>"@,
{
    reveal_strlit(
        "<tr><td class=\"col-file\" title=\"{}\">{}</td><td class=\"col-user\">{}</td><td>{}</td></tr>",
    );
    assert(UPLOAD_ROW@.subrange(0, 32) =~= "<tr><td class=\"col-file\" title=\""@) by {
        reveal_strlit("<tr><td class=\"col-file\" title=\"");
    }
    assert(UPLOAD_ROW@.subrange(34, 36) =~= "\">"@) by {
        reveal_strlit("\">");
    }
    assert(UPLOAD_ROW@.subrange(38, 64) =~= "</td><td class=\"col-user\">"@) by {
        reveal_strlit("</td><td class=\"col-user\">");
    }
    assert(UPLOAD_ROW@.subrange(66, 75) =~= "</td><td>"@) by {
        reveal_strlit("</td><td>");
    }
    assert(UPLOAD_ROW@.subrange(77, 87) =~= "</td></tr>"@) by {
        reveal_strlit("</td></tr>");
    }
}

proof fn lemma_upload_row_plain()
    ensures
        forall|k: int| 0 <= k < "\">"@.len() ==> #[trigger] "\">"@[k] != '{',
        forall|k: int| 0 <= k < "</td></tr>"@.len() ==> #[trigger] "</td></tr>"@[k] != '{',
        forall|k: int| 0 <= k < "</td><td class=\"col-user\">"@.len() ==> #[trigger] "</td><td class=\"col-user\">"@[k] != '{',
        forall|k: int| 0 <= k < "</td><td>"@.len() ==> #[trigger] "</td><td>"@[k] != '{',
        forall|k: int| 0 <= k < "<tr><td class=\"col-file\" title=\""@.len() ==> #[trigger] "<tr><td class=\"col-file\" title=\""@[k] != '{',
{
    assert forall|k: int| 0 <= k < "\">"@.len() implies #[trigger] "\">"@[k]
        != '{' by {
        reveal_strlit("\">");
    }
    assert forall|k: int| 0 <= k < "</td></tr>"@.len() implies #[trigger] "</td></tr>"@[k]
        != '{' by {
        reveal_strlit("</td></tr>");
    }
    assert forall|k: int| 0 <= k < "</td><td class=\"col-user\">"@.len() implies #[trigger] "</td><td class=\"col-user\">"@[k]
        != '{' by {
        reveal_strlit("</td><td class=\"col-user\">");
    }
    assert forall|k: int| 0 <= k < "</td><td>"@.len() implies #[trigger] "</td><td>"@[k]
        != '{' by {
        reveal_strlit("</td><td>");
    }
    assert forall|k: int| 0 <= k < "<tr><td class=\"col-file\" title=\""@.len() implies #[trigger] "<tr><td class=\"col-file\" title=\""@[k]
        != '{' by {
        reveal_strlit("<tr><td class=\"col-file\" title=\"");
    }
}

proof fn lemma_upload_row_filled(v: Seq<Seq<char>>)
    requires
        v.len() == 4,
    ensures
        filled(UPLOAD_ROW@, v) == "<tr><td class=\"col-file\" title=\""@ + (v[0] + (
            "\">"@ + (v[1] + (
            "</td><td class=\"col-user\">"@ + (v[2] + (
            "</td><td>"@ + (v[3] + (
            "</td></tr>"@)))))))),
{
    lemma_upload_row_pieces();
    lemma_upload_row_plain();
    let t = UPLOAD_ROW@;
    assert(v.skip(0) =~= v);
    assert(t.skip(0) =~= t);
    lemma_text_behind(t, 77, "</td></tr>"@, v.skip(4));
    lemma_blank_at(t, 66, "</td><td>"@, 77, v, 3);
    lemma_blank_at(t, 38, "</td><td class=\"col-user\">"@, 66, v, 2);
    lemma_blank_at(t, 34, "\">"@, 38, v, 1);
    lemma_blank_at(t, 0, "<tr><td class=\"col-file\" title=\""@, 34, v, 0);
}

/// A row shows the path and the name of the file, the user it goes to, and how it stands.
pub proof fn law_a_row_shows_its_upload(e: UploadEntryView)
    ensures
        upload_row_html(e) == "<tr><td class=\"col-file\" title=\""@ + (escaped(e.filename) + (
            "\">"@ + (escaped(basename_of(e.filename)) + (
            "</td><td class=\"col-user\">"@ + (escaped(e.username) + (
            "</td><td>"@ + (upload_status_html(e.state) + (
            "</td></tr>"@)))))))),
{
    let v = blanks()
        .push(escaped(e.filename))
        .push(escaped(basename_of(e.filename)))
        .push(escaped(e.username))
        .push(upload_status_html(e.state));
    lemma_upload_row_filled(v);
}

proof fn lemma_active_pieces()
    ensures
        UPLOAD_ACTIVE@.len() == 75,
        UPLOAD_ACTIVE@.subrange(0, 60) == "<span class=\"pill ok\">uploading…</span> <span class=\"muted\">"@,
        UPLOAD_ACTIVE@[60] == '{' && UPLOAD_ACTIVE@[61] == '}',
        UPLOAD_ACTIVE@.subrange(62, 66) == " of "@,
        UPLOAD_ACTIVE@[66] == '{' && UPLOAD_ACTIVE@[67] == '}',
        UPLOAD_ACTIVE@.subrange(68, 75) == "</span>"@,
{
    reveal_strlit(
        "<span class=\"pill ok\">uploading…</span> <span class=\"muted\">{} of {}</span>",
    );
    assert(UPLOAD_ACTIVE@.subrange(0, 60) =~= "<span class=\"pill ok\">uploading…</span> <span class=\"muted\">"@) by {
        reveal_strlit("<span class=\"pill ok\">uploading…</span> <span class=\"muted\">");
    }
    assert(UPLOAD_ACTIVE@.subrange(62, 66) =~= " of "@) by {
        reveal_strlit(" of ");
    }
    assert(UPLOAD_ACTIVE@.subrange(68, 75) =~= "</span>"@) by {
        reveal_strlit("</span>");
    }
}

proof fn lemma_active_plain()
    ensures
        forall|k: int| 0 <= k < " of "@.len() ==> #[trigger] " of "@[k] != '{',
        forall|k: int| 0 <= k < "</span>"@.len() ==> #[trigger] "</span>"@[k] != '{',
        forall|k: int| 0 <= k < "<span class=\"pill ok\">uploading…</span> <span class=\"muted\">"@.len() ==> #[trigger] "<span class=\"pill ok\">uploading…</span> <span class=\"muted\">"@[k] != '{',
{
    assert forall|k: int| 0 <= k < " of "@.len() implies #[trigger] " of "@[k]
        != '{' by {
        reveal_strlit(" of ");
    }
    assert forall|k: int| 0 <= k < "</span>"@.len() implies #[trigger] "</span>"@[k]
        != '{' by {
        reveal_strlit("</span>");
    }
    assert forall|k: int| 0 <= k < "<span class=\"pill ok\">uploading…</span> <span class=\"muted\">"@.len() implies #[trigger] "<span class=\"pill ok\">uploading…</span> <span class=\"muted\">"@[k]
        != '{' by {
        reveal_strlit("<span class=\"pill ok\">uploading…</span> <span class=\"muted\">");
    }
}

proof fn lemma_active_filled(v: Seq<Seq<char>>)
    requires
        v.len() == 2,
    ensures
        filled(UPLOAD_ACTIVE@, v) == "<span class=\"pill ok\">uploading…</span> <span class=\"muted\">"@ + (v[0] + (
            " of "@ + (v[1] + (
            "</span>"@)))),
{
    lemma_active_pieces();
    lemma_active_plain();
    let t = UPLOAD_ACTIVE@;
    assert(v.skip(0) =~= v);
    assert(t.skip(0) =~= t);
    crate::template::lemma_text_behind(t, 68, "</span>"@, v.skip(2));
    crate::template::lemma_blank_at(t, 62, " of "@, 68, v, 1);
    crate::template::lemma_blank_at(t, 0, "<span class=\"pill ok\">uploading…</span> <span class=\"muted\">"@, 62, v, 0);
}

/// An upload under way shows how far it is, of how much.
pub proof fn law_an_active_upload_shows_its_progress(bytes: u64, size: u64)
    ensures
        upload_status_html(UploadState::Active { bytes, size }) == "<span class=\"pill ok\">uploading…</span> <span class=\"muted\">"@ + (size_text(bytes) + (
            " of "@ + (size_text(size) + (
            "</span>"@)))),
{
    let v = blanks()
        .push(size_text(bytes))
        .push(size_text(size));
    lemma_active_filled(v);
}

proof fn lemma_uploads_pieces()
    ensures
        DOWNLOADS@.len() == 190,
        DOWNLOADS@.subrange(0, 72) == "<div class=\"card\"><h3 style=\"margin-top:0\">Active <span class=\"muted\">— "@,
        DOWNLOADS@[72] == '{' && DOWNLOADS@[73] == '}',
        DOWNLOADS@.subrange(74, 86) == "</span></h3>"@,
        DOWNLOADS@[86] == '{' && DOWNLOADS@[87] == '}',
        DOWNLOADS@.subrange(88, 168) == "</div><div class=\"card\"><h3 style=\"margin-top:0\">Previous <span class=\"muted\">— "@,
        DOWNLOADS@[168] == '{' && DOWNLOADS@[169] == '}',
        DOWNLOADS@.subrange(170, 182) == "</span></h3>"@,
        DOWNLOADS@[182] == '{' && DOWNLOADS@[183] == '}',
        DOWNLOADS@.subrange(184, 190) == "</div>"@,
{
    reveal_strlit(
        "<div class=\"card\"><h3 style=\"margin-top:0\">Active <span class=\"muted\">— {}</span></h3>{}</div><div class=\"card\"><h3 style=\"margin-top:0\">Previous <span class=\"muted\">— {}</span></h3>{}</div>",
    );
    assert(DOWNLOADS@.subrange(0, 72) =~= "<div class=\"card\"><h3 style=\"margin-top:0\">Active <span class=\"muted\">— "@) by {
        reveal_strlit("<div class=\"card\"><h3 style=\"margin-top:0\">Active <span class=\"muted\">— ");
    }
    assert(DOWNLOADS@.subrange(74, 86) =~= "</span></h3>"@) by {
        reveal_strlit("</span></h3>");
    }
    assert(DOWNLOADS@.subrange(88, 168) =~= "</div><div class=\"card\"><h3 style=\"margin-top:0\">Previous <span class=\"muted\">— "@) by {
        reveal_strlit("</div><div class=\"card\"><h3 style=\"margin-top:0\">Previous <span class=\"muted\">— ");
    }
    assert(DOWNLOADS@.subrange(170, 182) =~= "</span></h3>"@) by {
        reveal_strlit("</span></h3>");
    }
    assert(DOWNLOADS@.subrange(184, 190) =~= "</div>"@) by {
        reveal_strlit("</div>");
    }
}

proof fn lemma_uploads_plain()
    ensures
        forall|k: int| 0 <= k < "</div>"@.len() ==> #[trigger] "</div>"@[k] != '{',
        forall|k: int| 0 <= k < "</div><div class=\"card\"><h3 style=\"margin-top:0\">Previous <span class=\"muted\">— "@.len() ==> #[trigger] "</div><div class=\"card\"><h3 style=\"margin-top:0\">Previous <span class=\"muted\">— "@[k] != '{',
        forall|k: int| 0 <= k < "</span></h3>"@.len() ==> #[trigger] "</span></h3>"@[k] != '{',
        forall|k: int| 0 <= k < "<div class=\"card\"><h3 style=\"margin-top:0\">Active <span class=\"muted\">— "@.len() ==> #[trigger] "<div class=\"card\"><h3 style=\"margin-top:0\">Active <span class=\"muted\">— "@[k] != '{',
{
    assert forall|k: int| 0 <= k < "</div>"@.len() implies #[trigger] "</div>"@[k]
        != '{' by {
        reveal_strlit("</div>");
    }
    assert forall|k: int| 0 <= k < "</div><div class=\"card\"><h3 style=\"margin-top:0\">Previous <span class=\"muted\">— "@.len() implies #[trigger] "</div><div class=\"card\"><h3 style=\"margin-top:0\">Previous <span class=\"muted\">— "@[k]
        != '{' by {
        reveal_strlit("</div><div class=\"card\"><h3 style=\"margin-top:0\">Previous <span class=\"muted\">— ");
    }
    assert forall|k: int| 0 <= k < "</span></h3>"@.len() implies #[trigger] "</span></h3>"@[k]
        != '{' by {
        reveal_strlit("</span></h3>");
    }
    assert forall|k: int| 0 <= k < "<div class=\"card\"><h3 style=\"margin-top:0\">Active <span class=\"muted\">— "@.len() implies #[trigger] "<div class=\"card\"><h3 style=\"margin-top:0\">Active <span class=\"muted\">— "@[k]
        != '{' by {
        reveal_strlit("<div class=\"card\"><h3 style=\"margin-top:0\">Active <span class=\"muted\">— ");
    }
}

proof fn lemma_uploads_filled(v: Seq<Seq<char>>)
    requires
        v.len() == 4,
    ensures
        filled(DOWNLOADS@, v) == "<div class=\"card\"><h3 style=\"margin-top:0\">Active <span class=\"muted\">— "@ + (v[0] + (
            "</span></h3>"@ + (v[1] + (
            "</div><div class=\"card\"><h3 style=\"margin-top:0\">Previous <span class=\"muted\">— "@ + (v[2] + (
            "</span></h3>"@ + (v[3] + (
            "</div>"@)))))))),
{
    lemma_uploads_pieces();
    lemma_uploads_plain();
    let t = DOWNLOADS@;
    assert(v.skip(0) =~= v);
    assert(t.skip(0) =~= t);
    crate::template::lemma_text_behind(t, 184, "</div>"@, v.skip(4));
    crate::template::lemma_blank_at(t, 170, "</span></h3>"@, 184, v, 3);
    crate::template::lemma_blank_at(t, 88, "</div><div class=\"card\"><h3 style=\"margin-top:0\">Previous <span class=\"muted\">— "@, 170, v, 2);
    crate::template::lemma_blank_at(t, 74, "</span></h3>"@, 88, v, 1);
    crate::template::lemma_blank_at(t, 0, "<div class=\"card\"><h3 style=\"margin-top:0\">Active <span class=\"muted\">— "@, 74, v, 0);
}

/// The page shows how many uploads are under way, and those, and then how many ended, and those.
pub proof fn law_the_page_shows_both_tables(list: Seq<UploadEntryView>)
    ensures
        uploads_html(list) == "<div class=\"card\"><h3 style=\"margin-top:0\">Active <span class=\"muted\">— "@ + (decimal(uploads_active(list)) + (
            "</span></h3>"@ + (upload_table_html(list, true) + (
            "</div><div class=\"card\"><h3 style=\"margin-top:0\">Previous <span class=\"muted\">— "@ + (decimal((list.len() - uploads_active(list)) as nat) + (
            "</span></h3>"@ + (upload_table_html(list, false) + (
            "</div>"@)))))))),
{
    let v = blanks()
        .push(decimal(uploads_active(list)))
        .push(upload_table_html(list, true))
        .push(decimal((list.len() - uploads_active(list)) as nat))
        .push(upload_table_html(list, false));
    lemma_uploads_filled(v);
}

} // verus!
