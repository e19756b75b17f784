//! The downloads that the user asked for, and the page that lists them.
use vstd::prelude::*;
use vstd::string::*;

use crate::html::{escape, escaped};
use crate::peer_net::naming::{
    basename, basename_of, is_incomplete_name, parse_incomplete_name,
};
use crate::template::{
    blanks, fill, fill1, fill2, filled, lemma_blank_at, lemma_text_behind, Values,
};
use crate::text::{decimal, group_views, same, starts_with, views};

verus! {

broadcast use group_views;

/// Cap on the downloads that are kept.
pub const MAX_DOWNLOADS: usize = 200;

/// The latest known state of a download.
#[derive(Debug, PartialEq)]
pub enum DownloadState<S> {
    /// Asked for; the peer is being found, or has yet to offer the file.
    Queued,
    /// In the uploader's queue, at this position.
    Position(u32),
    /// The uploader is about to send.
    Starting,
    /// Finished, at this path.
    Completed(S),
    /// Given up, for this reason.
    Failed(S),
    /// A part of the file was found on disk when the program started.
    Incomplete,
}

impl View for DownloadState<String> {
    type V = DownloadState<Seq<char>>;

    open spec fn view(&self) -> DownloadState<Seq<char>> {
        match self {
            DownloadState::Queued => DownloadState::Queued,
            DownloadState::Position(n) => DownloadState::Position(*n),
            DownloadState::Starting => DownloadState::Starting,
            DownloadState::Completed(path) => DownloadState::Completed(path@),
            DownloadState::Failed(reason) => DownloadState::Failed(reason@),
            DownloadState::Incomplete => DownloadState::Incomplete,
        }
    }
}

/// Whether a download is in flight.
pub open spec fn in_flight<S>(state: DownloadState<S>) -> bool {
    state is Queued || state is Position || state is Starting
}

impl DownloadState<String> {
    /// Whether the download is in flight, so that it can be cancelled.
    pub fn is_active(&self) -> (r: bool)
        ensures
            r == in_flight(self@),
    {
        match self {
            DownloadState::Queued => true,
            DownloadState::Position(_) => true,
            DownloadState::Starting => true,
            _ => false,
        }
    }
}

/// A download that the user asked for.
#[derive(Debug, PartialEq)]
pub struct DownloadEntry {
    pub username: String,
    pub filename: String,
    pub state: DownloadState<String>,
}

pub struct DownloadEntryView {
    pub username: Seq<char>,
    pub filename: Seq<char>,
    pub state: DownloadState<Seq<char>>,
}

impl View for DownloadEntry {
    type V = DownloadEntryView;

    open spec fn view(&self) -> DownloadEntryView {
        DownloadEntryView {
            username: self.username@,
            filename: self.filename@,
            state: self.state@,
        }
    }
}

/// Where the download of a file from a user stands in the list, or the list's length.
pub open spec fn entry_slot(
    list: Seq<DownloadEntryView>,
    username: Seq<char>,
    filename: Seq<char>,
) -> int
    decreases list.len(),
{
    if list.len() == 0 || (list[0].username == username && list[0].filename == filename) {
        0
    } else {
        1 + entry_slot(list.skip(1), username, filename)
    }
}

/// The state of the download of a file from a user, if there is one.
pub open spec fn state_of(
    list: Seq<DownloadEntryView>,
    username: Seq<char>,
    filename: Seq<char>,
) -> Option<DownloadState<Seq<char>>> {
    let i = entry_slot(list, username, filename);
    if i < list.len() {
        Some(list[i].state)
    } else {
        None
    }
}

/// Where the first download that is not in flight stands, or the list's length.
pub open spec fn first_at_rest(list: Seq<DownloadEntryView>) -> int
    decreases list.len(),
{
    if list.len() == 0 || !in_flight(list[0].state) {
        0
    } else {
        1 + first_at_rest(list.skip(1))
    }
}

/// The list after it grew: where it is too long, the oldest download at rest leaves, or the
/// oldest of all where none is at rest.
pub open spec fn evicted(list: Seq<DownloadEntryView>) -> Seq<DownloadEntryView> {
    let i = first_at_rest(list);
    if list.len() <= MAX_DOWNLOADS {
        list
    } else if i < list.len() {
        list.remove(i)
    } else {
        list.remove(0)
    }
}

/// The list after a download's state became known.
pub open spec fn with_state(
    list: Seq<DownloadEntryView>,
    username: Seq<char>,
    filename: Seq<char>,
    state: DownloadState<Seq<char>>,
) -> Seq<DownloadEntryView> {
    let i = entry_slot(list, username, filename);
    let entry = DownloadEntryView { username, filename, state };
    if i < list.len() {
        list.update(i, entry)
    } else {
        evicted(list.push(entry))
    }
}

/// Tells the downloads that are not of this file from this user.
pub open spec fn other_entry(username: Seq<char>, filename: Seq<char>) -> spec_fn(
    DownloadEntryView,
) -> bool {
    |e: DownloadEntryView| !(e.username == username && e.filename == filename)
}

/// How many downloads are in flight.
pub open spec fn active_count(list: Seq<DownloadEntryView>) -> nat
    decreases list.len(),
{
    if list.len() == 0 {
        0
    } else {
        active_count(list.drop_last()) + if in_flight(list.last().state) {
            1nat
        } else {
            0
        }
    }
}

pub proof fn lemma_entry_slot(
    list: Seq<DownloadEntryView>,
    username: Seq<char>,
    filename: Seq<char>,
    i: int,
)
    requires
        0 <= i <= list.len(),
        forall|j: int|
            0 <= j < i ==> !((#[trigger] list[j]).username == username && list[j].filename
                == filename),
        i < list.len() ==> list[i].username == username && list[i].filename == filename,
    ensures
        entry_slot(list, username, filename) == i,
    decreases i,
{
    if i > 0 {
        assert(!(list[0].username == username && list[0].filename == filename));
        assert forall|j: int| 0 <= j < i - 1 implies !((#[trigger] list.skip(1)[j]).username
            == username && list.skip(1)[j].filename == filename) by {
            assert(!(list[j + 1].username == username && list[j + 1].filename == filename));
        }
        lemma_entry_slot(list.skip(1), username, filename, i - 1);
    }
}

proof fn lemma_entry_slot_is(
    list: Seq<DownloadEntryView>,
    username: Seq<char>,
    filename: Seq<char>,
)
    ensures
        0 <= entry_slot(list, username, filename) <= list.len(),
    decreases list.len(),
{
    if list.len() > 0 {
        lemma_entry_slot_is(list.skip(1), username, filename);
    }
}

proof fn lemma_first_at_rest(list: Seq<DownloadEntryView>, i: int)
    requires
        0 <= i <= list.len(),
        forall|j: int| 0 <= j < i ==> in_flight((#[trigger] list[j]).state),
        i < list.len() ==> !in_flight(list[i].state),
    ensures
        first_at_rest(list) == i,
    decreases i,
{
    if i > 0 {
        assert(in_flight(list[0].state));
        assert forall|j: int| 0 <= j < i - 1 implies in_flight(
            (#[trigger] list.skip(1)[j]).state,
        ) by {
            assert(in_flight(list[j + 1].state));
        }
        lemma_first_at_rest(list.skip(1), i - 1);
    }
}

proof fn lemma_first_at_rest_is(list: Seq<DownloadEntryView>)
    ensures
        0 <= first_at_rest(list) <= list.len(),
        first_at_rest(list) < list.len() ==> !in_flight(list[first_at_rest(list)].state),
        forall|j: int|
            0 <= j < first_at_rest(list) ==> in_flight((#[trigger] list[j]).state),
    decreases list.len(),
{
    if list.len() > 0 && in_flight(list[0].state) {
        let rest = list.skip(1);
        lemma_first_at_rest_is(rest);
        assert forall|j: int| 0 <= j < first_at_rest(list) implies in_flight(
            (#[trigger] list[j]).state,
        ) by {
            if j > 0 {
                assert(in_flight(rest[j - 1].state));
            }
        }
    }
}

/// The list never grows beyond its cap.
pub proof fn law_download_list_is_bounded(
    list: Seq<DownloadEntryView>,
    username: Seq<char>,
    filename: Seq<char>,
    state: DownloadState<Seq<char>>,
)
    requires
        list.len() <= MAX_DOWNLOADS,
    ensures
        with_state(list, username, filename, state).len() <= MAX_DOWNLOADS,
{
    lemma_entry_slot_is(list, username, filename);
    lemma_first_at_rest_is(list.push(DownloadEntryView { username, filename, state }));
}

/// A download in flight is never given up to make room while there is one at rest.
pub proof fn law_eviction_spares_the_active(list: Seq<DownloadEntryView>, i: int)
    requires
        0 <= i < list.len(),
        in_flight(list[i].state),
        active_count(list) < list.len(),
    ensures
        evicted(list).contains(list[i]),
{
    lemma_first_at_rest_is(list);
    let k = first_at_rest(list);
    if k == list.len() {
        lemma_all_active(list);
    }
    if list.len() > MAX_DOWNLOADS {
        let after = list.remove(k);
        if i < k {
            assert(after[i] == list[i]);
        } else {
            assert(after[i - 1] == list[i]);
        }
    }
}

proof fn lemma_all_active(list: Seq<DownloadEntryView>)
    requires
        forall|j: int| 0 <= j < list.len() ==> in_flight((#[trigger] list[j]).state),
    ensures
        active_count(list) == list.len(),
    decreases list.len(),
{
    if list.len() > 0 {
        assert forall|j: int| 0 <= j < list.drop_last().len() implies in_flight(
            (#[trigger] list.drop_last()[j]).state,
        ) by {
            assert(in_flight(list[j].state));
        }
        lemma_all_active(list.drop_last());
        assert(in_flight(list[list.len() - 1].state));
    }
}

/// The list of downloads.
pub struct DownloadList {
    entries: Vec<DownloadEntry>,
}

impl View for DownloadList {
    type V = Seq<DownloadEntryView>;

    closed spec fn view(&self) -> Seq<DownloadEntryView> {
        views(self.entries@)
    }
}

/// The downloads that are found on disk when the program starts: the finished ones by name and
/// path, and the parts of unfinished ones by the names of their files.
pub open spec fn finished_on_disk(files: Seq<(Seq<char>, Seq<char>)>) -> Seq<DownloadEntryView>
    decreases files.len(),
{
    if files.len() == 0 {
        Seq::empty()
    } else {
        let before = finished_on_disk(files.drop_last());
        let (name, path) = files.last();
        if "INCOMPLETE-"@.is_prefix_of(name) {
            before
        } else {
            before.push(
                DownloadEntryView {
                    username: Seq::empty(),
                    filename: name,
                    state: DownloadState::Completed(path),
                },
            )
        }
    }
}

/// The unfinished downloads among the names of files.
pub open spec fn parts_on_disk(names: Seq<Seq<char>>) -> Seq<DownloadEntryView>
    decreases names.len(),
{
    if names.len() == 0 {
        Seq::empty()
    } else {
        let before = parts_on_disk(names.drop_last());
        if is_incomplete_name(names.last()) {
            before.push(
                DownloadEntryView {
                    username: Seq::empty(),
                    filename: names.last().skip(28),
                    state: DownloadState::Incomplete,
                },
            )
        } else {
            before
        }
    }
}

/// The first downloads of a list, up to the cap.
pub open spec fn capped(list: Seq<DownloadEntryView>) -> Seq<DownloadEntryView> {
    if list.len() <= MAX_DOWNLOADS {
        list
    } else {
        list.take(MAX_DOWNLOADS as int)
    }
}

impl DownloadList {
    pub fn new() -> (r: DownloadList)
        ensures
            r@ == Seq::<DownloadEntryView>::empty(),
    {
        let r = DownloadList { entries: Vec::new() };
        assert(r@ =~= Seq::<DownloadEntryView>::empty());
        r
    }

    /// The list at the start of the program, from what is on disk: the finished downloads, by name
    /// and path, and the names of the files in the folder for unfinished ones.
    pub fn from_disk(finished: &Vec<(String, String)>, partial: &Vec<String>) -> (r: DownloadList)
        ensures
            r@ == capped(finished_on_disk(views(finished@)) + parts_on_disk(views(partial@))),
    {
        let ghost fs = views(finished@);
        let ghost ps = views(partial@);
        let mut entries: Vec<DownloadEntry> = Vec::new();
        let mut i: usize = 0;
        assert(fs.take(0) =~= Seq::empty());
        assert(views(entries@) =~= finished_on_disk(fs.take(0)));
        while i < finished.len()
            invariant
                i <= finished@.len(),
                fs == views(finished@),
                views(entries@) == finished_on_disk(fs.take(i as int)),
            decreases finished@.len() - i,
        {
            let file = &finished[i];
            assert(fs.take(i as int + 1).drop_last() =~= fs.take(i as int));
            assert(fs.take(i as int + 1).last() == file@);
            if !starts_with(file.0.as_str(), "INCOMPLETE-") {
                let entry = DownloadEntry {
                    username: String::new(),
                    filename: file.0.clone(),
                    state: DownloadState::Completed(file.1.clone()),
                };
                assert(entry@.username =~= Seq::<char>::empty());
                entries.push(entry);
            }
            i += 1;
        }
        assert(fs.take(i as int) =~= fs);
        let ghost first = views(entries@);
        let mut k: usize = 0;
        assert(ps.take(0) =~= Seq::empty());
        assert(views(entries@) =~= first + parts_on_disk(ps.take(0)));
        while k < partial.len()
            invariant
                k <= partial@.len(),
                ps == views(partial@),
                views(entries@) == first + parts_on_disk(ps.take(k as int)),
            decreases partial@.len() - k,
        {
            assert(ps.take(k as int + 1).drop_last() =~= ps.take(k as int));
            assert(ps.take(k as int + 1).last() == partial@[k as int]@);
            if let Some(name) = parse_incomplete_name(partial[k].as_str()) {
                let ghost before = parts_on_disk(ps.take(k as int));
                let entry = DownloadEntry {
                    username: String::new(),
                    filename: name,
                    state: DownloadState::Incomplete,
                };
                assert(entry@.username =~= Seq::<char>::empty());
                entries.push(entry);
                assert(first + before.push(entry@) =~= (first + before).push(entry@));
            }
            k += 1;
        }
        assert(ps.take(k as int) =~= ps);
        let ghost all = views(entries@);
        entries.truncate(MAX_DOWNLOADS);
        assert(views(entries@) =~= capped(all));
        DownloadList { entries }
    }

    fn slot(&self, username: &str, filename: &str) -> (i: usize)
        ensures
            i == entry_slot(self@, username@, filename@),
            i <= self@.len(),
    {
        let mut i: usize = 0;
        while i < self.entries.len()
            invariant
                i <= self.entries@.len(),
                self@ == views(self.entries@),
                forall|j: int|
                    0 <= j < i ==> !((#[trigger] self@[j]).username == username@ && self@[j].filename
                        == filename@),
            decreases self.entries@.len() - i,
        {
            let e = &self.entries[i];
            if same(e.username.as_str(), username) && same(e.filename.as_str(), filename) {
                proof {
                    lemma_entry_slot(self@, username@, filename@, i as int);
                }
                return i;
            }
            i += 1;
        }
        proof {
            lemma_entry_slot(self@, username@, filename@, i as int);
        }
        i
    }

    /// The state of a download, if there is one.
    pub fn state(&self, username: &str, filename: &str) -> (r: Option<&DownloadState<String>>)
        ensures
            match r {
                Some(s) => state_of(self@, username@, filename@) == Some(s@),
                None => state_of(self@, username@, filename@) is None,
            },
    {
        let i = self.slot(username, filename);
        if i < self.entries.len() {
            Some(&self.entries[i].state)
        } else {
            None
        }
    }

    /// A download's state became known.
    pub fn set_state(&mut self, username: &str, filename: &str, state: DownloadState<String>)
        ensures
            final(self)@ == with_state(old(self)@, username@, filename@, state@),
    {
        let i = self.slot(username, filename);
        let entry = DownloadEntry {
            username: username.to_owned(),
            filename: filename.to_owned(),
            state,
        };
        let ghost e = entry@;
        if i < self.entries.len() {
            self.entries.set(i, entry);
            assert(self@ =~= old(self)@.update(i as int, e));
            return;
        }
        self.entries.push(entry);
        let ghost all = self@;
        assert(all == old(self)@.push(e));
        if self.entries.len() > MAX_DOWNLOADS {
            let mut k: usize = 0;
            while k < self.entries.len() && self.entries[k].state.is_active()
                invariant
                    k <= self.entries@.len(),
                    all == views(self.entries@),
                    forall|j: int| 0 <= j < k ==> in_flight((#[trigger] all[j]).state),
                decreases self.entries@.len() - k,
            {
                k += 1;
            }
            proof {
                lemma_first_at_rest(all, k as int);
            }
            if k < self.entries.len() {
                self.entries.remove(k);
                assert(self@ =~= all.remove(k as int));
            } else {
                self.entries.remove(0);
                assert(self@ =~= all.remove(0));
            }
        }
    }

    /// A download is cancelled: it leaves the list.
    pub fn remove(&mut self, username: &str, filename: &str)
        ensures
            final(self)@ == old(self)@.filter(other_entry(username@, filename@)),
    {
        let ghost all = self@;
        let ghost p = other_entry(username@, filename@);
        let mut i: usize = 0;
        let ghost mut done: int = 0;
        proof {
            reveal(Seq::filter);
            assert(all.take(0).filter(p) =~= Seq::<DownloadEntryView>::empty());
            assert(all.take(0).filter(p) + all.skip(0) =~= all);
        }
        while i < self.entries.len()
            invariant
                0 <= done <= all.len(),
                p == other_entry(username@, filename@),
                i == all.take(done).filter(p).len(),
                self@ == views(self.entries@),
                self@ == all.take(done).filter(p) + all.skip(done),
            decreases all.len() - done,
        {
            let ghost head = all.take(done).filter(p);
            let ghost now = self@;
            proof {
                assert(now[i as int] == all[done]);
                reveal(Seq::filter);
                assert(all.take(done + 1).drop_last() =~= all.take(done));
                assert(all.take(done + 1).last() == all[done]);
            }
            let e = &self.entries[i];
            if same(e.username.as_str(), username) && same(e.filename.as_str(), filename) {
                assert(!p(all[done]));
                self.entries.remove(i);
                assert(self@ =~= now.remove(i as int));
                assert(now.remove(i as int) =~= head + all.skip(done + 1));
            } else {
                assert(p(all[done]));
                assert(now =~= head.push(all[done]) + all.skip(done + 1));
                i += 1;
            }
            proof {
                done = done + 1;
            }
        }
        proof {
            assert(done == all.len());
            assert(all.take(done) =~= all);
            assert(self@ =~= all.filter(p));
        }
    }
}

/// The pill of a waiting download: its position.
pub const PILL_POSITION: &'static str = r#"<span class="pill">queue #{}</span>"#;

pub const PILL_QUEUED: &'static str = r#"<span class="pill">queued</span>"#;

pub const PILL_STARTING: &'static str = r#"<span class="pill ok">downloading…</span>"#;

/// A finished download: its path.
pub const STATUS_DONE: &'static str = r#"<span class="pill ok">done</span> <span class="muted">{}</span>"#;

/// A failed download: the reason.
pub const STATUS_FAILED: &'static str = r#"<span class="pill warn">failed</span> <span class="muted">{}</span>"#;

pub const STATUS_INCOMPLETE: &'static str = r#"<span class="pill warn">incomplete</span> <span class="muted">partial file on disk — search and Get again to resume</span>"#;

/// The control that cancels a download: user and file.
pub const CANCEL_ROW: &'static str = r##" <form hx-post="/download/cancel" hx-target="closest tr" hx-swap="delete" style="margin:0;display:inline"><input type="hidden" name="username" value="{}"><input type="hidden" name="filename" value="{}"><button class="btn xs secondary" type="submit">cancel</button></form>"##;

pub const NO_USER: &'static str = r#"<span class="muted">—</span>"#;

/// A row of the table: path, name, user, status and action.
pub const DOWNLOAD_ROW: &'static str = r##"<tr><td class="col-file" title="{}">{}</td><td class="col-user">{}</td><td>{}{}</td></tr>"##;

/// The table around its rows.
pub const DOWNLOAD_TABLE: &'static str = r##"<div class="results-scroll"><table class="results-table"><thead><tr><th class="col-file">File</th><th class="col-user">User</th><th>Status</th></tr></thead><tbody>{}</tbody></table></div>"##;

pub const NONE_ACTIVE: &'static str = r#"<p class="muted">nothing downloading right now</p>"#;

pub const NONE_FINISHED: &'static str = r#"<p class="muted">no finished downloads yet</p>"#;

/// Both tables: how many and which are in flight, how many and which are not.
pub const DOWNLOADS: &'static str = r##"<div class="card"><h3 style="margin-top:0">Active <span class="muted">— {}</span></h3>{}</div><div class="card"><h3 style="margin-top:0">Previous <span class="muted">— {}</span></h3>{}</div>"##;

/// How a download's state is shown.
pub open spec fn status_html(state: DownloadState<Seq<char>>) -> Seq<char> {
    match state {
        DownloadState::Queued => PILL_QUEUED@,
        DownloadState::Position(n) => filled(PILL_POSITION@, blanks().push(decimal(n as nat))),
        DownloadState::Starting => PILL_STARTING@,
        DownloadState::Completed(path) => filled(STATUS_DONE@, blanks().push(escaped(path))),
        DownloadState::Failed(reason) => filled(STATUS_FAILED@, blanks().push(escaped(reason))),
        DownloadState::Incomplete => STATUS_INCOMPLETE@,
    }
}

fn render_status(state: &DownloadState<String>) -> (html: String)
    ensures
        html@ == status_html(state@),
{
    match state {
        DownloadState::Queued => PILL_QUEUED.to_owned(),
        DownloadState::Position(n) => fill1(
            PILL_POSITION,
            crate::text::to_decimal(*n as u64).as_str(),
        ),
        DownloadState::Starting => PILL_STARTING.to_owned(),
        DownloadState::Completed(path) => fill1(STATUS_DONE, escape(path.as_str()).as_str()),
        DownloadState::Failed(reason) => fill1(STATUS_FAILED, escape(reason.as_str()).as_str()),
        DownloadState::Incomplete => STATUS_INCOMPLETE.to_owned(),
    }
}

/// A row of the table; one in flight can be cancelled.
pub open spec fn download_row_html(e: DownloadEntryView) -> Seq<char> {
    filled(
        DOWNLOAD_ROW@,
        blanks()
            .push(escaped(e.filename))
            .push(escaped(basename_of(e.filename)))
            .push(if e.username.len() == 0 { NO_USER@ } else { escaped(e.username) })
            .push(status_html(e.state))
            .push(if in_flight(e.state) {
                filled(CANCEL_ROW@, blanks()
                    .push(escaped(e.username))
                    .push(escaped(e.filename)))
            } else {
                ""@
            }),
    )
}

fn render_row(e: &DownloadEntry) -> (html: String)
    ensures
        html@ == download_row_html(e@),
{
    let mut v = Values::new();
    v.add(escape(e.filename.as_str()));
    v.add(escape(basename(e.filename.as_str())));
    if e.username.as_str().is_empty() {
        v.add_str(NO_USER);
    } else {
        v.add(escape(e.username.as_str()));
    }
    v.add(render_status(&e.state));
    if e.state.is_active() {
        v.add(
            fill2(
                CANCEL_ROW,
                escape(e.username.as_str()).as_str(),
                escape(e.filename.as_str()).as_str(),
            ),
        );
    } else {
        v.add_str("");
    }
    fill(DOWNLOAD_ROW, &v)
}

/// The rows of the downloads that are in flight, or of those that are not, newest first.
pub open spec fn download_rows_html(list: Seq<DownloadEntryView>, active: bool) -> Seq<char>
    decreases list.len(),
{
    if list.len() == 0 {
        Seq::empty()
    } else if in_flight(list.last().state) == active {
        download_row_html(list.last()) + download_rows_html(list.drop_last(), active)
    } else {
        download_rows_html(list.drop_last(), active)
    }
}

/// The table of the downloads that are in flight, or of those that are not.
pub open spec fn download_table_html(list: Seq<DownloadEntryView>, active: bool) -> Seq<char> {
    let count = if active {
        active_count(list)
    } else {
        (list.len() - active_count(list)) as nat
    };
    if count == 0 {
        if active {
            NONE_ACTIVE@
        } else {
            NONE_FINISHED@
        }
    } else {
        filled(DOWNLOAD_TABLE@, blanks().push(download_rows_html(list, active)))
    }
}

/// The downloads, those in flight first.
pub open spec fn downloads_html(list: Seq<DownloadEntryView>) -> Seq<char> {
    filled(
        DOWNLOADS@,
        blanks()
            .push(decimal(active_count(list)))
            .push(download_table_html(list, true))
            .push(decimal((list.len() - active_count(list)) as nat))
            .push(download_table_html(list, false)),
    )
}

impl DownloadList {
    fn count_active(&self) -> (n: usize)
        ensures
            n == active_count(self@),
            n <= self@.len(),
    {
        let ghost all = self@;
        let mut n: usize = 0;
        let mut i: usize = 0;
        assert(all.take(0) =~= Seq::<DownloadEntryView>::empty());
        while i < self.entries.len()
            invariant
                i <= self.entries@.len(),
                all == views(self.entries@),
                n <= i,
                n == active_count(all.take(i as int)),
            decreases self.entries@.len() - i,
        {
            assert(all.take(i as int + 1).drop_last() =~= all.take(i as int));
            if self.entries[i].state.is_active() {
                n += 1;
            }
            i += 1;
        }
        assert(all.take(i as int) =~= all);
        n
    }

    fn render_table(&self, active: bool) -> (html: String)
        ensures
            html@ == download_table_html(self@, active),
    {
        let n = self.count_active();
        let count: usize = if active {
            n
        } else {
            self.entries.len() - n
        };
        if count == 0 {
            if active {
                return NONE_ACTIVE.to_owned();
            } else {
                return NONE_FINISHED.to_owned();
            }
        }
        let ghost all = self@;
        let mut rows = String::new();
        let mut i: usize = self.entries.len();
        assert(all.take(i as int) =~= all);
        assert(rows@ + download_rows_html(all, active) =~= download_rows_html(all, active));
        while i > 0
            invariant
                i <= self.entries@.len(),
                all == views(self.entries@),
                rows@ + download_rows_html(all.take(i as int), active) == download_rows_html(
                    all,
                    active,
                ),
            decreases i,
        {
            let e = &self.entries[i - 1];
            let ghost now = all.take(i as int);
            let ghost before = rows@;
            assert(now.drop_last() =~= all.take(i as int - 1));
            assert(now.last() == e@);
            if e.state.is_active() == active {
                rows.append(render_row(e).as_str());
                assert(rows@ + download_rows_html(now.drop_last(), active) =~= before
                    + download_rows_html(now, active));
            }
            i -= 1;
        }
        assert(rows@ + download_rows_html(all.take(0), active) =~= rows@);
        fill1(DOWNLOAD_TABLE, rows.as_str())
    }

    /// The downloads as the page lists them.
    pub fn render(&self) -> (html: String)
        ensures
            html@ == downloads_html(self@),
    {
        let n = self.count_active();
        let mut v = Values::new();
        v.add_number(n as u64);
        v.add(self.render_table(true));
        v.add_number((self.entries.len() - n) as u64);
        v.add(self.render_table(false));
        fill(DOWNLOADS, &v)
    }
}

proof fn lemma_entry_found(list: Seq<DownloadEntryView>, username: Seq<char>, filename: Seq<char>)
    ensures
        0 <= entry_slot(list, username, filename) <= list.len(),
        forall|i: int|
            0 <= i < entry_slot(list, username, filename) ==> !((#[trigger] list[i]).username
                == username && list[i].filename == filename),
        entry_slot(list, username, filename) < list.len() ==> list[entry_slot(
            list,
            username,
            filename,
        )].username == username && list[entry_slot(list, username, filename)].filename == filename,
    decreases list.len(),
{
    if list.len() > 0 && !(list[0].username == username && list[0].filename == filename) {
        let rest = list.skip(1);
        lemma_entry_found(rest, username, filename);
        assert forall|i: int| 0 <= i < entry_slot(list, username, filename) implies !((
        #[trigger] list[i]).username == username && list[i].filename == filename) by {
            if i > 0 {
                assert(rest[i - 1] == list[i]);
            }
        }
    }
}

/// A download is found by user and file: its state is that of the first entry that names both, and
/// there is none where no entry does.
pub proof fn law_a_download_is_found_by_user_and_file(
    list: Seq<DownloadEntryView>,
    username: Seq<char>,
    filename: Seq<char>,
    k: int,
)
    ensures
        0 <= k < list.len() && list[k].username == username && list[k].filename == filename && (
        forall|i: int|
            0 <= i < k ==> !((#[trigger] list[i]).username == username && list[i].filename
                == filename)) ==> state_of(list, username, filename) == Some(list[k].state),
        (forall|i: int|
            0 <= i < list.len() ==> !((#[trigger] list[i]).username == username
                && list[i].filename == filename)) <==> state_of(list, username, filename) is None,
{
    lemma_entry_found(list, username, filename);
    let s = entry_slot(list, username, filename);
    if 0 <= k < list.len() && list[k].username == username && list[k].filename == filename && (
    forall|i: int|
        0 <= i < k ==> !((#[trigger] list[i]).username == username && list[i].filename
            == filename)) {
        lemma_entry_slot(list, username, filename, k);
    }
    if s < list.len() {
        assert(list[s].username == username && list[s].filename == filename);
    }
}

/// A state that is set reads back, and no other download changes, as long as the list has room or
/// the download is listed.
pub proof fn law_a_state_reads_back(
    list: Seq<DownloadEntryView>,
    username: Seq<char>,
    filename: Seq<char>,
    state: DownloadState<Seq<char>>,
    other_user: Seq<char>,
    other_file: Seq<char>,
)
    requires
        list.len() < MAX_DOWNLOADS || state_of(list, username, filename) is Some,
    ensures
        state_of(with_state(list, username, filename, state), username, filename) == Some(state),
        !(other_user == username && other_file == filename) ==> state_of(
            with_state(list, username, filename, state),
            other_user,
            other_file,
        ) == state_of(list, other_user, other_file),
        with_state(list, username, filename, state).len() == list.len() + if state_of(
            list,
            username,
            filename,
        ) is Some {
            0int
        } else {
            1
        },
{
    let after = with_state(list, username, filename, state);
    let s = entry_slot(list, username, filename);
    lemma_entry_found(list, username, filename);
    assert forall|i: int| 0 <= i < s implies !((#[trigger] after[i]).username == username
        && after[i].filename == filename) by {
        assert(after[i] == list[i]);
    }
    lemma_entry_slot(after, username, filename, s);
    if !(other_user == username && other_file == filename) {
        let t = entry_slot(list, other_user, other_file);
        lemma_entry_found(list, other_user, other_file);
        let k = if t < list.len() {
            t
        } else {
            after.len() as int
        };
        assert forall|i: int| 0 <= i < k implies !((#[trigger] after[i]).username == other_user
            && after[i].filename == other_file) by {
            if i < list.len() && i != s {
                assert(after[i] == list[i]);
            }
        }
        if t < list.len() {
            assert(t != s);
            assert(after[t] == list[t]);
        }
        lemma_entry_slot(after, other_user, other_file, k);
    }
}

/// A download that is removed is gone, and only it.
pub proof fn law_a_removed_download_is_gone(
    list: Seq<DownloadEntryView>,
    username: Seq<char>,
    filename: Seq<char>,
    e: DownloadEntryView,
)
    ensures
        ({
            let after = list.filter(other_entry(username, filename));
            &&& state_of(after, username, filename) is None
            &&& after.contains(e) <==> list.contains(e) && !(e.username == username && e.filename
                == filename)
        }),
{
    let p = other_entry(username, filename);
    let after = list.filter(p);
    lemma_entry_found(after, username, filename);
    let s = entry_slot(after, username, filename);
    if s < after.len() {
        crate::sequences::lemma_filter_there(list, p, s);
    }
    if after.contains(e) {
        let i = choose|i: int| 0 <= i < after.len() && after[i] == e;
        crate::sequences::lemma_filter_there(list, p, i);
        let j = choose|j: int| 0 <= j < list.len() && #[trigger] list[j] == after[i];
        assert(list.contains(e));
    }
    if list.contains(e) && !(e.username == username && e.filename == filename) {
        let j = choose|j: int| 0 <= j < list.len() && list[j] == e;
        assert(p(list[j]));
        list.lemma_filter_contains(p, j);
    }
}

/// A list that is full gives up its oldest download at rest, or where none is, its oldest; a list
/// with room gives up none.
pub proof fn law_the_oldest_at_rest_is_given_up(list: Seq<DownloadEntryView>, k: int)
    requires
        0 <= k < list.len(),
        forall|i: int|
            0 <= i < k ==> (#[trigger] list[i]).state is Queued || list[i].state is Position
                || list[i].state is Starting,
        list[k].state is Completed || list[k].state is Failed || list[k].state is Incomplete,
    ensures
        list.len() > MAX_DOWNLOADS ==> evicted(list) == list.remove(k),
        list.len() <= MAX_DOWNLOADS ==> evicted(list) == list,
{
    lemma_first_at_rest(list, k);
}

/// The downloads that count as active are those that are queued, in a queue or starting.
pub proof fn law_active_downloads_are_counted(list: Seq<DownloadEntryView>)
    ensures
        active_count(list) == list.filter(
            |e: DownloadEntryView|
                e.state is Queued || e.state is Position || e.state is Starting,
        ).len(),
    decreases list.len(),
{
    reveal(Seq::filter);
    if list.len() > 0 {
        law_active_downloads_are_counted(list.drop_last());
    }
}

/// A table shows every download of its kind, newest first: what is listed later stands above.
pub proof fn law_newer_downloads_stand_above(
    a: Seq<DownloadEntryView>,
    b: Seq<DownloadEntryView>,
    e: DownloadEntryView,
    active: bool,
)
    ensures
        download_rows_html(a + b, active) == download_rows_html(b, active) + download_rows_html(
            a,
            active,
        ),
        download_rows_html(seq![e], active) == (if active == (e.state is Queued
            || e.state is Position || e.state is Starting) {
            download_row_html(e)
        } else {
            Seq::empty()
        }),
    decreases b.len(),
{
    let one = seq![e];
    assert(one.drop_last() =~= Seq::<DownloadEntryView>::empty());
    assert(one.last() == e);
    assert(download_rows_html(one.drop_last(), active) =~= Seq::<char>::empty());
    assert(download_row_html(e) + Seq::<char>::empty() =~= download_row_html(e));
    if b.len() == 0 {
        assert(a + b =~= a);
        assert(download_rows_html(b, active) + download_rows_html(a, active)
            =~= download_rows_html(a, active));
    } else {
        law_newer_downloads_stand_above(a, b.drop_last(), e, active);
        assert((a + b).drop_last() =~= a + b.drop_last());
        assert((a + b).last() == b.last());
        assert(download_rows_html(a + b, active) =~= download_rows_html(b, active)
            + download_rows_html(a, active));
    }
}

/// What is found on disk when the program starts is listed in its order: every finished file as
/// completed at its path, and every part under the name that it will have.
pub proof fn law_files_on_disk_are_listed(
    files: Seq<(Seq<char>, Seq<char>)>,
    names: Seq<Seq<char>>,
)
    ensures
        ({
            let kept = files.filter(
                |f: (Seq<char>, Seq<char>)| !("INCOMPLETE-"@.is_prefix_of(f.0)),
            );
            let out = finished_on_disk(files);
            &&& out.len() == kept.len()
            &&& forall|i: int|
                0 <= i < out.len() ==> (#[trigger] out[i]).filename == kept[i].0 && out[i].state
                    == DownloadState::Completed(kept[i].1) && out[i].username.len() == 0
        }),
        ({
            let kept = names.filter(|n: Seq<char>| is_incomplete_name(n));
            let out = parts_on_disk(names);
            &&& out.len() == kept.len()
            &&& forall|i: int|
                0 <= i < out.len() ==> (#[trigger] out[i]).filename == kept[i].skip(28)
                    && out[i].state is Incomplete && out[i].username.len() == 0
        }),
{
    lemma_finished(files);
    lemma_parts(names);
}

proof fn lemma_finished(files: Seq<(Seq<char>, Seq<char>)>)
    ensures
        ({
            let kept = files.filter(
                |f: (Seq<char>, Seq<char>)| !("INCOMPLETE-"@.is_prefix_of(f.0)),
            );
            let out = finished_on_disk(files);
            &&& out.len() == kept.len()
            &&& forall|i: int|
                0 <= i < out.len() ==> (#[trigger] out[i]).filename == kept[i].0 && out[i].state
                    == DownloadState::Completed(kept[i].1) && out[i].username.len() == 0
        }),
    decreases files.len(),
{
    reveal(Seq::filter);
    if files.len() > 0 {
        lemma_finished(files.drop_last());
    }
}

proof fn lemma_parts(names: Seq<Seq<char>>)
    ensures
        ({
            let kept = names.filter(|n: Seq<char>| is_incomplete_name(n));
            let out = parts_on_disk(names);
            &&& out.len() == kept.len()
            &&& forall|i: int|
                0 <= i < out.len() ==> (#[trigger] out[i]).filename == kept[i].skip(28)
                    && out[i].state is Incomplete && out[i].username.len() == 0
        }),
    decreases names.len(),
{
    reveal(Seq::filter);
    if names.len() > 0 {
        lemma_parts(names.drop_last());
    }
}

proof fn lemma_download_row_pieces()
    ensures
        DOWNLOAD_ROW@.len() == 89,
        DOWNLOAD_ROW@.subrange(0, 32) == "<tr><td class=\"col-file\" title=\""@,
        DOWNLOAD_ROW@[32] == '{' && DOWNLOAD_ROW@[33] == '}',
        DOWNLOAD_ROW@.subrange(34, 36) == "\">"@,
        DOWNLOAD_ROW@[36] == '{' && DOWNLOAD_ROW@[37] == '}',
        DOWNLOAD_ROW@.subrange(38, 64) == "</td><td class=\"col-user\">"@,
        DOWNLOAD_ROW@[64] == '{' && DOWNLOAD_ROW@[65] == '}',
        DOWNLOAD_ROW@.subrange(66, 75) == "</td><td>"@,
        DOWNLOAD_ROW@[75] == '{' && DOWNLOAD_ROW@[76] == '}',
        DOWNLOAD_ROW@[77] == '{' && DOWNLOAD_ROW@[78] == '}',
        DOWNLOAD_ROW@.subrange(79, 89) == "</td></tr>"@,
{
    reveal_strlit(
        "<tr><td class=\"col-file\" title=\"{}\">{}</td><td class=\"col-user\">{}</td><td>{}{}</td></tr>",
    );
    assert(DOWNLOAD_ROW@.subrange(0, 32) =~= "<tr><td class=\"col-file\" title=\""@) by {
        reveal_strlit("<tr><td class=\"col-file\" title=\"");
    }
    assert(DOWNLOAD_ROW@.subrange(34, 36) =~= "\">"@) by {
        reveal_strlit("\">");
    }
    assert(DOWNLOAD_ROW@.subrange(38, 64) =~= "</td><td class=\"col-user\">"@) by {
        reveal_strlit("</td><td class=\"col-user\">");
    }
    assert(DOWNLOAD_ROW@.subrange(66, 75) =~= "</td><td>"@) by {
        reveal_strlit("</td><td>");
    }
    assert(DOWNLOAD_ROW@.subrange(79, 89) =~= "</td></tr>"@) by {
        reveal_strlit("</td></tr>");
    }
}

proof fn lemma_download_row_plain()
    ensures
        forall|k: int| 0 <= k < "\">"@.len() ==> #[trigger] "\">"@[k] != '{',
        forall|k: int| 0 <= k < "</td></tr>"@.len() ==> #[trigger] "</td></tr>"@[k] != '{',
        forall|k: int| 0 <= k < "</td><td class=\"col-user\">"@.len() ==> #[trigger] "</td><td class=\"col-user\">"@[k] != '{',
        forall|k: int| 0 <= k < "</td><td>"@.len() ==> #[trigger] "</td><td>"@[k] != '{',
        forall|k: int| 0 <= k < "<tr><td class=\"col-file\" title=\""@.len() ==> #[trigger] "<tr><td class=\"col-file\" title=\""@[k] != '{',
{
    assert forall|k: int| 0 <= k < "\">"@.len() implies #[trigger] "\">"@[k]
        != '{' by {
        reveal_strlit("\">");
    }
    assert forall|k: int| 0 <= k < "</td></tr>"@.len() implies #[trigger] "</td></tr>"@[k]
        != '{' by {
        reveal_strlit("</td></tr>");
    }
    assert forall|k: int| 0 <= k < "</td><td class=\"col-user\">"@.len() implies #[trigger] "</td><td class=\"col-user\">"@[k]
        != '{' by {
        reveal_strlit("</td><td class=\"col-user\">");
    }
    assert forall|k: int| 0 <= k < "</td><td>"@.len() implies #[trigger] "</td><td>"@[k]
        != '{' by {
        reveal_strlit("</td><td>");
    }
    assert forall|k: int| 0 <= k < "<tr><td class=\"col-file\" title=\""@.len() implies #[trigger] "<tr><td class=\"col-file\" title=\""@[k]
        != '{' by {
        reveal_strlit("<tr><td class=\"col-file\" title=\"");
    }
}

proof fn lemma_download_row_filled(v: Seq<Seq<char>>)
    requires
        v.len() == 5,
    ensures
        filled(DOWNLOAD_ROW@, v) == "<tr><td class=\"col-file\" title=\""@ + (v[0] + (
            "\">"@ + (v[1] + (
            "</td><td class=\"col-user\">"@ + (v[2] + (
            "</td><td>"@ + (v[3] + (
            v[4] + ("</td></tr>"@))))))))),
{
    lemma_download_row_pieces();
    lemma_download_row_plain();
    let t = DOWNLOAD_ROW@;
    let none = Seq::<char>::empty();
    assert(v.skip(0) =~= v);
    assert(t.skip(0) =~= t);
    lemma_text_behind(t, 79, "</td></tr>"@, v.skip(5));
    assert(t.subrange(77, 77) =~= none);
    lemma_blank_at(t, 77, none, 79, v, 4);
    assert(none + (v[4] + filled(t.skip(79), v.skip(5))) =~= v[4] + filled(
        t.skip(79),
        v.skip(5),
    ));
    lemma_blank_at(t, 66, "</td><td>"@, 77, v, 3);
    lemma_blank_at(t, 38, "</td><td class=\"col-user\">"@, 66, v, 2);
    lemma_blank_at(t, 34, "\">"@, 38, v, 1);
    lemma_blank_at(t, 0, "<tr><td class=\"col-file\" title=\""@, 34, v, 0);
}

/// A row shows the path and the name of the file, the user it comes from, how it stands, and, while
/// it is under way, a control that cancels it.
pub proof fn law_a_row_shows_its_download(e: DownloadEntryView)
    ensures
        download_row_html(e) == "<tr><td class=\"col-file\" title=\""@ + (escaped(e.filename) + (
            "\">"@ + (escaped(basename_of(e.filename)) + (
            "</td><td class=\"col-user\">"@ + ((if e.username.len() == 0 { NO_USER@ } else { escaped(e.username) }) + (
            "</td><td>"@ + (status_html(e.state) + (
            (if in_flight(e.state) { filled(CANCEL_ROW@, blanks().push(escaped(e.username)).push(escaped(e.filename))) } else { ""@ }) + ("</td></tr>"@))))))))),
{
    let v = blanks()
        .push(escaped(e.filename))
        .push(escaped(basename_of(e.filename)))
        .push(if e.username.len() == 0 { NO_USER@ } else { escaped(e.username) })
        .push(status_html(e.state))
        .push(if in_flight(e.state) { filled(CANCEL_ROW@, blanks().push(escaped(e.username)).push(escaped(e.filename))) } else { ""@ });
    lemma_download_row_filled(v);
}

proof fn lemma_downloads_pieces()
    ensures
        DOWNLOADS@.len() == 190,
        DOWNLOADS@.subrange(0, 72) == "<div class=\"card\"><h3 style=\"margin-top:0\">Active <span class=\"muted\">— "@,
        DOWNLOADS@[72] == '{' && DOWNLOADS@[73] == '}',
        DOWNLOADS@.subrange(74, 86) == "</span></h3>"@,
        DOWNLOADS@[86] == '{' && DOWNLOADS@[87] == '}',
        DOWNLOADS@.subrange(88, 168) == "</div><div class=\"card\"><h3 style=\"margin-top:0\">Previous <span class=\"muted\">— "@,
        DOWNLOADS@[168] == '{' && DOWNLOADS@[169] == '}',
        DOWNLOADS@.subrange(170, 182) == "</span></h3>"@,
        DOWNLOADS@[182] == '{' && DOWNLOADS@[183] == '}',
        DOWNLOADS@.subrange(184, 190) == "</div>"@,
{
    reveal_strlit(
        "<div class=\"card\"><h3 style=\"margin-top:0\">Active <span class=\"muted\">— {}</span></h3>{}</div><div class=\"card\"><h3 style=\"margin-top:0\">Previous <span class=\"muted\">— {}</span></h3>{}</div>",
    );
    assert(DOWNLOADS@.subrange(0, 72) =~= "<div class=\"card\"><h3 style=\"margin-top:0\">Active <span class=\"muted\">— "@) by {
        reveal_strlit("<div class=\"card\"><h3 style=\"margin-top:0\">Active <span class=\"muted\">— ");
    }
    assert(DOWNLOADS@.subrange(74, 86) =~= "</span></h3>"@) by {
        reveal_strlit("</span></h3>");
    }
    assert(DOWNLOADS@.subrange(88, 168) =~= "</div><div class=\"card\"><h3 style=\"margin-top:0\">Previous <span class=\"muted\">— "@) by {
        reveal_strlit("</div><div class=\"card\"><h3 style=\"margin-top:0\">Previous <span class=\"muted\">— ");
    }
    assert(DOWNLOADS@.subrange(170, 182) =~= "</span></h3>"@) by {
        reveal_strlit("</span></h3>");
    }
    assert(DOWNLOADS@.subrange(184, 190) =~= "</div>"@) by {
        reveal_strlit("</div>");
    }
}

proof fn lemma_downloads_plain()
    ensures
        forall|k: int| 0 <= k < "</div>"@.len() ==> #[trigger] "</div>"@[k] != '{',
        forall|k: int| 0 <= k < "</div><div class=\"card\"><h3 style=\"margin-top:0\">Previous <span class=\"muted\">— "@.len() ==> #[trigger] "</div><div class=\"card\"><h3 style=\"margin-top:0\">Previous <span class=\"muted\">— "@[k] != '{',
        forall|k: int| 0 <= k < "</span></h3>"@.len() ==> #[trigger] "</span></h3>"@[k] != '{',
        forall|k: int| 0 <= k < "<div class=\"card\"><h3 style=\"margin-top:0\">Active <span class=\"muted\">— "@.len() ==> #[trigger] "<div class=\"card\"><h3 style=\"margin-top:0\">Active <span class=\"muted\">— "@[k] != '{',
{
    assert forall|k: int| 0 <= k < "</div>"@.len() implies #[trigger] "</div>"@[k]
        != '{' by {
        reveal_strlit("</div>");
    }
    assert forall|k: int| 0 <= k < "</div><div class=\"card\"><h3 style=\"margin-top:0\">Previous <span class=\"muted\">— "@.len() implies #[trigger] "</div><div class=\"card\"><h3 style=\"margin-top:0\">Previous <span class=\"muted\">— "@[k]
        != '{' by {
        reveal_strlit("</div><div class=\"card\"><h3 style=\"margin-top:0\">Previous <span class=\"muted\">— ");
    }
    assert forall|k: int| 0 <= k < "</span></h3>"@.len() implies #[trigger] "</span></h3>"@[k]
        != '{' by {
        reveal_strlit("</span></h3>");
    }
    assert forall|k: int| 0 <= k < "<div class=\"card\"><h3 style=\"margin-top:0\">Active <span class=\"muted\">— "@.len() implies #[trigger] "<div class=\"card\"><h3 style=\"margin-top:0\">Active <span class=\"muted\">— "@[k]
        != '{' by {
        reveal_strlit("<div class=\"card\"><h3 style=\"margin-top:0\">Active <span class=\"muted\">— ");
    }
}

proof fn lemma_downloads_filled(v: Seq<Seq<char>>)
    requires
        v.len() == 4,
    ensures
        filled(DOWNLOADS@, v) == "<div class=\"card\"><h3 style=\"margin-top:0\">Active <span class=\"muted\">— "@ + (v[0] + (
            "</span></h3>"@ + (v[1] + (
            "</div><div class=\"card\"><h3 style=\"margin-top:0\">Previous <span class=\"muted\">— "@ + (v[2] + (
            "</span></h3>"@ + (v[3] + (
            "</div>"@)))))))),
{
    lemma_downloads_pieces();
    lemma_downloads_plain();
    let t = DOWNLOADS@;
    assert(v.skip(0) =~= v);
    assert(t.skip(0) =~= t);
    lemma_text_behind(t, 184, "</div>"@, v.skip(4));
    lemma_blank_at(t, 170, "</span></h3>"@, 184, v, 3);
    lemma_blank_at(t, 88, "</div><div class=\"card\"><h3 style=\"margin-top:0\">Previous <span class=\"muted\">— "@, 170, v, 2);
    lemma_blank_at(t, 74, "</span></h3>"@, 88, v, 1);
    lemma_blank_at(t, 0, "<div class=\"card\"><h3 style=\"margin-top:0\">Active <span class=\"muted\">— "@, 74, v, 0);
}

/// The page shows how many downloads are under way, and those, and then how many are at rest, and
/// those.
pub proof fn law_the_page_shows_both_tables(list: Seq<DownloadEntryView>)
    ensures
        downloads_html(list) == "<div class=\"card\"><h3 style=\"margin-top:0\">Active <span class=\"muted\">— "@ + (decimal(active_count(list)) + (
            "</span></h3>"@ + (download_table_html(list, true) + (
            "</div><div class=\"card\"><h3 style=\"margin-top:0\">Previous <span class=\"muted\">— "@ + (decimal((list.len() - active_count(list)) as nat) + (
            "</span></h3>"@ + (download_table_html(list, false) + (
            "</div>"@)))))))),
{
    let v = blanks()
        .push(decimal(active_count(list)))
        .push(download_table_html(list, true))
        .push(decimal((list.len() - active_count(list)) as nat))
        .push(download_table_html(list, false));
    lemma_downloads_filled(v);
}

proof fn lemma_position_pieces()
    ensures
        PILL_POSITION@.len() == 35,
        PILL_POSITION@.subrange(0, 26) == "<span class=\"pill\">queue #"@,
        PILL_POSITION@[26] == '{' && PILL_POSITION@[27] == '}',
        PILL_POSITION@.subrange(28, 35) == "</span>"@,
{
    reveal_strlit(
        "<span class=\"pill\">queue #{}</span>",
    );
    assert(PILL_POSITION@.subrange(0, 26) =~= "<span class=\"pill\">queue #"@) by {
        reveal_strlit("<span class=\"pill\">queue #");
    }
    assert(PILL_POSITION@.subrange(28, 35) =~= "</span>"@) by {
        reveal_strlit("</span>");
    }
}

proof fn lemma_position_plain()
    ensures
        forall|k: int| 0 <= k < "</span>"@.len() ==> #[trigger] "</span>"@[k] != '{',
        forall|k: int| 0 <= k < "<span class=\"pill\">queue #"@.len() ==> #[trigger] "<span class=\"pill\">queue #"@[k] != '{',
{
    assert forall|k: int| 0 <= k < "</span>"@.len() implies #[trigger] "</span>"@[k]
        != '{' by {
        reveal_strlit("</span>");
    }
    assert forall|k: int| 0 <= k < "<span class=\"pill\">queue #"@.len() implies #[trigger] "<span class=\"pill\">queue #"@[k]
        != '{' by {
        reveal_strlit("<span class=\"pill\">queue #");
    }
}

proof fn lemma_position_filled(v: Seq<Seq<char>>)
    requires
        v.len() == 1,
    ensures
        filled(PILL_POSITION@, v) == "<span class=\"pill\">queue #"@ + (v[0] + (
            "</span>"@)),
{
    lemma_position_pieces();
    lemma_position_plain();
    let t = PILL_POSITION@;
    assert(v.skip(0) =~= v);
    assert(t.skip(0) =~= t);
    crate::template::lemma_text_behind(t, 28, "</span>"@, v.skip(1));
    crate::template::lemma_blank_at(t, 0, "<span class=\"pill\">queue #"@, 28, v, 0);
}

/// A download in a queue shows its place there.
pub proof fn law_a_queued_download_shows_its_place(n: u32)
    ensures
        status_html(DownloadState::Position(n)) == "<span class=\"pill\">queue #"@ + (decimal(n as nat) + (
            "</span>"@)),
{
    let v = blanks()
        .push(decimal(n as nat));
    lemma_position_filled(v);
}

proof fn lemma_done_pieces()
    ensures
        STATUS_DONE@.len() == 63,
        STATUS_DONE@.subrange(0, 54) == "<span class=\"pill ok\">done</span> <span class=\"muted\">"@,
        STATUS_DONE@[54] == '{' && STATUS_DONE@[55] == '}',
        STATUS_DONE@.subrange(56, 63) == "</span>"@,
{
    reveal_strlit(
        "<span class=\"pill ok\">done</span> <span class=\"muted\">{}</span>",
    );
    assert(STATUS_DONE@.subrange(0, 54) =~= "<span class=\"pill ok\">done</span> <span class=\"muted\">"@) by {
        reveal_strlit("<span class=\"pill ok\">done</span> <span class=\"muted\">");
    }
    assert(STATUS_DONE@.subrange(56, 63) =~= "</span>"@) by {
        reveal_strlit("</span>");
    }
}

proof fn lemma_done_plain()
    ensures
        forall|k: int| 0 <= k < "</span>"@.len() ==> #[trigger] "</span>"@[k] != '{',
        forall|k: int| 0 <= k < "<span class=\"pill ok\">done</span> <span class=\"muted\">"@.len() ==> #[trigger] "<span class=\"pill ok\">done</span> <span class=\"muted\">"@[k] != '{',
{
    assert forall|k: int| 0 <= k < "</span>"@.len() implies #[trigger] "</span>"@[k]
        != '{' by {
        reveal_strlit("</span>");
    }
    assert forall|k: int| 0 <= k < "<span class=\"pill ok\">done</span> <span class=\"muted\">"@.len() implies #[trigger] "<span class=\"pill ok\">done</span> <span class=\"muted\">"@[k]
        != '{' by {
        reveal_strlit("<span class=\"pill ok\">done</span> <span class=\"muted\">");
    }
}

proof fn lemma_done_filled(v: Seq<Seq<char>>)
    requires
        v.len() == 1,
    ensures
        filled(STATUS_DONE@, v) == "<span class=\"pill ok\">done</span> <span class=\"muted\">"@ + (v[0] + (
            "</span>"@)),
{
    lemma_done_pieces();
    lemma_done_plain();
    let t = STATUS_DONE@;
    assert(v.skip(0) =~= v);
    assert(t.skip(0) =~= t);
    crate::template::lemma_text_behind(t, 56, "</span>"@, v.skip(1));
    crate::template::lemma_blank_at(t, 0, "<span class=\"pill ok\">done</span> <span class=\"muted\">"@, 56, v, 0);
}

/// A finished download shows where it is.
pub proof fn law_a_finished_download_shows_its_path(path: Seq<char>)
    ensures
        status_html(DownloadState::Completed(path)) == "<span class=\"pill ok\">done</span> <span class=\"muted\">"@ + (escaped(path) + (
            "</span>"@)),
{
    let v = blanks()
        .push(escaped(path));
    lemma_done_filled(v);
}

proof fn lemma_failed_pieces()
    ensures
        STATUS_FAILED@.len() == 67,
        STATUS_FAILED@.subrange(0, 58) == "<span class=\"pill warn\">failed</span> <span class=\"muted\">"@,
        STATUS_FAILED@[58] == '{' && STATUS_FAILED@[59] == '}',
        STATUS_FAILED@.subrange(60, 67) == "</span>"@,
{
    reveal_strlit(
        "<span class=\"pill warn\">failed</span> <span class=\"muted\">{}</span>",
    );
    assert(STATUS_FAILED@.subrange(0, 58) =~= "<span class=\"pill warn\">failed</span> <span class=\"muted\">"@) by {
        reveal_strlit("<span class=\"pill warn\">failed</span> <span class=\"muted\">");
    }
    assert(STATUS_FAILED@.subrange(60, 67) =~= "</span>"@) by {
        reveal_strlit("</span>");
    }
}

proof fn lemma_failed_plain()
    ensures
        forall|k: int| 0 <= k < "</span>"@.len() ==> #[trigger] "</span>"@[k] != '{',
        forall|k: int| 0 <= k < "<span class=\"pill warn\">failed</span> <span class=\"muted\">"@.len() ==> #[trigger] "<span class=\"pill warn\">failed</span> <span class=\"muted\">"@[k] != '{',
{
    assert forall|k: int| 0 <= k < "</span>"@.len() implies #[trigger] "</span>"@[k]
        != '{' by {
        reveal_strlit("</span>");
    }
    assert forall|k: int| 0 <= k < "<span class=\"pill warn\">failed</span> <span class=\"muted\">"@.len() implies #[trigger] "<span class=\"pill warn\">failed</span> <span class=\"muted\">"@[k]
        != '{' by {
        reveal_strlit("<span class=\"pill warn\">failed</span> <span class=\"muted\">");
    }
}

proof fn lemma_failed_filled(v: Seq<Seq<char>>)
    requires
        v.len() == 1,
    ensures
        filled(STATUS_FAILED@, v) == "<span class=\"pill warn\">failed</span> <span class=\"muted\">"@ + (v[0] + (
            "</span>"@)),
{
    lemma_failed_pieces();
    lemma_failed_plain();
    let t = STATUS_FAILED@;
    assert(v.skip(0) =~= v);
    assert(t.skip(0) =~= t);
    crate::template::lemma_text_behind(t, 60, "</span>"@, v.skip(1));
    crate::template::lemma_blank_at(t, 0, "<span class=\"pill warn\">failed</span> <span class=\"muted\">"@, 60, v, 0);
}

/// A failed download shows why.
pub proof fn law_a_failed_download_shows_why(reason: Seq<char>)
    ensures
        status_html(DownloadState::Failed(reason)) == "<span class=\"pill warn\">failed</span> <span class=\"muted\">"@ + (escaped(reason) + (
            "</span>"@)),
{
    let v = blanks()
        .push(escaped(reason));
    lemma_failed_filled(v);
}

/// A list from disk that is too long keeps its first downloads.
pub proof fn law_the_first_on_disk_are_kept(list: Seq<DownloadEntryView>)
    ensures
        capped(list).len() <= MAX_DOWNLOADS,
        capped(list) == list.take(capped(list).len() as int),
        list.len() <= MAX_DOWNLOADS ==> capped(list) == list,
        list.len() > MAX_DOWNLOADS ==> capped(list).len() == MAX_DOWNLOADS,
{
    assert(list.take(list.len() as int) =~= list);
}

/// A table is shown where some download is of its kind, and otherwise that there is none.
pub proof fn law_an_empty_table_says_so(list: Seq<DownloadEntryView>)
    ensures
        active_count(list) == 0 ==> download_table_html(list, true) == NONE_ACTIVE@,
        active_count(list) > 0 ==> download_table_html(list, true) == filled(
            DOWNLOAD_TABLE@,
            blanks().push(download_rows_html(list, true)),
        ),
        active_count(list) == list.len() ==> download_table_html(list, false) == NONE_FINISHED@,
        active_count(list) < list.len() ==> download_table_html(list, false) == filled(
            DOWNLOAD_TABLE@,
            blanks().push(download_rows_html(list, false)),
        ),
{
}

} // verus!
