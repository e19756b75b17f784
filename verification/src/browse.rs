//! The share listings that were fetched, and how they are shown.
use vstd::prelude::*;
use vstd::string::*;

use crate::config::AppContext;
use crate::format::{human_size, size_text};
use crate::html::{escape, escaped};
use crate::peer_net::listing::{
    BrowseDir, BrowseDirView, BrowseFile, BrowseFileView, BrowseListing, BrowseListingView,
};
use crate::template::{blanks, fill, fill2, filled, Values};
use crate::text::{decimal, group_views, same, views};

verus! {

broadcast use group_views;

/// What came of a browse.
pub enum Browsed {
    Loaded(BrowseListing),
    Failed(String),
}

#[verifier::ext_equal]
pub enum BrowsedView {
    Loaded(BrowseListingView),
    Failed(Seq<char>),
}

impl View for Browsed {
    type V = BrowsedView;

    open spec fn view(&self) -> BrowsedView {
        match self {
            Browsed::Loaded(listing) => BrowsedView::Loaded(listing@),
            Browsed::Failed(reason) => BrowsedView::Failed(reason@),
        }
    }
}

/// What came of the latest browse of one user.
pub struct BrowseEntry {
    pub username: String,
    pub outcome: Browsed,
}

#[verifier::ext_equal]
pub struct BrowseEntryView {
    pub username: Seq<char>,
    pub outcome: BrowsedView,
}

impl View for BrowseEntry {
    type V = BrowseEntryView;

    open spec fn view(&self) -> BrowseEntryView {
        BrowseEntryView { username: self.username@, outcome: self.outcome@ }
    }
}

/// The outcomes of the browses, one for each user, the latest first.
pub struct Browse {
    entries: Vec<BrowseEntry>,
}

impl View for Browse {
    type V = Seq<BrowseEntryView>;

    closed spec fn view(&self) -> Seq<BrowseEntryView> {
        views(self.entries@)
    }
}

/// Whether an entry is about another user.
pub open spec fn of_another(username: Seq<char>) -> spec_fn(BrowseEntryView) -> bool {
    |e: BrowseEntryView| e.username != username
}

/// The outcomes once a browse of a user ended: its outcome comes first, and in place of the one
/// before.
pub open spec fn on_browsed(
    entries: Seq<BrowseEntryView>,
    username: Seq<char>,
    outcome: BrowsedView,
) -> Seq<BrowseEntryView> {
    seq![BrowseEntryView { username, outcome }] + entries.filter(of_another(username))
}

pub const NOTHING: &'static str = "<p>no browses yet — enter a username above</p>";

pub const FAILED: &'static str =
    r#"<div class="banner error">browse of <b>{}</b> failed: {}</div>"#;

pub const SUMMARY: &'static str =
    r#"<details open><summary><b>{}</b> — {} file(s){}</summary>"#;

pub const FOLDER: &'static str = r#"<div class="dir">{}</div><ul>"#;

pub const FILE: &'static str = "<li>{} <span class=\"size\">({})</span></li>";

pub const PARTIAL: &'static str = " (partial — share is larger)";

pub open spec fn file_html(file: BrowseFileView) -> Seq<char> {
    filled(FILE@, blanks().push(escaped(file.name)).push(size_text(file.size)))
}

pub open spec fn files_html(files: Seq<BrowseFileView>) -> Seq<char>
    decreases files.len(),
{
    if files.len() == 0 {
        Seq::empty()
    } else {
        files_html(files.drop_last()) + file_html(files.last())
    }
}

pub open spec fn folder_html(dir: BrowseDirView) -> Seq<char> {
    filled(FOLDER@, blanks().push(escaped(dir.path))) + files_html(dir.files) + "</ul>"@
}

pub open spec fn folders_html(dirs: Seq<BrowseDirView>) -> Seq<char>
    decreases dirs.len(),
{
    if dirs.len() == 0 {
        Seq::empty()
    } else {
        folders_html(dirs.drop_last()) + folder_html(dirs.last())
    }
}

/// A listing as it is shown: how many files there are, then the folders with their files.
pub open spec fn listing_html(listing: BrowseListingView) -> Seq<char> {
    filled(
        SUMMARY@,
        blanks().push(escaped(listing.username)).push(decimal(listing.total_files as nat)).push(
            if listing.truncated {
                PARTIAL@
            } else {
                ""@
            },
        ),
    ) + folders_html(listing.directories) + "</details>"@
}

pub open spec fn entry_html(entry: BrowseEntryView) -> Seq<char> {
    match entry.outcome {
        BrowsedView::Failed(reason) => filled(
            FAILED@,
            blanks().push(escaped(entry.username)).push(escaped(reason)),
        ),
        BrowsedView::Loaded(listing) => listing_html(listing),
    }
}

pub open spec fn entries_html(entries: Seq<BrowseEntryView>) -> Seq<char>
    decreases entries.len(),
{
    if entries.len() == 0 {
        Seq::empty()
    } else {
        entries_html(entries.drop_last()) + entry_html(entries.last())
    }
}

/// What is shown of the browses.
pub open spec fn browse_html(entries: Seq<BrowseEntryView>) -> Seq<char> {
    if entries.len() == 0 {
        NOTHING@
    } else {
        entries_html(entries)
    }
}

fn render_file(file: &BrowseFile) -> (r: String)
    ensures
        r@ == file_html(file@),
{
    fill2(FILE, escape(file.name.as_str()).as_str(), human_size(file.size).as_str())
}

fn render_folder(dir: &BrowseDir) -> (r: String)
    ensures
        r@ == folder_html(dir@),
{
    let mut values = Values::new();
    values.add(escape(dir.path.as_str()));
    let mut out = fill(FOLDER, &values);
    let ghost head = out@;
    let ghost files = views(dir.files@);
    let mut i: usize = 0;
    assert(out@ =~= head + files_html(files.take(0)));
    while i < dir.files.len()
        invariant
            i <= dir.files@.len(),
            files == views(dir.files@),
            out@ == head + files_html(files.take(i as int)),
        decreases dir.files@.len() - i,
    {
        out.append(render_file(&dir.files[i]).as_str());
        i += 1;
        assert(files.take(i as int).drop_last() =~= files.take(i as int - 1));
        assert(out@ =~= head + files_html(files.take(i as int)));
    }
    assert(files.take(i as int) =~= files);
    out.append("</ul>");
    out
}

/// Renders a listing.
pub fn render_listing(listing: &BrowseListing) -> (r: String)
    ensures
        r@ == listing_html(listing@),
{
    let mut values = Values::new();
    values.add(escape(listing.username.as_str()));
    values.add_number(listing.total_files);
    if listing.truncated {
        values.add_str(PARTIAL);
    } else {
        values.add_str("");
    }
    let mut out = fill(SUMMARY, &values);
    let ghost head = out@;
    let ghost dirs = views(listing.directories@);
    let mut i: usize = 0;
    assert(out@ =~= head + folders_html(dirs.take(0)));
    while i < listing.directories.len()
        invariant
            i <= listing.directories@.len(),
            dirs == views(listing.directories@),
            out@ == head + folders_html(dirs.take(i as int)),
        decreases listing.directories@.len() - i,
    {
        out.append(render_folder(&listing.directories[i]).as_str());
        i += 1;
        assert(dirs.take(i as int).drop_last() =~= dirs.take(i as int - 1));
        assert(out@ =~= head + folders_html(dirs.take(i as int)));
    }
    assert(dirs.take(i as int) =~= dirs);
    out.append("</details>");
    out
}

impl Browse {
    pub fn new(_ctx: &AppContext) -> (r: Browse)
        ensures
            r@ == Seq::<BrowseEntryView>::empty(),
    {
        let r = Browse { entries: Vec::new() };
        assert(r@ =~= Seq::empty());
        r
    }

    /// Forgets what came of the browses of a user.
    fn forget(&mut self, username: &str)
        ensures
            final(self)@ == old(self)@.filter(of_another(username@)),
    {
        let ghost all = self@;
        let ghost p = of_another(username@);
        let mut i: usize = 0;
        let ghost mut done: int = 0;
        proof {
            reveal(Seq::filter);
            assert(all.take(0).filter(p) =~= Seq::<BrowseEntryView>::empty());
            assert(all.take(0).filter(p) + all.skip(0) =~= all);
        }
        while i < self.entries.len()
            invariant
                0 <= done <= all.len(),
                p == of_another(username@),
                i == all.take(done).filter(p).len(),
                self@ == views(self.entries@),
                self@ == all.take(done).filter(p) + all.skip(done),
            decreases all.len() - done,
        {
            let ghost head = all.take(done).filter(p);
            let ghost now = self@;
            proof {
                assert(now[i as int] == all[done]);
                reveal(Seq::filter);
                assert(all.take(done + 1).drop_last() =~= all.take(done));
                assert(all.take(done + 1).last() == all[done]);
            }
            if same(self.entries[i].username.as_str(), username) {
                assert(!p(all[done]));
                self.entries.remove(i);
                assert(self@ =~= now.remove(i as int));
                assert(now.remove(i as int) =~= head + all.skip(done + 1));
            } else {
                assert(p(all[done]));
                assert(now =~= head.push(all[done]) + all.skip(done + 1));
                i += 1;
            }
            proof {
                done = done + 1;
            }
        }
        proof {
            assert(done == all.len());
            assert(all.take(done) =~= all);
            assert(self@ =~= all.filter(p));
        }
    }

    fn note(&mut self, username: String, outcome: Browsed)
        ensures
            final(self)@ == on_browsed(old(self)@, username@, outcome@),
    {
        self.forget(username.as_str());
        let ghost rest = self@;
        let entry = BrowseEntry { username, outcome };
        let ghost e = entry@;
        self.entries.insert(0, entry);
        assert(self@ =~= rest.insert(0, e));
        assert(self@ =~= seq![e] + rest);
    }

    /// A listing was fetched.
    pub fn loaded(&mut self, listing: BrowseListing)
        ensures
            final(self)@ == on_browsed(
                old(self)@,
                listing.username@,
                BrowsedView::Loaded(listing@),
            ),
    {
        let username = listing.username.clone();
        self.note(username, Browsed::Loaded(listing));
    }

    /// A browse failed.
    pub fn failed(&mut self, username: String, reason: String)
        ensures
            final(self)@ == on_browsed(old(self)@, username@, BrowsedView::Failed(reason@)),
    {
        self.note(username, Browsed::Failed(reason));
    }

    /// Renders what came of the browses.
    pub fn render(&self) -> (r: String)
        ensures
            r@ == browse_html(self@),
    {
        if self.entries.len() == 0 {
            return NOTHING.to_owned();
        }
        let mut out = String::new();
        let mut i: usize = 0;
        assert(out@ =~= entries_html(self@.take(0)));
        while i < self.entries.len()
            invariant
                i <= self.entries@.len(),
                self@ == views(self.entries@),
                out@ == entries_html(self@.take(i as int)),
            decreases self.entries@.len() - i,
        {
            let e = &self.entries[i];
            match &e.outcome {
                Browsed::Failed(reason) => {
                    out.append(
                        fill2(
                            FAILED,
                            escape(e.username.as_str()).as_str(),
                            escape(reason.as_str()).as_str(),
                        ).as_str(),
                    );
                },
                Browsed::Loaded(listing) => {
                    out.append(render_listing(listing).as_str());
                },
            }
            i += 1;
            assert(self@.take(i as int).drop_last() =~= self@.take(i as int - 1));
        }
        assert(self@.take(i as int) =~= self@);
        out
    }
}

/// Whether no two entries are about the same user.
pub open spec fn one_each(entries: Seq<BrowseEntryView>) -> bool {
    forall|i: int, j: int|
        0 <= i < j < entries.len() ==> (#[trigger] entries[i]).username != (
        #[trigger] entries[j]).username
}

/// The latest browse of a user comes first and replaces what came of the ones before; the others
/// stay, in their order; and there is never more than one entry for a user.
pub proof fn law_the_latest_browse_counts(
    entries: Seq<BrowseEntryView>,
    username: Seq<char>,
    outcome: BrowsedView,
)
    requires
        one_each(entries),
    ensures
        ({
            let after = on_browsed(entries, username, outcome);
            &&& one_each(after)
            &&& after[0] == (BrowseEntryView { username, outcome })
            &&& after.skip(1) == entries.filter(of_another(username))
        }),
{
    let p = of_another(username);
    let rest = entries.filter(p);
    lemma_filtered(entries, p);
    let after = on_browsed(entries, username, outcome);
    assert(after.skip(1) =~= rest);
    assert forall|i: int, j: int| 0 <= i < j < after.len() implies (
    #[trigger] after[i]).username != (#[trigger] after[j]).username by {
        assert(after[j] == rest[j - 1]);
        if i > 0 {
            assert(after[i] == rest[i - 1]);
        }
    }
}

spec fn stands_in(entries: Seq<BrowseEntryView>, e: BrowseEntryView) -> bool {
    exists|k: int| 0 <= k < entries.len() && #[trigger] entries[k] == e
}

proof fn lemma_filtered(entries: Seq<BrowseEntryView>, p: spec_fn(BrowseEntryView) -> bool)
    requires
        one_each(entries),
    ensures
        one_each(entries.filter(p)),
        forall|i: int|
            0 <= i < entries.filter(p).len() ==> p(#[trigger] entries.filter(p)[i])
                && entries.contains(entries.filter(p)[i]),
    decreases entries.len(),
{
    reveal(Seq::filter);
    if entries.len() > 0 {
        let front = entries.drop_last();
        assert(one_each(front)) by {
            assert forall|i: int, j: int| 0 <= i < j < front.len() implies (
            #[trigger] front[i]).username != (#[trigger] front[j]).username by {
                assert(front[i] == entries[i] && front[j] == entries[j]);
            }
        }
        lemma_filtered(front, p);
        let kept = front.filter(p);
        assert forall|i: int| 0 <= i < kept.len() implies stands_in(
            front,
            #[trigger] kept[i],
        ) by {
            assert(front.contains(kept[i]));
        }
        let all = entries.filter(p);
        let last = entries.last();
        assert(all == if p(last) { kept.push(last) } else { kept });
        assert forall|i: int| 0 <= i < all.len() implies p(#[trigger] all[i])
            && entries.contains(all[i]) by {
            if i < kept.len() {
                assert(p(kept[i]));
                let k = choose|k: int| 0 <= k < front.len() && #[trigger] front[k] == kept[i];
                assert(stands_in(front, kept[i]));
                assert(entries[k] == all[i]);
            } else {
                assert(entries[entries.len() - 1] == all[i]);
            }
        }
        assert forall|i: int, j: int| 0 <= i < j < all.len() implies (
        #[trigger] all[i]).username != (#[trigger] all[j]).username by {
            assert(all[i] == kept[i]);
            if j < kept.len() {
                assert(all[j] == kept[j]);
            } else {
                assert(all[j] == entries[entries.len() - 1]);
                assert(stands_in(front, kept[i]));
                let k = choose|k: int| 0 <= k < front.len() && #[trigger] front[k] == kept[i];
                assert(entries[k] == kept[i]);
            }
        }
    }
}

/// A peer's browse replaces that peer's earlier one and no other: every other peer's stays, behind
/// it and in the order in which they stood.
pub proof fn law_other_browses_stay(
    entries: Seq<BrowseEntryView>,
    username: Seq<char>,
    outcome: BrowsedView,
)
    ensures
        on_browsed(entries, username, outcome).skip(1) == entries.filter(
            |e: BrowseEntryView| e.username != username,
        ),
        on_browsed(entries, username, outcome)[0].username == username,
        on_browsed(entries, username, outcome)[0].outcome == outcome,
{
    assert(of_another(username) =~= (|e: BrowseEntryView| e.username != username));
    let rest = entries.filter(of_another(username));
    assert(on_browsed(entries, username, outcome).skip(1) =~= rest);
}

/// A page of browses shows each of them, in their order, and a listing each folder and each file:
/// the text for two runs is that for the one and that for the other.
pub proof fn law_every_browse_is_shown(
    a: Seq<BrowseEntryView>,
    b: Seq<BrowseEntryView>,
    e: BrowseEntryView,
)
    ensures
        entries_html(a + b) == entries_html(a) + entries_html(b),
        entries_html(seq![e]) == entry_html(e),
    decreases b.len(),
{
    let one = seq![e];
    assert(one.drop_last() =~= Seq::<BrowseEntryView>::empty());
    assert(one.last() == e);
    assert(entries_html(one.drop_last()) =~= Seq::<char>::empty());
    assert(entries_html(one) =~= entry_html(e));
    if b.len() == 0 {
        assert(a + b =~= a);
        assert(entries_html(a) + entries_html(b) =~= entries_html(a));
    } else {
        law_every_browse_is_shown(a, b.drop_last(), e);
        assert((a + b).drop_last() =~= a + b.drop_last());
        assert((a + b).last() == b.last());
        assert(entries_html(a + b) =~= entries_html(a) + entries_html(b));
    }
}

/// A listing shows every folder, and a folder every file, in their order.
pub proof fn law_every_folder_is_shown(
    a: Seq<BrowseDirView>,
    b: Seq<BrowseDirView>,
    dir: BrowseDirView,
)
    ensures
        folders_html(a + b) == folders_html(a) + folders_html(b),
        folders_html(seq![dir]) == folder_html(dir),
    decreases b.len(),
{
    let one = seq![dir];
    assert(one.drop_last() =~= Seq::<BrowseDirView>::empty());
    assert(one.last() == dir);
    assert(folders_html(one.drop_last()) =~= Seq::<char>::empty());
    assert(folders_html(one) =~= folder_html(dir));
    if b.len() == 0 {
        assert(a + b =~= a);
        assert(folders_html(a) + folders_html(b) =~= folders_html(a));
    } else {
        law_every_folder_is_shown(a, b.drop_last(), dir);
        assert((a + b).drop_last() =~= a + b.drop_last());
        assert((a + b).last() == b.last());
        assert(folders_html(a + b) =~= folders_html(a) + folders_html(b));
    }
}

/// A folder shows every file, in their order.
pub proof fn law_every_file_is_shown(
    a: Seq<BrowseFileView>,
    b: Seq<BrowseFileView>,
    file: BrowseFileView,
)
    ensures
        files_html(a + b) == files_html(a) + files_html(b),
        files_html(seq![file]) == file_html(file),
    decreases b.len(),
{
    let one = seq![file];
    assert(one.drop_last() =~= Seq::<BrowseFileView>::empty());
    assert(one.last() == file);
    assert(files_html(one.drop_last()) =~= Seq::<char>::empty());
    assert(files_html(one) =~= file_html(file));
    if b.len() == 0 {
        assert(a + b =~= a);
        assert(files_html(a) + files_html(b) =~= files_html(a));
    } else {
        law_every_file_is_shown(a, b.drop_last(), file);
        assert((a + b).drop_last() =~= a + b.drop_last());
        assert((a + b).last() == b.last());
        assert(files_html(a + b) =~= files_html(a) + files_html(b));
    }
}

proof fn lemma_file_pieces()
    ensures
        FILE@.len() == 42,
        FILE@.subrange(0, 4) == "<li>"@,
        FILE@[4] == '{' && FILE@[5] == '}',
        FILE@.subrange(6, 27) == " <span class=\"size\">("@,
        FILE@[27] == '{' && FILE@[28] == '}',
        FILE@.subrange(29, 42) == ")</span></li>"@,
{
    reveal_strlit(
        "<li>{} <span class=\"size\">({})</span></li>",
    );
    assert(FILE@.subrange(0, 4) =~= "<li>"@) by {
        reveal_strlit("<li>");
    }
    assert(FILE@.subrange(6, 27) =~= " <span class=\"size\">("@) by {
        reveal_strlit(" <span class=\"size\">(");
    }
    assert(FILE@.subrange(29, 42) =~= ")</span></li>"@) by {
        reveal_strlit(")</span></li>");
    }
}

proof fn lemma_file_plain()
    ensures
        forall|k: int| 0 <= k < " <span class=\"size\">("@.len() ==> #[trigger] " <span class=\"size\">("@[k] != '{',
        forall|k: int| 0 <= k < ")</span></li>"@.len() ==> #[trigger] ")</span></li>"@[k] != '{',
        forall|k: int| 0 <= k < "<li>"@.len() ==> #[trigger] "<li>"@[k] != '{',
{
    assert forall|k: int| 0 <= k < " <span class=\"size\">("@.len() implies #[trigger] " <span class=\"size\">("@[k]
        != '{' by {
        reveal_strlit(" <span class=\"size\">(");
    }
    assert forall|k: int| 0 <= k < ")</span></li>"@.len() implies #[trigger] ")</span></li>"@[k]
        != '{' by {
        reveal_strlit(")</span></li>");
    }
    assert forall|k: int| 0 <= k < "<li>"@.len() implies #[trigger] "<li>"@[k]
        != '{' by {
        reveal_strlit("<li>");
    }
}

proof fn lemma_file_filled(v: Seq<Seq<char>>)
    requires
        v.len() == 2,
    ensures
        filled(FILE@, v) == "<li>"@ + (v[0] + (
            " <span class=\"size\">("@ + (v[1] + (
            ")</span></li>"@)))),
{
    lemma_file_pieces();
    lemma_file_plain();
    let t = FILE@;
    assert(v.skip(0) =~= v);
    assert(t.skip(0) =~= t);
    crate::template::lemma_text_behind(t, 29, ")</span></li>"@, v.skip(2));
    crate::template::lemma_blank_at(t, 6, " <span class=\"size\">("@, 29, v, 1);
    crate::template::lemma_blank_at(t, 0, "<li>"@, 6, v, 0);
}

/// A file is shown with its own name and size.
pub proof fn law_a_file_is_shown_with_its_size(file: BrowseFileView)
    ensures
        file_html(file) == "<li>"@ + (escaped(file.name) + (
            " <span class=\"size\">("@ + (size_text(file.size) + (
            ")</span></li>"@)))),
{
    let v = blanks()
        .push(escaped(file.name))
        .push(size_text(file.size));
    lemma_file_filled(v);
}

proof fn lemma_failed_pieces()
    ensures
        FAILED@.len() == 62,
        FAILED@.subrange(0, 39) == "<div class=\"banner error\">browse of <b>"@,
        FAILED@[39] == '{' && FAILED@[40] == '}',
        FAILED@.subrange(41, 54) == "</b> failed: "@,
        FAILED@[54] == '{' && FAILED@[55] == '}',
        FAILED@.subrange(56, 62) == "</div>"@,
{
    reveal_strlit(
        "<div class=\"banner error\">browse of <b>{}</b> failed: {}</div>",
    );
    assert(FAILED@.subrange(0, 39) =~= "<div class=\"banner error\">browse of <b>"@) by {
        reveal_strlit("<div class=\"banner error\">browse of <b>");
    }
    assert(FAILED@.subrange(41, 54) =~= "</b> failed: "@) by {
        reveal_strlit("</b> failed: ");
    }
    assert(FAILED@.subrange(56, 62) =~= "</div>"@) by {
        reveal_strlit("</div>");
    }
}

proof fn lemma_failed_plain()
    ensures
        forall|k: int| 0 <= k < "</b> failed: "@.len() ==> #[trigger] "</b> failed: "@[k] != '{',
        forall|k: int| 0 <= k < "</div>"@.len() ==> #[trigger] "</div>"@[k] != '{',
        forall|k: int| 0 <= k < "<div class=\"banner error\">browse of <b>"@.len() ==> #[trigger] "<div class=\"banner error\">browse of <b>"@[k] != '{',
{
    assert forall|k: int| 0 <= k < "</b> failed: "@.len() implies #[trigger] "</b> failed: "@[k]
        != '{' by {
        reveal_strlit("</b> failed: ");
    }
    assert forall|k: int| 0 <= k < "</div>"@.len() implies #[trigger] "</div>"@[k]
        != '{' by {
        reveal_strlit("</div>");
    }
    assert forall|k: int| 0 <= k < "<div class=\"banner error\">browse of <b>"@.len() implies #[trigger] "<div class=\"banner error\">browse of <b>"@[k]
        != '{' by {
        reveal_strlit("<div class=\"banner error\">browse of <b>");
    }
}

proof fn lemma_failed_filled(v: Seq<Seq<char>>)
    requires
        v.len() == 2,
    ensures
        filled(FAILED@, v) == "<div class=\"banner error\">browse of <b>"@ + (v[0] + (
            "</b> failed: "@ + (v[1] + (
            "</div>"@)))),
{
    lemma_failed_pieces();
    lemma_failed_plain();
    let t = FAILED@;
    assert(v.skip(0) =~= v);
    assert(t.skip(0) =~= t);
    crate::template::lemma_text_behind(t, 56, "</div>"@, v.skip(2));
    crate::template::lemma_blank_at(t, 41, "</b> failed: "@, 56, v, 1);
    crate::template::lemma_blank_at(t, 0, "<div class=\"banner error\">browse of <b>"@, 41, v, 0);
}

/// A browse that failed shows whose it was, and why.
pub proof fn law_a_failed_browse_shows_why(username: Seq<char>, reason: Seq<char>)
    ensures
        entry_html(BrowseEntryView { username, outcome: BrowsedView::Failed(reason) }) == "<div class=\"banner error\">browse of <b>"@ + (escaped(username) + (
            "</b> failed: "@ + (escaped(reason) + (
            "</div>"@)))),
{
    let v = blanks()
        .push(escaped(username))
        .push(escaped(reason));
    lemma_failed_filled(v);
}

/// Every browse is shown, and where there is none the page says so.
pub proof fn law_the_page_shows_every_browse(entries: Seq<BrowseEntryView>)
    ensures
        entries.len() > 0 ==> browse_html(entries) == entries_html(entries),
        entries.len() == 0 ==> browse_html(entries) == NOTHING@,
{
}

} // verus!
