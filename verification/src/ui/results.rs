//! Searches and their results: which are kept, which are shown, and in what order.
use vstd::prelude::*;
use vstd::string::*;

use crate::format::{human_size, khz, khz_text, length_str, length_text, size_text};
use crate::html::{escape, escaped};
use crate::order::{
    is_stable_order, key_of_text, law_stable_order_is_unique, stable_order, text_key, Key, KeyView,
};
use crate::peer_net::naming::{basename, basename_of, dirname, dirname_of};
use crate::template::{
    blanks, fill, fill1, fill3, filled, lemma_blank_at, lemma_text_behind, Values,
};
use crate::text::{
    decimal, group_views, lowercase, push_decimal, push_decimal_wide, same, to_decimal,
    to_lowercase, views,
};
use crate::ui::downloads::{
    state_of, DownloadEntryView, DownloadList, DownloadState, PILL_POSITION, PILL_QUEUED,
    PILL_STARTING,
};
use crate::wire::{ResultFileView, SearchResultFile};

verus! {

broadcast use group_views;

/// Cap on the answers that are kept for a search.
pub const MAX_RESULTS_PER_SEARCH: usize = 200;

/// A peer's answer to a search.
#[derive(Debug, PartialEq)]
pub struct SearchResultRow {
    pub username: String,
    pub free_slots: bool,
    pub upload_speed: u32,
    pub in_queue: u32,
    pub files: Vec<SearchResultFile>,
}

pub struct ResultRowView {
    pub username: Seq<char>,
    pub free_slots: bool,
    pub upload_speed: u32,
    pub in_queue: u32,
    pub files: Seq<ResultFileView>,
}

impl View for SearchResultRow {
    type V = ResultRowView;

    open spec fn view(&self) -> ResultRowView {
        ResultRowView {
            username: self.username@,
            free_slots: self.free_slots,
            upload_speed: self.upload_speed,
            in_queue: self.in_queue,
            files: views(self.files@),
        }
    }
}

/// A search that was started, with the answers to it.
#[derive(Debug, PartialEq)]
pub struct SearchRow {
    pub token: u32,
    pub query: String,
    pub results: Vec<SearchResultRow>,
}

pub struct SearchRowView {
    pub token: u32,
    pub query: Seq<char>,
    pub results: Seq<ResultRowView>,
}

impl View for SearchRow {
    type V = SearchRowView;

    open spec fn view(&self) -> SearchRowView {
        SearchRowView { token: self.token, query: self.query@, results: views(self.results@) }
    }
}

/// A column that results can be sorted by.
#[derive(Debug, Clone, Copy, PartialEq, Eq, Structural)]
pub enum SortKey {
    User,
    Folder,
    File,
    Size,
    Bitrate,
    Length,
    Slot,
    Speed,
    Queue,
}

/// The name of a column.
pub open spec fn column_id(key: SortKey) -> Seq<char> {
    match key {
        SortKey::User => "user"@,
        SortKey::Folder => "folder"@,
        SortKey::File => "file"@,
        SortKey::Size => "size"@,
        SortKey::Bitrate => "bitrate"@,
        SortKey::Length => "length"@,
        SortKey::Slot => "slot"@,
        SortKey::Speed => "speed"@,
        SortKey::Queue => "queue"@,
    }
}

/// The column of a name.
pub open spec fn column_of(id: Seq<char>) -> Option<SortKey> {
    if id == "user"@ {
        Some(SortKey::User)
    } else if id == "folder"@ {
        Some(SortKey::Folder)
    } else if id == "file"@ {
        Some(SortKey::File)
    } else if id == "size"@ {
        Some(SortKey::Size)
    } else if id == "bitrate"@ {
        Some(SortKey::Bitrate)
    } else if id == "length"@ {
        Some(SortKey::Length)
    } else if id == "slot"@ {
        Some(SortKey::Slot)
    } else if id == "speed"@ {
        Some(SortKey::Speed)
    } else if id == "queue"@ {
        Some(SortKey::Queue)
    } else {
        None
    }
}

/// Every column is found by its name.
pub proof fn law_columns_are_found_by_name(key: SortKey)
    ensures
        column_of(column_id(key)) == Some(key),
{
    reveal_strlit("user");
    reveal_strlit("folder");
    reveal_strlit("file");
    reveal_strlit("size");
    reveal_strlit("bitrate");
    reveal_strlit("length");
    reveal_strlit("slot");
    reveal_strlit("speed");
    reveal_strlit("queue");
    assert("user"@[0] == 'u' && "file"@[0] == 'f' && "size"@[0] == 's' && "slot"@[0] == 's');
    assert("size"@[1] == 'i' && "slot"@[1] == 'l');
    assert("user"@.len() == 4 && "file"@.len() == 4 && "size"@.len() == 4 && "slot"@.len() == 4);
    assert("folder"@.len() == 6 && "length"@.len() == 6 && "bitrate"@.len() == 7);
    assert("speed"@.len() == 5 && "queue"@.len() == 5);
    assert("speed"@[0] == 's' && "queue"@[0] == 'q' && "folder"@[0] == 'f' && "length"@[0] == 'l');
}

impl SortKey {
    /// The column of a name.
    pub fn parse(s: &str) -> (r: Option<SortKey>)
        ensures
            r == column_of(s@),
    {
        if same(s, "user") {
            Some(SortKey::User)
        } else if same(s, "folder") {
            Some(SortKey::Folder)
        } else if same(s, "file") {
            Some(SortKey::File)
        } else if same(s, "size") {
            Some(SortKey::Size)
        } else if same(s, "bitrate") {
            Some(SortKey::Bitrate)
        } else if same(s, "length") {
            Some(SortKey::Length)
        } else if same(s, "slot") {
            Some(SortKey::Slot)
        } else if same(s, "speed") {
            Some(SortKey::Speed)
        } else if same(s, "queue") {
            Some(SortKey::Queue)
        } else {
            None
        }
    }
}

/// Which column results are sorted by, and whether downwards.
pub type Sorting = Option<(SortKey, bool)>;

/// The sorting after a click on a column: upwards by it, or the other way round where it is the
/// sorted column already.
pub open spec fn toggled(sort: Sorting, key: SortKey) -> Sorting {
    match sort {
        Some((k, desc)) if k == key => Some((key, !desc)),
        _ => Some((key, false)),
    }
}

/// Clicks on a column.
pub fn toggle_sort(sort: Sorting, key: SortKey) -> (r: Sorting)
    ensures
        r == toggled(sort, key),
{
    match sort {
        Some((k, desc)) => if k == key {
            Some((key, !desc))
        } else {
            Some((key, false))
        },
        None => Some((key, false)),
    }
}

/// Clicking twice on another column sorts downwards by it, and a third time upwards again.
pub proof fn law_clicks_alternate(sort: Sorting, key: SortKey)
    requires
        sort matches Some((k, _)) ==> k != key,
    ensures
        toggled(sort, key) == Some((key, false)),
        toggled(toggled(sort, key), key) == Some((key, true)),
        toggled(toggled(toggled(sort, key), key), key) == toggled(sort, key),
{
}

/// A number of 32 bits, or the greatest of them.
pub open spec fn saturated(n: int) -> int {
    if n <= u32::MAX {
        n
    } else {
        u32::MAX as int
    }
}

/// The bitrate to sort and filter by: what the peer says, or for lossless files an estimate from
/// sample rate and depth, for two channels.
pub open spec fn bitrate_of(f: ResultFileView) -> Option<u32> {
    match (f.bitrate, f.sample_rate, f.bit_depth) {
        (Some(b), _, _) => Some(b),
        (None, Some(rate), Some(depth)) => Some(
            (saturated(saturated(rate * depth) * 2) / 1000) as u32,
        ),
        _ => None,
    }
}

fn to_saturated(n: u64) -> (r: u32)
    ensures
        r == saturated(n as int),
{
    if n <= 0xffff_ffff {
        n as u32
    } else {
        0xffff_ffff
    }
}

/// The bitrate to sort and filter by.
pub fn effective_bitrate(f: &SearchResultFile) -> (r: Option<u32>)
    ensures
        r == bitrate_of(f@),
{
    if let Some(b) = f.bitrate {
        return Some(b);
    }
    match (f.sample_rate, f.bit_depth) {
        (Some(rate), Some(depth)) => {
            assert(rate * depth <= 0xffff_ffff * 0xffff_ffff) by (nonlinear_arith)
                requires
                    rate <= 0xffff_ffff,
                    depth <= 0xffff_ffff,
            ;
            let product: u64 = rate as u64 * depth as u64;
            Some(to_saturated(to_saturated(product) as u64 * 2) / 1000)
        },
        _ => None,
    }
}

/// A file of an answer, with who has it.
pub struct FlatView {
    pub username: Seq<char>,
    pub free_slots: bool,
    pub upload_speed: u32,
    pub in_queue: u32,
    pub file: ResultFileView,
}

/// A file of an answer, with the answer.
pub struct Flat<'a> {
    pub row: &'a SearchResultRow,
    pub file: &'a SearchResultFile,
}

pub open spec fn flat_view(row: ResultRowView, file: ResultFileView) -> FlatView {
    FlatView {
        username: row.username,
        free_slots: row.free_slots,
        upload_speed: row.upload_speed,
        in_queue: row.in_queue,
        file,
    }
}

impl<'a> View for Flat<'a> {
    type V = FlatView;

    open spec fn view(&self) -> FlatView {
        flat_view(self.row@, self.file@)
    }
}

/// Whether a file is shown under a bitrate filter (0 shows all).
pub open spec fn file_shown(min_bitrate: u32, f: ResultFileView) -> bool {
    min_bitrate == 0 || (bitrate_of(f) matches Some(b) && b >= min_bitrate)
}

/// The files of an answer that are shown.
pub open spec fn shown_of(row: ResultRowView, files: Seq<ResultFileView>, min: u32) -> Seq<FlatView>
    decreases files.len(),
{
    if files.len() == 0 {
        Seq::empty()
    } else {
        let before = shown_of(row, files.drop_last(), min);
        if file_shown(min, files.last()) {
            before.push(flat_view(row, files.last()))
        } else {
            before
        }
    }
}

/// The files of all answers that are shown, in the order in which they came.
pub open spec fn shown(results: Seq<ResultRowView>, min: u32) -> Seq<FlatView>
    decreases results.len(),
{
    if results.len() == 0 {
        Seq::empty()
    } else {
        shown(results.drop_last(), min) + shown_of(results.last(), results.last().files, min)
    }
}

/// How many files the answers have.
pub open spec fn file_count(results: Seq<ResultRowView>) -> nat
    decreases results.len(),
{
    if results.len() == 0 {
        0
    } else {
        file_count(results.drop_last()) + results.last().files.len()
    }
}

/// A number that may be missing: missing stands before all.
pub open spec fn optional_key(n: Option<u32>) -> KeyView {
    match n {
        Some(n) => KeyView::Number((n + 1) as u64),
        None => KeyView::Number(0),
    }
}

/// What a file is sorted by in a column. Texts are compared in lower case.
pub open spec fn sort_key(key: SortKey, f: FlatView) -> KeyView {
    match key {
        SortKey::User => text_key(lowercase(f.username)),
        SortKey::Folder => text_key(lowercase(dirname_of(f.file.name))),
        SortKey::File => text_key(lowercase(basename_of(f.file.name))),
        SortKey::Size => KeyView::Number(f.file.size),
        SortKey::Bitrate => optional_key(bitrate_of(f.file)),
        SortKey::Length => optional_key(f.file.length),
        SortKey::Slot => KeyView::Number(
            if f.free_slots {
                1
            } else {
                0
            },
        ),
        SortKey::Speed => KeyView::Number(f.upload_speed as u64),
        SortKey::Queue => KeyView::Number(f.in_queue as u64),
    }
}

fn number_key(n: Option<u32>) -> (r: Key)
    ensures
        r@ == optional_key(n),
{
    match n {
        Some(n) => Key::Number(n as u64 + 1),
        None => Key::Number(0),
    }
}

fn key_of(key: SortKey, f: &Flat) -> (r: Key)
    ensures
        r@ == sort_key(key, f@),
{
    match key {
        SortKey::User => key_of_text(to_lowercase(f.row.username.as_str()).as_str()),
        SortKey::Folder => key_of_text(to_lowercase(dirname(f.file.name.as_str())).as_str()),
        SortKey::File => key_of_text(to_lowercase(basename(f.file.name.as_str())).as_str()),
        SortKey::Size => Key::Number(f.file.size),
        SortKey::Bitrate => number_key(effective_bitrate(f.file)),
        SortKey::Length => number_key(f.file.length),
        SortKey::Slot => Key::Number(
            if f.row.free_slots {
                1
            } else {
                0
            },
        ),
        SortKey::Speed => Key::Number(f.row.upload_speed as u64),
        SortKey::Queue => Key::Number(f.row.in_queue as u64),
    }
}

/// The keys of files in a column.
pub open spec fn sort_keys(key: SortKey, rows: Seq<FlatView>) -> Seq<KeyView> {
    rows.map_values(|f: FlatView| sort_key(key, f))
}

/// The stable order of files by a column.
pub open spec fn column_order(key: SortKey, rows: Seq<FlatView>) -> Seq<usize> {
    choose|order: Seq<usize>| is_stable_order(order, sort_keys(key, rows), rows.len() as int)
}

/// Files as a sorting shows them: as they came, or by a column, or by it the other way round.
pub open spec fn sorted(rows: Seq<FlatView>, sort: Sorting) -> Seq<FlatView> {
    match sort {
        None => rows,
        Some((key, desc)) => {
            let order = column_order(key, rows);
            Seq::new(
                rows.len(),
                |i: int|
                    rows[order[if desc {
                        rows.len() - 1 - i
                    } else {
                        i
                    }] as int],
            )
        },
    }
}

/// The positions of files as a sorting shows them.
fn sorted_places(rows: &Vec<Flat>, sort: Sorting) -> (places: Vec<usize>)
    ensures
        places@.len() == rows@.len(),
        forall|i: int|
            0 <= i < places@.len() ==> 0 <= #[trigger] places@[i] < rows@.len() && sorted(
                views(rows@),
                sort,
            )[i] == rows@[places@[i] as int]@,
        sorted(views(rows@), sort).len() == rows@.len(),
{
    let ghost all = views(rows@);
    let total: usize = rows.len();
    let mut places: Vec<usize> = Vec::new();
    match sort {
        None => {
            let mut i: usize = 0;
            while i < total
                invariant
                    i <= total == rows@.len(),
                    places@.len() == i,
                    forall|j: int| 0 <= j < i ==> #[trigger] places@[j] == j,
                decreases total - i,
            {
                places.push(i);
                i += 1;
            }
            places
        },
        Some((key, desc)) => {
            let mut keys: Vec<Key> = Vec::new();
            let mut i: usize = 0;
            while i < total
                invariant
                    i <= total == rows@.len(),
                    all == views(rows@),
                    keys@.len() == i,
                    forall|j: int| 0 <= j < i ==> (#[trigger] keys@[j])@ == sort_key(key, all[j]),
                decreases total - i,
            {
                keys.push(key_of(key, &rows[i]));
                i += 1;
            }
            assert(views(keys@) =~= sort_keys(key, all));
            let order = stable_order(&keys);
            proof {
                law_stable_order_is_unique(
                    order@,
                    column_order(key, all),
                    sort_keys(key, all),
                    total as int,
                );
            }
            let mut k: usize = 0;
            while k < total
                invariant
                    k <= total,
                    total == rows@.len(),
                    total == order@.len(),
                    all == views(rows@),
                    order@ == column_order(key, all),
                    is_stable_order(order@, sort_keys(key, all), total as int),
                    places@.len() == k,
                    forall|j: int|
                        0 <= j < k ==> 0 <= #[trigger] places@[j] < total && places@[j]
                            == order@[if desc {
                            total - 1 - j
                        } else {
                            j
                        }],
                decreases total - k,
            {
                if desc {
                    places.push(order[total - 1 - k]);
                } else {
                    places.push(order[k]);
                }
                k += 1;
            }
            places
        },
    }
}

/// The shown files stay the same whatever they are sorted by.
pub proof fn law_sorting_keeps_the_rows(rows: Seq<FlatView>, key: SortKey, desc: bool, p: int)
    requires
        rows.len() <= usize::MAX,
        0 <= p < rows.len(),
    ensures
        sorted(rows, Some((key, desc))).contains(rows[p]),
        sorted(rows, Some((key, desc))).len() == rows.len(),
{
    let n = rows.len() as int;
    let found = crate::order::lemma_stable_order_exists(sort_keys(key, rows), n);
    assert(is_stable_order(found, sort_keys(key, rows), n));
    let order = column_order(key, rows);
    assert(crate::order::listed_at(order, p));
    let a = choose|a: int| 0 <= a < order.len() && #[trigger] order[a] == p;
    let out = sorted(rows, Some((key, desc)));
    if desc {
        assert(out[n - 1 - a] == rows[p]);
    } else {
        assert(out[a] == rows[p]);
    }
}

/// What a file sounds like: sample rate and depth of a lossless file, else the bitrate.
pub open spec fn quality_text(f: ResultFileView) -> Seq<char> {
    match (f.sample_rate, f.bit_depth) {
        (Some(rate), Some(depth)) => khz_text(rate) + " kHz / "@ + decimal(depth as nat)
            + " bit"@,
        _ => match f.bitrate {
            Some(b) => if f.vbr {
                decimal(b as nat) + " kbps (vbr)"@
            } else {
                decimal(b as nat) + " kbps"@
            },
            None => Seq::empty(),
        },
    }
}

/// What a file sounds like (`44.1 kHz / 16 bit`, `320 kbps`, `245 kbps (vbr)`).
pub fn quality_str(f: &SearchResultFile) -> (r: String)
    ensures
        r@ == quality_text(f@),
{
    match (f.sample_rate, f.bit_depth) {
        (Some(rate), Some(depth)) => {
            let mut out = khz(rate);
            out.append(" kHz / ");
            push_decimal(&mut out, depth as u64);
            out.append(" bit");
            out
        },
        _ => match f.bitrate {
            Some(b) => {
                let mut out = to_decimal(b as u64);
                if f.vbr {
                    out.append(" kbps (vbr)");
                } else {
                    out.append(" kbps");
                }
                out
            },
            None => {
                let none = String::new();
                assert(none@ =~= Seq::<char>::empty());
                none
            },
        },
    }
}

/// A cell with a control that cancels: user, file, size and pill.
pub const CANCEL_CELL: &'static str = r##"<form hx-post="/download/cancel" hx-target="closest td" hx-swap="innerHTML" style="margin:0;display:inline-flex;gap:0.3rem;align-items:center"><input type="hidden" name="username" value="{}"><input type="hidden" name="filename" value="{}"><input type="hidden" name="size" value="{}">{}<button class="btn xs secondary" type="submit" title="Cancel">✕</button></form>"##;

/// A button that asks for a file: user, file and size.
pub const GET_FORM: &'static str = r##"<form hx-post="/download" hx-target="this" hx-swap="outerHTML" style="margin:0"><input type="hidden" name="username" value="{}"><input type="hidden" name="filename" value="{}"><input type="hidden" name="size" value="{}"><button class="btn xs" type="submit">Get</button></form>"##;

pub const PILL_DONE: &'static str = r#"<span class="pill ok">done</span>"#;

pub const SLOT_FREE: &'static str = r#"<span class="pill ok">free</span>"#;

pub const SLOT_QUEUED: &'static str = r#"<span class="pill warn">queued</span>"#;

/// A column header: column, whether numeric, whether sorted, column again, title and arrow.
pub const SORT_TH: &'static str = r##"<th class="col-{}{}{}"><a class="sort" hx-get="/sort/{}" hx-target="closest .results" hx-swap="innerHTML">{}{}</a></th>"##;

/// A file: user twice, folder twice, path, name, size, quality, length, slot, speed, queue and
/// action.
pub const RESULT_ROW: &'static str = r##"<tr><td class="col-user" title="{}">{}</td><td class="col-folder" title="{}">{}</td><td class="col-file" title="{}">{}</td><td class="col-size num">{}</td><td class="col-bitrate num">{}</td><td class="col-length num">{}</td><td class="col-slot">{}</td><td class="col-speed num">{}</td><td class="col-queue num">{}</td><td class="col-dl">{}</td></tr>"##;

/// A search without answers: the query.
pub const SEARCH_EMPTY: &'static str = r#"<div class="card"><h3 style="margin-top:0">{} <span class="muted">— no results yet</span></h3></div>"#;

/// A search: query, counts, the nine headers and the rows.
pub const SEARCH_CARD: &'static str = r##"<div class="card"><h3 style="margin-top:0">{} <span class="muted">— {}</span></h3><div class="results-scroll"><table class="results-table"><thead><tr>{}{}{}{}{}{}{}{}{}<th class="col-dl"></th></tr></thead><tbody>{}</tbody></table></div></div>"##;

/// The button that asks for a file.
pub open spec fn get_form_html(username: Seq<char>, filename: Seq<char>, size: u64) -> Seq<char> {
    filled(GET_FORM@, blanks()
        .push(escaped(username))
        .push(escaped(filename))
        .push(decimal(size as nat)))
}

/// The button that asks for a file.
pub fn render_get_form(username: &str, filename: &str, size: u64) -> (html: String)
    ensures
        html@ == get_form_html(username@, filename@, size),
{
    fill3(
        GET_FORM,
        escape(username).as_str(),
        escape(filename).as_str(),
        to_decimal(size).as_str(),
    )
}

/// A pill with a control that cancels.
pub open spec fn cancel_cell_html(
    username: Seq<char>,
    filename: Seq<char>,
    size: u64,
    pill: Seq<char>,
) -> Seq<char> {
    filled(
        CANCEL_CELL@,
        blanks()
            .push(escaped(username))
            .push(escaped(filename))
            .push(decimal(size as nat))
            .push(pill),
    )
}

/// What a file's row offers: a download in flight shows how it stands and can be cancelled, a
/// finished one shows that it is, and anything else can be asked for.
pub open spec fn download_cell_html(
    downloads: Seq<DownloadEntryView>,
    username: Seq<char>,
    filename: Seq<char>,
    size: u64,
) -> Seq<char> {
    match state_of(downloads, username, filename) {
        Some(DownloadState::Queued) => cancel_cell_html(username, filename, size, PILL_QUEUED@),
        Some(DownloadState::Position(n)) => cancel_cell_html(
            username,
            filename,
            size,
            filled(PILL_POSITION@, blanks().push(decimal(n as nat))),
        ),
        Some(DownloadState::Starting) => cancel_cell_html(
            username,
            filename,
            size,
            PILL_STARTING@,
        ),
        Some(DownloadState::Completed(_)) => PILL_DONE@,
        _ => get_form_html(username, filename, size),
    }
}

fn render_cancel_cell(username: &str, filename: &str, size: u64, pill: &str) -> (html: String)
    ensures
        html@ == cancel_cell_html(username@, filename@, size, pill@),
{
    let mut v = Values::new();
    v.add(escape(username));
    v.add(escape(filename));
    v.add_number(size);
    v.add_str(pill);
    fill(CANCEL_CELL, &v)
}

/// What a file's row offers.
pub fn download_cell(downloads: &DownloadList, username: &str, filename: &str, size: u64) -> (html:
    String)
    ensures
        html@ == download_cell_html(downloads@, username@, filename@, size),
{
    match downloads.state(username, filename) {
        Some(DownloadState::Queued) => render_cancel_cell(username, filename, size, PILL_QUEUED),
        Some(DownloadState::Position(n)) => {
            let pill = fill1(PILL_POSITION, to_decimal(*n as u64).as_str());
            render_cancel_cell(username, filename, size, pill.as_str())
        },
        Some(DownloadState::Starting) => render_cancel_cell(
            username,
            filename,
            size,
            PILL_STARTING,
        ),
        Some(DownloadState::Completed(_)) => PILL_DONE.to_owned(),
        _ => render_get_form(username, filename, size),
    }
}

/// The arrow of a column header: only the sorted column has one.
pub open spec fn sort_arrow(sort: Sorting, id: Seq<char>) -> Seq<char> {
    match sort {
        Some((k, desc)) if column_of(id) == Some(k) => if desc {
            " ▼"@
        } else {
            " ▲"@
        },
        _ => ""@,
    }
}

/// Whether a column is the sorted one.
pub open spec fn is_sorted_by(sort: Sorting, id: Seq<char>) -> bool {
    sort matches Some((k, _)) && column_of(id) == Some(k)
}

/// A column header.
pub open spec fn sort_th_html(sort: Sorting, id: Seq<char>, title: Seq<char>, num: bool) -> Seq<
    char,
> {
    filled(
        SORT_TH@,
        blanks()
            .push(id)
            .push(if num { " num"@ } else { ""@ })
            .push(if is_sorted_by(sort, id) { " sorted"@ } else { ""@ })
            .push(id)
            .push(escaped(title))
            .push(sort_arrow(sort, id)),
    )
}

fn sort_th(sort: Sorting, id: &str, title: &str, num: bool) -> (html: String)
    ensures
        html@ == sort_th_html(sort, id@, title@, num),
{
    let (arrow, active) = match sort {
        Some((k, desc)) => if SortKey::parse(id) == Some(k) {
            (if desc {
                " ▼"
            } else {
                " ▲"
            }, true)
        } else {
            ("", false)
        },
        None => ("", false),
    };
    let mut v = Values::new();
    v.add_str(id);
    if num {
        v.add_str(" num");
    } else {
        v.add_str("");
    }
    if active {
        v.add_str(" sorted");
    } else {
        v.add_str("");
    }
    v.add_str(id);
    v.add(escape(title));
    v.add_str(arrow);
    fill(SORT_TH, &v)
}

/// A file of an answer.
pub open spec fn result_row_html(f: FlatView, downloads: Seq<DownloadEntryView>) -> Seq<char> {
    filled(
        RESULT_ROW@,
        blanks()
            .push(escaped(f.username))
            .push(escaped(f.username))
            .push(escaped(dirname_of(f.file.name)))
            .push(escaped(dirname_of(f.file.name)))
            .push(escaped(f.file.name))
            .push(escaped(basename_of(f.file.name)))
            .push(size_text(f.file.size))
            .push(escaped(quality_text(f.file)))
            .push(escaped(length_shown(f.file.length)))
            .push(if f.free_slots { SLOT_FREE@ } else { SLOT_QUEUED@ })
            .push(decimal(f.upload_speed as nat))
            .push(decimal(f.in_queue as nat))
            .push(download_cell_html(downloads, f.username, f.file.name, f.file.size)),
    )
}

/// A length, where it is known.
pub open spec fn length_shown(length: Option<u32>) -> Seq<char> {
    match length {
        Some(secs) => length_text(secs),
        None => Seq::empty(),
    }
}

fn render_row(f: &Flat, downloads: &DownloadList) -> (html: String)
    ensures
        html@ == result_row_html(f@, downloads@),
{
    let name = f.file.name.as_str();
    let user = escape(f.row.username.as_str());
    let folder = escape(dirname(name));
    let length = match f.file.length {
        Some(secs) => length_str(secs),
        None => {
            let none = String::new();
            assert(none@ =~= Seq::<char>::empty());
            none
        },
    };
    let mut v = Values::new();
    v.add_str(user.as_str());
    v.add_str(user.as_str());
    v.add_str(folder.as_str());
    v.add_str(folder.as_str());
    v.add(escape(name));
    v.add(escape(basename(name)));
    v.add(human_size(f.file.size));
    v.add(escape(quality_str(f.file).as_str()));
    v.add(escape(length.as_str()));
    if f.row.free_slots {
        v.add_str(SLOT_FREE);
    } else {
        v.add_str(SLOT_QUEUED);
    }
    v.add_number(f.row.upload_speed as u64);
    v.add_number(f.row.in_queue as u64);
    v.add(download_cell(downloads, f.row.username.as_str(), name, f.file.size));
    fill(RESULT_ROW, &v)
}

/// Files one below the other.
pub open spec fn result_rows_html(rows: Seq<FlatView>, downloads: Seq<DownloadEntryView>) -> Seq<
    char,
>
    decreases rows.len(),
{
    if rows.len() == 0 {
        Seq::empty()
    } else {
        result_rows_html(rows.drop_last(), downloads) + result_row_html(rows.last(), downloads)
    }
}

/// How many files are shown, of how many.
pub open spec fn counts_text(s: SearchRowView, min_bitrate: u32) -> Seq<char> {
    let seen = shown(s.results, min_bitrate).len();
    let total = file_count(s.results);
    if seen == total {
        decimal(s.results.len()) + " peer(s), "@ + decimal(total) + " file(s)"@
    } else {
        decimal(seen) + " of "@ + decimal(total) + " file(s) — bitrate filter active"@
    }
}

/// A search with the answers to it, sorted and filtered.
pub open spec fn search_html(
    s: SearchRowView,
    sort: Sorting,
    min_bitrate: u32,
    downloads: Seq<DownloadEntryView>,
) -> Seq<char> {
    if s.results.len() == 0 {
        filled(SEARCH_EMPTY@, blanks().push(escaped(s.query)))
    } else {
        filled(
            SEARCH_CARD@,
            blanks()
                .push(escaped(s.query))
                .push(counts_text(s, min_bitrate))
                .push(sort_th_html(sort, "user"@, "User"@, false))
                .push(sort_th_html(sort, "folder"@, "Folder"@, false))
                .push(sort_th_html(sort, "file"@, "File"@, false))
                .push(sort_th_html(sort, "size"@, "Size"@, true))
                .push(sort_th_html(sort, "bitrate"@, "Bitrate"@, true))
                .push(sort_th_html(sort, "length"@, "Length"@, true))
                .push(sort_th_html(sort, "slot"@, "Slot"@, false))
                .push(sort_th_html(sort, "speed"@, "Speed B/s"@, true))
                .push(sort_th_html(sort, "queue"@, "Queue"@, true))
                .push(result_rows_html(sorted(shown(s.results, min_bitrate), sort), downloads)),
        )
    }
}

/// The files that are shown.
fn shown_rows<'a>(results: &'a Vec<SearchResultRow>, min: u32) -> (rows: Vec<Flat<'a>>)
    ensures
        views(rows@) == shown(views(results@), min),
{
    let ghost all = views(results@);
    let mut rows: Vec<Flat<'a>> = Vec::new();
    let mut i: usize = 0;
    assert(all.take(0) =~= Seq::<ResultRowView>::empty());
    assert(views(rows@) =~= shown(all.take(0), min));
    while i < results.len()
        invariant
            i <= results@.len(),
            all == views(results@),
            views(rows@) == shown(all.take(i as int), min),
        decreases results@.len() - i,
    {
        let row = &results[i];
        let ghost files = row@.files;
        let ghost before = views(rows@);
        let mut k: usize = 0;
        proof {
            assert(all.take(i as int + 1).drop_last() =~= all.take(i as int));
            assert(all.take(i as int + 1).last() == row@);
            assert(files.take(0) =~= Seq::<ResultFileView>::empty());
            assert(before + shown_of(row@, files.take(0), min) =~= before);
        }
        while k < row.files.len()
            invariant
                k <= row.files@.len(),
                files == views(row.files@),
                row@.files == files,
                views(rows@) == before + shown_of(row@, files.take(k as int), min),
            decreases row.files@.len() - k,
        {
            let file = &row.files[k];
            let ghost had = shown_of(row@, files.take(k as int), min);
            assert(files.take(k as int + 1).drop_last() =~= files.take(k as int));
            assert(files.take(k as int + 1).last() == file@);
            let keep = if min == 0 {
                true
            } else {
                match effective_bitrate(file) {
                    Some(b) => b >= min,
                    None => false,
                }
            };
            if keep {
                let flat = Flat { row, file };
                rows.push(flat);
                assert(before + had.push(flat@) =~= (before + had).push(flat@));
            }
            k += 1;
        }
        assert(files.take(k as int) =~= files);
        i += 1;
    }
    assert(all.take(i as int) =~= all);
    rows
}

/// How many files the answers have.
fn count_files(results: &Vec<SearchResultRow>) -> (n: u128)
    ensures
        n == file_count(views(results@)),
{
    let ghost all = views(results@);
    let mut n: u128 = 0;
    let mut i: usize = 0;
    assert(all.take(0) =~= Seq::<ResultRowView>::empty());
    while i < results.len()
        invariant
            i <= results@.len(),
            all == views(results@),
            n <= i * 0xffff_ffff_ffff_ffff,
            n == file_count(all.take(i as int)),
        decreases results@.len() - i,
    {
        proof {
            assert(all.take(i as int + 1).drop_last() =~= all.take(i as int));
            assert(all.take(i as int + 1).last() == results@[i as int]@);
        }
        n = n + results[i].files.len() as u128;
        i += 1;
    }
    assert(all.take(i as int) =~= all);
    n
}

/// Shows a search.
pub fn render_search(s: &SearchRow, sort: Sorting, min_bitrate: u32, downloads: &DownloadList) -> (
html: String)
    ensures
        html@ == search_html(s@, sort, min_bitrate, downloads@),
{
    if s.results.len() == 0 {
        return fill1(SEARCH_EMPTY, escape(s.query.as_str()).as_str());
    }
    let rows = shown_rows(&s.results, min_bitrate);
    let ghost flat = views(rows@);
    let ghost seen = sorted(flat, sort);
    let total: u128 = count_files(&s.results);
    let places = sorted_places(&rows, sort);
    let mut body = String::new();
    let mut i: usize = 0;
    assert(seen.take(0) =~= Seq::<FlatView>::empty());
    assert(body@ =~= result_rows_html(seen.take(0), downloads@));
    while i < places.len()
        invariant
            i <= places@.len(),
            places@.len() == seen.len(),
            flat == views(rows@),
            seen == sorted(flat, sort),
            forall|j: int|
                0 <= j < places@.len() ==> 0 <= #[trigger] places@[j] < rows@.len() && seen[j]
                    == rows@[places@[j] as int]@,
            body@ == result_rows_html(seen.take(i as int), downloads@),
        decreases places@.len() - i,
    {
        assert(seen.take(i as int + 1).drop_last() =~= seen.take(i as int));
        assert(seen.take(i as int + 1).last() == rows@[places@[i as int] as int]@);
        body.append(render_row(&rows[places[i]], downloads).as_str());
        i += 1;
    }
    assert(seen.take(i as int) =~= seen);
    let count = if rows.len() as u128 == total {
        let mut out = to_decimal(s.results.len() as u64);
        out.append(" peer(s), ");
        push_decimal_wide(&mut out, total);
        out.append(" file(s)");
        out
    } else {
        let mut out = to_decimal(rows.len() as u64);
        out.append(" of ");
        push_decimal_wide(&mut out, total);
        out.append(" file(s) — bitrate filter active");
        out
    };
    let mut v = Values::new();
    v.add(escape(s.query.as_str()));
    v.add(count);
    v.add(sort_th(sort, "user", "User", false));
    v.add(sort_th(sort, "folder", "Folder", false));
    v.add(sort_th(sort, "file", "File", false));
    v.add(sort_th(sort, "size", "Size", true));
    v.add(sort_th(sort, "bitrate", "Bitrate", true));
    v.add(sort_th(sort, "length", "Length", true));
    v.add(sort_th(sort, "slot", "Slot", false));
    v.add(sort_th(sort, "speed", "Speed B/s", true));
    v.add(sort_th(sort, "queue", "Queue", true));
    v.add(body);
    fill(SEARCH_CARD, &v)
}

/// Whether a number that may be missing is at most another; missing is less than all.
pub open spec fn at_most(a: Option<u32>, b: Option<u32>) -> bool {
    match (a, b) {
        (None, _) => true,
        (Some(x), Some(y)) => x <= y,
        (Some(_), None) => false,
    }
}

/// Whether a text stands before another or beside it when case is set aside: not behind it, as
/// their bytes in lower case compare.
pub open spec fn not_behind(a: Seq<char>, b: Seq<char>) -> bool {
    !crate::order::bytes_before(
        vstd::utf8::encode_utf8(lowercase(b)),
        vstd::utf8::encode_utf8(lowercase(a)),
    )
}

proof fn lemma_column_order(rows: Seq<FlatView>, key: SortKey, i: int, j: int)
    requires
        rows.len() <= usize::MAX,
        0 <= i < j < rows.len(),
    ensures
        !crate::order::key_before(
            sort_key(key, sorted(rows, Some((key, false)))[j]),
            sort_key(key, sorted(rows, Some((key, false)))[i]),
        ),
        !crate::order::key_before(
            sort_key(key, sorted(rows, Some((key, true)))[i]),
            sort_key(key, sorted(rows, Some((key, true)))[j]),
        ),
{
    let n = rows.len() as int;
    let keys = sort_keys(key, rows);
    let found = crate::order::lemma_stable_order_exists(keys, n);
    assert(is_stable_order(found, keys, n));
    let order = column_order(key, rows);
    assert(is_stable_order(order, keys, n));
    let (a, b) = (order[i] as int, order[j] as int);
    assert(crate::order::goes_before(keys, a, b));
    crate::order::lemma_key_order(keys[a], keys[b], keys[a]);
    let (x, y) = (order[n - 1 - j] as int, order[n - 1 - i] as int);
    assert(crate::order::goes_before(keys, x, y));
    crate::order::lemma_key_order(keys[x], keys[y], keys[x]);
}

/// Sorted upwards by a column of numbers, the numbers that the column shows never fall.
pub proof fn law_numbers_rise_upwards(rows: Seq<FlatView>, i: int, j: int)
    requires
        rows.len() <= usize::MAX,
        0 <= i < j < rows.len(),
    ensures
        sorted(rows, Some((SortKey::Size, false)))[i].file.size <= sorted(
            rows,
            Some((SortKey::Size, false)),
        )[j].file.size,
        sorted(rows, Some((SortKey::Speed, false)))[i].upload_speed <= sorted(
            rows,
            Some((SortKey::Speed, false)),
        )[j].upload_speed,
        sorted(rows, Some((SortKey::Queue, false)))[i].in_queue <= sorted(
            rows,
            Some((SortKey::Queue, false)),
        )[j].in_queue,
        sorted(rows, Some((SortKey::Slot, false)))[i].free_slots ==> sorted(
            rows,
            Some((SortKey::Slot, false)),
        )[j].free_slots,
        at_most(
            sorted(rows, Some((SortKey::Length, false)))[i].file.length,
            sorted(rows, Some((SortKey::Length, false)))[j].file.length,
        ),
        at_most(
            bitrate_of(sorted(rows, Some((SortKey::Bitrate, false)))[i].file),
            bitrate_of(sorted(rows, Some((SortKey::Bitrate, false)))[j].file),
        ),
{
    lemma_column_order(rows, SortKey::Size, i, j);
    lemma_column_order(rows, SortKey::Speed, i, j);
    lemma_column_order(rows, SortKey::Queue, i, j);
    lemma_column_order(rows, SortKey::Slot, i, j);
    lemma_column_order(rows, SortKey::Length, i, j);
    lemma_column_order(rows, SortKey::Bitrate, i, j);
}

/// Sorted downwards by a column of numbers, the numbers that the column shows never rise.
pub proof fn law_numbers_fall_downwards(rows: Seq<FlatView>, i: int, j: int)
    requires
        rows.len() <= usize::MAX,
        0 <= i < j < rows.len(),
    ensures
        sorted(rows, Some((SortKey::Size, true)))[i].file.size >= sorted(
            rows,
            Some((SortKey::Size, true)),
        )[j].file.size,
        sorted(rows, Some((SortKey::Speed, true)))[i].upload_speed >= sorted(
            rows,
            Some((SortKey::Speed, true)),
        )[j].upload_speed,
        sorted(rows, Some((SortKey::Queue, true)))[i].in_queue >= sorted(
            rows,
            Some((SortKey::Queue, true)),
        )[j].in_queue,
        sorted(rows, Some((SortKey::Slot, true)))[j].free_slots ==> sorted(
            rows,
            Some((SortKey::Slot, true)),
        )[i].free_slots,
        at_most(
            sorted(rows, Some((SortKey::Length, true)))[j].file.length,
            sorted(rows, Some((SortKey::Length, true)))[i].file.length,
        ),
        at_most(
            bitrate_of(sorted(rows, Some((SortKey::Bitrate, true)))[j].file),
            bitrate_of(sorted(rows, Some((SortKey::Bitrate, true)))[i].file),
        ),
{
    lemma_column_order(rows, SortKey::Size, i, j);
    lemma_column_order(rows, SortKey::Speed, i, j);
    lemma_column_order(rows, SortKey::Queue, i, j);
    lemma_column_order(rows, SortKey::Slot, i, j);
    lemma_column_order(rows, SortKey::Length, i, j);
    lemma_column_order(rows, SortKey::Bitrate, i, j);
}

/// Sorted by a column of texts, what the column shows stands in the order of its bytes, with case
/// set aside, and the other way round where it is sorted downwards.
pub proof fn law_texts_stand_in_order(rows: Seq<FlatView>, i: int, j: int)
    requires
        rows.len() <= usize::MAX,
        0 <= i < j < rows.len(),
    ensures
        not_behind(
            sorted(rows, Some((SortKey::User, false)))[i].username,
            sorted(rows, Some((SortKey::User, false)))[j].username,
        ),
        not_behind(
            sorted(rows, Some((SortKey::User, true)))[j].username,
            sorted(rows, Some((SortKey::User, true)))[i].username,
        ),
        not_behind(
            dirname_of(sorted(rows, Some((SortKey::Folder, false)))[i].file.name),
            dirname_of(sorted(rows, Some((SortKey::Folder, false)))[j].file.name),
        ),
        not_behind(
            dirname_of(sorted(rows, Some((SortKey::Folder, true)))[j].file.name),
            dirname_of(sorted(rows, Some((SortKey::Folder, true)))[i].file.name),
        ),
        not_behind(
            basename_of(sorted(rows, Some((SortKey::File, false)))[i].file.name),
            basename_of(sorted(rows, Some((SortKey::File, false)))[j].file.name),
        ),
        not_behind(
            basename_of(sorted(rows, Some((SortKey::File, true)))[j].file.name),
            basename_of(sorted(rows, Some((SortKey::File, true)))[i].file.name),
        ),
{
    lemma_column_order(rows, SortKey::User, i, j);
    lemma_column_order(rows, SortKey::Folder, i, j);
    lemma_column_order(rows, SortKey::File, i, j);
}

/// Where all rows are alike in a column, sorting by it leaves them as they came, or turns them
/// round.
pub proof fn law_alike_rows_stay_as_they_came(rows: Seq<FlatView>, key: SortKey)
    requires
        rows.len() <= usize::MAX,
        forall|i: int, j: int|
            0 <= i < j < rows.len() ==> sort_key(key, #[trigger] rows[i]) == sort_key(
                key,
                #[trigger] rows[j],
            ),
    ensures
        sorted(rows, Some((key, false))) == rows,
        sorted(rows, Some((key, true))) == rows.reverse(),
        sorted(rows, None) == rows,
{
    let n = rows.len() as int;
    let keys = sort_keys(key, rows);
    let plain = Seq::new(rows.len(), |i: int| i as usize);
    assert forall|p: int| 0 <= p < n implies #[trigger] crate::order::listed_at(plain, p) by {
        assert(plain[p] == p);
    }
    assert forall|a: int, b: int| 0 <= a < b < n implies crate::order::goes_before(
        keys,
        #[trigger] plain[a] as int,
        #[trigger] plain[b] as int,
    ) by {
        assert(sort_key(key, rows[a]) == sort_key(key, rows[b]));
    }
    assert(is_stable_order(plain, keys, n));
    law_stable_order_is_unique(plain, column_order(key, rows), keys, n);
    assert(sorted(rows, Some((key, false))) =~= rows);
    assert(sorted(rows, Some((key, true))) =~= rows.reverse());
}

/// The bitrate is what the peer says; where it says none, what sample rate and depth make for two
/// channels, as far as that can be counted.
pub proof fn law_the_bitrate_is_the_peers_own(f: ResultFileView, rate: u32, depth: u32)
    ensures
        f.bitrate is Some ==> bitrate_of(f) == f.bitrate,
        f.bitrate is None && f.sample_rate == Some(rate) && f.bit_depth == Some(depth) && rate
            * depth * 2 <= u32::MAX ==> bitrate_of(f) == Some((rate * depth * 2 / 1000) as u32),
        f.bitrate is None && (f.sample_rate is None || f.bit_depth is None) ==> bitrate_of(
            f,
        ) is None,
{
    assert(rate * depth >= 0) by (nonlinear_arith)
        requires
            rate >= 0,
            depth >= 0,
    ;
}

/// The files of two runs of answers are those of the one and those of the other.
pub proof fn law_answers_add_up(a: Seq<ResultRowView>, b: Seq<ResultRowView>, min: u32)
    ensures
        shown(a + b, min) == shown(a, min) + shown(b, min),
    decreases b.len(),
{
    if b.len() == 0 {
        assert(a + b =~= a);
        assert(shown(a, min) + shown(b, min) =~= shown(a, min));
    } else {
        law_answers_add_up(a, b.drop_last(), min);
        assert((a + b).drop_last() =~= a + b.drop_last());
        assert((a + b).last() == b.last());
        assert(shown(a + b, min) =~= shown(a, min) + shown(b, min));
    }
}

/// The files shown of an answer are those that the filter lets through, all of them and in their
/// order, each with who has it.
pub proof fn law_every_file_that_passes_is_shown(row: ResultRowView, min: u32)
    ensures
        ({
            let files = row.files.filter(
                |f: ResultFileView|
                    min == 0 || (match bitrate_of(f) {
                        Some(b) => b >= min,
                        None => false,
                    }),
            );
            let out = shown(seq![row], min);
            &&& out.len() == files.len()
            &&& forall|i: int|
                0 <= i < out.len() ==> (#[trigger] out[i]).file == files[i] && out[i].username
                    == row.username && out[i].free_slots == row.free_slots && out[i].upload_speed
                    == row.upload_speed && out[i].in_queue == row.in_queue
        }),
        min == 0 ==> shown(seq![row], min).len() == row.files.len(),
{
    lemma_shown_of(row, row.files, min);
    let one = seq![row];
    assert(one.drop_last() =~= Seq::<ResultRowView>::empty());
    assert(one.last() == row);
    assert(shown(one.drop_last(), min) =~= Seq::<FlatView>::empty());
    assert(shown(one, min) =~= shown_of(row, row.files, min));
}

proof fn lemma_shown_of(row: ResultRowView, files: Seq<ResultFileView>, min: u32)
    ensures
        ({
            let passed = files.filter(
                |f: ResultFileView|
                    min == 0 || (match bitrate_of(f) {
                        Some(b) => b >= min,
                        None => false,
                    }),
            );
            let out = shown_of(row, files, min);
            &&& out.len() == passed.len()
            &&& forall|i: int|
                0 <= i < out.len() ==> (#[trigger] out[i]).file == passed[i] && out[i].username
                    == row.username && out[i].free_slots == row.free_slots && out[i].upload_speed
                    == row.upload_speed && out[i].in_queue == row.in_queue
        }),
        min == 0 ==> shown_of(row, files, min).len() == files.len(),
    decreases files.len(),
{
    reveal(Seq::filter);
    if files.len() > 0 {
        lemma_shown_of(row, files.drop_last(), min);
    }
}

proof fn lemma_result_row_pieces()
    ensures
        RESULT_ROW@.len() == 349,
        RESULT_ROW@.subrange(0, 32) == "<tr><td class=\"col-user\" title=\""@,
        RESULT_ROW@[32] == '{' && RESULT_ROW@[33] == '}',
        RESULT_ROW@.subrange(34, 36) == "\">"@,
        RESULT_ROW@[36] == '{' && RESULT_ROW@[37] == '}',
        RESULT_ROW@.subrange(38, 73) == "</td><td class=\"col-folder\" title=\""@,
        RESULT_ROW@[73] == '{' && RESULT_ROW@[74] == '}',
        RESULT_ROW@.subrange(75, 77) == "\">"@,
        RESULT_ROW@[77] == '{' && RESULT_ROW@[78] == '}',
        RESULT_ROW@.subrange(79, 112) == "</td><td class=\"col-file\" title=\""@,
        RESULT_ROW@[112] == '{' && RESULT_ROW@[113] == '}',
        RESULT_ROW@.subrange(114, 116) == "\">"@,
        RESULT_ROW@[116] == '{' && RESULT_ROW@[117] == '}',
        RESULT_ROW@.subrange(118, 148) == "</td><td class=\"col-size num\">"@,
        RESULT_ROW@[148] == '{' && RESULT_ROW@[149] == '}',
        RESULT_ROW@.subrange(150, 183) == "</td><td class=\"col-bitrate num\">"@,
        RESULT_ROW@[183] == '{' && RESULT_ROW@[184] == '}',
        RESULT_ROW@.subrange(185, 217) == "</td><td class=\"col-length num\">"@,
        RESULT_ROW@[217] == '{' && RESULT_ROW@[218] == '}',
        RESULT_ROW@.subrange(219, 245) == "</td><td class=\"col-slot\">"@,
        RESULT_ROW@[245] == '{' && RESULT_ROW@[246] == '}',
        RESULT_ROW@.subrange(247, 278) == "</td><td class=\"col-speed num\">"@,
        RESULT_ROW@[278] == '{' && RESULT_ROW@[279] == '}',
        RESULT_ROW@.subrange(280, 311) == "</td><td class=\"col-queue num\">"@,
        RESULT_ROW@[311] == '{' && RESULT_ROW@[312] == '}',
        RESULT_ROW@.subrange(313, 337) == "</td><td class=\"col-dl\">"@,
        RESULT_ROW@[337] == '{' && RESULT_ROW@[338] == '}',
        RESULT_ROW@.subrange(339, 349) == "</td></tr>"@,
{
    reveal_strlit(
        "<tr><td class=\"col-user\" title=\"{}\">{}</td><td class=\"col-folder\" title=\"{}\">{}</td><td class=\"col-file\" title=\"{}\">{}</td><td class=\"col-size num\">{}</td><td class=\"col-bitrate num\">{}</td><td class=\"col-length num\">{}</td><td class=\"col-slot\">{}</td><td class=\"col-speed num\">{}</td><td class=\"col-queue num\">{}</td><td class=\"col-dl\">{}</td></tr>",
    );
    assert(RESULT_ROW@.subrange(0, 32) =~= "<tr><td class=\"col-user\" title=\""@) by {
        reveal_strlit("<tr><td class=\"col-user\" title=\"");
    }
    assert(RESULT_ROW@.subrange(34, 36) =~= "\">"@) by {
        reveal_strlit("\">");
    }
    assert(RESULT_ROW@.subrange(38, 73) =~= "</td><td class=\"col-folder\" title=\""@) by {
        reveal_strlit("</td><td class=\"col-folder\" title=\"");
    }
    assert(RESULT_ROW@.subrange(75, 77) =~= "\">"@) by {
        reveal_strlit("\">");
    }
    assert(RESULT_ROW@.subrange(79, 112) =~= "</td><td class=\"col-file\" title=\""@) by {
        reveal_strlit("</td><td class=\"col-file\" title=\"");
    }
    assert(RESULT_ROW@.subrange(114, 116) =~= "\">"@) by {
        reveal_strlit("\">");
    }
    assert(RESULT_ROW@.subrange(118, 148) =~= "</td><td class=\"col-size num\">"@) by {
        reveal_strlit("</td><td class=\"col-size num\">");
    }
    assert(RESULT_ROW@.subrange(150, 183) =~= "</td><td class=\"col-bitrate num\">"@) by {
        reveal_strlit("</td><td class=\"col-bitrate num\">");
    }
    assert(RESULT_ROW@.subrange(185, 217) =~= "</td><td class=\"col-length num\">"@) by {
        reveal_strlit("</td><td class=\"col-length num\">");
    }
    assert(RESULT_ROW@.subrange(219, 245) =~= "</td><td class=\"col-slot\">"@) by {
        reveal_strlit("</td><td class=\"col-slot\">");
    }
    assert(RESULT_ROW@.subrange(247, 278) =~= "</td><td class=\"col-speed num\">"@) by {
        reveal_strlit("</td><td class=\"col-speed num\">");
    }
    assert(RESULT_ROW@.subrange(280, 311) =~= "</td><td class=\"col-queue num\">"@) by {
        reveal_strlit("</td><td class=\"col-queue num\">");
    }
    assert(RESULT_ROW@.subrange(313, 337) =~= "</td><td class=\"col-dl\">"@) by {
        reveal_strlit("</td><td class=\"col-dl\">");
    }
    assert(RESULT_ROW@.subrange(339, 349) =~= "</td></tr>"@) by {
        reveal_strlit("</td></tr>");
    }
}

proof fn lemma_result_row_plain()
    ensures
        forall|k: int| 0 <= k < "\">"@.len() ==> #[trigger] "\">"@[k] != '{',
        forall|k: int| 0 <= k < "</td></tr>"@.len() ==> #[trigger] "</td></tr>"@[k] != '{',
        forall|k: int| 0 <= k < "</td><td class=\"col-bitrate num\">"@.len() ==> #[trigger] "</td><td class=\"col-bitrate num\">"@[k] != '{',
        forall|k: int| 0 <= k < "</td><td class=\"col-dl\">"@.len() ==> #[trigger] "</td><td class=\"col-dl\">"@[k] != '{',
        forall|k: int| 0 <= k < "</td><td class=\"col-file\" title=\""@.len() ==> #[trigger] "</td><td class=\"col-file\" title=\""@[k] != '{',
        forall|k: int| 0 <= k < "</td><td class=\"col-folder\" title=\""@.len() ==> #[trigger] "</td><td class=\"col-folder\" title=\""@[k] != '{',
        forall|k: int| 0 <= k < "</td><td class=\"col-length num\">"@.len() ==> #[trigger] "</td><td class=\"col-length num\">"@[k] != '{',
        forall|k: int| 0 <= k < "</td><td class=\"col-queue num\">"@.len() ==> #[trigger] "</td><td class=\"col-queue num\">"@[k] != '{',
        forall|k: int| 0 <= k < "</td><td class=\"col-size num\">"@.len() ==> #[trigger] "</td><td class=\"col-size num\">"@[k] != '{',
        forall|k: int| 0 <= k < "</td><td class=\"col-slot\">"@.len() ==> #[trigger] "</td><td class=\"col-slot\">"@[k] != '{',
        forall|k: int| 0 <= k < "</td><td class=\"col-speed num\">"@.len() ==> #[trigger] "</td><td class=\"col-speed num\">"@[k] != '{',
        forall|k: int| 0 <= k < "<tr><td class=\"col-user\" title=\""@.len() ==> #[trigger] "<tr><td class=\"col-user\" title=\""@[k] != '{',
{
    assert forall|k: int| 0 <= k < "\">"@.len() implies #[trigger] "\">"@[k]
        != '{' by {
        reveal_strlit("\">");
    }
    assert forall|k: int| 0 <= k < "</td></tr>"@.len() implies #[trigger] "</td></tr>"@[k]
        != '{' by {
        reveal_strlit("</td></tr>");
    }
    assert forall|k: int| 0 <= k < "</td><td class=\"col-bitrate num\">"@.len() implies #[trigger] "</td><td class=\"col-bitrate num\">"@[k]
        != '{' by {
        reveal_strlit("</td><td class=\"col-bitrate num\">");
    }
    assert forall|k: int| 0 <= k < "</td><td class=\"col-dl\">"@.len() implies #[trigger] "</td><td class=\"col-dl\">"@[k]
        != '{' by {
        reveal_strlit("</td><td class=\"col-dl\">");
    }
    assert forall|k: int| 0 <= k < "</td><td class=\"col-file\" title=\""@.len() implies #[trigger] "</td><td class=\"col-file\" title=\""@[k]
        != '{' by {
        reveal_strlit("</td><td class=\"col-file\" title=\"");
    }
    assert forall|k: int| 0 <= k < "</td><td class=\"col-folder\" title=\""@.len() implies #[trigger] "</td><td class=\"col-folder\" title=\""@[k]
        != '{' by {
        reveal_strlit("</td><td class=\"col-folder\" title=\"");
    }
    assert forall|k: int| 0 <= k < "</td><td class=\"col-length num\">"@.len() implies #[trigger] "</td><td class=\"col-length num\">"@[k]
        != '{' by {
        reveal_strlit("</td><td class=\"col-length num\">");
    }
    assert forall|k: int| 0 <= k < "</td><td class=\"col-queue num\">"@.len() implies #[trigger] "</td><td class=\"col-queue num\">"@[k]
        != '{' by {
        reveal_strlit("</td><td class=\"col-queue num\">");
    }
    assert forall|k: int| 0 <= k < "</td><td class=\"col-size num\">"@.len() implies #[trigger] "</td><td class=\"col-size num\">"@[k]
        != '{' by {
        reveal_strlit("</td><td class=\"col-size num\">");
    }
    assert forall|k: int| 0 <= k < "</td><td class=\"col-slot\">"@.len() implies #[trigger] "</td><td class=\"col-slot\">"@[k]
        != '{' by {
        reveal_strlit("</td><td class=\"col-slot\">");
    }
    assert forall|k: int| 0 <= k < "</td><td class=\"col-speed num\">"@.len() implies #[trigger] "</td><td class=\"col-speed num\">"@[k]
        != '{' by {
        reveal_strlit("</td><td class=\"col-speed num\">");
    }
    assert forall|k: int| 0 <= k < "<tr><td class=\"col-user\" title=\""@.len() implies #[trigger] "<tr><td class=\"col-user\" title=\""@[k]
        != '{' by {
        reveal_strlit("<tr><td class=\"col-user\" title=\"");
    }
}

proof fn lemma_result_row_filled(v: Seq<Seq<char>>)
    requires
        v.len() == 13,
    ensures
        filled(RESULT_ROW@, v) == "<tr><td class=\"col-user\" title=\""@ + (v[0] + (
            "\">"@ + (v[1] + (
            "</td><td class=\"col-folder\" title=\""@ + (v[2] + (
            "\">"@ + (v[3] + (
            "</td><td class=\"col-file\" title=\""@ + (v[4] + (
            "\">"@ + (v[5] + (
            "</td><td class=\"col-size num\">"@ + (v[6] + (
            "</td><td class=\"col-bitrate num\">"@ + (v[7] + (
            "</td><td class=\"col-length num\">"@ + (v[8] + (
            "</td><td class=\"col-slot\">"@ + (v[9] + (
            "</td><td class=\"col-speed num\">"@ + (v[10] + (
            "</td><td class=\"col-queue num\">"@ + (v[11] + (
            "</td><td class=\"col-dl\">"@ + (v[12] + (
            "</td></tr>"@)))))))))))))))))))))))))),
{
    lemma_result_row_pieces();
    lemma_result_row_plain();
    let t = RESULT_ROW@;
    assert(v.skip(0) =~= v);
    assert(t.skip(0) =~= t);
    lemma_text_behind(t, 339, "</td></tr>"@, v.skip(13));
    lemma_blank_at(t, 313, "</td><td class=\"col-dl\">"@, 339, v, 12);
    lemma_blank_at(t, 280, "</td><td class=\"col-queue num\">"@, 313, v, 11);
    lemma_blank_at(t, 247, "</td><td class=\"col-speed num\">"@, 280, v, 10);
    lemma_blank_at(t, 219, "</td><td class=\"col-slot\">"@, 247, v, 9);
    lemma_blank_at(t, 185, "</td><td class=\"col-length num\">"@, 219, v, 8);
    lemma_blank_at(t, 150, "</td><td class=\"col-bitrate num\">"@, 185, v, 7);
    lemma_blank_at(t, 118, "</td><td class=\"col-size num\">"@, 150, v, 6);
    lemma_blank_at(t, 114, "\">"@, 118, v, 5);
    lemma_blank_at(t, 79, "</td><td class=\"col-file\" title=\""@, 114, v, 4);
    lemma_blank_at(t, 75, "\">"@, 79, v, 3);
    lemma_blank_at(t, 38, "</td><td class=\"col-folder\" title=\""@, 75, v, 2);
    lemma_blank_at(t, 34, "\">"@, 38, v, 1);
    lemma_blank_at(t, 0, "<tr><td class=\"col-user\" title=\""@, 34, v, 0);
}

/// A row shows, each under its own column, the user, the folder and the file, the size of the file,
/// how it sounds and how long it is, whether the user has a free slot, how fast and how busy the user
/// is, and what can be done with the file.
pub proof fn law_a_row_shows_each_column(f: FlatView, downloads: Seq<DownloadEntryView>)
    ensures
        result_row_html(f, downloads) == "<tr><td class=\"col-user\" title=\""@ + (escaped(f.username) + (
            "\">"@ + (escaped(f.username) + (
            "</td><td class=\"col-folder\" title=\""@ + (escaped(dirname_of(f.file.name)) + (
            "\">"@ + (escaped(dirname_of(f.file.name)) + (
            "</td><td class=\"col-file\" title=\""@ + (escaped(f.file.name) + (
            "\">"@ + (escaped(basename_of(f.file.name)) + (
            "</td><td class=\"col-size num\">"@ + (size_text(f.file.size) + (
            "</td><td class=\"col-bitrate num\">"@ + (escaped(quality_text(f.file)) + (
            "</td><td class=\"col-length num\">"@ + (escaped(match f.file.length { Some(secs) => length_text(secs), None => Seq::empty() }) + (
            "</td><td class=\"col-slot\">"@ + ((if f.free_slots { SLOT_FREE@ } else { SLOT_QUEUED@ }) + (
            "</td><td class=\"col-speed num\">"@ + (decimal(f.upload_speed as nat) + (
            "</td><td class=\"col-queue num\">"@ + (decimal(f.in_queue as nat) + (
            "</td><td class=\"col-dl\">"@ + (download_cell_html(downloads, f.username, f.file.name, f.file.size) + (
            "</td></tr>"@)))))))))))))))))))))))))),
{
    let v = blanks()
        .push(escaped(f.username))
        .push(escaped(f.username))
        .push(escaped(dirname_of(f.file.name)))
        .push(escaped(dirname_of(f.file.name)))
        .push(escaped(f.file.name))
        .push(escaped(basename_of(f.file.name)))
        .push(size_text(f.file.size))
        .push(escaped(quality_text(f.file)))
        .push(escaped(match f.file.length { Some(secs) => length_text(secs), None => Seq::empty() }))
        .push(if f.free_slots { SLOT_FREE@ } else { SLOT_QUEUED@ })
        .push(decimal(f.upload_speed as nat))
        .push(decimal(f.in_queue as nat))
        .push(download_cell_html(downloads, f.username, f.file.name, f.file.size));
    lemma_result_row_filled(v);
}

proof fn lemma_get_form_pieces()
    ensures
        GET_FORM@.len() == 276,
        GET_FORM@.subrange(0, 124) == "<form hx-post=\"/download\" hx-target=\"this\" hx-swap=\"outerHTML\" style=\"margin:0\"><input type=\"hidden\" name=\"username\" value=\""@,
        GET_FORM@[124] == '{' && GET_FORM@[125] == '}',
        GET_FORM@.subrange(126, 172) == "\"><input type=\"hidden\" name=\"filename\" value=\""@,
        GET_FORM@[172] == '{' && GET_FORM@[173] == '}',
        GET_FORM@.subrange(174, 216) == "\"><input type=\"hidden\" name=\"size\" value=\""@,
        GET_FORM@[216] == '{' && GET_FORM@[217] == '}',
        GET_FORM@.subrange(218, 276) == "\"><button class=\"btn xs\" type=\"submit\">Get</button></form>"@,
{
    reveal_strlit(
        "<form hx-post=\"/download\" hx-target=\"this\" hx-swap=\"outerHTML\" style=\"margin:0\"><input type=\"hidden\" name=\"username\" value=\"{}\"><input type=\"hidden\" name=\"filename\" value=\"{}\"><input type=\"hidden\" name=\"size\" value=\"{}\"><button class=\"btn xs\" type=\"submit\">Get</button></form>",
    );
    assert(GET_FORM@.subrange(0, 124) =~= "<form hx-post=\"/download\" hx-target=\"this\" hx-swap=\"outerHTML\" style=\"margin:0\"><input type=\"hidden\" name=\"username\" value=\""@) by {
        reveal_strlit("<form hx-post=\"/download\" hx-target=\"this\" hx-swap=\"outerHTML\" style=\"margin:0\"><input type=\"hidden\" name=\"username\" value=\"");
    }
    assert(GET_FORM@.subrange(126, 172) =~= "\"><input type=\"hidden\" name=\"filename\" value=\""@) by {
        reveal_strlit("\"><input type=\"hidden\" name=\"filename\" value=\"");
    }
    assert(GET_FORM@.subrange(174, 216) =~= "\"><input type=\"hidden\" name=\"size\" value=\""@) by {
        reveal_strlit("\"><input type=\"hidden\" name=\"size\" value=\"");
    }
    assert(GET_FORM@.subrange(218, 276) =~= "\"><button class=\"btn xs\" type=\"submit\">Get</button></form>"@) by {
        reveal_strlit("\"><button class=\"btn xs\" type=\"submit\">Get</button></form>");
    }
}

proof fn lemma_get_form_plain()
    ensures
        forall|k: int| 0 <= k < "\"><button class=\"btn xs\" type=\"submit\">Get</button></form>"@.len() ==> #[trigger] "\"><button class=\"btn xs\" type=\"submit\">Get</button></form>"@[k] != '{',
        forall|k: int| 0 <= k < "\"><input type=\"hidden\" name=\"filename\" value=\""@.len() ==> #[trigger] "\"><input type=\"hidden\" name=\"filename\" value=\""@[k] != '{',
        forall|k: int| 0 <= k < "\"><input type=\"hidden\" name=\"size\" value=\""@.len() ==> #[trigger] "\"><input type=\"hidden\" name=\"size\" value=\""@[k] != '{',
        forall|k: int| 0 <= k < "<form hx-post=\"/download\" hx-target=\"this\" hx-swap=\"outerHTML\" style=\"margin:0\"><input type=\"hidden\" name=\"username\" value=\""@.len() ==> #[trigger] "<form hx-post=\"/download\" hx-target=\"this\" hx-swap=\"outerHTML\" style=\"margin:0\"><input type=\"hidden\" name=\"username\" value=\""@[k] != '{',
{
    assert forall|k: int| 0 <= k < "\"><button class=\"btn xs\" type=\"submit\">Get</button></form>"@.len() implies #[trigger] "\"><button class=\"btn xs\" type=\"submit\">Get</button></form>"@[k]
        != '{' by {
        reveal_strlit("\"><button class=\"btn xs\" type=\"submit\">Get</button></form>");
    }
    assert forall|k: int| 0 <= k < "\"><input type=\"hidden\" name=\"filename\" value=\""@.len() implies #[trigger] "\"><input type=\"hidden\" name=\"filename\" value=\""@[k]
        != '{' by {
        reveal_strlit("\"><input type=\"hidden\" name=\"filename\" value=\"");
    }
    assert forall|k: int| 0 <= k < "\"><input type=\"hidden\" name=\"size\" value=\""@.len() implies #[trigger] "\"><input type=\"hidden\" name=\"size\" value=\""@[k]
        != '{' by {
        reveal_strlit("\"><input type=\"hidden\" name=\"size\" value=\"");
    }
    assert forall|k: int| 0 <= k < "<form hx-post=\"/download\" hx-target=\"this\" hx-swap=\"outerHTML\" style=\"margin:0\"><input type=\"hidden\" name=\"username\" value=\""@.len() implies #[trigger] "<form hx-post=\"/download\" hx-target=\"this\" hx-swap=\"outerHTML\" style=\"margin:0\"><input type=\"hidden\" name=\"username\" value=\""@[k]
        != '{' by {
        reveal_strlit("<form hx-post=\"/download\" hx-target=\"this\" hx-swap=\"outerHTML\" style=\"margin:0\"><input type=\"hidden\" name=\"username\" value=\"");
    }
}

proof fn lemma_get_form_filled(v: Seq<Seq<char>>)
    requires
        v.len() == 3,
    ensures
        filled(GET_FORM@, v) == "<form hx-post=\"/download\" hx-target=\"this\" hx-swap=\"outerHTML\" style=\"margin:0\"><input type=\"hidden\" name=\"username\" value=\""@ + (v[0] + (
            "\"><input type=\"hidden\" name=\"filename\" value=\""@ + (v[1] + (
            "\"><input type=\"hidden\" name=\"size\" value=\""@ + (v[2] + (
            "\"><button class=\"btn xs\" type=\"submit\">Get</button></form>"@)))))),
{
    lemma_get_form_pieces();
    lemma_get_form_plain();
    let t = GET_FORM@;
    assert(v.skip(0) =~= v);
    assert(t.skip(0) =~= t);
    lemma_text_behind(t, 218, "\"><button class=\"btn xs\" type=\"submit\">Get</button></form>"@, v.skip(3));
    lemma_blank_at(t, 174, "\"><input type=\"hidden\" name=\"size\" value=\""@, 218, v, 2);
    lemma_blank_at(t, 126, "\"><input type=\"hidden\" name=\"filename\" value=\""@, 174, v, 1);
    lemma_blank_at(t, 0, "<form hx-post=\"/download\" hx-target=\"this\" hx-swap=\"outerHTML\" style=\"margin:0\"><input type=\"hidden\" name=\"username\" value=\""@, 126, v, 0);
}

/// The button that asks for a file sends the user, the path and the size of that file.
pub proof fn law_the_button_asks_for_its_file(username: Seq<char>, filename: Seq<char>, size: u64)
    ensures
        get_form_html(username, filename, size) == "<form hx-post=\"/download\" hx-target=\"this\" hx-swap=\"outerHTML\" style=\"margin:0\"><input type=\"hidden\" name=\"username\" value=\""@ + (escaped(username) + (
            "\"><input type=\"hidden\" name=\"filename\" value=\""@ + (escaped(filename) + (
            "\"><input type=\"hidden\" name=\"size\" value=\""@ + (decimal(size as nat) + (
            "\"><button class=\"btn xs\" type=\"submit\">Get</button></form>"@)))))),
{
    let v = blanks()
        .push(escaped(username))
        .push(escaped(filename))
        .push(decimal(size as nat));
    lemma_get_form_filled(v);
}

proof fn lemma_cancel_cell_pieces()
    ensures
        CANCEL_CELL@.len() == 364,
        CANCEL_CELL@.subrange(0, 187) == "<form hx-post=\"/download/cancel\" hx-target=\"closest td\" hx-swap=\"innerHTML\" style=\"margin:0;display:inline-flex;gap:0.3rem;align-items:center\"><input type=\"hidden\" name=\"username\" value=\""@,
        CANCEL_CELL@[187] == '{' && CANCEL_CELL@[188] == '}',
        CANCEL_CELL@.subrange(189, 235) == "\"><input type=\"hidden\" name=\"filename\" value=\""@,
        CANCEL_CELL@[235] == '{' && CANCEL_CELL@[236] == '}',
        CANCEL_CELL@.subrange(237, 279) == "\"><input type=\"hidden\" name=\"size\" value=\""@,
        CANCEL_CELL@[279] == '{' && CANCEL_CELL@[280] == '}',
        CANCEL_CELL@.subrange(281, 283) == "\">"@,
        CANCEL_CELL@[283] == '{' && CANCEL_CELL@[284] == '}',
        CANCEL_CELL@.subrange(285, 364) == "<button class=\"btn xs secondary\" type=\"submit\" title=\"Cancel\">✕</button></form>"@,
{
    reveal_strlit(
        "<form hx-post=\"/download/cancel\" hx-target=\"closest td\" hx-swap=\"innerHTML\" style=\"margin:0;display:inline-flex;gap:0.3rem;align-items:center\"><input type=\"hidden\" name=\"username\" value=\"{}\"><input type=\"hidden\" name=\"filename\" value=\"{}\"><input type=\"hidden\" name=\"size\" value=\"{}\">{}<button class=\"btn xs secondary\" type=\"submit\" title=\"Cancel\">✕</button></form>",
    );
    assert(CANCEL_CELL@.subrange(0, 187) =~= "<form hx-post=\"/download/cancel\" hx-target=\"closest td\" hx-swap=\"innerHTML\" style=\"margin:0;display:inline-flex;gap:0.3rem;align-items:center\"><input type=\"hidden\" name=\"username\" value=\""@) by {
        reveal_strlit("<form hx-post=\"/download/cancel\" hx-target=\"closest td\" hx-swap=\"innerHTML\" style=\"margin:0;display:inline-flex;gap:0.3rem;align-items:center\"><input type=\"hidden\" name=\"username\" value=\"");
    }
    assert(CANCEL_CELL@.subrange(189, 235) =~= "\"><input type=\"hidden\" name=\"filename\" value=\""@) by {
        reveal_strlit("\"><input type=\"hidden\" name=\"filename\" value=\"");
    }
    assert(CANCEL_CELL@.subrange(237, 279) =~= "\"><input type=\"hidden\" name=\"size\" value=\""@) by {
        reveal_strlit("\"><input type=\"hidden\" name=\"size\" value=\"");
    }
    assert(CANCEL_CELL@.subrange(281, 283) =~= "\">"@) by {
        reveal_strlit("\">");
    }
    assert(CANCEL_CELL@.subrange(285, 364) =~= "<button class=\"btn xs secondary\" type=\"submit\" title=\"Cancel\">✕</button></form>"@) by {
        reveal_strlit("<button class=\"btn xs secondary\" type=\"submit\" title=\"Cancel\">✕</button></form>");
    }
}

proof fn lemma_cancel_cell_plain()
    ensures
        forall|k: int| 0 <= k < "\">"@.len() ==> #[trigger] "\">"@[k] != '{',
        forall|k: int| 0 <= k < "\"><input type=\"hidden\" name=\"filename\" value=\""@.len() ==> #[trigger] "\"><input type=\"hidden\" name=\"filename\" value=\""@[k] != '{',
        forall|k: int| 0 <= k < "\"><input type=\"hidden\" name=\"size\" value=\""@.len() ==> #[trigger] "\"><input type=\"hidden\" name=\"size\" value=\""@[k] != '{',
        forall|k: int| 0 <= k < "<button class=\"btn xs secondary\" type=\"submit\" title=\"Cancel\">✕</button></form>"@.len() ==> #[trigger] "<button class=\"btn xs secondary\" type=\"submit\" title=\"Cancel\">✕</button></form>"@[k] != '{',
        forall|k: int| 0 <= k < "<form hx-post=\"/download/cancel\" hx-target=\"closest td\" hx-swap=\"innerHTML\" style=\"margin:0;display:inline-flex;gap:0.3rem;align-items:center\"><input type=\"hidden\" name=\"username\" value=\""@.len() ==> #[trigger] "<form hx-post=\"/download/cancel\" hx-target=\"closest td\" hx-swap=\"innerHTML\" style=\"margin:0;display:inline-flex;gap:0.3rem;align-items:center\"><input type=\"hidden\" name=\"username\" value=\""@[k] != '{',
{
    assert forall|k: int| 0 <= k < "\">"@.len() implies #[trigger] "\">"@[k]
        != '{' by {
        reveal_strlit("\">");
    }
    assert forall|k: int| 0 <= k < "\"><input type=\"hidden\" name=\"filename\" value=\""@.len() implies #[trigger] "\"><input type=\"hidden\" name=\"filename\" value=\""@[k]
        != '{' by {
        reveal_strlit("\"><input type=\"hidden\" name=\"filename\" value=\"");
    }
    assert forall|k: int| 0 <= k < "\"><input type=\"hidden\" name=\"size\" value=\""@.len() implies #[trigger] "\"><input type=\"hidden\" name=\"size\" value=\""@[k]
        != '{' by {
        reveal_strlit("\"><input type=\"hidden\" name=\"size\" value=\"");
    }
    assert forall|k: int| 0 <= k < "<button class=\"btn xs secondary\" type=\"submit\" title=\"Cancel\">✕</button></form>"@.len() implies #[trigger] "<button class=\"btn xs secondary\" type=\"submit\" title=\"Cancel\">✕</button></form>"@[k]
        != '{' by {
        reveal_strlit("<button class=\"btn xs secondary\" type=\"submit\" title=\"Cancel\">✕</button></form>");
    }
    assert forall|k: int| 0 <= k < "<form hx-post=\"/download/cancel\" hx-target=\"closest td\" hx-swap=\"innerHTML\" style=\"margin:0;display:inline-flex;gap:0.3rem;align-items:center\"><input type=\"hidden\" name=\"username\" value=\""@.len() implies #[trigger] "<form hx-post=\"/download/cancel\" hx-target=\"closest td\" hx-swap=\"innerHTML\" style=\"margin:0;display:inline-flex;gap:0.3rem;align-items:center\"><input type=\"hidden\" name=\"username\" value=\""@[k]
        != '{' by {
        reveal_strlit("<form hx-post=\"/download/cancel\" hx-target=\"closest td\" hx-swap=\"innerHTML\" style=\"margin:0;display:inline-flex;gap:0.3rem;align-items:center\"><input type=\"hidden\" name=\"username\" value=\"");
    }
}

proof fn lemma_cancel_cell_filled(v: Seq<Seq<char>>)
    requires
        v.len() == 4,
    ensures
        filled(CANCEL_CELL@, v) == "<form hx-post=\"/download/cancel\" hx-target=\"closest td\" hx-swap=\"innerHTML\" style=\"margin:0;display:inline-flex;gap:0.3rem;align-items:center\"><input type=\"hidden\" name=\"username\" value=\""@ + (v[0] + (
            "\"><input type=\"hidden\" name=\"filename\" value=\""@ + (v[1] + (
            "\"><input type=\"hidden\" name=\"size\" value=\""@ + (v[2] + (
            "\">"@ + (v[3] + (
            "<button class=\"btn xs secondary\" type=\"submit\" title=\"Cancel\">✕</button></form>"@)))))))),
{
    lemma_cancel_cell_pieces();
    lemma_cancel_cell_plain();
    let t = CANCEL_CELL@;
    assert(v.skip(0) =~= v);
    assert(t.skip(0) =~= t);
    lemma_text_behind(t, 285, "<button class=\"btn xs secondary\" type=\"submit\" title=\"Cancel\">✕</button></form>"@, v.skip(4));
    lemma_blank_at(t, 281, "\">"@, 285, v, 3);
    lemma_blank_at(t, 237, "\"><input type=\"hidden\" name=\"size\" value=\""@, 281, v, 2);
    lemma_blank_at(t, 189, "\"><input type=\"hidden\" name=\"filename\" value=\""@, 237, v, 1);
    lemma_blank_at(t, 0, "<form hx-post=\"/download/cancel\" hx-target=\"closest td\" hx-swap=\"innerHTML\" style=\"margin:0;display:inline-flex;gap:0.3rem;align-items:center\"><input type=\"hidden\" name=\"username\" value=\""@, 189, v, 0);
}

/// The control that cancels a download sends the user, the path and the size of that file, beside how
/// it stands.
pub proof fn law_the_control_cancels_its_file(username: Seq<char>, filename: Seq<char>, size: u64, pill: Seq<char>)
    ensures
        cancel_cell_html(username, filename, size, pill) == "<form hx-post=\"/download/cancel\" hx-target=\"closest td\" hx-swap=\"innerHTML\" style=\"margin:0;display:inline-flex;gap:0.3rem;align-items:center\"><input type=\"hidden\" name=\"username\" value=\""@ + (escaped(username) + (
            "\"><input type=\"hidden\" name=\"filename\" value=\""@ + (escaped(filename) + (
            "\"><input type=\"hidden\" name=\"size\" value=\""@ + (decimal(size as nat) + (
            "\">"@ + (pill + (
            "<button class=\"btn xs secondary\" type=\"submit\" title=\"Cancel\">✕</button></form>"@)))))))),
{
    let v = blanks()
        .push(escaped(username))
        .push(escaped(filename))
        .push(decimal(size as nat))
        .push(pill);
    lemma_cancel_cell_filled(v);
}

proof fn lemma_sort_th_pieces()
    ensures
        SORT_TH@.len() == 119,
        SORT_TH@.subrange(0, 15) == "<th class=\"col-"@,
        SORT_TH@[15] == '{' && SORT_TH@[16] == '}',
        SORT_TH@[17] == '{' && SORT_TH@[18] == '}',
        SORT_TH@[19] == '{' && SORT_TH@[20] == '}',
        SORT_TH@.subrange(21, 53) == "\"><a class=\"sort\" hx-get=\"/sort/"@,
        SORT_TH@[53] == '{' && SORT_TH@[54] == '}',
        SORT_TH@.subrange(55, 106) == "\" hx-target=\"closest .results\" hx-swap=\"innerHTML\">"@,
        SORT_TH@[106] == '{' && SORT_TH@[107] == '}',
        SORT_TH@[108] == '{' && SORT_TH@[109] == '}',
        SORT_TH@.subrange(110, 119) == "</a></th>"@,
{
    reveal_strlit(
        "<th class=\"col-{}{}{}\"><a class=\"sort\" hx-get=\"/sort/{}\" hx-target=\"closest .results\" hx-swap=\"innerHTML\">{}{}</a></th>",
    );
    assert(SORT_TH@.subrange(0, 15) =~= "<th class=\"col-"@) by {
        reveal_strlit("<th class=\"col-");
    }
    assert(SORT_TH@.subrange(21, 53) =~= "\"><a class=\"sort\" hx-get=\"/sort/"@) by {
        reveal_strlit("\"><a class=\"sort\" hx-get=\"/sort/");
    }
    assert(SORT_TH@.subrange(55, 106) =~= "\" hx-target=\"closest .results\" hx-swap=\"innerHTML\">"@) by {
        reveal_strlit("\" hx-target=\"closest .results\" hx-swap=\"innerHTML\">");
    }
    assert(SORT_TH@.subrange(110, 119) =~= "</a></th>"@) by {
        reveal_strlit("</a></th>");
    }
}

proof fn lemma_sort_th_plain()
    ensures
        forall|k: int| 0 <= k < "\" hx-target=\"closest .results\" hx-swap=\"innerHTML\">"@.len() ==> #[trigger] "\" hx-target=\"closest .results\" hx-swap=\"innerHTML\">"@[k] != '{',
        forall|k: int| 0 <= k < "\"><a class=\"sort\" hx-get=\"/sort/"@.len() ==> #[trigger] "\"><a class=\"sort\" hx-get=\"/sort/"@[k] != '{',
        forall|k: int| 0 <= k < "</a></th>"@.len() ==> #[trigger] "</a></th>"@[k] != '{',
        forall|k: int| 0 <= k < "<th class=\"col-"@.len() ==> #[trigger] "<th class=\"col-"@[k] != '{',
{
    assert forall|k: int| 0 <= k < "\" hx-target=\"closest .results\" hx-swap=\"innerHTML\">"@.len() implies #[trigger] "\" hx-target=\"closest .results\" hx-swap=\"innerHTML\">"@[k]
        != '{' by {
        reveal_strlit("\" hx-target=\"closest .results\" hx-swap=\"innerHTML\">");
    }
    assert forall|k: int| 0 <= k < "\"><a class=\"sort\" hx-get=\"/sort/"@.len() implies #[trigger] "\"><a class=\"sort\" hx-get=\"/sort/"@[k]
        != '{' by {
        reveal_strlit("\"><a class=\"sort\" hx-get=\"/sort/");
    }
    assert forall|k: int| 0 <= k < "</a></th>"@.len() implies #[trigger] "</a></th>"@[k]
        != '{' by {
        reveal_strlit("</a></th>");
    }
    assert forall|k: int| 0 <= k < "<th class=\"col-"@.len() implies #[trigger] "<th class=\"col-"@[k]
        != '{' by {
        reveal_strlit("<th class=\"col-");
    }
}

proof fn lemma_sort_th_filled(v: Seq<Seq<char>>)
    requires
        v.len() == 6,
    ensures
        filled(SORT_TH@, v) == "<th class=\"col-"@ + (v[0] + (
            v[1] + (v[2] + (
            "\"><a class=\"sort\" hx-get=\"/sort/"@ + (v[3] + (
            "\" hx-target=\"closest .results\" hx-swap=\"innerHTML\">"@ + (v[4] + (
            v[5] + ("</a></th>"@))))))))),
{
    lemma_sort_th_pieces();
    lemma_sort_th_plain();
    let t = SORT_TH@;
    let none = Seq::<char>::empty();
    assert(v.skip(0) =~= v);
    assert(t.skip(0) =~= t);
    crate::template::lemma_text_behind(t, 110, "</a></th>"@, v.skip(6));
    assert(t.subrange(108, 108) =~= none);
    crate::template::lemma_blank_at(t, 108, none, 110, v, 5);
    assert(none + (v[5] + filled(t.skip(110), v.skip(6))) =~= v[5] + filled(
        t.skip(110),
        v.skip(6),
    ));
    crate::template::lemma_blank_at(t, 55, "\" hx-target=\"closest .results\" hx-swap=\"innerHTML\">"@, 108, v, 4);
    crate::template::lemma_blank_at(t, 21, "\"><a class=\"sort\" hx-get=\"/sort/"@, 55, v, 3);
    assert(t.subrange(19, 19) =~= none);
    crate::template::lemma_blank_at(t, 19, none, 21, v, 2);
    assert(none + (v[2] + filled(t.skip(21), v.skip(3))) =~= v[2] + filled(
        t.skip(21),
        v.skip(3),
    ));
    assert(t.subrange(17, 17) =~= none);
    crate::template::lemma_blank_at(t, 17, none, 19, v, 1);
    assert(none + (v[1] + filled(t.skip(19), v.skip(2))) =~= v[1] + filled(
        t.skip(19),
        v.skip(2),
    ));
    crate::template::lemma_blank_at(t, 0, "<th class=\"col-"@, 17, v, 0);
}

/// A column header asks for the results by its own column, and shows whether they are sorted by it.
pub proof fn law_a_header_asks_for_its_column(sort: Sorting, id: Seq<char>, title: Seq<char>, num: bool)
    ensures
        sort_th_html(sort, id, title, num) == "<th class=\"col-"@ + (id + (
            (if num { " num"@ } else { ""@ }) + ((if is_sorted_by(sort, id) { " sorted"@ } else { ""@ }) + (
            "\"><a class=\"sort\" hx-get=\"/sort/"@ + (id + (
            "\" hx-target=\"closest .results\" hx-swap=\"innerHTML\">"@ + (escaped(title) + (
            sort_arrow(sort, id) + ("</a></th>"@))))))))),
{
    let v = blanks()
        .push(id)
        .push(if num { " num"@ } else { ""@ })
        .push(if is_sorted_by(sort, id) { " sorted"@ } else { ""@ })
        .push(id)
        .push(escaped(title))
        .push(sort_arrow(sort, id));
    lemma_sort_th_filled(v);
}

proof fn lemma_search_empty_pieces()
    ensures
        SEARCH_EMPTY@.len() == 100,
        SEARCH_EMPTY@.subrange(0, 43) == "<div class=\"card\"><h3 style=\"margin-top:0\">"@,
        SEARCH_EMPTY@[43] == '{' && SEARCH_EMPTY@[44] == '}',
        SEARCH_EMPTY@.subrange(45, 100) == " <span class=\"muted\">— no results yet</span></h3></div>"@,
{
    reveal_strlit(
        "<div class=\"card\"><h3 style=\"margin-top:0\">{} <span class=\"muted\">— no results yet</span></h3></div>",
    );
    assert(SEARCH_EMPTY@.subrange(0, 43) =~= "<div class=\"card\"><h3 style=\"margin-top:0\">"@) by {
        reveal_strlit("<div class=\"card\"><h3 style=\"margin-top:0\">");
    }
    assert(SEARCH_EMPTY@.subrange(45, 100) =~= " <span class=\"muted\">— no results yet</span></h3></div>"@) by {
        reveal_strlit(" <span class=\"muted\">— no results yet</span></h3></div>");
    }
}

proof fn lemma_search_empty_plain()
    ensures
        forall|k: int| 0 <= k < " <span class=\"muted\">— no results yet</span></h3></div>"@.len() ==> #[trigger] " <span class=\"muted\">— no results yet</span></h3></div>"@[k] != '{',
        forall|k: int| 0 <= k < "<div class=\"card\"><h3 style=\"margin-top:0\">"@.len() ==> #[trigger] "<div class=\"card\"><h3 style=\"margin-top:0\">"@[k] != '{',
{
    assert forall|k: int| 0 <= k < " <span class=\"muted\">— no results yet</span></h3></div>"@.len() implies #[trigger] " <span class=\"muted\">— no results yet</span></h3></div>"@[k]
        != '{' by {
        reveal_strlit(" <span class=\"muted\">— no results yet</span></h3></div>");
    }
    assert forall|k: int| 0 <= k < "<div class=\"card\"><h3 style=\"margin-top:0\">"@.len() implies #[trigger] "<div class=\"card\"><h3 style=\"margin-top:0\">"@[k]
        != '{' by {
        reveal_strlit("<div class=\"card\"><h3 style=\"margin-top:0\">");
    }
}

proof fn lemma_search_empty_filled(v: Seq<Seq<char>>)
    requires
        v.len() == 1,
    ensures
        filled(SEARCH_EMPTY@, v) == "<div class=\"card\"><h3 style=\"margin-top:0\">"@ + (v[0] + (
            " <span class=\"muted\">— no results yet</span></h3></div>"@)),
{
    lemma_search_empty_pieces();
    lemma_search_empty_plain();
    let t = SEARCH_EMPTY@;
    assert(v.skip(0) =~= v);
    assert(t.skip(0) =~= t);
    crate::template::lemma_text_behind(t, 45, " <span class=\"muted\">— no results yet</span></h3></div>"@, v.skip(1));
    crate::template::lemma_blank_at(t, 0, "<div class=\"card\"><h3 style=\"margin-top:0\">"@, 45, v, 0);
}

/// A search without answers shows what it is for.
pub proof fn law_an_empty_search_shows_its_query(s: SearchRowView, sort: Sorting, min_bitrate: u32, downloads: Seq<DownloadEntryView>)
    requires
        s.results.len() == 0,
    ensures
        search_html(s, sort, min_bitrate, downloads) == "<div class=\"card\"><h3 style=\"margin-top:0\">"@ + (escaped(s.query) + (
            " <span class=\"muted\">— no results yet</span></h3></div>"@)),
{
    let v = blanks()
        .push(escaped(s.query));
    lemma_search_empty_filled(v);
}

/// The rows of a search stand in the order of its files, one for each.
pub proof fn law_every_row_is_shown(
    a: Seq<FlatView>,
    b: Seq<FlatView>,
    f: FlatView,
    downloads: Seq<DownloadEntryView>,
)
    ensures
        result_rows_html(a + b, downloads) == result_rows_html(a, downloads) + result_rows_html(
            b,
            downloads,
        ),
        result_rows_html(seq![f], downloads) == result_row_html(f, downloads),
    decreases b.len(),
{
    let one = seq![f];
    assert(one.drop_last() =~= Seq::<FlatView>::empty());
    assert(one.last() == f);
    assert(result_rows_html(one.drop_last(), downloads) =~= Seq::<char>::empty());
    assert(result_rows_html(one, downloads) =~= result_row_html(f, downloads));
    if b.len() == 0 {
        assert(a + b =~= a);
        assert(result_rows_html(a, downloads) + result_rows_html(b, downloads)
            =~= result_rows_html(a, downloads));
    } else {
        law_every_row_is_shown(a, b.drop_last(), f, downloads);
        assert((a + b).drop_last() =~= a + b.drop_last());
        assert((a + b).last() == b.last());
        assert(result_rows_html(a + b, downloads) =~= result_rows_html(a, downloads)
            + result_rows_html(b, downloads));
    }
}

/// What a row offers follows the download of this very file by this very user: one under way can be
/// cancelled, a finished one is done, and any other can be asked for.
pub proof fn law_a_row_offers_what_its_download_allows(
    downloads: Seq<DownloadEntryView>,
    username: Seq<char>,
    filename: Seq<char>,
    size: u64,
)
    ensures
        ({
            let cell = download_cell_html(downloads, username, filename, size);
            match state_of(downloads, username, filename) {
                None | Some(DownloadState::Failed(_)) | Some(DownloadState::Incomplete) => cell
                    == get_form_html(username, filename, size),
                Some(DownloadState::Completed(_)) => cell == PILL_DONE@,
                Some(DownloadState::Queued) => cell == cancel_cell_html(
                    username,
                    filename,
                    size,
                    crate::ui::downloads::status_html(DownloadState::Queued),
                ),
                Some(DownloadState::Starting) => cell == cancel_cell_html(
                    username,
                    filename,
                    size,
                    crate::ui::downloads::status_html(DownloadState::Starting),
                ),
                Some(DownloadState::Position(p)) => cell == cancel_cell_html(
                    username,
                    filename,
                    size,
                    crate::ui::downloads::status_html(DownloadState::Position(p)),
                ),
            }
        }),
{
}

/// Only the column that results are sorted by has an arrow, up or down as they are sorted.
pub proof fn law_only_the_sorted_column_has_an_arrow(key: SortKey, other: SortKey, desc: bool)
    ensures
        is_sorted_by(Some((key, desc)), column_id(other)) <==> key == other,
        sort_arrow(Some((key, false)), column_id(key)) == " ▲"@,
        sort_arrow(Some((key, true)), column_id(key)) == " ▼"@,
        key != other ==> sort_arrow(Some((key, desc)), column_id(other)).len() == 0,
        sort_arrow(None, column_id(key)).len() == 0,
{
    law_columns_are_found_by_name(key);
    law_columns_are_found_by_name(other);
    reveal_strlit("");
}

/// A search tells how many files it has, and how many of them pass the filter where some do not.
pub proof fn law_counts_are_of_what_is_shown(s: SearchRowView, min_bitrate: u32)
    ensures
        min_bitrate == 0 ==> counts_text(s, min_bitrate) == decimal(s.results.len())
            + " peer(s), "@ + decimal(file_count(s.results)) + " file(s)"@,
        shown(s.results, min_bitrate).len() < file_count(s.results) ==> counts_text(
            s,
            min_bitrate,
        ) == decimal(shown(s.results, min_bitrate).len()) + " of "@ + decimal(
            file_count(s.results),
        ) + " file(s) — bitrate filter active"@,
        shown(s.results, min_bitrate).len() <= file_count(s.results),
{
    lemma_shown_count(s.results, min_bitrate);
}

proof fn lemma_shown_count(results: Seq<ResultRowView>, min: u32)
    ensures
        shown(results, min).len() <= file_count(results),
        min == 0 ==> shown(results, min).len() == file_count(results),
    decreases results.len(),
{
    if results.len() > 0 {
        lemma_shown_count(results.drop_last(), min);
        let row = results.last();
        lemma_shown_of(row, row.files, min);
        lemma_shown_of_count(row, row.files, min);
    }
}

proof fn lemma_shown_of_count(row: ResultRowView, files: Seq<ResultFileView>, min: u32)
    ensures
        shown_of(row, files, min).len() <= files.len(),
    decreases files.len(),
{
    if files.len() > 0 {
        lemma_shown_of_count(row, files.drop_last(), min);
    }
}

proof fn lemma_search_card_pieces()
    ensures
        SEARCH_CARD@.len() == 242,
        SEARCH_CARD@.subrange(0, 43) == "<div class=\"card\"><h3 style=\"margin-top:0\">"@,
        SEARCH_CARD@[43] == '{' && SEARCH_CARD@[44] == '}',
        SEARCH_CARD@.subrange(45, 68) == " <span class=\"muted\">— "@,
        SEARCH_CARD@[68] == '{' && SEARCH_CARD@[69] == '}',
        SEARCH_CARD@.subrange(70, 150) == "</span></h3><div class=\"results-scroll\"><table class=\"results-table\"><thead><tr>"@,
        SEARCH_CARD@[150] == '{' && SEARCH_CARD@[151] == '}',
        SEARCH_CARD@[152] == '{' && SEARCH_CARD@[153] == '}',
        SEARCH_CARD@[154] == '{' && SEARCH_CARD@[155] == '}',
        SEARCH_CARD@[156] == '{' && SEARCH_CARD@[157] == '}',
        SEARCH_CARD@[158] == '{' && SEARCH_CARD@[159] == '}',
        SEARCH_CARD@[160] == '{' && SEARCH_CARD@[161] == '}',
        SEARCH_CARD@[162] == '{' && SEARCH_CARD@[163] == '}',
        SEARCH_CARD@[164] == '{' && SEARCH_CARD@[165] == '}',
        SEARCH_CARD@[166] == '{' && SEARCH_CARD@[167] == '}',
        SEARCH_CARD@.subrange(168, 212) == "<th class=\"col-dl\"></th></tr></thead><tbody>"@,
        SEARCH_CARD@[212] == '{' && SEARCH_CARD@[213] == '}',
        SEARCH_CARD@.subrange(214, 242) == "</tbody></table></div></div>"@,
{
    reveal_strlit(
        "<div class=\"card\"><h3 style=\"margin-top:0\">{} <span class=\"muted\">— {}</span></h3><div class=\"results-scroll\"><table class=\"results-table\"><thead><tr>{}{}{}{}{}{}{}{}{}<th class=\"col-dl\"></th></tr></thead><tbody>{}</tbody></table></div></div>",
    );
    assert(SEARCH_CARD@.subrange(0, 43) =~= "<div class=\"card\"><h3 style=\"margin-top:0\">"@) by {
        reveal_strlit("<div class=\"card\"><h3 style=\"margin-top:0\">");
    }
    assert(SEARCH_CARD@.subrange(45, 68) =~= " <span class=\"muted\">— "@) by {
        reveal_strlit(" <span class=\"muted\">— ");
    }
    assert(SEARCH_CARD@.subrange(70, 150) =~= "</span></h3><div class=\"results-scroll\"><table class=\"results-table\"><thead><tr>"@) by {
        reveal_strlit("</span></h3><div class=\"results-scroll\"><table class=\"results-table\"><thead><tr>");
    }
    assert(SEARCH_CARD@.subrange(168, 212) =~= "<th class=\"col-dl\"></th></tr></thead><tbody>"@) by {
        reveal_strlit("<th class=\"col-dl\"></th></tr></thead><tbody>");
    }
    assert(SEARCH_CARD@.subrange(214, 242) =~= "</tbody></table></div></div>"@) by {
        reveal_strlit("</tbody></table></div></div>");
    }
}

proof fn lemma_search_card_plain()
    ensures
        forall|k: int| 0 <= k < " <span class=\"muted\">— "@.len() ==> #[trigger] " <span class=\"muted\">— "@[k] != '{',
        forall|k: int| 0 <= k < "</span></h3><div class=\"results-scroll\"><table class=\"results-table\"><thead><tr>"@.len() ==> #[trigger] "</span></h3><div class=\"results-scroll\"><table class=\"results-table\"><thead><tr>"@[k] != '{',
        forall|k: int| 0 <= k < "</tbody></table></div></div>"@.len() ==> #[trigger] "</tbody></table></div></div>"@[k] != '{',
        forall|k: int| 0 <= k < "<div class=\"card\"><h3 style=\"margin-top:0\">"@.len() ==> #[trigger] "<div class=\"card\"><h3 style=\"margin-top:0\">"@[k] != '{',
        forall|k: int| 0 <= k < "<th class=\"col-dl\"></th></tr></thead><tbody>"@.len() ==> #[trigger] "<th class=\"col-dl\"></th></tr></thead><tbody>"@[k] != '{',
{
    assert forall|k: int| 0 <= k < " <span class=\"muted\">— "@.len() implies #[trigger] " <span class=\"muted\">— "@[k]
        != '{' by {
        reveal_strlit(" <span class=\"muted\">— ");
    }
    assert forall|k: int| 0 <= k < "</span></h3><div class=\"results-scroll\"><table class=\"results-table\"><thead><tr>"@.len() implies #[trigger] "</span></h3><div class=\"results-scroll\"><table class=\"results-table\"><thead><tr>"@[k]
        != '{' by {
        reveal_strlit("</span></h3><div class=\"results-scroll\"><table class=\"results-table\"><thead><tr>");
    }
    assert forall|k: int| 0 <= k < "</tbody></table></div></div>"@.len() implies #[trigger] "</tbody></table></div></div>"@[k]
        != '{' by {
        reveal_strlit("</tbody></table></div></div>");
    }
    assert forall|k: int| 0 <= k < "<div class=\"card\"><h3 style=\"margin-top:0\">"@.len() implies #[trigger] "<div class=\"card\"><h3 style=\"margin-top:0\">"@[k]
        != '{' by {
        reveal_strlit("<div class=\"card\"><h3 style=\"margin-top:0\">");
    }
    assert forall|k: int| 0 <= k < "<th class=\"col-dl\"></th></tr></thead><tbody>"@.len() implies #[trigger] "<th class=\"col-dl\"></th></tr></thead><tbody>"@[k]
        != '{' by {
        reveal_strlit("<th class=\"col-dl\"></th></tr></thead><tbody>");
    }
}

proof fn lemma_search_card_filled(v: Seq<Seq<char>>)
    requires
        v.len() == 12,
    ensures
        filled(SEARCH_CARD@, v) == "<div class=\"card\"><h3 style=\"margin-top:0\">"@ + (v[0] + (
            " <span class=\"muted\">— "@ + (v[1] + (
            "</span></h3><div class=\"results-scroll\"><table class=\"results-table\"><thead><tr>"@ + (v[2] + (
            v[3] + (v[4] + (
            v[5] + (v[6] + (
            v[7] + (v[8] + (
            v[9] + (v[10] + (
            "<th class=\"col-dl\"></th></tr></thead><tbody>"@ + (v[11] + (
            "</tbody></table></div></div>"@)))))))))))))))),
{
    lemma_search_card_pieces();
    lemma_search_card_plain();
    let t = SEARCH_CARD@;
    let none = Seq::<char>::empty();
    assert(v.skip(0) =~= v);
    assert(t.skip(0) =~= t);
    crate::template::lemma_text_behind(t, 214, "</tbody></table></div></div>"@, v.skip(12));
    crate::template::lemma_blank_at(t, 168, "<th class=\"col-dl\"></th></tr></thead><tbody>"@, 214, v, 11);
    assert(t.subrange(166, 166) =~= none);
    crate::template::lemma_blank_at(t, 166, none, 168, v, 10);
    assert(none + (v[10] + filled(t.skip(168), v.skip(11))) =~= v[10] + filled(
        t.skip(168),
        v.skip(11),
    ));
    assert(t.subrange(164, 164) =~= none);
    crate::template::lemma_blank_at(t, 164, none, 166, v, 9);
    assert(none + (v[9] + filled(t.skip(166), v.skip(10))) =~= v[9] + filled(
        t.skip(166),
        v.skip(10),
    ));
    assert(t.subrange(162, 162) =~= none);
    crate::template::lemma_blank_at(t, 162, none, 164, v, 8);
    assert(none + (v[8] + filled(t.skip(164), v.skip(9))) =~= v[8] + filled(
        t.skip(164),
        v.skip(9),
    ));
    assert(t.subrange(160, 160) =~= none);
    crate::template::lemma_blank_at(t, 160, none, 162, v, 7);
    assert(none + (v[7] + filled(t.skip(162), v.skip(8))) =~= v[7] + filled(
        t.skip(162),
        v.skip(8),
    ));
    assert(t.subrange(158, 158) =~= none);
    crate::template::lemma_blank_at(t, 158, none, 160, v, 6);
    assert(none + (v[6] + filled(t.skip(160), v.skip(7))) =~= v[6] + filled(
        t.skip(160),
        v.skip(7),
    ));
    assert(t.subrange(156, 156) =~= none);
    crate::template::lemma_blank_at(t, 156, none, 158, v, 5);
    assert(none + (v[5] + filled(t.skip(158), v.skip(6))) =~= v[5] + filled(
        t.skip(158),
        v.skip(6),
    ));
    assert(t.subrange(154, 154) =~= none);
    crate::template::lemma_blank_at(t, 154, none, 156, v, 4);
    assert(none + (v[4] + filled(t.skip(156), v.skip(5))) =~= v[4] + filled(
        t.skip(156),
        v.skip(5),
    ));
    assert(t.subrange(152, 152) =~= none);
    crate::template::lemma_blank_at(t, 152, none, 154, v, 3);
    assert(none + (v[3] + filled(t.skip(154), v.skip(4))) =~= v[3] + filled(
        t.skip(154),
        v.skip(4),
    ));
    crate::template::lemma_blank_at(t, 70, "</span></h3><div class=\"results-scroll\"><table class=\"results-table\"><thead><tr>"@, 152, v, 2);
    crate::template::lemma_blank_at(t, 45, " <span class=\"muted\">— "@, 70, v, 1);
    crate::template::lemma_blank_at(t, 0, "<div class=\"card\"><h3 style=\"margin-top:0\">"@, 45, v, 0);
}

/// A search with answers shows what it is for, how many files it has, a header for each column, and
/// its files, filtered and sorted.
pub proof fn law_a_search_shows_its_files(s: SearchRowView, sort: Sorting, min_bitrate: u32, downloads: Seq<DownloadEntryView>)
    requires
        s.results.len() > 0,
    ensures
        search_html(s, sort, min_bitrate, downloads) == "<div class=\"card\"><h3 style=\"margin-top:0\">"@ + (escaped(s.query) + (
            " <span class=\"muted\">— "@ + (counts_text(s, min_bitrate) + (
            "</span></h3><div class=\"results-scroll\"><table class=\"results-table\"><thead><tr>"@ + (sort_th_html(sort, "user"@, "User"@, false) + (
            sort_th_html(sort, "folder"@, "Folder"@, false) + (sort_th_html(sort, "file"@, "File"@, false) + (
            sort_th_html(sort, "size"@, "Size"@, true) + (sort_th_html(sort, "bitrate"@, "Bitrate"@, true) + (
            sort_th_html(sort, "length"@, "Length"@, true) + (sort_th_html(sort, "slot"@, "Slot"@, false) + (
            sort_th_html(sort, "speed"@, "Speed B/s"@, true) + (sort_th_html(sort, "queue"@, "Queue"@, true) + (
            "<th class=\"col-dl\"></th></tr></thead><tbody>"@ + (result_rows_html(sorted(shown(s.results, min_bitrate), sort), downloads) + (
            "</tbody></table></div></div>"@)))))))))))))))),
{
    let v = blanks()
        .push(escaped(s.query))
        .push(counts_text(s, min_bitrate))
        .push(sort_th_html(sort, "user"@, "User"@, false))
        .push(sort_th_html(sort, "folder"@, "Folder"@, false))
        .push(sort_th_html(sort, "file"@, "File"@, false))
        .push(sort_th_html(sort, "size"@, "Size"@, true))
        .push(sort_th_html(sort, "bitrate"@, "Bitrate"@, true))
        .push(sort_th_html(sort, "length"@, "Length"@, true))
        .push(sort_th_html(sort, "slot"@, "Slot"@, false))
        .push(sort_th_html(sort, "speed"@, "Speed B/s"@, true))
        .push(sort_th_html(sort, "queue"@, "Queue"@, true))
        .push(result_rows_html(sorted(shown(s.results, min_bitrate), sort), downloads));
    lemma_search_card_filled(v);
}

} // verus!
