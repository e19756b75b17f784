//! What the forms on the pages ask for.
use vstd::prelude::*;
use vstd::string::*;

use crate::extract::{Job, JobView, SearchJob, SearchJobView};
use crate::html::{escape, escaped};
use crate::paths::{component, sanitize_path_component};
use crate::template::{blanks, fill1, fill2, filled};
use crate::text::{
    decimal, decimal_padded, group_views, ov, parse_number, parsed_upto, same, to_decimal,
    to_decimal_padded, trim, trimmed, views,
};
use crate::ui::results::{get_form_html, render_get_form};
use crate::web_bridge::form::{form_of, parse_form, value_of, value_or_empty};
use crate::web_bridge::settings::{error_banner, render_error_banner, Fields};

verus! {

broadcast use group_views;

/// A number of 32 bits in a field, white space around it aside.
pub open spec fn number_in(form: Fields, key: Seq<char>) -> Option<u32> {
    match value_of(form, key) {
        Some(v) => match parsed_upto(trimmed(v), 0xffff_ffff) {
            Some(n) => Some(n as u32),
            None => None,
        },
        None => None,
    }
}

/// A size in a field; 0 where it holds none.
pub open spec fn size_in(form: Fields, key: Seq<char>) -> u64 {
    match value_of(form, key) {
        Some(v) => match parsed_upto(v, 0xffff_ffff_ffff_ffff) {
            Some(n) => n as u64,
            None => 0,
        },
        None => 0,
    }
}

fn read_number(form: &crate::web_bridge::form::Form, key: &str) -> (r: Option<u32>)
    ensures
        r == number_in(form@, key@),
{
    match form.get(key) {
        Some(v) => match parse_number(trim(v), 0xffff_ffff) {
            Some(n) => Some(n as u32),
            None => None,
        },
        None => None,
    }
}

fn read_size(form: &crate::web_bridge::form::Form, key: &str) -> (r: u64)
    ensures
        r == size_in(form@, key@),
{
    match form.get(key) {
        Some(v) => match parse_number(v, 0xffff_ffff_ffff_ffff) {
            Some(n) => n,
            None => 0,
        },
        None => 0,
    }
}

/// What a search form asks for.
pub struct SearchForm {
    pub input: String,
    /// The search that this one takes the place of.
    pub replace: Option<u32>,
    /// Whether downloads go into a folder named after the playlist, numbered.
    pub organize: bool,
}

/// Whether a box is ticked.
pub open spec fn is_ticked(form: Fields, key: Seq<char>) -> bool {
    value_of(form, key) matches Some(v) && (v == "1"@ || v == "on"@ || v == "true"@)
}

/// The search that a form replaces: tokens start at 1.
pub open spec fn replaced(form: Fields) -> Option<u32> {
    match number_in(form, "replace_token"@) {
        Some(t) => if t > 0 {
            Some(t)
        } else {
            None
        },
        None => None,
    }
}

/// Reads a search form.
pub fn read_search(body: &str) -> (r: SearchForm)
    ensures
        r.input@ == value_or_empty(form_of(body@), "input"@),
        r.replace == replaced(form_of(body@)),
        r.organize == is_ticked(form_of(body@), "organize"@),
{
    let form = parse_form(body);
    let replace = match read_number(&form, "replace_token") {
        Some(t) => if t > 0 {
            Some(t)
        } else {
            None
        },
        None => None,
    };
    let organize = match form.get("organize") {
        Some(v) => same(v, "1") || same(v, "on") || same(v, "true"),
        None => false,
    };
    SearchForm { input: form.get_or_empty("input"), replace, organize }
}

/// A search, and where its downloads go: a subfolder, and a prefix for the file name.
pub struct PlannedSearch {
    pub job: SearchJob,
    pub folder: String,
    pub prefix: String,
}

pub struct PlannedView {
    pub job: SearchJobView,
    pub folder: Seq<char>,
    pub prefix: Seq<char>,
}

impl View for PlannedSearch {
    type V = PlannedView;

    open spec fn view(&self) -> PlannedView {
        PlannedView { job: self.job@, folder: self.folder@, prefix: self.prefix@ }
    }
}

/// The subfolder that downloads go to, if any: what the source's name makes as a folder name.
pub open spec fn subfolder(folder: Option<Seq<char>>, organize: bool) -> Option<Seq<char>> {
    match folder {
        Some(f) => if organize && component(f).len() > 0 {
            Some(component(f))
        } else {
            None
        },
        None => None,
    }
}

/// How many digits the tracks are numbered with: as many as the last number has, two at least.
pub open spec fn number_width(count: nat) -> nat {
    if decimal(count).len() < 2 {
        2
    } else {
        decimal(count).len()
    }
}

/// The searches of a job, and where their downloads go.
pub open spec fn planned(job: JobView, organize: bool) -> Seq<PlannedView> {
    Seq::new(
        job.searches.len(),
        |i: int|
            match subfolder(job.folder, organize) {
                Some(folder) => PlannedView {
                    job: job.searches[i],
                    folder,
                    prefix: decimal_padded((i + 1) as nat, number_width(job.searches.len()))
                        + " "@,
                },
                None => PlannedView {
                    job: job.searches[i],
                    folder: Seq::empty(),
                    prefix: Seq::empty(),
                },
            },
    )
}

/// Plans the searches of a job.
pub fn plan_searches(job: &Job, organize: bool) -> (r: Vec<PlannedSearch>)
    ensures
        views(r@) == planned(job@, organize),
{
    let subdir: Option<String> = match &job.folder {
        Some(f) => if organize {
            let name = sanitize_path_component(f.as_str());
            if name.as_str().is_empty() {
                None
            } else {
                Some(name)
            }
        } else {
            None
        },
        None => None,
    };
    let total: usize = job.searches.len();
    let digits: usize = to_decimal(total as u64).as_str().unicode_len();
    let width: usize = if digits < 2 {
        2
    } else {
        digits
    };
    let ghost want = planned(job@, organize);
    let mut r: Vec<PlannedSearch> = Vec::new();
    let mut i: usize = 0;
    assert(views(r@) =~= want.take(0));
    while i < total
        invariant
            i <= total == job.searches@.len(),
            want == planned(job@, organize),
            ov(subdir) == subfolder(job@.folder, organize),
            width == number_width(total as nat),
            views(r@) == want.take(i as int),
        decreases total - i,
    {
        let planned = match &subdir {
            Some(folder) => {
                let mut prefix = to_decimal_padded(i as u64 + 1, width);
                prefix.append(" ");
                PlannedSearch { job: job.searches[i].clone(), folder: folder.clone(), prefix }
            },
            None => {
                let p = PlannedSearch {
                    job: job.searches[i].clone(),
                    folder: String::new(),
                    prefix: String::new(),
                };
                assert(p@.folder =~= Seq::<char>::empty());
                assert(p@.prefix =~= Seq::<char>::empty());
                p
            },
        };
        r.push(planned);
        i += 1;
        assert(planned@ == want[i as int - 1]);
        assert(want.take(i as int) =~= want.take(i as int - 1).push(want[i as int - 1]));
    }
    assert(want.take(i as int) =~= want);
    r
}

pub const STARTED: &'static str = r#"<div class="banner">{} — started {} search(es)</div>"#;

/// What is told once searches were started, or were refused.
pub open spec fn started_banner(label: Seq<char>, started: nat, error: Option<Seq<char>>) -> Seq<
    char,
> {
    match error {
        Some(e) => error_banner(e),
        None => filled(STARTED@, blanks()
            .push(escaped(label))
            .push(decimal(started))),
    }
}

/// What is told once searches were started, or were refused, and the search that is then to be
/// removed: a refused one replaces nothing.
pub fn searches_started(label: &str, started: usize, error: Option<String>, replace: Option<u32>)
    -> (r: (String, Option<u32>))
    ensures
        r.0@ == started_banner(label@, started as nat, ov(error)),
        r.1 == (if error is Some {
            None
        } else {
            replace
        }),
{
    match error {
        Some(e) => (render_error_banner(e.as_str()), None),
        None => (
            fill2(STARTED, escape(label).as_str(), to_decimal(started as u64).as_str()),
            replace,
        ),
    }
}

/// A banner above what it belongs to.
pub fn above(banner: &str, fragment: &str) -> (r: String)
    ensures
        r@ == banner@ + fragment@,
{
    let mut out = banner.to_owned();
    out.append(fragment);
    out
}

/// The search that a form closes.
pub fn read_close_search(body: &str) -> (r: Option<u32>)
    ensures
        r == number_in(form_of(body@), "token"@),
{
    let form = parse_form(body);
    read_number(&form, "token")
}

/// The least bitrate that a form asks for; 0 where it names none.
pub fn read_filter(body: &str) -> (r: u32)
    ensures
        r == (match number_in(form_of(body@), "min_bitrate"@) {
            Some(n) => n,
            None => 0,
        }),
{
    let form = parse_form(body);
    match read_number(&form, "min_bitrate") {
        Some(n) => n,
        None => 0,
    }
}

/// A file that a form is about.
pub struct FileForm {
    pub username: String,
    pub filename: String,
    pub size: u64,
    pub subdir: String,
    pub prefix: String,
}

/// Reads a form about a file.
pub fn read_file(body: &str) -> (r: FileForm)
    ensures
        r.username@ == value_or_empty(form_of(body@), "username"@),
        r.filename@ == value_or_empty(form_of(body@), "filename"@),
        r.size == size_in(form_of(body@), "size"@),
        r.subdir@ == value_or_empty(form_of(body@), "subdir"@),
        r.prefix@ == value_or_empty(form_of(body@), "prefix"@),
{
    let form = parse_form(body);
    FileForm {
        username: form.get_or_empty("username"),
        filename: form.get_or_empty("filename"),
        size: read_size(&form, "size"),
        subdir: form.get_or_empty("subdir"),
        prefix: form.get_or_empty("prefix"),
    }
}

pub const BAD_REQUEST: &'static str = r#"<span class="pill warn">bad request</span>"#;

pub const QUEUED: &'static str = r#"<span class="pill">queued</span>"#;

/// What a request for a file is answered, and whether the download starts: not without a user and
/// a file.
pub fn download_answer(file: &FileForm) -> (r: (String, bool))
    ensures
        r.1 == (file.username@.len() > 0 && file.filename@.len() > 0),
        r.0@ == (if file.username@.len() > 0 && file.filename@.len() > 0 {
            QUEUED@
        } else {
            BAD_REQUEST@
        }),
{
    if file.username.as_str().is_empty() || file.filename.as_str().is_empty() {
        (BAD_REQUEST.to_owned(), false)
    } else {
        (QUEUED.to_owned(), true)
    }
}

/// What a cancelled download is answered: a button to ask for the file again.
pub fn cancel_answer(file: &FileForm) -> (html: String)
    ensures
        html@ == get_form_html(file.username@, file.filename@, file.size),
{
    render_get_form(file.username.as_str(), file.filename.as_str(), file.size)
}

pub const BROWSING: &'static str = r#"<div class="banner">browsing {}… results will appear below</div>"#;

/// The user that a form is about.
pub fn read_username(body: &str) -> (r: String)
    ensures
        r@ == value_or_empty(form_of(body@), "username"@),
{
    let form = parse_form(body);
    form.get_or_empty("username")
}

/// What a request to browse a user is answered, above what is known so far.
pub open spec fn browse_html(
    username: Seq<char>,
    error: Option<Seq<char>>,
    fragment: Seq<char>,
) -> Seq<char> {
    (match error {
        Some(e) => error_banner(e),
        None => filled(BROWSING@, blanks().push(escaped(trimmed(username)))),
    }) + fragment
}

/// What a request to browse a user is answered, above what is known so far.
pub fn browse_answer(username: &str, error: Option<String>, fragment: &str) -> (html: String)
    ensures
        html@ == browse_html(username@, ov(error), fragment@),
{
    let banner = match error {
        Some(e) => render_error_banner(e.as_str()),
        None => fill1(BROWSING, escape(trim(username)).as_str()),
    };
    above(banner.as_str(), fragment)
}

/// The path that a form asks to open; none where it names none.
pub fn read_open(body: &str) -> (r: Option<String>)
    ensures
        ov(r) == (match value_of(form_of(body@), "path"@) {
            Some(v) => if v.len() == 0 {
                None
            } else {
                Some(v)
            },
            None => None,
        }),
{
    let form = parse_form(body);
    match form.get("path") {
        Some(v) => if v.is_empty() {
            None
        } else {
            Some(v.to_owned())
        },
        None => None,
    }
}

/// Numbered tracks sort in their order: in one plan all prefixes are equally long, and no two are
/// the same.
pub proof fn law_prefixes_number_the_tracks(job: JobView, i: int, j: int)
    requires
        job.folder is Some,
        subfolder(job.folder, true) is Some,
        0 <= i < j < job.searches.len(),
    ensures
        planned(job, true)[i].prefix.len() == planned(job, true)[j].prefix.len(),
        planned(job, true)[i].prefix != planned(job, true)[j].prefix,
{
    let n = job.searches.len();
    let w = number_width(n);
    crate::text::lemma_decimal_grows((i + 1) as nat, n);
    crate::text::lemma_decimal_grows((j + 1) as nat, n);
    crate::text::lemma_padded((i + 1) as nat, w);
    crate::text::lemma_padded((j + 1) as nat, w);
    let a = decimal_padded((i + 1) as nat, w);
    let b = decimal_padded((j + 1) as nat, w);
    if a + " "@ == b + " "@ {
        assert(a =~= (a + " "@).take(w as int));
        assert(b =~= (b + " "@).take(w as int));
    }
}

/// Every search of a job is planned, in its order. Where downloads are kept together they go into
/// one folder, and the prefix of each is its own place, counted from 1; otherwise they go into none
/// and have no prefix.
pub proof fn law_every_search_is_planned(job: JobView, organize: bool, i: int)
    requires
        0 <= i < job.searches.len(),
    ensures
        planned(job, organize).len() == job.searches.len(),
        planned(job, organize)[i].job == job.searches[i],
        !organize || job.folder is None ==> planned(job, organize)[i].folder.len() == 0 && planned(
            job,
            organize,
        )[i].prefix.len() == 0,
        organize && (job.folder matches Some(f) && component(f).len() > 0) ==> {
            let p = planned(job, organize)[i];
            &&& p.folder == component(job.folder->0)
            &&& p.prefix.len() >= 3 && p.prefix.last() == ' '
            &&& crate::text::digits_value(p.prefix.drop_last()) == i + 1
        },
{
    let n = job.searches.len();
    if let Some(folder) = subfolder(job.folder, organize) {
        let w = number_width(n);
        crate::text::lemma_decimal_grows((i + 1) as nat, n);
        crate::text::lemma_padded((i + 1) as nat, w);
        reveal_strlit(" ");
        let digits = decimal_padded((i + 1) as nat, w);
        assert((digits + " "@).drop_last() =~= digits);
        assert((digits + " "@).last() == ' ');
    }
}

/// A number that a form holds is read from it, with white space around it or without.
pub proof fn law_numbers_of_a_form_read_back(form: Fields, key: Seq<char>, n: u32, size: u64)
    ensures
        value_of(form, key) == Some(decimal(n as nat)) ==> number_in(form, key) == Some(n),
        value_of(form, key) == Some(decimal(size as nat)) ==> size_in(form, key) == size,
        value_of(form, key) is None ==> number_in(form, key) is None && size_in(form, key) == 0,
{
    crate::text::law_decimal_reads_back(n as nat);
    crate::text::law_decimal_reads_back(size as nat);
    crate::text::law_decimal_is_plain_text(n as nat);
}

/// A box counts as ticked by what a browser sends for one, and a search replaces another where it
/// names that by its number.
pub proof fn law_boxes_and_replacements_are_read(form: Fields, n: u32)
    ensures
        value_of(form, "organize"@) is None ==> !is_ticked(form, "organize"@),
        value_of(form, "organize"@) == Some("on"@) ==> is_ticked(form, "organize"@),
        value_of(form, "organize"@) == Some("1"@) ==> is_ticked(form, "organize"@),
        value_of(form, "organize"@) == Some("true"@) ==> is_ticked(form, "organize"@),
        value_of(form, "replace_token"@) is None ==> replaced(form) is None,
        n > 0 && value_of(form, "replace_token"@) == Some(decimal(n as nat)) ==> replaced(form)
            == Some(n),
        replaced(form) != Some(0u32),
{
    law_numbers_of_a_form_read_back(form, "replace_token"@, n, 0);
}

} // verus!
