//! Messages of the web interface, and how they travel.
use vstd::prelude::*;
use vstd::string::*;

use crate::extract::{SearchJob, SearchJobView};
use crate::text::{group_views, views};

verus! {

broadcast use group_views;

/// A page, or a part of one, that the interface can show.
#[derive(Debug, PartialEq)]
pub enum Page<S> {
    Index,
    StatusFragment,
    SearchesFragment,
    ConfigForm,
    /// How the login stands, on the account screen.
    AccountStatus,
    Downloads,
    DownloadsFragment,
    /// The uploads to peers, those on their way and those that have ended, and their live list.
    Uploads,
    UploadsFragment,
    /// Sorts the results by a column (the other way round where it is the sorted one already), and
    /// shows them.
    SortSearches { key: S },
    /// Sets the least bitrate that is shown (in kbps; 0 shows all), and shows the results.
    FilterBitrate { min: u32 },
}

impl View for Page<String> {
    type V = Page<Seq<char>>;

    open spec fn view(&self) -> Page<Seq<char>> {
        match self {
            Page::Index => Page::Index,
            Page::StatusFragment => Page::StatusFragment,
            Page::SearchesFragment => Page::SearchesFragment,
            Page::ConfigForm => Page::ConfigForm,
            Page::AccountStatus => Page::AccountStatus,
            Page::Downloads => Page::Downloads,
            Page::DownloadsFragment => Page::DownloadsFragment,
            Page::Uploads => Page::Uploads,
            Page::UploadsFragment => Page::UploadsFragment,
            Page::SortSearches { key } => Page::SortSearches { key: key@ },
            Page::FilterBitrate { min } => Page::FilterBitrate { min: *min },
        }
    }
}

/// Which page a message on the bus asks for.
#[derive(Debug, Clone, Copy, PartialEq, Eq, Structural)]
pub enum PageKind {
    Index,
    StatusFragment,
    SearchesFragment,
    ConfigForm,
    AccountStatus,
    Downloads,
    DownloadsFragment,
    Uploads,
    UploadsFragment,
    SortSearches,
    FilterBitrate,
}

/// A page as the bus carries it.
#[derive(Debug, PartialEq)]
pub struct BusPage<S> {
    /// `None` is a kind that this version does not know.
    pub kind: Option<PageKind>,
    pub sort_key: S,
    pub min_bitrate: u32,
}

impl View for BusPage<String> {
    type V = BusPage<Seq<char>>;

    open spec fn view(&self) -> BusPage<Seq<char>> {
        BusPage { kind: self.kind, sort_key: self.sort_key@, min_bitrate: self.min_bitrate }
    }
}

/// A page of a kind that needs nothing more.
pub open spec fn plain_page(kind: PageKind) -> BusPage<Seq<char>> {
    BusPage { kind: Some(kind), sort_key: Seq::empty(), min_bitrate: 0 }
}

/// A page as the bus carries it.
pub open spec fn page_on_bus(p: Page<Seq<char>>) -> BusPage<Seq<char>> {
    match p {
        Page::Index => plain_page(PageKind::Index),
        Page::StatusFragment => plain_page(PageKind::StatusFragment),
        Page::SearchesFragment => plain_page(PageKind::SearchesFragment),
        Page::ConfigForm => plain_page(PageKind::ConfigForm),
        Page::AccountStatus => plain_page(PageKind::AccountStatus),
        Page::Downloads => plain_page(PageKind::Downloads),
        Page::DownloadsFragment => plain_page(PageKind::DownloadsFragment),
        Page::Uploads => plain_page(PageKind::Uploads),
        Page::UploadsFragment => plain_page(PageKind::UploadsFragment),
        Page::SortSearches { key } => BusPage {
            sort_key: key,
            ..plain_page(PageKind::SortSearches)
        },
        Page::FilterBitrate { min } => BusPage {
            min_bitrate: min,
            ..plain_page(PageKind::FilterBitrate)
        },
    }
}

/// The page that a message asks for; one of an unknown kind asks for the index.
pub open spec fn page_off_bus(p: BusPage<Seq<char>>) -> Page<Seq<char>> {
    match p.kind {
        Some(PageKind::StatusFragment) => Page::StatusFragment,
        Some(PageKind::SearchesFragment) => Page::SearchesFragment,
        Some(PageKind::ConfigForm) => Page::ConfigForm,
        Some(PageKind::AccountStatus) => Page::AccountStatus,
        Some(PageKind::Downloads) => Page::Downloads,
        Some(PageKind::DownloadsFragment) => Page::DownloadsFragment,
        Some(PageKind::Uploads) => Page::Uploads,
        Some(PageKind::UploadsFragment) => Page::UploadsFragment,
        Some(PageKind::SortSearches) => Page::SortSearches { key: p.sort_key },
        Some(PageKind::FilterBitrate) => Page::FilterBitrate { min: p.min_bitrate },
        _ => Page::Index,
    }
}

fn plain(kind: PageKind) -> (r: BusPage<String>)
    ensures
        r@ == plain_page(kind),
{
    let r = BusPage { kind: Some(kind), sort_key: String::new(), min_bitrate: 0 };
    assert(r@.sort_key =~= Seq::<char>::empty());
    r
}

/// A page for the bus.
pub fn page_to_proto(p: &Page<String>) -> (r: BusPage<String>)
    ensures
        r@ == page_on_bus(p@),
{
    match p {
        Page::Index => plain(PageKind::Index),
        Page::StatusFragment => plain(PageKind::StatusFragment),
        Page::SearchesFragment => plain(PageKind::SearchesFragment),
        Page::ConfigForm => plain(PageKind::ConfigForm),
        Page::AccountStatus => plain(PageKind::AccountStatus),
        Page::Downloads => plain(PageKind::Downloads),
        Page::DownloadsFragment => plain(PageKind::DownloadsFragment),
        Page::Uploads => plain(PageKind::Uploads),
        Page::UploadsFragment => plain(PageKind::UploadsFragment),
        Page::SortSearches { key } => {
            let mut r = plain(PageKind::SortSearches);
            r.sort_key = key.clone();
            r
        },
        Page::FilterBitrate { min } => {
            let mut r = plain(PageKind::FilterBitrate);
            r.min_bitrate = *min;
            r
        },
    }
}

/// The page that a message asks for.
pub fn page_from_proto(p: &BusPage<String>) -> (r: Page<String>)
    ensures
        r@ == page_off_bus(p@),
{
    match p.kind {
        Some(PageKind::StatusFragment) => Page::StatusFragment,
        Some(PageKind::SearchesFragment) => Page::SearchesFragment,
        Some(PageKind::ConfigForm) => Page::ConfigForm,
        Some(PageKind::AccountStatus) => Page::AccountStatus,
        Some(PageKind::Downloads) => Page::Downloads,
        Some(PageKind::DownloadsFragment) => Page::DownloadsFragment,
        Some(PageKind::Uploads) => Page::Uploads,
        Some(PageKind::UploadsFragment) => Page::UploadsFragment,
        Some(PageKind::SortSearches) => Page::SortSearches { key: p.sort_key.clone() },
        Some(PageKind::FilterBitrate) => Page::FilterBitrate { min: p.min_bitrate },
        _ => Page::Index,
    }
}

/// A page comes off the bus as it was put there.
pub proof fn law_page_survives_the_bus(p: Page<Seq<char>>)
    ensures
        page_off_bus(page_on_bus(p)) == p,
{
}

/// Asks the session to start searches, as request `corr`.
#[derive(Debug, PartialEq)]
pub struct StartSearch {
    pub corr: u64,
    pub source_label: String,
    pub jobs: Vec<SearchJob>,
}

pub struct StartSearchView {
    pub corr: u64,
    pub source_label: Seq<char>,
    pub jobs: Seq<SearchJobView>,
}

impl View for StartSearch {
    type V = StartSearchView;

    open spec fn view(&self) -> StartSearchView {
        StartSearchView {
            corr: self.corr,
            source_label: self.source_label@,
            jobs: views(self.jobs@),
        }
    }
}

/// The bytes of a message.
pub uninterp spec fn start_search_bytes(
    corr: u64,
    source_label: Seq<char>,
    jobs: Seq<SearchJobView>,
) -> Seq<u8>;

/// The bytes of a message: its fields in order, and of each job the artist, the title, the album
/// and the verbatim query, as `bincode::serde::encode_to_vec` writes them in the standard
/// configuration. They are a function of the fields.
#[verifier::external_body]
fn encode_fields(corr: u64, source_label: &str, jobs: &Vec<SearchJob>) -> (r: Vec<u8>)
    ensures
        r@ == start_search_bytes(corr, source_label@, views(jobs@)),
{
    let jobs: Vec<_> =
        jobs.iter().map(|j| (&j.artist, &j.title, &j.album, &j.raw_query)).collect();
    let fields = (corr, source_label, jobs);
    bincode::serde::encode_to_vec(fields, bincode::config::standard()).unwrap_or_default()
}

/// The fields that bytes hold, as `bincode::serde::borrow_decode_from_slice` reads them in the
/// standard configuration; none where they hold none. Texts are borrowed from the bytes, so one
/// that claims to be longer than what is left is an error. What [`encode_fields`] wrote reads
/// back, whatever bytes follow.
#[verifier::external_body]
fn decode_fields(bytes: &Vec<u8>) -> (r: Option<StartSearch>)
    ensures
        forall|m: StartSearchView|
            (#[trigger] start_search_bytes(m.corr, m.source_label, m.jobs)).is_prefix_of(bytes@)
                ==> r is Some && r->0@ == m,
{
    let read: Result<((u64, &str, Vec<[Option<&str>; 4]>), usize), _> =
        bincode::serde::borrow_decode_from_slice(bytes, bincode::config::standard());
    match read {
        Ok(((corr, source_label, jobs), _)) => {
            let job = |texts: [Option<&str>; 4]| {
                let [artist, title, album, raw_query] = texts.map(|t| t.map(str::to_owned));
                SearchJob { artist, title, album, raw_query }
            };
            let jobs = jobs.into_iter().map(job).collect();
            Some(StartSearch { corr, source_label: source_label.to_owned(), jobs })
        },
        Err(_) => None,
    }
}

/// The bytes of a message.
pub open spec fn message_bytes(m: StartSearchView) -> Seq<u8> {
    start_search_bytes(m.corr, m.source_label, m.jobs)
}

impl StartSearch {
    /// The bytes of the message.
    pub fn to_bytes(&self) -> (r: Vec<u8>)
        ensures
            r@ == message_bytes(self@),
    {
        encode_fields(self.corr, self.source_label.as_str(), &self.jobs)
    }

    /// Reads a message from bytes that may be padded at the end.
    pub fn deserialize_from(bytes: &Vec<u8>) -> (r: Option<StartSearch>)
        ensures
            forall|m: StartSearchView|
                (#[trigger] start_search_bytes(m.corr, m.source_label, m.jobs)).is_prefix_of(
                    bytes@,
                ) ==> r is Some && r->0@ == m,
    {
        decode_fields(bytes)
    }
}

} // verus!
