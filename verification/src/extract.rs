//! Input extraction: turning whatever the user pastes into search jobs.
//!
//! Each [`Extractor`] pairs an input matcher with an extraction function, and the
//! [`ExtractorRegistry`] asks them in order: the first that matches handles the input. The
//! plain-text fallback stands last so that links are never swallowed by it.
use vstd::prelude::*;
use vstd::string::*;
use crate::config::{AppContext, Config, ConfigChanged, ConfigView};
use crate::spotify::spotify_ref;
use crate::text::{clone_option, ov, trim, trimmed, views};

verus! {

/// One Soulseek search derived from the input.
#[derive(Debug, PartialEq)]
pub struct SearchJob {
    pub artist: Option<String>,
    pub title: Option<String>,
    pub album: Option<String>,
    /// Verbatim query; takes precedence over the other fields.
    pub raw_query: Option<String>,
}

pub struct SearchJobView {
    pub artist: Option<Seq<char>>,
    pub title: Option<Seq<char>>,
    pub album: Option<Seq<char>>,
    pub raw_query: Option<Seq<char>>,
}

impl View for SearchJob {
    type V = SearchJobView;

    open spec fn view(&self) -> SearchJobView {
        SearchJobView {
            artist: ov(self.artist),
            title: ov(self.title),
            album: ov(self.album),
            raw_query: ov(self.raw_query),
        }
    }
}

impl Clone for SearchJob {
    fn clone(&self) -> (r: Self)
        ensures
            r@ == self@,
    {
        SearchJob {
            artist: clone_option(&self.artist),
            title: clone_option(&self.title),
            album: clone_option(&self.album),
            raw_query: clone_option(&self.raw_query),
        }
    }
}

impl Default for SearchJob {
    fn default() -> (r: Self)
        ensures
            r@ == (SearchJobView { artist: None, title: None, album: None, raw_query: None }),
    {
        SearchJob { artist: None, title: None, album: None, raw_query: None }
    }
}

/// The query that a job stands for: the verbatim one, or artist and title with a space between.
pub open spec fn query_of(job: SearchJobView) -> Seq<char> {
    match (job.raw_query, job.artist, job.title) {
        (Some(raw), _, _) => raw,
        (None, Some(artist), Some(title)) => artist + " "@ + title,
        (None, Some(artist), None) => artist,
        (None, None, Some(title)) => title,
        (None, None, None) => Seq::empty(),
    }
}

impl SearchJob {
    /// The query to send for this job.
    pub fn to_query(&self) -> (r: String)
        ensures
            r@ == query_of(self@),
    {
        if let Some(raw) = &self.raw_query {
            return raw.clone();
        }
        match (&self.artist, &self.title) {
            (Some(artist), Some(title)) => {
                let mut out = artist.clone();
                out.append(" ");
                out.append(title.as_str());
                out
            },
            (Some(artist), None) => artist.clone(),
            (None, Some(title)) => title.clone(),
            (None, None) => String::new(),
        }
    }
}

/// The extraction result: where the jobs came from, and the jobs.
#[derive(Debug, PartialEq)]
pub struct Job {
    pub source_label: String,
    pub searches: Vec<SearchJob>,
    /// The name of the playlist or album, where the source has one: the folder that organized
    /// downloads go to.
    pub folder: Option<String>,
}

pub struct JobView {
    pub source_label: Seq<char>,
    pub searches: Seq<SearchJobView>,
    pub folder: Option<Seq<char>>,
}

impl View for Job {
    type V = JobView;

    open spec fn view(&self) -> JobView {
        JobView {
            source_label: self.source_label@,
            searches: views(self.searches@),
            folder: ov(self.folder),
        }
    }
}

/// Why an input gave no job.
#[derive(Debug, PartialEq)]
pub enum ExtractError {
    EmptyInput,
    MissingCredentials(String),
    Api(String),
    Parse(String),
}

pub enum ExtractErrorView {
    EmptyInput,
    MissingCredentials(Seq<char>),
    Api(Seq<char>),
    Parse(Seq<char>),
}

impl View for ExtractError {
    type V = ExtractErrorView;

    open spec fn view(&self) -> ExtractErrorView {
        match self {
            ExtractError::EmptyInput => ExtractErrorView::EmptyInput,
            ExtractError::MissingCredentials(what) => ExtractErrorView::MissingCredentials(what@),
            ExtractError::Api(err) => ExtractErrorView::Api(err@),
            ExtractError::Parse(err) => ExtractErrorView::Parse(err@),
        }
    }
}

/// The words for an error.
pub open spec fn error_text(e: ExtractError) -> Seq<char> {
    match e {
        ExtractError::EmptyInput => "input is empty"@,
        ExtractError::MissingCredentials(what) => "missing credentials: "@ + what@,
        ExtractError::Api(err) => "api error: "@ + err@,
        ExtractError::Parse(err) => "parse error: "@ + err@,
    }
}

impl ExtractError {
    /// The error in words.
    pub fn message(&self) -> (r: String)
        ensures
            r@ == error_text(*self),
    {
        match self {
            ExtractError::EmptyInput => "input is empty".to_owned(),
            ExtractError::MissingCredentials(what) => {
                let mut out = "missing credentials: ".to_owned();
                out.append(what.as_str());
                out
            },
            ExtractError::Api(err) => {
                let mut out = "api error: ".to_owned();
                out.append(err.as_str());
                out
            },
            ExtractError::Parse(err) => {
                let mut out = "parse error: ".to_owned();
                out.append(err.as_str());
                out
            },
        }
    }
}

/// A source of search jobs.
pub trait Extractor: Send {
    /// Which inputs belong to this extractor.
    open spec fn accepts(&self, input: Seq<char>) -> bool {
        arbitrary()
    }

    /// Which results it may give for an input. One that asks a network service may give more
    /// than one.
    open spec fn may_give(
        &self,
        input: Seq<char>,
        config: ConfigView,
        result: Result<Job, ExtractError>,
    ) -> bool {
        arbitrary()
    }

    /// Cheap syntactic test: does this input belong to this extractor?
    fn matches(&self, input: &str) -> (r: bool)
        ensures
            r == self.accepts(input@),
    ;

    /// Turns the input into jobs. May block on network calls.
    fn extract(&self, input: &str, config: &Config) -> (r: Result<Job, ExtractError>)
        ensures
            self.may_give(input@, config@, r),
    ;
}

/// Extractors in order of priority: the first that matches wins.
pub struct ExtractorRegistry<E> {
    extractors: Vec<E>,
}

/// Whether `i` is the first of the extractors that accepts the input.
pub open spec fn is_first_match<E: Extractor>(
    extractors: Seq<E>,
    input: Seq<char>,
    i: int,
) -> bool {
    &&& 0 <= i < extractors.len()
    &&& extractors[i].accepts(input)
    &&& forall|j: int| 0 <= j < i ==> !(#[trigger] extractors[j]).accepts(input)
}

/// Whether no extractor accepts the input.
pub open spec fn no_match<E: Extractor>(extractors: Seq<E>, input: Seq<char>) -> bool {
    forall|j: int| 0 <= j < extractors.len() ==> !(#[trigger] extractors[j]).accepts(input)
}

/// The results that a registry may give: an empty input is refused before any extractor is
/// asked, the first that accepts decides, and an input that none accepts is refused.
pub open spec fn registry_may_give<E: Extractor>(
    extractors: Seq<E>,
    input: Seq<char>,
    config: ConfigView,
    result: Result<Job, ExtractError>,
) -> bool {
    let text = trimmed(input);
    &&& text.len() == 0 ==> result == Err::<Job, ExtractError>(ExtractError::EmptyInput)
    &&& text.len() > 0 && no_match(extractors, text) ==> (result matches Err(
        ExtractError::Parse(e),
    ) && e@ == "no extractor matches this input"@)
    &&& forall|i: int|
        text.len() > 0 && #[trigger] is_first_match(extractors, text, i)
            ==> extractors[i].may_give(text, config, result)
}

impl<E: Extractor> ExtractorRegistry<E> {
    /// The extractors, first to be asked first.
    pub closed spec fn order(&self) -> Seq<E> {
        self.extractors@
    }

    pub fn new(extractors: Vec<E>) -> (r: Self)
        ensures
            r.order() == extractors@,
    {
        ExtractorRegistry { extractors }
    }

    /// Hands the trimmed input to the first extractor that accepts it.
    pub fn extract(&self, input: &str, config: &Config) -> (r: Result<Job, ExtractError>)
        ensures
            registry_may_give(self.order(), input@, config@, r),
    {
        let text = trim(input);
        if text.is_empty() {
            return Err(ExtractError::EmptyInput);
        }
        let mut i: usize = 0;
        while i < self.extractors.len()
            invariant
                i <= self.extractors@.len(),
                text@ == trimmed(input@),
                text@.len() > 0,
                forall|j: int| 0 <= j < i ==> !(#[trigger] self.extractors@[j]).accepts(text@),
            decreases self.extractors@.len() - i,
        {
            if self.extractors[i].matches(text) {
                let r = self.extractors[i].extract(text, config);
                assert(forall|k: int| #[trigger]
                    is_first_match(self.extractors@, text@, k) ==> k == i);
                return r;
            }
            i += 1;
        }
        Err(ExtractError::Parse("no extractor matches this input".to_owned()))
    }
}

/// Fallback: any input that is not empty becomes a single verbatim search.
pub struct PlainQueryExtractor;

/// The job for a plain text.
pub open spec fn plain_job(input: Seq<char>) -> JobView {
    JobView {
        source_label: "search: "@ + trimmed(input),
        searches: seq![
            SearchJobView {
                artist: None,
                title: None,
                album: None,
                raw_query: Some(trimmed(input)),
            },
        ],
        folder: None,
    }
}

impl Extractor for PlainQueryExtractor {
    open spec fn accepts(&self, input: Seq<char>) -> bool {
        trimmed(input).len() > 0
    }

    open spec fn may_give(
        &self,
        input: Seq<char>,
        config: ConfigView,
        result: Result<Job, ExtractError>,
    ) -> bool {
        result matches Ok(job) && job@ == plain_job(input)
    }

    fn matches(&self, input: &str) -> bool {
        !trim(input).is_empty()
    }

    fn extract(&self, input: &str, _config: &Config) -> (r: Result<Job, ExtractError>) {
        let query = trim(input).to_owned();
        let mut label = "search: ".to_owned();
        label.append(query.as_str());
        let search = SearchJob { artist: None, title: None, album: None, raw_query: Some(query) };
        let mut searches: Vec<SearchJob> = Vec::new();
        searches.push(search);
        let job = Job { source_label: label, searches, folder: None };
        assert(job@.searches =~= plain_job(input@).searches);
        Ok(job)
    }
}

/// An extractor of the standard set: one for links, or the plain-text fallback.
pub enum StandardExtractor<L> {
    Links(L),
    Plain(PlainQueryExtractor),
}

impl<L: Extractor> Extractor for StandardExtractor<L> {
    open spec fn accepts(&self, input: Seq<char>) -> bool {
        match self {
            StandardExtractor::Links(l) => l.accepts(input),
            StandardExtractor::Plain(p) => p.accepts(input),
        }
    }

    open spec fn may_give(
        &self,
        input: Seq<char>,
        config: ConfigView,
        result: Result<Job, ExtractError>,
    ) -> bool {
        match self {
            StandardExtractor::Links(l) => l.may_give(input, config, result),
            StandardExtractor::Plain(p) => p.may_give(input, config, result),
        }
    }

    fn matches(&self, input: &str) -> bool {
        match self {
            StandardExtractor::Links(l) => l.matches(input),
            StandardExtractor::Plain(p) => p.matches(input),
        }
    }

    fn extract(&self, input: &str, config: &Config) -> (r: Result<Job, ExtractError>) {
        match self {
            StandardExtractor::Links(l) => l.extract(input, config),
            StandardExtractor::Plain(p) => p.extract(input, config),
        }
    }
}

/// The extractors of the standard set, in their order.
pub open spec fn standard_order<L: Extractor>(links: L) -> Seq<StandardExtractor<L>> {
    seq![StandardExtractor::Links(links), StandardExtractor::Plain(PlainQueryExtractor)]
}

/// Whether an extractor takes exactly the links that Spotify gives out.
pub open spec fn takes_links<L: Extractor>(links: L) -> bool {
    forall|input: Seq<char>| #[trigger] links.accepts(input) == (spotify_ref(input) is Some)
}

impl<L: Extractor> ExtractorRegistry<StandardExtractor<L>> {
    /// The standard set: Spotify links first, plain text search as the fallback.
    pub fn standard(links: L) -> (r: Self)
        requires
            takes_links(links),
        ensures
            r.order() == standard_order(links),
    {
        let mut extractors: Vec<StandardExtractor<L>> = Vec::new();
        extractors.push(StandardExtractor::Links(links));
        extractors.push(StandardExtractor::Plain(PlainQueryExtractor));
        assert(extractors@ =~= standard_order(links));
        ExtractorRegistry::new(extractors)
    }
}

/// With the standard set every input that is not blank is handled: a Spotify link by the link
/// extractor, never as plain text; anything else as one verbatim search.
pub proof fn law_standard_handles_every_input<L: Extractor>(
    links: L,
    input: Seq<char>,
    config: ConfigView,
    result: Result<Job, ExtractError>,
)
    requires
        takes_links(links),
        registry_may_give(standard_order(links), input, config, result),
        trimmed(input).len() > 0,
    ensures
        spotify_ref(trimmed(input)) is Some ==> is_first_match(
            standard_order(links),
            trimmed(input),
            0,
        ) && links.may_give(trimmed(input), config, result),
        spotify_ref(trimmed(input)) is None ==> (result matches Ok(job) && job@ == plain_job(
            trimmed(input),
        )),
{
    let order = standard_order(links);
    let text = trimmed(input);
    if links.accepts(text) {
        assert(is_first_match(order, text, 0));
    } else {
        crate::text::lemma_trimmed_idempotent(input);
        assert(is_first_match(order, text, 1));
    }
}

/// Asks for an input to be extracted.
pub struct ExtractRequest {
    pub corr: u64,
    pub input: String,
}

/// The outcome of an extraction, in answer to request `corr`.
pub struct ExtractResult {
    pub corr: u64,
    pub result: Result<Job, String>,
}

/// Wraps the registry; keeps the settings that extractors read.
pub struct ExtractorComponent<E> {
    registry: ExtractorRegistry<E>,
    config: Config,
}

impl<L: Extractor> ExtractorComponent<StandardExtractor<L>> {
    /// The standard set, with the settings that the program starts with.
    pub fn new(ctx: &AppContext, links: L) -> (r: Self)
        requires
            takes_links(links),
        ensures
            r.order() == standard_order(links),
            r.settings() == ctx.config@,
    {
        ExtractorComponent {
            registry: ExtractorRegistry::standard(links),
            config: ctx.config.clone(),
        }
    }
}

impl<E: Extractor> ExtractorComponent<E> {
    pub closed spec fn order(&self) -> Seq<E> {
        self.registry.order()
    }

    pub closed spec fn settings(&self) -> ConfigView {
        self.config@
    }

    pub fn with_registry(registry: ExtractorRegistry<E>, config: Config) -> (r: Self)
        ensures
            r.order() == registry.order(),
            r.settings() == config@,
    {
        ExtractorComponent { registry, config }
    }

    /// Extracts, and answers with the job or with the error in words.
    pub fn extract_request(&self, message: &ExtractRequest) -> (r: ExtractResult)
        ensures
            r.corr == message.corr,
            exists|found: Result<Job, ExtractError>|
                #![trigger registry_may_give(self.order(), message.input@, self.settings(), found)]
                registry_may_give(self.order(), message.input@, self.settings(), found)
                    && match found {
                    Ok(job) => r.result == Ok::<Job, String>(job),
                    Err(e) => r.result matches Err(text) && text@ == error_text(e),
                },
    {
        let found = self.registry.extract(message.input.as_str(), &self.config);
        let ghost was = found;
        assert(registry_may_give(self.order(), message.input@, self.settings(), was));
        match found {
            Ok(job) => ExtractResult { corr: message.corr, result: Ok(job) },
            Err(e) => ExtractResult { corr: message.corr, result: Err(e.message()) },
        }
    }

    /// Later extractions go by the new settings.
    pub fn config_changed(&mut self, message: &ConfigChanged)
        ensures
            final(self).settings() == message.config@,
            final(self).order() == old(self).order(),
    {
        self.config = message.config.clone();
    }
}

/// A job is searched for by its verbatim query where it has one, else by all that it names of
/// artist and title, the artist first; the album plays no part.
pub proof fn law_a_job_is_searched_for_by_name(
    artist: Seq<char>,
    title: Seq<char>,
    album: Option<Seq<char>>,
    raw: Seq<char>,
    a: Option<Seq<char>>,
    t: Option<Seq<char>>,
)
    ensures
        query_of(SearchJobView { artist: a, title: t, album, raw_query: Some(raw) }) == raw,
        ({
            let q = query_of(
                SearchJobView { artist: Some(artist), title: Some(title), album, raw_query: None },
            );
            &&& q.len() == artist.len() + 1 + title.len()
            &&& q.take(artist.len() as int) == artist
            &&& q[artist.len() as int] == ' '
            &&& q.skip(artist.len() as int + 1) == title
        }),
        query_of(
            SearchJobView { artist: Some(artist), title: None, album, raw_query: None },
        ) == artist,
        query_of(
            SearchJobView { artist: None, title: Some(title), album, raw_query: None },
        ) == title,
        query_of(SearchJobView { artist: None, title: None, album, raw_query: None }).len() == 0,
{
    reveal_strlit(" ");
    let q = query_of(
        SearchJobView { artist: Some(artist), title: Some(title), album, raw_query: None },
    );
    assert(q.take(artist.len() as int) =~= artist);
    assert(q.skip(artist.len() as int + 1) =~= title);
}

/// A plain input is one search for just that, without the white space around it, and for no folder.
pub proof fn law_a_plain_input_is_searched_for_as_it_is(input: Seq<char>)
    ensures
        plain_job(input).searches.len() == 1,
        query_of(plain_job(input).searches[0]) == trimmed(input),
        plain_job(input).folder is None,
        plain_job(input).source_label == "search: "@ + trimmed(input),
{
}

/// What went wrong is told with what it was about.
pub proof fn law_errors_say_what_they_are_about(what: String)
    ensures
        error_text(ExtractError::MissingCredentials(what)) == "missing credentials: "@ + what@,
        error_text(ExtractError::Api(what)) == "api error: "@ + what@,
        error_text(ExtractError::Parse(what)) == "parse error: "@ + what@,
{
}

} // verus!
