//! Playlists, albums and tracks of Spotify, read page by page from its web service.
//!
//! The requests themselves are made outside: [`SpotifyExtractor`] says what to fetch next, and
//! takes what came back.
use vstd::prelude::*;
use vstd::string::*;

use crate::config::{Config, ConfigView};
use crate::extract::{
    ExtractError, ExtractErrorView, Job, JobView, SearchJob, SearchJobView,
};
use crate::json::{elements, field, first_element, number_of, text_of, Json};
use crate::text::{
    chars_of, first_index, group_views, index_from, nonempty, nonempty_text, ov, same, split_char,
    split_on, starts_with, string_of, strip_prefix, trim, trimmed, views,
};

verus! {

broadcast use group_views;

/// What a link points to.
#[derive(Debug, PartialEq, Eq)]
pub enum SpotifyRef {
    Playlist(String),
    Album(String),
    Track(String),
}

pub enum SpotifyRefView {
    Playlist(Seq<char>),
    Album(Seq<char>),
    Track(Seq<char>),
}

impl View for SpotifyRef {
    type V = SpotifyRefView;

    open spec fn view(&self) -> SpotifyRefView {
        match self {
            SpotifyRef::Playlist(id) => SpotifyRefView::Playlist(id@),
            SpotifyRef::Album(id) => SpotifyRefView::Album(id@),
            SpotifyRef::Track(id) => SpotifyRefView::Track(id@),
        }
    }
}

impl Clone for SpotifyRef {
    fn clone(&self) -> (r: Self)
        ensures
            r@ == self@,
    {
        match self {
            SpotifyRef::Playlist(id) => SpotifyRef::Playlist(id.clone()),
            SpotifyRef::Album(id) => SpotifyRef::Album(id.clone()),
            SpotifyRef::Track(id) => SpotifyRef::Track(id.clone()),
        }
    }
}

pub open spec fn is_ascii_alphanumeric(c: char) -> bool {
    '0' <= c <= '9' || 'a' <= c <= 'z' || 'A' <= c <= 'Z'
}

/// What a kind and an identifier point to. An identifier is made of ASCII letters and digits.
pub open spec fn ref_of(kind: Seq<char>, id: Seq<char>) -> Option<SpotifyRefView> {
    if id.len() == 0 || exists|i: int| 0 <= i < id.len() && !is_ascii_alphanumeric(#[trigger] id[i]) {
        None
    } else if kind == "playlist"@ {
        Some(SpotifyRefView::Playlist(id))
    } else if kind == "album"@ {
        Some(SpotifyRefView::Album(id))
    } else if kind == "track"@ {
        Some(SpotifyRefView::Track(id))
    } else {
        None
    }
}

/// `s` without `prefix`, where it starts with it.
pub open spec fn without(s: Seq<char>, prefix: Seq<char>) -> Seq<char> {
    if prefix.is_prefix_of(s) {
        s.skip(prefix.len() as int)
    } else {
        s
    }
}

/// A web address without its scheme.
pub open spec fn without_scheme(s: Seq<char>) -> Seq<char> {
    if "https://"@.is_prefix_of(s) {
        without(s, "https://"@)
    } else {
        without(s, "http://"@)
    }
}

/// What the parts of `spotify:{kind}:{id}` behind the first colon point to.
pub open spec fn ref_of_parts(parts: Seq<Seq<char>>) -> Option<SpotifyRefView> {
    if parts.len() < 2 {
        None
    } else {
        ref_of(parts[0], parts[1])
    }
}

/// What the segments of a path point to: kind and identifier, perhaps behind a language, the
/// identifier perhaps with a query.
pub open spec fn ref_of_segments(segments: Seq<Seq<char>>) -> Option<SpotifyRefView> {
    let k = if "intl-"@.is_prefix_of(segments[0]) {
        1int
    } else {
        0
    };
    if segments.len() < k + 2 {
        None
    } else {
        let id = segments[k + 1];
        ref_of(segments[k], id.take(first_index(id, '?') as int))
    }
}

/// What an input points to: `https://open.spotify.com/[intl-xx/]{playlist|album|track}/{id}[?...]`
/// or `spotify:{playlist|album|track}:{id}`.
pub open spec fn spotify_ref(input: Seq<char>) -> Option<SpotifyRefView> {
    let text = trimmed(input);
    if "spotify:"@.is_prefix_of(text) {
        ref_of_parts(split_on(without(text, "spotify:"@), ':'))
    } else {
        let rest = without_scheme(text);
        if "open.spotify.com/"@.is_prefix_of(rest) {
            ref_of_segments(split_on(without(rest, "open.spotify.com/"@), '/'))
        } else {
            None
        }
    }
}

pub open spec fn ref_view(r: Option<SpotifyRef>) -> Option<SpotifyRefView> {
    match r {
        Some(s) => Some(s@),
        None => None,
    }
}

fn make_ref(kind: &str, id: &str) -> (r: Option<SpotifyRef>)
    ensures
        ref_view(r) == ref_of(kind@, id@),
{
    if id.is_empty() {
        return None;
    }
    let v = chars_of(id);
    let mut i: usize = 0;
    while i < v.len()
        invariant
            i <= v@.len(),
            v@ == id@,
            forall|j: int| 0 <= j < i ==> is_ascii_alphanumeric(#[trigger] v@[j]),
        decreases v@.len() - i,
    {
        let c = v[i];
        if !(('0' <= c && c <= '9') || ('a' <= c && c <= 'z') || ('A' <= c && c <= 'Z')) {
            assert(!is_ascii_alphanumeric(id@[i as int]));
            return None;
        }
        i += 1;
    }
    if same(kind, "playlist") {
        Some(SpotifyRef::Playlist(id.to_owned()))
    } else if same(kind, "album") {
        Some(SpotifyRef::Album(id.to_owned()))
    } else if same(kind, "track") {
        Some(SpotifyRef::Track(id.to_owned()))
    } else {
        None
    }
}

fn before_query(s: &str) -> (r: String)
    ensures
        r@ == s@.take(first_index(s@, '?') as int),
{
    let v = chars_of(s);
    assert(v@.skip(0) =~= v@);
    let k = index_from(&v, 0, '?');
    let r = string_of(&v, 0, k);
    assert(r@ =~= s@.take(k as int));
    r
}

/// Reads a link or a URI.
pub fn parse_spotify_ref(input: &str) -> (r: Option<SpotifyRef>)
    ensures
        ref_view(r) == spotify_ref(input@),
{
    let text = trim(input);
    if let Some(rest) = strip_prefix(text, "spotify:") {
        let parts = split_char(rest, ':');
        assert(views(parts@) == split_on(rest@, ':'));
        if parts.len() < 2 {
            return None;
        }
        return make_ref(parts[0].as_str(), parts[1].as_str());
    }
    let rest = match strip_prefix(text, "https://") {
        Some(rest) => rest,
        None => match strip_prefix(text, "http://") {
            Some(rest) => rest,
            None => text,
        },
    };
    assert(rest@ == without_scheme(text@));
    match strip_prefix(rest, "open.spotify.com/") {
        Some(path) => {
            let segments = split_char(path, '/');
            assert(views(segments@) == split_on(path@, '/'));
            let mut k: usize = 0;
            if starts_with(segments[0].as_str(), "intl-") {
                k = 1;
            }
            if segments.len() < k + 2 {
                return None;
            }
            let id = before_query(segments[k + 1].as_str());
            make_ref(segments[k].as_str(), id.as_str())
        },
        None => None,
    }
}

/// A token of the web service, and the time, in nanoseconds, up to which it is used.
pub struct SpotifyToken {
    pub access_token: String,
    pub expires_at: u128,
}

pub struct SpotifyTokenView {
    pub access_token: Seq<char>,
    pub expires_at: u128,
}

impl View for SpotifyToken {
    type V = SpotifyTokenView;

    open spec fn view(&self) -> SpotifyTokenView {
        SpotifyTokenView { access_token: self.access_token@, expires_at: self.expires_at }
    }
}

/// How long, in seconds, a token is used that is good for `expires_in`: a minute less, so that no
/// request races its end; where the service does not say, it is good for an hour.
pub open spec fn lifetime(expires_in: Option<u64>) -> int {
    let secs = match expires_in {
        Some(secs) => secs as int,
        None => 3600,
    };
    if secs > 60 {
        secs - 60
    } else {
        0
    }
}

/// The token in a response that came at the time `now`.
pub fn token_from_json(response: &Json, now: u64) -> (r: Result<SpotifyToken, String>)
    ensures
        match text_of(field(*response, "access_token"@)) {
            Some(token) => r matches Ok(t) && t.access_token@ == token && t.expires_at == now
                + lifetime(number_of(field(*response, "expires_in"@))) * 1_000_000_000,
            None => r matches Err(e) && e@ == "token response missing access_token"@,
        },
{
    match response.member_text("access_token") {
        Some(token) => {
            let secs: u64 = match response.member_number("expires_in") {
                Some(secs) => secs,
                None => 3600,
            };
            let used: u64 = if secs > 60 {
                secs - 60
            } else {
                0
            };
            let expires_at: u128 = now as u128 + used as u128 * 1_000_000_000;
            Ok(SpotifyToken { access_token: token.to_owned(), expires_at })
        },
        None => Err("token response missing access_token".to_owned()),
    }
}

/// Whether the service granted a token, as the test of a pair of keys needs to know.
pub fn token_granted(response: &Json) -> (r: Result<(), String>)
    ensures
        match text_of(field(*response, "access_token"@)) {
            Some(_) => r is Ok,
            None => r matches Err(e) && e@ == "token response missing access_token"@,
        },
{
    match response.member_text("access_token") {
        Some(_) => Ok(()),
        None => Err("token response missing access_token".to_owned()),
    }
}

/// The search for a track: its title, its first artist, and the album given, or else its own. A
/// track without a title gives none.
pub open spec fn track_search(track: Json, album: Option<Seq<char>>) -> Option<SearchJobView> {
    match text_of(field(track, "name"@)) {
        Some(title) => Some(
            SearchJobView {
                artist: text_of(field(first_element(field(track, "artists"@)), "name"@)),
                title: Some(title),
                album: match album {
                    Some(name) => Some(name),
                    None => text_of(field(field(track, "album"@), "name"@)),
                },
                raw_query: None,
            },
        ),
        None => None,
    }
}

pub open spec fn search_view(r: Option<SearchJob>) -> Option<SearchJobView> {
    match r {
        Some(s) => Some(s@),
        None => None,
    }
}

fn owned(s: Option<&str>) -> (r: Option<String>)
    ensures
        match s {
            Some(t) => ov(r) == Some(t@),
            None => r is None,
        },
{
    match s {
        Some(t) => Some(t.to_owned()),
        None => None,
    }
}

/// The search for a track.
pub fn track_job(track: &Json, album: Option<&str>) -> (r: Option<SearchJob>)
    ensures
        search_view(r) == track_search(
            *track,
            match album {
                Some(name) => Some(name@),
                None => None,
            },
        ),
{
    let title = match track.member_text("name") {
        Some(title) => title.to_owned(),
        None => {
            return None;
        },
    };
    let artist = match track.member_elements("artists") {
        Some(artists) => if artists.len() > 0 {
            owned(artists[0].member_text("name"))
        } else {
            None
        },
        None => None,
    };
    let album = match album {
        Some(name) => Some(name.to_owned()),
        None => match track.member("album") {
            Some(a) => owned(a.member_text("name")),
            None => None,
        },
    };
    Some(SearchJob { artist, title: Some(title), album, raw_query: None })
}

/// The searches for the first tracks of a page. On a page of a playlist the items wrap the
/// tracks; what is no track of the service is left out.
pub open spec fn page_searches(
    items: Seq<Json>,
    album: Option<Seq<char>>,
    wrapped: bool,
) -> Seq<SearchJobView>
    decreases items.len(),
{
    if items.len() == 0 {
        Seq::empty()
    } else {
        let before = page_searches(items.drop_last(), album, wrapped);
        let track = if wrapped {
            field(items.last(), "track"@)
        } else {
            items.last()
        };
        match track_search(track, album) {
            Some(search) => if wrapped && !(track is Object) {
                before
            } else {
                before.push(search)
            },
            None => before,
        }
    }
}

/// Adds the searches for the tracks of a page.
fn add_page(page: &Json, album: Option<&str>, wrapped: bool, searches: &mut Vec<SearchJob>)
    ensures
        views(final(searches)@) == views(old(searches)@) + page_searches(
            elements(field(*page, "items"@)),
            match album {
                Some(name) => Some(name@),
                None => None,
            },
            wrapped,
        ),
{
    let ghost name: Option<Seq<char>> = match album {
        Some(name) => Some(name@),
        None => None,
    };
    let ghost before = views(searches@);
    match page.member_elements("items") {
        Some(items) => {
            let mut i: usize = 0;
            assert(views(searches@) =~= before + page_searches(items@.take(0), name, wrapped));
            while i < items.len()
                invariant
                    i <= items@.len(),
                    name == (match album {
                        Some(name) => Some(name@),
                        None => None,
                    }),
                    views(searches@) == before + page_searches(
                        items@.take(i as int),
                        name,
                        wrapped,
                    ),
                decreases items@.len() - i,
            {
                let ghost so_far = views(searches@);
                proof {
                    assert(items@.take(i + 1).drop_last() =~= items@.take(i as int));
                    assert(items@.take(i + 1).last() == items@[i as int]);
                }
                if wrapped {
                    match items[i].member("track") {
                        Some(track) => match track {
                            Json::Object(_) => match track_job(track, album) {
                                Some(job) => {
                                    searches.push(job);
                                    assert(views(searches@) =~= so_far.push(job@));
                                },
                                None => {},
                            },
                            _ => {},
                        },
                        None => {},
                    }
                } else {
                    match track_job(&items[i], album) {
                        Some(job) => {
                            searches.push(job);
                            assert(views(searches@) =~= so_far.push(job@));
                        },
                        None => {},
                    }
                }
                i += 1;
                assert(views(searches@) =~= before + page_searches(
                    items@.take(i as int),
                    name,
                    wrapped,
                ));
            }
            assert(items@.take(i as int) =~= items@);
        },
        None => {
            assert(views(searches@) =~= before + page_searches(Seq::empty(), name, wrapped));
        },
    }
}

/// How far an extraction has come.
enum Stage {
    Idle,
    /// A token was asked for.
    Token(SpotifyRef),
    Track(String),
    Album(String),
    AlbumPages { name: String, searches: Vec<SearchJob> },
    Playlist(String),
    PlaylistPages { name: String, searches: Vec<SearchJob> },
}

#[allow(inconsistent_fields)]
#[verifier::ext_equal]
pub enum StageView {
    Idle,
    Token(SpotifyRefView),
    Track(Seq<char>),
    Album(Seq<char>),
    AlbumPages { name: Seq<char>, searches: Seq<SearchJobView> },
    Playlist(Seq<char>),
    PlaylistPages { name: Seq<char>, searches: Seq<SearchJobView> },
}

impl View for Stage {
    type V = StageView;

    closed spec fn view(&self) -> StageView {
        match self {
            Stage::Idle => StageView::Idle,
            Stage::Token(r) => StageView::Token(r@),
            Stage::Track(id) => StageView::Track(id@),
            Stage::Album(id) => StageView::Album(id@),
            Stage::AlbumPages { name, searches } => StageView::AlbumPages {
                name: name@,
                searches: views(searches@),
            },
            Stage::Playlist(id) => StageView::Playlist(id@),
            Stage::PlaylistPages { name, searches } => StageView::PlaylistPages {
                name: name@,
                searches: views(searches@),
            },
        }
    }
}

/// What an extraction needs next.
pub enum SpotifyStep {
    /// Nothing: no extraction waits for this.
    Nothing,
    /// A token for these keys.
    FetchToken { client_id: String, client_secret: String },
    /// The JSON at this address.
    Fetch { token: String, url: String },
    Done(Result<Job, ExtractError>),
}

#[verifier::ext_equal]
pub enum SpotifyStepView {
    Nothing,
    FetchToken { client_id: Seq<char>, client_secret: Seq<char> },
    Fetch { token: Seq<char>, url: Seq<char> },
    Done(Result<JobView, ExtractErrorView>),
}

impl View for SpotifyStep {
    type V = SpotifyStepView;

    open spec fn view(&self) -> SpotifyStepView {
        match self {
            SpotifyStep::Nothing => SpotifyStepView::Nothing,
            SpotifyStep::FetchToken { client_id, client_secret } => SpotifyStepView::FetchToken {
                client_id: client_id@,
                client_secret: client_secret@,
            },
            SpotifyStep::Fetch { token, url } => SpotifyStepView::Fetch {
                token: token@,
                url: url@,
            },
            SpotifyStep::Done(Ok(job)) => SpotifyStepView::Done(Ok(job@)),
            SpotifyStep::Done(Err(e)) => SpotifyStepView::Done(Err(e@)),
        }
    }
}

/// Extracts what Spotify links point to. Keeps the token for as long as it is good.
pub struct SpotifyExtractor {
    cache: Option<SpotifyToken>,
    access: String,
    stage: Stage,
}

#[verifier::ext_equal]
pub struct SpotifyModel {
    /// The token of earlier extractions.
    pub cache: Option<SpotifyTokenView>,
    /// The token of this extraction.
    pub access: Seq<char>,
    pub stage: StageView,
}

impl View for SpotifyExtractor {
    type V = SpotifyModel;

    closed spec fn view(&self) -> SpotifyModel {
        SpotifyModel {
            cache: match self.cache {
                Some(t) => Some(t@),
                None => None,
            },
            access: self.access@,
            stage: self.stage@,
        }
    }
}

pub const TRACKS: &'static str = "https://api.spotify.com/v1/tracks/";

pub const ALBUMS: &'static str = "https://api.spotify.com/v1/albums/";

pub const PLAYLISTS: &'static str = "https://api.spotify.com/v1/playlists/";

/// An extraction that ended.
pub open spec fn ended(m: SpotifyModel, result: Result<JobView, ExtractErrorView>) -> (
    SpotifyModel,
    SpotifyStepView,
) {
    (SpotifyModel { stage: StageView::Idle, ..m }, SpotifyStepView::Done(result))
}

/// An extraction that goes on with a request.
pub open spec fn fetching(m: SpotifyModel, stage: StageView, url: Seq<char>) -> (
    SpotifyModel,
    SpotifyStepView,
) {
    (SpotifyModel { stage, ..m }, SpotifyStepView::Fetch { token: m.access, url })
}

/// The first request with a token.
pub open spec fn started(m: SpotifyModel, access: Seq<char>, r: SpotifyRefView) -> (
    SpotifyModel,
    SpotifyStepView,
) {
    let m = SpotifyModel { access, ..m };
    match r {
        SpotifyRefView::Track(id) => fetching(m, StageView::Track(id), TRACKS@ + id),
        SpotifyRefView::Album(id) => fetching(m, StageView::Album(id), ALBUMS@ + id),
        SpotifyRefView::Playlist(id) => fetching(
            m,
            StageView::Playlist(id),
            PLAYLISTS@ + id + "?fields=name"@,
        ),
    }
}

/// An extraction begins at the time `now`.
pub open spec fn on_begin(
    m: SpotifyModel,
    input: Seq<char>,
    config: ConfigView,
    now: u64,
) -> (SpotifyModel, SpotifyStepView) {
    match spotify_ref(input) {
        None => ended(m, Err(ExtractErrorView::Parse("not a spotify url"@))),
        Some(r) => match (
            nonempty(config.spotify.client_id),
            nonempty(config.spotify.client_secret),
        ) {
            (None, _) => ended(
                m,
                Err(
                    ExtractErrorView::MissingCredentials(
                        "spotify.client_id is not configured (see /config)"@,
                    ),
                ),
            ),
            (_, None) => ended(
                m,
                Err(
                    ExtractErrorView::MissingCredentials(
                        "spotify.client_secret is not configured (see /config)"@,
                    ),
                ),
            ),
            (Some(client_id), Some(client_secret)) => match m.cache {
                Some(t) if t.expires_at > now => started(m, t.access_token, r),
                _ => (
                    SpotifyModel { stage: StageView::Token(r), ..m },
                    SpotifyStepView::FetchToken { client_id, client_secret },
                ),
            },
        },
    }
}

/// The token that was asked for came, or did not.
pub open spec fn on_token(m: SpotifyModel, reply: Result<SpotifyTokenView, Seq<char>>) -> (
    SpotifyModel,
    SpotifyStepView,
) {
    match m.stage {
        StageView::Token(r) => match reply {
            Ok(t) => started(SpotifyModel { cache: Some(t), ..m }, t.access_token, r),
            Err(e) => ended(m, Err(ExtractErrorView::Api(e))),
        },
        _ => (m, SpotifyStepView::Nothing),
    }
}

/// The name in a response, or the identifier it was asked for by.
pub open spec fn name_or(response: Json, id: Seq<char>) -> Seq<char> {
    match text_of(field(response, "name"@)) {
        Some(name) => name,
        None => id,
    }
}

/// The searches once another page of an album came.
pub open spec fn with_album_page(
    searches: Seq<SearchJobView>,
    name: Seq<char>,
    page: Json,
) -> Seq<SearchJobView> {
    searches + page_searches(elements(field(page, "items"@)), Some(name), false)
}

/// The searches once another page of a playlist came.
pub open spec fn with_playlist_page(searches: Seq<SearchJobView>, page: Json) -> Seq<
    SearchJobView,
> {
    searches + page_searches(elements(field(page, "items"@)), None, true)
}

pub open spec fn album_job(name: Seq<char>, searches: Seq<SearchJobView>) -> JobView {
    JobView { source_label: "spotify album: "@ + name, searches, folder: Some(name) }
}

pub open spec fn playlist_job(name: Seq<char>, searches: Seq<SearchJobView>) -> JobView {
    JobView { source_label: "spotify playlist: "@ + name, searches, folder: Some(name) }
}

/// A page of an album came: on to the next, or done.
pub open spec fn on_album_page(
    m: SpotifyModel,
    name: Seq<char>,
    searches: Seq<SearchJobView>,
    page: Json,
) -> (SpotifyModel, SpotifyStepView) {
    let all = with_album_page(searches, name, page);
    match text_of(field(page, "next"@)) {
        Some(next) => fetching(m, StageView::AlbumPages { name, searches: all }, next),
        None => ended(m, Ok(album_job(name, all))),
    }
}

/// A page of a playlist came: on to the next, or done.
pub open spec fn on_playlist_page(
    m: SpotifyModel,
    name: Seq<char>,
    searches: Seq<SearchJobView>,
    page: Json,
) -> (SpotifyModel, SpotifyStepView) {
    let all = with_playlist_page(searches, page);
    match text_of(field(page, "next"@)) {
        Some(next) => fetching(m, StageView::PlaylistPages { name, searches: all }, next),
        None => ended(m, Ok(playlist_job(name, all))),
    }
}

/// The response to a request for a track.
pub open spec fn on_track(m: SpotifyModel, track: Json) -> (SpotifyModel, SpotifyStepView) {
    match track_search(track, None) {
        Some(search) => ended(
            m,
            Ok(
                JobView {
                    source_label: "spotify track: "@ + search.title->0,
                    searches: seq![search],
                    folder: None,
                },
            ),
        ),
        None => ended(m, Err(ExtractErrorView::Parse("track response missing name"@))),
    }
}

/// What was fetched came, or did not.
pub open spec fn on_page(m: SpotifyModel, reply: Result<Json, Seq<char>>) -> (
    SpotifyModel,
    SpotifyStepView,
) {
    if m.stage is Idle || m.stage is Token {
        (m, SpotifyStepView::Nothing)
    } else {
        match reply {
            Err(e) => ended(m, Err(ExtractErrorView::Api(e))),
            Ok(page) => match m.stage {
                StageView::Track(id) => on_track(m, page),
                StageView::Album(id) => on_album_page(
                    m,
                    name_or(page, id),
                    Seq::empty(),
                    field(page, "tracks"@),
                ),
                StageView::AlbumPages { name, searches } => on_album_page(m, name, searches, page),
                StageView::Playlist(id) => fetching(
                    m,
                    StageView::PlaylistPages { name: name_or(page, id), searches: Seq::empty() },
                    PLAYLISTS@ + id + "/tracks?limit=100"@,
                ),
                StageView::PlaylistPages { name, searches } => on_playlist_page(
                    m,
                    name,
                    searches,
                    page,
                ),
                _ => (m, SpotifyStepView::Nothing),
            },
        }
    }
}

pub open spec fn token_reply(reply: Result<SpotifyToken, String>) -> Result<
    SpotifyTokenView,
    Seq<char>,
> {
    match reply {
        Ok(t) => Ok(t@),
        Err(e) => Err(e@),
    }
}

pub open spec fn page_reply(reply: Result<Json, String>) -> Result<Json, Seq<char>> {
    match reply {
        Ok(page) => Ok(page),
        Err(e) => Err(e@),
    }
}

fn name_of(response: &Json, id: &str) -> (r: String)
    ensures
        r@ == name_or(*response, id@),
{
    match response.member_text("name") {
        Some(name) => name.to_owned(),
        None => id.to_owned(),
    }
}

fn labelled(prefix: &str, name: &str) -> (r: String)
    ensures
        r@ == prefix@ + name@,
{
    let mut out = prefix.to_owned();
    out.append(name);
    out
}

impl SpotifyExtractor {
    pub fn new() -> (r: SpotifyExtractor)
        ensures
            r@.cache is None,
            r@.stage is Idle,
            r@.access == ""@,
    {
        SpotifyExtractor { cache: None, access: "".to_owned(), stage: Stage::Idle }
    }

    fn end(&mut self, result: Result<Job, ExtractError>) -> (step: SpotifyStep)
        ensures
            (final(self)@, step@) == ended(
                old(self)@,
                match result {
                    Ok(job) => Ok(job@),
                    Err(e) => Err(e@),
                },
            ),
    {
        self.stage = Stage::Idle;
        SpotifyStep::Done(result)
    }

    fn fetch(&mut self, stage: Stage, url: String) -> (step: SpotifyStep)
        ensures
            (final(self)@, step@) == fetching(old(self)@, stage@, url@),
    {
        self.stage = stage;
        SpotifyStep::Fetch { token: self.access.clone(), url }
    }

    fn start(&mut self, access: String, r: SpotifyRef) -> (step: SpotifyStep)
        ensures
            (final(self)@, step@) == started(old(self)@, access@, r@),
    {
        self.access = access;
        match r {
            SpotifyRef::Track(id) => {
                let url = labelled(TRACKS, id.as_str());
                self.fetch(Stage::Track(id), url)
            },
            SpotifyRef::Album(id) => {
                let url = labelled(ALBUMS, id.as_str());
                self.fetch(Stage::Album(id), url)
            },
            SpotifyRef::Playlist(id) => {
                let mut url = labelled(PLAYLISTS, id.as_str());
                url.append("?fields=name");
                self.fetch(Stage::Playlist(id), url)
            },
        }
    }

    /// Whether an input is a link that this extractor reads.
    pub fn matches(&self, input: &str) -> (r: bool)
        ensures
            r == spotify_ref(input@) is Some,
    {
        parse_spotify_ref(input).is_some()
    }

    /// Begins to extract what an input points to. `now` is the time, in nanoseconds.
    pub fn begin(&mut self, input: &str, config: &Config, now: u64) -> (step: SpotifyStep)
        ensures
            (final(self)@, step@) == on_begin(old(self)@, input@, config@, now),
    {
        let r = match parse_spotify_ref(input) {
            Some(r) => r,
            None => {
                return self.end(Err(ExtractError::Parse("not a spotify url".to_owned())));
            },
        };
        let client_id = match nonempty_text(&config.spotify.client_id) {
            Some(id) => id.to_owned(),
            None => {
                return self.end(
                    Err(
                        ExtractError::MissingCredentials(
                            "spotify.client_id is not configured (see /config)".to_owned(),
                        ),
                    ),
                );
            },
        };
        let client_secret = match nonempty_text(&config.spotify.client_secret) {
            Some(secret) => secret.to_owned(),
            None => {
                return self.end(
                    Err(
                        ExtractError::MissingCredentials(
                            "spotify.client_secret is not configured (see /config)".to_owned(),
                        ),
                    ),
                );
            },
        };
        let cached = match &self.cache {
            Some(t) => if t.expires_at > now as u128 {
                Some(t.access_token.clone())
            } else {
                None
            },
            None => None,
        };
        match cached {
            Some(access) => self.start(access, r),
            None => {
                self.stage = Stage::Token(r);
                SpotifyStep::FetchToken { client_id, client_secret }
            },
        }
    }

    /// Takes the answer to a request for a token.
    pub fn token(&mut self, reply: Result<SpotifyToken, String>) -> (step: SpotifyStep)
        ensures
            (final(self)@, step@) == on_token(old(self)@, token_reply(reply)),
    {
        let mut stage = Stage::Idle;
        std::mem::swap(&mut stage, &mut self.stage);
        match stage {
            Stage::Token(r) => match reply {
                Ok(t) => {
                    let access = t.access_token.clone();
                    self.cache = Some(t);
                    self.start(access, r)
                },
                Err(e) => self.end(Err(ExtractError::Api(e))),
            },
            other => {
                self.stage = other;
                SpotifyStep::Nothing
            },
        }
    }

    fn album_page(&mut self, name: String, searches: Vec<SearchJob>, page: &Json) -> (step:
        SpotifyStep)
        ensures
            (final(self)@, step@) == on_album_page(old(self)@, name@, views(searches@), *page),
    {
        let mut all = searches;
        add_page(page, Some(name.as_str()), false, &mut all);
        match page.member_text("next") {
            Some(next) => self.fetch(
                Stage::AlbumPages { name, searches: all },
                next.to_owned(),
            ),
            None => {
                let source_label = labelled("spotify album: ", name.as_str());
                self.end(Ok(Job { source_label, searches: all, folder: Some(name) }))
            },
        }
    }

    fn playlist_page(&mut self, name: String, searches: Vec<SearchJob>, page: &Json) -> (step:
        SpotifyStep)
        ensures
            (final(self)@, step@) == on_playlist_page(old(self)@, name@, views(searches@), *page),
    {
        let mut all = searches;
        add_page(page, None, true, &mut all);
        match page.member_text("next") {
            Some(next) => self.fetch(
                Stage::PlaylistPages { name, searches: all },
                next.to_owned(),
            ),
            None => {
                let source_label = labelled("spotify playlist: ", name.as_str());
                self.end(Ok(Job { source_label, searches: all, folder: Some(name) }))
            },
        }
    }

    fn track(&mut self, track: &Json) -> (step: SpotifyStep)
        ensures
            (final(self)@, step@) == on_track(old(self)@, *track),
    {
        match track_job(track, None) {
            Some(job) => {
                let source_label = match &job.title {
                    Some(title) => labelled("spotify track: ", title.as_str()),
                    None => "spotify track: ".to_owned(),
                };
                let ghost search = job@;
                let mut searches: Vec<SearchJob> = Vec::new();
                searches.push(job);
                assert(views(searches@) =~= seq![search]);
                self.end(Ok(Job { source_label, searches, folder: None }))
            },
            None => self.end(
                Err(ExtractError::Parse("track response missing name".to_owned())),
            ),
        }
    }

    /// Takes the answer to a request for JSON.
    pub fn page(&mut self, reply: Result<Json, String>) -> (step: SpotifyStep)
        ensures
            (final(self)@, step@) == on_page(old(self)@, page_reply(reply)),
    {
        let mut stage = Stage::Idle;
        std::mem::swap(&mut stage, &mut self.stage);
        match stage {
            Stage::Idle => {
                return SpotifyStep::Nothing;
            },
            Stage::Token(r) => {
                self.stage = Stage::Token(r);
                return SpotifyStep::Nothing;
            },
            _ => {},
        }
        let page = match reply {
            Ok(page) => page,
            Err(e) => {
                return self.end(Err(ExtractError::Api(e)));
            },
        };
        match stage {
            Stage::Track(_) => self.track(&page),
            Stage::Album(id) => {
                let name = name_of(&page, id.as_str());
                let nothing = Json::Null;
                let tracks = match page.member("tracks") {
                    Some(tracks) => tracks,
                    None => &nothing,
                };
                let none: Vec<SearchJob> = Vec::new();
                assert(views(none@) =~= Seq::empty());
                self.album_page(name, none, tracks)
            },
            Stage::AlbumPages { name, searches } => self.album_page(name, searches, &page),
            Stage::Playlist(id) => {
                let name = name_of(&page, id.as_str());
                let mut url = labelled(PLAYLISTS, id.as_str());
                url.append("/tracks?limit=100");
                let none: Vec<SearchJob> = Vec::new();
                assert(views(none@) =~= Seq::empty());
                self.fetch(Stage::PlaylistPages { name, searches: none }, url)
            },
            Stage::PlaylistPages { name, searches } => self.playlist_page(name, searches, &page),
            _ => SpotifyStep::Nothing,
        }
    }
}

/// Where an extraction stands, and what it needs, once these pages came one after the other.
pub open spec fn fed(m: SpotifyModel, step: SpotifyStepView, pages: Seq<Json>) -> (
    SpotifyModel,
    SpotifyStepView,
)
    decreases pages.len(),
{
    if pages.len() == 0 {
        (m, step)
    } else {
        let (next, wanted) = on_page(m, Ok(pages[0]));
        fed(next, wanted, pages.skip(1))
    }
}

/// Whether each page but the last names a next one.
pub open spec fn chained(pages: Seq<Json>) -> bool {
    &&& pages.len() > 0
    &&& text_of(field(pages.last(), "next"@)) is None
    &&& forall|i: int|
        0 <= i < pages.len() - 1 ==> text_of(field(#[trigger] pages[i], "next"@)) is Some
}

/// The searches on pages of an album, in their order.
pub open spec fn album_searches(name: Seq<char>, pages: Seq<Json>) -> Seq<SearchJobView>
    decreases pages.len(),
{
    if pages.len() == 0 {
        Seq::empty()
    } else {
        page_searches(elements(field(pages[0], "items"@)), Some(name), false) + album_searches(
            name,
            pages.skip(1),
        )
    }
}

/// The searches on pages of a playlist, in their order.
pub open spec fn playlist_searches(pages: Seq<Json>) -> Seq<SearchJobView>
    decreases pages.len(),
{
    if pages.len() == 0 {
        Seq::empty()
    } else {
        page_searches(elements(field(pages[0], "items"@)), None, true) + playlist_searches(
            pages.skip(1),
        )
    }
}

/// The pages of an album are followed to the last: the job holds the searches of all of them, in
/// their order, each with the album's name.
pub proof fn law_albums_are_read_to_the_end(
    m: SpotifyModel,
    step: SpotifyStepView,
    name: Seq<char>,
    searches: Seq<SearchJobView>,
    pages: Seq<Json>,
)
    requires
        m.stage == (StageView::AlbumPages { name, searches }),
        chained(pages),
    ensures
        fed(m, step, pages).1 == SpotifyStepView::Done(
            Ok(album_job(name, searches + album_searches(name, pages))),
        ),
    decreases pages.len(),
{
    let all = with_album_page(searches, name, pages[0]);
    let (next, wanted) = on_page(m, Ok(pages[0]));
    let rest = pages.skip(1);
    assert(searches + album_searches(name, pages) =~= all + album_searches(name, rest));
    if pages.len() == 1 {
        assert(pages.last() == pages[0]);
        assert(all + album_searches(name, rest) =~= all);
        assert(fed(next, wanted, rest) == (next, wanted));
    } else {
        assert(rest.last() == pages.last());
        assert forall|i: int| 0 <= i < rest.len() - 1 implies text_of(
            field(#[trigger] rest[i], "next"@),
        ) is Some by {
            assert(rest[i] == pages[i + 1]);
        }
        law_albums_are_read_to_the_end(next, wanted, name, all, rest);
    }
}

/// The pages of a playlist are followed to the last: the job holds the searches of all of them,
/// in their order.
pub proof fn law_playlists_are_read_to_the_end(
    m: SpotifyModel,
    step: SpotifyStepView,
    name: Seq<char>,
    searches: Seq<SearchJobView>,
    pages: Seq<Json>,
)
    requires
        m.stage == (StageView::PlaylistPages { name, searches }),
        chained(pages),
    ensures
        fed(m, step, pages).1 == SpotifyStepView::Done(
            Ok(playlist_job(name, searches + playlist_searches(pages))),
        ),
    decreases pages.len(),
{
    let all = with_playlist_page(searches, pages[0]);
    let (next, wanted) = on_page(m, Ok(pages[0]));
    let rest = pages.skip(1);
    assert(searches + playlist_searches(pages) =~= all + playlist_searches(rest));
    if pages.len() == 1 {
        assert(pages.last() == pages[0]);
        assert(all + playlist_searches(rest) =~= all);
        assert(fed(next, wanted, rest) == (next, wanted));
    } else {
        assert(rest.last() == pages.last());
        assert forall|i: int| 0 <= i < rest.len() - 1 implies text_of(
            field(#[trigger] rest[i], "next"@),
        ) is Some by {
            assert(rest[i] == pages[i + 1]);
        }
        law_playlists_are_read_to_the_end(next, wanted, name, all, rest);
    }
}

/// A token is asked for once: what follows in an extraction keeps it, and no later extraction asks
/// for another while it is good.
pub proof fn law_tokens_are_kept(
    m: SpotifyModel,
    reply: Result<Json, Seq<char>>,
    input: Seq<char>,
    config: ConfigView,
    now: u64,
)
    requires
        m.cache matches Some(t) && t.expires_at > now,
    ensures
        on_page(m, reply).0.cache == m.cache,
        on_begin(m, input, config, now).0.cache == m.cache,
        !(on_begin(m, input, config, now).1 is FetchToken),
{
}

/// Nothing is asked of the service for an input that is no link, or without both keys.
pub proof fn law_nothing_is_fetched_without_keys(
    m: SpotifyModel,
    input: Seq<char>,
    config: ConfigView,
    now: u64,
)
    requires
        spotify_ref(input) is None || nonempty(config.spotify.client_id) is None || nonempty(
            config.spotify.client_secret,
        ) is None,
    ensures
        on_begin(m, input, config, now).1 matches SpotifyStepView::Done(r) && r is Err,
{
}

/// The searches of two runs of items, one behind the other, are those of the one and those of the
/// other.
pub proof fn law_pages_add_up(a: Seq<Json>, b: Seq<Json>, album: Option<Seq<char>>, wrapped: bool)
    ensures
        page_searches(a + b, album, wrapped) == page_searches(a, album, wrapped) + page_searches(
            b,
            album,
            wrapped,
        ),
    decreases b.len(),
{
    if b.len() == 0 {
        assert(a + b =~= a);
        assert(page_searches(a, album, wrapped) + page_searches(b, album, wrapped)
            =~= page_searches(a, album, wrapped));
    } else {
        law_pages_add_up(a, b.drop_last(), album, wrapped);
        assert((a + b).drop_last() =~= a + b.drop_last());
        assert((a + b).last() == b.last());
        assert(page_searches(a + b, album, wrapped) =~= page_searches(a, album, wrapped)
            + page_searches(b, album, wrapped));
    }
}

/// Whether a search asks for a track by its title, its first artist and an album.
pub open spec fn asks_for(
    search: SearchJobView,
    track: Json,
    album: Option<Seq<char>>,
) -> bool {
    &&& search.title == text_of(field(track, "name"@))
    &&& search.artist == (if elements(field(track, "artists"@)).len() == 0 {
        None
    } else {
        text_of(field(elements(field(track, "artists"@))[0], "name"@))
    })
    &&& search.album == album
    &&& search.raw_query is None
}

/// Every track of an album's page that has a name is searched for, once and in the order of the
/// page, by its own title and artist and the album's name.
pub proof fn law_every_track_of_an_album_is_searched_for(items: Seq<Json>, album: Seq<char>)
    ensures
        ({
            let tracks = items.filter(|item: Json| text_of(field(item, "name"@)) is Some);
            let searches = page_searches(items, Some(album), false);
            &&& searches.len() == tracks.len()
            &&& forall|i: int|
                0 <= i < searches.len() ==> asks_for(#[trigger] searches[i], tracks[i], Some(album))
        }),
        (forall|i: int|
            0 <= i < items.len() ==> text_of(field(#[trigger] items[i], "name"@)) is Some) ==> ({
            let searches = page_searches(items, Some(album), false);
            &&& searches.len() == items.len()
            &&& forall|i: int|
                0 <= i < items.len() ==> (#[trigger] searches[i]).title == text_of(
                    field(items[i], "name"@),
                )
        }),
    decreases items.len(),
{
    reveal(Seq::filter);
    if items.len() > 0 {
        let d = items.drop_last();
        law_every_track_of_an_album_is_searched_for(d, album);
        assert(items.last() == items[items.len() - 1]);
        if forall|i: int|
            0 <= i < items.len() ==> text_of(field(#[trigger] items[i], "name"@)) is Some {
            assert forall|i: int| 0 <= i < d.len() implies text_of(
                field(#[trigger] d[i], "name"@),
            ) is Some by {
                assert(d[i] == items[i]);
            }
        }
    }
}

/// Every item of a playlist's page that wraps a track with a name is searched for, once and in the
/// order of the page, by its own title, artist and album; what wraps none is left out.
pub proof fn law_every_track_of_a_playlist_is_searched_for(items: Seq<Json>)
    ensures
        ({
            let tracks = items.map_values(|item: Json| field(item, "track"@)).filter(
                |track: Json| text_of(field(track, "name"@)) is Some,
            );
            let searches = page_searches(items, None, true);
            &&& searches.len() == tracks.len()
            &&& forall|i: int|
                0 <= i < searches.len() ==> asks_for(
                    #[trigger] searches[i],
                    tracks[i],
                    text_of(field(field(tracks[i], "album"@), "name"@)),
                )
        }),
    decreases items.len(),
{
    reveal(Seq::filter);
    let wrapped = items.map_values(|item: Json| field(item, "track"@));
    if items.len() > 0 {
        let d = items.drop_last();
        law_every_track_of_a_playlist_is_searched_for(d);
        assert(wrapped.drop_last() =~= d.map_values(|item: Json| field(item, "track"@)));
        assert(wrapped.last() == field(items.last(), "track"@));
        crate::json::law_members_are_found_by_name(wrapped.last(), "name"@, 0);
    }
}

/// The items of several pages, one page behind the other.
pub open spec fn items_of(pages: Seq<Json>) -> Seq<Json>
    decreases pages.len(),
{
    if pages.len() == 0 {
        Seq::empty()
    } else {
        elements(field(pages[0], "items"@)) + items_of(pages.skip(1))
    }
}

/// It makes no difference how the service parts a list into pages: the searches are those of all
/// the items in one.
pub proof fn law_pages_make_one_list(name: Seq<char>, pages: Seq<Json>)
    ensures
        album_searches(name, pages) == page_searches(items_of(pages), Some(name), false),
        playlist_searches(pages) == page_searches(items_of(pages), None, true),
    decreases pages.len(),
{
    if pages.len() > 0 {
        let first = elements(field(pages[0], "items"@));
        let rest = pages.skip(1);
        law_pages_make_one_list(name, rest);
        law_pages_add_up(first, items_of(rest), Some(name), false);
        law_pages_add_up(first, items_of(rest), None, true);
    }
}

/// A link to a track gives one search, for that track, under its title and in no folder.
pub proof fn law_a_track_is_searched_for_once(m: SpotifyModel, id: Seq<char>, track: Json)
    requires
        m.stage == StageView::Track(id),
    ensures
        match text_of(field(track, "name"@)) {
            Some(title) => on_page(m, Ok(track)).1 matches SpotifyStepView::Done(Ok(job))
                && job.searches.len() == 1 && asks_for(
                job.searches[0],
                track,
                text_of(field(field(track, "album"@), "name"@)),
            ) && job.source_label == "spotify track: "@ + title && job.folder is None,
            None => on_page(m, Ok(track)).1 matches SpotifyStepView::Done(Err(_)),
        },
        on_page(m, Ok(track)).0.stage is Idle,
{
}

/// An album's job has the album's name, or its identifier where it has none, and the searches of
/// its tracks; it is done where no page follows, and otherwise asks for the page that follows, with
/// the token of the extraction.
pub proof fn law_an_album_starts_with_its_own_tracks(
    m: SpotifyModel,
    id: Seq<char>,
    response: Json,
)
    requires
        m.stage == StageView::Album(id),
    ensures
        ({
            let name = match text_of(field(response, "name"@)) {
                Some(name) => name,
                None => id,
            };
            let tracks = field(response, "tracks"@);
            let searches = page_searches(elements(field(tracks, "items"@)), Some(name), false);
            let (after, step) = on_page(m, Ok(response));
            match text_of(field(tracks, "next"@)) {
                None => step matches SpotifyStepView::Done(Ok(job)) && job.searches == searches
                    && job.folder == Some(name) && job.source_label == "spotify album: "@ + name,
                Some(next) => step == (SpotifyStepView::Fetch { token: m.access, url: next })
                    && after.stage == (StageView::AlbumPages { name, searches }),
            }
        }),
{
    let page = field(response, "tracks"@);
    let found = page_searches(
        elements(field(page, "items"@)),
        Some(name_or(response, id)),
        false,
    );
    assert(Seq::<SearchJobView>::empty() + found =~= found);
}

/// A request that fails ends the extraction with what failed.
pub proof fn law_a_failed_request_ends_the_extraction(m: SpotifyModel, error: Seq<char>)
    ensures
        !(m.stage is Idle || m.stage is Token) ==> on_page(m, Err(error)).1
            == SpotifyStepView::Done(Err(ExtractErrorView::Api(error))) && on_page(
            m,
            Err(error),
        ).0.stage is Idle,
        m.stage is Token ==> on_token(m, Err(error)).1 == SpotifyStepView::Done(
            Err(ExtractErrorView::Api(error)),
        ) && on_token(m, Err(error)).0.stage is Idle,
{
}

/// A token is used up to a minute before its end.
pub proof fn law_tokens_are_used_up_to_a_minute_before_their_end(secs: u64)
    ensures
        secs >= 60 ==> lifetime(Some(secs)) + 60 == secs,
        secs < 60 ==> lifetime(Some(secs)) == 0,
        lifetime(None) == lifetime(Some(3600)),
{
}

/// Whether a text can be an identifier.
pub open spec fn is_identifier(id: Seq<char>) -> bool {
    &&& id.len() > 0
    &&& forall|i: int|
        0 <= i < id.len() ==> '0' <= #[trigger] id[i] <= '9' || 'a' <= id[i] <= 'z' || 'A'
            <= id[i] <= 'Z'
}

/// What a kind of thing and its identifier point to.
pub open spec fn points_to(r: Option<SpotifyRefView>, kind: Seq<char>, id: Seq<char>) -> bool {
    &&& kind == "playlist"@ ==> r == Some(SpotifyRefView::Playlist(id))
    &&& kind == "album"@ ==> r == Some(SpotifyRefView::Album(id))
    &&& kind == "track"@ ==> r == Some(SpotifyRefView::Track(id))
}

proof fn lemma_kinds_differ()
    ensures
        "playlist"@ != "album"@,
        "playlist"@ != "track"@,
        "album"@ != "track"@,
{
    reveal_strlit("playlist");
    reveal_strlit("album");
    reveal_strlit("track");
    assert("playlist"@[0] == 'p' && "album"@[0] == 'a' && "track"@[0] == 't');
}

proof fn lemma_kind_is_plain(kind: Seq<char>)
    requires
        kind == "playlist"@ || kind == "album"@ || kind == "track"@,
    ensures
        kind.len() > 0,
        forall|k: int|
            0 <= k < kind.len() ==> #[trigger] kind[k] != ':' && kind[k] != '/' && kind[k] != '-',
        kind[0] != 'i',
{
    reveal_strlit("playlist");
    reveal_strlit("album");
    reveal_strlit("track");
}

/// A URI `spotify:{kind}:{id}` points to what it names, with white space around it or without.
pub proof fn law_uris_point_to_what_they_name(
    before: Seq<char>,
    kind: Seq<char>,
    id: Seq<char>,
    after: Seq<char>,
)
    requires
        kind == "playlist"@ || kind == "album"@ || kind == "track"@,
        is_identifier(id),
        forall|k: int| 0 <= k < before.len() ==> crate::text::is_ws(#[trigger] before[k]),
        forall|k: int| 0 <= k < after.len() ==> crate::text::is_ws(#[trigger] after[k]),
    ensures
        points_to(spotify_ref(before + ("spotify:"@ + kind.push(':') + id) + after), kind, id),
{
    let text = "spotify:"@ + kind.push(':') + id;
    reveal_strlit("spotify:");
    lemma_kinds_differ();
    lemma_kind_is_plain(kind);
    assert(text[0] == 's');
    assert(text.last() == id[id.len() - 1]);
    crate::text::law_white_space_around_is_cut(before, text, after);
    assert("spotify:"@.is_prefix_of(text));
    let rest = kind.push(':') + id;
    assert(without(text, "spotify:"@) =~= rest);
    crate::text::law_a_separator_parts_a_text(kind, ':', id);
    crate::text::law_a_separator_parts_a_text(id, ':', Seq::empty());
    assert(split_on(rest, ':') =~= seq![kind, id]);
}

/// An address `https://open.spotify.com/{kind}/{id}` points to what it names, with a query or
/// without.
pub proof fn law_addresses_point_to_what_they_name(
    kind: Seq<char>,
    id: Seq<char>,
    query: Seq<char>,
)
    requires
        kind == "playlist"@ || kind == "album"@ || kind == "track"@,
        is_identifier(id),
        query.len() > 0 ==> query[0] == '?' && !crate::text::is_ws(query.last()),
        forall|k: int| 0 <= k < query.len() ==> #[trigger] query[k] != '/',
    ensures
        points_to(
            spotify_ref("https://open.spotify.com/"@ + kind.push('/') + id + query),
            kind,
            id,
        ),
{
    let text = "https://open.spotify.com/"@ + kind.push('/') + id + query;
    reveal_strlit("https://open.spotify.com/");
    reveal_strlit("https://");
    reveal_strlit("open.spotify.com/");
    reveal_strlit("spotify:");
    reveal_strlit("intl-");
    lemma_kinds_differ();
    lemma_kind_is_plain(kind);
    assert(text[0] == 'h');
    assert(text.last() == (if query.len() > 0 {
        query.last()
    } else {
        id[id.len() - 1]
    }));
    let none = Seq::<char>::empty();
    crate::text::law_white_space_around_is_cut(none, text, none);
    assert(none + text + none =~= text);
    assert(!"spotify:"@.is_prefix_of(text)) by {
        assert("spotify:"@[0] == 's');
    }
    assert("https://"@.is_prefix_of(text));
    let rest = text.skip(8);
    assert(without_scheme(text) == rest);
    assert("open.spotify.com/"@.is_prefix_of(rest));
    let path = kind.push('/') + (id + query);
    assert(without(rest, "open.spotify.com/"@) =~= path);
    crate::text::law_a_separator_parts_a_text(kind, '/', id + query);
    assert forall|k: int| 0 <= k < (id + query).len() implies #[trigger] (id + query)[k] != '/' by {
        if k < id.len() {
            assert((id + query)[k] == id[k]);
        } else {
            assert((id + query)[k] == query[k - id.len()]);
        }
    }
    crate::text::law_a_separator_parts_a_text(id + query, '/', none);
    assert(split_on(path, '/') =~= seq![kind, id + query]);
    assert(!"intl-"@.is_prefix_of(kind)) by {
        assert("intl-"@[0] == 'i');
    }
    assert forall|k: int| 0 <= k < id.len() implies (id + query)[k] != '?' by {
        assert((id + query)[k] == id[k]);
    }
    crate::text::lemma_first_index(id + query, '?', id.len() as int);
    assert((id + query).take(id.len() as int) =~= id);
}

} // verus!
