//! Which request asks for what.
use vstd::prelude::*;
use vstd::string::*;

use crate::messages::Page;
use crate::text::{
    chars_of, first_index, index_from, same, starts_with, string_of, strip_prefix,
};
use crate::web_bridge::settings::{error_banner, render_error_banner};

verus! {

/// What a request asks for.
#[derive(Debug, PartialEq)]
pub enum Route<S> {
    /// Goes to the music service to log in.
    SpotifyLogin,
    /// Comes back from the music service.
    SpotifyCallback,
    /// Plays a finished download.
    Media,
    HtmxScript,
    AppScript,
    /// A page that the interface shows.
    Show(Page<S>),
    BrowseFragment,
    SpotifyStatus,
    AccountPage,
    BulkPage,
    SpotifyPage,
    ConfigPage,
    ConfigView,
    SaveAccount,
    Download,
    CancelDownload,
    PauseDownload,
    Search,
    CloseSearch,
    OpenFolder,
    Filter,
    Browse,
    SaveSpotify,
    SaveConfig,
    ApplyUpdate,
    Restart,
    Quit,
    NotFound,
}

impl View for Route<String> {
    type V = Route<Seq<char>>;

    open spec fn view(&self) -> Route<Seq<char>> {
        match self {
            Route::SpotifyLogin => Route::SpotifyLogin,
            Route::SpotifyCallback => Route::SpotifyCallback,
            Route::Media => Route::Media,
            Route::HtmxScript => Route::HtmxScript,
            Route::AppScript => Route::AppScript,
            Route::Show(page) => Route::Show(page@),
            Route::BrowseFragment => Route::BrowseFragment,
            Route::SpotifyStatus => Route::SpotifyStatus,
            Route::AccountPage => Route::AccountPage,
            Route::BulkPage => Route::BulkPage,
            Route::SpotifyPage => Route::SpotifyPage,
            Route::ConfigPage => Route::ConfigPage,
            Route::ConfigView => Route::ConfigView,
            Route::SaveAccount => Route::SaveAccount,
            Route::Download => Route::Download,
            Route::CancelDownload => Route::CancelDownload,
            Route::PauseDownload => Route::PauseDownload,
            Route::Search => Route::Search,
            Route::CloseSearch => Route::CloseSearch,
            Route::OpenFolder => Route::OpenFolder,
            Route::Filter => Route::Filter,
            Route::Browse => Route::Browse,
            Route::SaveSpotify => Route::SaveSpotify,
            Route::SaveConfig => Route::SaveConfig,
            Route::ApplyUpdate => Route::ApplyUpdate,
            Route::Restart => Route::Restart,
            Route::Quit => Route::Quit,
            Route::NotFound => Route::NotFound,
        }
    }
}

/// The path of a URL: what stands before the query.
pub open spec fn path_of(url: Seq<char>) -> Seq<char> {
    url.take(first_index(url, '?') as int)
}

/// The query of a URL: what stands behind the first question mark, up to the next.
pub open spec fn query_of(url: Seq<char>) -> Seq<char> {
    let k = first_index(url, '?') as int;
    if k < url.len() {
        let rest = url.skip(k + 1);
        rest.take(first_index(rest, '?') as int)
    } else {
        ""@
    }
}

/// Splits a URL into path and query.
pub fn split_url(url: &str) -> (r: (String, String))
    ensures
        r.0@ == path_of(url@),
        r.1@ == query_of(url@),
{
    let v = chars_of(url);
    assert(v@.skip(0) =~= v@);
    let k = index_from(&v, 0, '?');
    let path = string_of(&v, 0, k);
    assert(path@ =~= path_of(url@));
    if k < v.len() {
        let end = index_from(&v, k + 1, '?');
        let query = string_of(&v, k + 1, end);
        assert(query@ =~= query_of(url@));
        (path, query)
    } else {
        (path, "".to_owned())
    }
}

/// What is left of a text once a prefix was taken off as often as it stands there.
pub open spec fn without_prefixes(s: Seq<char>, prefix: Seq<char>) -> Seq<char>
    decreases s.len(),
{
    if prefix.len() > 0 && prefix.is_prefix_of(s) {
        without_prefixes(s.skip(prefix.len() as int), prefix)
    } else {
        s
    }
}

/// What a `GET` asks for.
pub open spec fn get_route(path: Seq<char>) -> Route<Seq<char>> {
    if path == "/spotify/login"@ {
        Route::SpotifyLogin
    } else if path == "/spotify/callback"@ {
        Route::SpotifyCallback
    } else if path == "/media"@ {
        Route::Media
    } else if path == "/assets/htmx.min.js"@ {
        Route::HtmxScript
    } else if path == "/assets/app.js"@ {
        Route::AppScript
    } else if path == "/"@ {
        Route::Show(Page::Index)
    } else if path == "/fragments/status"@ {
        Route::Show(Page::StatusFragment)
    } else if path == "/fragments/searches"@ {
        Route::Show(Page::SearchesFragment)
    } else if path == "/fragments/browse"@ {
        Route::BrowseFragment
    } else if path == "/fragments/spotify-status"@ {
        Route::SpotifyStatus
    } else if path == "/fragments/account-status"@ {
        Route::Show(Page::AccountStatus)
    } else if path == "/account"@ {
        Route::AccountPage
    } else if path == "/downloads"@ {
        Route::Show(Page::Downloads)
    } else if path == "/fragments/downloads"@ {
        Route::Show(Page::DownloadsFragment)
    } else if path == "/uploads"@ {
        Route::Show(Page::Uploads)
    } else if path == "/fragments/uploads"@ {
        Route::Show(Page::UploadsFragment)
    } else if path == "/bulk"@ {
        Route::BulkPage
    } else if path == "/spotify"@ {
        Route::SpotifyPage
    } else if path == "/config"@ {
        Route::ConfigPage
    } else if path == "/config/view"@ {
        Route::ConfigView
    } else if "/sort/"@.is_prefix_of(path) {
        Route::Show(Page::SortSearches { key: without_prefixes(path, "/sort/"@) })
    } else {
        Route::NotFound
    }
}

/// What a `POST` asks for.
pub open spec fn post_route(path: Seq<char>) -> Route<Seq<char>> {
    if path == "/account"@ {
        Route::SaveAccount
    } else if path == "/download"@ {
        Route::Download
    } else if path == "/download/cancel"@ {
        Route::CancelDownload
    } else if path == "/download/pause"@ {
        Route::PauseDownload
    } else if path == "/search"@ {
        Route::Search
    } else if path == "/search/close"@ {
        Route::CloseSearch
    } else if path == "/open"@ {
        Route::OpenFolder
    } else if path == "/filter"@ {
        Route::Filter
    } else if path == "/browse"@ {
        Route::Browse
    } else if path == "/spotify"@ {
        Route::SaveSpotify
    } else if path == "/config"@ {
        Route::SaveConfig
    } else if path == "/apply-update"@ {
        Route::ApplyUpdate
    } else if path == "/restart"@ {
        Route::Restart
    } else if path == "/quit"@ {
        Route::Quit
    } else {
        Route::NotFound
    }
}

/// What a request asks for.
pub open spec fn route_of(method: Seq<char>, path: Seq<char>) -> Route<Seq<char>> {
    if method == "GET"@ {
        get_route(path)
    } else if method == "POST"@ {
        post_route(path)
    } else {
        Route::NotFound
    }
}

fn strip_prefixes(s: &str, prefix: &str) -> (r: String)
    requires
        prefix@.len() > 0,
    ensures
        r@ == without_prefixes(s@, prefix@),
{
    let mut rest = s;
    let mut left: usize = s.unicode_len();
    loop
        invariant_except_break
            prefix@.len() > 0,
            left == rest@.len(),
            without_prefixes(s@, prefix@) == without_prefixes(rest@, prefix@),
        ensures
            without_prefixes(s@, prefix@) == rest@,
        decreases left,
    {
        match strip_prefix(rest, prefix) {
            Some(after) => {
                rest = after;
                left = rest.unicode_len();
            },
            None => {
                break ;
            },
        }
    }
    rest.to_owned()
}

fn get_of(path: &str) -> (r: Route<String>)
    ensures
        r@ == get_route(path@),
{
    if same(path, "/spotify/login") {
        Route::SpotifyLogin
    } else if same(path, "/spotify/callback") {
        Route::SpotifyCallback
    } else if same(path, "/media") {
        Route::Media
    } else if same(path, "/assets/htmx.min.js") {
        Route::HtmxScript
    } else if same(path, "/assets/app.js") {
        Route::AppScript
    } else if same(path, "/") {
        Route::Show(Page::Index)
    } else if same(path, "/fragments/status") {
        Route::Show(Page::StatusFragment)
    } else if same(path, "/fragments/searches") {
        Route::Show(Page::SearchesFragment)
    } else if same(path, "/fragments/browse") {
        Route::BrowseFragment
    } else if same(path, "/fragments/spotify-status") {
        Route::SpotifyStatus
    } else if same(path, "/fragments/account-status") {
        Route::Show(Page::AccountStatus)
    } else if same(path, "/account") {
        Route::AccountPage
    } else if same(path, "/downloads") {
        Route::Show(Page::Downloads)
    } else if same(path, "/fragments/downloads") {
        Route::Show(Page::DownloadsFragment)
    } else if same(path, "/uploads") {
        Route::Show(Page::Uploads)
    } else if same(path, "/fragments/uploads") {
        Route::Show(Page::UploadsFragment)
    } else if same(path, "/bulk") {
        Route::BulkPage
    } else if same(path, "/spotify") {
        Route::SpotifyPage
    } else if same(path, "/config") {
        Route::ConfigPage
    } else if same(path, "/config/view") {
        Route::ConfigView
    } else if starts_with(path, "/sort/") {
        proof {
            reveal_strlit("/sort/");
        }
        Route::Show(Page::SortSearches { key: strip_prefixes(path, "/sort/") })
    } else {
        Route::NotFound
    }
}

fn post_of(path: &str) -> (r: Route<String>)
    ensures
        r@ == post_route(path@),
{
    if same(path, "/account") {
        Route::SaveAccount
    } else if same(path, "/download") {
        Route::Download
    } else if same(path, "/download/cancel") {
        Route::CancelDownload
    } else if same(path, "/download/pause") {
        Route::PauseDownload
    } else if same(path, "/search") {
        Route::Search
    } else if same(path, "/search/close") {
        Route::CloseSearch
    } else if same(path, "/open") {
        Route::OpenFolder
    } else if same(path, "/filter") {
        Route::Filter
    } else if same(path, "/browse") {
        Route::Browse
    } else if same(path, "/spotify") {
        Route::SaveSpotify
    } else if same(path, "/config") {
        Route::SaveConfig
    } else if same(path, "/apply-update") {
        Route::ApplyUpdate
    } else if same(path, "/restart") {
        Route::Restart
    } else if same(path, "/quit") {
        Route::Quit
    } else {
        Route::NotFound
    }
}

/// Finds out what a request asks for.
pub fn route(method: &str, path: &str) -> (r: Route<String>)
    ensures
        r@ == route_of(method@, path@),
{
    if same(method, "GET") {
        get_of(path)
    } else if same(method, "POST") {
        post_of(path)
    } else {
        Route::NotFound
    }
}

/// The status and the page for an outcome: an error is answered as one of the gateway, in a
/// banner.
pub fn html_page(result: Result<String, String>) -> (r: (u32, String))
    ensures
        match result {
            Ok(html) => r.0 == 200 && r.1@ == html@,
            Err(error) => r.0 == 504 && r.1@ == error_banner(error@),
        },
{
    match result {
        Ok(html) => (200, html),
        Err(error) => (504, render_error_banner(error.as_str())),
    }
}

/// Only a `POST` changes anything: whatever a `GET` asks for is a page, a script, a file or the
/// login, and never an action.
pub proof fn law_reading_changes_nothing(path: Seq<char>)
    ensures
        ({
            let r = route_of("GET"@, path);
            !(r is SaveAccount || r is Download || r is CancelDownload || r is PauseDownload
                || r is Search || r is CloseSearch || r is OpenFolder || r is Browse
                || r is SaveSpotify || r is SaveConfig || r is ApplyUpdate || r is Restart
                || r is Quit)
        }),
{
}

/// An address is its path and, behind a question mark, its query.
pub proof fn law_an_address_is_its_path_and_its_query(path: Seq<char>, query: Seq<char>)
    requires
        forall|k: int| 0 <= k < path.len() ==> #[trigger] path[k] != '?',
        forall|k: int| 0 <= k < query.len() ==> #[trigger] query[k] != '?',
    ensures
        path_of(path.push('?') + query) == path,
        query_of(path.push('?') + query) == query,
        path_of(path) == path,
        query_of(path).len() == 0,
{
    let url = path.push('?') + query;
    assert forall|k: int| 0 <= k < path.len() implies url[k] != '?' by {
        assert(url[k] == path[k]);
    }
    crate::text::lemma_first_index(url, '?', path.len() as int);
    crate::text::lemma_first_index(path, '?', path.len() as int);
    crate::text::lemma_first_index(query, '?', query.len() as int);
    assert(url.take(path.len() as int) =~= path);
    assert(url.skip(path.len() as int + 1) =~= query);
    assert(query.take(query.len() as int) =~= query);
    assert(path.take(path.len() as int) =~= path);
    reveal_strlit("");
}

/// No two paths lead to the same place, but for the columns that results are sorted by, and no two
/// actions have the same path.
pub proof fn law_every_place_has_one_path(a: Seq<char>, b: Seq<char>)
    requires
        a != b,
    ensures
        get_route(a) == get_route(b) ==> get_route(a) is NotFound || (get_route(a)
            matches Route::Show(Page::SortSearches { .. })),
        post_route(a) == post_route(b) ==> post_route(a) is NotFound,
{
}

/// A click on a column asks for the results by that column.
pub proof fn law_columns_are_asked_for_by_name(key: Seq<char>)
    requires
        forall|k: int| 0 <= k < key.len() ==> #[trigger] key[k] != '/',
    ensures
        get_route("/sort/"@ + key) == Route::Show(Page::SortSearches { key }),
{
    let path = "/sort/"@ + key;
    reveal_strlit("/sort/");
    assert(path[1] == 's' && path[2] == 'o' && path[3] == 'r' && path[4] == 't');
    assert("/sort/"@.is_prefix_of(path));
    assert(path.skip(6) =~= key);
    assert(!"/sort/"@.is_prefix_of(key)) by {
        assert("/sort/"@[0] == '/');
    }
    reveal_with_fuel(without_prefixes, 3);
    assert(without_prefixes(path, "/sort/"@) == key);
    reveal_strlit("/spotify/login");
    reveal_strlit("/spotify/callback");
    reveal_strlit("/media");
    reveal_strlit("/assets/htmx.min.js");
    reveal_strlit("/assets/app.js");
    reveal_strlit("/");
    reveal_strlit("/fragments/status");
    reveal_strlit("/fragments/searches");
    reveal_strlit("/fragments/browse");
    reveal_strlit("/fragments/spotify-status");
    reveal_strlit("/fragments/account-status");
    reveal_strlit("/account");
    reveal_strlit("/downloads");
    reveal_strlit("/fragments/downloads");
    reveal_strlit("/uploads");
    reveal_strlit("/fragments/uploads");
    reveal_strlit("/bulk");
    reveal_strlit("/spotify");
    reveal_strlit("/config");
    reveal_strlit("/config/view");
    assert("/spotify/login"@[2] == 'p' && "/spotify/callback"@[2] == 'p' && "/spotify"@[2] == 'p');
    assert("/media"@[1] == 'm' && "/assets/htmx.min.js"@[1] == 'a' && "/assets/app.js"@[1] == 'a');
    assert("/fragments/status"@[1] == 'f' && "/fragments/searches"@[1] == 'f'
        && "/fragments/browse"@[1] == 'f' && "/fragments/spotify-status"@[1] == 'f'
        && "/fragments/account-status"@[1] == 'f' && "/fragments/downloads"@[1] == 'f'
        && "/fragments/uploads"@[1] == 'f');
    assert("/account"@[1] == 'a' && "/downloads"@[1] == 'd' && "/uploads"@[1] == 'u'
        && "/bulk"@[1] == 'b' && "/config"@[1] == 'c' && "/config/view"@[1] == 'c');
    assert("/"@.len() == 1);
}

} // verus!
