//! What the web interface knows and shows.
use std::collections::VecDeque;

use vstd::prelude::*;
use vstd::string::*;

use crate::config::{AppContext, Config};
use crate::html::{escape, escaped};
use crate::messages::Page;
use crate::session::SessionEvent;
use crate::template::{blanks, fill1, fill2, fill3, filled};
use crate::text::{contains, decimal, group_views, occurs, push_decimal, trim, trimmed, views};
use crate::ui::downloads::{
    downloads_html, in_flight, other_entry, state_of, with_state, DownloadEntryView, DownloadList,
    DownloadState,
};
use crate::ui::results::{
    column_of, render_search, search_html, toggle_sort, toggled, ResultRowView, SearchResultRow,
    SearchRow, SearchRowView, SortKey, Sorting, MAX_RESULTS_PER_SEARCH,
};
use crate::ui::uploads::{
    uploads_html, with_progress, with_upload, UploadEntryView, UploadList, UploadState,
};
use crate::ui_theme::{col_bar, col_bar_html, shell, shell_html};
use crate::updater::{Status, StatusView, UpdaterStatus};

pub mod downloads;
pub mod results;
pub mod uploads;

verus! {

broadcast use group_views;

/// Cap on the lines of the log.
pub const MAX_LOG_LINES: usize = 100;

/// How the session stands, as far as it is shown.
#[derive(Debug, PartialEq)]
pub enum SessionStatus<S> {
    Disconnected(S),
    Connecting,
    LoggedIn { greeting: S, own_ip: S },
    LoginFailed(S),
}

impl View for SessionStatus<String> {
    type V = SessionStatus<Seq<char>>;

    open spec fn view(&self) -> SessionStatus<Seq<char>> {
        match self {
            SessionStatus::Disconnected(reason) => SessionStatus::Disconnected(reason@),
            SessionStatus::Connecting => SessionStatus::Connecting,
            SessionStatus::LoggedIn { greeting, own_ip } => SessionStatus::LoggedIn {
                greeting: greeting@,
                own_ip: own_ip@,
            },
            SessionStatus::LoginFailed(reason) => SessionStatus::LoginFailed(reason@),
        }
    }
}

/// What the interface knows.
pub struct UiModel {
    pub session: SessionStatus<Seq<char>>,
    /// Oldest first.
    pub searches: Seq<SearchRowView>,
    pub updater: Option<StatusView>,
    /// Oldest first.
    pub log: Seq<Seq<char>>,
    pub username: Seq<char>,
    pub sort: Sorting,
    /// The least bitrate that is shown, in kbps; 0 shows all.
    pub min_bitrate: u32,
    /// Oldest first.
    pub downloads: Seq<DownloadEntryView>,
    /// Oldest first.
    pub uploads: Seq<UploadEntryView>,
}

/// The log with one more line; the oldest gives way where there are too many.
pub open spec fn logged(log: Seq<Seq<char>>, line: Seq<char>) -> Seq<Seq<char>> {
    if log.len() >= MAX_LOG_LINES {
        log.skip(1).push(line)
    } else {
        log.push(line)
    }
}

/// The log stays bounded, and its last line is the latest.
pub proof fn law_the_log_is_bounded(log: Seq<Seq<char>>, line: Seq<char>)
    requires
        log.len() <= MAX_LOG_LINES,
    ensures
        logged(log, line).len() <= MAX_LOG_LINES,
        logged(log, line).last() == line,
{
}

/// Where a search stands by its token, or the number of searches.
pub open spec fn search_slot(searches: Seq<SearchRowView>, token: u32) -> int
    decreases searches.len(),
{
    if searches.len() == 0 || searches[0].token == token {
        0
    } else {
        1 + search_slot(searches.skip(1), token)
    }
}

proof fn lemma_search_slot(searches: Seq<SearchRowView>, token: u32, i: int)
    requires
        0 <= i <= searches.len(),
        forall|j: int| 0 <= j < i ==> (#[trigger] searches[j]).token != token,
        i < searches.len() ==> searches[i].token == token,
    ensures
        search_slot(searches, token) == i,
    decreases i,
{
    if i > 0 {
        assert(searches[0].token != token);
        assert forall|j: int| 0 <= j < i - 1 implies (#[trigger] searches.skip(1)[j]).token
            != token by {
            assert(searches[j + 1].token != token);
        }
        lemma_search_slot(searches.skip(1), token, i - 1);
    }
}

/// The searches after an answer came: it belongs to the search of its token, and is dropped where
/// there is none or where that search has answers enough.
pub open spec fn with_result(searches: Seq<SearchRowView>, token: u32, row: ResultRowView) -> Seq<
    SearchRowView,
> {
    let i = search_slot(searches, token);
    if i < searches.len() && searches[i].results.len() < MAX_RESULTS_PER_SEARCH {
        searches.update(
            i,
            SearchRowView { results: searches[i].results.push(row), ..searches[i] },
        )
    } else {
        searches
    }
}

/// Answers to searches that we did not start are dropped.
pub proof fn law_stray_results_are_dropped(
    searches: Seq<SearchRowView>,
    token: u32,
    row: ResultRowView,
)
    requires
        forall|i: int| 0 <= i < searches.len() ==> (#[trigger] searches[i]).token != token,
    ensures
        with_result(searches, token, row) == searches,
{
    lemma_search_slot(searches, token, searches.len() as int);
}

/// Tells the searches of other tokens.
pub open spec fn other_search(token: u32) -> spec_fn(SearchRowView) -> bool {
    |s: SearchRowView| s.token != token
}

/// What an event of the session changes.
pub open spec fn on_session_event(m: UiModel, event: SessionEvent<Seq<char>>) -> UiModel {
    match event {
        SessionEvent::Connecting => UiModel { session: SessionStatus::Connecting, ..m },
        SessionEvent::LoggedIn { greeting, own_ip } => UiModel {
            session: SessionStatus::LoggedIn { greeting, own_ip },
            ..m
        },
        SessionEvent::LoginFailed { reason } => UiModel {
            session: SessionStatus::LoginFailed(reason),
            ..m
        },
        SessionEvent::Disconnected { reason } => UiModel {
            session: SessionStatus::Disconnected(reason),
            ..m
        },
        SessionEvent::SearchStarted { token, query } => UiModel {
            searches: m.searches.push(SearchRowView { token, query, results: Seq::empty() }),
            ..m
        },
        SessionEvent::SearchBroadcastSeen { username, query } => UiModel {
            log: logged(m.log, "search on the network: "@ + username + ": "@ + query),
            ..m
        },
        SessionEvent::ProtocolNote { note } => UiModel { log: logged(m.log, note), ..m },
    }
}

/// What a position in an uploader's queue changes; 0 means that the download is starting. A late
/// one does not bring a finished download back.
pub open spec fn on_queue_position(
    m: UiModel,
    username: Seq<char>,
    filename: Seq<char>,
    place: u32,
) -> UiModel {
    let line = if place == 0 {
        username + " is starting our download of "@ + filename
    } else {
        "download of "@ + filename + " from "@ + username + " is at queue position "@ + decimal(
            place as nat,
        )
    };
    let state = if place == 0 {
        DownloadState::Starting
    } else {
        DownloadState::Position(place)
    };
    let at_rest = state_of(m.downloads, username, filename) matches Some(s) && !in_flight(s);
    UiModel {
        log: logged(m.log, line),
        downloads: if at_rest {
            m.downloads
        } else {
            with_state(m.downloads, username, filename, state)
        },
        ..m
    }
}

/// What the choice of a page changes before it is shown.
pub open spec fn on_page(m: UiModel, page: Page<Seq<char>>) -> UiModel {
    match page {
        Page::SortSearches { key } => match column_of(key) {
            Some(k) => UiModel { sort: toggled(m.sort, k), ..m },
            None => m,
        },
        Page::FilterBitrate { min } => UiModel { min_bitrate: min, ..m },
        _ => m,
    }
}

pub const ACCOUNT_NOTE: &'static str = r#" <span class="muted">{}</span>"#;

/// Signed in: user name and note.
pub const ACCOUNT_IN: &'static str = r#"<div class="card"><span class="pill ok">● Signed in</span>
<p style="margin:0.6rem 0 0">Connected as <strong>{}</strong>.{}</p></div>"#;

pub const ACCOUNT_CONNECTING: &'static str = r#"<div class="card"><span class="pill">● Connecting…</span></div>"#;

/// Not connected: the reason.
pub const ACCOUNT_OUT: &'static str = r#"<div class="card"><span class="pill warn">● Not connected</span>
<p class="muted" style="margin:0.6rem 0 0">{}</p></div>"#;

/// Refused: the reason and a hint.
pub const ACCOUNT_REFUSED: &'static str = r#"<div class="card"><span class="pill warn">● Sign-in failed</span>
<p style="margin:0.6rem 0 0.3rem"><strong>{}</strong></p><p class="muted" style="margin:0">{}</p></div>"#;

pub const HINT_PASSWORD: &'static str = "That username is already taken, or the password is wrong. To <strong>create a new account</strong>, choose a username nobody has used yet and pick any password — it's registered on first sign-in.";

pub const HINT_NAME: &'static str = "That username isn't allowed — try a simpler one (letters and numbers).";

pub const HINT_RETRY: &'static str = "Check the username and password and try again.";

/// What a refusal to log in advises.
pub open spec fn login_hint(reason: Seq<char>) -> Seq<char> {
    if occurs(reason, "INVALIDPASS"@) {
        HINT_PASSWORD@
    } else if occurs(reason, "INVALIDUSERNAME"@) {
        HINT_NAME@
    } else {
        HINT_RETRY@
    }
}

/// How the login stands, for the account screen.
pub open spec fn account_html(m: UiModel) -> Seq<char> {
    match m.session {
        SessionStatus::LoggedIn { greeting, own_ip } => filled(
            ACCOUNT_IN@,
            blanks()
                .push(escaped(m.username))
                .push(if trimmed(greeting).len() == 0 { ""@ } else { filled(ACCOUNT_NOTE@, blanks().push(escaped(greeting))) }),
        ),
        SessionStatus::Connecting => ACCOUNT_CONNECTING@,
        SessionStatus::Disconnected(reason) => filled(ACCOUNT_OUT@, blanks().push(escaped(reason))),
        SessionStatus::LoginFailed(reason) => filled(
            ACCOUNT_REFUSED@,
            blanks()
                .push(escaped(reason))
                .push(login_hint(reason)),
        ),
    }
}

/// The search page: the toolbar.
pub const INDEX: &'static str = r##"<h1>Search</h1>
<p class="sub">Search the Soulseek network or browse a user's shared files. For many tracks at once, use <a href="/bulk">Bulk downloads</a>.</p>
<div id="status" hx-get="/fragments/status" hx-trigger="load, every 2s"></div>
<div class="card">
<form hx-post="/search" hx-target="#searches" hx-swap="innerHTML" style="display:flex; gap:0.5rem; align-items:flex-end;">
  <div style="flex:1"><label for="q" style="margin-top:0">Search</label>
  <input id="q" type="text" name="input" placeholder="search text, or a spotify playlist / album / track link" autofocus></div>
  <button class="btn" type="submit">Search</button>
</form>
</div>
{}
<div id="searches" class="results" hx-get="/fragments/searches" hx-trigger="load, every 2s"></div>
<h2>Browse a user's shares</h2>
<div class="card">
<form hx-post="/browse" hx-target="#browse" hx-swap="innerHTML" style="display:flex; gap:0.5rem; align-items:flex-end;">
  <div style="flex:1"><label for="u" style="margin-top:0">Username</label>
  <input id="u" type="text" name="username" placeholder="soulseek username"></div>
  <button class="btn secondary" type="submit">Browse</button>
</form>
</div>
<div id="browse" hx-get="/fragments/browse" hx-trigger="load, every 3s"></div>"##;

/// The search page.
pub open spec fn index_html(m: UiModel) -> Seq<char> {
    shell_html(
        "soulrust"@,
        "search"@,
        m.username,
        filled(INDEX@, blanks().push(col_bar_html(m.min_bitrate))),
    )
}

pub const SESSION_OUT: &'static str = r#"<span>disconnected ({})</span>"#;

pub const SESSION_CONNECTING: &'static str = "<span>connecting…</span>";

/// Logged in: user name, address and greeting.
pub const SESSION_IN: &'static str = r#"<span>logged in as <b>{}</b> ({}) — {}</span>"#;

pub const SESSION_REFUSED: &'static str = r#"<span class="error">login failed: {}</span>"#;

/// How the session stands, in a line.
pub open spec fn session_html(m: UiModel) -> Seq<char> {
    match m.session {
        SessionStatus::Disconnected(reason) => filled(SESSION_OUT@, blanks().push(escaped(reason))),
        SessionStatus::Connecting => SESSION_CONNECTING@,
        SessionStatus::LoggedIn { greeting, own_ip } => filled(
            SESSION_IN@,
            blanks()
                .push(escaped(m.username))
                .push(escaped(own_ip))
                .push(escaped(greeting)),
        ),
        SessionStatus::LoginFailed(reason) => filled(SESSION_REFUSED@, blanks().push(escaped(reason))),
    }
}

pub const BANNER: &'static str = r#"<div class="banner">{}</div>"#;

pub const BANNER_ERROR: &'static str = r#"<div class="banner error">{}</div>"#;

pub const UPDATE_READY: &'static str = r##"v{} downloaded — <button hx-post="/apply-update" hx-target="#status">install</button>"##;

pub const UPDATE_INSTALLED: &'static str = r##"v{} installed — <button hx-post="/restart" hx-target="#status">restart soulrust</button>"##;

/// How an update stands, in a line.
pub open spec fn updater_html(s: StatusView) -> Seq<char> {
    match s {
        UpdaterStatus::Checking => filled(BANNER@, blanks().push("checking for updates…"@)),
        UpdaterStatus::UpToDate { current } => filled(
            BANNER@,
            blanks().push(filled("up to date (v{})"@, blanks().push(current))),
        ),
        UpdaterStatus::Available { latest } => filled(
            BANNER@,
            blanks().push(filled("update v{} available"@, blanks().push(latest))),
        ),
        UpdaterStatus::Downloading { latest } => filled(
            BANNER@,
            blanks().push(filled("downloading v{}…"@, blanks().push(latest))),
        ),
        UpdaterStatus::ReadyToApply { latest } => filled(
            BANNER@,
            blanks()
                .push(filled(UPDATE_READY@, blanks().push(latest))),
        ),
        UpdaterStatus::RestartRequired { latest } => filled(
            BANNER@,
            blanks()
                .push(filled(UPDATE_INSTALLED@, blanks().push(latest))),
        ),
        UpdaterStatus::Failed { error } => filled(
            BANNER_ERROR@,
            blanks().push(filled("update failed: {}"@, blanks().push(escaped(error)))),
        ),
        UpdaterStatus::Skipped { reason } => filled(
            BANNER@,
            blanks().push(filled("updates skipped: {}"@, blanks().push(escaped(reason)))),
        ),
    }
}

pub const LOG: &'static str = r#"<pre class="log">{}</pre>"#;

/// The lines of the log, the latest first.
pub open spec fn log_lines(log: Seq<Seq<char>>) -> Seq<char>
    decreases log.len(),
{
    if log.len() == 0 {
        Seq::empty()
    } else if log.len() == 1 {
        escaped(log[0])
    } else {
        escaped(log.last()) + "\n"@ + log_lines(log.drop_last())
    }
}

/// The session, the update and the log.
pub const STATUS: &'static str = r#"<div class="banner">{}</div>{}{}"#;

/// How things stand.
pub open spec fn status_html(m: UiModel) -> Seq<char> {
    filled(
        STATUS@,
        blanks()
            .push(session_html(m))
            .push(match m.updater { Some(s) => updater_html(s), None => ""@ })
            .push(if m.log.len() == 0 { ""@ } else { filled(LOG@, blanks().push(log_lines(m.log))) }),
    )
}

/// Searches, the latest first.
pub open spec fn search_cards_html(m: UiModel, searches: Seq<SearchRowView>) -> Seq<char>
    decreases searches.len(),
{
    if searches.len() == 0 {
        Seq::empty()
    } else {
        search_html(searches.last(), m.sort, m.min_bitrate, m.downloads) + search_cards_html(
            m,
            searches.drop_last(),
        )
    }
}

/// All searches.
pub open spec fn searches_html(m: UiModel) -> Seq<char> {
    if m.searches.len() == 0 {
        "<p>no searches yet</p>"@
    } else {
        search_cards_html(m, m.searches)
    }
}

pub const DOWNLOADS_BODY: &'static str = r##"<h1>Downloads</h1>
<p class="sub">Files you've queued with the <strong>Get</strong> button. Active transfers are up top; finished and failed ones below.</p>
<div id="downloads" class="results" hx-get="/fragments/downloads" hx-trigger="load, every 2s"></div>"##;

pub const UPLOADS_BODY: &'static str = r##"<h1>Uploads</h1>
<p class="sub">Files that peers collect from you. Active transfers are up top; finished and failed ones below.</p>
<div id="uploads" class="results" hx-get="/fragments/uploads" hx-trigger="load, every 2s"></div>"##;

pub const CONFIG_NOTE: &'static str = r#"<p>configuration lives at <a href="/config">/config</a></p>"#;

/// A page, or a part of one.
pub open spec fn page_html(m: UiModel, page: Page<Seq<char>>) -> Seq<char> {
    match page {
        Page::Index => index_html(m),
        Page::StatusFragment => status_html(m),
        Page::SearchesFragment => searches_html(m),
        Page::ConfigForm => CONFIG_NOTE@,
        Page::AccountStatus => account_html(m),
        Page::Downloads => shell_html(
            "soulrust — downloads"@,
            "downloads"@,
            m.username,
            DOWNLOADS_BODY@,
        ),
        Page::DownloadsFragment => downloads_html(m.downloads),
        Page::Uploads => shell_html(
            "soulrust — uploads"@,
            "uploads"@,
            m.username,
            UPLOADS_BODY@,
        ),
        Page::UploadsFragment => uploads_html(m.uploads),
        Page::SortSearches { key } => searches_html(m),
        Page::FilterBitrate { min } => searches_html(m),
    }
}

/// The web interface.
pub struct Ui {
    session: SessionStatus<String>,
    searches: Vec<SearchRow>,
    updater: Option<Status>,
    log: VecDeque<String>,
    username: String,
    sort: Sorting,
    min_bitrate: u32,
    downloads: DownloadList,
    uploads: UploadList,
}

impl View for Ui {
    type V = UiModel;

    closed spec fn view(&self) -> UiModel {
        UiModel {
            session: self.session@,
            searches: views(self.searches@),
            updater: match self.updater {
                Some(s) => Some(s@),
                None => None,
            },
            log: views(self.log@),
            username: self.username@,
            sort: self.sort,
            min_bitrate: self.min_bitrate,
            downloads: self.downloads@,
            uploads: self.uploads@,
        }
    }
}

impl Ui {
    /// The interface at the start, with the downloads that were found on disk.
    pub fn new(ctx: &AppContext, downloads: DownloadList) -> (r: Ui)
        ensures
            r@ == (UiModel {
                session: SessionStatus::Disconnected("starting up"@),
                searches: Seq::empty(),
                updater: None,
                log: Seq::empty(),
                username: ctx.config@.server.username,
                sort: None,
                min_bitrate: 0,
                downloads: downloads@,
                uploads: Seq::empty(),
            }),
    {
        let r = Ui {
            session: SessionStatus::Disconnected("starting up".to_owned()),
            searches: Vec::new(),
            updater: None,
            log: VecDeque::new(),
            username: ctx.config.server.username.clone(),
            sort: None,
            min_bitrate: 0,
            downloads,
            uploads: UploadList::new(),
        };
        assert(r@.searches =~= Seq::<SearchRowView>::empty());
        assert(r@.log =~= Seq::<Seq<char>>::empty());
        r
    }

    fn note(&mut self, line: String)
        ensures
            final(self)@ == (UiModel { log: logged(old(self)@.log, line@), ..old(self)@ }),
    {
        let ghost before = views(self.log@);
        if self.log.len() >= MAX_LOG_LINES {
            self.log.pop_front();
            assert(views(self.log@) =~= before.skip(1));
        }
        self.log.push_back(line);
    }

    /// Something happened to the session.
    pub fn session_event(&mut self, event: &SessionEvent<String>)
        ensures
            final(self)@ == on_session_event(old(self)@, event@),
    {
        match event {
            SessionEvent::Connecting => {
                self.session = SessionStatus::Connecting;
            },
            SessionEvent::LoggedIn { greeting, own_ip } => {
                self.session = SessionStatus::LoggedIn {
                    greeting: greeting.clone(),
                    own_ip: own_ip.clone(),
                };
            },
            SessionEvent::LoginFailed { reason } => {
                self.session = SessionStatus::LoginFailed(reason.clone());
            },
            SessionEvent::Disconnected { reason } => {
                self.session = SessionStatus::Disconnected(reason.clone());
            },
            SessionEvent::SearchStarted { token, query } => {
                let row = SearchRow { token: *token, query: query.clone(), results: Vec::new() };
                assert(row@.results =~= Seq::<ResultRowView>::empty());
                self.searches.push(row);
            },
            SessionEvent::SearchBroadcastSeen { username, query } => {
                let mut line = "search on the network: ".to_owned();
                line.append(username.as_str());
                line.append(": ");
                line.append(query.as_str());
                self.note(line);
            },
            SessionEvent::ProtocolNote { note } => {
                self.note(note.clone());
            },
        }
    }

    /// An update's state became known.
    pub fn updater_status(&mut self, status: Status)
        ensures
            final(self)@ == (UiModel { updater: Some(status@), ..old(self)@ }),
    {
        self.updater = Some(status);
    }

    /// The settings changed.
    pub fn config_changed(&mut self, config: &Config)
        ensures
            final(self)@ == (UiModel {
                username: config@.server.username,
                log: logged(old(self)@.log, "configuration updated"@),
                ..old(self)@
            }),
    {
        self.username = config.server.username.clone();
        self.note("configuration updated".to_owned());
    }

    /// Something happened among the peers.
    pub fn peer_activity(&mut self, note: &str)
        ensures
            final(self)@ == (UiModel { log: logged(old(self)@.log, note@), ..old(self)@ }),
    {
        self.note(note.to_owned());
    }

    /// The user asked for a file.
    pub fn start_download(&mut self, username: &str, filename: &str)
        ensures
            final(self)@ == (UiModel {
                downloads: with_state(
                    old(self)@.downloads,
                    username@,
                    filename@,
                    DownloadState::Queued,
                ),
                ..old(self)@
            }),
    {
        self.downloads.set_state(username, filename, DownloadState::Queued);
    }

    /// The user cancelled a download.
    pub fn cancel_download(&mut self, username: &str, filename: &str)
        ensures
            final(self)@ == (UiModel {
                downloads: old(self)@.downloads.filter(other_entry(username@, filename@)),
                ..old(self)@
            }),
    {
        self.downloads.remove(username, filename);
    }

    /// A download finished.
    pub fn download_complete(&mut self, username: &str, filename: &str, path: &str)
        ensures
            final(self)@ == (UiModel {
                log: logged(
                    old(self)@.log,
                    "downloaded "@ + filename@ + " from "@ + username@ + " → "@ + path@,
                ),
                downloads: with_state(
                    old(self)@.downloads,
                    username@,
                    filename@,
                    DownloadState::Completed(path@),
                ),
                ..old(self)@
            }),
    {
        let mut line = "downloaded ".to_owned();
        line.append(filename);
        line.append(" from ");
        line.append(username);
        line.append(" → ");
        line.append(path);
        self.note(line);
        self.downloads.set_state(username, filename, DownloadState::Completed(path.to_owned()));
    }

    /// A download failed.
    pub fn download_failed(&mut self, username: &str, filename: &str, reason: &str)
        ensures
            final(self)@ == (UiModel {
                log: logged(
                    old(self)@.log,
                    "download of "@ + filename@ + " from "@ + username@ + " failed: "@ + reason@,
                ),
                downloads: with_state(
                    old(self)@.downloads,
                    username@,
                    filename@,
                    DownloadState::Failed(reason@),
                ),
                ..old(self)@
            }),
    {
        let mut line = "download of ".to_owned();
        line.append(filename);
        line.append(" from ");
        line.append(username);
        line.append(" failed: ");
        line.append(reason);
        self.note(line);
        self.downloads.set_state(username, filename, DownloadState::Failed(reason.to_owned()));
    }

    /// A peer answered a search.
    pub fn search_result(&mut self, token: u32, row: SearchResultRow)
        ensures
            final(self)@ == (UiModel {
                searches: with_result(old(self)@.searches, token, row@),
                ..old(self)@
            }),
    {
        let ghost all = self@.searches;
        let mut i: usize = 0;
        while i < self.searches.len() && self.searches[i].token != token
            invariant
                i <= self.searches@.len(),
                *self == *old(self),
                all == views(self.searches@),
                forall|j: int| 0 <= j < i ==> (#[trigger] all[j]).token != token,
            decreases self.searches@.len() - i,
        {
            i += 1;
        }
        proof {
            lemma_search_slot(all, token, i as int);
        }
        if i < self.searches.len() && self.searches[i].results.len() < MAX_RESULTS_PER_SEARCH {
            let mut search = self.searches.remove(i);
            search.results.push(row);
            self.searches.insert(i, search);
            assert(self@.searches =~= with_result(all, token, row@));
        }
    }

    /// A position in an uploader's queue became known.
    pub fn queue_position(&mut self, username: &str, filename: &str, place: u32)
        ensures
            final(self)@ == on_queue_position(old(self)@, username@, filename@, place),
    {
        if place == 0 {
            let mut line = username.to_owned();
            line.append(" is starting our download of ");
            line.append(filename);
            self.note(line);
        } else {
            let mut line = "download of ".to_owned();
            line.append(filename);
            line.append(" from ");
            line.append(username);
            line.append(" is at queue position ");
            push_decimal(&mut line, place as u64);
            self.note(line);
        }
        let at_rest = match self.downloads.state(username, filename) {
            Some(state) => !state.is_active(),
            None => false,
        };
        if !at_rest {
            if place == 0 {
                self.downloads.set_state(username, filename, DownloadState::Starting);
            } else {
                self.downloads.set_state(username, filename, DownloadState::Position(place));
            }
        }
    }

    /// An upload began.
    pub fn upload_started(&mut self, username: &str, filename: &str, size: u64)
        ensures
            final(self)@ == (UiModel {
                uploads: with_upload(
                    old(self)@.uploads,
                    username@,
                    filename@,
                    UploadState::Active { bytes: 0, size },
                ),
                ..old(self)@
            }),
    {
        self.uploads.set_state(username, filename, UploadState::Active { bytes: 0, size });
    }

    /// Bytes of an upload went out.
    pub fn upload_progress(&mut self, username: &str, filename: &str, bytes: u64, size: u64)
        ensures
            final(self)@ == (UiModel {
                uploads: with_progress(old(self)@.uploads, username@, filename@, bytes, size),
                ..old(self)@
            }),
    {
        self.uploads.progress(username, filename, bytes, size);
    }

    /// An upload finished.
    pub fn upload_complete(&mut self, username: &str, filename: &str)
        ensures
            final(self)@ == (UiModel {
                log: logged(old(self)@.log, "uploaded "@ + filename@ + " to "@ + username@),
                uploads: with_upload(
                    old(self)@.uploads,
                    username@,
                    filename@,
                    UploadState::Completed,
                ),
                ..old(self)@
            }),
    {
        let mut line = "uploaded ".to_owned();
        line.append(filename);
        line.append(" to ");
        line.append(username);
        self.note(line);
        self.uploads.set_state(username, filename, UploadState::Completed);
    }

    /// An upload failed.
    pub fn upload_failed(&mut self, username: &str, filename: &str, reason: &str)
        ensures
            final(self)@ == (UiModel {
                log: logged(
                    old(self)@.log,
                    "upload of "@ + filename@ + " to "@ + username@ + " failed: "@ + reason@,
                ),
                uploads: with_upload(
                    old(self)@.uploads,
                    username@,
                    filename@,
                    UploadState::Failed(reason@),
                ),
                ..old(self)@
            }),
    {
        let mut line = "upload of ".to_owned();
        line.append(filename);
        line.append(" to ");
        line.append(username);
        line.append(" failed: ");
        line.append(reason);
        self.note(line);
        self.uploads.set_state(username, filename, UploadState::Failed(reason.to_owned()));
    }

    /// The user closed a search.
    pub fn remove_search(&mut self, token: u32)
        ensures
            final(self)@ == (UiModel {
                searches: old(self)@.searches.filter(other_search(token)),
                ..old(self)@
            }),
    {
        let ghost all = self@.searches;
        let ghost p = other_search(token);
        let ghost base = self@;
        let mut i: usize = 0;
        let ghost mut done: int = 0;
        proof {
            reveal(Seq::filter);
            assert(all.take(0).filter(p) =~= Seq::<SearchRowView>::empty());
            assert(all.take(0).filter(p) + all.skip(0) =~= all);
        }
        while i < self.searches.len()
            invariant
                0 <= done <= all.len(),
                p == other_search(token),
                self@ == (UiModel { searches: self@.searches, ..base }),
                i == all.take(done).filter(p).len(),
                self@.searches == views(self.searches@),
                self@.searches == all.take(done).filter(p) + all.skip(done),
            decreases all.len() - done,
        {
            let ghost head = all.take(done).filter(p);
            let ghost now = self@.searches;
            proof {
                assert(now[i as int] == all[done]);
                reveal(Seq::filter);
                assert(all.take(done + 1).drop_last() =~= all.take(done));
                assert(all.take(done + 1).last() == all[done]);
            }
            if self.searches[i].token == token {
                assert(!p(all[done]));
                self.searches.remove(i);
                assert(self@.searches =~= now.remove(i as int));
                assert(now.remove(i as int) =~= head + all.skip(done + 1));
            } else {
                assert(p(all[done]));
                assert(now =~= head.push(all[done]) + all.skip(done + 1));
                i += 1;
            }
            proof {
                done = done + 1;
            }
        }
        proof {
            assert(done == all.len());
            assert(all.take(done) =~= all);
            assert(self@.searches =~= all.filter(p));
        }
    }

    fn render_account_status(&self) -> (html: String)
        ensures
            html@ == account_html(self@),
    {
        match &self.session {
            SessionStatus::LoggedIn { greeting, own_ip: _ } => {
                let note = if trim(greeting.as_str()).is_empty() {
                    "".to_owned()
                } else {
                    fill1(ACCOUNT_NOTE, escape(greeting.as_str()).as_str())
                };
                fill2(ACCOUNT_IN, escape(self.username.as_str()).as_str(), note.as_str())
            },
            SessionStatus::Connecting => ACCOUNT_CONNECTING.to_owned(),
            SessionStatus::Disconnected(reason) => fill1(
                ACCOUNT_OUT,
                escape(reason.as_str()).as_str(),
            ),
            SessionStatus::LoginFailed(reason) => {
                let hint = if contains(reason.as_str(), "INVALIDPASS") {
                    HINT_PASSWORD
                } else if contains(reason.as_str(), "INVALIDUSERNAME") {
                    HINT_NAME
                } else {
                    HINT_RETRY
                };
                fill2(ACCOUNT_REFUSED, escape(reason.as_str()).as_str(), hint)
            },
        }
    }

    fn render_session(&self) -> (html: String)
        ensures
            html@ == session_html(self@),
    {
        match &self.session {
            SessionStatus::Disconnected(reason) => fill1(
                SESSION_OUT,
                escape(reason.as_str()).as_str(),
            ),
            SessionStatus::Connecting => SESSION_CONNECTING.to_owned(),
            SessionStatus::LoggedIn { greeting, own_ip } => fill3(
                SESSION_IN,
                escape(self.username.as_str()).as_str(),
                escape(own_ip.as_str()).as_str(),
                escape(greeting.as_str()).as_str(),
            ),
            SessionStatus::LoginFailed(reason) => fill1(
                SESSION_REFUSED,
                escape(reason.as_str()).as_str(),
            ),
        }
    }

    fn render_log(&self) -> (html: String)
        ensures
            html@ == (if self@.log.len() == 0 {
                ""@
            } else {
                filled(LOG@, blanks().push(log_lines(self@.log)))
            }),
    {
        if self.log.len() == 0 {
            return "".to_owned();
        }
        let ghost all = self@.log;
        let mut lines = String::new();
        let mut i: usize = self.log.len();
        assert(all.take(i as int) =~= all);
        assert(lines@ + log_lines(all) =~= log_lines(all));
        while i > 1
            invariant
                1 <= i <= self.log@.len(),
                all == views(self.log@),
                lines@ + log_lines(all.take(i as int)) == log_lines(all),
            decreases i,
        {
            let ghost now = all.take(i as int);
            let ghost before = lines@;
            assert(now.drop_last() =~= all.take(i as int - 1));
            assert(now.last() == self.log@[i as int - 1]@);
            lines.append(escape(self.log[i - 1].as_str()).as_str());
            lines.append("\n");
            assert(lines@ + log_lines(now.drop_last()) =~= before + log_lines(now));
            i -= 1;
        }
        assert(all.take(1)[0] == self.log@[0]@);
        lines.append(escape(self.log[0].as_str()).as_str());
        fill1(LOG, lines.as_str())
    }

    fn render_status(&self) -> (html: String)
        ensures
            html@ == status_html(self@),
    {
        let session = self.render_session();
        let updater = match &self.updater {
            Some(status) => render_updater(status),
            None => "".to_owned(),
        };
        let log = self.render_log();
        fill3(STATUS, session.as_str(), updater.as_str(), log.as_str())
    }

    fn render_searches(&self) -> (html: String)
        ensures
            html@ == searches_html(self@),
    {
        if self.searches.len() == 0 {
            return "<p>no searches yet</p>".to_owned();
        }
        let ghost m = self@;
        let ghost all = m.searches;
        let mut html = String::new();
        let mut i: usize = self.searches.len();
        assert(all.take(i as int) =~= all);
        assert(html@ + search_cards_html(m, all) =~= search_cards_html(m, all));
        while i > 0
            invariant
                i <= self.searches@.len(),
                m == self@,
                all == views(self.searches@),
                html@ + search_cards_html(m, all.take(i as int)) == search_cards_html(m, all),
            decreases i,
        {
            let ghost now = all.take(i as int);
            let ghost before = html@;
            assert(now.drop_last() =~= all.take(i as int - 1));
            assert(now.last() == self.searches@[i as int - 1]@);
            html.append(
                render_search(
                    &self.searches[i - 1],
                    self.sort,
                    self.min_bitrate,
                    &self.downloads,
                ).as_str(),
            );
            assert(html@ + search_cards_html(m, now.drop_last()) =~= before + search_cards_html(
                m,
                now,
            ));
            i -= 1;
        }
        assert(html@ + search_cards_html(m, all.take(0)) =~= html@);
        html
    }

    /// A page as it stands.
    pub fn render(&self, page: &Page<String>) -> (html: String)
        ensures
            html@ == page_html(self@, page@),
    {
        match page {
            Page::Index => {
                let body = fill1(INDEX, col_bar(self.min_bitrate).as_str());
                shell("soulrust", "search", self.username.as_str(), body.as_str())
            },
            Page::StatusFragment => self.render_status(),
            Page::SearchesFragment => self.render_searches(),
            Page::ConfigForm => CONFIG_NOTE.to_owned(),
            Page::AccountStatus => self.render_account_status(),
            Page::Downloads => shell(
                "soulrust — downloads",
                "downloads",
                self.username.as_str(),
                DOWNLOADS_BODY,
            ),
            Page::DownloadsFragment => self.downloads.render(),
            Page::Uploads => shell(
                "soulrust — uploads",
                "uploads",
                self.username.as_str(),
                UPLOADS_BODY,
            ),
            Page::UploadsFragment => self.uploads.render(),
            Page::SortSearches { key: _ } => self.render_searches(),
            Page::FilterBitrate { min: _ } => self.render_searches(),
        }
    }

    /// A page was asked for: sorts or filters where it says so, and shows it.
    pub fn http_render(&mut self, page: &Page<String>) -> (html: String)
        ensures
            final(self)@ == on_page(old(self)@, page@),
            html@ == page_html(on_page(old(self)@, page@), page@),
    {
        match page {
            Page::SortSearches { key } => {
                if let Some(k) = SortKey::parse(key.as_str()) {
                    self.sort = toggle_sort(self.sort, k);
                }
            },
            Page::FilterBitrate { min } => {
                self.min_bitrate = *min;
            },
            _ => {},
        }
        self.render(page)
    }
}

fn render_updater(status: &Status) -> (html: String)
    ensures
        html@ == updater_html(status@),
{
    match status {
        UpdaterStatus::Checking => fill1(BANNER, "checking for updates…"),
        UpdaterStatus::UpToDate { current } => fill1(
            BANNER,
            fill1("up to date (v{})", current.as_str()).as_str(),
        ),
        UpdaterStatus::Available { latest } => fill1(
            BANNER,
            fill1("update v{} available", latest.as_str()).as_str(),
        ),
        UpdaterStatus::Downloading { latest } => fill1(
            BANNER,
            fill1("downloading v{}…", latest.as_str()).as_str(),
        ),
        UpdaterStatus::ReadyToApply { latest } => fill1(
            BANNER,
            fill1(UPDATE_READY, latest.as_str()).as_str(),
        ),
        UpdaterStatus::RestartRequired { latest } => fill1(
            BANNER,
            fill1(UPDATE_INSTALLED, latest.as_str()).as_str(),
        ),
        UpdaterStatus::Failed { error } => fill1(
            BANNER_ERROR,
            fill1("update failed: {}", escape(error.as_str()).as_str()).as_str(),
        ),
        UpdaterStatus::Skipped { reason } => fill1(
            BANNER,
            fill1("updates skipped: {}", escape(reason.as_str()).as_str()).as_str(),
        ),
    }
}

/// An answer goes to the search with its token, behind the answers that it has, as long as that
/// has room; no other search changes, nor what a search is for.
pub proof fn law_answers_go_to_their_search(
    searches: Seq<SearchRowView>,
    token: u32,
    row: ResultRowView,
    k: int,
    other: int,
)
    requires
        0 <= k < searches.len(),
        searches[k].token == token,
        forall|i: int| 0 <= i < k ==> (#[trigger] searches[i]).token != token,
    ensures
        ({
            let after = with_result(searches, token, row);
            &&& after.len() == searches.len()
            &&& 0 <= other < searches.len() && other != k ==> after[other] == searches[other]
            &&& after[k].token == token && after[k].query == searches[k].query
            &&& searches[k].results.len() < MAX_RESULTS_PER_SEARCH ==> after[k].results
                == searches[k].results.push(row)
            &&& searches[k].results.len() >= MAX_RESULTS_PER_SEARCH ==> after == searches
        }),
{
    lemma_search_slot(searches, token, k);
}

/// The log keeps the latest lines, in the order in which they came: a new one stands last, and only
/// a full log gives up its first.
pub proof fn law_the_log_keeps_the_latest(log: Seq<Seq<char>>, line: Seq<char>)
    ensures
        log.len() < MAX_LOG_LINES ==> logged(log, line).drop_last() == log,
        log.len() >= MAX_LOG_LINES ==> logged(log, line).drop_last() == log.drop_first(),
        logged(log, line).last() == line,
{
    if log.len() < MAX_LOG_LINES {
        assert(logged(log, line).drop_last() =~= log);
    } else {
        assert(logged(log, line).drop_last() =~= log.drop_first());
    }
}

/// A page shows the log newest first.
pub proof fn law_newer_lines_stand_above(log: Seq<Seq<char>>, line: Seq<char>)
    ensures
        log_lines(seq![line]) == escaped(line),
        log.len() > 0 ==> log_lines(log.push(line)) == escaped(line) + "\n"@ + log_lines(log),
{
    assert(log.push(line).drop_last() =~= log);
}

/// A search that is started is listed last, without answers, and one that is removed is gone; a
/// change of the connection touches neither searches nor transfers.
pub proof fn law_searches_are_listed_as_they_start(
    m: UiModel,
    token: u32,
    query: Seq<char>,
    event: SessionEvent<Seq<char>>,
)
    ensures
        ({
            let after = on_session_event(m, SessionEvent::SearchStarted { token, query });
            &&& after.searches.drop_last() == m.searches
            &&& after.searches.last().token == token && after.searches.last().query == query
            &&& after.searches.last().results.len() == 0
            &&& after.session == m.session && after.log == m.log
        }),
        !(event is SearchStarted) ==> on_session_event(m, event).searches == m.searches,
        on_session_event(m, event).downloads == m.downloads && on_session_event(m, event).uploads
            == m.uploads && on_session_event(m, event).updater == m.updater,
        m.searches.filter(other_search(token)) == m.searches.filter(
            |s: SearchRowView| s.token != token,
        ),
{
    assert(m.searches.push(
        SearchRowView { token, query, results: Seq::empty() },
    ).drop_last() =~= m.searches);
    assert(other_search(token) =~= (|s: SearchRowView| s.token != token));
}

/// What the connection is told to be is what is kept of it.
pub proof fn law_the_connection_is_shown_as_told(
    m: UiModel,
    greeting: Seq<char>,
    own_ip: Seq<char>,
    reason: Seq<char>,
)
    ensures
        on_session_event(m, SessionEvent::Connecting).session is Connecting,
        on_session_event(m, SessionEvent::LoggedIn { greeting, own_ip }).session == (
        SessionStatus::LoggedIn { greeting, own_ip }),
        on_session_event(m, SessionEvent::LoginFailed { reason }).session
            == SessionStatus::LoginFailed(reason),
        on_session_event(m, SessionEvent::Disconnected { reason }).session
            == SessionStatus::Disconnected(reason),
        on_session_event(m, SessionEvent::ProtocolNote { note: reason }).session == m.session,
        on_session_event(m, SessionEvent::ProtocolNote { note: reason }).log.last() == reason,
{
}

/// A place in a queue is shown for the download that it is about: 0 means that it starts. A
/// download that came to an end, or that was only found on disk, stays as it is.
pub proof fn law_a_place_is_shown_of_its_download(
    m: UiModel,
    username: Seq<char>,
    filename: Seq<char>,
    place: u32,
    other_user: Seq<char>,
    other_file: Seq<char>,
)
    requires
        m.downloads.len() < crate::ui::downloads::MAX_DOWNLOADS || state_of(m.downloads, username, filename) is Some,
    ensures
        ({
            let before = state_of(m.downloads, username, filename);
            let after = on_queue_position(m, username, filename, place);
            let now = state_of(after.downloads, username, filename);
            &&& match before {
                Some(DownloadState::Completed(_)) | Some(DownloadState::Failed(_)) | Some(
                    DownloadState::Incomplete,
                ) => after.downloads == m.downloads,
                _ => now == Some(
                    if place == 0 {
                        DownloadState::<Seq<char>>::Starting
                    } else {
                        DownloadState::Position(place)
                    },
                ),
            }
            &&& !(other_user == username && other_file == filename) ==> state_of(
                after.downloads,
                other_user,
                other_file,
            ) == state_of(m.downloads, other_user, other_file)
            &&& after.searches == m.searches && after.uploads == m.uploads
        }),
{
    crate::ui::downloads::law_a_state_reads_back(
        m.downloads,
        username,
        filename,
        if place == 0 {
            DownloadState::Starting
        } else {
            DownloadState::Position(place)
        },
        other_user,
        other_file,
    );
}

/// The cards of the searches stand newest first, each with its own search.
pub proof fn law_newer_searches_stand_above(
    m: UiModel,
    a: Seq<SearchRowView>,
    b: Seq<SearchRowView>,
    s: SearchRowView,
)
    ensures
        search_cards_html(m, a + b) == search_cards_html(m, b) + search_cards_html(m, a),
        search_cards_html(m, seq![s]) == search_html(s, m.sort, m.min_bitrate, m.downloads),
    decreases b.len(),
{
    let one = seq![s];
    assert(one.drop_last() =~= Seq::<SearchRowView>::empty());
    assert(one.last() == s);
    assert(search_cards_html(m, one.drop_last()) =~= Seq::<char>::empty());
    assert(search_cards_html(m, one) =~= search_html(s, m.sort, m.min_bitrate, m.downloads));
    if b.len() == 0 {
        assert(a + b =~= a);
        assert(search_cards_html(m, b) + search_cards_html(m, a) =~= search_cards_html(m, a));
    } else {
        law_newer_searches_stand_above(m, a, b.drop_last(), s);
        assert((a + b).drop_last() =~= a + b.drop_last());
        assert((a + b).last() == b.last());
        assert(search_cards_html(m, a + b) =~= search_cards_html(m, b) + search_cards_html(m, a));
    }
}

/// A page that sorts or filters changes how results are shown and nothing else; every other page
/// changes nothing.
pub proof fn law_pages_change_only_what_is_shown(m: UiModel, page: Page<Seq<char>>, min: u32)
    ensures
        on_page(m, page).searches == m.searches && on_page(m, page).downloads == m.downloads
            && on_page(m, page).uploads == m.uploads && on_page(m, page).session == m.session
            && on_page(m, page).log == m.log,
        !(page is SortSearches || page is FilterBitrate) ==> on_page(m, page) == m,
        on_page(m, Page::FilterBitrate { min }).min_bitrate == min,
        on_page(m, Page::FilterBitrate { min }).sort == m.sort,
        page is SortSearches ==> on_page(m, page).min_bitrate == m.min_bitrate,
{
}

proof fn lemma_session_in_pieces()
    ensures
        SESSION_IN@.len() == 45,
        SESSION_IN@.subrange(0, 22) == "<span>logged in as <b>"@,
        SESSION_IN@[22] == '{' && SESSION_IN@[23] == '}',
        SESSION_IN@.subrange(24, 30) == "</b> ("@,
        SESSION_IN@[30] == '{' && SESSION_IN@[31] == '}',
        SESSION_IN@.subrange(32, 36) == ") — "@,
        SESSION_IN@[36] == '{' && SESSION_IN@[37] == '}',
        SESSION_IN@.subrange(38, 45) == "</span>"@,
{
    reveal_strlit(
        "<span>logged in as <b>{}</b> ({}) — {}</span>",
    );
    assert(SESSION_IN@.subrange(0, 22) =~= "<span>logged in as <b>"@) by {
        reveal_strlit("<span>logged in as <b>");
    }
    assert(SESSION_IN@.subrange(24, 30) =~= "</b> ("@) by {
        reveal_strlit("</b> (");
    }
    assert(SESSION_IN@.subrange(32, 36) =~= ") — "@) by {
        reveal_strlit(") — ");
    }
    assert(SESSION_IN@.subrange(38, 45) =~= "</span>"@) by {
        reveal_strlit("</span>");
    }
}

proof fn lemma_session_in_plain()
    ensures
        forall|k: int| 0 <= k < ") — "@.len() ==> #[trigger] ") — "@[k] != '{',
        forall|k: int| 0 <= k < "</b> ("@.len() ==> #[trigger] "</b> ("@[k] != '{',
        forall|k: int| 0 <= k < "</span>"@.len() ==> #[trigger] "</span>"@[k] != '{',
        forall|k: int| 0 <= k < "<span>logged in as <b>"@.len() ==> #[trigger] "<span>logged in as <b>"@[k] != '{',
{
    assert forall|k: int| 0 <= k < ") — "@.len() implies #[trigger] ") — "@[k]
        != '{' by {
        reveal_strlit(") — ");
    }
    assert forall|k: int| 0 <= k < "</b> ("@.len() implies #[trigger] "</b> ("@[k]
        != '{' by {
        reveal_strlit("</b> (");
    }
    assert forall|k: int| 0 <= k < "</span>"@.len() implies #[trigger] "</span>"@[k]
        != '{' by {
        reveal_strlit("</span>");
    }
    assert forall|k: int| 0 <= k < "<span>logged in as <b>"@.len() implies #[trigger] "<span>logged in as <b>"@[k]
        != '{' by {
        reveal_strlit("<span>logged in as <b>");
    }
}

proof fn lemma_session_in_filled(v: Seq<Seq<char>>)
    requires
        v.len() == 3,
    ensures
        filled(SESSION_IN@, v) == "<span>logged in as <b>"@ + (v[0] + (
            "</b> ("@ + (v[1] + (
            ") — "@ + (v[2] + (
            "</span>"@)))))),
{
    lemma_session_in_pieces();
    lemma_session_in_plain();
    let t = SESSION_IN@;
    assert(v.skip(0) =~= v);
    assert(t.skip(0) =~= t);
    crate::template::lemma_text_behind(t, 38, "</span>"@, v.skip(3));
    crate::template::lemma_blank_at(t, 32, ") — "@, 38, v, 2);
    crate::template::lemma_blank_at(t, 24, "</b> ("@, 32, v, 1);
    crate::template::lemma_blank_at(t, 0, "<span>logged in as <b>"@, 24, v, 0);
}

/// While we are logged in, the status shows our name, our address and the greeting.
pub proof fn law_a_login_is_shown(m: UiModel, greeting: Seq<char>, own_ip: Seq<char>)
    requires
        m.session == (SessionStatus::LoggedIn { greeting, own_ip }),
    ensures
        session_html(m) == "<span>logged in as <b>"@ + (escaped(m.username) + (
            "</b> ("@ + (escaped(own_ip) + (
            ") — "@ + (escaped(greeting) + (
            "</span>"@)))))),
{
    let v = blanks()
        .push(escaped(m.username))
        .push(escaped(own_ip))
        .push(escaped(greeting));
    lemma_session_in_filled(v);
}

proof fn lemma_session_out_pieces()
    ensures
        SESSION_OUT@.len() == 30,
        SESSION_OUT@.subrange(0, 20) == "<span>disconnected ("@,
        SESSION_OUT@[20] == '{' && SESSION_OUT@[21] == '}',
        SESSION_OUT@.subrange(22, 30) == ")</span>"@,
{
    reveal_strlit(
        "<span>disconnected ({})</span>",
    );
    assert(SESSION_OUT@.subrange(0, 20) =~= "<span>disconnected ("@) by {
        reveal_strlit("<span>disconnected (");
    }
    assert(SESSION_OUT@.subrange(22, 30) =~= ")</span>"@) by {
        reveal_strlit(")</span>");
    }
}

proof fn lemma_session_out_plain()
    ensures
        forall|k: int| 0 <= k < ")</span>"@.len() ==> #[trigger] ")</span>"@[k] != '{',
        forall|k: int| 0 <= k < "<span>disconnected ("@.len() ==> #[trigger] "<span>disconnected ("@[k] != '{',
{
    assert forall|k: int| 0 <= k < ")</span>"@.len() implies #[trigger] ")</span>"@[k]
        != '{' by {
        reveal_strlit(")</span>");
    }
    assert forall|k: int| 0 <= k < "<span>disconnected ("@.len() implies #[trigger] "<span>disconnected ("@[k]
        != '{' by {
        reveal_strlit("<span>disconnected (");
    }
}

proof fn lemma_session_out_filled(v: Seq<Seq<char>>)
    requires
        v.len() == 1,
    ensures
        filled(SESSION_OUT@, v) == "<span>disconnected ("@ + (v[0] + (
            ")</span>"@)),
{
    lemma_session_out_pieces();
    lemma_session_out_plain();
    let t = SESSION_OUT@;
    assert(v.skip(0) =~= v);
    assert(t.skip(0) =~= t);
    crate::template::lemma_text_behind(t, 22, ")</span>"@, v.skip(1));
    crate::template::lemma_blank_at(t, 0, "<span>disconnected ("@, 22, v, 0);
}

/// While we are not connected, the status shows why.
pub proof fn law_a_lost_connection_is_shown(m: UiModel, reason: Seq<char>)
    requires
        m.session == SessionStatus::Disconnected(reason),
    ensures
        session_html(m) == "<span>disconnected ("@ + (escaped(reason) + (
            ")</span>"@)),
{
    let v = blanks()
        .push(escaped(reason));
    lemma_session_out_filled(v);
}

proof fn lemma_session_refused_pieces()
    ensures
        SESSION_REFUSED@.len() == 43,
        SESSION_REFUSED@.subrange(0, 34) == "<span class=\"error\">login failed: "@,
        SESSION_REFUSED@[34] == '{' && SESSION_REFUSED@[35] == '}',
        SESSION_REFUSED@.subrange(36, 43) == "</span>"@,
{
    reveal_strlit(
        "<span class=\"error\">login failed: {}</span>",
    );
    assert(SESSION_REFUSED@.subrange(0, 34) =~= "<span class=\"error\">login failed: "@) by {
        reveal_strlit("<span class=\"error\">login failed: ");
    }
    assert(SESSION_REFUSED@.subrange(36, 43) =~= "</span>"@) by {
        reveal_strlit("</span>");
    }
}

proof fn lemma_session_refused_plain()
    ensures
        forall|k: int| 0 <= k < "</span>"@.len() ==> #[trigger] "</span>"@[k] != '{',
        forall|k: int| 0 <= k < "<span class=\"error\">login failed: "@.len() ==> #[trigger] "<span class=\"error\">login failed: "@[k] != '{',
{
    assert forall|k: int| 0 <= k < "</span>"@.len() implies #[trigger] "</span>"@[k]
        != '{' by {
        reveal_strlit("</span>");
    }
    assert forall|k: int| 0 <= k < "<span class=\"error\">login failed: "@.len() implies #[trigger] "<span class=\"error\">login failed: "@[k]
        != '{' by {
        reveal_strlit("<span class=\"error\">login failed: ");
    }
}

proof fn lemma_session_refused_filled(v: Seq<Seq<char>>)
    requires
        v.len() == 1,
    ensures
        filled(SESSION_REFUSED@, v) == "<span class=\"error\">login failed: "@ + (v[0] + (
            "</span>"@)),
{
    lemma_session_refused_pieces();
    lemma_session_refused_plain();
    let t = SESSION_REFUSED@;
    assert(v.skip(0) =~= v);
    assert(t.skip(0) =~= t);
    crate::template::lemma_text_behind(t, 36, "</span>"@, v.skip(1));
    crate::template::lemma_blank_at(t, 0, "<span class=\"error\">login failed: "@, 36, v, 0);
}

/// Where a login failed, the status shows why.
pub proof fn law_a_refused_login_is_shown(m: UiModel, reason: Seq<char>)
    requires
        m.session == SessionStatus::LoginFailed(reason),
    ensures
        session_html(m) == "<span class=\"error\">login failed: "@ + (escaped(reason) + (
            "</span>"@)),
{
    let v = blanks()
        .push(escaped(reason));
    lemma_session_refused_filled(v);
}

proof fn lemma_status_pieces()
    ensures
        STATUS@.len() == 32,
        STATUS@.subrange(0, 20) == "<div class=\"banner\">"@,
        STATUS@[20] == '{' && STATUS@[21] == '}',
        STATUS@.subrange(22, 28) == "</div>"@,
        STATUS@[28] == '{' && STATUS@[29] == '}',
        STATUS@[30] == '{' && STATUS@[31] == '}',
{
    reveal_strlit(
        "<div class=\"banner\">{}</div>{}{}",
    );
    assert(STATUS@.subrange(0, 20) =~= "<div class=\"banner\">"@) by {
        reveal_strlit("<div class=\"banner\">");
    }
    assert(STATUS@.subrange(22, 28) =~= "</div>"@) by {
        reveal_strlit("</div>");
    }
}

proof fn lemma_status_plain()
    ensures
        forall|k: int| 0 <= k < "</div>"@.len() ==> #[trigger] "</div>"@[k] != '{',
        forall|k: int| 0 <= k < "<div class=\"banner\">"@.len() ==> #[trigger] "<div class=\"banner\">"@[k] != '{',
{
    assert forall|k: int| 0 <= k < "</div>"@.len() implies #[trigger] "</div>"@[k]
        != '{' by {
        reveal_strlit("</div>");
    }
    assert forall|k: int| 0 <= k < "<div class=\"banner\">"@.len() implies #[trigger] "<div class=\"banner\">"@[k]
        != '{' by {
        reveal_strlit("<div class=\"banner\">");
    }
}

proof fn lemma_status_filled(v: Seq<Seq<char>>)
    requires
        v.len() == 3,
    ensures
        filled(STATUS@, v) == "<div class=\"banner\">"@ + (v[0] + (
            "</div>"@ + (v[1] + (
            v[2])))),
{
    lemma_status_pieces();
    lemma_status_plain();
    let t = STATUS@;
    let none = Seq::<char>::empty();
    assert(v.skip(0) =~= v);
    assert(t.skip(0) =~= t);
    assert(t.subrange(32, 32) =~= none);
    assert(v[2] + none =~= v[2]);
    crate::template::lemma_text_behind(t, 32, none, v.skip(3));
    assert(t.subrange(30, 30) =~= none);
    crate::template::lemma_blank_at(t, 30, none, 32, v, 2);
    assert(none + (v[2] + filled(t.skip(32), v.skip(3))) =~= v[2] + filled(
        t.skip(32),
        v.skip(3),
    ));
    crate::template::lemma_blank_at(t, 22, "</div>"@, 30, v, 1);
    crate::template::lemma_blank_at(t, 0, "<div class=\"banner\">"@, 22, v, 0);
}

/// The status shows the connection, and below it what the updater and the log have to say.
pub proof fn law_the_status_shows_connection_updates_and_log(m: UiModel)
    ensures
        status_html(m) == "<div class=\"banner\">"@ + (session_html(m) + (
            "</div>"@ + (match m.updater { Some(s) => updater_html(s), None => ""@ } + (
            (if m.log.len() == 0 { ""@ } else { filled(LOG@, blanks().push(log_lines(m.log))) }))))),
{
    let v = blanks()
        .push(session_html(m))
        .push(match m.updater { Some(s) => updater_html(s), None => ""@ })
        .push(if m.log.len() == 0 { ""@ } else { filled(LOG@, blanks().push(log_lines(m.log))) });
    lemma_status_filled(v);
}

/// What went wrong with a login is explained by the reason that the server gave.
pub proof fn law_hints_follow_the_reason(reason: Seq<char>)
    ensures
        occurs(reason, "INVALIDPASS"@) ==> login_hint(reason) == HINT_PASSWORD@,
        !occurs(reason, "INVALIDPASS"@) && occurs(reason, "INVALIDUSERNAME"@) ==> login_hint(reason)
            == HINT_NAME@,
        !occurs(reason, "INVALIDPASS"@) && !occurs(reason, "INVALIDUSERNAME"@) ==> login_hint(
            reason,
        ) == HINT_RETRY@,
{
}

/// Every page shows its own part of what is known, and a page that sorts or filters shows the
/// searches.
pub proof fn law_pages_show_their_own_part(m: UiModel, key: Seq<char>, min: u32)
    ensures
        page_html(m, Page::DownloadsFragment) == downloads_html(m.downloads),
        page_html(m, Page::UploadsFragment) == uploads_html(m.uploads),
        page_html(m, Page::StatusFragment) == status_html(m),
        page_html(m, Page::SearchesFragment) == page_html(m, Page::SortSearches { key }),
        page_html(m, Page::SearchesFragment) == page_html(m, Page::FilterBitrate { min }),
        m.searches.len() > 0 ==> page_html(m, Page::SearchesFragment) == search_cards_html(
            m,
            m.searches,
        ),
{
}

} // verus!
