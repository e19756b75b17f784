//! The pages for settings, accounts and many downloads.
use vstd::prelude::*;
use vstd::string::*;

use crate::config::{
    download_path_of, incomplete_path_of, Config, ConfigView, SpotifyView,
};
use crate::html::{escape, escaped};
use crate::template::{blanks, fill, fill2, fill3, filled, Values};
use crate::text::{decimal, group_views, ov, views};
use crate::ui_theme::{col_bar, col_bar_html, shell, shell_html};

verus! {

broadcast use group_views;

/// The card of a connected account.
pub const CARD_CONNECTED: &'static str = r#"<div class="card"><span class="pill ok">● Spotify connected</span>
<a class="btn secondary" style="margin-left:0.6rem" href="/spotify">Manage</a></div>"#;

/// The card of credentials without a login.
pub const CARD_LOGGED_OUT: &'static str = r#"<div class="card"><span class="pill warn">● Spotify not logged in</span>
<a class="btn spotify" style="margin-left:0.6rem" href="/spotify/login">Log in with Spotify</a>
<p class="muted" style="margin:0.6rem 0 0">Log in so soulrust can read your playlists.</p></div>"#;

/// The card without credentials.
pub const CARD_UNSET: &'static str = r#"<div class="card"><span class="pill warn">● Spotify not connected</span>
<a class="btn spotify" style="margin-left:0.6rem" href="/spotify">Set up Spotify</a>
<p class="muted" style="margin:0.6rem 0 0">Connect Spotify to paste playlist, album, and track links.</p></div>"#;

/// The hint of a connected account.
pub const HINT_CONNECTED: &'static str = r#"<p style="margin:0.5rem 0 0"><span class="pill ok">● Spotify connected</span></p>"#;

/// The hint without a login.
pub const HINT_UNSET: &'static str = r#"<p class="muted" style="margin:0.5rem 0 0">Paste a playlist, album, or track link — needs <a href="/spotify">Spotify connected</a>.</p>"#;

/// The page for many downloads: the account card and the toolbar.
pub const BULK: &'static str = r##"<h1>Bulk downloads</h1>
<p class="sub">Queue many tracks at once — paste a Spotify link or a plain track list, and soulrust searches the network for each.</p>
{}
<div class="card">
<form hx-post="/search" hx-target="#bulk-results" hx-swap="innerHTML">
  <label for="source">Source</label>
  <select id="source" name="source">
    <option value="spotify">Spotify link (playlist / album / track)</option>
    <option value="tracklist">Track list (one "artist - title" per line)</option>
  </select>
  <label for="input" style="margin-top:0.9rem">Paste here</label>
  <textarea id="input" name="input" placeholder="https://open.spotify.com/playlist/...&#10;— or —&#10;Daft Punk - Get Lucky&#10;Justice - Genesis"></textarea>
  <p class="muted" style="margin:0.5rem 0 0.9rem">Spotify links need credentials set up first. Plain track lists work with no setup.</p>
  <label style="display:flex; align-items:center; gap:0.4rem; font-weight:normal; margin:0 0 0.9rem">
    <input type="checkbox" name="organize" value="1" checked>
    Organize into a folder named after the playlist, numbering tracks (01, 02, …)
  </label>
  <button class="btn" type="submit">Start searches</button>
</form>
</div>
<h2>Searches</h2>
{}
<div id="bulk-results" class="results" hx-get="/fragments/searches" hx-trigger="load, every 2s"></div>"##;

/// The login card: heading and label.
pub const SPOTIFY_LOGIN: &'static str = r#"<div class="card"><h2 style="margin-top:0">{}</h2>
<p class="muted" style="margin-top:0">soulrust opens Spotify in your browser to authorize read-only access to your playlists. Spotify only serves playlists you own or collaborate on.</p>
<a class="btn spotify" href="/spotify/login">{}</a></div>"#;

/// The account page: status, banner, redirect address, client id, placeholder of the secret and the login card.
pub const SPOTIFY: &'static str = r#"<h1>Connect Spotify</h1>
<p class="sub">{} &nbsp; soulrust reads your Spotify playlists (plus albums and tracks) to turn them into searches. Create a free Spotify app once, paste its two keys, then log in.</p>
{}
<div class="card">
<h2 style="margin-top:0">Get your keys (about 2 minutes)</h2>
<ol class="steps">
  <li>Open the <a href="https://developer.spotify.com/dashboard" target="_blank" rel="noopener">Spotify Developer Dashboard</a> and log in with any Spotify account (a free account works).</li>
  <li>Click <strong>Create app</strong>.</li>
  <li>Fill in an <strong>App name</strong> (e.g. <code>soulrust</code>) and a short description. For <strong>Redirect URI</strong> enter <code>{}</code> <strong>exactly</strong> — this is where Spotify sends you back after you log in. Under "Which API/SDKs…?" tick <strong>Web API</strong>, accept the terms, and click <strong>Save</strong>.</li>
  <li>Open your new app and go to <strong>Settings</strong>.</li>
  <li>Copy the <strong>Client ID</strong>. Click <strong>View client secret</strong> and copy the <strong>Client secret</strong>.</li>
  <li>Paste both below and click <strong>Save</strong>, then <strong>Log in with Spotify</strong>.</li>
</ol>
<p class="muted">This uses Spotify's Authorization Code flow: after you approve it once, soulrust gets read-only access to your playlists and stores only a refresh token locally — it never sees your password.</p>
</div>
<div class="card">
<form hx-post="/spotify" hx-target="body">
  <label>Client ID <input type="text" name="spotify_client_id" value="{}" placeholder="e.g. 1a2b3c4d5e6f..."></label>
  <label>Client secret <input type="password" name="spotify_client_secret" value="" placeholder="{}"></label>
  <p style="margin-top:0.9rem"><button class="btn spotify" type="submit">Save</button>
  <a class="btn secondary" style="margin-left:0.5rem" href="/bulk">Back to bulk downloads</a></p>
</form>
</div>
{}"#;

/// The account screen: banner, user name and placeholder of the password.
pub const ACCOUNT: &'static str = r##"<h1>Account</h1>
<p class="sub">Sign in to Soulseek, or create a new account. Soulseek has no separate sign-up — entering a username nobody has used yet registers it on first sign-in.</p>
{}
<div id="account-status" hx-get="/fragments/account-status" hx-trigger="load, every 2s"></div>
<div class="card">
<form hx-post="/account" hx-target="body">
  <label for="acc-user">Username</label>
  <input id="acc-user" type="text" name="username" value="{}" placeholder="your Soulseek username" autocomplete="username">
  <label for="acc-pass" style="margin-top:0.8rem">Password</label>
  <input id="acc-pass" type="password" name="password" value="" placeholder="{}" autocomplete="current-password">
  <p style="margin-top:1rem"><button class="btn" type="submit">Sign in / create account</button></p>
</form>
</div>
<div class="card">
<h2 style="margin-top:0">Creating a new account</h2>
<ol class="steps">
  <li>Pick a <strong>username nobody else has used</strong> and any password.</li>
  <li>Click <strong>Sign in / create account</strong> — the name is registered on first sign-in.</li>
  <li>If it says <code>INVALIDPASS</code>, that username is already taken — choose a different one.</li>
</ol>
<p class="muted">There's no email or password recovery on Soulseek, so keep your password safe. It's stored locally and only ever sent to the server as a hash.</p>
</div>"##;

/// The settings, field by field.
pub const CONFIG: &'static str = r##"<h1>Settings</h1>
<p class="sub">Server, Spotify, updates, and the web UI address. Server and Spotify changes apply after a restart.</p>
<div id="result">{}</div>
<form hx-post="/config" hx-target="body">
<div class="card"><h2 style="margin-top:0">Soulseek server</h2>
<label>host <input type="text" name="host" value="{}"></label>
<label>port <input type="text" name="port" value="{}"></label>
<label>username <input type="text" name="username" value="{}"></label>
<label>password (leave empty to keep) <input type="password" name="password" value="" placeholder="{}"></label>
<label>listen port <input type="text" name="listen_port" value="{}"></label>
</div>
<div class="card"><h2 style="margin-top:0">Downloads &amp; sharing</h2>
<p class="muted" style="margin-top:0">Where finished downloads land, and which of your folders you share with the network. Applied live — no restart needed.</p>
<label>download folder <input type="text" name="download_dir" value="{}" placeholder="{}"></label>
<label>incomplete folder (optional) <input type="text" name="incomplete_dir" value="{}" placeholder="{}"></label>
<label>shared folders — one path per line <textarea name="folders" rows="3" placeholder="/home/you/Music">{}</textarea></label>
<label>upload slots <input type="text" name="upload_slots" value="{}"></label>
<label><input type="checkbox" name="respond_to_searches" {}> let other users find and download my shared files</label>
</div>
<div class="card"><h2 style="margin-top:0">Spotify</h2>
<p class="muted" style="margin-top:0">Prefer the guided <a href="/spotify">Connect Spotify</a> page if you're not sure how to get these.</p>
<label>client id <input type="text" name="spotify_client_id" value="{}"></label>
<label>client secret (leave empty to keep) <input type="password" name="spotify_client_secret" value="" placeholder="{}"></label>
</div>
<div class="card"><h2 style="margin-top:0">Updates</h2>
<label><input type="checkbox" name="update_enabled" {}> check for updates on startup</label>
<label><input type="checkbox" name="update_auto_apply" {}> apply automatically</label>
<label>github repo <input type="text" name="update_repo" value="{}"></label>
</div>
<div class="card"><h2 style="margin-top:0">Web UI</h2>
<label>bind address <input type="text" name="bind_addr" value="{}"></label>
</div>
<div class="card"><h2 style="margin-top:0">Search result filters</h2>
<p class="muted" style="margin-top:0">Drop weak responses to your searches before they reach the results list.</p>
<label>minimum files per result <input type="text" name="min_result_files" value="{}"></label>
<label>minimum peer upload speed (B/s, 0 = any) <input type="text" name="min_peer_upload_speed" value="{}"></label>
<label>maximum peer queue length (0 = no limit) <input type="text" name="max_peer_queue_length" value="{}"></label>
</div>
<div class="card"><h2 style="margin-top:0">Bandwidth limits</h2>
<p class="muted" style="margin-top:0">Aggregate throttles across all transfers, in bytes/second (0 = unlimited). Applied live.</p>
<label>max download speed (B/s, 0 = unlimited) <input type="text" name="max_download_speed" value="{}"></label>
<label>max upload speed (B/s, 0 = unlimited) <input type="text" name="max_upload_speed" value="{}"></label>
</div>
<p><button class="btn" type="submit">Save</button></p>
</form>
<div class="card"><h2 style="margin-top:0">Download folder</h2>
<p class="muted" style="margin-top:0">Finished downloads land here. <code>{}</code></p>
<form hx-post="/open" hx-swap="none" style="margin:0"><input type="hidden" name="path" value="{}"><button class="btn secondary" type="submit">Open download folder</button></form>
</div>
<div class="card"><h2 style="margin-top:0">Inspect</h2>
<p class="muted" style="margin-top:0">See the effective configuration as stored YAML (the password and Spotify secret are hidden).</p>
<button class="btn secondary" hx-get="/config/view" hx-target="#config-view" hx-swap="innerHTML">View config</button>
<div id="config-view" style="margin-top:1rem"></div>
</div>"##;

/// The settings as they are stored: path, whether on disk, a note and the text.
pub const CONFIG_VIEW: &'static str = r#"<div class="card"><h3 style="margin-top:0">Effective configuration</h3><p class="muted" style="margin-top:0"><code>{}</code> {}{}</p><pre class="log">{}</pre></div>"#;

pub const PILL_OUT: &'static str = r#"<span class="pill warn">● Not connected</span>"#;

pub const PILL_IN: &'static str = r#"<span class="pill ok">● Logged in</span>"#;

pub const PILL_LOGGED_OUT: &'static str = r#"<span class="pill warn">● Not logged in</span>"#;

pub const PILL_ON_DISK: &'static str = r#"<span class="pill ok">on disk</span>"#;

pub const PILL_NOT_SAVED: &'static str = r#"<span class="pill warn">not saved yet</span>"#;

pub const NOT_SAVED_NOTE: &'static str = " — showing the effective defaults; the file is written on the first Save.";

/// What stands in the place of a secret that is shown.
pub const HIDDEN: &'static str = "(hidden)";

/// A text, or an empty one where there is none.
pub open spec fn or_empty(text: Option<Seq<char>>) -> Seq<char> {
    match text {
        Some(t) => t,
        None => ""@,
    }
}

fn text_or_empty(text: &Option<String>) -> (r: &str)
    ensures
        r@ == or_empty(ov(*text)),
{
    match text {
        Some(t) => t.as_str(),
        None => "",
    }
}

/// Bullets in the place of a secret of `n` characters.
pub open spec fn bullets(n: nat) -> Seq<char> {
    Seq::new(n, |i: int| '•')
}

/// What a field for a secret shows: as many bullets as the secret has characters, up to forty, or
/// a hint where there is no secret. Nothing else of the secret shows.
pub open spec fn secret_shown(secret: Seq<char>, if_unset: Seq<char>) -> Seq<char> {
    if secret.len() == 0 {
        if_unset
    } else if secret.len() <= 40 {
        bullets(secret.len())
    } else {
        bullets(40)
    }
}

/// A placeholder for a secret: that something is set, without revealing it.
pub fn secret_placeholder(secret: &str, if_unset: &str) -> (r: String)
    ensures
        r@ == secret_shown(secret@, if_unset@),
{
    let len: usize = secret.unicode_len();
    if len == 0 {
        return if_unset.to_owned();
    }
    let n: usize = if len <= 40 {
        len
    } else {
        40
    };
    let mut out = String::new();
    let mut i: usize = 0;
    assert(out@ =~= bullets(0));
    while i < n
        invariant
            i <= n,
            out@ == bullets(i as nat),
        decreases n - i,
    {
        out.push('•');
        i += 1;
        assert(bullets(i as nat) =~= bullets((i - 1) as nat).push('•'));
    }
    out
}

/// Whether the user has logged in to the music service.
pub open spec fn logged_in(c: SpotifyView) -> bool {
    c.refresh_token matches Some(t) && t.len() > 0
}

/// Whether both credentials are there, which the login needs.
pub open spec fn credentials_set(c: SpotifyView) -> bool {
    &&& c.client_id matches Some(id) && id.len() > 0
    &&& c.client_secret matches Some(secret) && secret.len() > 0
}

fn is_set(text: &Option<String>) -> (r: bool)
    ensures
        r == (ov(*text) matches Some(t) && t.len() > 0),
{
    match text {
        Some(t) => !t.as_str().is_empty(),
        None => false,
    }
}

/// Whether the user has logged in to the music service.
pub fn spotify_logged_in(config: &Config) -> (r: bool)
    ensures
        r == logged_in(config@.spotify),
{
    is_set(&config.spotify.refresh_token)
}

/// Whether both credentials are there.
pub fn spotify_credentials_set(config: &Config) -> (r: bool)
    ensures
        r == credentials_set(config@.spotify),
{
    is_set(&config.spotify.client_id) && is_set(&config.spotify.client_secret)
}

/// The account's state with the next step.
pub open spec fn spotify_card_html(c: SpotifyView) -> Seq<char> {
    if logged_in(c) {
        CARD_CONNECTED@
    } else if credentials_set(c) {
        CARD_LOGGED_OUT@
    } else {
        CARD_UNSET@
    }
}

/// The account's state in a line.
pub open spec fn spotify_hint_html(c: SpotifyView) -> Seq<char> {
    if logged_in(c) {
        HINT_CONNECTED@
    } else {
        HINT_UNSET@
    }
}

/// The account's state with the next step.
pub fn spotify_status_card(config: &Config) -> (html: String)
    ensures
        html@ == spotify_card_html(config@.spotify),
{
    if spotify_logged_in(config) {
        CARD_CONNECTED.to_owned()
    } else if spotify_credentials_set(config) {
        CARD_LOGGED_OUT.to_owned()
    } else {
        CARD_UNSET.to_owned()
    }
}

/// The account's state in a line.
pub fn render_spotify_status_hint(config: &Config) -> (html: String)
    ensures
        html@ == spotify_hint_html(config@.spotify),
{
    if spotify_logged_in(config) {
        HINT_CONNECTED.to_owned()
    } else {
        HINT_UNSET.to_owned()
    }
}

/// The page for many downloads.
pub open spec fn bulk_html(c: ConfigView) -> Seq<char> {
    shell_html(
        "soulrust — bulk downloads"@,
        "bulk"@,
        c.server.username,
        filled(BULK@, blanks()
            .push(spotify_card_html(c.spotify))
            .push(col_bar_html(0))),
    )
}

/// The page for many downloads.
pub fn render_bulk_page(config: &Config) -> (html: String)
    ensures
        html@ == bulk_html(config@),
{
    let body = fill2(BULK, spotify_status_card(config).as_str(), col_bar(0).as_str());
    shell("soulrust — bulk downloads", "bulk", config.server.username.as_str(), body.as_str())
}

/// Where the music service sends the user back to after the login.
pub open spec fn redirect_uri_of(bind_addr: Seq<char>) -> Seq<char> {
    "http://"@ + bind_addr + "/spotify/callback"@
}

/// Where the music service sends the user back to after the login.
pub fn spotify_redirect_uri(config: &Config) -> (r: String)
    ensures
        r@ == redirect_uri_of(config@.ui.bind_addr),
{
    let mut out = "http://".to_owned();
    out.append(config.ui.bind_addr.as_str());
    out.append("/spotify/callback");
    out
}

/// The account's state on its own page. Credentials that were just refused (`Some(false)`) count
/// as none, whatever is stored.
pub open spec fn spotify_pill(c: SpotifyView, verified: Option<bool>) -> Seq<char> {
    if verified == Some(false) {
        PILL_OUT@
    } else if logged_in(c) {
        PILL_IN@
    } else if credentials_set(c) {
        PILL_LOGGED_OUT@
    } else {
        PILL_OUT@
    }
}

/// The login card, which takes credentials to be there.
pub open spec fn login_html(c: SpotifyView) -> Seq<char> {
    if !credentials_set(c) {
        ""@
    } else if logged_in(c) {
        filled(SPOTIFY_LOGIN@, blanks()
            .push("Logged in"@)
            .push("Re-log in with Spotify"@))
    } else {
        filled(SPOTIFY_LOGIN@, blanks()
            .push("Log in"@)
            .push("Log in with Spotify"@))
    }
}

/// The account page.
pub open spec fn spotify_html(
    c: ConfigView,
    banner: Option<Seq<char>>,
    verified: Option<bool>,
) -> Seq<char> {
    shell_html(
        "soulrust — connect Spotify"@,
        "spotify"@,
        c.server.username,
        filled(
            SPOTIFY@,
            blanks()
                .push(spotify_pill(c.spotify, verified))
                .push(or_empty(banner))
                .push(escaped(redirect_uri_of(c.ui.bind_addr)))
                .push(escaped(or_empty(c.spotify.client_id)))
                .push(secret_shown(or_empty(c.spotify.client_secret), "paste the client secret"@))
                .push(login_html(c.spotify)),
        ),
    )
}

/// The account page. `verified` is the outcome of a check of the credentials that was just made.
pub fn render_spotify_page(config: &Config, banner: Option<String>, verified: Option<bool>) -> (
html: String)
    ensures
        html@ == spotify_html(config@, ov(banner), verified),
{
    let has_login = spotify_logged_in(config);
    let has_keys = spotify_credentials_set(config);
    let refused = match verified {
        Some(ok) => !ok,
        None => false,
    };
    let mut v = Values::new();
    if refused {
        v.add_str(PILL_OUT);
    } else if has_login {
        v.add_str(PILL_IN);
    } else if has_keys {
        v.add_str(PILL_LOGGED_OUT);
    } else {
        v.add_str(PILL_OUT);
    }
    v.add_str(text_or_empty(&banner));
    v.add(escape(spotify_redirect_uri(config).as_str()));
    v.add(escape(text_or_empty(&config.spotify.client_id)));
    v.add(
        secret_placeholder(
            text_or_empty(&config.spotify.client_secret),
            "paste the client secret",
        ),
    );
    if !has_keys {
        v.add_str("");
    } else if has_login {
        v.add(fill2(SPOTIFY_LOGIN, "Logged in", "Re-log in with Spotify"));
    } else {
        v.add(fill2(SPOTIFY_LOGIN, "Log in", "Log in with Spotify"));
    }
    let body = fill(SPOTIFY, &v);
    shell("soulrust — connect Spotify", "spotify", config.server.username.as_str(), body.as_str())
}

/// The account screen.
pub open spec fn account_page_html(c: ConfigView, banner: Option<Seq<char>>) -> Seq<char> {
    shell_html(
        "soulrust — account"@,
        "account"@,
        c.server.username,
        filled(
            ACCOUNT@,
            blanks()
                .push(or_empty(banner))
                .push(escaped(c.server.username))
                .push(secret_shown(c.server.password, "your password"@)),
        ),
    )
}

/// The account screen.
pub fn render_account_page(config: &Config, banner: Option<String>) -> (html: String)
    ensures
        html@ == account_page_html(config@, ov(banner)),
{
    let body = fill3(
        ACCOUNT,
        text_or_empty(&banner),
        escape(config.server.username.as_str()).as_str(),
        secret_placeholder(config.server.password.as_str(), "your password").as_str(),
    );
    shell("soulrust — account", "account", config.server.username.as_str(), body.as_str())
}

/// Lines one below the other.
pub open spec fn joined_lines(lines: Seq<Seq<char>>) -> Seq<char>
    decreases lines.len(),
{
    if lines.len() == 0 {
        Seq::empty()
    } else if lines.len() == 1 {
        lines[0]
    } else {
        joined_lines(lines.drop_last()) + "\n"@ + lines.last()
    }
}

/// Lines one below the other.
pub fn join_lines(lines: &Vec<String>) -> (r: String)
    ensures
        r@ == joined_lines(views(lines@)),
{
    let ghost all = views(lines@);
    let mut out = String::new();
    let mut i: usize = 0;
    assert(all.take(0) =~= Seq::<Seq<char>>::empty());
    assert(out@ =~= joined_lines(all.take(0)));
    while i < lines.len()
        invariant
            i <= lines@.len(),
            all == views(lines@),
            out@ == joined_lines(all.take(i as int)),
        decreases lines@.len() - i,
    {
        assert(all.take(i as int + 1).drop_last() =~= all.take(i as int));
        let ghost before = out@;
        if i > 0 {
            out.append("\n");
        } else {
            assert(out@ =~= Seq::<char>::empty());
        }
        out.append(lines[i].as_str());
        assert(all.take(i as int + 1).last() == lines@[i as int]@);
        assert(out@ =~= joined_lines(all.take(i as int + 1)));
        i += 1;
    }
    assert(all.take(i as int) =~= all);
    out
}

/// The attribute of a ticked box.
pub open spec fn ticked(b: bool) -> Seq<char> {
    if b {
        "checked"@
    } else {
        ""@
    }
}

fn tick(b: bool) -> (r: &'static str)
    ensures
        r@ == ticked(b),
{
    if b {
        "checked"
    } else {
        ""
    }
}

/// The settings page. `home` is the user's home directory.
pub open spec fn config_html(c: ConfigView, banner: Option<Seq<char>>, home: Seq<char>) -> Seq<
    char,
> {
    shell_html(
        "soulrust — settings"@,
        "config"@,
        c.server.username,
        filled(
            CONFIG@,
            blanks()
                .push(or_empty(banner))
                .push(escaped(c.server.host))
                .push(decimal(c.server.port as nat))
                .push(escaped(c.server.username))
                .push(secret_shown(c.server.password, ""@))
                .push(decimal(c.server.listen_port as nat))
                .push(escaped(c.sharing.download_dir))
                .push(escaped(download_path_of(c.sharing, home)))
                .push(escaped(c.sharing.incomplete_dir))
                .push(escaped(incomplete_path_of(c.sharing, home)))
                .push(escaped(joined_lines(c.sharing.folders)))
                .push(decimal(c.sharing.upload_slots as nat))
                .push(ticked(c.sharing.respond_to_searches))
                .push(escaped(or_empty(c.spotify.client_id)))
                .push(secret_shown(or_empty(c.spotify.client_secret), ""@))
                .push(ticked(c.update.enabled))
                .push(ticked(c.update.auto_apply))
                .push(escaped(c.update.repo))
                .push(escaped(c.ui.bind_addr))
                .push(decimal(c.sharing.min_result_files as nat))
                .push(decimal(c.sharing.min_peer_upload_speed as nat))
                .push(decimal(c.sharing.max_peer_queue_length as nat))
                .push(decimal(c.sharing.max_download_speed as nat))
                .push(decimal(c.sharing.max_upload_speed as nat))
                .push(escaped(download_path_of(c.sharing, home)))
                .push(escaped(download_path_of(c.sharing, home))),
        ),
    )
}

/// The settings page. `home` is the user's home directory.
pub fn render_config_page(config: &Config, banner: Option<String>, home: &str) -> (html: String)
    ensures
        html@ == config_html(config@, ov(banner), home@),
{
    let download = escape(config.sharing.download_path(home).as_str());
    let mut v = Values::new();
    v.add_str(text_or_empty(&banner));
    v.add(escape(config.server.host.as_str()));
    v.add_number(config.server.port as u64);
    v.add(escape(config.server.username.as_str()));
    v.add(secret_placeholder(config.server.password.as_str(), ""));
    v.add_number(config.server.listen_port as u64);
    v.add(escape(config.sharing.download_dir.as_str()));
    v.add_str(download.as_str());
    v.add(escape(config.sharing.incomplete_dir.as_str()));
    v.add(escape(config.sharing.incomplete_path(home).as_str()));
    v.add(escape(join_lines(&config.sharing.folders).as_str()));
    v.add_number(config.sharing.upload_slots as u64);
    v.add_str(tick(config.sharing.respond_to_searches));
    v.add(escape(text_or_empty(&config.spotify.client_id)));
    v.add(secret_placeholder(text_or_empty(&config.spotify.client_secret), ""));
    v.add_str(tick(config.update.enabled));
    v.add_str(tick(config.update.auto_apply));
    v.add(escape(config.update.repo.as_str()));
    v.add(escape(config.ui.bind_addr.as_str()));
    v.add_number(config.sharing.min_result_files as u64);
    v.add_number(config.sharing.min_peer_upload_speed as u64);
    v.add_number(config.sharing.max_peer_queue_length as u64);
    v.add_number(config.sharing.max_download_speed as u64);
    v.add_number(config.sharing.max_upload_speed as u64);
    v.add_str(download.as_str());
    v.add_str(download.as_str());
    let body = fill(CONFIG, &v);
    shell("soulrust — settings", "config", config.server.username.as_str(), body.as_str())
}

/// A secret as it is shown with the stored settings.
pub open spec fn masked(secret: Seq<char>) -> Seq<char> {
    if secret.len() == 0 {
        secret
    } else {
        HIDDEN@
    }
}

/// The settings with the password and the client secret masked.
pub open spec fn redacted(c: ConfigView) -> ConfigView {
    ConfigView {
        server: crate::config::ServerView { password: masked(c.server.password), ..c.server },
        spotify: SpotifyView {
            client_secret: match c.spotify.client_secret {
                Some(s) => Some(masked(s)),
                None => None,
            },
            ..c.spotify
        },
        ..c
    }
}

/// The settings with the password and the client secret masked, for showing them.
pub fn redact(config: &Config) -> (r: Config)
    ensures
        r@ == redacted(config@),
{
    let mut c = config.clone();
    if !c.server.password.as_str().is_empty() {
        c.server.password = HIDDEN.to_owned();
    }
    if is_set(&c.spotify.client_secret) {
        c.spotify.client_secret = Some(HIDDEN.to_owned());
    }
    c
}

/// The settings as they are stored, secrets masked in `yaml`.
pub open spec fn config_view_html(path: Seq<char>, on_disk: bool, yaml: Seq<char>) -> Seq<char> {
    filled(
        CONFIG_VIEW@,
        blanks()
            .push(escaped(path))
            .push(if on_disk { PILL_ON_DISK@ } else { PILL_NOT_SAVED@ })
            .push(if on_disk { escaped(""@) } else { escaped(NOT_SAVED_NOTE@) })
            .push(escaped(yaml)),
    )
}

/// The settings as they are stored: the file's path, whether it exists, and its text with the
/// secrets masked.
pub fn render_config_view(path: &str, on_disk: bool, yaml: &str) -> (html: String)
    ensures
        html@ == config_view_html(path@, on_disk, yaml@),
{
    let mut v = Values::new();
    v.add(escape(path));
    if on_disk {
        v.add_str(PILL_ON_DISK);
        v.add(escape(""));
    } else {
        v.add_str(PILL_NOT_SAVED);
        v.add(escape(NOT_SAVED_NOTE));
    }
    v.add(escape(yaml));
    fill(CONFIG_VIEW, &v)
}

/// Whether two sets of settings differ in nothing but the characters of the password and of the
/// client secret.
pub open spec fn same_but_secrets(a: ConfigView, b: ConfigView) -> bool {
    &&& a == (ConfigView {
        server: crate::config::ServerView { password: a.server.password, ..b.server },
        spotify: SpotifyView { client_secret: a.spotify.client_secret, ..b.spotify },
        ..b
    })
    &&& a.server.password.len() == b.server.password.len()
    &&& or_empty(a.spotify.client_secret).len() == or_empty(b.spotify.client_secret).len()
    &&& a.spotify.client_secret is Some == b.spotify.client_secret is Some
}

/// No page reveals more of the password or the client secret than its length: with other secrets
/// of the same lengths, every page is the same.
pub proof fn law_pages_hide_secrets(
    a: ConfigView,
    b: ConfigView,
    banner: Option<Seq<char>>,
    verified: Option<bool>,
    home: Seq<char>,
)
    requires
        same_but_secrets(a, b),
    ensures
        config_html(a, banner, home) == config_html(b, banner, home),
        account_page_html(a, banner) == account_page_html(b, banner),
        spotify_html(a, banner, verified) == spotify_html(b, banner, verified),
        bulk_html(a) == bulk_html(b),
        redacted(a) == redacted(b),
{
    assert(a.server.password.len() == 0 ==> a.server.password =~= b.server.password);
    if let (Some(x), Some(y)) = (a.spotify.client_secret, b.spotify.client_secret) {
        assert(x.len() == y.len());
        assert(x.len() == 0 ==> x =~= y);
    }
}

/// What is shown of the stored settings hides the password and the secret and nothing else.
pub proof fn law_only_secrets_are_hidden(c: ConfigView)
    ensures
        redacted(c).server.password == (if c.server.password.len() == 0 {
            c.server.password
        } else {
            "(hidden)"@
        }),
        (c.spotify.client_secret matches Some(s) && s.len() > 0) ==> redacted(
            c,
        ).spotify.client_secret == Some("(hidden)"@),
        redacted(c).server.host == c.server.host && redacted(c).server.port == c.server.port
            && redacted(c).server.username == c.server.username && redacted(c).server.listen_port
            == c.server.listen_port,
        redacted(c).spotify.client_id == c.spotify.client_id && redacted(c).spotify.refresh_token
            == c.spotify.refresh_token,
        redacted(c).update == c.update && redacted(c).ui == c.ui && redacted(c).sharing
            == c.sharing,
{
}

/// A secret is shown as bullets, one for each character, up to forty.
pub proof fn law_secrets_are_shown_as_bullets(secret: Seq<char>, if_unset: Seq<char>, i: int)
    ensures
        secret.len() == 0 ==> secret_shown(secret, if_unset) == if_unset,
        secret.len() > 0 ==> secret_shown(secret, if_unset).len() == (if secret.len() <= 40 {
            secret.len()
        } else {
            40
        }),
        secret.len() > 0 && 0 <= i < secret_shown(secret, if_unset).len() ==> secret_shown(
            secret,
            if_unset,
        )[i] == '•',
{
}

/// Folders that are shown one to a line are read back from those lines.
pub proof fn law_lines_read_back(lines: Seq<Seq<char>>)
    requires
        lines.len() > 0,
        forall|i: int, k: int|
            0 <= i < lines.len() && 0 <= k < lines[i].len() ==> #[trigger] lines[i][k] != '\n',
    ensures
        crate::text::split_on(joined_lines(lines), '\n') == lines,
{
    lemma_lines(lines);
    lemma_joined_splits(lines);
}

proof fn lemma_lines(lines: Seq<Seq<char>>)
    requires
        lines.len() > 0,
    ensures
        joined_lines(lines) == crate::text::joined_by(lines, '\n'),
    decreases lines.len(),
{
    if lines.len() > 1 {
        let d = lines.drop_last();
        lemma_lines(d);
        lemma_joined_push(d, lines.last());
        assert(d.push(lines.last()) =~= lines);
        reveal_strlit("\n");
        assert(joined_lines(d) + "\n"@ + lines.last() =~= joined_lines(d).push('\n') + lines.last());
    }
}

proof fn lemma_joined_push(lines: Seq<Seq<char>>, last: Seq<char>)
    requires
        lines.len() > 0,
    ensures
        crate::text::joined_by(lines.push(last), '\n') == crate::text::joined_by(
            lines,
            '\n',
        ).push('\n') + last,
    decreases lines.len(),
{
    let all = lines.push(last);
    assert(all.skip(1) =~= lines.skip(1).push(last));
    if lines.len() == 1 {
        assert(all.skip(1) =~= seq![last]);
        assert(crate::text::joined_by(all.skip(1), '\n') == last);
    } else {
        lemma_joined_push(lines.skip(1), last);
        assert(crate::text::joined_by(all, '\n') =~= crate::text::joined_by(lines, '\n').push('\n')
            + last);
    }
}

proof fn lemma_joined_splits(lines: Seq<Seq<char>>)
    requires
        lines.len() > 0,
        forall|i: int, k: int|
            0 <= i < lines.len() && 0 <= k < lines[i].len() ==> #[trigger] lines[i][k] != '\n',
    ensures
        crate::text::split_on(crate::text::joined_by(lines, '\n'), '\n') == lines,
    decreases lines.len(),
{
    let first = lines[0];
    assert forall|k: int| 0 <= k < first.len() implies #[trigger] first[k] != '\n' by {
        assert(lines[0][k] != '\n');
    }
    if lines.len() == 1 {
        crate::text::law_a_separator_parts_a_text(first, '\n', Seq::empty());
        assert(lines =~= seq![first]);
    } else {
        let rest = lines.skip(1);
        assert forall|i: int, k: int|
            0 <= i < rest.len() && 0 <= k < rest[i].len() implies #[trigger] rest[i][k] != '\n' by {
            assert(rest[i][k] == lines[i + 1][k]);
        }
        lemma_joined_splits(rest);
        crate::text::law_a_separator_parts_a_text(
            first,
            '\n',
            crate::text::joined_by(rest, '\n'),
        );
        assert(lines =~= seq![first] + rest);
    }
}

/// The music service is connected once a login left its mark, and can be logged in to once both
/// keys are there; a pair of keys that was refused shows as not connected.
pub proof fn law_the_connection_follows_keys_and_login(c: SpotifyView)
    ensures
        logged_in(c) <==> (match c.refresh_token {
            Some(t) => t.len() > 0,
            None => false,
        }),
        credentials_set(c) <==> (match (c.client_id, c.client_secret) {
            (Some(id), Some(secret)) => id.len() > 0 && secret.len() > 0,
            _ => false,
        }),
        spotify_pill(c, Some(false)) == PILL_OUT@,
        logged_in(c) ==> spotify_pill(c, None) == PILL_IN@ && spotify_card_html(c)
            == CARD_CONNECTED@ && spotify_hint_html(c) == HINT_CONNECTED@,
        !logged_in(c) && credentials_set(c) ==> spotify_pill(c, None) == PILL_LOGGED_OUT@
            && spotify_card_html(c) == CARD_LOGGED_OUT@ && spotify_hint_html(c) == HINT_UNSET@,
        !logged_in(c) && !credentials_set(c) ==> spotify_pill(c, None) == PILL_OUT@
            && spotify_card_html(c) == CARD_UNSET@ && spotify_hint_html(c) == HINT_UNSET@,
{
}

/// A box shows whether it is ticked.
pub proof fn law_a_box_shows_whether_it_is_ticked(b: bool)
    ensures
        b ==> ticked(b) == "checked"@,
        !b ==> ticked(b).len() == 0,
{
    reveal_strlit("");
}

} // verus!
