//! Settings as forms change them.
use vstd::prelude::*;
use vstd::string::*;

use crate::config::{
    Config, ConfigView, ServerView, SharingView, SpotifyView, UiView, UpdateView,
};
use crate::html::{escape, escaped};
use crate::template::{blanks, fill1, filled};
use crate::text::{
    group_views, ov, parse_number, parsed_upto, split_char, split_on, trim, trimmed, views,
};
use crate::ui::BANNER_ERROR;
use crate::web_bridge::form::{parse_form, value_of, Form};
use crate::web_bridge::pages::{
    account_page_html, config_html, render_account_page, render_config_page, render_spotify_page,
    spotify_html,
};

verus! {

broadcast use group_views;

pub type Fields = Seq<(Seq<char>, Seq<char>)>;

/// The value of a field without the white space around it.
pub open spec fn trimmed_value(form: Fields, key: Seq<char>) -> Option<Seq<char>> {
    match value_of(form, key) {
        Some(v) => Some(trimmed(v)),
        None => None,
    }
}

/// A text after the form: the field's, or as it was where the form has no such field.
pub open spec fn text_after(form: Fields, key: Seq<char>, current: Seq<char>) -> Seq<char> {
    match trimmed_value(form, key) {
        Some(v) => v,
        None => current,
    }
}

/// A secret after the form: an empty field keeps it.
pub open spec fn secret_after(form: Fields, key: Seq<char>, current: Seq<char>) -> Seq<char> {
    match trimmed_value(form, key) {
        Some(v) => if v.len() == 0 {
            current
        } else {
            v
        },
        None => current,
    }
}

/// A number after the form, or why the field holds none that fits.
pub open spec fn number_after(
    form: Fields,
    key: Seq<char>,
    complaint: Seq<char>,
    max: nat,
    current: nat,
) -> Result<nat, Seq<char>> {
    match trimmed_value(form, key) {
        Some(v) => match parsed_upto(v, max) {
            Some(n) => Ok(n),
            None => Err(complaint + v),
        },
        None => Ok(current),
    }
}

/// The non-empty lines of a text, each without the white space around it.
pub open spec fn lines_in(lines: Seq<Seq<char>>) -> Seq<Seq<char>>
    decreases lines.len(),
{
    if lines.len() == 0 {
        Seq::empty()
    } else {
        let before = lines_in(lines.drop_last());
        let line = trimmed(lines.last());
        if line.len() == 0 {
            before
        } else {
            before.push(line)
        }
    }
}

/// The shared folders after the form: one for each line.
pub open spec fn folders_after(form: Fields, current: Seq<Seq<char>>) -> Seq<Seq<char>> {
    match value_of(form, "folders"@) {
        Some(v) => lines_in(split_on(v, '\n')),
        None => current,
    }
}

/// The settings of the music service after a form: an empty id removes it, and an empty secret
/// keeps what was there.
pub open spec fn spotify_after(form: Fields, c: SpotifyView) -> SpotifyView {
    SpotifyView {
        client_id: match trimmed_value(form, "spotify_client_id"@) {
            Some(v) => if v.len() == 0 {
                None
            } else {
                Some(v)
            },
            None => None,
        },
        client_secret: match trimmed_value(form, "spotify_client_secret"@) {
            Some(v) => if v.len() == 0 {
                c.client_secret
            } else {
                Some(v)
            },
            None => c.client_secret,
        },
        refresh_token: c.refresh_token,
    }
}

/// The settings after the settings form, or the first complaint about a number in it. Boxes that
/// are not ticked are missing from a form.
pub open spec fn settings_after(form: Fields, c: ConfigView) -> Result<ConfigView, Seq<char>> {
    let port = number_after(form, "port"@, "invalid port: "@, 0xffff, c.server.port as nat);
    let listen = number_after(
        form,
        "listen_port"@,
        "invalid listen port: "@,
        0xffff_ffff,
        c.server.listen_port as nat,
    );
    let slots = number_after(
        form,
        "upload_slots"@,
        "invalid upload slots: "@,
        0xffff_ffff,
        c.sharing.upload_slots as nat,
    );
    let files = number_after(
        form,
        "min_result_files"@,
        "invalid minimum files: "@,
        0xffff_ffff,
        c.sharing.min_result_files as nat,
    );
    let speed = number_after(
        form,
        "min_peer_upload_speed"@,
        "invalid minimum upload speed: "@,
        0xffff_ffff,
        c.sharing.min_peer_upload_speed as nat,
    );
    let queue = number_after(
        form,
        "max_peer_queue_length"@,
        "invalid maximum queue length: "@,
        0xffff_ffff,
        c.sharing.max_peer_queue_length as nat,
    );
    let down = number_after(
        form,
        "max_download_speed"@,
        "invalid max download speed: "@,
        0xffff_ffff,
        c.sharing.max_download_speed as nat,
    );
    let up = number_after(
        form,
        "max_upload_speed"@,
        "invalid max upload speed: "@,
        0xffff_ffff,
        c.sharing.max_upload_speed as nat,
    );
    match (port, listen, slots, files, speed, queue, down, up) {
        (Err(e), _, _, _, _, _, _, _) => Err(e),
        (_, Err(e), _, _, _, _, _, _) => Err(e),
        (_, _, Err(e), _, _, _, _, _) => Err(e),
        (_, _, _, Err(e), _, _, _, _) => Err(e),
        (_, _, _, _, Err(e), _, _, _) => Err(e),
        (_, _, _, _, _, Err(e), _, _) => Err(e),
        (_, _, _, _, _, _, Err(e), _) => Err(e),
        (_, _, _, _, _, _, _, Err(e)) => Err(e),
        (Ok(port), Ok(listen), Ok(slots), Ok(files), Ok(speed), Ok(queue), Ok(down), Ok(up)) => Ok(
            ConfigView {
                server: ServerView {
                    host: text_after(form, "host"@, c.server.host),
                    port: port as u16,
                    username: text_after(form, "username"@, c.server.username),
                    password: secret_after(form, "password"@, c.server.password),
                    listen_port: listen as u32,
                },
                spotify: spotify_after(form, c.spotify),
                update: UpdateView {
                    enabled: value_of(form, "update_enabled"@) is Some,
                    auto_apply: value_of(form, "update_auto_apply"@) is Some,
                    repo: text_after(form, "update_repo"@, c.update.repo),
                },
                ui: UiView {
                    bind_addr: text_after(form, "bind_addr"@, c.ui.bind_addr),
                    open_browser: c.ui.open_browser,
                },
                sharing: SharingView {
                    folders: folders_after(form, c.sharing.folders),
                    download_dir: text_after(form, "download_dir"@, c.sharing.download_dir),
                    incomplete_dir: text_after(form, "incomplete_dir"@, c.sharing.incomplete_dir),
                    upload_slots: slots as u32,
                    fifo_queue: c.sharing.fifo_queue,
                    respond_to_searches: value_of(form, "respond_to_searches"@) is Some,
                    max_search_results: c.sharing.max_search_results,
                    min_result_files: files as u32,
                    min_peer_upload_speed: speed as u32,
                    max_peer_queue_length: queue as u32,
                    max_download_speed: down as u32,
                    max_upload_speed: up as u32,
                },
            },
        ),
    }
}

fn read_text(form: &Form, key: &str, current: String) -> (r: String)
    ensures
        r@ == text_after(form@, key@, current@),
{
    match form.get(key) {
        Some(v) => trim(v).to_owned(),
        None => current,
    }
}

fn read_secret(form: &Form, key: &str, current: String) -> (r: String)
    ensures
        r@ == secret_after(form@, key@, current@),
{
    match form.get(key) {
        Some(v) => {
            let v = trim(v);
            if v.is_empty() {
                current
            } else {
                v.to_owned()
            }
        },
        None => current,
    }
}

pub open spec fn number_result(r: Result<u64, String>) -> Result<nat, Seq<char>> {
    match r {
        Ok(n) => Ok(n as nat),
        Err(e) => Err(e@),
    }
}

fn read_number(form: &Form, key: &str, complaint: &str, max: u64, current: u64) -> (r: Result<
    u64,
    String,
>)
    requires
        current <= max,
    ensures
        number_result(r) == number_after(form@, key@, complaint@, max as nat, current as nat),
        r matches Ok(n) ==> n <= max,
{
    match form.get(key) {
        Some(v) => {
            let v = trim(v);
            match parse_number(v, max) {
                Some(n) => Ok(n),
                None => {
                    let mut out = complaint.to_owned();
                    out.append(v);
                    Err(out)
                },
            }
        },
        None => Ok(current),
    }
}

fn read_folders(form: &Form, current: Vec<String>) -> (r: Vec<String>)
    ensures
        views(r@) == folders_after(form@, views(current@)),
{
    match form.get("folders") {
        Some(v) => {
            let lines = split_char(v, '\n');
            let ghost all = views(lines@);
            let mut folders: Vec<String> = Vec::new();
            let mut i: usize = 0;
            assert(all.take(0) =~= Seq::<Seq<char>>::empty());
            assert(views(folders@) =~= lines_in(all.take(0)));
            while i < lines.len()
                invariant
                    i <= lines@.len(),
                    all == views(lines@),
                    views(folders@) == lines_in(all.take(i as int)),
                decreases lines@.len() - i,
            {
                assert(all.take(i as int + 1).drop_last() =~= all.take(i as int));
                let line = trim(lines[i].as_str());
                if !line.is_empty() {
                    folders.push(line.to_owned());
                }
                i += 1;
            }
            assert(all.take(i as int) =~= all);
            folders
        },
        None => current,
    }
}

fn read_spotify(form: &Form, config: &mut Config)
    ensures
        final(config)@ == (ConfigView {
            spotify: spotify_after(form@, old(config)@.spotify),
            ..old(config)@
        }),
{
    config.spotify.client_id = match form.get("spotify_client_id") {
        Some(v) => {
            let v = trim(v);
            if v.is_empty() {
                None
            } else {
                Some(v.to_owned())
            }
        },
        None => None,
    };
    if let Some(v) = form.get("spotify_client_secret") {
        let v = trim(v);
        if !v.is_empty() {
            config.spotify.client_secret = Some(v.to_owned());
        }
    }
}

pub open spec fn config_result(r: Result<Config, String>) -> Result<ConfigView, Seq<char>> {
    match r {
        Ok(c) => Ok(c@),
        Err(e) => Err(e@),
    }
}

/// Applies the settings form.
#[verifier::rlimit(40)]
pub fn apply_settings(body: &str, config: Config) -> (r: Result<Config, String>)
    ensures
        config_result(r) == settings_after(crate::web_bridge::form::form_of(body@), config@),
{
    let form = parse_form(body);
    let port = match read_number(&form, "port", "invalid port: ", 0xffff, config.server.port as u64) {
        Ok(n) => n as u16,
        Err(e) => return Err(e),
    };
    let max: u64 = 0xffff_ffff;
    let listen = match read_number(
        &form,
        "listen_port",
        "invalid listen port: ",
        max,
        config.server.listen_port as u64,
    ) {
        Ok(n) => n as u32,
        Err(e) => return Err(e),
    };
    let slots = match read_number(
        &form,
        "upload_slots",
        "invalid upload slots: ",
        max,
        config.sharing.upload_slots as u64,
    ) {
        Ok(n) => n as u32,
        Err(e) => return Err(e),
    };
    let files = match read_number(
        &form,
        "min_result_files",
        "invalid minimum files: ",
        max,
        config.sharing.min_result_files as u64,
    ) {
        Ok(n) => n as u32,
        Err(e) => return Err(e),
    };
    let speed = match read_number(
        &form,
        "min_peer_upload_speed",
        "invalid minimum upload speed: ",
        max,
        config.sharing.min_peer_upload_speed as u64,
    ) {
        Ok(n) => n as u32,
        Err(e) => return Err(e),
    };
    let queue = match read_number(
        &form,
        "max_peer_queue_length",
        "invalid maximum queue length: ",
        max,
        config.sharing.max_peer_queue_length as u64,
    ) {
        Ok(n) => n as u32,
        Err(e) => return Err(e),
    };
    let down = match read_number(
        &form,
        "max_download_speed",
        "invalid max download speed: ",
        max,
        config.sharing.max_download_speed as u64,
    ) {
        Ok(n) => n as u32,
        Err(e) => return Err(e),
    };
    let up = match read_number(
        &form,
        "max_upload_speed",
        "invalid max upload speed: ",
        max,
        config.sharing.max_upload_speed as u64,
    ) {
        Ok(n) => n as u32,
        Err(e) => return Err(e),
    };
    let mut c = config;
    read_spotify(&form, &mut c);
    c.server.host = read_text(&form, "host", c.server.host);
    c.server.port = port;
    c.server.username = read_text(&form, "username", c.server.username);
    c.server.password = read_secret(&form, "password", c.server.password);
    c.server.listen_port = listen;
    c.update.enabled = form.has_field("update_enabled");
    c.update.auto_apply = form.has_field("update_auto_apply");
    c.update.repo = read_text(&form, "update_repo", c.update.repo);
    c.ui.bind_addr = read_text(&form, "bind_addr", c.ui.bind_addr);
    c.sharing.folders = read_folders(&form, c.sharing.folders);
    c.sharing.download_dir = read_text(&form, "download_dir", c.sharing.download_dir);
    c.sharing.incomplete_dir = read_text(&form, "incomplete_dir", c.sharing.incomplete_dir);
    c.sharing.upload_slots = slots;
    c.sharing.respond_to_searches = form.has_field("respond_to_searches");
    c.sharing.min_result_files = files;
    c.sharing.min_peer_upload_speed = speed;
    c.sharing.max_peer_queue_length = queue;
    c.sharing.max_download_speed = down;
    c.sharing.max_upload_speed = up;
    Ok(c)
}

pub const SAVED: &'static str = r#"<div class="banner">Configuration saved — reconnecting to Soulseek with the new settings. Watch the status on the <a href="/">Search</a> page.</div>"#;

pub const SIGNING_IN: &'static str = r#"<div class="banner">Signing in to Soulseek… the status below updates in a moment.</div>"#;

pub const NAME_NEEDED: &'static str = r#"<div class="banner error">Enter a username to sign in or create an account.</div>"#;

pub const KEYS_VERIFIED: &'static str = r#"<div class="banner">Spotify credentials saved and verified — now click <strong>Log in with Spotify</strong> below.</div>"#;

pub const KEYS_REFUSED: &'static str = r#"<div class="banner error">Credentials saved, but Spotify rejected them: {}</div>"#;

pub const KEYS_SAVED: &'static str = r#"<div class="banner">Spotify credentials saved.</div>"#;

pub const UPDATE_INSTALLED: &'static str = r#"<div class="banner">update installed — restart soulrust</div>"#;

/// A banner that tells of an error.
pub open spec fn error_banner(error: Seq<char>) -> Seq<char> {
    filled(BANNER_ERROR@, blanks().push(escaped(error)))
}

/// A banner that tells of an error.
pub fn render_error_banner(error: &str) -> (html: String)
    ensures
        html@ == error_banner(error@),
{
    fill1(BANNER_ERROR, escape(error).as_str())
}

/// A banner for an outcome: `good` where there is no error.
pub open spec fn outcome_banner(error: Option<Seq<char>>, good: Seq<char>) -> Seq<char> {
    match error {
        Some(e) => error_banner(e),
        None => good,
    }
}

/// A banner for an outcome: `good` where there is no error.
pub fn render_outcome(error: &Option<String>, good: &str) -> (html: String)
    ensures
        html@ == outcome_banner(ov(*error), good@),
{
    match error {
        Some(e) => render_error_banner(e.as_str()),
        None => good.to_owned(),
    }
}

/// The settings page after the settings were saved, or were refused.
pub fn saved_page(config: &Config, error: Option<String>, home: &str) -> (html: String)
    ensures
        html@ == config_html(config@, Some(outcome_banner(ov(error), SAVED@)), home@),
{
    let banner = render_outcome(&error, SAVED);
    render_config_page(config, Some(banner), home)
}

/// The account screen after the account was saved, or was refused.
pub fn signing_in_page(config: &Config, error: Option<String>) -> (html: String)
    ensures
        html@ == account_page_html(config@, Some(outcome_banner(ov(error), SIGNING_IN@))),
{
    let banner = render_outcome(&error, SIGNING_IN);
    render_account_page(config, Some(banner))
}

/// What an attempt to install an update is answered.
pub fn update_banner(error: Option<String>) -> (html: String)
    ensures
        html@ == outcome_banner(ov(error), UPDATE_INSTALLED@),
{
    render_outcome(&error, UPDATE_INSTALLED)
}

/// The settings after the account form. A password is kept as it was typed, and an empty one
/// changes nothing.
pub open spec fn account_after(form: Fields, c: ConfigView) -> ConfigView {
    ConfigView {
        server: ServerView {
            username: text_after(form, "username"@, c.server.username),
            password: match value_of(form, "password"@) {
                Some(v) => if v.len() == 0 {
                    c.server.password
                } else {
                    v
                },
                None => c.server.password,
            },
            ..c.server
        },
        ..c
    }
}

/// What the account form leads to.
pub enum AccountStep {
    /// There is no user name: this page says so.
    Refuse(String),
    /// These settings are to be saved.
    Save(Config),
}

/// Applies the account form.
pub fn apply_account(body: &str, config: Config) -> (r: AccountStep)
    ensures
        ({
            let after = account_after(crate::web_bridge::form::form_of(body@), config@);
            match r {
                AccountStep::Refuse(html) => trimmed(after.server.username).len() == 0 && html@
                    == account_page_html(after, Some(NAME_NEEDED@)),
                AccountStep::Save(c) => trimmed(after.server.username).len() > 0 && c@ == after,
            }
        }),
{
    let form = parse_form(body);
    let mut c = config;
    c.server.username = read_text(&form, "username", c.server.username);
    if let Some(v) = form.get("password") {
        if !v.is_empty() {
            c.server.password = v.to_owned();
        }
    }
    if trim(c.server.username.as_str()).is_empty() {
        AccountStep::Refuse(render_account_page(&c, Some(NAME_NEEDED.to_owned())))
    } else {
        AccountStep::Save(c)
    }
}

/// Applies the form of the music service.
pub fn apply_spotify(body: &str, config: Config) -> (c: Config)
    ensures
        c@ == (ConfigView {
            spotify: spotify_after(crate::web_bridge::form::form_of(body@), config@.spotify),
            ..config@
        }),
{
    let form = parse_form(body);
    let mut c = config;
    read_spotify(&form, &mut c);
    c
}

/// What follows once the credentials were saved, or could not be.
pub enum SpotifyStep {
    /// This page is the answer.
    Page(String),
    /// The service is to be asked whether it takes these credentials.
    Verify { id: String, secret: String },
}

/// What follows once the credentials were saved, or could not be: they are tried where both are
/// there.
pub fn spotify_saved(config: &Config, error: Option<String>) -> (r: SpotifyStep)
    ensures
        match ov(error) {
            Some(e) => r matches SpotifyStep::Page(html) && html@ == spotify_html(
                config@,
                Some(error_banner(e)),
                None,
            ),
            None => if crate::web_bridge::pages::credentials_set(config@.spotify) {
                r matches SpotifyStep::Verify { id, secret } && Some(id@)
                    == config@.spotify.client_id && Some(secret@) == config@.spotify.client_secret
            } else {
                r matches SpotifyStep::Page(html) && html@ == spotify_html(
                    config@,
                    Some(KEYS_SAVED@),
                    None,
                )
            },
        },
{
    if let Some(e) = error {
        let banner = render_error_banner(e.as_str());
        return SpotifyStep::Page(render_spotify_page(config, Some(banner), None));
    }
    match (&config.spotify.client_id, &config.spotify.client_secret) {
        (Some(id), Some(secret)) => {
            if !id.as_str().is_empty() && !secret.as_str().is_empty() {
                return SpotifyStep::Verify { id: id.clone(), secret: secret.clone() };
            }
        },
        _ => {},
    }
    SpotifyStep::Page(render_spotify_page(config, Some(KEYS_SAVED.to_owned()), None))
}

/// What is shown once the service took the credentials, or refused them.
pub open spec fn verified_html(c: ConfigView, refusal: Option<Seq<char>>) -> Seq<char> {
    match refusal {
        None => spotify_html(c, Some(KEYS_VERIFIED@), Some(true)),
        Some(e) => spotify_html(
            c,
            Some(filled(KEYS_REFUSED@, blanks().push(escaped(e)))),
            Some(false),
        ),
    }
}

/// The page once the service took the credentials, or refused them.
pub fn spotify_verified(config: &Config, refusal: Option<String>) -> (html: String)
    ensures
        html@ == verified_html(config@, ov(refusal)),
{
    match refusal {
        None => render_spotify_page(config, Some(KEYS_VERIFIED.to_owned()), Some(true)),
        Some(e) => {
            let banner = fill1(KEYS_REFUSED, escape(e.as_str()).as_str());
            render_spotify_page(config, Some(banner), Some(false))
        },
    }
}

pub const LOGIN_FAILED: &'static str =
    r#"<div class="banner error">Spotify login failed: {}</div>"#;

pub const NO_PAGE: &'static str = "<p>error: {}</p>";

/// The page after a login that failed: the settings are shown below the reason where they are
/// known, and where they are not, why.
pub fn login_failed_page(config: Result<Config, String>, error: &str) -> (html: String)
    ensures
        html@ == (match config {
            Ok(c) => spotify_html(
                c@,
                Some(filled(LOGIN_FAILED@, blanks().push(escaped(error@)))),
                None,
            ),
            Err(e) => filled(NO_PAGE@, blanks().push(escaped(e@))),
        }),
{
    match config {
        Ok(c) => {
            let banner = fill1(LOGIN_FAILED, escape(error).as_str());
            render_spotify_page(&c, Some(banner), None)
        },
        Err(e) => fill1(NO_PAGE, escape(e.as_str()).as_str()),
    }
}

/// Saving the settings page without touching it keeps every secret: empty fields for the password
/// and the client secret change neither.
pub proof fn law_empty_fields_keep_secrets(form: Fields, c: ConfigView)
    requires
        trimmed_value(form, "password"@) matches Some(v) ==> v.len() == 0,
        trimmed_value(form, "spotify_client_secret"@) matches Some(v) ==> v.len() == 0,
        settings_after(form, c) is Ok,
    ensures
        settings_after(form, c)->Ok_0.server.password == c.server.password,
        settings_after(form, c)->Ok_0.spotify.client_secret == c.spotify.client_secret,
        settings_after(form, c)->Ok_0.spotify.refresh_token == c.spotify.refresh_token,
{
}

/// A number of the settings after a form: what its field says, or as it was where there is none.
pub open spec fn follows(form: Fields, key: Seq<char>, max: nat, was: nat, is: nat) -> bool {
    match value_of(form, key) {
        Some(v) => parsed_upto(trimmed(v), max) == Some(is),
        None => is == was,
    }
}

/// A text of the settings after a form: what its field says, without white space around it, or as it
/// was where there is none.
pub open spec fn text_follows(form: Fields, key: Seq<char>, was: Seq<char>, is: Seq<char>) -> bool {
    match value_of(form, key) {
        Some(v) => is == trimmed(v),
        None => is == was,
    }
}

/// Every setting is read from the field of its own name, and one that the form does not hold stays
/// as it was; a box that is not ticked is off.
pub proof fn law_every_setting_has_its_own_field(form: Fields, c: ConfigView)
    requires
        settings_after(form, c) is Ok,
    ensures
        ({
            let n = settings_after(form, c)->Ok_0;
            &&& follows(form, "port"@, 0xffff, c.server.port as nat, n.server.port as nat)
            &&& follows(
                form,
                "listen_port"@,
                0xffff_ffff,
                c.server.listen_port as nat,
                n.server.listen_port as nat,
            )
            &&& follows(
                form,
                "upload_slots"@,
                0xffff_ffff,
                c.sharing.upload_slots as nat,
                n.sharing.upload_slots as nat,
            )
            &&& follows(
                form,
                "min_result_files"@,
                0xffff_ffff,
                c.sharing.min_result_files as nat,
                n.sharing.min_result_files as nat,
            )
            &&& follows(
                form,
                "min_peer_upload_speed"@,
                0xffff_ffff,
                c.sharing.min_peer_upload_speed as nat,
                n.sharing.min_peer_upload_speed as nat,
            )
            &&& follows(
                form,
                "max_peer_queue_length"@,
                0xffff_ffff,
                c.sharing.max_peer_queue_length as nat,
                n.sharing.max_peer_queue_length as nat,
            )
            &&& follows(
                form,
                "max_download_speed"@,
                0xffff_ffff,
                c.sharing.max_download_speed as nat,
                n.sharing.max_download_speed as nat,
            )
            &&& follows(
                form,
                "max_upload_speed"@,
                0xffff_ffff,
                c.sharing.max_upload_speed as nat,
                n.sharing.max_upload_speed as nat,
            )
            &&& text_follows(form, "host"@, c.server.host, n.server.host)
            &&& text_follows(form, "username"@, c.server.username, n.server.username)
            &&& text_follows(form, "update_repo"@, c.update.repo, n.update.repo)
            &&& text_follows(form, "bind_addr"@, c.ui.bind_addr, n.ui.bind_addr)
            &&& text_follows(
                form,
                "download_dir"@,
                c.sharing.download_dir,
                n.sharing.download_dir,
            )
            &&& text_follows(
                form,
                "incomplete_dir"@,
                c.sharing.incomplete_dir,
                n.sharing.incomplete_dir,
            )
            &&& n.update.enabled <==> value_of(form, "update_enabled"@) is Some
            &&& n.update.auto_apply <==> value_of(form, "update_auto_apply"@) is Some
            &&& n.sharing.respond_to_searches <==> value_of(form, "respond_to_searches"@) is Some
        }),
{
}

/// Settings that no field of the form is for stay as they were, and a new password or secret takes
/// the place of the old one.
pub proof fn law_secrets_are_replaced_by_new_ones(form: Fields, c: ConfigView)
    requires
        settings_after(form, c) is Ok,
    ensures
        ({
            let n = settings_after(form, c)->Ok_0;
            &&& n.ui.open_browser == c.ui.open_browser
            &&& n.sharing.fifo_queue == c.sharing.fifo_queue
            &&& n.sharing.max_search_results == c.sharing.max_search_results
            &&& n.spotify.refresh_token == c.spotify.refresh_token
            &&& (value_of(form, "password"@) matches Some(v) && trimmed(v).len() > 0)
                ==> n.server.password == trimmed(value_of(form, "password"@)->0)
            &&& (value_of(form, "spotify_client_secret"@) matches Some(v) && trimmed(v).len() > 0)
                ==> n.spotify.client_secret == Some(
                trimmed(value_of(form, "spotify_client_secret"@)->0),
            )
            &&& (value_of(form, "spotify_client_id"@) matches Some(v) && trimmed(v).len() > 0)
                ==> n.spotify.client_id == Some(
                trimmed(value_of(form, "spotify_client_id"@)->0),
            )
        }),
{
}

/// Settings are refused if and only if a field that is to be a number is none, or is too great.
pub proof fn law_settings_are_refused_for_a_bad_number(form: Fields, c: ConfigView)
    ensures
        settings_after(form, c) is Err <==> {
            ||| value_of(form, "port"@) matches Some(v) && parsed_upto(trimmed(v), 0xffff) is None
            ||| value_of(form, "listen_port"@) matches Some(v) && parsed_upto(
                trimmed(v),
                0xffff_ffff,
            ) is None
            ||| value_of(form, "upload_slots"@) matches Some(v) && parsed_upto(
                trimmed(v),
                0xffff_ffff,
            ) is None
            ||| value_of(form, "min_result_files"@) matches Some(v) && parsed_upto(
                trimmed(v),
                0xffff_ffff,
            ) is None
            ||| value_of(form, "min_peer_upload_speed"@) matches Some(v) && parsed_upto(
                trimmed(v),
                0xffff_ffff,
            ) is None
            ||| value_of(form, "max_peer_queue_length"@) matches Some(v) && parsed_upto(
                trimmed(v),
                0xffff_ffff,
            ) is None
            ||| value_of(form, "max_download_speed"@) matches Some(v) && parsed_upto(
                trimmed(v),
                0xffff_ffff,
            ) is None
            ||| value_of(form, "max_upload_speed"@) matches Some(v) && parsed_upto(
                trimmed(v),
                0xffff_ffff,
            ) is None
        },
{
}

/// The shared folders are the lines of their field, without white space around them and without
/// the blank ones, in their order.
pub proof fn law_every_line_names_a_folder(lines: Seq<Seq<char>>)
    ensures
        lines_in(lines) == lines.map_values(|l: Seq<char>| trimmed(l)).filter(
            |l: Seq<char>| l.len() > 0,
        ),
    decreases lines.len(),
{
    reveal(Seq::filter);
    let all = lines.map_values(|l: Seq<char>| trimmed(l));
    if lines.len() > 0 {
        law_every_line_names_a_folder(lines.drop_last());
        assert(all.drop_last() =~= lines.drop_last().map_values(|l: Seq<char>| trimmed(l)));
        assert(all.last() == trimmed(lines.last()));
    } else {
        assert(all =~= Seq::<Seq<char>>::empty());
    }
}

/// Signing in changes the account and nothing else: the name, and the password where one is given.
pub proof fn law_signing_in_changes_the_account_alone(form: Fields, c: ConfigView)
    ensures
        ({
            let n = account_after(form, c);
            &&& text_follows(form, "username"@, c.server.username, n.server.username)
            &&& n.server.password == (match value_of(form, "password"@) {
                Some(v) if v.len() > 0 => v,
                _ => c.server.password,
            })
            &&& n.server.host == c.server.host && n.server.port == c.server.port
                && n.server.listen_port == c.server.listen_port
            &&& n.spotify == c.spotify && n.update == c.update && n.ui == c.ui && n.sharing
                == c.sharing
        }),
{
}

proof fn lemma_banner_error_pieces()
    ensures
        BANNER_ERROR@.len() == 34,
        BANNER_ERROR@.subrange(0, 26) == "<div class=\"banner error\">"@,
        BANNER_ERROR@[26] == '{' && BANNER_ERROR@[27] == '}',
        BANNER_ERROR@.subrange(28, 34) == "</div>"@,
{
    reveal_strlit(
        "<div class=\"banner error\">{}</div>",
    );
    assert(BANNER_ERROR@.subrange(0, 26) =~= "<div class=\"banner error\">"@) by {
        reveal_strlit("<div class=\"banner error\">");
    }
    assert(BANNER_ERROR@.subrange(28, 34) =~= "</div>"@) by {
        reveal_strlit("</div>");
    }
}

proof fn lemma_banner_error_plain()
    ensures
        forall|k: int| 0 <= k < "</div>"@.len() ==> #[trigger] "</div>"@[k] != '{',
        forall|k: int| 0 <= k < "<div class=\"banner error\">"@.len() ==> #[trigger] "<div class=\"banner error\">"@[k] != '{',
{
    assert forall|k: int| 0 <= k < "</div>"@.len() implies #[trigger] "</div>"@[k]
        != '{' by {
        reveal_strlit("</div>");
    }
    assert forall|k: int| 0 <= k < "<div class=\"banner error\">"@.len() implies #[trigger] "<div class=\"banner error\">"@[k]
        != '{' by {
        reveal_strlit("<div class=\"banner error\">");
    }
}

proof fn lemma_banner_error_filled(v: Seq<Seq<char>>)
    requires
        v.len() == 1,
    ensures
        filled(BANNER_ERROR@, v) == "<div class=\"banner error\">"@ + (v[0] + (
            "</div>"@)),
{
    lemma_banner_error_pieces();
    lemma_banner_error_plain();
    let t = BANNER_ERROR@;
    assert(v.skip(0) =~= v);
    assert(t.skip(0) =~= t);
    crate::template::lemma_text_behind(t, 28, "</div>"@, v.skip(1));
    crate::template::lemma_blank_at(t, 0, "<div class=\"banner error\">"@, 28, v, 0);
}

/// An error is shown in a banner, with its markup escaped.
pub proof fn law_an_error_is_shown_escaped(error: Seq<char>)
    ensures
        error_banner(error) == "<div class=\"banner error\">"@ + (escaped(error) + (
            "</div>"@)),
{
    let v = blanks()
        .push(escaped(error));
    lemma_banner_error_filled(v);
}

/// A page says that something went well only where it did, and otherwise what went wrong.
pub proof fn law_a_page_says_how_it_went(error: Seq<char>, good: Seq<char>)
    ensures
        outcome_banner(None, good) == good,
        outcome_banner(Some(error), good) == error_banner(error),
{
}

} // verus!
