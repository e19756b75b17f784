//! The web interface behind its server.
use soulrust::config::{AppContext, Config};
use soulrust::extract::{Job, SearchJob};
use soulrust::messages::Page;
use soulrust::web_bridge::actions::{
    above, browse_answer, cancel_answer, download_answer, plan_searches, read_close_search,
    read_file, read_filter, read_open, read_search, read_username, searches_started,
};
use soulrust::web_bridge::form::{parse_byte_range, parse_form, percent_decode, percent_encode};
use soulrust::web_bridge::media::{extension, media_type_of, plan_media, plan_part, MediaPlan};
use soulrust::web_bridge::pages::{
    redact, render_account_page, render_bulk_page, render_config_page, render_config_view,
    render_spotify_page, render_spotify_status_hint, secret_placeholder, spotify_credentials_set,
    spotify_logged_in, spotify_status_card,
};
use soulrust::web_bridge::replies::{
    applied_in, browse_in, config_in, html_in, job_in, searches_in, stored_in, BridgeReply, Pending,
};
use soulrust::web_bridge::routes::{html_page, route, split_url, Route};
use soulrust::web_bridge::settings::{
    apply_account, apply_settings, apply_spotify, login_failed_page, render_error_banner, saved_page,
    signing_in_page,
    spotify_saved, spotify_verified, update_banner, AccountStep, SpotifyStep,
};
use soulrust::web_bridge::{login_keys, with_refresh_token, WebBridge};

const HOME: &str = "/home/me";

#[test]
fn form_parsing_decodes_percent_and_plus() {
    let form = parse_form("input=hello+world%21&empty=&host=a%2Fb");
    assert_eq!(form.get("input"), Some("hello world!"));
    assert_eq!(form.get("empty"), Some(""));
    assert_eq!(form.get("host"), Some("a/b"));
}

#[test]
fn malformed_percent_sequences_pass_through() {
    let form = parse_form("a=100%&b=%zz&c=%2");
    assert_eq!(form.get("a"), Some("100%"));
    assert_eq!(form.get("b"), Some("%zz"));
    assert_eq!(form.get("c"), Some("%2"));
}

#[test]
fn config_page_renders_without_secrets() {
    let mut config = Config::default();
    config.server.password = "hunter2".into();
    config.spotify.client_secret = Some("sssh".into());
    let html = render_config_page(&config, None, HOME);
    assert!(!html.contains("hunter2"));
    assert!(!html.contains("sssh"));
    assert!(html.contains("server.slsknet.org"));
    assert!(html.contains(r#"href="/""#) && html.contains(r#"href="/spotify""#));
}

#[test]
fn config_page_has_a_view_config_control() {
    let html = render_config_page(&Config::default(), None, HOME);
    assert!(html.contains(r#"hx-get="/config/view""#), "settings page exposes View config");
    assert!(html.contains("View config"));
    assert!(html.contains(r#"id="config-view""#), "has a target container for the fragment");
}

#[test]
fn redacted_yaml_hides_secrets_but_keeps_other_fields() {
    let mut config = Config::default();
    config.server.username = "alice".into();
    config.server.password = "hunter2".into();
    config.spotify.client_id = Some("pub-id".into());
    config.spotify.client_secret = Some("sssh".into());
    let shown = format!("{:?}", redact(&config));
    assert!(!shown.contains("hunter2"), "password is masked");
    assert!(!shown.contains("sssh"), "client secret is masked");
    assert!(shown.contains("alice"), "non-secret fields are shown");
    assert!(shown.contains("pub-id"), "the public client id is shown");
    assert!(shown.contains("(hidden)"));
}

#[test]
fn config_page_exposes_download_dir_and_shared_folders() {
    let mut config = Config::default();
    config.sharing.download_dir = "/home/me/Music/soulrust".into();
    config.sharing.folders = vec!["/home/me/Music".into(), "/data/flac".into()];
    let html = render_config_page(&config, None, HOME);
    assert!(html.contains(r#"name="download_dir""#) && html.contains("/home/me/Music/soulrust"));
    assert!(html.contains(r#"name="incomplete_dir""#));
    assert!(html.contains(r#"name="folders""#));
    assert!(html.contains("/home/me/Music\n/data/flac"));
    assert!(html.contains(r#"name="respond_to_searches""#));
}

#[test]
fn configured_secrets_show_as_dots_not_values() {
    let mut config = Config::default();
    config.server.password = "hunter2".into();
    config.spotify.client_secret = Some("abcd".into());
    let html = render_config_page(&config, None, HOME);
    assert!(html.contains(&format!(r#"placeholder="{}""#, "•".repeat(7))));
    assert!(html.contains(&format!(r#"placeholder="{}""#, "•".repeat(4))));
    assert!(!html.contains("hunter2") && !html.contains("abcd"));
}

#[test]
fn unset_secret_has_no_dot_placeholder() {
    assert_eq!(secret_placeholder("", "type it"), "type it");
    assert_eq!(secret_placeholder("ab", "type it"), "••");
    assert_eq!(secret_placeholder(&"x".repeat(50), "type it"), "•".repeat(40));
}

#[test]
fn account_page_is_a_login_signup_screen() {
    let mut config = Config::default();
    config.server.username = "dj".into();
    config.server.password = "pw".into();
    let html = render_account_page(&config, None);
    assert!(html.contains(r#"name="username""#) && html.contains(r#"name="password""#));
    assert!(html.contains(r#"hx-post="/account""#));
    assert!(html.contains(r#"hx-get="/fragments/account-status""#));
    assert!(html.contains("Creating a new account") && html.contains("INVALIDPASS"));
    assert!(html.contains(r#"value="dj""#));
    assert!(!html.contains(r#"value="pw""#), "password is never rendered");
}

#[test]
fn bulk_page_has_a_source_selector_and_spotify_setup() {
    let html = render_bulk_page(&Config::default());
    assert!(html.contains("<select") && html.contains(r#"value="spotify""#));
    assert!(html.contains(r#"hx-post="/search""#));
    assert!(html.contains(r#"href="/spotify""#));
    assert!(html.contains("Set up Spotify"));
}

#[test]
fn spotify_page_shows_setup_steps_and_form() {
    let html = render_spotify_page(&Config::default(), None, None);
    assert!(html.contains("developer.spotify.com/dashboard"), "links to the dashboard");
    assert!(html.contains("Create app"), "walks through creating an app");
    assert!(html.contains(r#"name="spotify_client_id""#));
    assert!(html.contains(r#"hx-post="/spotify""#));
    assert!(html.contains("Not connected"));
}

#[test]
fn spotify_page_offers_login_once_credentials_are_set() {
    let mut config = Config::default();
    config.spotify.client_id = Some("pub-id".into());
    config.spotify.client_secret = Some("the-secret".into());
    assert!(spotify_credentials_set(&config) && !spotify_logged_in(&config));
    let html = render_spotify_page(&config, None, None);
    assert!(html.contains("Not logged in"));
    assert!(html.contains(r#"href="/spotify/login""#), "shows the login button");
    assert!(html.contains("pub-id"), "the public client id is shown");
    assert!(!html.contains("the-secret"), "the secret is never rendered");
}

#[test]
fn spotify_page_shows_logged_in_and_the_callback_redirect_uri() {
    let mut config = Config::default();
    config.spotify.client_id = Some("pub-id".into());
    config.spotify.client_secret = Some("the-secret".into());
    config.spotify.refresh_token = Some("rt".into());
    let html = render_spotify_page(&config, None, None);
    assert!(spotify_logged_in(&config) && html.contains("Logged in"));
    assert!(html.contains("http://127.0.0.1:5030/spotify/callback"));
}

#[test]
fn spotify_page_verified_override_beats_credential_presence() {
    let mut config = Config::default();
    config.spotify.client_id = Some("pub-id".into());
    config.spotify.client_secret = Some("the-secret".into());
    let html = render_spotify_page(&config, None, Some(false));
    assert!(html.contains("Not connected"));
}

#[test]
fn byte_range_parsing() {
    assert_eq!(parse_byte_range("bytes=0-99", 1000), Some((0, 99)));
    assert_eq!(parse_byte_range("bytes=100-", 1000), Some((100, 999)));
    assert_eq!(parse_byte_range("bytes=-200", 1000), Some((800, 999)));
    assert_eq!(parse_byte_range("bytes=0-99999", 1000), Some((0, 999)), "end clamps to EOF");
    assert_eq!(parse_byte_range("bytes=2000-", 1000), None, "start past EOF");
    assert_eq!(parse_byte_range("bytes=0-10,20-30", 1000), None, "multi-range unsupported");
    assert_eq!(parse_byte_range("bytes=0-99", 0), None, "empty file");
    assert_eq!(parse_byte_range("nonsense", 1000), None);
}

#[test]
fn percent_encode_escapes_reserved_characters() {
    assert_eq!(
        percent_encode("http://127.0.0.1:5030/spotify/callback"),
        "http%3A%2F%2F127.0.0.1%3A5030%2Fspotify%2Fcallback"
    );
    assert_eq!(percent_encode("a b-c_d.e~f"), "a%20b-c_d.e~f");
}

#[test]
fn encoded_text_reads_back() {
    for text in ["", "a b", "50% + x", "ünïcödé/ß", "日本 & co", "-_.~"] {
        assert_eq!(percent_decode(&percent_encode(text)), text);
    }
    assert_eq!(percent_encode("ß"), "%C3%9F");
    assert_eq!(percent_decode("%c3%9f+%F0%9F%8E%B5"), "ß 🎵");
    assert_eq!(percent_decode("%ff"), "\u{fffd}");
}

#[test]
fn malformed_escapes_pass_through() {
    assert_eq!(percent_decode("%+5"), "% 5");
    assert_eq!(percent_decode("%-5"), "%-5");
    assert_eq!(percent_decode("%5"), "%5");
    assert_eq!(percent_decode("100%"), "100%");
    assert_eq!(percent_decode("%zz%41"), "%zzA");
    assert_eq!(percent_decode("%%41"), "%A");
}

#[test]
fn requests_find_their_routes() {
    assert_eq!(route("GET", "/"), Route::Show(Page::Index));
    assert_eq!(route("GET", "/spotify/login"), Route::SpotifyLogin);
    assert_eq!(
        route("GET", "/sort/bitrate"),
        Route::Show(Page::SortSearches { key: "bitrate".into() })
    );
    assert_eq!(
        route("GET", "/sort//sort/size"),
        Route::Show(Page::SortSearches { key: "size".into() })
    );
    assert_eq!(
        route("GET", "/sort//sort/"),
        Route::Show(Page::SortSearches { key: "".into() })
    );
    assert_eq!(
        route("GET", "/sort/sort/x"),
        Route::Show(Page::SortSearches { key: "sort/x".into() })
    );
    assert_eq!(route("POST", "/sort/bitrate"), Route::NotFound);
    assert_eq!(route("POST", "/config"), Route::SaveConfig);
    assert_eq!(route("GET", "/config"), Route::ConfigPage);
    assert_eq!(route("POST", "/quit"), Route::Quit);
    assert_eq!(route("GET", "/quit"), Route::NotFound);
    assert_eq!(route("PUT", "/config"), Route::NotFound);
    assert_eq!(route("GET", "/nowhere"), Route::NotFound);
    assert_eq!(split_url("/media?path=a&b?c"), ("/media".to_owned(), "path=a&b".to_owned()));
    assert_eq!(split_url("/"), ("/".to_owned(), "".to_owned()));
    assert_eq!(html_page(Ok("x".into())), (200, "x".to_owned()));
    assert_eq!(
        html_page(Err("<no>".into())),
        (504, r#"<div class="banner error">&lt;no&gt;</div>"#.to_owned())
    );
}

#[test]
fn media_is_planned_by_path_extension_and_range() {
    assert_eq!(extension("/dl/a.b/song.MP3").as_deref(), Some("MP3"));
    assert_eq!(extension("/dl/song.mp3/").as_deref(), Some("mp3"));
    assert_eq!(extension("/dl/song.mp3/.").as_deref(), Some("mp3"));
    assert_eq!(extension(".mp3"), None);
    assert_eq!(extension("/dl/.mp3"), None);
    assert_eq!(extension("/dl/..").as_deref(), None);
    assert_eq!(extension("song."), Some("".to_owned()));
    assert_eq!(extension("/dl.x/song"), None);
    assert_eq!(media_type_of("FLAC"), Some("audio/flac"));
    assert_eq!(media_type_of("m4b"), Some("audio/mp4"));
    assert_eq!(media_type_of("exe"), None);
    match plan_media("/media?path=%2Fdl%2Fmy+song.mp3") {
        MediaPlan::Send { path, mime } => {
            assert_eq!(path, "/dl/my song.mp3");
            assert_eq!(mime, "audio/mpeg");
        }
        MediaPlan::Refuse(..) => panic!("an audio file is sent"),
    }
    assert!(matches!(plan_media("/media"), MediaPlan::Refuse(400, "missing path")));
    assert!(matches!(plan_media("/media?path="), MediaPlan::Refuse(400, "missing path")));
    assert!(matches!(
        plan_media("/media?path=%2Fetc%2Fpasswd"),
        MediaPlan::Refuse(415, "unsupported media type")
    ));
    let part = plan_part(Some("bytes=10-19"), 100);
    assert_eq!((part.status, part.start, part.end), (206, 10, 20));
    assert_eq!(part.content_range.as_deref(), Some("bytes 10-19/100"));
    let whole = plan_part(None, 100);
    assert_eq!((whole.status, whole.start, whole.end), (200, 0, 100));
    assert_eq!(whole.content_range, None);
    let unmet = plan_part(Some("bytes=200-"), 100);
    assert_eq!((unmet.status, unmet.start, unmet.end), (200, 0, 100));
}

fn bridge(config: &Config) -> WebBridge {
    WebBridge::new(&AppContext::new(config.clone(), "/tmp/s.yaml".into()))
}

#[test]
fn logins_are_bound_to_their_start() {
    let mut config = Config::default();
    let mut b = bridge(&config);
    assert_eq!(
        b.spotify_authorize_url(&config, 255),
        Err("set your Spotify Client ID first (see the Connect Spotify page)".to_owned())
    );
    config.spotify.client_id = Some("pub id".into());
    b.ask();
    let url = b.spotify_authorize_url(&config, 255).unwrap();
    assert!(url.starts_with("https://accounts.spotify.com/authorize?"));
    assert!(url.contains("client_id=pub%20id"));
    assert!(url.contains("redirect_uri=http%3A%2F%2F127.0.0.1%3A5030%2Fspotify%2Fcallback"));
    assert!(url.ends_with("state=ff1"));

    assert_eq!(
        b.spotify_callback("/spotify/callback?error=access_denied"),
        Err("Spotify returned 'access_denied'".to_owned())
    );
    assert_eq!(
        b.spotify_callback("/spotify/callback?state=ff1"),
        Err("callback had no authorization code".to_owned())
    );
    assert_eq!(b.spotify_callback("/spotify/callback?code=c0de&state=ff1"), Ok("c0de".to_owned()));
    assert_eq!(
        b.spotify_callback("/spotify/callback?code=c0de&state=ff1"),
        Err("state mismatch — please start the login again".to_owned())
    );
}

#[test]
fn a_login_needs_both_keys() {
    let mut config = Config::default();
    assert_eq!(login_keys(&config).err().as_deref(), Some("Spotify Client ID is not set"));
    config.spotify.client_id = Some("id".into());
    assert_eq!(login_keys(&config).err().as_deref(), Some("Spotify Client Secret is not set"));
    config.spotify.client_secret = Some("s".into());
    let keys = login_keys(&config).ok().unwrap();
    assert_eq!((keys.client_id.as_str(), keys.client_secret.as_str()), ("id", "s"));
    assert_eq!(keys.redirect_uri, "http://127.0.0.1:5030/spotify/callback");
    let after = with_refresh_token(config, "rt".into());
    assert_eq!(after.spotify.refresh_token.as_deref(), Some("rt"));
}

#[test]
fn replies_are_handed_out_once() {
    let config = Config::default();
    let mut b = bridge(&config);
    assert_eq!(b.bind_addr(), "127.0.0.1:5030");
    assert_eq!(b.config_path(), "/tmp/s.yaml");
    let first = b.ask();
    let second = b.ask();
    assert_eq!((first, second), (1, 2));
    assert!(b.complete(first));
    assert!(!b.complete(first));
    b.give_up(second);
    assert!(!b.complete(second));
    let mut p = Pending::new();
    assert_eq!(p.number(), 0);
    assert_eq!(p.ask(), 2);
}

#[test]
fn replies_of_the_wrong_kind_are_refused() {
    assert_eq!(html_in(Some(BridgeReply::Html("x".into()))), Ok("x".to_owned()));
    assert_eq!(html_in(None), Err("timed out waiting for the app to respond".to_owned()));
    assert_eq!(
        html_in(Some(BridgeReply::Browse(None))),
        Err("unexpected reply type".to_owned())
    );
    assert_eq!(
        stored_in(Some(BridgeReply::SetConfig(Err("full".into())))),
        Ok(Err("full".to_owned())),
        "a refusal is a reply"
    );
    assert!(stored_in(None).is_err());
    assert_eq!(applied_in(Some(BridgeReply::Apply(Ok(())))), Ok(Ok(())));
    assert_eq!(browse_in(Some(BridgeReply::Browse(None))), Ok(None));
    assert_eq!(config_in(None), Err("timed out waiting for the app to respond".to_owned()));
    assert_eq!(job_in(Some(BridgeReply::Extract(Err("bad".into())))), Ok(Err("bad".to_owned())));
    let (started, error) = searches_in(Some(BridgeReply::Search {
        started: vec![],
        error: Some("offline".into()),
    }))
    .unwrap();
    assert!(started.is_empty());
    assert_eq!(error.as_deref(), Some("offline"));
}

#[test]
fn settings_are_read_from_their_form() {
    let mut config = Config::default();
    config.server.password = "old".into();
    let page = apply_settings("host=h&port=2242&username=u&password=", config.clone());
    let after = page.unwrap();
    assert_eq!(after.server.host, "h");
    assert_eq!(after.server.port, 2242);
    assert_eq!(after.server.password, "old", "an empty field keeps the password");
    assert!(apply_settings("host=h&port=no", config.clone()).is_err());
    assert!(saved_page(&config, None, HOME).contains("banner"));
    assert!(saved_page(&config, Some("disk full".into()), HOME).contains("disk full"));
}

#[test]
fn accounts_need_a_user_name() {
    let config = Config::default();
    assert!(matches!(apply_account("username=+&password=x", config.clone()), AccountStep::Refuse(_)));
    match apply_account("username=dj&password=x", config.clone()) {
        AccountStep::Save(after) => {
            assert_eq!(after.server.username, "dj");
            assert_eq!(after.server.password, "x");
        }
        AccountStep::Refuse(_) => panic!("a user name is enough"),
    }
    assert!(signing_in_page(&config, None).contains("banner"));
    assert!(signing_in_page(&config, Some("no".into())).contains("no"));
}

#[test]
fn spotify_keys_are_saved_and_tested() {
    let config = apply_spotify(
        "spotify_client_id=id&spotify_client_secret=shh",
        Config::default(),
    );
    assert_eq!(config.spotify.client_id.as_deref(), Some("id"));
    match spotify_saved(&config, None) {
        SpotifyStep::Verify { id, secret } => assert_eq!((id, secret), ("id".into(), "shh".into())),
        SpotifyStep::Page(_) => panic!("keys are tested once they are saved"),
    }
    assert!(matches!(spotify_saved(&config, Some("disk".into())), SpotifyStep::Page(_)));
    assert!(spotify_verified(&config, Some("401".into())).contains("Not connected"));
    assert!(spotify_verified(&config, None).contains("banner"));
    assert!(spotify_status_card(&config).contains("Spotify not logged in"));
    assert!(render_spotify_status_hint(&config).contains("needs"));
    assert!(update_banner(None).contains("banner"));
    assert!(update_banner(Some("x<y".into())).contains("x&lt;y"));
    assert!(render_error_banner("a\"b").contains("a&quot;b"));
}

fn job(folder: Option<&str>, tracks: usize) -> Job {
    let mut searches = Vec::new();
    for n in 0..tracks {
        searches.push(SearchJob { raw_query: Some(format!("t{n}")), ..SearchJob::default() });
    }
    Job { source_label: "l".into(), searches, folder: folder.map(str::to_owned) }
}

#[test]
fn playlists_are_organized_and_numbered() {
    let planned = plan_searches(&job(Some("AC/DC: Live"), 11), true);
    assert_eq!(planned.len(), 11);
    assert_eq!(planned[0].folder, "AC_DC_ Live");
    assert_eq!(planned[0].prefix, "01 ");
    assert_eq!(planned[10].prefix, "11 ");
    let loose = plan_searches(&job(Some("AC/DC"), 2), false);
    assert_eq!(loose[0].folder, "");
    assert_eq!(loose[0].prefix, "");
}

#[test]
fn actions_read_their_forms() {
    let search = read_search("input=daft+punk&replace_token=7&organize=1");
    assert_eq!(search.input, "daft punk");
    assert_eq!(search.replace, Some(7));
    assert!(search.organize);
    assert_eq!(read_search("input=x").replace, None);
    assert_eq!(read_close_search("token=12"), Some(12));
    assert_eq!(read_close_search("token=x"), None);
    assert_eq!(read_filter("min_bitrate=320"), 320);
    assert_eq!(read_filter("min_bitrate=loud"), 0);
    let file = read_file("username=bob&filename=M%5Ca.mp3&size=9");
    assert_eq!((file.username.as_str(), file.filename.as_str(), file.size), ("bob", "M\\a.mp3", 9));
    assert!(download_answer(&file).1);
    assert!(!download_answer(&read_file("username=&filename=")).1);
    assert!(cancel_answer(&file).contains(r#"value="M\a.mp3""#));
    assert_eq!(read_username("username=+bob+"), " bob ");
    assert!(browse_answer(" bob ", None, "<p>").contains("browsing bob…"));
    assert!(browse_answer("bob", Some("not logged in".into()), "").contains("not logged in"));
    assert_eq!(read_open("path=%2Fdl"), Some("/dl".to_owned()));
    assert_eq!(read_open("path="), None);
    assert_eq!(above("a", "b"), "ab");
}

#[test]
fn started_searches_are_announced() {
    let (banner, removed) = searches_started("m<x", 3, None, Some(7));
    assert!(banner.contains("m&lt;x") && banner.contains('3'));
    assert_eq!(removed, Some(7));
    let (refusal, kept) = searches_started("mix", 0, Some("not logged in".into()), Some(7));
    assert_eq!(refusal, r#"<div class="banner error">not logged in</div>"#);
    assert_eq!(kept, None);
}

#[test]
fn the_config_view_shows_path_and_contents() {
    let html = render_config_view("/home/me/.config/soulrust.yaml", true, "host: <x>");
    assert!(html.contains("/home/me/.config/soulrust.yaml"));
    assert!(html.contains("host: &lt;x&gt;"));
}

#[test]
fn a_failed_login_is_shown_on_the_spotify_page() {
    let html = login_failed_page(Ok(Config::default()), "a<b");
    assert!(html.contains("Spotify login failed: a&lt;b"));
    assert!(html.contains("<form"), "the page itself follows");
    assert_eq!(login_failed_page(Err("late".into()), "x"), "<p>error: late</p>");
}
