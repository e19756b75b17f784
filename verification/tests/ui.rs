//! The interface: what it shows, and how it follows what happens.
use soulrust::config::{AppContext, Config};
use soulrust::format::{human_size, khz, length_str};
use soulrust::messages::Page;
use soulrust::peer_net::naming::{basename, dirname, parse_incomplete_name};
use soulrust::session::SessionEvent;
use soulrust::ui::downloads::{DownloadList, DownloadState};
use soulrust::ui::results::{effective_bitrate, quality_str, toggle_sort, SearchResultRow, SortKey};
use soulrust::ui::uploads::{UploadList, UploadState, MAX_UPLOADS};
use soulrust::ui::Ui;
use soulrust::ui_theme::{col_bar, shell};
use soulrust::updater::UpdaterStatus;
use soulrust::wire::SearchResultFile;

#[test]
fn human_size_is_compact_and_unit_scaled() {
    assert_eq!(human_size(0), "0 B");
    assert_eq!(human_size(512), "512 B");
    assert_eq!(human_size(1024), "1.0 KB");
    assert_eq!(human_size(4_404_019), "4.2 MB");
}

fn size_by_division(bytes: u64) -> String {
    const UNITS: [&str; 5] = ["B", "KB", "MB", "GB", "TB"];
    let mut value = bytes as f64;
    let mut unit = 0;
    while value >= 1024.0 && unit < UNITS.len() - 1 {
        value /= 1024.0;
        unit += 1;
    }
    if unit == 0 {
        format!("{bytes} B")
    } else {
        format!("{value:.1} {}", UNITS[unit])
    }
}

#[test]
fn sizes_agree_with_division_in_doubles() {
    let mut n: u64 = 1;
    for step in 0..400u64 {
        for d in [0u64, 1, 51, 52, 512, 1023] {
            let bytes = n.wrapping_add(d);
            assert_eq!(human_size(bytes), size_by_division(bytes), "{bytes}");
        }
        n = n.wrapping_mul(3).wrapping_add(step);
    }
    for bytes in [1023, 1024 * 1024 - 1, 1536, 1_048_576, u64::MAX, u64::MAX - 1, 1 << 53, (1 << 53) + 1] {
        assert_eq!(human_size(bytes), size_by_division(bytes), "{bytes}");
    }
}

#[test]
fn rates_agree_with_division_in_doubles() {
    for rate in [0u32, 8000, 22050, 44100, 48000, 96000, 192000, 44123, 44150, 44250, 1, 999, u32::MAX] {
        let khz_f = rate as f64 / 1000.0;
        let expected = if khz_f == khz_f.trunc() {
            format!("{khz_f:.0}")
        } else {
            format!("{khz_f:.1}")
        };
        assert!(khz(rate).starts_with(&expected), "{rate}: {} vs {expected}", khz(rate));
    }
}

#[test]
fn lengths_are_minutes_and_seconds() {
    assert_eq!(length_str(184), "3:04");
    assert_eq!(length_str(59), "0:59");
    assert_eq!(length_str(3600), "1:00:00");
}

#[test]
fn basename_takes_the_last_segment_of_either_separator() {
    assert_eq!(basename("Music\\Gwen\\hit.mp3"), "hit.mp3");
    assert_eq!(basename("a/b/c.flac"), "c.flac");
    assert_eq!(basename("loose.mp3"), "loose.mp3");
}

#[test]
fn dirname_takes_what_stands_before_the_last_segment() {
    assert_eq!(dirname("Music\\Gwen\\hit.mp3"), "Music\\Gwen");
    assert_eq!(dirname("loose.mp3"), "");
}

fn test_ui() -> Ui {
    let mut config = Config::default();
    config.server.username = "alice".into();
    let ctx = AppContext::new(config, "/tmp/unused.yaml".into());
    Ui::new(&ctx, DownloadList::new())
}

#[test]
fn index_page_wires_htmx_polling() {
    let ui = test_ui();
    let html = ui.render(&Page::Index);
    assert!(html.contains("/assets/htmx.min.js"));
    assert!(html.contains("/assets/app.js"), "scroll-preservation script is loaded");
    assert!(html.contains(r#"hx-get="/fragments/status""#));
    assert!(html.contains(r#"hx-post="/search""#));
}

#[test]
fn status_fragment_reflects_session_state() {
    let mut ui = test_ui();
    assert!(ui.render(&Page::StatusFragment).contains("disconnected"));

    ui.session_event(&SessionEvent::LoggedIn {
        greeting: "MOTD".into(),
        own_ip: "1.2.3.4".into(),
    });
    let html = ui.render(&Page::StatusFragment);
    assert!(html.contains("logged in as <b>alice</b>"));
    assert!(html.contains("MOTD"));

    ui.session_event(&SessionEvent::LoginFailed { reason: "INVALIDPASS".into() });
    assert!(ui.render(&Page::StatusFragment).contains("login failed: INVALIDPASS"));
}

#[test]
fn account_status_guides_account_creation_on_invalid_pass() {
    let mut ui = test_ui();
    ui.session_event(&SessionEvent::LoginFailed { reason: "INVALIDPASS".into() });
    let html = ui.render(&Page::AccountStatus);
    assert!(html.contains("Sign-in failed"));
    assert!(html.contains("create a new account"), "explains how to make an account");

    ui.session_event(&SessionEvent::LoggedIn { greeting: "hi".into(), own_ip: "1.2.3.4".into() });
    let ok = ui.render(&Page::AccountStatus);
    assert!(ok.contains("Signed in") && ok.contains("alice"));
}

fn started(ui: &mut Ui, token: u32, query: &str) {
    ui.session_event(&SessionEvent::SearchStarted { token, query: query.into() });
}

#[test]
fn searches_fragment_lists_started_searches_newest_first() {
    let mut ui = test_ui();
    assert!(ui.render(&Page::SearchesFragment).contains("no searches"));

    started(&mut ui, 1, "first");
    started(&mut ui, 2, "second");
    let html = ui.render(&Page::SearchesFragment);
    let first = html.find("first").unwrap();
    let second = html.find("second").unwrap();
    assert!(second < first, "newest search renders first");
}

#[test]
fn html_in_user_data_is_escaped() {
    let mut ui = test_ui();
    started(&mut ui, 1, "<script>alert(1)</script>");
    let html = ui.render(&Page::SearchesFragment);
    assert!(!html.contains("<script>alert"));
    assert!(html.contains("&lt;script&gt;"));
}

fn file(name: &str, size: u64, bitrate: Option<u32>, length: Option<u32>) -> SearchResultFile {
    SearchResultFile {
        name: name.into(),
        size,
        bitrate,
        length,
        vbr: false,
        sample_rate: None,
        bit_depth: None,
    }
}

#[test]
fn search_results_are_correlated_by_token_and_rendered() {
    let mut ui = test_ui();
    started(&mut ui, 5, "gwen");

    ui.search_result(
        5,
        SearchResultRow {
            username: "bob".into(),
            free_slots: true,
            upload_speed: 4096,
            in_queue: 0,
            files: vec![file("Music\\Gwen\\hit.mp3", 123, Some(320), Some(184))],
        },
    );
    let html = ui.render(&Page::SearchesFragment);
    assert!(html.contains("bob"), "peer username rendered");
    assert!(html.contains("Music\\Gwen\\hit.mp3"), "full path kept for download/title");
    assert!(html.contains("1 peer(s)"));
    assert!(html.contains(r#"class="results-table""#), "rendered as a table");
    assert!(html.contains(r#"class="col-user""#) && html.contains(r#"class="col-speed num""#));
    assert!(html.contains(">hit.mp3<"), "file column shows the basename");
    assert!(html.contains(r#"class="col-folder" title="Music\Gwen""#), "folder column");
    assert!(html.contains("320 kbps"), "bitrate column rendered");
    assert!(html.contains("3:04"), "length column rendered (184s)");
    assert!(html.contains(r#"hx-get="/sort/bitrate""#), "sortable bitrate header");
    assert!(html.contains(r#"hx-post="/download""#), "row has a download action");
    assert!(html.contains(r#"name="filename" value="Music\Gwen\hit.mp3""#));
    assert!(html.contains(r#"name="size" value="123""#));

    ui.search_result(
        999,
        SearchResultRow {
            username: "eve".into(),
            free_slots: false,
            upload_speed: 0,
            in_queue: 0,
            files: vec![file("spam", 1, None, None)],
        },
    );
    assert!(!ui.render(&Page::SearchesFragment).contains("eve"), "unknown-token result dropped");
}

fn feed_result(ui: &mut Ui, token: u32, user: &str, name: &str, bitrate: Option<u32>) {
    ui.search_result(
        token,
        SearchResultRow {
            username: user.into(),
            free_slots: true,
            upload_speed: 0,
            in_queue: 0,
            files: vec![file(name, 1, bitrate, None)],
        },
    );
}

#[test]
fn downloads_page_tracks_active_then_moves_to_previous() {
    let mut ui = test_ui();
    assert!(ui.render(&Page::DownloadsFragment).contains("nothing downloading"));

    ui.start_download("bob", "M\\song.mp3");
    let html = ui.render(&Page::DownloadsFragment);
    assert!(html.contains("Active <span class=\"muted\">— 1"));
    assert!(html.contains("song.mp3") && html.contains("queued"));

    ui.queue_position("bob", "M\\song.mp3", 3);
    assert!(ui.render(&Page::DownloadsFragment).contains("queue #3"));

    ui.download_complete("bob", "M\\song.mp3", "/dl/song.mp3");
    let html = ui.render(&Page::DownloadsFragment);
    assert!(html.contains("Active <span class=\"muted\">— 0"));
    assert!(html.contains("Previous <span class=\"muted\">— 1"));
    assert!(html.contains("done") && html.contains("/dl/song.mp3"));
}

#[test]
fn cancelling_a_download_removes_it() {
    let mut ui = test_ui();
    ui.start_download("bob", "a.mp3");
    assert!(ui.render(&Page::DownloadsFragment).contains("Active <span class=\"muted\">— 1"));
    assert!(ui.render(&Page::DownloadsFragment).contains(r#"hx-post="/download/cancel""#));

    ui.cancel_download("bob", "a.mp3");
    let html = ui.render(&Page::DownloadsFragment);
    assert!(html.contains("Active <span class=\"muted\">— 0"), "cancelled download is gone");
    assert!(html.contains("nothing downloading"));
}

#[test]
fn result_row_shows_queued_status_so_the_poll_keeps_it() {
    let mut ui = test_ui();
    started(&mut ui, 8, "q");
    feed_result(&mut ui, 8, "carol", "Album\\tune.mp3", Some(256));
    assert!(ui.render(&Page::SearchesFragment).contains(r#"hx-post="/download""#));

    ui.start_download("carol", "Album\\tune.mp3");
    let html = ui.render(&Page::SearchesFragment);
    assert!(html.contains(r#"<span class="pill">queued</span>"#), "row shows queued");
}

#[test]
fn parse_incomplete_name_recovers_the_basename() {
    assert_eq!(
        parse_incomplete_name("INCOMPLETE-00000000deadbeef-song.flac").as_deref(),
        Some("song.flac")
    );
    assert_eq!(parse_incomplete_name("ordinary.mp3"), None);
    assert_eq!(parse_incomplete_name("INCOMPLETE-zzzzzzzzzzzzzzzz-x.mp3"), None);
}

#[test]
fn scan_disk_downloads_lists_completed_and_incomplete() {
    let found = DownloadList::from_disk(
        &vec![("done.mp3".to_owned(), "/base/dl/done.mp3".to_owned())],
        &vec!["INCOMPLETE-00000000deadbeef-half.flac".to_owned()],
    );
    assert_eq!(
        found.state("", "done.mp3"),
        Some(&DownloadState::Completed("/base/dl/done.mp3".to_owned()))
    );
    assert_eq!(found.state("", "half.flac"), Some(&DownloadState::Incomplete));
}

#[test]
fn results_sort_by_clicked_column_and_filter_by_bitrate() {
    let mut ui = test_ui();
    started(&mut ui, 7, "q");
    feed_result(&mut ui, 7, "lo", "low.mp3", Some(128));
    feed_result(&mut ui, 7, "hi", "high.mp3", Some(320));

    let html = ui.http_render(&Page::SortSearches { key: "bitrate".into() });
    assert!(html.contains("▲"), "active column shows an ascending arrow");
    assert!(html.find("low.mp3").unwrap() < html.find("high.mp3").unwrap(), "ascending");

    let html = ui.http_render(&Page::SortSearches { key: "bitrate".into() });
    assert!(html.contains("▼"));
    assert!(html.find("high.mp3").unwrap() < html.find("low.mp3").unwrap(), "descending");

    let html = ui.http_render(&Page::FilterBitrate { min: 256 });
    assert!(html.contains("high.mp3") && !html.contains("low.mp3"), "filter keeps only ≥256");
    assert!(html.contains("bitrate filter active"));
}

#[test]
fn clicks_on_a_column_alternate() {
    let first = toggle_sort(None, SortKey::Size);
    let second = toggle_sort(first, SortKey::Size);
    assert_ne!(first, second);
    assert_eq!(toggle_sort(second, SortKey::Size), first);
    assert_eq!(SortKey::parse("no such column"), None);
    assert_eq!(SortKey::parse("slot"), Some(SortKey::Slot));
    assert_eq!(SortKey::parse("folder"), Some(SortKey::Folder));
}

#[test]
fn quality_and_bitrate_of_a_file() {
    let mut f = file("a.flac", 10_000_000, None, Some(100));
    assert_eq!(effective_bitrate(&f), None);
    assert_eq!(quality_str(&f), "");
    f.bitrate = Some(320);
    assert_eq!(effective_bitrate(&f), Some(320));
    assert_eq!(quality_str(&f), "320 kbps");
    f.vbr = true;
    assert_eq!(quality_str(&f), "320 kbps (vbr)");
    f.bitrate = None;
    f.sample_rate = Some(44_100);
    f.bit_depth = Some(16);
    assert_eq!(effective_bitrate(&f), Some(1411), "44100 * 16 * 2 / 1000");
    assert_eq!(quality_str(&f), "44.1 kHz / 16 bit");
    f.sample_rate = Some(u32::MAX);
    assert_eq!(effective_bitrate(&f), Some(4_294_967), "the product saturates");
}

#[test]
fn the_log_and_the_update_are_shown() {
    let mut ui = test_ui();
    ui.peer_activity("listening on 2234");
    assert!(ui.render(&Page::StatusFragment).contains("listening on 2234"));
    for n in 0..150 {
        ui.peer_activity(&format!("note <{n}>"));
    }
    let html = ui.render(&Page::StatusFragment);
    assert!(!html.contains("listening on 2234"), "old notes leave the log");
    assert!(html.contains("note &lt;149&gt;"));
    ui.updater_status(UpdaterStatus::Available { latest: "9.9.9".into() });
    assert!(ui.render(&Page::StatusFragment).contains("9.9.9"));
}

#[test]
fn searches_and_downloads_end() {
    let mut ui = test_ui();
    started(&mut ui, 3, "to close");
    ui.remove_search(3);
    assert!(!ui.render(&Page::SearchesFragment).contains("to close"));
    ui.start_download("bob", "x.mp3");
    ui.download_failed("bob", "x.mp3", "offline");
    assert!(ui.render(&Page::DownloadsFragment).contains("offline"));
    ui.upload_complete("carol", "y.mp3");
    ui.upload_failed("carol", "z.mp3", "reset");
    let mut config = Config::default();
    config.server.username = "zed".into();
    ui.config_changed(&config);
    assert!(ui.render(&Page::Index).contains("zed"));
}

#[test]
fn uploads_page_tracks_active_then_finished() {
    let mut ui = test_ui();
    let page = ui.render(&Page::Uploads);
    assert!(page.contains("<h1>Uploads</h1>"));
    assert!(page.contains(r#"hx-get="/fragments/uploads""#));
    let html = ui.render(&Page::UploadsFragment);
    assert!(html.contains("nothing uploading right now"));
    assert!(html.contains("no finished uploads yet"));

    ui.upload_started("carol", "Music\\Album\\y<1>.mp3", 2048);
    let html = ui.render(&Page::UploadsFragment);
    assert!(html.contains("uploading…") && html.contains("0 B of 2.0 KB"));
    assert!(html.contains("y&lt;1&gt;.mp3</td>") && html.contains("carol"));
    assert!(html.contains("no finished uploads yet"));
    ui.upload_progress("carol", "Music\\Album\\y<1>.mp3", 1024, 2048);
    assert!(ui.render(&Page::UploadsFragment).contains("1.0 KB of 2.0 KB"));

    ui.upload_complete("carol", "Music\\Album\\y<1>.mp3");
    ui.upload_failed("dave", "z.mp3", "reset & gone");
    let html = ui.render(&Page::UploadsFragment);
    assert!(html.contains("nothing uploading right now"));
    assert!(html.contains("done") && html.contains("reset &amp; gone"));
    assert!(html.find("z.mp3").unwrap() < html.find("carol").unwrap(), "the newest comes first");
    let status = ui.render(&Page::StatusFragment);
    assert!(status.contains("to carol") && status.contains("failed: reset &amp; gone"));

    ui.upload_progress("carol", "Music\\Album\\y<1>.mp3", 1500, 2048);
    ui.upload_progress("eve", "unknown.mp3", 1, 2);
    assert_eq!(ui.render(&Page::UploadsFragment), html, "late news brings nothing back");
}

#[test]
fn the_list_of_uploads_is_bounded() {
    let mut list = UploadList::new();
    list.set_state("bob", "first.mp3", UploadState::Active { bytes: 0, size: 1 });
    for n in 0..MAX_UPLOADS {
        list.set_state("bob", &format!("{n}.mp3"), UploadState::Completed);
    }
    let html = list.render();
    assert!(html.contains("first.mp3"), "one on its way stays");
    assert!(!html.contains(">0.mp3<"), "the oldest that has ended leaves");
    assert!(html.contains(">1.mp3<"));
    assert_eq!(html.matches("<tr><td").count(), MAX_UPLOADS);
}

#[test]
fn shell_has_css_only_collapse_icons_and_active_nav() {
    let html = shell("t", "bulk", "alice", "<p>hi</p>");
    assert!(html.contains(r#"id="nav-collapse""#));
    assert!(html.contains(r#"<label class="brand" for="nav-collapse""#));
    assert!(html.contains(".nav-collapse:checked ~ .layout .sidebar"));
    assert!(html.matches("<span class=\"ico\">").count() >= 4);
    assert!(html.contains("<svg"));
    assert!(html.contains(r#"<a class="active" href="/bulk">"#));
    assert!(html.contains("<p>hi</p>"));
}

#[test]
fn footer_account_chip_reflects_the_user() {
    let signed_in = shell("t", "search", "alice", "");
    assert!(signed_in.contains(r#"class="user""#));
    assert!(signed_in.contains("alice"));
    let none = shell("t", "search", "  ", "");
    assert!(none.contains("not signed in"));
}

#[test]
fn the_column_bar_shows_the_least_bitrate() {
    assert!(col_bar(256).contains(r#"value="256""#));
}
