//! The edges: the server connection, browsing, and the programming interface.
use soulrust::api_server::{asset_path, content_type, find_asset, ApiServer};
use soulrust::browse::Browse;
use soulrust::config::{AppContext, Config};
use soulrust::json::Json;
use soulrust::net_edge::{
    clone_failed, connect_failed, server_addr, NetEdge, NetReader, NetStep,
};
use soulrust::peer_edge::{
    on_reply, unusable_address, BrowseExchange, PeerEdge, PeerReply, MAX_BROWSE_BYTES,
};
use soulrust::peer_net::listing::{
    file_cost, listing_within, to_listing, BrowseDir, BrowseFile, BrowseListing, ShareList,
    MAX_LISTING_BYTES,
};
use soulrust::session::{NetConnEvent, SessionEvent};
use soulrust::slskd::{
    download_succeeded, flatten_share_tree, transfer_files, unique_username, SharedPath,
};

fn context(username: &str) -> AppContext {
    let mut config = Config::default();
    config.server.username = username.into();
    AppContext::new(config, "/tmp/x.yaml".into())
}

fn browse() -> Browse {
    Browse::new(&context(""))
}

fn listing(username: &str) -> BrowseListing {
    BrowseListing {
        username: username.into(),
        directories: vec![BrowseDir {
            path: "Music\\Album".into(),
            files: vec![BrowseFile { name: "song.mp3".into(), size: 5_242_880 }],
        }],
        total_files: 1,
        truncated: false,
    }
}

#[test]
fn empty_state_prompts_for_a_username() {
    assert!(browse().render().contains("no browses yet"));
}

#[test]
fn loaded_listing_shows_files_with_human_sizes() {
    let mut b = browse();
    b.loaded(listing("alice"));
    let html = b.render();
    assert!(html.contains("<b>alice</b>"));
    assert!(html.contains("Music\\Album"));
    assert!(html.contains("song.mp3"));
    assert!(html.contains("5.0 MB"));
}

#[test]
fn failure_renders_an_error_banner() {
    let mut b = browse();
    b.failed("bob".into(), "offline".into());
    let html = b.render();
    assert!(html.contains("browse of <b>bob</b> failed"));
    assert!(html.contains("offline"));
}

#[test]
fn newest_browse_renders_first_and_replaces_prior_state() {
    let mut b = browse();
    b.loaded(listing("alice"));
    b.loaded(listing("bob"));
    let html = b.render();
    assert!(html.find("bob").unwrap() < html.find("alice").unwrap());

    b.failed("alice".into(), "lost connection".into());
    let html = b.render();
    assert!(html.contains("browse of <b>alice</b> failed"));
    assert!(html.find("alice").unwrap() < html.find("bob").unwrap());
}

#[test]
fn truncated_listing_is_marked_partial() {
    let mut b = browse();
    let mut l = listing("alice");
    l.truncated = true;
    l.total_files = 99999;
    b.loaded(l);
    assert!(b.render().contains("partial"));
}

#[test]
fn html_in_paths_and_names_is_escaped() {
    let mut b = browse();
    let mut l = listing("alice");
    l.directories[0].path = "<script>".into();
    b.loaded(l);
    let html = b.render();
    assert!(!html.contains("<script>"));
    assert!(html.contains("&lt;script&gt;"));
}

fn sample_response() -> ShareList {
    ShareList {
        directories: vec![BrowseDir {
            path: "Music".into(),
            files: vec![
                BrowseFile { name: "a.mp3".into(), size: 100 },
                BrowseFile { name: "b.mp3".into(), size: 200 },
            ],
        }],
        private_directories: vec![],
    }
}

fn frame(payload: &[u8]) -> Vec<u8> {
    let mut out = (payload.len() as u32).to_le_bytes().to_vec();
    out.extend_from_slice(payload);
    out
}

const MAX: usize = 1 << 20;

#[test]
fn browse_sends_handshake_then_request_and_returns_the_listing() {
    let edge = PeerEdge::new(&context("me"));
    let init = edge.handshake();
    assert_eq!(init.username, "me");
    assert_eq!(init.connection_type.letter(), "P");
    assert_eq!(init.token, 0);
    assert_eq!(edge.target("10.0.0.1", 2234), "10.0.0.1:2234");

    let mut exchange = BrowseExchange::new();
    let whole = frame(b"list");
    let (none, end) = exchange.read(&whole[..5].to_vec(), MAX);
    assert!(none.is_empty() && end.is_none());
    let (frames, end) = exchange.read(&whole[5..].to_vec(), MAX);
    assert_eq!(frames, vec![b"list".to_vec()]);
    assert!(end.is_none());
    assert_eq!(on_reply(PeerReply::SharedFileList(sample_response())), Some(Ok(sample_response())));
}

#[test]
fn unknown_peer_messages_before_the_list_are_skipped() {
    let mut bytes = frame(&[99, 0, 0, 0, 1, 2, 3]);
    bytes.extend_from_slice(&frame(b"list"));
    let mut exchange = BrowseExchange::new();
    let (frames, end) = exchange.read(&bytes, MAX);
    assert_eq!(frames.len(), 2);
    assert!(end.is_none());
    assert_eq!(on_reply(PeerReply::Other), None);
    assert_eq!(on_reply(PeerReply::SharedFileList(sample_response())), Some(Ok(sample_response())));
}

#[test]
fn eof_before_list_is_an_error() {
    let mut exchange = BrowseExchange::new();
    let (frames, end) = exchange.read(&vec![], MAX);
    assert!(frames.is_empty());
    assert!(end.unwrap().contains("closed"));
}

#[test]
fn a_peer_that_cannot_be_read_ends_the_browse() {
    let mut exchange = BrowseExchange::new();
    let (_, end) = exchange.read(&vec![255, 255, 255, 255], MAX);
    assert_eq!(
        end.as_deref(),
        Some("framing peer stream: frame of 4294967295 bytes is too large")
    );
    assert_eq!(
        on_reply(PeerReply::Undecodable("short".into())),
        Some(Err("decoding peer message: short".to_owned()))
    );
    assert!(unusable_address("x:1").starts_with("peer address x:1 is not a usable ip:port"));
}

#[test]
fn to_listing_reports_total_and_caps_forwarded_files() {
    let listing = to_listing("alice", &sample_response());
    assert_eq!(listing.total_files, 2);
    assert!(!listing.truncated);
    assert_eq!(listing.directories[0].files.len(), 2);
    assert_eq!(listing.directories[0].files[0].name, "a.mp3");
}

#[test]
fn to_listing_truncates_a_share_larger_than_the_bus_budget() {
    let per_file = file_cost("track-000000.flac");
    let count = (MAX_BROWSE_BYTES / per_file) + 1000;
    let files: Vec<BrowseFile> =
        (0..count).map(|i| BrowseFile { name: format!("track-{i:06}.flac"), size: 1 }).collect();
    let response = ShareList {
        directories: vec![BrowseDir { path: "Huge".into(), files }],
        private_directories: vec![],
    };
    let listing = PeerEdge::new(&context("me")).to_listing("alice", &response);
    assert_eq!(listing.total_files, count as u64, "true count is always reported");
    assert!(listing.truncated, "an oversized share is marked truncated");
    let forwarded: usize = listing.directories.iter().map(|d| d.files.len()).sum();
    assert!(forwarded < count, "fewer files forwarded than exist");
    let bytes: usize =
        listing.directories.iter().flat_map(|d| &d.files).map(|f| file_cost(&f.name)).sum();
    assert!(bytes <= MAX_BROWSE_BYTES, "forwarded listing stays within the bus budget");
}

#[test]
fn a_folder_whose_path_does_not_fit_ends_the_listing() {
    let long = "x".repeat(MAX_LISTING_BYTES - 7);
    let folder = |path: &str| BrowseDir { path: path.into(), files: vec![] };
    let response = ShareList {
        directories: vec![folder(&long), folder("Music")],
        private_directories: vec![],
    };
    let listing = to_listing("alice", &response);
    assert!(listing.directories.is_empty());
    assert!(listing.truncated);

    let response = ShareList {
        directories: vec![folder(&long[1..]), folder("Music")],
        private_directories: vec![],
    };
    let listing = to_listing("alice", &response);
    assert_eq!(listing.directories.len(), 1, "it takes the budget to the last byte");
    assert!(listing.truncated, "and leaves nothing for the next");

    let list = ShareList {
        directories: vec![folder("ab"), folder("cd")],
        private_directories: vec![],
    };
    assert_eq!(listing_within("a", &list, 20).directories.len(), 2);
    assert!(!listing_within("a", &list, 20).truncated);
    assert_eq!(listing_within("a", &list, 19).directories.len(), 1);
    assert!(listing_within("a", &list, 19).truncated);
}

#[test]
fn to_listing_counts_private_directories_in_the_total() {
    let mut response = sample_response();
    response.private_directories = vec![BrowseDir {
        path: "Buddies".into(),
        files: vec![BrowseFile { name: "c.mp3".into(), size: 1 }],
    }];
    let listing = to_listing("alice", &response);
    assert_eq!(listing.total_files, 3);
    assert_eq!(listing.directories.len(), 2);
}

#[test]
fn the_server_is_connected_to_once_there_is_a_user() {
    let mut config = Config::default();
    assert_eq!(server_addr(&config.server), None);
    config.server.username = "me".into();
    config.server.port = 2242;
    assert_eq!(server_addr(&config.server).as_deref(), Some("server.slsknet.org:2242"));
    let mut edge = NetEdge::new(&context(" "));
    assert!(matches!(
        edge.start(),
        NetStep::Report(NetConnEvent::Failed { reason })
            if reason == "no soulseek username configured — set one in Settings"
    ));
    assert!(matches!(
        edge.config_changed(&config),
        NetStep::Connect(addr) if addr == "server.slsknet.org:2242"
    ));
    assert_eq!(
        connect_failed("h:1", "refused"),
        NetConnEvent::Failed { reason: "connect h:1: refused".into() }
    );
    assert_eq!(clone_failed("x"), NetConnEvent::Failed { reason: "clone socket: x".into() });
}

#[test]
fn frames_from_the_server_are_put_together() {
    let mut reader = NetReader::new();
    let mut bytes = frame(b"one");
    bytes.extend_from_slice(&frame(b"two")[..4]);
    let read = reader.read(&bytes, MAX);
    assert_eq!(read.frames, vec![b"one".to_vec()]);
    assert_eq!(read.end, None);
    let read = reader.read(&b"two".to_vec(), MAX);
    assert_eq!(read.frames, vec![b"two".to_vec()]);
    let closed = reader.read(&vec![], MAX);
    assert_eq!(
        closed.end,
        Some(NetConnEvent::Closed { reason: "server closed the connection".into() })
    );
    let bad = reader.read(&vec![0, 0, 0, 255], MAX);
    assert!(matches!(
        bad.end,
        Some(NetConnEvent::Closed { reason }) if reason.starts_with("bad frame: ")
    ));
}

#[test]
fn the_status_follows_the_session() {
    let mut api = ApiServer::new(&context("alice"));
    assert_eq!(api.addr(), "127.0.0.1:5031");
    assert!(!api.get_status().logged_in);
    api.session_event(&SessionEvent::LoggedIn {
        greeting: "hi".to_owned(),
        own_ip: "1.2.3.4".to_owned(),
    });
    let status = api.get_status();
    assert!(status.logged_in);
    assert_eq!((status.username.as_str(), status.greeting.as_str()), ("alice", "hi"));
    assert_eq!((status.own_ip.as_str(), status.shared_files), ("1.2.3.4", 0));
    api.session_event(&SessionEvent::ProtocolNote { note: "n".to_owned() });
    assert!(api.get_status().logged_in);
    api.session_event(&SessionEvent::Disconnected { reason: "eof".to_owned() });
    assert!(!api.get_status().logged_in);
    assert_eq!(api.get_status().greeting, "hi");
    let mut config = Config::default();
    config.server.username = "bob".into();
    api.config_changed(&config);
    assert_eq!(api.get_status().username, "bob");
}

#[test]
fn the_frontend_is_served_by_path() {
    assert_eq!(content_type("index.html"), "text/html; charset=utf-8");
    assert_eq!(content_type("assets/a.min.js"), "text/javascript; charset=utf-8");
    assert_eq!(content_type("css"), "text/css; charset=utf-8");
    assert_eq!(content_type("a.woff2"), "font/woff2");
    assert_eq!(content_type("a.bin"), "application/octet-stream");
    assert_eq!(asset_path("/").as_deref(), Some("index.html"));
    assert_eq!(asset_path("/assets/x/y.js").as_deref(), Some("assets/x/y.js"));
    assert_eq!(asset_path("/other"), None);
    let assets = vec![("index.html".to_owned(), vec![1u8]), ("a".to_owned(), vec![2])];
    assert_eq!(find_asset(&assets, "a"), Some(&vec![2u8]));
    assert_eq!(find_asset(&assets, "b"), None);
}

fn text(s: &str) -> Json {
    Json::Text(s.to_owned())
}

fn object(members: Vec<(&str, Json)>) -> Json {
    Json::Object(members.into_iter().map(|(k, v)| (k.to_owned(), v)).collect())
}

#[test]
fn share_trees_are_flattened() {
    let tree = || {
        Json::Array(vec![
            object(vec![
                ("name", text("Music")),
                (
                    "files",
                    Json::Array(vec![
                        object(vec![("filename", text("a.mp3")), ("size", Json::Number(Some(7)))]),
                        object(vec![("size", Json::Number(Some(8)))]),
                    ]),
                ),
            ]),
            object(vec![("files", Json::Array(vec![object(vec![("filename", text("b"))])]))]),
        ])
    };
    let expected = vec![
        SharedPath { path: "Music\\a.mp3".into(), size: 7 },
        SharedPath { path: "b".into(), size: 0 },
    ];
    assert_eq!(flatten_share_tree(&tree()), expected);
    assert_eq!(flatten_share_tree(&object(vec![("directories", tree())])), expected);
    assert!(flatten_share_tree(&Json::Null).is_empty());
}

#[test]
fn transfers_are_found_by_name() {
    let user = || {
        object(vec![(
            "directories",
            Json::Array(vec![object(vec![(
                "files",
                Json::Array(vec![
                    object(vec![
                        ("filename", text("M\\x/a.mp3")),
                        ("state", text("Completed, Succeeded")),
                    ]),
                    object(vec![("filename", text("b.mp3")), ("state", text("Queued"))]),
                ]),
            )])]),
        )])
    };
    assert_eq!(transfer_files(&user()).len(), 2);
    assert_eq!(transfer_files(&Json::Array(vec![user(), user()])).len(), 4);
    assert!(download_succeeded(&user(), "a.mp3"));
    assert!(!download_succeeded(&user(), "b.mp3"));
    assert!(!download_succeeded(&Json::Null, "a.mp3"));
    assert_eq!(unique_username("probe", 12), "probe-12");
    assert_ne!(unique_username("probe", 12), unique_username("probe", 13));
}
