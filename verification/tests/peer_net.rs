use soulrust::config::{AppContext, Config};
use soulrust::peer_net::commands::{
    connect_failed, greet_child, opening_messages, FirstMessage, PeerAction, PeerCommand, PeerTask,
};
use soulrust::peer_net::deliveries::{PendingDeliveries, MAX_PENDING_DELIVERIES};
use soulrust::peer_net::distrib::{compute_max_children, DistribFrame, DistribMessage};
use soulrust::peer_net::gate::{UploadGate, UploadJob};
use soulrust::peer_net::hub::{
    report_outcome, slot_advertisement, ConnOutcome, FileConnection, Opening, PeerEvent, PeerNet,
    PeerReply, SearchFilter,
};
use soulrust::peer_net::listing::{to_listing, BrowseDir, BrowseFile, ShareList};
use soulrust::peer_net::naming::{
    collision_name, download_basename, incomplete_name, parse_incomplete_name, resume_offset,
    MAX_BASENAME_BYTES,
};
use soulrust::peer_net::uploads::MAX_PENDING_TRANSFERS;
use soulrust::shares::{SharedFile, SharedFolder};
use soulrust::transfer_io::{download_len, record_upload_speed, CopyExact};
use soulrust::wire::{
    ConnectionType, DistribSearch, FileSearchResponse, PeerInitMessage, PeerMessage,
    SearchResultFile, ServerRequest, TransferDirection, SEARCH_IDENTIFIER,
};

const FILTER: SearchFilter = SearchFilter { min_files: 1, min_upload_speed: 0, max_queue_length: 0 };

fn test_hub() -> PeerNet {
    let mut config = Config::default();
    config.server.username = "me".into();
    let ctx = AppContext::new(config, "/tmp/x.yaml".into());
    let mut hub = PeerNet::new(&ctx, "/home/me");
    hub.filter = FILTER;
    hub.max_results = 100;
    hub.incomplete_dir = "/tmp".into();
    hub.download_dir = "/tmp".into();
    hub.shares.add_virtual("Music\\Album\\song.mp3", 4096);
    hub.shares.add_virtual("Music\\Album\\other.flac", 8192);
    hub
}

fn album() -> SharedFolder {
    SharedFolder {
        path: "Music\\Album".into(),
        files: vec![
            SharedFile { name: "song.mp3".into(), size: 4096 },
            SharedFile { name: "other.flac".into(), size: 8192 },
        ],
    }
}

fn init(username: &str, connection_type: ConnectionType) -> Option<PeerInitMessage> {
    Some(PeerInitMessage::PeerInit { username: username.into(), connection_type })
}

#[test]
fn serves_browse_user_info_and_folder() {
    let mut hub = test_hub();
    let opening = hub.open_connection(init("peer", ConnectionType::Peer));
    assert_eq!(opening, Opening::Serve { peer: "peer".into(), queued: vec![] });

    let browse = hub.peer_message("peer", PeerMessage::SharedFileListRequest);
    let Some(PeerReply::ShareList { folders }) = browse.reply else { panic!("expected a list") };
    assert_eq!(folders, vec![album()]);

    let info = hub.peer_message("peer", PeerMessage::UserInfoRequest);
    let Some(PeerReply::UserInfo { slots_available, queue_size, .. }) = info.reply else {
        panic!("expected user info")
    };
    // Real values from the (empty) upload queue, not fixed placeholders.
    assert!(slots_available, "free slots advertised when the queue is empty");
    assert_eq!(queue_size, 0);

    let folder = hub.peer_message(
        "peer",
        PeerMessage::FolderContentsRequest { token: 7, directory: "Music\\Album".into() },
    );
    let Some(PeerReply::FolderContents { token, directory, folders }) = folder.reply else {
        panic!("expected folder contents")
    };
    assert_eq!(token, 7);
    assert_eq!(directory, "Music\\Album");
    assert_eq!(folders[0].files.len(), 2);
    assert_eq!(folders, vec![album()]);
}

#[test]
fn the_share_list_names_every_folder_once() {
    let mut hub = test_hub();
    hub.shares.add_virtual("Music\\Live\\set.mp3", 5);
    hub.shares.add_virtual("Music\\Album\\bonus.mp3", 6);
    hub.shares.add_virtual("loose.mp3", 7);
    let browse = hub.peer_message("peer", PeerMessage::SharedFileListRequest);
    let Some(PeerReply::ShareList { folders }) = browse.reply else { panic!("expected a list") };
    let paths: Vec<&str> = folders.iter().map(|f| f.path.as_str()).collect();
    assert_eq!(paths, ["Music\\Album", "Music\\Live", ""]);
    let mut first = album();
    first.files.push(SharedFile { name: "bonus.mp3".into(), size: 6 });
    assert_eq!(folders[0], first);
    assert_eq!(folders[1].files, vec![SharedFile { name: "set.mp3".into(), size: 5 }]);
    assert_eq!(folders[2].files, vec![SharedFile { name: "loose.mp3".into(), size: 7 }]);
    let folder = hub.peer_message(
        "peer",
        PeerMessage::FolderContentsRequest { token: 8, directory: "Nowhere".into() },
    );
    assert_eq!(
        folder.reply,
        Some(PeerReply::FolderContents {
            token: 8,
            directory: "Nowhere".into(),
            folders: vec![SharedFolder { path: "Nowhere".into(), files: vec![] }],
        })
    );
}

#[test]
fn delivers_queued_response_to_a_pierced_searcher() {
    let mut hub = test_hub();
    let response = b"token 99: hit.mp3".to_vec();
    hub.deliveries.queue(7, response.clone());
    let opening = hub.open_connection(Some(PeerInitMessage::PierceFirewall { token: 7 }));
    let Opening::Serve { queued, .. } = opening else { panic!("expected search response") };
    assert_eq!(queued, vec![response]);
    assert_eq!(hub.deliveries.len(), 0);
}

#[test]
fn unknown_pierce_token_is_dropped() {
    let mut hub = test_hub();
    let opening = hub.open_connection(Some(PeerInitMessage::PierceFirewall { token: 7 }));
    assert_eq!(opening, Opening::Close);
    assert_eq!(hub.open_connection(None), Opening::Close, "nor is an unreadable start served");
}

#[test]
fn pierced_connection_serves_without_a_peer_init() {
    let mut hub = test_hub();
    let browse = hub.peer_message("fw-peer", PeerMessage::SharedFileListRequest);
    assert_eq!(browse.reply, Some(PeerReply::ShareList { folders: vec![album()] }));
}

#[test]
fn browse_fetch_reads_a_served_share_list() {
    let task = PeerTask::Browse { username: "alice".into(), ip: "1.2.3.4".into(), port: 5 };
    let sent = opening_messages(&task, "me");
    assert_eq!(
        sent,
        vec![
            FirstMessage::PeerInit {
                username: "me".into(),
                connection_type: ConnectionType::Peer,
                token: 0
            },
            FirstMessage::SharedFileListRequest,
        ]
    );
    let list = ShareList {
        directories: vec![BrowseDir {
            path: "Music".into(),
            files: vec![BrowseFile { name: "a.mp3".into(), size: 5 }],
        }],
        private_directories: vec![],
    };
    let listing = to_listing("alice", &list);
    assert_eq!(listing.total_files, 1);
    assert_eq!(listing.directories[0].files[0].name, "a.mp3");
}

fn transfer_request(
    direction: TransferDirection,
    token: u32,
    file: &str,
    filesize: Option<u64>,
) -> PeerMessage {
    PeerMessage::TransferRequest { direction, token, file: file.into(), filesize }
}

#[test]
fn accepts_a_transfer_request_matching_a_pending_download() {
    let mut hub = test_hub();
    hub.download_queued("bob", "Music\\f.mp3", 5);
    let r = hub.peer_message(
        "bob",
        transfer_request(TransferDirection::Upload, 42, "Music\\f.mp3", Some(5)),
    );
    let Some(PeerReply::TransferResponse { token, allowed, .. }) = r.reply else {
        panic!("expected transfer response")
    };
    assert_eq!(token, 42);
    assert!(allowed, "a matching pending download is accepted");
    assert!(hub.downloads.active(42).is_some(), "recorded by token");

    // It was asked for once, and is accepted once.
    let again = hub.peer_message(
        "bob",
        transfer_request(TransferDirection::Upload, 43, "Music\\f.mp3", Some(5)),
    );
    assert_eq!(
        again.reply,
        Some(PeerReply::TransferResponse {
            token: 43,
            allowed: false,
            filesize: None,
            reason: Some("Cancelled".into())
        })
    );
}

#[test]
fn receives_a_queued_file_on_an_f_connection() {
    let mut hub = test_hub();
    hub.download_queued("bob", "Music\\got.mp3", 11);
    hub.peer_message("bob", transfer_request(TransferDirection::Upload, 42, "Music\\got.mp3", None));
    let opening = hub.open_connection(init("bob", ConnectionType::File));
    assert_eq!(opening, Opening::ReceiveFile { username: "bob".into() });
    let FileConnection::Receive { filename, size, basename, incomplete, .. } =
        hub.file_connection("bob", 42)
    else {
        panic!("expected a download")
    };
    assert_eq!(filename, "Music\\got.mp3");
    assert_eq!(size, 11);
    assert_eq!(basename, "got.mp3");
    assert_eq!(
        incomplete,
        format!("/tmp/{}", incomplete_name("bob", "Music\\got.mp3", "got.mp3"))
    );
    assert!(hub.downloads.active(42).is_none(), "it is collected once");
}

#[test]
fn incomplete_name_is_stable_per_user_and_path() {
    let a = incomplete_name("bob", "Music\\x.mp3", "x.mp3");
    assert_eq!(a, incomplete_name("bob", "Music\\x.mp3", "x.mp3"), "stable across calls");
    assert_ne!(a, incomplete_name("alice", "Music\\x.mp3", "x.mp3"), "different user differs");
    assert_ne!(a, incomplete_name("bob", "Music\\y.mp3", "y.mp3"), "different path differs");
    assert!(a.starts_with("INCOMPLETE-") && a.ends_with("x.mp3"));
    // The key is independent of the transfer token (not part of the inputs).
    assert!(!a.contains("token"));
    assert_eq!(parse_incomplete_name(&a).as_deref(), Some("x.mp3"), "and it reads back");
    assert_eq!(parse_incomplete_name("song.mp3"), None);
}

#[test]
fn receive_to_disk_resumes_from_an_existing_partial() {
    assert_eq!(resume_offset(10, 26), 10, "resume offset == existing partial length");
    let full = b"abcdefghijklmnopqrstuvwxyz".to_vec();
    let (path, after) = resumed(&full, full[..10].to_vec());
    assert!(path.starts_with("/tmp/INCOMPLETE-") && path.ends_with("song.mp3"));
    assert_eq!(after, full, "partial + resumed == full file");
}

/// Takes a download of `full` through its file connection, with `partial` already on disk; gives
/// the path of the partial file, and what it holds in the end.
fn resumed(full: &[u8], partial: Vec<u8>) -> (String, Vec<u8>) {
    let mut hub = test_hub();
    let size = full.len() as u64;
    hub.download_queued("bob", "Music\\song.mp3", size);
    hub.peer_message(
        "bob",
        transfer_request(TransferDirection::Upload, 77, "Music\\song.mp3", Some(size)),
    );
    let FileConnection::Receive { size, basename, incomplete, .. } =
        hub.file_connection("bob", 77)
    else {
        panic!("the agreed download arrives")
    };
    assert_eq!(basename, "song.mp3");
    assert_eq!(incomplete, format!("/tmp/{}", incomplete_name("bob", "Music\\song.mp3", &basename)));
    let offset = resume_offset(partial.len() as u64, size);
    let mut on_disk = partial[..offset as usize].to_vec();
    let mut copy = CopyExact::new(offset, download_len(offset, size).unwrap());
    while copy.want() > 0 {
        let end = on_disk.len() + copy.want().min(7);
        let sent = &full[on_disk.len()..end];
        on_disk.extend_from_slice(sent);
        assert_eq!(copy.moved(sent.len()), Ok(end as u64), "progress counts what was there");
    }
    (incomplete, on_disk)
}

#[test]
fn receive_to_disk_restarts_when_partial_exceeds_declared_size() {
    assert_eq!(resume_offset(50, 20), 0, "oversized partial restarts at 0");
    assert_eq!(resume_offset(20, 20), 0, "and so does a whole one");
    let fresh = vec![0x42u8; 20];
    let (_, after) = resumed(&fresh, vec![0xaa; 50]);
    assert_eq!(after, fresh, "file is the fresh bytes, not the stale partial");
}

#[test]
fn offers_a_shared_file_in_response_to_queue_upload() {
    let mut hub = test_hub();
    let r = hub.peer_message("bob", PeerMessage::QueueUpload { file: "Music\\Album\\song.mp3".into() });
    assert_eq!(
        r.reply,
        Some(PeerReply::TransferRequest {
            token: 1,
            file: "Music\\Album\\song.mp3".into(),
            filesize: 4096
        })
    );
    assert_eq!(hub.uploads.len(), 1, "upload recorded by token");
}

#[test]
fn declines_queue_upload_for_an_unshared_file() {
    let mut hub = test_hub();
    let r = hub.peer_message("bob", PeerMessage::QueueUpload { file: "Nope\\missing.mp3".into() });
    let Some(PeerReply::UploadDenied { file, .. }) = r.reply else {
        panic!("expected upload denied")
    };
    assert_eq!(file, "Nope\\missing.mp3");
    assert_eq!(hub.uploads.len(), 0);
}

#[test]
fn accepts_transfer_request_download_and_registers_the_upload() {
    let mut hub = test_hub();
    let r = hub.peer_message(
        "bob",
        transfer_request(TransferDirection::Download, 99, "Music\\Album\\song.mp3", None),
    );
    let Some(PeerReply::TransferResponse { token, allowed, filesize, .. }) = r.reply else {
        panic!("expected transfer response")
    };
    assert_eq!(token, 99, "answered on the downloader's own token");
    assert!(allowed);
    assert_eq!(filesize, Some(4096));
    let pending = hub.uploads.get(99).expect("offered upload recorded by token");
    assert_eq!(pending.username, "bob");
    assert_eq!(pending.filename, "Music\\Album\\song.mp3");
    assert!(!pending.approved, "downloader connects to us; we never dial out");
}

#[test]
fn declines_transfer_request_download_for_an_unshared_file() {
    let mut hub = test_hub();
    let r = hub.peer_message(
        "bob",
        transfer_request(TransferDirection::Download, 7, "Nope\\missing.mp3", None),
    );
    let Some(PeerReply::TransferResponse { token, allowed, reason, .. }) = r.reply else {
        panic!("expected transfer response")
    };
    assert_eq!(token, 7);
    assert!(!allowed);
    assert_eq!(reason.as_deref(), Some("File not shared."));
    assert_eq!(hub.uploads.len(), 0, "nothing offered");
}

#[test]
fn serves_an_offered_upload_on_an_inbound_file_connection() {
    let mut hub = test_hub();
    let size = b"soulrust offered-upload body".len() as u64 * 64;
    hub.uploads.offer(55, "bob", "Tunes\\track.mp3", "/tmp/track.mp3", size, true);
    assert_eq!(
        hub.open_connection(init("bob", ConnectionType::File)),
        Opening::ReceiveFile { username: "bob".into() }
    );
    assert_eq!(
        hub.file_connection("bob", 55),
        FileConnection::Serve {
            username: "bob".into(),
            filename: "Tunes\\track.mp3".into(),
            real_path: "/tmp/track.mp3".into(),
            size
        }
    );
    assert_eq!(hub.uploads.len(), 0, "offered upload consumed");
}

#[test]
fn pierce_file_receives_a_queued_download_after_piercing() {
    let mut hub = test_hub();
    let payload = b"firewalled upload payload bytes".to_vec();
    hub.download_queued("carol", "Dir\\f.mp3", payload.len() as u64);
    hub.peer_message("carol", transfer_request(TransferDirection::Upload, 77, "Dir\\f.mp3", None));
    let PeerAction::Connect(task) = hub.command(PeerCommand::PierceFile {
        username: "carol".into(),
        ip: "1.2.3.4".into(),
        port: 5,
        token: 555,
    }) else {
        panic!("expected a pierce-firewall")
    };
    assert_eq!(
        opening_messages(&task, "me"),
        vec![FirstMessage::PierceFirewall { token: 555 }],
        "pierce carries the connection token, not the ticket"
    );
    let FileConnection::Receive { basename, .. } = hub.file_connection("carol", 77) else {
        panic!("expected Downloaded")
    };
    assert_eq!(basename, "f.mp3");
}

#[test]
fn pierce_file_serves_an_offered_upload_after_piercing() {
    let mut hub = test_hub();
    let body = b"pierced upload body bytes".to_vec();
    hub.uploads.offer(88, "dave", "Tunes\\track.mp3", "/x/track.mp3", body.len() as u64, true);
    let PeerAction::Connect(task) = hub.command(PeerCommand::PierceFile {
        username: "dave".into(),
        ip: "1.2.3.4".into(),
        port: 5,
        token: 42,
    }) else {
        panic!("expected a pierce-firewall")
    };
    assert_eq!(opening_messages(&task, "me"), vec![FirstMessage::PierceFirewall { token: 42 }]);
    let FileConnection::Serve { real_path, .. } = hub.file_connection("dave", 88) else {
        panic!("expected Uploaded")
    };
    assert_eq!(real_path, "/x/track.mp3");
}

#[test]
fn download_basename_truncates_long_names_preserving_extension() {
    // Short name: unchanged.
    assert_eq!(download_basename("Music\\Album\\song.mp3"), "song.mp3");
    // Over the limit: result fits MAX_BASENAME_BYTES and keeps the extension.
    let long = format!("Music\\{}.mp3", "a".repeat(400));
    let basename = download_basename(&long);
    assert!(basename.len() <= MAX_BASENAME_BYTES);
    assert!(basename.ends_with(".mp3"), "extension preserved");
    // Multi-byte chars are truncated on a boundary (no panic, still valid UTF-8).
    let multibyte = format!("{}.mp3", "片".repeat(200));
    let basename = download_basename(&multibyte);
    assert!(basename.len() <= MAX_BASENAME_BYTES);
    assert!(basename.ends_with(".mp3"));
}

#[test]
fn unique_download_path_disambiguates_collisions() {
    assert_eq!(collision_name("track.mp3", 1), "track (1).mp3");
    assert_eq!(collision_name("track.mp3", 12), "track (12).mp3");
    assert_eq!(collision_name("noext", 2), "noext (2)");
}

#[test]
fn recv_file_rejects_a_token_from_the_wrong_peer() {
    let mut hub = test_hub();
    hub.download_queued("alice", "a.mp3", 5);
    hub.peer_message("alice", transfer_request(TransferDirection::Upload, 42, "a.mp3", None));
    assert_eq!(
        hub.file_connection("mallory", 42),
        FileConnection::Unknown,
        "wrong-peer token must be dropped"
    );
    assert!(
        hub.downloads.active(42).is_some(),
        "alice's download is preserved for her real connection"
    );
}

#[test]
fn accepted_download_uses_our_recorded_size_not_the_uploaders() {
    let mut hub = test_hub();
    hub.download_queued("bob", "f.mp3", 5);
    // The uploader understates the size.
    hub.peer_message("bob", transfer_request(TransferDirection::Upload, 9, "f.mp3", Some(0)));
    assert_eq!(
        hub.downloads.active(9).map(|d| d.size),
        Some(5),
        "our recorded size is used, not the uploader's filesize"
    );
}

#[test]
fn upload_denied_fails_the_queued_download() {
    let mut hub = test_hub();
    hub.download_queued("bob", "f.mp3", 5);
    let r = hub.peer_message(
        "bob",
        PeerMessage::UploadDenied { file: "f.mp3".into(), reason: "File not shared".into() },
    );
    let Some(ConnOutcome::DownloadFailed { username, filename, reason }) = r.end else {
        panic!("expected DownloadFailed")
    };
    assert_eq!((username.as_str(), filename.as_str()), ("bob", "f.mp3"));
    assert_eq!(reason, "File not shared");
    assert_eq!(hub.downloads.pending_len(), 0, "pending entry cleared");
}

#[test]
fn upload_denied_queued_reason_keeps_waiting() {
    let mut hub = test_hub();
    hub.download_queued("bob", "f.mp3", 5);
    let r = hub.peer_message(
        "bob",
        PeerMessage::UploadDenied { file: "f.mp3".into(), reason: "Queued.".into() },
    );
    assert!(r.end.is_none(), "queued is not a failure");
    assert_eq!(
        hub.downloads.wanted_size("bob", "f.mp3"),
        Some(5),
        "download stays pending while remotely queued"
    );
}

#[test]
fn upload_failed_fails_the_queued_download() {
    let mut hub = test_hub();
    hub.download_queued("bob", "f.mp3", 5);
    let r = hub.peer_message("bob", PeerMessage::UploadFailed { file: "f.mp3".into() });
    let Some(ConnOutcome::DownloadFailed { filename, .. }) = r.end else {
        panic!("expected DownloadFailed")
    };
    assert_eq!(filename, "f.mp3");
    assert_eq!(hub.downloads.pending_len(), 0);
}

#[test]
fn slot_advertisement_reflects_pending_uploads() {
    assert_eq!(slot_advertisement(0), (true, 0));
    assert_eq!(slot_advertisement(3), (false, 3));
}

fn jazz() -> DistribSearch {
    DistribSearch {
        identifier: SEARCH_IDENTIFIER,
        username: "searcher".into(),
        token: 7,
        query: "jazz".into(),
    }
}

#[test]
fn serve_distrib_responds_to_a_distributed_search() {
    let mut hub = test_hub();
    let relay = hub.distrib.parent_message(DistribMessage::Search(jazz()));
    let search = relay.search.expect("expected an IncomingSearch from the distributed search");
    assert_eq!(search.username, "searcher");
    assert_eq!(search.token, 7);
    assert_eq!(search.query, "jazz");
}

#[test]
fn parent_branch_level_sets_our_level_and_pushes_to_children() {
    let mut hub = test_hub();
    let relay = hub.distrib.parent_message(DistribMessage::BranchLevel { level: 4 });
    // Our level is the parent's + 1, and the children are pushed the update.
    assert_eq!(hub.distrib.level(), 5);
    assert_eq!(relay.forward, vec![DistribFrame::BranchLevel { level: 5 }]);
}

#[test]
fn max_children_scales_with_upload_speed_and_server_limits() {
    // Below the server's min speed, or before it sends a ratio: no children.
    assert_eq!(compute_max_children(0, 0, 0), 0);
    assert_eq!(compute_max_children(500, 1000, 100), 0, "too slow");
    // Fast enough: min(speed / ratio / 100, 10).
    assert_eq!(compute_max_children(100_000, 0, 100), 10, "capped at 10");
    assert_eq!(compute_max_children(30_000, 0, 100), 3);
    assert_eq!(compute_max_children(1000, 1000, 100), 0, "1000/100/100 = 0");
}

#[test]
fn config_change_reapplies_folders_and_dirs_live() {
    let mut hub = test_hub();
    let mut changed = Config::default();
    changed.sharing.folders = vec!["/tmp/sr-share".into()];
    changed.sharing.download_dir = "/tmp/sr-dl".into();
    let action = hub.command(PeerCommand::ApplyConfig { config: changed, home: "/home/me".into() });
    let PeerAction::Rescan(folders) = action else { panic!("expected ApplyConfig") };
    assert_eq!(folders, vec!["/tmp/sr-share".to_owned()]);
    assert_eq!(hub.download_dir, "/tmp/sr-dl");
}

fn job() -> UploadJob {
    UploadJob {
        ip: "1.2.3.4".into(),
        port: 1,
        token: 0,
        peer: "p".into(),
        filename: "f".into(),
        real_path: "/x".into(),
        size: 1,
    }
}

#[test]
fn upload_gate_caps_concurrency_at_the_slot_count() {
    let mut gate = UploadGate::new(2);
    for _ in 0..3 {
        gate.push_back(job());
    }
    // Only two of the three can be claimed at once.
    assert!(gate.try_claim().is_some());
    assert!(gate.try_claim().is_some());
    assert!(gate.try_claim().is_none(), "at capacity");
    // Freeing a slot lets the third start; then we're empty.
    gate.release();
    assert!(gate.try_claim().is_some());
    assert!(gate.try_claim().is_none(), "nothing left waiting");
}

#[test]
fn upload_gate_zero_slots_means_unlimited() {
    let mut gate = UploadGate::new(0);
    for _ in 0..5 {
        gate.push_back(job());
    }
    for _ in 0..5 {
        assert!(gate.try_claim().is_some());
    }
}

#[test]
fn upload_speed_is_a_rolling_average() {
    let mut speed = test_hub().upload_speed;
    assert_eq!(speed, 0);
    speed = record_upload_speed(speed, 1000); // first sample seeds the average
    assert_eq!(speed, 1000);
    speed = record_upload_speed(speed, 2000); // 1000*0.7 + 2000*0.3 = 1300
    assert_eq!(speed, 1300);
}

#[test]
fn forwards_branch_info_and_searches_to_a_child() {
    let mut hub = test_hub();
    hub.distrib.parent_connected();
    hub.distrib.parent_message(DistribMessage::BranchLevel { level: 1 });
    hub.distrib.parent_message(DistribMessage::BranchRoot { root: "alice".into() });
    // Enough capacity to accept a child: speed/ratio give max_children >= 1.
    hub.upload_speed = 100;
    hub.command(PeerCommand::SetDistribLimits { min_speed: 0, ratio: 1 });
    let id = hub.distrib.adopt(hub.upload_speed).expect("a child");

    // On connect it receives our branch level, then root.
    assert_eq!(
        greet_child(&hub.distrib),
        vec![
            DistribFrame::BranchLevel { level: 2 },
            DistribFrame::BranchRoot { root: "alice".into() },
        ]
    );

    // Registered as a child; a forwarded search reaches it verbatim.
    assert_eq!(hub.distrib.child_count(), 1);
    let relay = hub.distrib.parent_message(DistribMessage::Search(DistribSearch {
        identifier: SEARCH_IDENTIFIER,
        username: "carol".into(),
        token: 7,
        query: "wish".into(),
    }));
    assert_eq!(relay.forward, vec![wish(SEARCH_IDENTIFIER)]);
    hub.distrib.child_left(id);
    assert_eq!(hub.distrib.child_count(), 0);
}

fn wish(identifier: u32) -> DistribFrame<String> {
    DistribFrame::Search {
        identifier,
        username: "carol".into(),
        token: 7,
        query: "wish".into(),
    }
}

#[test]
fn a_search_keeps_the_identifier_that_it_came_with() {
    let search = |identifier| DistribSearch {
        identifier,
        username: "carol".into(),
        token: 7,
        query: "wish".into(),
    };
    let mut hub = test_hub();
    let relay = hub.distrib.parent_message(DistribMessage::Search(search(0xabcd)));
    assert_eq!(relay.forward, vec![wish(0xabcd)]);
    assert_eq!(relay.search, Some(search(0xabcd)));
    let relay = hub.distrib.parent_message(DistribMessage::Embedded {
        inner_code: 3,
        search: Some(search(5)),
    });
    assert_eq!(relay.forward, vec![wish(5)]);

    let PeerAction::Relay(relay) = hub.command(PeerCommand::RelayDistribSearch {
        username: "carol".into(),
        token: 7,
        query: "wish".into(),
    }) else {
        panic!("expected a relay")
    };
    assert_eq!(relay.forward, vec![wish(49)], "a search from the server takes the protocol's own");
    assert!(relay.advertise, "the first one makes us attached");
}

#[test]
fn pierce_distrib_relays_searches_after_piercing() {
    let mut hub = test_hub();
    let PeerAction::Connect(task) = hub.command(PeerCommand::PierceDistrib {
        username: "eve".into(),
        ip: "1.2.3.4".into(),
        port: 5,
        token: 321,
    }) else {
        panic!("expected a pierce-firewall")
    };
    assert_eq!(opening_messages(&task, "me"), vec![FirstMessage::PierceFirewall { token: 321 }]);
    let relay = hub.distrib.parent_message(DistribMessage::Search(jazz()));
    let search =
        relay.search.expect("expected an IncomingSearch from the pierced distributed search");
    assert_eq!((search.username.as_str(), search.token), ("searcher", 7));
    assert_eq!(search.query, "jazz");
}

#[test]
fn approved_upload_triggers_a_start_upload_command() {
    let mut hub = test_hub();
    hub.uploads.offer(5, "bob", "Music\\Album\\song.mp3", "/tmp/song.mp3", 4096, false);
    let r = hub.peer_message("bob", PeerMessage::TransferResponse { token: 5, allowed: true });
    assert_eq!(r.event, Some(PeerEvent::ResolveUploadPeer { username: "bob".into() }));
    assert!(hub.uploads.get(5).unwrap().approved);
    let PeerAction::Tell(PeerEvent::ResolveUploadPeer { username }) =
        hub.command(PeerCommand::StartUpload { username: "bob".into() })
    else {
        panic!("expected StartUpload")
    };
    assert_eq!(username, "bob");
}

#[test]
fn answers_place_in_queue_with_the_real_position() {
    let mut hub = test_hub();
    hub.uploads.offer(1, "bob", "Music\\a.mp3", "/tmp/a.mp3", 10, false);
    hub.uploads.offer(2, "bob", "Music\\b.mp3", "/tmp/b.mp3", 10, false);
    let r = hub.peer_message("bob", PeerMessage::PlaceInQueueRequest { file: "Music\\b.mp3".into() });
    let Some(PeerReply::PlaceInQueueResponse { filename, place }) = r.reply else {
        panic!("expected a place-in-queue response")
    };
    assert_eq!(filename, "Music\\b.mp3");
    assert_eq!(place, 2, "second in the queue");
}

#[test]
fn place_in_queue_is_zero_for_an_unoffered_file() {
    let mut hub = test_hub();
    let file = "Music\\never-offered.mp3".to_owned();
    let r = hub.peer_message("bob", PeerMessage::PlaceInQueueRequest { file });
    let Some(PeerReply::PlaceInQueueResponse { place, .. }) = r.reply else {
        panic!("expected a place-in-queue response")
    };
    assert_eq!(place, 0);
}

#[test]
fn queue_upload_enqueues_and_rejection_dequeues() {
    let mut hub = test_hub();
    let r = hub.peer_message("bob", PeerMessage::QueueUpload { file: "Music\\Album\\song.mp3".into() });
    let Some(PeerReply::TransferRequest { token, .. }) = r.reply else {
        panic!("expected transfer request")
    };
    assert_eq!(hub.uploads.queue_len(), 1, "offer is queued");
    hub.peer_message("bob", PeerMessage::TransferResponse { token, allowed: false });
    assert_eq!(hub.uploads.queue_len(), 0, "rejection dequeues");
}

#[test]
fn place_in_queue_response_is_forwarded_to_the_ui() {
    let mut hub = test_hub();
    let r = hub.peer_message(
        "alice",
        PeerMessage::PlaceInQueueResponse { filename: "Music\\x.mp3".into(), place: 3 },
    );
    let Some(PeerEvent::DownloadQueuePosition { username, filename, place }) = r.event else {
        panic!("expected QueuePosition")
    };
    assert_eq!((username.as_str(), filename.as_str(), place), ("alice", "Music\\x.mp3", 3));
}

fn inbound_response(token: u32, files: usize, speed: u32, queue: u32) -> PeerMessage {
    PeerMessage::FileSearchResponse(FileSearchResponse {
        username: "peer".into(),
        token,
        files: (0..files)
            .map(|i| SearchResultFile {
                name: format!("Music\\hit{i}.mp3"),
                size: 100,
                bitrate: None,
                length: None,
                vbr: false,
                sample_rate: None,
                bit_depth: None,
            })
            .collect(),
        free_slots: true,
        upload_speed: speed,
        in_queue: queue,
    })
}

#[test]
fn inbound_search_result_passing_filter_is_forwarded() {
    let mut hub = test_hub();
    let r = hub.peer_message("peer", inbound_response(42, 1, 500, 0));
    let Some(PeerEvent::SearchResultReceived { token, username, upload_speed, files, .. }) = r.event
    else {
        panic!("expected SearchResult")
    };
    assert_eq!(token, 42);
    assert_eq!(username, "peer");
    assert_eq!(upload_speed, 500);
    assert_eq!(files.len(), 1);
    assert_eq!(files[0].name, "Music\\hit0.mp3");
}

#[test]
fn search_filter_change_applies_live() {
    let mut hub = test_hub();
    let mut config = Config::default();
    config.sharing.min_result_files = 1;
    config.sharing.min_peer_upload_speed = 1_000;
    config.sharing.max_peer_queue_length = 0;
    hub.command(PeerCommand::ApplyConfig { config, home: "/home/me".into() });
    let r = hub.peer_message("peer", inbound_response(7, 1, 10, 0)); // 10 < 1000
    assert!(r.event.is_none(), "live-tightened filter drops the slow result");
}

#[test]
fn inbound_search_result_failing_filter_is_dropped() {
    let mut hub = test_hub();
    hub.filter = SearchFilter { min_upload_speed: 1_000, ..FILTER };
    let r = hub.peer_message("peer", inbound_response(7, 3, 10, 0));
    assert!(r.event.is_none(), "slow peer's result is filtered out");

    hub.filter = SearchFilter { max_queue_length: 5, ..FILTER };
    assert!(hub.peer_message("peer", inbound_response(7, 1, 10, 5)).event.is_some());
    assert!(hub.peer_message("peer", inbound_response(7, 1, 10, 6)).event.is_none());
    assert!(hub.peer_message("peer", inbound_response(7, 0, 10, 0)).event.is_none());
}

#[test]
fn approved_uploads_start_once_the_peer_is_found() {
    let mut hub = test_hub();
    hub.uploads.offer(5, "bob", "a.mp3", "/x/a.mp3", 10, false);
    hub.uploads.offer(6, "bob", "b.mp3", "/x/b.mp3", 20, false);
    hub.peer_message("bob", PeerMessage::TransferResponse { token: 6, allowed: true });
    let PeerAction::Start(started) = hub.command(PeerCommand::UploadConnect {
        username: "bob".into(),
        ip: "1.2.3.4".into(),
        port: 9,
    }) else {
        panic!("expected uploads")
    };
    assert_eq!(started.jobs.len(), 1, "only what was approved");
    assert_eq!(started.jobs[0].token, 6);
    assert_eq!(
        started.events,
        vec![PeerEvent::UploadStarted { username: "bob".into(), filename: "b.mp3".into(), size: 20 }]
    );
    assert_eq!(hub.uploads.len(), 1);
    assert_eq!(hub.gate.active(), 1);

    let done = hub.upload_done("bob", "b.mp3", None, 20, Some(900));
    assert_eq!(
        done.events,
        vec![PeerEvent::UploadComplete { username: "bob".into(), filename: "b.mp3".into() }]
    );
    assert_eq!(hub.gate.active(), 0);
    assert_eq!(hub.upload_speed, 0, "20 bytes say nothing of our speed");
    hub.upload_done("bob", "b.mp3", None, 100_000, Some(900));
    assert_eq!(hub.upload_speed, 900);
}

#[test]
fn uploads_to_a_peer_that_is_away_fail() {
    let mut hub = test_hub();
    hub.uploads.offer(6, "bob", "b.mp3", "/x/b.mp3", 20, false);
    hub.peer_message("bob", PeerMessage::TransferResponse { token: 6, allowed: true });
    let started = hub.upload_connect("bob", "0.0.0.0", 9);
    assert!(started.jobs.is_empty());
    assert_eq!(
        started.events,
        vec![PeerEvent::UploadFailed {
            username: "bob".into(),
            filename: "b.mp3".into(),
            reason: "peer is offline or not reachable".into()
        }]
    );
    assert_eq!(hub.uploads.len(), 0);
}

#[test]
fn searches_are_answered_over_a_relay_token() {
    let mut hub = test_hub();
    let answer = hub.incoming_search("carol", 7, "song").expect("a match");
    assert_eq!(answer.relay_token, 1);
    assert_eq!(answer.username, "me");
    assert_eq!(answer.token, 7);
    assert_eq!(answer.files.len(), 1);
    assert_eq!(answer.files[0].name, "Music\\Album\\song.mp3");
    assert!(answer.free_slots);
    assert_eq!(
        answer.request,
        ServerRequest::ConnectToPeer {
            token: 1,
            username: "carol".into(),
            connection_type: ConnectionType::Peer
        }
    );
    let action = hub.command(PeerCommand::IncomingSearch {
        username: "carol".into(),
        token: 8,
        query: "nothing like it".into(),
    });
    assert!(matches!(action, PeerAction::Nothing));
    assert_eq!(hub.connect_token, 3);
    hub.command(PeerCommand::SetExcludedPhrases { phrases: vec!["song".into()] });
    assert!(hub.incoming_search("carol", 9, "song").is_none(), "excluded phrases are not named");
}

#[test]
fn no_search_is_answered_where_the_settings_say_so() {
    let mut hub = test_hub();
    let mut config = Config::default();
    config.sharing.respond_to_searches = false;
    hub.command(PeerCommand::ApplyConfig { config: config.clone(), home: "/home/me".into() });
    assert!(hub.incoming_search("carol", 7, "song").is_none());
    let action = hub.command(PeerCommand::IncomingSearch {
        username: "carol".into(),
        token: 8,
        query: "song".into(),
    });
    assert!(matches!(action, PeerAction::Nothing));
    assert_eq!(hub.connect_token, 3, "a search takes its token all the same");
    hub.config_changed(&Config::default(), "/home/me");
    assert!(hub.incoming_search("carol", 9, "song").is_some());

    let ctx = AppContext::new(config, "/tmp/x.yaml".into());
    let mut silent = PeerNet::new(&ctx, "/home/me");
    silent.shares.add_virtual("Music\\Album\\song.mp3", 4096);
    assert!(silent.incoming_search("carol", 7, "song").is_none());
}

#[test]
fn a_cancelled_download_is_not_accepted() {
    let mut hub = test_hub();
    hub.download_queued("bob", "f.mp3", 5);
    hub.command(PeerCommand::CancelDownload { username: "bob".into(), filename: "f.mp3".into() });
    assert_eq!(hub.downloads.pending_len(), 0);
    let r = hub.peer_message("bob", transfer_request(TransferDirection::Upload, 9, "f.mp3", Some(5)));
    let Some(PeerReply::TransferResponse { allowed, .. }) = r.reply else { panic!("a response") };
    assert!(!allowed);
}

#[test]
fn offers_are_bounded() {
    let mut hub = test_hub();
    for token in 0..MAX_PENDING_TRANSFERS as u32 + 5 {
        hub.peer_message(
            "bob",
            transfer_request(TransferDirection::Download, token + 1, "Music\\Album\\song.mp3", None),
        );
    }
    assert!(hub.uploads.len() <= MAX_PENDING_TRANSFERS);
}

#[test]
fn offers_under_ever_lower_tokens_are_bounded_too() {
    let mut hub = test_hub();
    let ask = |token| {
        transfer_request(TransferDirection::Download, token, "Music\\Album\\song.mp3", None)
    };
    for token in (10..MAX_PENDING_TRANSFERS as u32 + 15).rev() {
        hub.peer_message("bob", ask(token));
        assert!(hub.uploads.get(token).is_some(), "the new offer is never the one to go");
        assert!(hub.uploads.len() <= MAX_PENDING_TRANSFERS);
    }
    assert_eq!(hub.uploads.len(), MAX_PENDING_TRANSFERS);
    assert_eq!(hub.uploads.queue_len(), MAX_PENDING_TRANSFERS, "the queue stays in step");
    assert!(hub.uploads.get(11).is_none(), "the lowest of the others gave way");
    assert!(hub.uploads.get(MAX_PENDING_TRANSFERS as u32 + 14).is_some());
    assert!(matches!(hub.file_connection("bob", 10), FileConnection::Serve { .. }));
}

#[test]
fn queued_offers_give_way_from_the_lowest_token_on() {
    let mut hub = test_hub();
    for _ in 0..MAX_PENDING_TRANSFERS + 1 {
        hub.peer_message("bob", PeerMessage::QueueUpload { file: "Music\\Album\\song.mp3".into() });
    }
    assert_eq!(hub.uploads.len(), MAX_PENDING_TRANSFERS);
    assert!(hub.uploads.get(1).is_none());
    assert!(hub.uploads.get(2).is_some());
    assert_eq!(hub.uploads.queue_len(), MAX_PENDING_TRANSFERS);
}

#[test]
fn agreed_downloads_are_bounded() {
    let mut hub = test_hub();
    let agree = |hub: &mut PeerNet, token: u32| {
        let file = format!("{token}.mp3");
        hub.download_queued("bob", &file, 5);
        let r = hub.peer_message(
            "bob",
            transfer_request(TransferDirection::Upload, token, &file, None),
        );
        assert!(matches!(r.reply, Some(PeerReply::TransferResponse { allowed: true, .. })));
        assert!(hub.downloads.active(token).is_some());
    };
    for token in 0..MAX_PENDING_TRANSFERS as u32 {
        agree(&mut hub, token + 10);
    }
    assert!(hub.downloads.active(10).is_some());
    agree(&mut hub, 9);
    assert!(hub.downloads.active(10).is_none(), "the lowest of the others gave way");
    agree(&mut hub, 5000);
    assert!(hub.downloads.active(9).is_none());
    assert!(matches!(hub.file_connection("bob", 9), FileConnection::Unknown));
    assert!(matches!(hub.file_connection("bob", 5000), FileConnection::Receive { .. }));
}

#[test]
fn the_oldest_deliveries_give_way() {
    let mut pending = PendingDeliveries::new();
    for token in 0..MAX_PENDING_DELIVERIES as u32 + 1 {
        pending.queue(token, vec![token as u8]);
    }
    assert_eq!(pending.len(), MAX_PENDING_DELIVERIES);
    assert_eq!(pending.take(5), Some(vec![vec![5]]));
    assert_eq!(pending.take(5), None, "it is collected once");
    pending.queue(6, vec![60]);
    assert_eq!(pending.take(6), Some(vec![vec![6], vec![60]]), "frames of one token wait together");
}

#[test]
fn failed_connections_are_told_of_what_was_asked_for() {
    let download = PeerTask::Download {
        username: "bob".into(),
        ip: "1.2.3.4".into(),
        port: 2234,
        filename: "f.mp3".into(),
        size: 5,
    };
    assert_eq!(
        connect_failed(&download, "refused"),
        Some(PeerEvent::DownloadFailed {
            username: "bob".into(),
            filename: "f.mp3".into(),
            reason: "connect 1.2.3.4:2234: refused".into()
        })
    );
    assert_eq!(
        opening_messages(&download, "me"),
        vec![
            FirstMessage::PeerInit {
                username: "me".into(),
                connection_type: ConnectionType::Peer,
                token: 0
            },
            FirstMessage::QueueUpload { file: "f.mp3".into() },
            FirstMessage::PlaceInQueueRequest { file: "f.mp3".into() },
        ]
    );
    let pierce =
        PeerTask::Pierce { username: "bob".into(), ip: "1.2.3.4".into(), port: 1, token: 3 };
    assert_eq!(connect_failed(&pierce, "refused"), None);
}

#[test]
fn outcomes_are_told_once_each() {
    assert_eq!(report_outcome(ConnOutcome::Done), None);
    assert_eq!(
        report_outcome(ConnOutcome::Downloaded {
            username: "bob".into(),
            filename: "f".into(),
            path: "/d/f".into()
        }),
        Some(PeerEvent::DownloadComplete {
            username: "bob".into(),
            filename: "f".into(),
            path: "/d/f".into()
        })
    );
}

#[test]
fn losing_the_parent_makes_us_our_own_root() {
    let mut hub = test_hub();
    hub.distrib.parent_connected();
    hub.distrib.parent_message(DistribMessage::BranchLevel { level: 3 });
    hub.distrib.parent_message(DistribMessage::BranchRoot { root: "alice".into() });
    let relay = hub.distrib.parent_lost("me");
    assert_eq!(hub.distrib.level(), 0);
    assert_eq!(hub.distrib.root(), "me");
    assert!(relay.advertise);
    let PeerAction::Send(requests) = hub.command(PeerCommand::AdvertiseBranch) else {
        panic!("expected requests")
    };
    assert!(requests.contains(&ServerRequest::BranchRoot { root: "me".into() }));
    assert!(requests.contains(&ServerRequest::AcceptChildren { accept: false }));
}
