//! The session with the server.
use soulrust::config::{AppContext, Config};
use soulrust::extract::SearchJob;
use soulrust::session::{
    NetConnEvent, Outgoing, Session, SessionEvent, SessionOut, SessionState, StartedSearch,
};
use soulrust::wire::{
    ConnectionType, DistribSearch, Ipv4, PossibleParent, ServerMessage, ServerRequest,
};

fn test_session() -> Session {
    let mut config = Config::default();
    config.server.username = "testuser".into();
    config.server.password = "testpass".into();
    Session::new(&AppContext::new(config, "/tmp/unused.yaml".into()))
}

fn login_success() -> ServerMessage {
    ServerMessage::LoginSuccess {
        greeting: "Welcome!".into(),
        own_ip: Ipv4::new(203, 0, 113, 9),
    }
}

fn logged_in_session() -> (Session, Vec<SessionOut>) {
    let mut session = test_session();
    let mut out = session.net_conn(&NetConnEvent::Connected);
    out.extend(session.net_rx(login_success()));
    (session, out)
}

fn frames(out: &[SessionOut]) -> Vec<&ServerRequest<String>> {
    out.iter()
        .filter_map(|o| match o {
            Outgoing::Server(r) => Some(r),
            _ => None,
        })
        .collect()
}

fn events(out: &[SessionOut]) -> Vec<&SessionEvent<String>> {
    out.iter()
        .filter_map(|o| match o {
            Outgoing::Event(e) => Some(e),
            _ => None,
        })
        .collect()
}

fn query(q: &str) -> SearchJob {
    SearchJob { raw_query: Some(q.into()), ..Default::default() }
}

fn address(username: &str, ip: Ipv4, port: u32) -> ServerMessage {
    ServerMessage::GetPeerAddress { username: username.into(), ip, port }
}

#[test]
fn connect_sends_byte_exact_login_frame() {
    let mut session = test_session();
    let out = session.net_conn(&NetConnEvent::Connected);
    let expected = ServerRequest::Login {
        username: "testuser".to_owned(),
        password: "testpass".to_owned(),
        major_version: 160,
        minor_version: 1,
    };
    assert_eq!(frames(&out), vec![&expected]);
    assert_eq!(events(&out), vec![&SessionEvent::Connecting]);
}

#[test]
fn login_success_sets_wait_port_and_emits_logged_in() {
    let (session, out) = logged_in_session();
    let frames = frames(&out);
    assert_eq!(
        frames.len(),
        6,
        "login + wait port + HaveNoParent/BranchRoot/BranchLevel/AcceptChildren"
    );
    assert_eq!(
        frames[1],
        &ServerRequest::SetWaitPort { port: 2234, obfuscation_type: 0, obfuscated_port: 0 }
    );
    assert!(matches!(
        events(&out).last(),
        Some(SessionEvent::LoggedIn { greeting, own_ip })
            if greeting == "Welcome!" && own_ip == "203.0.113.9"
    ));
    assert!(session.state() == SessionState::LoggedIn);
}

#[test]
fn login_failure_emits_reason_with_detail() {
    let mut session = test_session();
    session.net_conn(&NetConnEvent::Connected);
    let out = session.net_rx(ServerMessage::LoginFailure {
        reason: "INVALIDPASS".into(),
        detail: None,
    });
    assert!(matches!(
        events(&out).last(),
        Some(SessionEvent::LoginFailed { reason }) if reason == "INVALIDPASS"
    ));
}

#[test]
fn search_before_login_returns_error_not_frames() {
    let mut session = test_session();
    let out = session.start_search(5, &vec![query("q")]);
    assert!(frames(&out).is_empty());
    assert_eq!(out.len(), 1);
    assert!(matches!(
        &out[0],
        Outgoing::StartSearchResult { corr: 5, error: Some(e), .. } if e.contains("not logged in")
    ));
}

#[test]
fn a_job_without_a_query_takes_no_token() {
    let (mut session, _) = logged_in_session();
    let left = session.tokens_left();
    let jobs = vec![query(""), query("q"), SearchJob::default()];
    let out = session.start_search(4, &jobs);
    assert_eq!(frames(&out), vec![&ServerRequest::FileSearch { token: 1, query: "q".to_owned() }]);
    assert_eq!(session.tokens_left(), left - 1);
}

#[test]
fn search_when_logged_in_sends_one_frame_per_job_with_fresh_tokens() {
    let (mut session, mut out) = logged_in_session();
    out.extend(session.start_search(
        9,
        &vec![
            SearchJob {
                artist: Some("A".into()),
                title: Some("One".into()),
                ..Default::default()
            },
            query("B Two"),
        ],
    ));
    let frames = frames(&out);
    assert_eq!(frames.len(), 8);
    assert_eq!(frames[6], &ServerRequest::FileSearch { token: 1, query: "A One".to_owned() });
    assert_eq!(frames[7], &ServerRequest::FileSearch { token: 2, query: "B Two".to_owned() });
    assert!(out.contains(&Outgoing::StartSearchResult {
        corr: 9,
        started: vec![
            StartedSearch { token: 1, query: "A One".to_owned() },
            StartedSearch { token: 2, query: "B Two".to_owned() },
        ],
        error: None,
    }));
    assert!(events(&out)
        .iter()
        .any(|e| matches!(e, SessionEvent::SearchStarted { token: 1, query } if query == "A One")));
}

#[test]
fn search_broadcast_and_unknown_codes_become_events() {
    let mut session = test_session();
    let mut out = session.net_rx(ServerMessage::FileSearch {
        username: "bob".into(),
        token: 99,
        query: "some query".into(),
    });
    out.extend(session.net_rx(ServerMessage::Unknown { code: 9999, body: vec![] }));
    let events = events(&out);
    assert!(matches!(
        events[0],
        SessionEvent::SearchBroadcastSeen { username, query }
            if username == "bob" && query == "some query"
    ));
    assert!(matches!(
        events[1],
        SessionEvent::ProtocolNote { note } if note.contains("9999")
    ));
}

#[test]
fn browse_before_login_is_rejected_without_network_traffic() {
    let mut session = test_session();
    let out = session.browse_user(7, "alice");
    assert!(frames(&out).is_empty());
    assert_eq!(out.len(), 1);
    assert!(matches!(
        &out[0],
        Outgoing::BrowseAccepted { corr: 7, error: Some(e) } if e.contains("not logged in")
    ));
}

#[test]
fn browse_when_logged_in_requests_peer_address_and_accepts() {
    let (mut session, _) = logged_in_session();
    let out = session.browse_user(3, "  alice  ");
    assert_eq!(
        frames(&out).last().unwrap(),
        &&ServerRequest::GetPeerAddress { username: "alice".to_owned() },
        "trimmed username is looked up"
    );
    assert!(out.contains(&Outgoing::BrowseAccepted { corr: 3, error: None }));
}

#[test]
fn peer_address_for_a_pending_browse_triggers_a_peer_connection() {
    let (mut session, _) = logged_in_session();
    session.browse_user(1, "alice");
    let out = session.net_rx(address("alice", Ipv4::new(198, 51, 100, 7), 2234));
    assert_eq!(
        out,
        vec![Outgoing::PeerBrowseConnect {
            username: "alice".to_owned(),
            ip: "198.51.100.7".to_owned(),
            port: 2234,
        }]
    );
}

#[test]
fn offline_peer_address_fails_the_browse() {
    let (mut session, _) = logged_in_session();
    session.browse_user(1, "ghost");
    let out = session.net_rx(address("ghost", Ipv4::new(0, 0, 0, 0), 0));
    assert_eq!(out.len(), 1);
    assert!(matches!(
        &out[0],
        Outgoing::BrowseFailed { reason, .. } if reason.contains("offline")
    ));
}

#[test]
fn unrelated_peer_address_stays_a_log_note() {
    let (mut session, _) = logged_in_session();
    let out = session.net_rx(address("stranger", Ipv4::new(1, 2, 3, 4), 99));
    assert!(!out.iter().any(|o| matches!(o, Outgoing::PeerBrowseConnect { .. })));
    assert!(events(&out)
        .iter()
        .any(|e| matches!(e, SessionEvent::ProtocolNote { note } if note.contains("stranger"))));
}

#[test]
fn login_declares_our_branch_position() {
    let (_, out) = logged_in_session();
    let frames = frames(&out);
    assert!(
        frames.contains(&&ServerRequest::HaveNoParent { no_parent: true }),
        "HaveNoParent(true) makes the server engage us in the distributed tree"
    );
    assert!(frames.contains(&&ServerRequest::BranchLevel { level: 0 }), "BranchLevel(0) on login");
    assert!(
        frames.contains(&&ServerRequest::BranchRoot { root: "testuser".to_owned() }),
        "BranchRoot(self) on login"
    );
    assert!(
        frames.contains(&&ServerRequest::AcceptChildren { accept: false }),
        "AcceptChildren(false) — we don't forward down-tree yet"
    );
}

fn parents(entries: &[(&str, Ipv4, u32)]) -> ServerMessage {
    ServerMessage::PossibleParents {
        parents: entries
            .iter()
            .map(|(username, ip, port)| PossibleParent {
                username: username.to_string(),
                ip: *ip,
                port: *port,
            })
            .collect(),
    }
}

#[test]
fn possible_parents_adopts_at_most_one_and_ignores_empty() {
    let (mut session, _) = logged_in_session();
    let adopted = |out: &[SessionOut]| {
        out.iter()
            .filter_map(|o| match o {
                Outgoing::PeerDistribConnect { username, .. } => Some(username.clone()),
                _ => None,
            })
            .collect::<Vec<String>>()
    };
    let mut out = session.net_rx(parents(&[]));
    assert!(adopted(&out).is_empty(), "empty PossibleParents adopts nothing");
    out.extend(session.net_rx(parents(&[("p1", Ipv4::new(10, 0, 0, 1), 1)])));
    out.extend(session.net_rx(parents(&[("p2", Ipv4::new(10, 0, 0, 2), 2)])));
    assert_eq!(adopted(&out), vec!["p1".to_owned()], "we adopt at most one parent");
}

#[test]
fn embedded_distributed_search_is_forwarded_for_response() {
    let (mut session, _) = logged_in_session();
    let out = session.net_rx(ServerMessage::EmbeddedMessage {
        distrib_code: 3,
        search: Some(DistribSearch {
            identifier: 49,
            username: "searcher".into(),
            token: 0x4242,
            query: "distributed query".into(),
        }),
    });
    let searches: Vec<_> = out
        .iter()
        .filter(|o| matches!(o, Outgoing::IncomingSearch { .. }))
        .collect();
    assert_eq!(
        searches,
        vec![&Outgoing::IncomingSearch {
            username: "searcher".to_owned(),
            token: 0x4242,
            query: "distributed query".to_owned(),
        }],
        "the embedded distributed search is responded to"
    );
}

#[test]
fn possible_parents_triggers_a_distrib_connect() {
    let (mut session, _) = logged_in_session();
    let out = session.net_rx(parents(&[("parent1", Ipv4::new(10, 0, 0, 1), 2234)]));
    assert!(out.contains(&Outgoing::PeerDistribConnect {
        username: "parent1".to_owned(),
        ip: "10.0.0.1".to_owned(),
        port: 2234,
    }));
}

#[test]
fn file_search_broadcast_is_forwarded_as_incoming_search() {
    let mut session = test_session();
    let out = session.net_rx(ServerMessage::FileSearch {
        username: "bob".into(),
        token: 99,
        query: "rust album".into(),
    });
    assert!(out.contains(&Outgoing::IncomingSearch {
        username: "bob".to_owned(),
        token: 99,
        query: "rust album".to_owned(),
    }));
}

#[test]
fn start_download_resolves_address_then_emits_peer_download_connect() {
    let (mut session, _) = logged_in_session();
    let out = session.start_download("alice", "Music\\song.mp3", 4096);
    assert_eq!(
        frames(&out).last().unwrap(),
        &&ServerRequest::GetPeerAddress { username: "alice".to_owned() }
    );
    let out = session.net_rx(address("alice", Ipv4::new(198, 51, 100, 7), 2234));
    let connects: Vec<_> = out
        .iter()
        .filter(|o| matches!(o, Outgoing::PeerDownloadConnect { .. }))
        .collect();
    assert_eq!(
        connects,
        vec![&Outgoing::PeerDownloadConnect {
            username: "alice".to_owned(),
            ip: "198.51.100.7".to_owned(),
            port: 2234,
            filename: "Music\\song.mp3".to_owned(),
            size: 4096,
        }]
    );
}

#[test]
fn start_download_from_an_offline_user_fails() {
    let (mut session, _) = logged_in_session();
    session.start_download("ghost", "a.mp3", 1);
    let out = session.net_rx(address("ghost", Ipv4::new(0, 0, 0, 0), 0));
    assert_eq!(out.len(), 1);
    assert!(matches!(&out[0], Outgoing::DownloadFailed { filename, .. } if filename == "a.mp3"));
}

#[test]
fn start_download_when_not_logged_in_fails_immediately() {
    let mut session = test_session();
    let out = session.start_download("alice", "a.mp3", 1);
    assert_eq!(
        out,
        vec![Outgoing::DownloadFailed {
            username: "alice".to_owned(),
            filename: "a.mp3".to_owned(),
            reason: "not logged in to the soulseek server".to_owned(),
        }]
    );
}

#[test]
fn connect_to_peer_for_a_peer_connection_triggers_a_pierce() {
    let mut session = test_session();
    let out = session.net_rx(ServerMessage::ConnectToPeer {
        username: "carol".into(),
        connection_type: ConnectionType::Peer,
        ip: Ipv4::new(10, 0, 0, 5),
        port: 2234,
        token: 555,
    });
    assert!(out.contains(&Outgoing::PeerPierce {
        username: "carol".to_owned(),
        ip: "10.0.0.5".to_owned(),
        port: 2234,
        token: 555,
    }));
}

#[test]
fn disconnect_resets_state_so_searches_fail_again() {
    let (mut session, _) = logged_in_session();
    let mut out = session.net_conn(&NetConnEvent::Closed { reason: "eof".into() });
    out.extend(session.start_search(1, &vec![query("q")]));
    assert!(out.iter().any(|o| matches!(o, Outgoing::StartSearchResult { error: Some(_), .. })));
    assert!(events(&out)
        .iter()
        .any(|e| matches!(e, SessionEvent::Disconnected { reason } if reason == "eof")));
}

#[test]
fn an_address_answers_each_request_once() {
    let (mut session, _) = logged_in_session();
    session.browse_user(1, "alice");
    session.start_download("alice", "a.mp3", 1);
    session.resolve_upload_peer("alice");
    let first = session.net_rx(address("alice", Ipv4::new(1, 2, 3, 4), 5));
    assert_eq!(first.len(), 3);
    let second = session.net_rx(address("alice", Ipv4::new(1, 2, 3, 4), 5));
    assert!(second.iter().all(|o| matches!(o, Outgoing::Event(_))));
    assert!(session.undecodable("short read").len() == 1);
    assert!(session.tokens_left() > 0);
}
