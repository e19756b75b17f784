//! File names that are safe, messages on the bus, and the search index.
use std::collections::HashSet;

use soulrust::extract::SearchJob;
use soulrust::messages::{page_from_proto, page_to_proto, Page, StartSearch};
use soulrust::net_edge::{net_conn, net_event};
use soulrust::paths::sanitize_path_component;
use soulrust::proto::{
    deserialize_from, get_size, read_large, varint_len, write_into, write_large, HandlerId,
    MessageId,
};
use soulrust::search_response::{
    create_file_info_list, create_search_result_list, respond, sanitize_search_term, SearchTerms,
};
use soulrust::session::NetConnEvent;
use soulrust::shares::{tokenize, ShareIndex, WordIndex};

#[test]
fn sanitize_keeps_safe_names_and_neutralizes_dangerous_ones() {
    assert_eq!(sanitize_path_component("Road Trip 2024"), "Road Trip 2024");
    assert_eq!(sanitize_path_component("AC/DC: Live"), "AC_DC_ Live");
    assert_eq!(sanitize_path_component("../etc/passwd"), "_etc_passwd");
    assert_eq!(sanitize_path_component("a\\b"), "a_b");
    assert_eq!(sanitize_path_component("  hi.  "), "hi");
    assert_eq!(sanitize_path_component(".."), "");
    assert_eq!(sanitize_path_component(""), "");
    assert_eq!(sanitize_path_component("mix\t\n1"), "mix1");
}

#[test]
fn names_of_dots_and_blanks_alone_are_empty() {
    assert_eq!(sanitize_path_component(". .. ."), "");
    assert_eq!(sanitize_path_component(" . "), "");
}

fn start_search() -> StartSearch {
    StartSearch {
        corr: 7,
        source_label: "spotify: Test Playlist".into(),
        jobs: vec![SearchJob {
            artist: Some("Artist".into()),
            title: Some("Title".into()),
            album: None,
            raw_query: None,
        }],
    }
}

#[test]
fn messages_round_trip_through_bincode() {
    let buf = start_search().to_bytes();
    let back = StartSearch::deserialize_from(&buf).unwrap();
    assert_eq!(back.corr, 7);
    assert_eq!(back.jobs.len(), 1);
    assert_eq!(back.jobs[0].artist.as_deref(), Some("Artist"));
    assert_eq!(back, start_search());
    assert_ne!(buf, "spotify: Test Playlist".as_bytes().to_vec());
}

#[test]
fn decode_tolerates_aligned_tail_padding() {
    let conn = net_conn(NetConnEvent::Failed { reason: "boom".into() });
    let mut body = Vec::new();
    buffa::types::put_string_field(2, &conn.reason, &mut body);
    let framed = write_into(&body);
    assert_eq!(framed.len() as u64, get_size(body.len() as u32));
    let mut buf = framed;
    buf.extend_from_slice(&[0u8; 7]);
    assert_eq!(deserialize_from(&buf), Some(body));
    assert_eq!(net_event(conn), NetConnEvent::Failed { reason: "boom".into() });

    let mut padded = start_search().to_bytes();
    padded.extend_from_slice(&[0u8; 7]);
    assert_eq!(StartSearch::deserialize_from(&padded), Some(start_search()));
    assert_eq!(StartSearch::deserialize_from(&vec![]), None);
}

#[test]
fn lengths_that_the_bytes_do_not_hold_are_refused() {
    let longest = vec![0, 253, 255, 255, 255, 255, 255, 255, 255, 255];
    assert_eq!(StartSearch::deserialize_from(&longest), None, "a text of 2^64 - 1 bytes");
    let jobs = vec![0, 0, 253, 255, 255, 255, 255, 255, 255, 255, 255];
    assert_eq!(StartSearch::deserialize_from(&jobs), None, "as many jobs");
    let mut cut = start_search().to_bytes();
    cut.pop();
    assert_eq!(StartSearch::deserialize_from(&cut), None);
    assert_eq!(StartSearch::deserialize_from(&vec![0, 1, 0xff, 0]), None, "no text at all");
}

#[test]
fn peer_activity_bridges_the_bus_traits_with_padding_tolerance() {
    let mut body = Vec::new();
    buffa::types::put_string_field(1, "listening on 2234", &mut body);
    let size = get_size(body.len() as u32) as usize;
    let mut buf = write_into(&body);
    assert_eq!(buf.len(), size);
    buf.resize(size + 7, 0);
    let back = deserialize_from(&buf).unwrap();
    let mut fields = &back[1..];
    assert_eq!(buffa::types::decode_string(&mut fields).unwrap(), "listening on 2234");
}

#[test]
fn bus_framing_refuses_what_is_cut_short() {
    let body = vec![7u8; 300];
    let framed = write_into(&body);
    assert_eq!(framed[..2], [0xac, 0x02]);
    assert_eq!(deserialize_from(&framed[..301].to_vec()), None);
    assert_eq!(deserialize_from(&vec![]), None);
    assert_eq!(deserialize_from(&vec![0x80; 11]), None);
    let large = write_large(&body);
    assert_eq!(large[..4], [44, 1, 0, 0]);
    assert_eq!(read_large(&large), Some(body));
    assert_eq!(read_large(&large[..303].to_vec()), None);
    assert_eq!(read_large(&vec![1]), None);
}

#[test]
fn varint_lengths() {
    for (n, len) in [(0, 1), (127, 1), (128, 2), (16_383, 2), (16_384, 3), (u64::MAX, 10)] {
        assert_eq!(varint_len(n), len);
        let mut out = Vec::new();
        buffa::encoding::encode_varint(n, &mut out);
        assert_eq!(out.len(), len);
    }
}

#[test]
fn numbers_on_the_bus() {
    assert_eq!(MessageId::HttpRender.number(), 1);
    assert_eq!(MessageId::PauseDownload.number(), 49);
    assert_eq!(MessageId::from_number(27), Some(MessageId::PeerActivity));
    assert_eq!(MessageId::from_number(50), None);
    assert_eq!(HandlerId::ApiServer.number(), 11);
    assert_eq!(HandlerId::from_number(0), None);
}

#[test]
fn pages_survive_the_bus() {
    for page in [
        Page::Index,
        Page::Uploads,
        Page::SortSearches { key: "size".to_owned() },
        Page::FilterBitrate { min: 320 },
    ] {
        let there = page_to_proto(&page);
        assert_eq!(page_from_proto(&there), page);
    }
}

fn word_index() -> WordIndex {
    let mut index = WordIndex::new();
    for (word, ids) in [
        ("iso", vec![34u32, 35, 36, 37, 38]),
        ("lts", vec![63, 68, 73]),
        ("system", vec![37, 38]),
        ("linux", vec![35, 36]),
    ] {
        for id in ids {
            index.note(word.to_owned(), id);
        }
    }
    index
}

fn terms(included: &[&str], excluded: &[&str], partial: &[&str]) -> SearchTerms {
    SearchTerms {
        included: included.iter().map(|s| s.to_string()).collect(),
        excluded: excluded.iter().map(|s| s.to_string()).collect(),
        partial: partial.iter().map(|s| s.to_string()).collect(),
    }
}

#[test]
fn included_partial_excluded_intersection() {
    let wi = word_index();
    assert_eq!(
        create_search_result_list(&terms(&["iso"], &["linux", "game"], &["stem"]), 1500, &wi),
        Some(HashSet::from([37, 38]))
    );
    assert_eq!(
        create_search_result_list(
            &terms(&["lts", "iso"], &["linux", "game", "music", "cd"], &[]),
            1500,
            &wi
        ),
        None
    );
    assert_eq!(
        create_search_result_list(&terms(&["iso"], &["system"], &["ibberish"]), 1500, &wi),
        None
    );
}

#[test]
fn sanitize_classifies_prefixes() {
    let t = sanitize_search_term("Gwen -mp3 *ello -No yes");
    assert_eq!(t.included, vec!["gwen", "yes"]);
    assert_eq!(t.excluded, vec!["mp3", "no"]);
    assert_eq!(t.partial, vec!["ello"]);
}

fn index_with(paths: &[(&str, u64)]) -> ShareIndex {
    let mut index = ShareIndex::new();
    for (path, size) in paths {
        index.add_virtual(path, *size);
    }
    index
}

#[test]
fn excluded_phrases_drop_matching_files() {
    let index = index_with(&[
        ("isos\\freebsd.iso", 1000),
        ("isos\\linux.iso", 2000),
        ("isos\\linux distro.iso", 3000),
        ("isos\\NetBSD.iso", 5000),
        ("isos\\openbsd.iso", 6000),
    ]);
    let results: HashSet<u32> = (0..index.num_files() as u32).collect();
    let phrases = vec!["linux distro".to_string(), "netbsd".to_string()];
    let files = create_file_info_list(&results, 100, &phrases, &index);

    let names: Vec<&str> = files.iter().map(|f| f.name.as_str()).collect();
    assert!(names.contains(&"isos\\linux.iso"));
    assert!(names.contains(&"isos\\freebsd.iso"));
    assert!(names.contains(&"isos\\openbsd.iso"));
    assert!(!names.iter().any(|n| n.contains("distro") || n.to_lowercase().contains("netbsd")));
    assert_eq!(files.len(), 3);
}

#[test]
fn respond_matches_against_a_real_index() {
    let index = index_with(&[("Music\\Gwen\\song.mp3", 10), ("Music\\Other\\clip.flac", 20)]);
    let hits = respond("gwen", 100, &vec![], &index);
    assert_eq!(hits.len(), 1);
    assert_eq!(hits[0].name, "Music\\Gwen\\song.mp3");
    assert!(respond("nonexistentword", 100, &vec![], &index).is_empty());
}

#[test]
fn answers_keep_to_the_cap() {
    let names: Vec<String> = (0..20).map(|n| format!("Music\\song {n}.mp3")).collect();
    let paths: Vec<(&str, u64)> = names.iter().map(|n| (n.as_str(), 1)).collect();
    let index = index_with(&paths);
    assert_eq!(respond("song", 5, &vec![], &index).len(), 5);
    assert_eq!(respond("song", 100, &vec![], &index).len(), 20);
    assert_eq!(respond("song", 100, &vec!["song 1".to_owned()], &index).len(), 9);
}

#[test]
fn shared_files_resolve() {
    let mut index = ShareIndex::new();
    index.add("/real/a.mp3".into(), "Music\\a.mp3".into(), 9);
    assert_eq!(index.resolve("Music\\a.mp3"), Some(("/real/a.mp3", 9)));
    assert_eq!(index.resolve("Music\\b.mp3"), None);
    assert_eq!(index.folder("Music").len(), 1);
    assert!(index.words().get("music").is_some());
    assert_eq!(tokenize("Music\\Gwen Stefani - Hit.mp3"), ["music", "gwen", "stefani", "hit", "mp3"]);
}
