use soulrust::frame::{frame_len, PayloadRead, CLOSED_MID_FRAME, FRAME_STEP, OVERSIZED};
use soulrust::transfer_io::{
    download_len, set_bandwidth_limits, should_report, upload_len, BandwidthLimits, CopyExact, CHUNK,
    ENDED_EARLY, PAST_FILE, PAST_SIZE,
};

/// Copies from a source in memory; what was reported is returned too.
fn copy(source: &[u8], offset: u64, len: u64) -> (Result<u64, String>, Vec<u8>, Vec<u64>) {
    let mut copy = CopyExact::new(offset, len);
    let mut out = Vec::new();
    let mut told = Vec::new();
    loop {
        let want = copy.want();
        if want == 0 {
            return (Ok(len), out, told);
        }
        let read = want.min(source.len() - out.len());
        out.extend_from_slice(&source[out.len()..out.len() + read]);
        match copy.moved(read) {
            Ok(total) => told.push(total),
            Err(e) => return (Err(e), out, told),
        }
    }
}

#[test]
fn upload_sends_init_then_streams_from_the_requested_offset() {
    let contents = b"0123456789abcdef".repeat(8192); // 128 KiB, multi-chunk
    let size = contents.len() as u64;
    let len = upload_len(16, size).unwrap();
    let (sent, got, told) = copy(&contents[16..], 16, len);
    assert_eq!(sent, Ok(size - 16));
    assert_eq!(got, &contents[16..]);
    assert_eq!(told[0], 16 + CHUNK as u64, "progress counts from the start of the file");
    assert_eq!(told[told.len() - 1], size);
}

#[test]
fn stream_from_offset_streams_without_re_sending_the_token() {
    let contents = b"0123456789abcdef".repeat(8192); // 128 KiB, multi-chunk
    let size = contents.len() as u64;
    let len = upload_len(32, size).unwrap();
    let (sent, got, _) = copy(&contents[32..], 32, len);
    assert_eq!(sent, Ok(size - 32));
    assert_eq!(got, &contents[32..]);
}

#[test]
fn download_sends_offset_then_writes_expected_bytes_to_disk() {
    let payload = b"the quick brown fox".repeat(4096); // 76 KiB
    let size = payload.len() as u64;
    let len = download_len(0, size).unwrap();
    let (received, got, _) = copy(&payload, 0, len);
    assert_eq!(received, Ok(size));
    assert_eq!(got, payload);
}

#[test]
fn download_errors_if_the_peer_closes_early() {
    let len = download_len(0, 1000).unwrap();
    let (result, got, _) = copy(b"only a few bytes", 0, len);
    assert_eq!(result, Err(ENDED_EARLY.to_owned()), "short transfer must error");
    assert_eq!(got, b"only a few bytes");
}

#[test]
fn failed_download_keeps_the_partial_for_resume() {
    let (result, got, told) = copy(b"partialbytes", 0, 100); // 12 of the promised 100
    assert!(result.is_err(), "short transfer fails");
    assert_eq!(got.len(), 12, "the bytes received so far are retained");
    assert_eq!(told, vec![12]);
}

#[test]
fn upload_of_a_fully_resumed_file_sends_zero_bytes() {
    let len = upload_len(10, 10).unwrap();
    let (sent, got, _) = copy(b"", 10, len);
    assert_eq!(sent, Ok(0));
    assert!(got.is_empty());
}

#[test]
fn upload_rejects_an_offset_past_the_size() {
    assert_eq!(upload_len(9, 3), Err(PAST_FILE.to_owned()));
}

#[test]
fn upload_errors_when_the_file_is_shorter_than_advertised() {
    let len = upload_len(0, 1000).unwrap();
    let (sent, _, _) = copy(b"only ten b", 0, len);
    assert!(sent.is_err(), "short file must surface an error, not Ok");
}

#[test]
fn download_rejects_an_offset_past_the_expected_size() {
    assert_eq!(download_len(100, 50), Err(PAST_SIZE.to_owned()));
}

#[test]
fn progress_is_reported_twice_a_second_and_at_the_end() {
    assert!(!should_report(10, 100, 499));
    assert!(should_report(10, 100, 500));
    assert!(should_report(100, 100, 0));
}

#[test]
fn bandwidth_caps_are_set_together() {
    let mut limits = BandwidthLimits { download: 0, upload: 0 };
    set_bandwidth_limits(&mut limits, 1000, 2000);
    assert_eq!((limits.download, limits.upload), (1000, 2000));
}

#[test]
fn frames_are_read_exactly() {
    assert_eq!(frame_len(3, 0, 0, 0, 10), Ok(3));
    assert_eq!(frame_len(10, 0, 0, 0, 10), Ok(10));
    assert_eq!(frame_len(11, 0, 0, 0, 10), Err(OVERSIZED.to_owned()));
    assert_eq!(frame_len(0, 1, 0, 0, 1000), Ok(256), "the least significant byte comes first");

    let mut payload = PayloadRead::new(FRAME_STEP + 5);
    assert_eq!(payload.want(), FRAME_STEP);
    assert_eq!(payload.got(vec![7; FRAME_STEP]), Ok(()));
    assert_eq!(payload.want(), 5);
    assert_eq!(payload.got(vec![]), Err(CLOSED_MID_FRAME.to_owned()));
    assert_eq!(payload.got(vec![8; 5]), Ok(()));
    assert_eq!(payload.want(), 0);
    let whole = payload.into_payload();
    assert_eq!(whole.len(), FRAME_STEP + 5);
    assert_eq!(whole[FRAME_STEP], 8);
}
