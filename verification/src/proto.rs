//! How messages are framed on the bus, and the numbers of messages and handlers.
use vstd::prelude::*;

use crate::frame::{le32, le32_bytes, push_le32, read_le32};

verus! {

/// A number in base 128, the low digits first, each but the last with its high bit set.
pub open spec fn varint(n: nat) -> Seq<u8>
    decreases n,
{
    if n < 128 {
        seq![n as u8]
    } else {
        seq![(128 + n % 128) as u8] + varint(n / 128)
    }
}

/// The length of the number that bytes begin with: up to and with the first byte without its high
/// bit, or one more than there are where there is none.
pub open spec fn varint_size(bytes: Seq<u8>) -> nat
    decreases bytes.len(),
{
    if bytes.len() == 0 || bytes[0] < 128 {
        1
    } else {
        1 + varint_size(bytes.skip(1))
    }
}

/// The number that bytes are in base 128, the low digits first.
pub open spec fn varint_value(bytes: Seq<u8>) -> nat
    decreases bytes.len(),
{
    if bytes.len() == 0 {
        0
    } else {
        bytes[0] as nat % 128 + 128 * varint_value(bytes.skip(1))
    }
}

/// The number that bytes begin with, and its length. It has at most ten bytes, and fits 64 bits.
pub open spec fn leading_varint(bytes: Seq<u8>) -> Option<(nat, nat)> {
    let n = varint_size(bytes);
    if n > bytes.len() || n > 10 || (n == 10 && bytes[9] >= 2) {
        None
    } else {
        Some((varint_value(bytes.take(n as int)), n))
    }
}

/// Appends a number in base 128, by `buffa::encoding::encode_varint`: the low digits first, each
/// but the last with its high bit set.
#[verifier::external_body]
fn put_varint(out: &mut Vec<u8>, n: u64)
    ensures
        final(out)@ == old(out)@ + varint(n as nat),
{
    buffa::encoding::encode_varint(n, out)
}

/// The number that stands at a place, and how many bytes are left behind it, as
/// `buffa::encoding::decode_varint` reads it: none where no byte without its high bit follows, or
/// where the number is longer than ten bytes or than 64 bits.
#[verifier::external_body]
fn take_varint(bytes: &Vec<u8>, from: usize) -> (r: Option<(u64, usize)>)
    requires
        from <= bytes@.len(),
    ensures
        match leading_varint(bytes@.skip(from as int)) {
            Some((value, size)) => r matches Some((v, left)) && v == value && left == bytes@.len()
                - from - size,
            None => r is None,
        },
{
    let mut buf = &bytes[from..];
    match buffa::encoding::decode_varint(&mut buf) {
        Ok(value) => Some((value, buf.len())),
        Err(_) => None,
    }
}

/// Byte length of `v` in base 128.
pub fn varint_len(v: u64) -> (n: usize)
    ensures
        n == varint(v as nat).len(),
        1 <= n <= 10,
{
    let mut rest: u64 = v;
    let mut n: usize = 1;
    proof {
        lemma_varint_len(v as nat, 10);
    }
    while rest >= 0x80
        invariant
            n >= 1,
            n - 1 + varint(rest as nat).len() == varint(v as nat).len(),
            varint(v as nat).len() <= 10,
        decreases rest,
    {
        assert(rest >> 7 == rest / 128) by (bit_vector);
        rest = rest >> 7;
        proof {
            lemma_varint_len(rest as nat, 10);
        }
        n += 1;
    }
    n
}

pub open spec fn pow128(k: nat) -> nat
    decreases k,
{
    if k == 0 {
        1
    } else {
        128 * pow128((k - 1) as nat)
    }
}

proof fn lemma_varint_len(n: nat, k: nat)
    requires
        k >= 1,
        k == 10 ==> n <= u64::MAX,
        k < 10 ==> n < pow128(k),
        k <= 10,
    ensures
        1 <= varint(n).len() <= k,
    decreases k,
{
    if k == 1 {
        assert(pow128(1) == 128 * pow128(0));
    } else if n >= 128 {
        if k == 10 {
            assert(pow128(9) == 0x8000_0000_0000_0000) by {
                reveal_with_fuel(pow128, 10);
            }
        } else {
            assert(pow128(k) == 128 * pow128((k - 1) as nat));
        }
        lemma_varint_len(n / 128, (k - 1) as nat);
    }
}

proof fn lemma_varint_reads(n: nat, rest: Seq<u8>)
    ensures
        varint_size(varint(n) + rest) == varint(n).len(),
        varint_value(varint(n)) == n,
    decreases n,
{
    let b = varint(n) + rest;
    if n < 128 {
        assert(b[0] == n as u8);
        assert(varint(n).skip(1) =~= Seq::empty());
        assert(varint_value(varint(n)) == (n as u8) as nat % 128 + 128 * varint_value(
            varint(n).skip(1),
        ));
    } else {
        lemma_varint_reads(n / 128, rest);
        assert(b[0] == (128 + n % 128) as u8);
        assert(b.skip(1) =~= varint(n / 128) + rest);
        assert(varint(n).skip(1) =~= varint(n / 128));
    }
}

/// The last byte of a number of ten bytes is 1: more does not fit 64 bits.
proof fn lemma_tenth_byte(n: nat, k: nat)
    requires
        1 <= k <= 10,
        varint(n).len() == k,
        k == 10 ==> n <= u64::MAX,
        k < 10 ==> n < 2 * pow128((k - 1) as nat),
    ensures
        varint(n)[k - 1] < 2,
    decreases k,
{
    if k == 1 {
        assert(pow128(0) == 1);
        if n >= 128 {
            lemma_varint_nonempty(n / 128);
        }
    } else {
        assert(n >= 128);
        if k == 10 {
            assert(pow128(8) == 0x100_0000_0000_0000) by {
                reveal_with_fuel(pow128, 10);
            }
        } else {
            assert(pow128((k - 1) as nat) == 128 * pow128((k - 2) as nat));
        }
        lemma_tenth_byte(n / 128, (k - 1) as nat);
        assert(varint(n)[k - 1] == varint(n / 128)[k - 2]);
    }
}

proof fn lemma_varint_nonempty(n: nat)
    ensures
        varint(n).len() >= 1,
{
}

/// A number that was written is read back, whatever follows it.
pub proof fn law_numbers_read_back(n: u64, rest: Seq<u8>)
    ensures
        leading_varint(varint(n as nat) + rest) == Some((n as nat, varint(n as nat).len())),
{
    lemma_varint_len(n as nat, 10);
    lemma_varint_reads(n as nat, rest);
    let b = varint(n as nat) + rest;
    let k = varint(n as nat).len();
    assert(b.take(k as int) =~= varint(n as nat));
    if k == 10 {
        lemma_tenth_byte(n as nat, 10);
        assert(b[9] == varint(n as nat)[9]);
    }
}

/// A message on the bus: the length of its body, and the body.
pub open spec fn delimited(body: Seq<u8>) -> Seq<u8> {
    varint(body.len()) + body
}

/// The largest body that is read.
pub const MAX_BODY: u64 = 0x7fff_ffff;

/// The body of the message that bytes begin with. What stands behind it is padding.
pub open spec fn body_in(bytes: Seq<u8>) -> Option<Seq<u8>> {
    match leading_varint(bytes) {
        Some((len, size)) => if len > MAX_BODY || size + len > bytes.len() {
            None
        } else {
            Some(bytes.subrange(size as int, (size + len) as int))
        },
        None => None,
    }
}

/// How many bytes a body of that many takes on the bus.
pub fn get_size(len: u32) -> (r: u64)
    ensures
        r == varint(len as nat).len() + len,
{
    varint_len(len as u64) as u64 + len as u64
}

fn copy_range(bytes: &Vec<u8>, from: usize, to: usize) -> (r: Vec<u8>)
    requires
        from <= to <= bytes@.len(),
    ensures
        r@ == bytes@.subrange(from as int, to as int),
{
    let mut out: Vec<u8> = Vec::new();
    let mut i: usize = from;
    while i < to
        invariant
            from <= i <= to <= bytes@.len(),
            out@ == bytes@.subrange(from as int, i as int),
        decreases to - i,
    {
        out.push(bytes[i]);
        i += 1;
        assert(bytes@.subrange(from as int, i as int) =~= bytes@.subrange(
            from as int,
            i as int - 1,
        ).push(bytes@[i as int - 1]));
    }
    out
}

/// Frames a body for the bus.
pub fn write_into(body: &Vec<u8>) -> (r: Vec<u8>)
    ensures
        r@ == delimited(body@),
{
    let mut out: Vec<u8> = Vec::new();
    put_varint(&mut out, body.len() as u64);
    let mut copy = copy_range(body, 0, body.len());
    assert(copy@ =~= body@);
    out.append(&mut copy);
    assert(out@ =~= delimited(body@));
    out
}

/// Reads the body of a message. What the bus put behind it to align it is left out.
pub fn deserialize_from(bytes: &Vec<u8>) -> (r: Option<Vec<u8>>)
    ensures
        match body_in(bytes@) {
            Some(body) => r matches Some(b) && b@ == body,
            None => r is None,
        },
{
    assert(bytes@.skip(0) =~= bytes@);
    match take_varint(bytes, 0) {
        Some((len, left)) => {
            if len > MAX_BODY || len > left as u64 {
                return None;
            }
            let start: usize = bytes.len() - left;
            let end: usize = start + len as usize;
            Some(copy_range(bytes, start, end))
        },
        None => None,
    }
}

/// What was framed for the bus is read back, whatever padding stands behind it.
pub proof fn law_padding_is_tolerated(body: Seq<u8>, padding: Seq<u8>)
    requires
        body.len() <= MAX_BODY,
    ensures
        body_in(delimited(body) + padding) == Some(body),
{
    law_numbers_read_back(body.len() as u64, body + padding);
    let bytes = delimited(body) + padding;
    let size = varint(body.len()).len();
    assert(bytes =~= varint(body.len()) + (body + padding));
    assert(bytes.subrange(size as int, (size + body.len()) as int) =~= body);
}

/// A large message on the bus: the length of its body in four bytes, and the body.
pub open spec fn large_delimited(body: Seq<u8>) -> Seq<u8> {
    le32_bytes(body.len() as u32) + body
}

/// The body of the large message that bytes begin with.
pub open spec fn large_body_in(bytes: Seq<u8>) -> Option<Seq<u8>> {
    if bytes.len() < 4 || bytes.len() < 4 + le32(bytes) {
        None
    } else {
        Some(bytes.subrange(4, 4 + le32(bytes)))
    }
}

/// Frames the body of a large message for the bus.
pub fn write_large(body: &Vec<u8>) -> (r: Vec<u8>)
    requires
        body@.len() <= u32::MAX,
    ensures
        r@ == large_delimited(body@),
{
    let mut out: Vec<u8> = Vec::new();
    push_le32(&mut out, body.len() as u32);
    let mut copy = copy_range(body, 0, body.len());
    assert(copy@ =~= body@);
    out.append(&mut copy);
    assert(out@ =~= large_delimited(body@));
    out
}

/// Reads the body of a large message.
pub fn read_large(bytes: &Vec<u8>) -> (r: Option<Vec<u8>>)
    ensures
        match large_body_in(bytes@) {
            Some(body) => r matches Some(b) && b@ == body,
            None => r is None,
        },
{
    if bytes.len() < 4 {
        return None;
    }
    let len: u32 = read_le32(bytes[0], bytes[1], bytes[2], bytes[3]);
    if bytes.len() as u64 - 4 < len as u64 {
        return None;
    }
    Some(copy_range(bytes, 4, 4 + len as usize))
}

/// What was framed as a large message is read back, whatever padding stands behind it.
pub proof fn law_large_messages_read_back(body: Seq<u8>, padding: Seq<u8>)
    requires
        body.len() <= u32::MAX,
    ensures
        large_body_in(large_delimited(body) + padding) == Some(body),
{
    let n = body.len() as u32;
    crate::frame::law_prefix_reads_back(n);
    let bytes = large_delimited(body) + padding;
    let prefix = le32_bytes(n);
    assert(bytes[0] == prefix[0] && bytes[1] == prefix[1] && bytes[2] == prefix[2] && bytes[3]
        == prefix[3]);
    assert(le32(bytes) == le32(prefix));
    assert(bytes.subrange(4, 4 + n as int) =~= body);
}

/// The components that messages go to and come from.
#[derive(Debug, Clone, Copy, PartialEq, Eq)]
pub enum HandlerId {
    Session,
    ConfigStore,
    Updater,
    Ui,
    NetEdge,
    WebBridge,
    Extractor,
    PeerEdge,
    Browse,
    PeerNet,
    ApiServer,
}

/// The number of a handler on the bus.
pub open spec fn handler_number(id: HandlerId) -> u16 {
    match id {
        HandlerId::Session => 1,
        HandlerId::ConfigStore => 2,
        HandlerId::Updater => 3,
        HandlerId::Ui => 4,
        HandlerId::NetEdge => 5,
        HandlerId::WebBridge => 6,
        HandlerId::Extractor => 7,
        HandlerId::PeerEdge => 8,
        HandlerId::Browse => 9,
        HandlerId::PeerNet => 10,
        HandlerId::ApiServer => 11,
    }
}

impl HandlerId {
    /// The number on the bus.
    pub fn number(&self) -> (r: u16)
        ensures
            r == handler_number(*self),
    {
        match self {
            HandlerId::Session => 1,
            HandlerId::ConfigStore => 2,
            HandlerId::Updater => 3,
            HandlerId::Ui => 4,
            HandlerId::NetEdge => 5,
            HandlerId::WebBridge => 6,
            HandlerId::Extractor => 7,
            HandlerId::PeerEdge => 8,
            HandlerId::Browse => 9,
            HandlerId::PeerNet => 10,
            HandlerId::ApiServer => 11,
        }
    }

    /// What a number on the bus stands for.
    pub fn from_number(n: u16) -> (r: Option<HandlerId>)
        ensures
            match r {
                Some(id) => handler_number(id) == n,
                None => forall|id: HandlerId| #[trigger] handler_number(id) != n,
            },
    {
        match n {
            1 => Some(HandlerId::Session),
            2 => Some(HandlerId::ConfigStore),
            3 => Some(HandlerId::Updater),
            4 => Some(HandlerId::Ui),
            5 => Some(HandlerId::NetEdge),
            6 => Some(HandlerId::WebBridge),
            7 => Some(HandlerId::Extractor),
            8 => Some(HandlerId::PeerEdge),
            9 => Some(HandlerId::Browse),
            10 => Some(HandlerId::PeerNet),
            11 => Some(HandlerId::ApiServer),
            _ => None,
        }
    }
}

/// The kinds of messages on the bus.
#[derive(Debug, Clone, Copy, PartialEq, Eq)]
pub enum MessageId {
    HttpRender,
    HttpHtml,
    ExtractRequest,
    ExtractResult,
    StartSearch,
    StartSearchResult,
    GetConfigReq,
    ConfigSnapshot,
    SetConfigReq,
    SetConfigResult,
    ConfigChanged,
    UpdaterStatusChanged,
    UpdateDownloaded,
    ApplyUpdateReq,
    ApplyUpdateResult,
    SessionEvent,
    NetRx,
    NetTx,
    NetConn,
    BrowseUser,
    BrowseAccepted,
    PeerBrowseConnect,
    BrowseListing,
    BrowseFailed,
    BrowseRenderReq,
    BrowseHtml,
    PeerActivity,
    IncomingSearch,
    PeerPierce,
    StartDownload,
    PeerDownloadConnect,
    DownloadComplete,
    DownloadFailed,
    ResolveUploadPeer,
    PeerUploadConnect,
    UploadComplete,
    UploadFailed,
    PeerDistribConnect,
    SetExcludedPhrases,
    DownloadQueuePosition,
    SearchResultReceived,
    CancelDownload,
    PeerPierceFile,
    PeerPierceDistrib,
    RelayDistribSearch,
    DistribSpeedLimits,
    UploadStarted,
    TransferProgress,
    PauseDownload,
}

/// The number of a message on the bus.
pub open spec fn message_number(id: MessageId) -> u16 {
    match id {
        MessageId::HttpRender => 1,
        MessageId::HttpHtml => 2,
        MessageId::ExtractRequest => 3,
        MessageId::ExtractResult => 4,
        MessageId::StartSearch => 5,
        MessageId::StartSearchResult => 6,
        MessageId::GetConfigReq => 7,
        MessageId::ConfigSnapshot => 8,
        MessageId::SetConfigReq => 9,
        MessageId::SetConfigResult => 10,
        MessageId::ConfigChanged => 11,
        MessageId::UpdaterStatusChanged => 12,
        MessageId::UpdateDownloaded => 13,
        MessageId::ApplyUpdateReq => 14,
        MessageId::ApplyUpdateResult => 15,
        MessageId::SessionEvent => 16,
        MessageId::NetRx => 17,
        MessageId::NetTx => 18,
        MessageId::NetConn => 19,
        MessageId::BrowseUser => 20,
        MessageId::BrowseAccepted => 21,
        MessageId::PeerBrowseConnect => 22,
        MessageId::BrowseListing => 23,
        MessageId::BrowseFailed => 24,
        MessageId::BrowseRenderReq => 25,
        MessageId::BrowseHtml => 26,
        MessageId::PeerActivity => 27,
        MessageId::IncomingSearch => 28,
        MessageId::PeerPierce => 29,
        MessageId::StartDownload => 30,
        MessageId::PeerDownloadConnect => 31,
        MessageId::DownloadComplete => 32,
        MessageId::DownloadFailed => 33,
        MessageId::ResolveUploadPeer => 34,
        MessageId::PeerUploadConnect => 35,
        MessageId::UploadComplete => 36,
        MessageId::UploadFailed => 37,
        MessageId::PeerDistribConnect => 38,
        MessageId::SetExcludedPhrases => 39,
        MessageId::DownloadQueuePosition => 40,
        MessageId::SearchResultReceived => 41,
        MessageId::CancelDownload => 42,
        MessageId::PeerPierceFile => 43,
        MessageId::PeerPierceDistrib => 44,
        MessageId::RelayDistribSearch => 45,
        MessageId::DistribSpeedLimits => 46,
        MessageId::UploadStarted => 47,
        MessageId::TransferProgress => 48,
        MessageId::PauseDownload => 49,
    }
}

impl MessageId {
    /// The number on the bus.
    pub fn number(&self) -> (r: u16)
        ensures
            r == message_number(*self),
    {
        match self {
            MessageId::HttpRender => 1,
            MessageId::HttpHtml => 2,
            MessageId::ExtractRequest => 3,
            MessageId::ExtractResult => 4,
            MessageId::StartSearch => 5,
            MessageId::StartSearchResult => 6,
            MessageId::GetConfigReq => 7,
            MessageId::ConfigSnapshot => 8,
            MessageId::SetConfigReq => 9,
            MessageId::SetConfigResult => 10,
            MessageId::ConfigChanged => 11,
            MessageId::UpdaterStatusChanged => 12,
            MessageId::UpdateDownloaded => 13,
            MessageId::ApplyUpdateReq => 14,
            MessageId::ApplyUpdateResult => 15,
            MessageId::SessionEvent => 16,
            MessageId::NetRx => 17,
            MessageId::NetTx => 18,
            MessageId::NetConn => 19,
            MessageId::BrowseUser => 20,
            MessageId::BrowseAccepted => 21,
            MessageId::PeerBrowseConnect => 22,
            MessageId::BrowseListing => 23,
            MessageId::BrowseFailed => 24,
            MessageId::BrowseRenderReq => 25,
            MessageId::BrowseHtml => 26,
            MessageId::PeerActivity => 27,
            MessageId::IncomingSearch => 28,
            MessageId::PeerPierce => 29,
            MessageId::StartDownload => 30,
            MessageId::PeerDownloadConnect => 31,
            MessageId::DownloadComplete => 32,
            MessageId::DownloadFailed => 33,
            MessageId::ResolveUploadPeer => 34,
            MessageId::PeerUploadConnect => 35,
            MessageId::UploadComplete => 36,
            MessageId::UploadFailed => 37,
            MessageId::PeerDistribConnect => 38,
            MessageId::SetExcludedPhrases => 39,
            MessageId::DownloadQueuePosition => 40,
            MessageId::SearchResultReceived => 41,
            MessageId::CancelDownload => 42,
            MessageId::PeerPierceFile => 43,
            MessageId::PeerPierceDistrib => 44,
            MessageId::RelayDistribSearch => 45,
            MessageId::DistribSpeedLimits => 46,
            MessageId::UploadStarted => 47,
            MessageId::TransferProgress => 48,
            MessageId::PauseDownload => 49,
        }
    }

    /// What a number on the bus stands for.
    pub fn from_number(n: u16) -> (r: Option<MessageId>)
        ensures
            match r {
                Some(id) => message_number(id) == n,
                None => forall|id: MessageId| #[trigger] message_number(id) != n,
            },
    {
        match n {
            1 => Some(MessageId::HttpRender),
            2 => Some(MessageId::HttpHtml),
            3 => Some(MessageId::ExtractRequest),
            4 => Some(MessageId::ExtractResult),
            5 => Some(MessageId::StartSearch),
            6 => Some(MessageId::StartSearchResult),
            7 => Some(MessageId::GetConfigReq),
            8 => Some(MessageId::ConfigSnapshot),
            9 => Some(MessageId::SetConfigReq),
            10 => Some(MessageId::SetConfigResult),
            11 => Some(MessageId::ConfigChanged),
            12 => Some(MessageId::UpdaterStatusChanged),
            13 => Some(MessageId::UpdateDownloaded),
            14 => Some(MessageId::ApplyUpdateReq),
            15 => Some(MessageId::ApplyUpdateResult),
            16 => Some(MessageId::SessionEvent),
            17 => Some(MessageId::NetRx),
            18 => Some(MessageId::NetTx),
            19 => Some(MessageId::NetConn),
            20 => Some(MessageId::BrowseUser),
            21 => Some(MessageId::BrowseAccepted),
            22 => Some(MessageId::PeerBrowseConnect),
            23 => Some(MessageId::BrowseListing),
            24 => Some(MessageId::BrowseFailed),
            25 => Some(MessageId::BrowseRenderReq),
            26 => Some(MessageId::BrowseHtml),
            27 => Some(MessageId::PeerActivity),
            28 => Some(MessageId::IncomingSearch),
            29 => Some(MessageId::PeerPierce),
            30 => Some(MessageId::StartDownload),
            31 => Some(MessageId::PeerDownloadConnect),
            32 => Some(MessageId::DownloadComplete),
            33 => Some(MessageId::DownloadFailed),
            34 => Some(MessageId::ResolveUploadPeer),
            35 => Some(MessageId::PeerUploadConnect),
            36 => Some(MessageId::UploadComplete),
            37 => Some(MessageId::UploadFailed),
            38 => Some(MessageId::PeerDistribConnect),
            39 => Some(MessageId::SetExcludedPhrases),
            40 => Some(MessageId::DownloadQueuePosition),
            41 => Some(MessageId::SearchResultReceived),
            42 => Some(MessageId::CancelDownload),
            43 => Some(MessageId::PeerPierceFile),
            44 => Some(MessageId::PeerPierceDistrib),
            45 => Some(MessageId::RelayDistribSearch),
            46 => Some(MessageId::DistribSpeedLimits),
            47 => Some(MessageId::UploadStarted),
            48 => Some(MessageId::TransferProgress),
            49 => Some(MessageId::PauseDownload),
            _ => None,
        }
    }
}

/// No two kinds of messages, and no two components, share a number.
pub proof fn law_numbers_are_distinct(a: MessageId, b: MessageId, c: HandlerId, d: HandlerId)
    ensures
        message_number(a) == message_number(b) ==> a == b,
        handler_number(c) == handler_number(d) ==> c == d,
{
}

/// Numbers are written seven bits at a time, the least significant first, and every byte but the
/// last has its high bit set.
pub proof fn law_numbers_are_written_in_sevens(n: nat, low: nat)
    requires
        low < 128,
    ensures
        varint(low) == seq![low as u8],
        n > 0 ==> varint(128 * n + low) == seq![(128 + low) as u8] + varint(n),
{
    if n > 0 {
        assert((128 * n + low) / 128 == n);
        assert((128 * n + low) % 128 == low);
    }
}

} // verus!
