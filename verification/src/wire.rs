//! What the Soulseek protocol carries, as plain values: what a codec decodes, and what it is
//! given to encode. A type parameter `S` is `String` in values at run time, and a sequence of
//! characters where a contract speaks of them.
use vstd::prelude::*;
use vstd::string::*;
use crate::text::{decimal, push_decimal};

verus! {

/// An IPv4 address.
#[derive(Debug, Clone, Copy, PartialEq, Eq, Structural)]
pub struct Ipv4 {
    pub a: u8,
    pub b: u8,
    pub c: u8,
    pub d: u8,
}

/// An address in dotted decimal.
pub open spec fn ip_text(ip: Ipv4) -> Seq<char> {
    decimal(ip.a as nat) + "."@ + decimal(ip.b as nat) + "."@ + decimal(ip.c as nat) + "."@
        + decimal(ip.d as nat)
}

/// Whether an address is `0.0.0.0`, which stands for none.
pub open spec fn ip_unspecified(ip: Ipv4) -> bool {
    ip.a == 0 && ip.b == 0 && ip.c == 0 && ip.d == 0
}

impl Ipv4 {
    pub fn new(a: u8, b: u8, c: u8, d: u8) -> (r: Self)
        ensures
            r == (Ipv4 { a, b, c, d }),
    {
        Ipv4 { a, b, c, d }
    }

    /// The address in dotted decimal.
    pub fn text(&self) -> (r: String)
        ensures
            r@ == ip_text(*self),
    {
        let mut out = crate::text::to_decimal(self.a as u64);
        out.append(".");
        push_decimal(&mut out, self.b as u64);
        out.append(".");
        push_decimal(&mut out, self.c as u64);
        out.append(".");
        push_decimal(&mut out, self.d as u64);
        out
    }

    /// Whether this is `0.0.0.0`.
    pub fn is_unspecified(&self) -> (r: bool)
        ensures
            r == ip_unspecified(*self),
    {
        self.a == 0 && self.b == 0 && self.c == 0 && self.d == 0
    }
}

/// What a connection between peers is for.
#[derive(Debug, Clone, Copy, PartialEq, Eq, Structural)]
pub enum ConnectionType {
    Peer,
    File,
    Distributed,
}

/// The letter that names a connection type on the wire.
pub open spec fn connection_letter(t: ConnectionType) -> Seq<char> {
    match t {
        ConnectionType::Peer => "P"@,
        ConnectionType::File => "F"@,
        ConnectionType::Distributed => "D"@,
    }
}

impl ConnectionType {
    /// The letter that names the type on the wire.
    pub fn letter(&self) -> (r: &'static str)
        ensures
            r@ == connection_letter(*self),
    {
        match self {
            ConnectionType::Peer => "P",
            ConnectionType::File => "F",
            ConnectionType::Distributed => "D",
        }
    }
}

/// The identifier of a search that the server hands out: the character `1`.
pub const SEARCH_IDENTIFIER: u32 = 49;

/// A search passed down the distributed tree.
#[derive(Debug, PartialEq)]
pub struct DistribSearch {
    /// Of no known meaning; it is passed on as it came.
    pub identifier: u32,
    pub username: String,
    pub token: u32,
    pub query: String,
}

/// A candidate for our parent in the distributed tree.
#[derive(Debug, PartialEq)]
pub struct PossibleParent {
    pub username: String,
    pub ip: Ipv4,
    pub port: u32,
}

/// A message from the server.
#[derive(Debug, PartialEq)]
pub enum ServerMessage {
    LoginSuccess { greeting: String, own_ip: Ipv4 },
    LoginFailure { reason: String, detail: Option<String> },
    FileSearch { username: String, token: u32, query: String },
    /// A distributed message that the server injects; `search` is its body read as a search,
    /// where it is one.
    EmbeddedMessage { distrib_code: u8, search: Option<DistribSearch> },
    PossibleParents { parents: Vec<PossibleParent> },
    ParentMinSpeed { speed: u32 },
    ParentSpeedRatio { ratio: u32 },
    GetPeerAddress { username: String, ip: Ipv4, port: u32 },
    ConnectToPeer {
        username: String,
        connection_type: ConnectionType,
        ip: Ipv4,
        port: u32,
        token: u32,
    },
    ExcludedSearchPhrases { phrases: Vec<String> },
    Unknown { code: u32, body: Vec<u8> },
}

/// The code of a search among the distributed messages.
pub const DISTRIB_SEARCH: u8 = 3;

/// A request to the server.
#[derive(Debug, PartialEq)]
pub enum ServerRequest<S> {
    Login { username: S, password: S, major_version: u32, minor_version: u32 },
    SetWaitPort { port: u32, obfuscation_type: u32, obfuscated_port: u32 },
    HaveNoParent { no_parent: bool },
    BranchRoot { root: S },
    BranchLevel { level: u32 },
    AcceptChildren { accept: bool },
    FileSearch { token: u32, query: S },
    GetPeerAddress { username: S },
    ConnectToPeer { token: u32, username: S, connection_type: ConnectionType },
}

impl View for ServerRequest<String> {
    type V = ServerRequest<Seq<char>>;

    open spec fn view(&self) -> ServerRequest<Seq<char>> {
        match self {
            ServerRequest::Login { username, password, major_version, minor_version } =>
                ServerRequest::Login {
                    username: username@,
                    password: password@,
                    major_version: *major_version,
                    minor_version: *minor_version,
                },
            ServerRequest::SetWaitPort { port, obfuscation_type, obfuscated_port } =>
                ServerRequest::SetWaitPort {
                    port: *port,
                    obfuscation_type: *obfuscation_type,
                    obfuscated_port: *obfuscated_port,
                },
            ServerRequest::HaveNoParent { no_parent } => ServerRequest::HaveNoParent {
                no_parent: *no_parent,
            },
            ServerRequest::BranchRoot { root } => ServerRequest::BranchRoot { root: root@ },
            ServerRequest::BranchLevel { level } => ServerRequest::BranchLevel { level: *level },
            ServerRequest::AcceptChildren { accept } => ServerRequest::AcceptChildren {
                accept: *accept,
            },
            ServerRequest::FileSearch { token, query } => ServerRequest::FileSearch {
                token: *token,
                query: query@,
            },
            ServerRequest::GetPeerAddress { username } => ServerRequest::GetPeerAddress {
                username: username@,
            },
            ServerRequest::ConnectToPeer { token, username, connection_type } =>
                ServerRequest::ConnectToPeer {
                    token: *token,
                    username: username@,
                    connection_type: *connection_type,
                },
        }
    }
}

/// A file in a peer's answer to a search, with what the peer says of its sound.
#[derive(Debug, PartialEq)]
pub struct SearchResultFile {
    pub name: String,
    pub size: u64,
    /// In kbps.
    pub bitrate: Option<u32>,
    /// In seconds.
    pub length: Option<u32>,
    pub vbr: bool,
    /// In Hz.
    pub sample_rate: Option<u32>,
    pub bit_depth: Option<u32>,
}

pub struct ResultFileView {
    pub name: Seq<char>,
    pub size: u64,
    pub bitrate: Option<u32>,
    pub length: Option<u32>,
    pub vbr: bool,
    pub sample_rate: Option<u32>,
    pub bit_depth: Option<u32>,
}

impl View for SearchResultFile {
    type V = ResultFileView;

    open spec fn view(&self) -> ResultFileView {
        ResultFileView {
            name: self.name@,
            size: self.size,
            bitrate: self.bitrate,
            length: self.length,
            vbr: self.vbr,
            sample_rate: self.sample_rate,
            bit_depth: self.bit_depth,
        }
    }
}

/// A peer's answer to a search.
#[derive(Debug, PartialEq)]
pub struct FileSearchResponse {
    pub username: String,
    pub token: u32,
    pub files: Vec<SearchResultFile>,
    pub free_slots: bool,
    pub upload_speed: u32,
    pub in_queue: u32,
}

/// Who sends the file of a transfer request.
#[derive(Debug, Clone, Copy, PartialEq, Eq, Structural)]
pub enum TransferDirection {
    /// The receiver of the request.
    Download,
    /// The sender of the request.
    Upload,
}

/// A message from a peer, on a connection for messages.
#[derive(Debug, PartialEq)]
pub enum PeerMessage {
    SharedFileListRequest,
    UserInfoRequest,
    FolderContentsRequest { token: u32, directory: String },
    TransferRequest {
        direction: TransferDirection,
        token: u32,
        file: String,
        filesize: Option<u64>,
    },
    QueueUpload { file: String },
    TransferResponse { token: u32, allowed: bool },
    UploadDenied { file: String, reason: String },
    UploadFailed { file: String },
    PlaceInQueueRequest { file: String },
    PlaceInQueueResponse { filename: String, place: u32 },
    FileSearchResponse(FileSearchResponse),
    /// A message that is not ours to answer.
    Other,
}

/// The message that opens a connection between peers.
#[derive(Debug, PartialEq)]
pub enum PeerInitMessage {
    PeerInit { username: String, connection_type: ConnectionType },
    PierceFirewall { token: u32 },
}

/// An address is told by its four numbers, with points between them: they read back from its text,
/// and it is unspecified if and only if all of them are 0.
pub proof fn law_addresses_read_back(ip: Ipv4)
    ensures
        ({
            let parts = crate::text::split_on(ip_text(ip), '.');
            &&& parts.len() == 4
            &&& crate::text::parsed(parts[0]) == Some(ip.a as nat)
            &&& crate::text::parsed(parts[1]) == Some(ip.b as nat)
            &&& crate::text::parsed(parts[2]) == Some(ip.c as nat)
            &&& crate::text::parsed(parts[3]) == Some(ip.d as nat)
        }),
        ip_unspecified(ip) <==> ip_text(ip) == "0.0.0.0"@,
{
    lemma_address_parts(ip);
    let zero = Ipv4 { a: 0, b: 0, c: 0, d: 0 };
    lemma_address_parts(zero);
    crate::text::law_decimal_is_positional(0, 0);
    reveal_strlit(".");
    reveal_strlit("0.0.0.0");
    assert(decimal(0) == seq!['0']);
    assert(ip_text(zero) =~= "0.0.0.0"@);
}

proof fn lemma_address_parts(ip: Ipv4)
    ensures
        crate::text::split_on(ip_text(ip), '.') == seq![
            decimal(ip.a as nat),
            decimal(ip.b as nat),
            decimal(ip.c as nat),
            decimal(ip.d as nat),
        ],
        crate::text::parsed(decimal(ip.a as nat)) == Some(ip.a as nat),
        crate::text::parsed(decimal(ip.b as nat)) == Some(ip.b as nat),
        crate::text::parsed(decimal(ip.c as nat)) == Some(ip.c as nat),
        crate::text::parsed(decimal(ip.d as nat)) == Some(ip.d as nat),
{
    let (a, b, c, d) = (
        decimal(ip.a as nat),
        decimal(ip.b as nat),
        decimal(ip.c as nat),
        decimal(ip.d as nat),
    );
    crate::text::law_decimal_is_plain_text(ip.a as nat);
    crate::text::law_decimal_is_plain_text(ip.b as nat);
    crate::text::law_decimal_is_plain_text(ip.c as nat);
    crate::text::law_decimal_is_plain_text(ip.d as nat);
    crate::text::law_decimal_reads_back(ip.a as nat);
    crate::text::law_decimal_reads_back(ip.b as nat);
    crate::text::law_decimal_reads_back(ip.c as nat);
    crate::text::law_decimal_reads_back(ip.d as nat);
    reveal_strlit(".");
    let t3 = c.push('.') + d;
    let t2 = b.push('.') + t3;
    let t1 = a.push('.') + t2;
    assert(ip_text(ip) =~= t1);
    crate::text::law_a_separator_parts_a_text(d, '.', Seq::empty());
    crate::text::law_a_separator_parts_a_text(c, '.', d);
    crate::text::law_a_separator_parts_a_text(b, '.', t3);
    crate::text::law_a_separator_parts_a_text(a, '.', t2);
    assert(crate::text::split_on(t1, '.') =~= seq![a, b, c, d]);
}

/// Kinds of connections are told apart by their letters.
pub proof fn law_kinds_have_letters_of_their_own(a: ConnectionType, b: ConnectionType)
    ensures
        connection_letter(a) == connection_letter(b) ==> a == b,
        connection_letter(a).len() == 1,
{
    reveal_strlit("P");
    reveal_strlit("F");
    reveal_strlit("D");
    assert("P"@[0] == 'P' && "F"@[0] == 'F' && "D"@[0] == 'D');
}

} // verus!
