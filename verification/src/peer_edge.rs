//! Browsing a peer over a connection of our own: the handshake, the request, and the answer.
use vstd::prelude::*;
use vstd::string::*;

use crate::config::AppContext;
use crate::frame::{all_frames, begins_oversized, le32, FrameBuffer};
use crate::peer_net::listing::{
    all_dirs, count_files, listed, listing_within, BrowseListing, ShareList,
};
use crate::text::{decimal, push_decimal, views};
use crate::wire::ConnectionType;

verus! {

/// Byte budget for the listing of one browse: less than the bus carries in one message.
pub const MAX_BROWSE_BYTES: usize = 512 * 1024;

/// Browses peers under our user name.
pub struct PeerEdge {
    username: String,
}

impl View for PeerEdge {
    type V = Seq<char>;

    closed spec fn view(&self) -> Seq<char> {
        self.username@
    }
}

/// What is sent over a new connection first.
pub struct Handshake {
    pub username: String,
    pub connection_type: ConnectionType,
    pub token: u32,
}

/// The address of a peer.
pub open spec fn target_of(ip: Seq<char>, port: u16) -> Seq<char> {
    ip + ":"@ + decimal(port as nat)
}

impl PeerEdge {
    pub fn new(ctx: &AppContext) -> (r: PeerEdge)
        ensures
            r@ == ctx.config@.server.username,
    {
        PeerEdge { username: ctx.config.server.username.clone() }
    }

    /// The address of a peer.
    pub fn target(&self, ip: &str, port: u16) -> (r: String)
        ensures
            r@ == target_of(ip@, port),
    {
        let mut out = ip.to_owned();
        out.append(":");
        push_decimal(&mut out, port as u64);
        out
    }

    /// The handshake for a connection that carries messages.
    pub fn handshake(&self) -> (r: Handshake)
        ensures
            r.username@ == self@,
            r.connection_type == ConnectionType::Peer,
            r.token == 0,
    {
        Handshake {
            username: self.username.clone(),
            connection_type: ConnectionType::Peer,
            token: 0,
        }
    }

    /// The listing for the share list of a peer, within the budget, with the true number of files.
    pub fn to_listing(&self, username: &str, list: &ShareList) -> (r: BrowseListing)
        requires
            all_dirs(*list).len() <= usize::MAX,
            count_files(all_dirs(*list)) <= u64::MAX,
        ensures
            r.username@ == username@,
            r.total_files == count_files(all_dirs(*list)),
            (views(r.directories@), r.truncated) == listed(
                all_dirs(*list),
                MAX_BROWSE_BYTES as nat,
            ),
    {
        listing_within(username, list, MAX_BROWSE_BYTES)
    }
}

/// Why a peer cannot be connected to whose address is none.
pub fn unusable_address(target: &str) -> (r: String)
    ensures
        r@ == "peer address "@ + target@
            + " is not a usable ip:port (firewalled peers need indirect connections, not yet supported)"@,
{
    let mut out = "peer address ".to_owned();
    out.append(target);
    out.append(
        " is not a usable ip:port (firewalled peers need indirect connections, not yet supported)",
    );
    out
}

/// What a message from the peer was.
pub enum PeerReply {
    SharedFileList(ShareList),
    /// Some other message.
    Other,
    /// None that can be read, and why.
    Undecodable(String),
}

/// What a message from the peer means for the browse: its end, or that it goes on.
pub fn on_reply(reply: PeerReply) -> (r: Option<Result<ShareList, String>>)
    ensures
        match reply {
            PeerReply::SharedFileList(list) => r == Some(Ok::<ShareList, String>(list)),
            PeerReply::Other => r is None,
            PeerReply::Undecodable(err) => r matches Some(Err(e)) && e@
                == "decoding peer message: "@ + err@,
        },
{
    match reply {
        PeerReply::SharedFileList(list) => Some(Ok(list)),
        PeerReply::Other => None,
        PeerReply::Undecodable(err) => {
            let mut out = "decoding peer message: ".to_owned();
            out.append(err.as_str());
            Some(Err(out))
        },
    }
}

/// Why a stream cannot be read on that declares a frame of that many bytes.
pub open spec fn bad_stream(declared: nat) -> Seq<char> {
    "framing peer stream: frame of "@ + decimal(declared) + " bytes is too large"@
}

/// What is read from the peer.
pub struct BrowseExchange {
    buffer: FrameBuffer,
}

impl View for BrowseExchange {
    type V = Seq<u8>;

    closed spec fn view(&self) -> Seq<u8> {
        self.buffer@
    }
}

impl BrowseExchange {
    pub fn new() -> (r: BrowseExchange)
        ensures
            r@ == Seq::<u8>::empty(),
    {
        BrowseExchange { buffer: FrameBuffer::new() }
    }

    /// Takes in what was read, and hands out the messages that are whole, and why the exchange
    /// ends behind them, if it does. `max` is the largest message that is read. Nothing read means
    /// that the peer closed the connection.
    pub fn read(&mut self, chunk: &Vec<u8>, max: usize) -> (r: (Vec<Vec<u8>>, Option<String>))
        ensures
            chunk@.len() == 0 ==> {
                &&& final(self)@ == old(self)@
                &&& r.0@.len() == 0
                &&& r.1 matches Some(e) && e@
                    == "peer closed the connection before sending its share list"@
            },
            chunk@.len() > 0 ==> {
                let all = all_frames(old(self)@ + chunk@, max as nat);
                &&& views(r.0@) == all.0
                &&& final(self)@ == all.1
                &&& r.1 is Some <==> begins_oversized(all.1, max as nat)
                &&& r.1 matches Some(e) ==> e@ == bad_stream(le32(all.1) as nat)
            },
    {
        if chunk.len() == 0 {
            let frames: Vec<Vec<u8>> = Vec::new();
            return (
                frames,
                Some("peer closed the connection before sending its share list".to_owned()),
            );
        }
        let (frames, declared) = self.buffer.feed(chunk, max);
        let end = match declared {
            Some(n) => {
                let mut reason = "framing peer stream: frame of ".to_owned();
                push_decimal(&mut reason, n as u64);
                reason.append(" bytes is too large");
                Some(reason)
            },
            None => None,
        };
        (frames, end)
    }
}

/// A peer is connected to at the address and the port that were given: both read back from the
/// target.
pub proof fn law_a_target_is_address_and_port(ip: Seq<char>, port: u16)
    ensures
        target_of(ip, port).take(ip.len() as int) == ip,
        target_of(ip, port)[ip.len() as int] == ':',
        crate::text::parsed(target_of(ip, port).skip(ip.len() as int + 1)) == Some(port as nat),
{
    let n = ip.len() as int;
    reveal_strlit(":");
    crate::text::law_decimal_reads_back(port as nat);
    assert(target_of(ip, port).take(n) =~= ip);
    assert(target_of(ip, port).skip(n + 1) =~= decimal(port as nat));
}

} // verus!
