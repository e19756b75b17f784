//! The connection to the server: whom to connect to, and what is read from it.
use vstd::prelude::*;
use vstd::string::*;

use crate::config::{AppContext, Config, ServerConfig, ServerView};
use crate::frame::{all_frames, begins_oversized, le32, FrameBuffer};
use crate::session::NetConnEvent;
use crate::text::{decimal, is_blank, ov, push_decimal, trimmed, views};

verus! {

/// The address to connect to; none without a user name.
pub open spec fn address_of(server: ServerView) -> Option<Seq<char>> {
    if trimmed(server.username).len() == 0 {
        None
    } else {
        Some(server.host + ":"@ + decimal(server.port as nat))
    }
}

/// The address to connect to; none without a user name.
pub fn server_addr(server: &ServerConfig) -> (r: Option<String>)
    ensures
        ov(r) == address_of(server@),
{
    if is_blank(server.username.as_str()) {
        None
    } else {
        let mut out = server.host.clone();
        out.append(":");
        push_decimal(&mut out, server.port as u64);
        Some(out)
    }
}

/// How a connection event goes over the bus.
#[derive(Debug, PartialEq)]
pub enum NetConnKind {
    Connected,
    Failed,
    Closed,
}

#[derive(Debug, PartialEq)]
pub struct NetConn<S> {
    pub kind: NetConnKind,
    pub reason: S,
}

impl View for NetConn<String> {
    type V = NetConn<Seq<char>>;

    open spec fn view(&self) -> NetConn<Seq<char>> {
        NetConn { kind: self.kind, reason: self.reason@ }
    }
}

/// A connection event with texts as sequences.
pub enum NetConnEventView {
    Connected,
    Failed { reason: Seq<char> },
    Closed { reason: Seq<char> },
}

impl View for NetConnEvent {
    type V = NetConnEventView;

    open spec fn view(&self) -> NetConnEventView {
        match self {
            NetConnEvent::Connected => NetConnEventView::Connected,
            NetConnEvent::Failed { reason } => NetConnEventView::Failed { reason: reason@ },
            NetConnEvent::Closed { reason } => NetConnEventView::Closed { reason: reason@ },
        }
    }
}

pub open spec fn conn_on_bus(event: NetConnEventView) -> NetConn<Seq<char>> {
    match event {
        NetConnEventView::Connected => NetConn { kind: NetConnKind::Connected, reason: ""@ },
        NetConnEventView::Failed { reason } => NetConn { kind: NetConnKind::Failed, reason },
        NetConnEventView::Closed { reason } => NetConn { kind: NetConnKind::Closed, reason },
    }
}

pub open spec fn conn_off_bus(conn: NetConn<Seq<char>>) -> NetConnEventView {
    match conn.kind {
        NetConnKind::Connected => NetConnEventView::Connected,
        NetConnKind::Failed => NetConnEventView::Failed { reason: conn.reason },
        NetConnKind::Closed => NetConnEventView::Closed { reason: conn.reason },
    }
}

/// A connection event as it goes over the bus.
pub fn net_conn(event: NetConnEvent) -> (r: NetConn<String>)
    ensures
        r@ == conn_on_bus(event@),
{
    match event {
        NetConnEvent::Connected => NetConn { kind: NetConnKind::Connected, reason: "".to_owned() },
        NetConnEvent::Failed { reason } => NetConn { kind: NetConnKind::Failed, reason },
        NetConnEvent::Closed { reason } => NetConn { kind: NetConnKind::Closed, reason },
    }
}

/// The connection event that came over the bus.
pub fn net_event(conn: NetConn<String>) -> (r: NetConnEvent)
    ensures
        r@ == conn_off_bus(conn@),
{
    match conn.kind {
        NetConnKind::Connected => NetConnEvent::Connected,
        NetConnKind::Failed => NetConnEvent::Failed { reason: conn.reason },
        NetConnKind::Closed => NetConnEvent::Closed { reason: conn.reason },
    }
}

/// A connection event is the same behind the bus as before it.
pub proof fn law_connection_events_survive_the_bus(event: NetConnEventView)
    ensures
        conn_off_bus(conn_on_bus(event)) == event,
{
}

pub const NO_USERNAME: &'static str = "no soulseek username configured — set one in Settings";

/// What to do about the connection.
pub enum NetStep {
    Connect(String),
    Report(NetConnEvent),
}

pub enum NetStepView {
    Connect(Seq<char>),
    Report(NetConnEventView),
}

impl View for NetStep {
    type V = NetStepView;

    open spec fn view(&self) -> NetStepView {
        match self {
            NetStep::Connect(addr) => NetStepView::Connect(addr@),
            NetStep::Report(event) => NetStepView::Report(event@),
        }
    }
}

/// What is done with an address: it is connected to; without one, that is reported.
pub open spec fn net_step(addr: Option<Seq<char>>) -> NetStepView {
    match addr {
        Some(addr) => NetStepView::Connect(addr),
        None => NetStepView::Report(NetConnEventView::Failed { reason: NO_USERNAME@ }),
    }
}

/// Keeps the address of the server.
pub struct NetEdge {
    server_addr: Option<String>,
}

impl View for NetEdge {
    type V = Option<Seq<char>>;

    closed spec fn view(&self) -> Option<Seq<char>> {
        ov(self.server_addr)
    }
}

impl NetEdge {
    pub fn new(ctx: &AppContext) -> (r: NetEdge)
        ensures
            r@ == address_of(ctx.config@.server),
    {
        NetEdge { server_addr: server_addr(&ctx.config.server) }
    }

    /// What to do at the start.
    pub fn start(&self) -> (r: NetStep)
        ensures
            r@ == net_step(self@),
    {
        match &self.server_addr {
            Some(addr) => NetStep::Connect(addr.clone()),
            None => NetStep::Report(NetConnEvent::Failed { reason: NO_USERNAME.to_owned() }),
        }
    }

    /// What to do, once the old connection was dropped, when the settings changed.
    pub fn config_changed(&mut self, config: &Config) -> (r: NetStep)
        ensures
            final(self)@ == address_of(config@.server),
            r@ == net_step(final(self)@),
    {
        self.server_addr = server_addr(&config.server);
        self.start()
    }
}

/// A connection that could not be made.
pub fn connect_failed(addr: &str, error: &str) -> (r: NetConnEvent)
    ensures
        r@ == (NetConnEventView::Failed { reason: "connect "@ + addr@ + ": "@ + error@ }),
{
    let mut reason = "connect ".to_owned();
    reason.append(addr);
    reason.append(": ");
    reason.append(error);
    NetConnEvent::Failed { reason }
}

/// A connection of which no second half could be had for writing.
pub fn clone_failed(error: &str) -> (r: NetConnEvent)
    ensures
        r@ == (NetConnEventView::Failed { reason: "clone socket: "@ + error@ }),
{
    let mut reason = "clone socket: ".to_owned();
    reason.append(error);
    NetConnEvent::Failed { reason }
}

/// What was read: frames to hand on, and the end of the connection where it came.
pub struct NetRead {
    pub frames: Vec<Vec<u8>>,
    pub end: Option<NetConnEvent>,
}

pub open spec fn end_view(end: Option<NetConnEvent>) -> Option<NetConnEventView> {
    match end {
        Some(event) => Some(event@),
        None => None,
    }
}

/// Why a stream cannot be read on that declares a frame of that many bytes.
pub open spec fn bad_frame(declared: nat) -> Seq<char> {
    "bad frame: frame of "@ + decimal(declared) + " bytes is too large"@
}

/// What is read from the server.
pub struct NetReader {
    buffer: FrameBuffer,
}

impl View for NetReader {
    type V = Seq<u8>;

    closed spec fn view(&self) -> Seq<u8> {
        self.buffer@
    }
}

impl NetReader {
    pub fn new() -> (r: NetReader)
        ensures
            r@ == Seq::<u8>::empty(),
    {
        NetReader { buffer: FrameBuffer::new() }
    }

    /// Takes in what was read. `max` is the largest frame that is read. Nothing read means that the
    /// server closed the connection.
    pub fn read(&mut self, chunk: &Vec<u8>, max: usize) -> (r: NetRead)
        ensures
            chunk@.len() == 0 ==> {
                &&& final(self)@ == old(self)@
                &&& r.frames@.len() == 0
                &&& end_view(r.end) == Some(
                    NetConnEventView::Closed { reason: "server closed the connection"@ },
                )
            },
            chunk@.len() > 0 ==> {
                let all = all_frames(old(self)@ + chunk@, max as nat);
                &&& views(r.frames@) == all.0
                &&& final(self)@ == all.1
                &&& end_view(r.end) == if begins_oversized(all.1, max as nat) {
                    Some(NetConnEventView::Closed { reason: bad_frame(le32(all.1) as nat) })
                } else {
                    None
                }
            },
    {
        if chunk.len() == 0 {
            let frames: Vec<Vec<u8>> = Vec::new();
            return NetRead {
                frames,
                end: Some(
                    NetConnEvent::Closed { reason: "server closed the connection".to_owned() },
                ),
            };
        }
        let (frames, declared) = self.buffer.feed(chunk, max);
        let end = match declared {
            Some(n) => {
                let mut reason = "bad frame: frame of ".to_owned();
                push_decimal(&mut reason, n as u64);
                reason.append(" bytes is too large");
                Some(NetConnEvent::Closed { reason })
            },
            None => None,
        };
        NetRead { frames, end }
    }
}

/// The server is connected to at the host and the port of the settings, and only where they name a
/// user.
pub proof fn law_the_server_is_that_of_the_settings(server: ServerView)
    ensures
        match address_of(server) {
            Some(addr) => trimmed(server.username).len() > 0 && addr.take(server.host.len() as int)
                == server.host && addr[server.host.len() as int] == ':' && crate::text::parsed(
                addr.skip(server.host.len() as int + 1),
            ) == Some(server.port as nat) && net_step(Some(addr)) == NetStepView::Connect(addr),
            None => trimmed(server.username).len() == 0 && net_step(None) is Report,
        },
{
    if let Some(addr) = address_of(server) {
        let n = server.host.len() as int;
        reveal_strlit(":");
        crate::text::law_decimal_reads_back(server.port as nat);
        assert(addr.take(n) =~= server.host);
        assert(addr.skip(n + 1) =~= decimal(server.port as nat));
    }
}

} // verus!
