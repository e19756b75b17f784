//! The Soulseek session: what the client does about each message from the server and each
//! request from the user. Sockets and codecs are elsewhere; a session takes decoded messages
//! and hands out what is to be sent.
use vstd::prelude::*;
use vstd::string::*;
use crate::config::{low16, to_port, AppContext};
use crate::extract::{query_of, SearchJob};
use crate::names::NameSet;
use crate::sequences::{count_before, lemma_filter_rank, lemma_filter_there};
use crate::text::{decimal, group_views, ov, push_decimal, same, trim, trimmed, views};
use crate::wire::{
    connection_letter, ip_text, ip_unspecified, ConnectionType, Ipv4, PossibleParent,
    ServerMessage, ServerRequest, DISTRIB_SEARCH,
};

verus! {

broadcast use group_views;

/// How far the connection to the server has come.
#[derive(Debug, Clone, Copy, PartialEq, Eq, Structural)]
pub enum SessionState {
    Disconnected,
    AwaitingLogin,
    LoggedIn,
}

/// A download asked for before the peer's address is known.
pub struct PendingDownload {
    pub username: String,
    pub filename: String,
    pub size: u64,
}

pub struct PendingDownloadView {
    pub username: Seq<char>,
    pub filename: Seq<char>,
    pub size: u64,
}

impl View for PendingDownload {
    type V = PendingDownloadView;

    open spec fn view(&self) -> PendingDownloadView {
        PendingDownloadView {
            username: self.username@,
            filename: self.filename@,
            size: self.size,
        }
    }
}

/// A search that was started, under its token.
#[derive(Debug, PartialEq)]
pub struct StartedSearch<S> {
    pub token: u32,
    pub query: S,
}

impl View for StartedSearch<String> {
    type V = StartedSearch<Seq<char>>;

    open spec fn view(&self) -> StartedSearch<Seq<char>> {
        StartedSearch { token: self.token, query: self.query@ }
    }
}

/// What the rest of the program learns of the session.
#[derive(Debug, PartialEq)]
pub enum SessionEvent<S> {
    Connecting,
    LoggedIn { greeting: S, own_ip: S },
    LoginFailed { reason: S },
    Disconnected { reason: S },
    SearchStarted { token: u32, query: S },
    SearchBroadcastSeen { username: S, query: S },
    ProtocolNote { note: S },
}

impl View for SessionEvent<String> {
    type V = SessionEvent<Seq<char>>;

    open spec fn view(&self) -> SessionEvent<Seq<char>> {
        match self {
            SessionEvent::Connecting => SessionEvent::Connecting,
            SessionEvent::LoggedIn { greeting, own_ip } => SessionEvent::LoggedIn {
                greeting: greeting@,
                own_ip: own_ip@,
            },
            SessionEvent::LoginFailed { reason } => SessionEvent::LoginFailed { reason: reason@ },
            SessionEvent::Disconnected { reason } => SessionEvent::Disconnected {
                reason: reason@,
            },
            SessionEvent::SearchStarted { token, query } => SessionEvent::SearchStarted {
                token: *token,
                query: query@,
            },
            SessionEvent::SearchBroadcastSeen { username, query } =>
                SessionEvent::SearchBroadcastSeen { username: username@, query: query@ },
            SessionEvent::ProtocolNote { note } => SessionEvent::ProtocolNote { note: note@ },
        }
    }
}

/// What a session hands out: requests for the server, and messages for other components.
#[derive(Debug, PartialEq)]
pub enum Outgoing<S, L> {
    Server(ServerRequest<S>),
    Event(SessionEvent<S>),
    IncomingSearch { username: S, token: u32, query: S },
    PeerDistribConnect { username: S, ip: S, port: u16 },
    BrowseFailed { username: S, reason: S },
    PeerBrowseConnect { username: S, ip: S, port: u16 },
    DownloadFailed { username: S, filename: S, reason: S },
    PeerDownloadConnect { username: S, ip: S, port: u16, filename: S, size: u64 },
    PeerUploadConnect { username: S, ip: S, port: u16 },
    PeerPierce { username: S, ip: S, port: u16, token: u32 },
    StartSearchResult { corr: u64, started: L, error: Option<S> },
    BrowseAccepted { corr: u64, error: Option<S> },
}

/// [`Outgoing`] at run time.
pub type SessionOut = Outgoing<String, Vec<StartedSearch<String>>>;

/// [`Outgoing`] in contracts.
pub type OutView = Outgoing<Seq<char>, Seq<StartedSearch<Seq<char>>>>;

impl View for Outgoing<String, Vec<StartedSearch<String>>> {
    type V = Outgoing<Seq<char>, Seq<StartedSearch<Seq<char>>>>;

    open spec fn view(&self) -> OutView {
        match self {
            Outgoing::Server(request) => Outgoing::Server(request@),
            Outgoing::Event(event) => Outgoing::Event(event@),
            Outgoing::IncomingSearch { username, token, query } => Outgoing::IncomingSearch {
                username: username@,
                token: *token,
                query: query@,
            },
            Outgoing::PeerDistribConnect { username, ip, port } => Outgoing::PeerDistribConnect {
                username: username@,
                ip: ip@,
                port: *port,
            },
            Outgoing::BrowseFailed { username, reason } => Outgoing::BrowseFailed {
                username: username@,
                reason: reason@,
            },
            Outgoing::PeerBrowseConnect { username, ip, port } => Outgoing::PeerBrowseConnect {
                username: username@,
                ip: ip@,
                port: *port,
            },
            Outgoing::DownloadFailed { username, filename, reason } => Outgoing::DownloadFailed {
                username: username@,
                filename: filename@,
                reason: reason@,
            },
            Outgoing::PeerDownloadConnect { username, ip, port, filename, size } =>
                Outgoing::PeerDownloadConnect {
                    username: username@,
                    ip: ip@,
                    port: *port,
                    filename: filename@,
                    size: *size,
                },
            Outgoing::PeerUploadConnect { username, ip, port } => Outgoing::PeerUploadConnect {
                username: username@,
                ip: ip@,
                port: *port,
            },
            Outgoing::PeerPierce { username, ip, port, token } => Outgoing::PeerPierce {
                username: username@,
                ip: ip@,
                port: *port,
                token: *token,
            },
            Outgoing::StartSearchResult { corr, started, error } => Outgoing::StartSearchResult {
                corr: *corr,
                started: views(started@),
                error: ov(*error),
            },
            Outgoing::BrowseAccepted { corr, error } => Outgoing::BrowseAccepted {
                corr: *corr,
                error: ov(*error),
            },
        }
    }
}

/// A session in terms of what it stands for.
pub struct SessionModel {
    pub username: Seq<char>,
    pub password: Seq<char>,
    pub listen_port: u32,
    pub state: SessionState,
    pub next_token: u32,
    /// Users whose address was asked for in order to browse them.
    pub browses: Set<Seq<char>>,
    /// Downloads that wait for an address, in the order in which they were asked for.
    pub downloads: Seq<PendingDownloadView>,
    /// Users whose address was asked for in order to send them a file.
    pub uploads: Set<Seq<char>>,
    /// The parent in the distributed tree that was adopted, if any.
    pub parent: Option<Seq<char>>,
}

/// The session state machine.
pub struct Session {
    username: String,
    password: String,
    listen_port: u32,
    state: SessionState,
    next_token: u32,
    pending_browses: NameSet,
    pending_downloads: Vec<PendingDownload>,
    pending_upload_resolves: NameSet,
    distrib_parent: Option<String>,
}

impl View for Session {
    type V = SessionModel;

    closed spec fn view(&self) -> SessionModel {
        SessionModel {
            username: self.username@,
            password: self.password@,
            listen_port: self.listen_port,
            state: self.state,
            next_token: self.next_token,
            browses: self.pending_browses@,
            downloads: views(self.pending_downloads@),
            uploads: self.pending_upload_resolves@,
            parent: ov(self.distrib_parent),
        }
    }
}

/// Client version sent when logging in.
pub const MAJOR_VERSION: u32 = 160;

pub const MINOR_VERSION: u32 = 1;

pub const NOT_LOGGED_IN: &'static str = "not logged in to the soulseek server";

pub const OFFLINE: &'static str = "user is offline or not reachable";

/// What became of the connection to the server.
#[derive(Debug, PartialEq)]
pub enum NetConnEvent {
    Connected,
    Failed { reason: String },
    Closed { reason: String },
}

pub open spec fn note(text: Seq<char>) -> OutView {
    Outgoing::Event(SessionEvent::ProtocolNote { note: text })
}

/// What a session does when the connection comes up or goes down.
pub open spec fn on_conn(m: SessionModel, event: NetConnEvent) -> (SessionModel, Seq<OutView>) {
    match event {
        NetConnEvent::Connected => (
            SessionModel { state: SessionState::AwaitingLogin, ..m },
            seq![
                Outgoing::Server(
                    ServerRequest::Login {
                        username: m.username,
                        password: m.password,
                        major_version: MAJOR_VERSION,
                        minor_version: MINOR_VERSION,
                    },
                ),
                Outgoing::Event(SessionEvent::Connecting),
            ],
        ),
        NetConnEvent::Failed { reason } => on_disconnect(m, reason@),
        NetConnEvent::Closed { reason } => on_disconnect(m, reason@),
    }
}

/// The parent is forgotten, so that a reconnect adopts one anew.
pub open spec fn on_disconnect(m: SessionModel, reason: Seq<char>) -> (SessionModel, Seq<OutView>) {
    (
        SessionModel { state: SessionState::Disconnected, parent: None, ..m },
        seq![Outgoing::Event(SessionEvent::Disconnected { reason })],
    )
}

/// Logged in: announce the listening port, then join the distributed tree as our own root, at
/// level 0, without children.
pub open spec fn on_login(m: SessionModel, greeting: Seq<char>, own_ip: Ipv4) -> (
    SessionModel,
    Seq<OutView>,
) {
    (
        SessionModel { state: SessionState::LoggedIn, ..m },
        seq![
            Outgoing::Server(
                ServerRequest::SetWaitPort {
                    port: m.listen_port,
                    obfuscation_type: 0,
                    obfuscated_port: 0,
                },
            ),
            Outgoing::Server(ServerRequest::HaveNoParent { no_parent: true }),
            Outgoing::Server(ServerRequest::BranchRoot { root: m.username }),
            Outgoing::Server(ServerRequest::BranchLevel { level: 0 }),
            Outgoing::Server(ServerRequest::AcceptChildren { accept: false }),
            Outgoing::Event(SessionEvent::LoggedIn { greeting, own_ip: ip_text(own_ip) }),
        ],
    )
}

/// At most one parent is adopted: the first candidate, when there is no parent yet.
pub open spec fn on_parents(m: SessionModel, parents: Seq<PossibleParent>) -> (
    SessionModel,
    Seq<OutView>,
) {
    if m.parent is None && parents.len() > 0 {
        (
            SessionModel { parent: Some(parents[0].username@), ..m },
            seq![
                Outgoing::PeerDistribConnect {
                    username: parents[0].username@,
                    ip: ip_text(parents[0].ip),
                    port: low16(parents[0].port),
                },
            ],
        )
    } else {
        (m, Seq::empty())
    }
}

/// Which of the waiting downloads are from `username`.
pub open spec fn from_user(username: Seq<char>) -> spec_fn(PendingDownloadView) -> bool {
    |d: PendingDownloadView| d.username == username
}

/// Which of the waiting downloads are from someone else.
pub open spec fn not_from_user(username: Seq<char>) -> spec_fn(PendingDownloadView) -> bool {
    |d: PendingDownloadView| d.username != username
}

/// What is sent for one download once the address of its user has come.
pub open spec fn download_answer(
    d: PendingDownloadView,
    username: Seq<char>,
    ip: Ipv4,
    port: u32,
) -> OutView {
    if ip_unspecified(ip) || port == 0 {
        Outgoing::DownloadFailed { username, filename: d.filename, reason: OFFLINE@ }
    } else {
        Outgoing::PeerDownloadConnect {
            username,
            ip: ip_text(ip),
            port: low16(port),
            filename: d.filename,
            size: d.size,
        }
    }
}

pub open spec fn download_answers(
    waiting: Seq<PendingDownloadView>,
    username: Seq<char>,
    ip: Ipv4,
    port: u32,
) -> Seq<OutView> {
    Seq::new(waiting.len(), |i: int| download_answer(waiting[i], username, ip, port))
}

pub open spec fn browse_answer(wanted: bool, username: Seq<char>, ip: Ipv4, port: u32) -> Seq<
    OutView,
> {
    if !wanted {
        Seq::empty()
    } else if ip_unspecified(ip) || port == 0 {
        seq![Outgoing::BrowseFailed { username, reason: OFFLINE@ }]
    } else {
        seq![Outgoing::PeerBrowseConnect { username, ip: ip_text(ip), port: low16(port) }]
    }
}

pub open spec fn upload_answer(wanted: bool, username: Seq<char>, ip: Ipv4, port: u32) -> Seq<
    OutView,
> {
    if wanted {
        seq![Outgoing::PeerUploadConnect { username, ip: ip_text(ip), port: low16(port) }]
    } else {
        Seq::empty()
    }
}

/// An address answers everything that waits for it, and nothing waits for it afterwards. One
/// that nothing waits for becomes a note. `0.0.0.0` and port 0 mean that the user is offline;
/// for an upload that is left to the receiver of the address.
pub open spec fn on_address(m: SessionModel, username: Seq<char>, ip: Ipv4, port: u32) -> (
    SessionModel,
    Seq<OutView>,
) {
    let browse = m.browses.contains(username);
    let waiting = m.downloads.filter(from_user(username));
    let upload = m.uploads.contains(username);
    (
        SessionModel {
            browses: m.browses.remove(username),
            downloads: m.downloads.filter(not_from_user(username)),
            uploads: m.uploads.remove(username),
            ..m
        },
        if browse || waiting.len() > 0 || upload {
            browse_answer(browse, username, ip, port) + download_answers(
                waiting,
                username,
                ip,
                port,
            ) + upload_answer(upload, username, ip, port)
        } else {
            seq![
                note(
                    "peer address: "@ + username + " at "@ + ip_text(ip) + ":"@ + decimal(
                        port as nat,
                    ),
                ),
            ]
        },
    )
}

/// What a session does about a message from the server.
pub open spec fn on_server_message(m: SessionModel, message: ServerMessage) -> (
    SessionModel,
    Seq<OutView>,
) {
    match message {
        ServerMessage::LoginSuccess { greeting, own_ip } => on_login(m, greeting@, own_ip),
        ServerMessage::LoginFailure { reason, detail } => (
            SessionModel { state: SessionState::Disconnected, ..m },
            seq![
                Outgoing::Event(
                    SessionEvent::LoginFailed {
                        reason: match detail {
                            Some(d) => reason@ + ": "@ + d@,
                            None => reason@,
                        },
                    },
                ),
            ],
        ),
        ServerMessage::FileSearch { username, token, query } => (
            m,
            seq![
                Outgoing::IncomingSearch { username: username@, token, query: query@ },
                Outgoing::Event(
                    SessionEvent::SearchBroadcastSeen { username: username@, query: query@ },
                ),
            ],
        ),
        ServerMessage::EmbeddedMessage { distrib_code, search } => (
            m,
            match search {
                Some(s) if distrib_code == DISTRIB_SEARCH => seq![
                    Outgoing::IncomingSearch {
                        username: s.username@,
                        token: s.token,
                        query: s.query@,
                    },
                ],
                _ => Seq::empty(),
            },
        ),
        ServerMessage::PossibleParents { parents } => on_parents(m, parents@),
        ServerMessage::ParentMinSpeed { speed } => (m, Seq::empty()),
        ServerMessage::ParentSpeedRatio { ratio } => (m, Seq::empty()),
        ServerMessage::GetPeerAddress { username, ip, port } => on_address(m, username@, ip, port),
        ServerMessage::ConnectToPeer { username, connection_type, ip, port, token } => (
            m,
            if connection_type == ConnectionType::Peer {
                seq![
                    Outgoing::PeerPierce {
                        username: username@,
                        ip: ip_text(ip),
                        port: low16(port),
                        token,
                    },
                ]
            } else {
                seq![
                    note(
                        "connect-to-peer ("@ + connection_letter(connection_type) + ") from "@
                            + username@ + " not yet handled"@,
                    ),
                ]
            },
        ),
        ServerMessage::ExcludedSearchPhrases { phrases } => (
            m,
            seq![
                note("server sent "@ + decimal(phrases@.len()) + " excluded search phrase(s)"@),
            ],
        ),
        ServerMessage::Unknown { code, body } => (
            m,
            seq![
                note(
                    "unhandled server message code "@ + decimal(code as nat) + " ("@ + decimal(
                        body@.len(),
                    ) + " bytes)"@,
                ),
            ],
        ),
    }
}

/// The jobs that have something to search for.
pub open spec fn queries(jobs: Seq<SearchJob>) -> Seq<Seq<char>>
    decreases jobs.len(),
{
    if jobs.len() == 0 {
        Seq::empty()
    } else {
        let q = query_of(jobs.last()@);
        let before = queries(jobs.drop_last());
        if q.len() == 0 {
            before
        } else {
            before.push(q)
        }
    }
}

/// The searches for these queries: consecutive tokens from `first` on.
pub open spec fn started(first: u32, qs: Seq<Seq<char>>) -> Seq<StartedSearch<Seq<char>>> {
    Seq::new(qs.len(), |i: int| StartedSearch { token: (first + i) as u32, query: qs[i] })
}

/// For each search, the request and the event.
pub open spec fn announced(searches: Seq<StartedSearch<Seq<char>>>) -> Seq<OutView>
    decreases searches.len(),
{
    if searches.len() == 0 {
        Seq::empty()
    } else {
        let s = searches.last();
        announced(searches.drop_last()).push(
            Outgoing::Server(ServerRequest::FileSearch { token: s.token, query: s.query }),
        ).push(Outgoing::Event(SessionEvent::SearchStarted { token: s.token, query: s.query }))
    }
}

/// What a session does when asked to search.
pub open spec fn on_start_search(m: SessionModel, corr: u64, jobs: Seq<SearchJob>) -> (
    SessionModel,
    Seq<OutView>,
) {
    if m.state != SessionState::LoggedIn {
        (
            m,
            seq![
                Outgoing::StartSearchResult {
                    corr,
                    started: Seq::empty(),
                    error: Some(NOT_LOGGED_IN@),
                },
            ],
        )
    } else {
        let searches = started(m.next_token, queries(jobs));
        (
            SessionModel { next_token: (m.next_token + searches.len()) as u32, ..m },
            announced(searches).push(
                Outgoing::StartSearchResult { corr, started: searches, error: None },
            ),
        )
    }
}

/// What a session does when asked to browse a user.
pub open spec fn on_browse(m: SessionModel, corr: u64, username: Seq<char>) -> (
    SessionModel,
    Seq<OutView>,
) {
    let name = trimmed(username);
    if m.state != SessionState::LoggedIn {
        (m, seq![Outgoing::BrowseAccepted { corr, error: Some(NOT_LOGGED_IN@) }])
    } else if name.len() == 0 {
        (m, seq![Outgoing::BrowseAccepted { corr, error: Some("enter a username to browse"@) }])
    } else {
        (
            SessionModel { browses: m.browses.insert(name), ..m },
            seq![
                Outgoing::Server(ServerRequest::GetPeerAddress { username: name }),
                Outgoing::BrowseAccepted { corr, error: None },
            ],
        )
    }
}

/// What a session does when asked to download a file.
pub open spec fn on_download(
    m: SessionModel,
    username: Seq<char>,
    filename: Seq<char>,
    size: u64,
) -> (SessionModel, Seq<OutView>) {
    let name = trimmed(username);
    if m.state != SessionState::LoggedIn {
        (m, seq![Outgoing::DownloadFailed { username, filename, reason: NOT_LOGGED_IN@ }])
    } else if name.len() == 0 || filename.len() == 0 {
        (
            m,
            seq![
                Outgoing::DownloadFailed {
                    username,
                    filename,
                    reason: "a username and filename are required"@,
                },
            ],
        )
    } else {
        (
            SessionModel {
                downloads: m.downloads.push(PendingDownloadView { username: name, filename, size }),
                ..m
            },
            seq![Outgoing::Server(ServerRequest::GetPeerAddress { username: name })],
        )
    }
}

/// What a session does when asked for the address of a user to send a file to.
pub open spec fn on_resolve_upload(m: SessionModel, username: Seq<char>) -> (
    SessionModel,
    Seq<OutView>,
) {
    if m.state != SessionState::LoggedIn {
        (m, Seq::empty())
    } else {
        (
            SessionModel { uploads: m.uploads.insert(username), ..m },
            seq![Outgoing::Server(ServerRequest::GetPeerAddress { username })],
        )
    }
}

fn note_out(text: String) -> (r: SessionOut)
    ensures
        r@ == note(text@),
{
    Outgoing::Event(SessionEvent::ProtocolNote { note: text })
}

fn one(x: SessionOut) -> (r: Vec<SessionOut>)
    ensures
        views(r@) == seq![x@],
{
    let mut v: Vec<SessionOut> = Vec::new();
    v.push(x);
    assert(views(v@) =~= seq![x@]);
    v
}

fn none() -> (r: Vec<SessionOut>)
    ensures
        views(r@) == Seq::<OutView>::empty(),
{
    let v: Vec<SessionOut> = Vec::new();
    assert(views(v@) =~= Seq::<OutView>::empty());
    v
}

impl Session {
    /// A session that has not connected yet.
    pub fn new(ctx: &AppContext) -> (r: Self)
        ensures
            r@ == (SessionModel {
                username: ctx.config.server.username@,
                password: ctx.config.server.password@,
                listen_port: ctx.config.server.listen_port,
                state: SessionState::Disconnected,
                next_token: 1,
                browses: Set::empty(),
                downloads: Seq::empty(),
                uploads: Set::empty(),
                parent: None,
            }),
    {
        let r = Session {
            username: ctx.config.server.username.clone(),
            password: ctx.config.server.password.clone(),
            listen_port: ctx.config.server.listen_port,
            state: SessionState::Disconnected,
            next_token: 1,
            pending_browses: NameSet::new(),
            pending_downloads: Vec::new(),
            pending_upload_resolves: NameSet::new(),
            distrib_parent: None,
        };
        assert(r@.downloads =~= Seq::empty());
        r
    }

    /// How far the connection has come.
    pub fn state(&self) -> (r: SessionState)
        ensures
            r == self@.state,
    {
        self.state
    }

    /// How many search tokens can still be given out.
    pub fn tokens_left(&self) -> (r: u32)
        ensures
            r == u32::MAX - self@.next_token,
    {
        u32::MAX - self.next_token
    }

    /// The connection to the server came up or went down.
    pub fn net_conn(&mut self, event: &NetConnEvent) -> (out: Vec<SessionOut>)
        ensures
            (final(self)@, views(out@)) == on_conn(old(self)@, *event),
    {
        match event {
            NetConnEvent::Connected => {
                let login: SessionOut = Outgoing::Server(
                    ServerRequest::Login {
                        username: self.username.clone(),
                        password: self.password.clone(),
                        major_version: MAJOR_VERSION,
                        minor_version: MINOR_VERSION,
                    },
                );
                self.state = SessionState::AwaitingLogin;
                let mut out = one(login);
                out.push(Outgoing::Event(SessionEvent::Connecting));
                assert(views(out@) =~= on_conn(old(self)@, *event).1);
                out
            },
            NetConnEvent::Failed { reason } => self.disconnected(reason.as_str()),
            NetConnEvent::Closed { reason } => self.disconnected(reason.as_str()),
        }
    }

    fn disconnected(&mut self, reason: &str) -> (out: Vec<SessionOut>)
        ensures
            (final(self)@, views(out@)) == on_disconnect(old(self)@, reason@),
    {
        self.state = SessionState::Disconnected;
        self.distrib_parent = None;
        one(Outgoing::Event(SessionEvent::Disconnected { reason: reason.to_owned() }))
    }

    /// A frame came that is no message; `error` says why.
    pub fn undecodable(&self, error: &str) -> (out: Vec<SessionOut>)
        ensures
            views(out@) == seq![note("undecodable frame: "@ + error@)],
    {
        let mut text = "undecodable frame: ".to_owned();
        text.append(error);
        one(note_out(text))
    }

    /// A message came from the server.
    pub fn net_rx(&mut self, message: ServerMessage) -> (out: Vec<SessionOut>)
        ensures
            (final(self)@, views(out@)) == on_server_message(old(self)@, message),
    {
        match message {
            ServerMessage::LoginSuccess { greeting, own_ip } => self.logged_in(greeting, own_ip),
            ServerMessage::LoginFailure { reason, detail } => {
                self.state = SessionState::Disconnected;
                let text = match detail {
                    Some(d) => {
                        let mut t = reason;
                        t.append(": ");
                        t.append(d.as_str());
                        t
                    },
                    None => reason,
                };
                one(Outgoing::Event(SessionEvent::LoginFailed { reason: text }))
            },
            ServerMessage::FileSearch { username, token, query } => {
                let mut out = one(
                    Outgoing::IncomingSearch {
                        username: username.clone(),
                        token,
                        query: query.clone(),
                    },
                );
                out.push(Outgoing::Event(SessionEvent::SearchBroadcastSeen { username, query }));
                assert(views(out@) =~= on_server_message(old(self)@, message).1);
                out
            },
            ServerMessage::EmbeddedMessage { distrib_code, search } => {
                match search {
                    Some(s) => if distrib_code == DISTRIB_SEARCH {
                        one(
                            Outgoing::IncomingSearch {
                                username: s.username,
                                token: s.token,
                                query: s.query,
                            },
                        )
                    } else {
                        none()
                    },
                    None => none(),
                }
            },
            ServerMessage::PossibleParents { parents } => self.possible_parents(&parents),
            ServerMessage::ParentMinSpeed { .. } => none(),
            ServerMessage::ParentSpeedRatio { .. } => none(),
            ServerMessage::GetPeerAddress { username, ip, port } => {
                self.peer_address(username.as_str(), ip, port)
            },
            ServerMessage::ConnectToPeer { username, connection_type, ip, port, token } => {
                if connection_type == ConnectionType::Peer {
                    one(Outgoing::PeerPierce { username, ip: ip.text(), port: to_port(port), token })
                } else {
                    let mut text = "connect-to-peer (".to_owned();
                    text.append(connection_type.letter());
                    text.append(") from ");
                    text.append(username.as_str());
                    text.append(" not yet handled");
                    one(note_out(text))
                }
            },
            ServerMessage::ExcludedSearchPhrases { phrases } => {
                let mut text = "server sent ".to_owned();
                push_decimal(&mut text, phrases.len() as u64);
                text.append(" excluded search phrase(s)");
                one(note_out(text))
            },
            ServerMessage::Unknown { code, body } => {
                let mut text = "unhandled server message code ".to_owned();
                push_decimal(&mut text, code as u64);
                text.append(" (");
                push_decimal(&mut text, body.len() as u64);
                text.append(" bytes)");
                one(note_out(text))
            },
        }
    }

    fn logged_in(&mut self, greeting: String, own_ip: Ipv4) -> (out: Vec<SessionOut>)
        ensures
            (final(self)@, views(out@)) == on_login(old(self)@, greeting@, own_ip),
    {
        self.state = SessionState::LoggedIn;
        let mut out = none();
        out.push(
            Outgoing::Server(
                ServerRequest::SetWaitPort {
                    port: self.listen_port,
                    obfuscation_type: 0,
                    obfuscated_port: 0,
                },
            ),
        );
        out.push(Outgoing::Server(ServerRequest::HaveNoParent { no_parent: true }));
        out.push(Outgoing::Server(ServerRequest::BranchRoot { root: self.username.clone() }));
        out.push(Outgoing::Server(ServerRequest::BranchLevel { level: 0 }));
        out.push(Outgoing::Server(ServerRequest::AcceptChildren { accept: false }));
        out.push(Outgoing::Event(SessionEvent::LoggedIn { greeting, own_ip: own_ip.text() }));
        assert(views(out@) =~= on_login(old(self)@, greeting@, own_ip).1);
        out
    }

    fn possible_parents(&mut self, parents: &Vec<PossibleParent>) -> (out: Vec<SessionOut>)
        ensures
            (final(self)@, views(out@)) == on_parents(old(self)@, parents@),
    {
        if self.distrib_parent.is_none() && parents.len() > 0 {
            let parent = &parents[0];
            self.distrib_parent = Some(parent.username.clone());
            one(
                Outgoing::PeerDistribConnect {
                    username: parent.username.clone(),
                    ip: parent.ip.text(),
                    port: to_port(parent.port),
                },
            )
        } else {
            none()
        }
    }

    /// Takes the waiting downloads of a user out, in their order.
    fn take_downloads(&mut self, username: &str) -> (r: Vec<PendingDownload>)
        ensures
            final(self)@ == (SessionModel {
                downloads: old(self)@.downloads.filter(not_from_user(username@)),
                ..old(self)@
            }),
            views(r@) == old(self)@.downloads.filter(from_user(username@)),
    {
        let mut taken: Vec<PendingDownload> = Vec::new();
        let mut kept: Vec<PendingDownload> = Vec::new();
        let mut i: usize = 0;
        let ghost all = views(self.pending_downloads@);
        proof {
            reveal(Seq::filter);
            assert(all.take(0) =~= Seq::empty());
            assert(views(taken@) =~= all.take(0).filter(from_user(username@)));
            assert(views(kept@) =~= all.take(0).filter(not_from_user(username@)));
        }
        while i < self.pending_downloads.len()
            invariant
                i <= self.pending_downloads@.len(),
                *self == *old(self),
                all == views(self.pending_downloads@),
                views(taken@) == all.take(i as int).filter(from_user(username@)),
                views(kept@) == all.take(i as int).filter(not_from_user(username@)),
            decreases self.pending_downloads@.len() - i,
        {
            let d = &self.pending_downloads[i];
            proof {
                reveal(Seq::filter);
                assert(all.take(i as int + 1).drop_last() =~= all.take(i as int));
                assert(all.take(i as int + 1).last() == all[i as int]);
                assert(all[i as int] == d@);
            }
            let copy = PendingDownload {
                username: d.username.clone(),
                filename: d.filename.clone(),
                size: d.size,
            };
            if same(d.username.as_str(), username) {
                taken.push(copy);
            } else {
                kept.push(copy);
            }
            i += 1;
        }
        assert(all.take(i as int) =~= all);
        self.pending_downloads = kept;
        taken
    }

    fn peer_address(&mut self, username: &str, ip: Ipv4, port: u32) -> (out: Vec<SessionOut>)
        ensures
            (final(self)@, views(out@)) == on_address(old(self)@, username@, ip, port),
    {
        let offline = ip.is_unspecified() || port == 0;
        let browse = self.pending_browses.remove(username);
        let downloads = self.take_downloads(username);
        let upload = self.pending_upload_resolves.remove(username);
        let ghost waiting = views(downloads@);
        let mut out = none();
        if browse {
            if offline {
                out.push(
                    Outgoing::BrowseFailed {
                        username: username.to_owned(),
                        reason: OFFLINE.to_owned(),
                    },
                );
            } else {
                out.push(
                    Outgoing::PeerBrowseConnect {
                        username: username.to_owned(),
                        ip: ip.text(),
                        port: to_port(port),
                    },
                );
            }
        }
        let ghost first = browse_answer(browse, username@, ip, port);
        assert(views(out@) =~= first);
        let mut i: usize = 0;
        assert(views(out@) =~= first + download_answers(waiting.take(0), username@, ip, port));
        while i < downloads.len()
            invariant
                i <= downloads@.len(),
                waiting == views(downloads@),
                offline == (ip_unspecified(ip) || port == 0),
                views(out@) == first + download_answers(
                    waiting.take(i as int),
                    username@,
                    ip,
                    port,
                ),
            decreases downloads@.len() - i,
        {
            let d = &downloads[i];
            let ghost before = views(out@);
            let ghost answer = download_answer(waiting[i as int], username@, ip, port);
            if offline {
                out.push(
                    Outgoing::DownloadFailed {
                        username: username.to_owned(),
                        filename: d.filename.clone(),
                        reason: OFFLINE.to_owned(),
                    },
                );
            } else {
                out.push(
                    Outgoing::PeerDownloadConnect {
                        username: username.to_owned(),
                        ip: ip.text(),
                        port: to_port(port),
                        filename: d.filename.clone(),
                        size: d.size,
                    },
                );
            }
            assert(views(out@) == before.push(answer));
            assert(views(out@) =~= first + download_answers(
                waiting.take(i as int + 1),
                username@,
                ip,
                port,
            ));
            i += 1;
        }
        assert(waiting.take(i as int) =~= waiting);
        if upload {
            out.push(
                Outgoing::PeerUploadConnect {
                    username: username.to_owned(),
                    ip: ip.text(),
                    port: to_port(port),
                },
            );
        }
        if !browse && downloads.len() == 0 && !upload {
            let mut text = "peer address: ".to_owned();
            text.append(username);
            text.append(" at ");
            let addr = ip.text();
            text.append(addr.as_str());
            text.append(":");
            push_decimal(&mut text, port as u64);
            out.push(note_out(text));
        }
        assert(views(out@) =~= on_address(old(self)@, username@, ip, port).1);
        out
    }

    /// The user asks for searches. Tokens are given out in order, one for each job that has
    /// something to search for.
    pub fn start_search(&mut self, corr: u64, jobs: &Vec<SearchJob>) -> (out: Vec<SessionOut>)
        requires
            old(self)@.state == SessionState::LoggedIn ==> old(self)@.next_token + queries(
                jobs@,
            ).len() <= u32::MAX,
        ensures
            (final(self)@, views(out@)) == on_start_search(old(self)@, corr, jobs@),
    {
        if self.state != SessionState::LoggedIn {
            let empty: Vec<StartedSearch<String>> = Vec::new();
            assert(views(empty@) =~= Seq::empty());
            return one(
                Outgoing::StartSearchResult {
                    corr,
                    started: empty,
                    error: Some(NOT_LOGGED_IN.to_owned()),
                },
            );
        }
        let ghost first = self.next_token;
        let mut out = none();
        let mut begun: Vec<StartedSearch<String>> = Vec::new();
        let mut i: usize = 0;
        assert(jobs@.take(0) =~= Seq::empty());
        assert(views(begun@) =~= started(first, queries(jobs@.take(0))));
        while i < jobs.len()
            invariant
                i <= jobs@.len(),
                first == old(self)@.next_token,
                first + queries(jobs@).len() <= u32::MAX,
                self@ == (SessionModel {
                    next_token: (first + begun@.len()) as u32,
                    ..old(self)@
                }),
                begun@.len() == queries(jobs@.take(i as int)).len(),
                views(begun@) == started(first, queries(jobs@.take(i as int))),
                views(out@) == announced(views(begun@)),
            decreases jobs@.len() - i,
        {
            let query = jobs[i].to_query();
            let ghost qs = queries(jobs@.take(i as int));
            proof {
                assert(jobs@.take(i as int + 1).drop_last() =~= jobs@.take(i as int));
                assert(jobs@.take(i as int + 1).last() == jobs@[i as int]);
                lemma_queries_grow(jobs@, i as int + 1);
            }
            if !query.as_str().is_empty() {
                let token: u32 = self.next_token;
                self.next_token = self.next_token + 1;
                let ghost was = views(begun@);
                let ghost sent = views(out@);
                let ghost s = StartedSearch { token, query: query@ };
                out.push(Outgoing::Server(ServerRequest::FileSearch { token, query: query.clone() }));
                out.push(
                    Outgoing::Event(SessionEvent::SearchStarted { token, query: query.clone() }),
                );
                begun.push(StartedSearch { token, query });
                assert(views(begun@) == was.push(s));
                assert(was.push(s).drop_last() =~= was);
                assert(was.push(s) =~= started(first, qs.push(s.query)));
                assert(views(out@) =~= announced(was.push(s)));
            }
            i += 1;
        }
        assert(jobs@.take(i as int) =~= jobs@);
        let ghost before = views(out@);
        out.push(Outgoing::StartSearchResult { corr, started: begun, error: None });
        out
    }

    /// The user asks to browse someone's shares.
    pub fn browse_user(&mut self, corr: u64, username: &str) -> (out: Vec<SessionOut>)
        ensures
            (final(self)@, views(out@)) == on_browse(old(self)@, corr, username@),
    {
        let name = trim(username);
        if self.state != SessionState::LoggedIn {
            return one(Outgoing::BrowseAccepted { corr, error: Some(NOT_LOGGED_IN.to_owned()) });
        }
        if name.is_empty() {
            return one(
                Outgoing::BrowseAccepted {
                    corr,
                    error: Some("enter a username to browse".to_owned()),
                },
            );
        }
        let mut out = one(
            Outgoing::Server(ServerRequest::GetPeerAddress { username: name.to_owned() }),
        );
        self.pending_browses.insert(name.to_owned());
        out.push(Outgoing::BrowseAccepted { corr, error: None });
        assert(views(out@) =~= on_browse(old(self)@, corr, username@).1);
        out
    }

    /// The user asks to download a file.
    pub fn start_download(&mut self, username: &str, filename: &str, size: u64) -> (out: Vec<
        SessionOut,
    >)
        ensures
            (final(self)@, views(out@)) == on_download(old(self)@, username@, filename@, size),
    {
        let name = trim(username);
        if self.state != SessionState::LoggedIn {
            return one(
                Outgoing::DownloadFailed {
                    username: username.to_owned(),
                    filename: filename.to_owned(),
                    reason: NOT_LOGGED_IN.to_owned(),
                },
            );
        }
        if name.is_empty() || filename.is_empty() {
            return one(
                Outgoing::DownloadFailed {
                    username: username.to_owned(),
                    filename: filename.to_owned(),
                    reason: "a username and filename are required".to_owned(),
                },
            );
        }
        self.pending_downloads.push(
            PendingDownload { username: name.to_owned(), filename: filename.to_owned(), size },
        );
        one(Outgoing::Server(ServerRequest::GetPeerAddress { username: name.to_owned() }))
    }

    /// An upload needs the address of the user that it goes to.
    pub fn resolve_upload_peer(&mut self, username: &str) -> (out: Vec<SessionOut>)
        ensures
            (final(self)@, views(out@)) == on_resolve_upload(old(self)@, username@),
    {
        if self.state != SessionState::LoggedIn {
            return none();
        }
        self.pending_upload_resolves.insert(username.to_owned());
        one(Outgoing::Server(ServerRequest::GetPeerAddress { username: username.to_owned() }))
    }
}


/// Whether something handed out connects us to a parent in the distributed tree.
pub open spec fn is_adoption(o: OutView) -> bool {
    o is PeerDistribConnect
}

/// Before login every request of the user is refused: the session stays as it is, nothing goes
/// to the server, and the user is told that there is no login (an upload is silently left).
pub proof fn law_refused_before_login(
    m: SessionModel,
    corr: u64,
    jobs: Seq<SearchJob>,
    username: Seq<char>,
    filename: Seq<char>,
    size: u64,
)
    requires
        m.state != SessionState::LoggedIn,
    ensures
        on_start_search(m, corr, jobs) == (
            m,
            seq![
                OutView::StartSearchResult {
                    corr,
                    started: Seq::<StartedSearch<Seq<char>>>::empty(),
                    error: Some(NOT_LOGGED_IN@),
                },
            ],
        ),
        on_browse(m, corr, username) == (
            m,
            seq![OutView::BrowseAccepted { corr, error: Some(NOT_LOGGED_IN@) }],
        ),
        on_download(m, username, filename, size) == (
            m,
            seq![OutView::DownloadFailed { username, filename, reason: NOT_LOGGED_IN@ }],
        ),
        on_resolve_upload(m, username) == (m, Seq::<OutView>::empty()),
{
}

/// Only the server's acceptance of the login makes a session logged in.
pub proof fn law_login_only_by_the_server(m: SessionModel, message: ServerMessage)
    requires
        m.state != SessionState::LoggedIn,
    ensures
        on_server_message(m, message).0.state == SessionState::LoggedIn
            <==> message is LoginSuccess,
{
}

/// No connection event makes a session logged in; when the connection is lost it is not.
pub proof fn law_connection_events_never_log_in(m: SessionModel, event: NetConnEvent)
    ensures
        on_conn(m, event).0.state != SessionState::LoggedIn,
        !(event is Connected) ==> on_conn(m, event).0.parent is None,
{
}

/// While there is a parent no other is adopted, whatever the server sends, and the parent stays.
pub proof fn law_at_most_one_parent(m: SessionModel, message: ServerMessage, i: int)
    requires
        m.parent is Some,
        0 <= i < on_server_message(m, message).1.len(),
    ensures
        !is_adoption(on_server_message(m, message).1[i]),
        on_server_message(m, message).0.parent == m.parent,
{
    if let ServerMessage::GetPeerAddress { username, ip, port } = message {
        let waiting = m.downloads.filter(from_user(username@));
        let b = browse_answer(m.browses.contains(username@), username@, ip, port);
        let d = download_answers(waiting, username@, ip, port);
        let u = upload_answer(m.uploads.contains(username@), username@, ip, port);
        let all = on_address(m, username@, ip, port).1;
        if m.browses.contains(username@) || waiting.len() > 0 || m.uploads.contains(username@) {
            if i < b.len() {
                assert(all[i] == b[i]);
            } else if i < b.len() + d.len() {
                assert(all[i] == d[i - b.len()]);
            } else {
                assert(all[i] == u[i - b.len() - d.len()]);
            }
        }
    }
}

/// The tokens of the searches that one request starts differ from each other, and the next
/// token is none of them nor any given out before.
pub proof fn law_tokens_are_fresh(m: SessionModel, corr: u64, jobs: Seq<SearchJob>, i: int, j: int)
    requires
        m.state == SessionState::LoggedIn,
        m.next_token + queries(jobs).len() <= u32::MAX,
        0 <= i < j < queries(jobs).len(),
    ensures
        ({
            let s = started(m.next_token, queries(jobs));
            let after = on_start_search(m, corr, jobs).0.next_token;
            m.next_token <= s[i].token < s[j].token < after
        }),
{
}

/// The first jobs have no more to search for than all of them.
proof fn lemma_queries_grow(jobs: Seq<SearchJob>, k: int)
    requires
        0 <= k <= jobs.len(),
    ensures
        queries(jobs.take(k)).len() <= queries(jobs).len(),
    decreases jobs.len() - k,
{
    if k < jobs.len() {
        lemma_queries_grow(jobs, k + 1);
        assert(jobs.take(k + 1).drop_last() =~= jobs.take(k));
    } else {
        assert(jobs.take(k) =~= jobs);
    }
}

/// Once a user's address has come, nothing waits for it any more, and what waits for other
/// users waits on: the same address again is a mere note.
pub proof fn law_an_address_answers_once(
    m: SessionModel,
    username: Seq<char>,
    ip: Ipv4,
    port: u32,
)
    ensures
        ({
            let after = on_address(m, username, ip, port).0;
            let again = on_address(after, username, ip, port);
            &&& again.1.len() == 1
            &&& again.1[0] matches Outgoing::Event(SessionEvent::ProtocolNote { note })
            &&& again.0 == after
            &&& forall|other: Seq<char>|
                #![trigger after.browses.contains(other)]
                #![trigger after.uploads.contains(other)]
                other != username ==> after.browses.contains(other) == m.browses.contains(other)
                    && after.uploads.contains(other) == m.uploads.contains(other)
            &&& forall|k: int|
                0 <= k < m.downloads.len() && (#[trigger] m.downloads[k]).username != username
                    ==> after.downloads.contains(m.downloads[k])
        }),
{
    let after = on_address(m, username, ip, port).0;
    let kept = m.downloads.filter(not_from_user(username));
    broadcast use vstd::seq_lib::group_filter_ensures;
    lemma_filter_none(kept, from_user(username));
    lemma_filter_all(kept, not_from_user(username));
    let again = on_address(after, username, ip, port);
    assert(after.browses.remove(username) =~= after.browses);
    assert(after.uploads.remove(username) =~= after.uploads);
    assert forall|k: int|
        0 <= k < m.downloads.len() && (#[trigger] m.downloads[k]).username
            != username implies after.downloads.contains(m.downloads[k]) by {
        assert(not_from_user(username)(m.downloads[k]));
        m.downloads.lemma_filter_contains(not_from_user(username), k);
    }
}

proof fn lemma_filter_none<A>(s: Seq<A>, p: spec_fn(A) -> bool)
    requires
        forall|i: int| 0 <= i < s.len() ==> !p(#[trigger] s[i]),
    ensures
        s.filter(p).len() == 0,
    decreases s.len(),
{
    reveal(Seq::filter);
    if s.len() > 0 {
        assert(!p(s[s.len() - 1]));
        lemma_filter_none(s.drop_last(), p);
    }
}

proof fn lemma_filter_all<A>(s: Seq<A>, p: spec_fn(A) -> bool)
    requires
        forall|i: int| 0 <= i < s.len() ==> p(#[trigger] s[i]),
    ensures
        s.filter(p) == s,
    decreases s.len(),
{
    reveal(Seq::filter);
    if s.len() > 0 {
        assert(p(s[s.len() - 1]));
        lemma_filter_all(s.drop_last(), p);
        assert(s.drop_last().push(s.last()) =~= s);
    } else {
        assert(s.filter(p) =~= s);
    }
}

/// A download that was accepted is handed to the peer's address when that comes, last of those
/// that wait for it, and fails where the user is offline.
pub proof fn law_a_download_follows_the_address(
    m: SessionModel,
    username: Seq<char>,
    filename: Seq<char>,
    size: u64,
    ip: Ipv4,
    port: u32,
)
    requires
        m.state == SessionState::LoggedIn,
        trimmed(username).len() > 0,
        filename.len() > 0,
    ensures
        ({
            let name = trimmed(username);
            let asked = on_download(m, username, filename, size).0;
            let waiting = PendingDownloadView { username: name, filename, size };
            on_address(asked, name, ip, port).1.contains(
                download_answer(waiting, name, ip, port),
            )
        }),
{
    let name = trimmed(username);
    let waiting = PendingDownloadView { username: name, filename, size };
    let asked = on_download(m, username, filename, size).0;
    let w = asked.downloads.filter(from_user(name));
    reveal(Seq::filter);
    assert(asked.downloads.drop_last() =~= m.downloads);
    assert(asked.downloads.last() == waiting);
    assert(from_user(name)(waiting));
    assert(w == m.downloads.filter(from_user(name)).push(waiting));
    let b = browse_answer(asked.browses.contains(name), name, ip, port);
    let d = download_answers(w, name, ip, port);
    let all = on_address(asked, name, ip, port).1;
    assert(d[w.len() - 1] == download_answer(waiting, name, ip, port));
    assert(all[b.len() + w.len() - 1] == d[w.len() - 1]);
}

/// How many of the first `k` downloads wait for a user.
pub open spec fn waiting_before(
    downloads: Seq<PendingDownloadView>,
    username: Seq<char>,
    k: int,
) -> nat
    decreases k,
{
    if k <= 0 {
        0
    } else {
        waiting_before(downloads, username, k - 1) + if downloads[k - 1].username == username {
            1nat
        } else {
            0
        }
    }
}

proof fn lemma_waiting_counts(downloads: Seq<PendingDownloadView>, username: Seq<char>, k: int)
    ensures
        waiting_before(downloads, username, k) == count_before(downloads, from_user(username), k),
    decreases k,
{
    if k > 0 {
        lemma_waiting_counts(downloads, username, k - 1);
    }
}

/// An address answers every download that waits for its user, each once and in the order in which
/// they were asked for, behind the answer to a browse and before that to an upload: with a
/// connection for that very file and size, or with its failure where the user is offline. Nothing
/// else is answered.
pub proof fn law_an_address_answers_every_download(
    m: SessionModel,
    username: Seq<char>,
    ip: Ipv4,
    port: u32,
)
    ensures
        ({
            let out = on_address(m, username, ip, port).1;
            let offline = (ip.a == 0 && ip.b == 0 && ip.c == 0 && ip.d == 0) || port == 0;
            let browses: int = if m.browses.contains(username) {
                1
            } else {
                0
            };
            let downloads = waiting_before(m.downloads, username, m.downloads.len() as int);
            let uploads: int = if m.uploads.contains(username) {
                1
            } else {
                0
            };
            &&& browses + downloads + uploads > 0 ==> out.len() == browses + downloads + uploads
            &&& browses == 1 ==> out[0] == (if offline {
                OutView::BrowseFailed { username, reason: OFFLINE@ }
            } else {
                OutView::PeerBrowseConnect { username, ip: ip_text(ip), port: low16(port) }
            })
            &&& uploads == 1 ==> out.last() == (OutView::PeerUploadConnect {
                username,
                ip: ip_text(ip),
                port: low16(port),
            })
            &&& forall|k: int|
                0 <= k < m.downloads.len() && (#[trigger] m.downloads[k]).username == username
                    ==> out[browses + waiting_before(m.downloads, username, k)] == (if offline {
                    OutView::DownloadFailed {
                        username,
                        filename: m.downloads[k].filename,
                        reason: OFFLINE@,
                    }
                } else {
                    OutView::PeerDownloadConnect {
                        username,
                        ip: ip_text(ip),
                        port: low16(port),
                        filename: m.downloads[k].filename,
                        size: m.downloads[k].size,
                    }
                })
        }),
{
    let p = from_user(username);
    let waiting = m.downloads.filter(p);
    let out = on_address(m, username, ip, port).1;
    let b = browse_answer(m.browses.contains(username), username, ip, port);
    let d = download_answers(waiting, username, ip, port);
    let u = upload_answer(m.uploads.contains(username), username, ip, port);
    let n = m.downloads.len() as int;
    lemma_filter_rank(m.downloads, p, n);
    lemma_waiting_counts(m.downloads, username, n);
    assert forall|k: int|
        0 <= k < m.downloads.len() && (#[trigger] m.downloads[k]).username == username implies out[b.len() as int
        + waiting_before(m.downloads, username, k)] == download_answer(
        m.downloads[k],
        username,
        ip,
        port,
    ) by {
        assert(p(m.downloads[k]));
        lemma_filter_rank(m.downloads, p, k);
        lemma_waiting_counts(m.downloads, username, k);
        let r = waiting_before(m.downloads, username, k) as int;
        assert(waiting[r] == m.downloads[k]);
        assert(out[b.len() + r] == d[r]);
    }
    if m.uploads.contains(username) {
        assert(out.last() == u[0]);
    }
}

/// An address is used up for its own user alone: what waits for others stays, in its order, and
/// nothing is left that waits for the user.
pub proof fn law_an_address_leaves_the_others_waiting(
    m: SessionModel,
    username: Seq<char>,
    ip: Ipv4,
    port: u32,
    k: int,
)
    ensures
        ({
            let after = on_address(m, username, ip, port).0;
            &&& forall|j: int|
                0 <= j < after.downloads.len() ==> (#[trigger] after.downloads[j]).username
                    != username
            &&& 0 <= k < m.downloads.len() && m.downloads[k].username != username
                ==> after.downloads.len() > k - waiting_before(m.downloads, username, k)
                && after.downloads[k - waiting_before(m.downloads, username, k)] == m.downloads[k]
            &&& after.downloads.len() == m.downloads.len() - waiting_before(
                m.downloads,
                username,
                m.downloads.len() as int,
            )
            &&& !after.browses.contains(username) && !after.uploads.contains(username)
            &&& (after.state, after.next_token, after.parent, after.username, after.password) == (
                m.state,
                m.next_token,
                m.parent,
                m.username,
                m.password,
            )
        }),
{
    let p = not_from_user(username);
    let after = on_address(m, username, ip, port).0;
    let n = m.downloads.len() as int;
    lemma_filter_rank(m.downloads, p, n);
    lemma_others_count(m.downloads, username, n);
    assert forall|j: int| 0 <= j < after.downloads.len() implies (
    #[trigger] after.downloads[j]).username != username by {
        lemma_filter_there(m.downloads, p, j);
    }
    if 0 <= k < n && m.downloads[k].username != username {
        assert(p(m.downloads[k]));
        lemma_filter_rank(m.downloads, p, k);
        lemma_others_count(m.downloads, username, k);
    }
}

proof fn lemma_others_count(downloads: Seq<PendingDownloadView>, username: Seq<char>, k: int)
    requires
        0 <= k,
    ensures
        count_before(downloads, not_from_user(username), k) == k - waiting_before(
            downloads,
            username,
            k,
        ),
    decreases k,
{
    if k > 0 {
        lemma_others_count(downloads, username, k - 1);
    }
}

/// How many of the first `k` jobs have something to search for.
pub open spec fn searching_before(jobs: Seq<SearchJob>, k: int) -> nat
    decreases k,
{
    if k <= 0 {
        0
    } else {
        searching_before(jobs, k - 1) + if query_of(jobs[k - 1]@).len() > 0 {
            1nat
        } else {
            0
        }
    }
}

proof fn lemma_queries_rank(jobs: Seq<SearchJob>, k: int)
    requires
        0 <= k <= jobs.len(),
    ensures
        queries(jobs).len() == searching_before(jobs, jobs.len() as int),
        k < jobs.len() && query_of(jobs[k]@).len() > 0 ==> searching_before(jobs, k) < queries(
            jobs,
        ).len() && queries(jobs)[searching_before(jobs, k) as int] == query_of(jobs[k]@),
    decreases jobs.len(),
{
    if jobs.len() > 0 {
        let d = jobs.drop_last();
        let n = jobs.len() - 1;
        lemma_queries_rank(d, n);
        lemma_searching_same(d, jobs, n);
        if k < jobs.len() {
            lemma_queries_rank(d, k);
            lemma_searching_same(d, jobs, k);
        }
    }
}

proof fn lemma_searching_same(a: Seq<SearchJob>, b: Seq<SearchJob>, k: int)
    requires
        k <= a.len(),
        k <= b.len(),
        forall|i: int| 0 <= i < k ==> a[i] == b[i],
    ensures
        searching_before(a, k) == searching_before(b, k),
    decreases k,
{
    if k > 0 {
        lemma_searching_same(a, b, k - 1);
    }
}

proof fn lemma_announced(searches: Seq<StartedSearch<Seq<char>>>, i: int)
    requires
        0 <= i < searches.len(),
    ensures
        announced(searches).len() == 2 * searches.len(),
        announced(searches)[2 * i] == OutView::Server(
            ServerRequest::FileSearch { token: searches[i].token, query: searches[i].query },
        ),
        announced(searches)[2 * i + 1] == OutView::Event(
            SessionEvent::SearchStarted { token: searches[i].token, query: searches[i].query },
        ),
    decreases searches.len(),
{
    let d = searches.drop_last();
    if d.len() > 0 {
        lemma_announced(d, if i < d.len() { i } else { 0 });
    }
    assert(announced(d).len() == 2 * d.len());
}

/// Every job that has something to search for is searched for, in order, under a token of its own:
/// the server gets the query, and the user is told the token. A job without a query takes none.
pub proof fn law_every_job_is_searched_for(
    m: SessionModel,
    corr: u64,
    jobs: Seq<SearchJob>,
    k: int,
)
    requires
        m.state == SessionState::LoggedIn,
        m.next_token + searching_before(jobs, jobs.len() as int) <= u32::MAX,
        0 <= k < jobs.len(),
        query_of(jobs[k]@).len() > 0,
    ensures
        ({
            let (after, out) = on_start_search(m, corr, jobs);
            let r = searching_before(jobs, k) as int;
            let total = searching_before(jobs, jobs.len() as int) as int;
            let token = (m.next_token + r) as u32;
            let query = query_of(jobs[k]@);
            &&& r < total <= jobs.len()
            &&& out.len() == 2 * total + 1
            &&& out[2 * r] == OutView::Server(ServerRequest::FileSearch { token, query })
            &&& out[2 * r + 1] == OutView::Event(SessionEvent::SearchStarted { token, query })
            &&& out.last() matches Outgoing::StartSearchResult { corr: c, started: s, error: e }
                && c == corr && e is None && s.len() == total && s[r] == (StartedSearch {
                token,
                query,
            })
            &&& after == (SessionModel { next_token: (m.next_token + total) as u32, ..m })
        }),
{
    lemma_queries_rank(jobs, k);
    lemma_searching_bound(jobs, jobs.len() as int);
    let s = started(m.next_token, queries(jobs));
    lemma_announced(s, searching_before(jobs, k) as int);
}

proof fn lemma_searching_bound(jobs: Seq<SearchJob>, k: int)
    requires
        0 <= k,
    ensures
        searching_before(jobs, k) <= k,
    decreases k,
{
    if k > 0 {
        lemma_searching_bound(jobs, k - 1);
    }
}

/// When the connection comes up we log in as the user of the settings, and with that password;
/// when it is lost, nothing but the reason is told, and what the user asked for waits on.
pub proof fn law_the_login_is_that_of_the_settings(m: SessionModel, event: NetConnEvent)
    ensures
        event is Connected ==> ({
            let (after, out) = on_conn(m, event);
            &&& after.state == SessionState::AwaitingLogin
            &&& out.len() == 2
            &&& out[0] matches Outgoing::Server(ServerRequest::Login { username, password, .. })
                && username == m.username && password == m.password
            &&& out[1] == OutView::Event(SessionEvent::Connecting)
        }),
        event matches NetConnEvent::Failed { reason } ==> on_conn(m, event).1 == seq![
            OutView::Event(SessionEvent::Disconnected { reason: reason@ }),
        ] && on_conn(m, event).0.state == SessionState::Disconnected,
        event matches NetConnEvent::Closed { reason } ==> on_conn(m, event).1 == seq![
            OutView::Event(SessionEvent::Disconnected { reason: reason@ }),
        ] && on_conn(m, event).0.state == SessionState::Disconnected,
        ({
            let after = on_conn(m, event).0;
            &&& after.downloads == m.downloads && after.browses == m.browses && after.uploads
                == m.uploads
            &&& after.next_token == m.next_token && after.username == m.username
                && after.password == m.password && after.listen_port == m.listen_port
        }),
{
}

/// An accepted login is followed by our port and our place in the search tree (our own root, at
/// level 0, looking for a parent, taking no children), and the user is told; a refused one by its
/// reason.
pub proof fn law_a_login_is_announced(m: SessionModel, greeting: String, ip: Ipv4, reason: String)
    ensures
        ({
            let (after, out) = on_server_message(
                m,
                ServerMessage::LoginSuccess { greeting, own_ip: ip },
            );
            &&& after == (SessionModel { state: SessionState::LoggedIn, ..m })
            &&& out.contains(
                OutView::Server(
                    ServerRequest::SetWaitPort {
                        port: m.listen_port,
                        obfuscation_type: 0,
                        obfuscated_port: 0,
                    },
                ),
            )
            &&& out.contains(OutView::Server(ServerRequest::HaveNoParent { no_parent: true }))
            &&& out.contains(OutView::Server(ServerRequest::BranchRoot { root: m.username }))
            &&& out.contains(OutView::Server(ServerRequest::BranchLevel { level: 0 }))
            &&& out.contains(OutView::Server(ServerRequest::AcceptChildren { accept: false }))
            &&& out.last() == OutView::Event(
                SessionEvent::LoggedIn { greeting: greeting@, own_ip: ip_text(ip) },
            )
            &&& out.len() == 6
        }),
        ({
            let (after, out) = on_server_message(
                m,
                ServerMessage::LoginFailure { reason, detail: None },
            );
            &&& after.state == SessionState::Disconnected
            &&& out == seq![OutView::Event(SessionEvent::LoginFailed { reason: reason@ })]
        }),
{
    let out = on_server_message(m, ServerMessage::LoginSuccess { greeting, own_ip: ip }).1;
    assert(out[0] is Server && out[1] is Server && out[2] is Server && out[3] is Server
        && out[4] is Server);
}

/// A search that the server hands us is passed on as it is, whether by itself or inside another
/// message.
pub proof fn law_searches_are_passed_on_verbatim(
    m: SessionModel,
    username: String,
    token: u32,
    query: String,
    search: crate::wire::DistribSearch,
    code: u8,
)
    ensures
        ({
            let (after, out) = on_server_message(
                m,
                ServerMessage::FileSearch { username, token, query },
            );
            &&& after == m
            &&& out.len() == 2
            &&& out[0] == (OutView::IncomingSearch { username: username@, token, query: query@ })
            &&& out[1] == OutView::Event(
                SessionEvent::SearchBroadcastSeen { username: username@, query: query@ },
            )
        }),
        ({
            let (after, out) = on_server_message(
                m,
                ServerMessage::EmbeddedMessage { distrib_code: code, search: Some(search) },
            );
            &&& after == m
            &&& code == 3 ==> out == seq![
                OutView::IncomingSearch {
                    username: search.username@,
                    token: search.token,
                    query: search.query@,
                },
            ]
            &&& code != 3 ==> out.len() == 0
        }),
{
}

/// A peer that cannot be reached is connected to as it asks, with its token; and of the candidates
/// for a parent the first is connected to.
pub proof fn law_peers_are_connected_to_as_they_ask(
    m: SessionModel,
    username: String,
    ip: Ipv4,
    port: u32,
    token: u32,
    parents: Vec<PossibleParent>,
)
    requires
        m.parent is None,
        parents@.len() > 0,
        port <= u16::MAX,
        parents@[0].port <= u16::MAX,
    ensures
        on_server_message(
            m,
            ServerMessage::ConnectToPeer {
                username,
                connection_type: ConnectionType::Peer,
                ip,
                port,
                token,
            },
        ) == (
            m,
            seq![
                OutView::PeerPierce {
                    username: username@,
                    ip: ip_text(ip),
                    port: port as u16,
                    token,
                },
            ],
        ),
        on_server_message(m, ServerMessage::PossibleParents { parents }) == (
            SessionModel { parent: Some(parents@[0].username@), ..m },
            seq![
                OutView::PeerDistribConnect {
                    username: parents@[0].username@,
                    ip: ip_text(parents@[0].ip),
                    port: parents@[0].port as u16,
                },
            ],
        ),
{
}

/// What the user asks of a peer begins with the question for the peer's address, and waits for it:
/// once the address comes, the browse or the upload goes to it.
pub proof fn law_requests_wait_for_the_address(
    m: SessionModel,
    corr: u64,
    username: Seq<char>,
    ip: Ipv4,
    port: u32,
)
    requires
        m.state == SessionState::LoggedIn,
        trimmed(username).len() > 0,
        0 < port <= u16::MAX,
        ip.a > 0,
    ensures
        ({
            let name = trimmed(username);
            let (asked, out) = on_browse(m, corr, username);
            &&& out.len() == 2
            &&& out[0] == OutView::Server(ServerRequest::GetPeerAddress { username: name })
            &&& out[1] == (OutView::BrowseAccepted { corr, error: None })
            &&& on_address(asked, name, ip, port).1[0] == (OutView::PeerBrowseConnect {
                username: name,
                ip: ip_text(ip),
                port: port as u16,
            })
            &&& asked.downloads == m.downloads && asked.uploads == m.uploads && asked.state
                == m.state
        }),
        ({
            let (asked, out) = on_resolve_upload(m, username);
            &&& out == seq![OutView::Server(ServerRequest::GetPeerAddress { username })]
            &&& on_address(asked, username, ip, port).1.last() == (OutView::PeerUploadConnect {
                username,
                ip: ip_text(ip),
                port: port as u16,
            })
            &&& asked.downloads == m.downloads && asked.browses == m.browses && asked.state
                == m.state
        }),
{
    law_an_address_answers_every_download(
        on_browse(m, corr, username).0,
        trimmed(username),
        ip,
        port,
    );
    law_an_address_answers_every_download(on_resolve_upload(m, username).0, username, ip, port);
}

/// A download that is asked for waits behind those that wait already, with the file and the size
/// that were asked for, and the peer's address is asked for. Without a user or a file it fails.
pub proof fn law_a_download_waits_in_line(
    m: SessionModel,
    username: Seq<char>,
    filename: Seq<char>,
    size: u64,
)
    requires
        m.state == SessionState::LoggedIn,
    ensures
        ({
            let (after, out) = on_download(m, username, filename, size);
            let named = trimmed(username).len() > 0 && filename.len() > 0;
            &&& named ==> after.downloads.len() == m.downloads.len() + 1 && after.downloads.take(
                m.downloads.len() as int,
            ) == m.downloads && after.downloads.last().username == trimmed(username)
                && after.downloads.last().filename == filename && after.downloads.last().size
                == size && out == seq![
                OutView::Server(ServerRequest::GetPeerAddress { username: trimmed(username) }),
            ]
            &&& !named ==> after == m && out.len() == 1 && out[0] is DownloadFailed
            &&& after.browses == m.browses && after.uploads == m.uploads && after.state == m.state
        }),
{
    let after = on_download(m, username, filename, size).0;
    if trimmed(username).len() > 0 && filename.len() > 0 {
        assert(after.downloads.take(m.downloads.len() as int) =~= m.downloads);
    }
}

/// Without a parent, the first of those that the server names is connected to, at its own address;
/// with one, none is.
pub proof fn law_the_first_possible_parent_is_tried(m: SessionModel, parents: Vec<PossibleParent>)
    ensures
        ({
            let (after, out) = on_server_message(m, ServerMessage::PossibleParents { parents });
            if m.parent is None && parents@.len() > 0 && parents@[0].port <= 0xffff {
                &&& after.parent == Some(parents@[0].username@)
                &&& out.len() == 1
                &&& out[0] matches Outgoing::PeerDistribConnect { username, ip, port } && username
                    == parents@[0].username@ && ip == ip_text(parents@[0].ip) && port
                    == parents@[0].port
                &&& after.downloads == m.downloads && after.state == m.state
            } else if m.parent is Some || parents@.len() == 0 {
                after == m && out.len() == 0
            } else {
                true
            }
        }),
{
}

/// A connection that is lost, or that never came about, ends the session: it says why, and a parent
/// in the search tree is looked for anew; what waits for addresses waits on.
pub proof fn law_a_lost_connection_ends_the_session(m: SessionModel, reason: String)
    ensures
        ({
            let (after, out) = on_conn(m, NetConnEvent::Closed { reason });
            &&& after.state is Disconnected && after.parent is None
            &&& out =~= seq![Outgoing::Event(SessionEvent::Disconnected { reason: reason@ })]
            &&& after.downloads == m.downloads && after.browses == m.browses && after.uploads
                == m.uploads && after.next_token == m.next_token
            &&& on_conn(m, NetConnEvent::Failed { reason }) == (after, out)
        }),
{
}

} // verus!
