//! What the peer network is told to do, one command at a time.
use vstd::prelude::*;
use vstd::string::*;

use crate::config::Config;
use crate::peer_net::distrib::{
    advertisement, on_server_search, signed, to_signed, DistribFrame, DistribModel, DistribState,
    Relay, RelayView,
};
use crate::peer_net::downloads::{asked, cancelled, DownloadView};
use crate::peer_net::gate::wrap_add;
use crate::peer_net::hub::{
    on_pump, on_upload_connect, reconfigured, search_answer, Event, EventView, HubModel, PeerEvent,
    PeerNet, SearchAnswer, Started, StartedView,
};
use crate::search_response::answered;
use crate::shares::SharedFileView;
use crate::text::{clone_strings, decimal, group_views, push_decimal, views};
use crate::wire::{ConnectionType, SearchResultFile, ServerRequest};

verus! {

broadcast use group_views;

/// A command for the peer network.
#[allow(inconsistent_fields)]
pub enum PeerCommand {
    Browse { username: String, ip: String, port: u16 },
    Pierce { username: String, ip: String, port: u16, token: u32 },
    PierceFile { username: String, ip: String, port: u16, token: u32 },
    PierceDistrib { username: String, ip: String, port: u16, token: u32 },
    Download { username: String, ip: String, port: u16, filename: String, size: u64 },
    DistribConnect { username: String, ip: String, port: u16 },
    /// The server is to hear of our place in the search tree.
    AdvertiseBranch,
    /// A peer approved an upload.
    StartUpload { username: String },
    UploadConnect { username: String, ip: String, port: u16 },
    PumpUploads,
    SetDistribLimits { min_speed: u32, ratio: u32 },
    /// The server hands us a search as a branch root.
    RelayDistribSearch { username: String, token: u32, query: String },
    IncomingSearch { username: String, token: u32, query: String },
    CancelDownload { username: String, filename: String },
    SetExcludedPhrases { phrases: Vec<String> },
    /// The settings changed; `home` is the user's home directory.
    ApplyConfig { config: Config, home: String },
    QueuePosition { username: String, filename: String, place: u32 },
    SearchResult {
        token: u32,
        username: String,
        free_slots: bool,
        upload_speed: u32,
        in_queue: u32,
        files: Vec<SearchResultFile>,
    },
    TransferProgress { username: String, filename: String, bytes: u64, size: u64, upload: bool },
}

/// A connection to be made, and what for.
#[derive(Debug, PartialEq)]
#[allow(inconsistent_fields)]
pub enum PeerTask<S> {
    Browse { username: S, ip: S, port: u16 },
    /// To serve a peer that cannot be reached the other way round.
    Pierce { username: S, ip: S, port: u16, token: u32 },
    PierceFile { username: S, ip: S, port: u16, token: u32 },
    PierceDistrib { username: S, ip: S, port: u16, token: u32 },
    Download { username: S, ip: S, port: u16, filename: S, size: u64 },
    /// To a parent in the search tree.
    DistribConnect { username: S, ip: S, port: u16 },
}

impl View for PeerTask<String> {
    type V = PeerTask<Seq<char>>;

    open spec fn view(&self) -> PeerTask<Seq<char>> {
        match self {
            PeerTask::Browse { username, ip, port } => PeerTask::Browse {
                username: username@,
                ip: ip@,
                port: *port,
            },
            PeerTask::Pierce { username, ip, port, token } => PeerTask::Pierce {
                username: username@,
                ip: ip@,
                port: *port,
                token: *token,
            },
            PeerTask::PierceFile { username, ip, port, token } => PeerTask::PierceFile {
                username: username@,
                ip: ip@,
                port: *port,
                token: *token,
            },
            PeerTask::PierceDistrib { username, ip, port, token } => PeerTask::PierceDistrib {
                username: username@,
                ip: ip@,
                port: *port,
                token: *token,
            },
            PeerTask::Download { username, ip, port, filename, size } => PeerTask::Download {
                username: username@,
                ip: ip@,
                port: *port,
                filename: filename@,
                size: *size,
            },
            PeerTask::DistribConnect { username, ip, port } => PeerTask::DistribConnect {
                username: username@,
                ip: ip@,
                port: *port,
            },
        }
    }
}

/// What a command leads to.
pub enum PeerAction {
    Nothing,
    Connect(PeerTask<String>),
    Tell(Event),
    Send(Vec<ServerRequest<String>>),
    Start(Started),
    Relay(Relay),
    Answer(SearchAnswer),
    /// The shared folders are to be read anew.
    Rescan(Vec<String>),
}

#[verifier::ext_equal]
pub enum PeerActionView {
    Nothing,
    Connect(PeerTask<Seq<char>>),
    Tell(EventView),
    Send(Seq<ServerRequest<Seq<char>>>),
    Start(StartedView),
    Relay(RelayView),
    /// An answer to a search: [`search_answer`] says which.
    Answer,
    Rescan(Seq<Seq<char>>),
}

impl View for PeerAction {
    type V = PeerActionView;

    open spec fn view(&self) -> PeerActionView {
        match self {
            PeerAction::Nothing => PeerActionView::Nothing,
            PeerAction::Connect(task) => PeerActionView::Connect(task@),
            PeerAction::Tell(event) => PeerActionView::Tell(event@),
            PeerAction::Send(requests) => PeerActionView::Send(views(requests@)),
            PeerAction::Start(started) => PeerActionView::Start(started@),
            PeerAction::Relay(relay) => PeerActionView::Relay(relay@),
            PeerAction::Answer(_) => PeerActionView::Answer,
            PeerAction::Rescan(folders) => PeerActionView::Rescan(views(folders@)),
        }
    }
}

/// What a command does to the peer network, and what it leads to. An incoming search is the
/// exception: which files answer it is left open.
pub open spec fn on_command(m: HubModel, command: PeerCommand) -> (HubModel, PeerActionView) {
    match command {
        PeerCommand::Browse { username, ip, port } => (
            m,
            PeerActionView::Connect(PeerTask::Browse { username: username@, ip: ip@, port }),
        ),
        PeerCommand::Pierce { username, ip, port, token } => (
            m,
            PeerActionView::Connect(
                PeerTask::Pierce { username: username@, ip: ip@, port, token },
            ),
        ),
        PeerCommand::PierceFile { username, ip, port, token } => (
            m,
            PeerActionView::Connect(
                PeerTask::PierceFile { username: username@, ip: ip@, port, token },
            ),
        ),
        PeerCommand::PierceDistrib { username, ip, port, token } => (
            m,
            PeerActionView::Connect(
                PeerTask::PierceDistrib { username: username@, ip: ip@, port, token },
            ),
        ),
        PeerCommand::Download { username, ip, port, filename, size } => (
            m,
            PeerActionView::Connect(
                PeerTask::Download {
                    username: username@,
                    ip: ip@,
                    port,
                    filename: filename@,
                    size,
                },
            ),
        ),
        PeerCommand::DistribConnect { username, ip, port } => (
            m,
            PeerActionView::Connect(
                PeerTask::DistribConnect { username: username@, ip: ip@, port },
            ),
        ),
        PeerCommand::AdvertiseBranch => (
            m,
            PeerActionView::Send(advertisement(m.distrib, m.upload_speed)),
        ),
        PeerCommand::StartUpload { username } => (
            m,
            PeerActionView::Tell(PeerEvent::ResolveUploadPeer { username: username@ }),
        ),
        PeerCommand::UploadConnect { username, ip, port } => {
            let (after, started) = on_upload_connect(m, username@, ip@, port);
            (after, PeerActionView::Start(started))
        },
        PeerCommand::PumpUploads => {
            let (after, started) = on_pump(m, Seq::empty());
            (after, PeerActionView::Start(started))
        },
        PeerCommand::SetDistribLimits { min_speed, ratio } => (
            HubModel { distrib: DistribModel { min_speed, ratio, ..m.distrib }, ..m },
            PeerActionView::Nothing,
        ),
        PeerCommand::RelayDistribSearch { username, token, query } => {
            let (distrib, relay) = on_server_search(m.distrib, username@, token, query@);
            (HubModel { distrib, ..m }, PeerActionView::Relay(relay))
        },
        PeerCommand::IncomingSearch { username, token, query } => (
            HubModel { connect_token: wrap_add(m.connect_token, 1), ..m },
            PeerActionView::Nothing,
        ),
        PeerCommand::CancelDownload { username, filename } => (
            HubModel { downloads: cancelled(m.downloads, username@, filename@), ..m },
            PeerActionView::Nothing,
        ),
        PeerCommand::SetExcludedPhrases { phrases } => (
            HubModel { excluded_phrases: views(phrases@), ..m },
            PeerActionView::Nothing,
        ),
        PeerCommand::ApplyConfig { config, home } => (
            reconfigured(m, config@, home@),
            PeerActionView::Rescan(config@.sharing.folders),
        ),
        PeerCommand::QueuePosition { username, filename, place } => (
            m,
            PeerActionView::Tell(
                PeerEvent::DownloadQueuePosition {
                    username: username@,
                    filename: filename@,
                    place,
                },
            ),
        ),
        PeerCommand::SearchResult { token, username, free_slots, upload_speed, in_queue, files } =>
            (
            m,
            PeerActionView::Tell(
                PeerEvent::SearchResultReceived {
                    token,
                    username: username@,
                    free_slots,
                    upload_speed,
                    in_queue,
                    files: views(files@),
                },
            ),
        ),
        PeerCommand::TransferProgress { username, filename, bytes, size, upload } => (
            m,
            PeerActionView::Tell(
                PeerEvent::TransferProgress {
                    username: username@,
                    filename: filename@,
                    bytes,
                    size,
                    upload,
                },
            ),
        ),
    }
}

/// Whether an action is what an incoming search leads to: an answer that names files which the
/// search finds, or nothing where it finds none or where the settings say that no search is
/// answered.
pub open spec fn answers_search(
    m: HubModel,
    searcher: Seq<char>,
    token: u32,
    query: Seq<char>,
    action: PeerAction,
) -> bool {
    if m.respond_to_searches {
        exists|files: Seq<SharedFileView>| #[trigger]
            answered(m.shares, query, m.max_results as int, m.excluded_phrases, files)
                && match action {
                PeerAction::Answer(a) => files.len() > 0 && search_answer(
                    m,
                    searcher,
                    token,
                    files,
                    a,
                ),
                PeerAction::Nothing => files.len() == 0,
                _ => false,
            }
    } else {
        action is Nothing
    }
}

impl PeerNet {
    /// Carries out a command.
    pub fn command(&mut self, command: PeerCommand) -> (action: PeerAction)
        requires
            old(self).wf(),
        ensures
            final(self).wf(),
            final(self)@ == on_command(old(self)@, command).0,
            match command {
                PeerCommand::IncomingSearch { username, token, query } => answers_search(
                    old(self)@,
                    username@,
                    token,
                    query@,
                    action,
                ),
                _ => action@ == on_command(old(self)@, command).1,
            },
    {
        match command {
            PeerCommand::Browse { username, ip, port } => PeerAction::Connect(
                PeerTask::Browse { username, ip, port },
            ),
            PeerCommand::Pierce { username, ip, port, token } => PeerAction::Connect(
                PeerTask::Pierce { username, ip, port, token },
            ),
            PeerCommand::PierceFile { username, ip, port, token } => PeerAction::Connect(
                PeerTask::PierceFile { username, ip, port, token },
            ),
            PeerCommand::PierceDistrib { username, ip, port, token } => PeerAction::Connect(
                PeerTask::PierceDistrib { username, ip, port, token },
            ),
            PeerCommand::Download { username, ip, port, filename, size } => PeerAction::Connect(
                PeerTask::Download { username, ip, port, filename, size },
            ),
            PeerCommand::DistribConnect { username, ip, port } => PeerAction::Connect(
                PeerTask::DistribConnect { username, ip, port },
            ),
            PeerCommand::AdvertiseBranch => PeerAction::Send(
                self.distrib.advertise(self.upload_speed),
            ),
            PeerCommand::StartUpload { username } => PeerAction::Tell(
                PeerEvent::ResolveUploadPeer { username },
            ),
            PeerCommand::UploadConnect { username, ip, port } => PeerAction::Start(
                self.upload_connect(username.as_str(), ip.as_str(), port),
            ),
            PeerCommand::PumpUploads => PeerAction::Start(self.pump_uploads()),
            PeerCommand::SetDistribLimits { min_speed, ratio } => {
                self.distrib.set_limits(min_speed, ratio);
                PeerAction::Nothing
            },
            PeerCommand::RelayDistribSearch { username, token, query } => PeerAction::Relay(
                self.distrib.server_search(username, token, query),
            ),
            PeerCommand::IncomingSearch { username, token, query } => {
                match self.incoming_search(username.as_str(), token, query.as_str()) {
                    Some(a) => PeerAction::Answer(a),
                    None => PeerAction::Nothing,
                }
            },
            PeerCommand::CancelDownload { username, filename } => {
                self.downloads.cancel(username.as_str(), filename.as_str());
                PeerAction::Nothing
            },
            PeerCommand::SetExcludedPhrases { phrases } => {
                self.excluded_phrases = phrases;
                PeerAction::Nothing
            },
            PeerCommand::ApplyConfig { config, home } => {
                self.config_changed(&config, home.as_str());
                PeerAction::Rescan(clone_strings(&config.sharing.folders))
            },
            PeerCommand::QueuePosition { username, filename, place } => PeerAction::Tell(
                PeerEvent::DownloadQueuePosition { username, filename, place },
            ),
            PeerCommand::SearchResult {
                token,
                username,
                free_slots,
                upload_speed,
                in_queue,
                files,
            } => PeerAction::Tell(
                PeerEvent::SearchResultReceived {
                    token,
                    username,
                    free_slots,
                    upload_speed,
                    in_queue,
                    files,
                },
            ),
            PeerCommand::TransferProgress { username, filename, bytes, size, upload } =>
                PeerAction::Tell(
                PeerEvent::TransferProgress { username, filename, bytes, size, upload },
            ),
        }
    }

    /// A file was queued with its uploader: its offer is accepted from then on.
    pub fn download_queued(&mut self, username: &str, filename: &str, size: u64)
        requires
            old(self).wf(),
        ensures
            final(self).wf(),
            final(self)@ == (HubModel {
                downloads: asked(
                    old(self)@.downloads,
                    DownloadView { username: username@, filename: filename@, size },
                ),
                ..old(self)@
            }),
    {
        self.downloads.ask(username, filename, size);
    }
}

/// What is written first on a connection of ours.
#[derive(Debug, PartialEq)]
pub enum FirstMessage<S> {
    PeerInit { username: S, connection_type: ConnectionType, token: u32 },
    PierceFirewall { token: u32 },
    SharedFileListRequest,
    QueueUpload { file: S },
    PlaceInQueueRequest { file: S },
}

impl View for FirstMessage<String> {
    type V = FirstMessage<Seq<char>>;

    open spec fn view(&self) -> FirstMessage<Seq<char>> {
        match self {
            FirstMessage::PeerInit { username, connection_type, token } => FirstMessage::PeerInit {
                username: username@,
                connection_type: *connection_type,
                token: *token,
            },
            FirstMessage::PierceFirewall { token } => FirstMessage::PierceFirewall {
                token: *token,
            },
            FirstMessage::SharedFileListRequest => FirstMessage::SharedFileListRequest,
            FirstMessage::QueueUpload { file } => FirstMessage::QueueUpload { file: file@ },
            FirstMessage::PlaceInQueueRequest { file } => FirstMessage::PlaceInQueueRequest {
                file: file@,
            },
        }
    }
}

pub open spec fn introduction(
    our_username: Seq<char>,
    connection_type: ConnectionType,
) -> FirstMessage<Seq<char>> {
    FirstMessage::PeerInit { username: our_username, connection_type, token: 0 }
}

/// What is written first: who we are and what the connection is for, or the token of the peer that
/// asked for it; and for a download the request itself.
pub open spec fn first_messages(task: PeerTask<Seq<char>>, our_username: Seq<char>) -> Seq<
    FirstMessage<Seq<char>>,
> {
    match task {
        PeerTask::Browse { username, ip, port } => seq![
            introduction(our_username, ConnectionType::Peer),
            FirstMessage::SharedFileListRequest,
        ],
        PeerTask::Pierce { username, ip, port, token } => seq![
            FirstMessage::PierceFirewall { token },
        ],
        PeerTask::PierceFile { username, ip, port, token } => seq![
            FirstMessage::PierceFirewall { token },
        ],
        PeerTask::PierceDistrib { username, ip, port, token } => seq![
            FirstMessage::PierceFirewall { token },
        ],
        PeerTask::Download { username, ip, port, filename, size } => seq![
            introduction(our_username, ConnectionType::Peer),
            FirstMessage::QueueUpload { file: filename },
            FirstMessage::PlaceInQueueRequest { file: filename },
        ],
        PeerTask::DistribConnect { username, ip, port } => seq![
            introduction(our_username, ConnectionType::Distributed),
        ],
    }
}

fn introduce(our_username: &str, connection_type: ConnectionType) -> (r: FirstMessage<String>)
    ensures
        r@ == introduction(our_username@, connection_type),
{
    FirstMessage::PeerInit { username: our_username.to_owned(), connection_type, token: 0 }
}

/// What to write first on a connection.
pub fn opening_messages(task: &PeerTask<String>, our_username: &str) -> (r: Vec<
    FirstMessage<String>,
>)
    ensures
        views(r@) == first_messages(task@, our_username@),
{
    let mut out: Vec<FirstMessage<String>> = Vec::new();
    match task {
        PeerTask::Browse { .. } => {
            out.push(introduce(our_username, ConnectionType::Peer));
            out.push(FirstMessage::SharedFileListRequest);
        },
        PeerTask::Pierce { token, .. } => {
            out.push(FirstMessage::PierceFirewall { token: *token });
        },
        PeerTask::PierceFile { token, .. } => {
            out.push(FirstMessage::PierceFirewall { token: *token });
        },
        PeerTask::PierceDistrib { token, .. } => {
            out.push(FirstMessage::PierceFirewall { token: *token });
        },
        PeerTask::Download { filename, .. } => {
            out.push(introduce(our_username, ConnectionType::Peer));
            out.push(FirstMessage::QueueUpload { file: filename.clone() });
            out.push(FirstMessage::PlaceInQueueRequest { file: filename.clone() });
        },
        PeerTask::DistribConnect { .. } => {
            out.push(introduce(our_username, ConnectionType::Distributed));
        },
    }
    assert(views(out@) =~= first_messages(task@, our_username@));
    out
}

/// Why a peer was not reached.
pub open spec fn not_reached(ip: Seq<char>, port: u16, error: Seq<char>) -> Seq<char> {
    "connect "@ + ip + ":"@ + decimal(port as nat) + ": "@ + error
}

/// What to tell where no connection could be made for a task: of a browse and of a download, that
/// it failed; of the others, nothing.
pub fn connect_failed(task: &PeerTask<String>, error: &str) -> (event: Option<Event>)
    ensures
        match task@ {
            PeerTask::Browse { username, ip, port } => event matches Some(e) && e@ == (
            EventView::BrowseFailed {
                username,
                reason: not_reached(ip, port, error@),
            }),
            PeerTask::Download { username, ip, port, filename, size } => event matches Some(e)
                && e@ == (EventView::DownloadFailed {
                username,
                filename,
                reason: not_reached(ip, port, error@),
            }),
            _ => event is None,
        },
{
    match task {
        PeerTask::Browse { username, ip, port } => {
            let mut reason = "connect ".to_owned();
            reason.append(ip.as_str());
            reason.append(":");
            push_decimal(&mut reason, *port as u64);
            reason.append(": ");
            reason.append(error);
            Some(PeerEvent::BrowseFailed { username: username.clone(), reason })
        },
        PeerTask::Download { username, ip, port, filename, .. } => {
            let mut reason = "connect ".to_owned();
            reason.append(ip.as_str());
            reason.append(":");
            push_decimal(&mut reason, *port as u64);
            reason.append(": ");
            reason.append(error);
            Some(
                PeerEvent::DownloadFailed {
                    username: username.clone(),
                    filename: filename.clone(),
                    reason,
                },
            )
        },
        _ => None,
    }
}

/// What a child in the search tree is told first: our place in it.
pub open spec fn child_greeting(d: DistribModel) -> Seq<DistribFrame<Seq<char>>> {
    seq![
        DistribFrame::BranchLevel { level: signed(d.level) },
        DistribFrame::BranchRoot { root: d.root },
    ]
}

/// What to tell a new child in the search tree.
pub fn greet_child(distrib: &DistribState) -> (r: Vec<DistribFrame<String>>)
    ensures
        views(r@) == child_greeting(distrib@),
{
    let mut out: Vec<DistribFrame<String>> = Vec::new();
    out.push(DistribFrame::BranchLevel { level: to_signed(distrib.level()) });
    out.push(DistribFrame::BranchRoot { root: distrib.root().to_owned() });
    assert(views(out@) =~= child_greeting(distrib@));
    out
}

/// With settings that say so, no search is answered: the command that brings one leads to nothing.
pub proof fn law_settings_silence_searches(
    m: HubModel,
    config: Config,
    home: String,
    searcher: Seq<char>,
    token: u32,
    query: Seq<char>,
    action: PeerAction,
)
    requires
        !config@.sharing.respond_to_searches,
    ensures
        answers_search(
            on_command(m, PeerCommand::ApplyConfig { config, home }).0,
            searcher,
            token,
            query,
            action,
        ) <==> action is Nothing,
{
}

/// Only what a command is about changes: a connection to be made or something to be told leaves
/// the peer network as it is, and no command touches what waits for peers or the names of our
/// shares.
pub proof fn law_commands_stay_in_their_lane(m: HubModel, command: PeerCommand)
    ensures
        on_command(m, command).1 is Connect || on_command(m, command).1 is Tell || on_command(
            m,
            command,
        ).1 is Send ==> on_command(m, command).0 == m,
        on_command(m, command).0.deliveries == m.deliveries,
        on_command(m, command).0.shares == m.shares,
        on_command(m, command).0.our_username == m.our_username,
{
}

/// A connection that a command asks for goes to the peer and the address that the command names,
/// and asks there for what it is about.
pub proof fn law_a_connection_goes_where_it_is_sent(
    m: HubModel,
    username: String,
    ip: String,
    port: u16,
    token: u32,
    filename: String,
    size: u64,
    us: Seq<char>,
)
    ensures
        on_command(m, PeerCommand::Download { username, ip, port, filename, size }).1
            matches PeerActionView::Connect(task) && (task matches PeerTask::Download {
            username: u,
            ip: a,
            port: p,
            filename: f,
            size: n,
        } && u == username@ && a == ip@ && p == port && f == filename@ && n == size)
            && first_messages(task, us).len() == 3 && first_messages(task, us)[0] == (
        FirstMessage::PeerInit { username: us, connection_type: ConnectionType::Peer, token: 0 })
            && first_messages(task, us)[1] == (FirstMessage::QueueUpload { file: filename@ })
            && first_messages(task, us)[2] == (FirstMessage::PlaceInQueueRequest {
            file: filename@,
        }),
        on_command(m, PeerCommand::Browse { username, ip, port }).1
            matches PeerActionView::Connect(task) && (task matches PeerTask::Browse {
            username: u,
            ip: a,
            port: p,
        } && u == username@ && a == ip@ && p == port) && first_messages(task, us).len() == 2
            && first_messages(task, us)[1] is SharedFileListRequest,
        on_command(m, PeerCommand::Pierce { username, ip, port, token }).1
            matches PeerActionView::Connect(task) && (task matches PeerTask::Pierce {
            username: u,
            ip: a,
            port: p,
            token: t,
        } && u == username@ && a == ip@ && p == port && t == token) && first_messages(task, us)
            =~= seq![FirstMessage::<Seq<char>>::PierceFirewall { token }],
        on_command(m, PeerCommand::PierceFile { username, ip, port, token }).1
            matches PeerActionView::Connect(task) && (task matches PeerTask::PierceFile {
            username: u,
            ip: a,
            port: p,
            token: t,
        } && u == username@ && a == ip@ && p == port && t == token) && first_messages(task, us)
            =~= seq![FirstMessage::<Seq<char>>::PierceFirewall { token }],
        on_command(m, PeerCommand::PierceDistrib { username, ip, port, token }).1
            matches PeerActionView::Connect(task) && (task matches PeerTask::PierceDistrib {
            username: u,
            ip: a,
            port: p,
            token: t,
        } && u == username@ && a == ip@ && p == port && t == token) && first_messages(task, us)
            =~= seq![FirstMessage::<Seq<char>>::PierceFirewall { token }],
        on_command(m, PeerCommand::DistribConnect { username, ip, port }).1
            matches PeerActionView::Connect(task) && (task matches PeerTask::DistribConnect {
            username: u,
            ip: a,
            port: p,
        } && u == username@ && a == ip@ && p == port) && first_messages(task, us) =~= seq![
            FirstMessage::PeerInit {
                username: us,
                connection_type: ConnectionType::Distributed,
                token: 0,
            },
        ],
{
}

/// A child is told where it stands: our own level and root.
pub proof fn law_a_child_is_told_where_it_stands(d: DistribModel)
    requires
        d.level <= i32::MAX,
    ensures
        child_greeting(d).len() == 2,
        child_greeting(d)[0] matches DistribFrame::BranchLevel { level } && level == d.level,
        child_greeting(d)[1] == (DistribFrame::BranchRoot { root: d.root }),
{
}

/// A download that is cancelled is wanted no more, and limits and phrases that are set hold from
/// then on; neither changes anything else.
pub proof fn law_what_is_set_holds(
    m: HubModel,
    username: String,
    filename: String,
    phrases: Vec<String>,
    min_speed: u32,
    ratio: u32,
)
    ensures
        ({
            let after = on_command(m, PeerCommand::CancelDownload { username, filename }).0;
            &&& crate::peer_net::downloads::wanted(
                after.downloads.pending,
                username@,
                filename@,
            ) is None
            &&& after.uploads == m.uploads && after.gate == m.gate && after.distrib == m.distrib
        }),
        ({
            let after = on_command(m, PeerCommand::SetExcludedPhrases { phrases }).0;
            &&& after.excluded_phrases == views(phrases@)
            &&& after.downloads == m.downloads && after.uploads == m.uploads
        }),
        ({
            let after = on_command(m, PeerCommand::SetDistribLimits { min_speed, ratio }).0;
            &&& after.distrib.min_speed == min_speed && after.distrib.ratio == ratio
            &&& after.distrib.children == m.distrib.children && after.distrib.level
                == m.distrib.level
            &&& after.downloads == m.downloads && after.uploads == m.uploads
        }),
{
    crate::peer_net::downloads::law_a_file_is_wanted_once_asked_for(
        m.downloads,
        DownloadView { username: username@, filename: filename@, size: 0 },
        username@,
        filename@,
    );
}

/// Every search that is answered has a token of its own to come back with.
pub proof fn law_every_search_has_a_token_of_its_own(
    m: HubModel,
    username: String,
    token: u32,
    query: String,
)
    ensures
        ({
            let after = on_command(m, PeerCommand::IncomingSearch { username, token, query }).0;
            &&& after.connect_token != m.connect_token
            &&& m.connect_token < u32::MAX ==> after.connect_token == m.connect_token + 1
            &&& after.uploads == m.uploads && after.downloads == m.downloads
        }),
{
}

/// What the program is told in passing is told on as it came.
pub proof fn law_news_is_passed_on(
    m: HubModel,
    username: String,
    filename: String,
    place: u32,
    bytes: u64,
    size: u64,
    upload: bool,
)
    ensures
        on_command(m, PeerCommand::QueuePosition { username, filename, place }) == (
            m,
            PeerActionView::Tell(
                EventView::DownloadQueuePosition {
                    username: username@,
                    filename: filename@,
                    place,
                },
            ),
        ),
        on_command(m, PeerCommand::TransferProgress { username, filename, bytes, size, upload }) == (
            m,
            PeerActionView::Tell(
                EventView::TransferProgress {
                    username: username@,
                    filename: filename@,
                    bytes,
                    size,
                    upload,
                },
            ),
        ),
        on_command(m, PeerCommand::StartUpload { username }) == (
            m,
            PeerActionView::Tell(EventView::ResolveUploadPeer { username: username@ }),
        ),
{
}

} // verus!
