//! Everything that the connections to peers share, and what each message from a peer leads to.
use vstd::prelude::*;
use vstd::string::*;

use crate::config::{
    download_path_of, incomplete_path_of, join_path, joined, AppContext, Config, ConfigView,
};
use crate::peer_net::deliveries::PendingDeliveries;
use crate::peer_net::distrib::{DistribModel, DistribState};
use crate::peer_net::downloads::{
    accepted, deliverable, dropped, law_agreed_downloads_stay_bounded, wanted, Downloads,
    DownloadsModel,
};
use crate::peer_net::gate::{claimed, wrap_add, GateModel, UploadGate, UploadJob, UploadJobView};
use crate::peer_net::naming::{
    basename_on_disk, download_basename, incomplete_name, incomplete_name_of,
};
use crate::peer_net::uploads::{
    all_withdrawn, approved_for, law_offers_are_bounded, law_only_what_the_user_approved_is_taken,
    offered, place_of_offer, withdrawn, OffersModel, PendingUploadView, Uploads,
    MAX_PENDING_TRANSFERS,
};
use crate::search_response::{answered, respond};
use crate::shares::{
    folder_entry, resolved, share_list_of, ShareIndex, SharedFile, SharedFileView, SharedFolder,
    SharedFolderView, SharesView,
};
use crate::text::{
    decimal, eq_ignore_ascii_case, group_views, push_decimal, same,
    same_ignoring_ascii_case, trim_end_char, trim_end_of, views,
};
use crate::tokens::{ascending, lookup, without};
use crate::wire::{
    ConnectionType, FileSearchResponse, PeerInitMessage, PeerMessage, ResultFileView,
    SearchResultFile, ServerRequest, TransferDirection,
};

verus! {

broadcast use group_views;

/// What an answer to one of our searches must offer to be shown.
#[derive(Debug, Clone, Copy, PartialEq, Eq, Structural)]
pub struct SearchFilter {
    /// At least this many files.
    pub min_files: u32,
    /// At least this upload speed, in bytes per second.
    pub min_upload_speed: u32,
    /// At most this many uploads ahead of us; 0 means any number.
    pub max_queue_length: u32,
}

/// Whether an answer passes the filter.
pub open spec fn passes_filter(filter: SearchFilter, r: FileSearchResponse) -> bool {
    &&& r.files@.len() >= filter.min_files
    &&& r.upload_speed >= filter.min_upload_speed
    &&& filter.max_queue_length == 0 || r.in_queue <= filter.max_queue_length
}

impl SearchFilter {
    /// Whether an answer is shown.
    pub fn accepts(&self, response: &FileSearchResponse) -> (r: bool)
        ensures
            r == passes_filter(*self, *response),
    {
        response.files.len() as u64 >= self.min_files as u64 && response.upload_speed
            >= self.min_upload_speed && (self.max_queue_length == 0 || response.in_queue
            <= self.max_queue_length)
    }
}

/// The filter that the settings ask for.
pub open spec fn filter_of(c: ConfigView) -> SearchFilter {
    SearchFilter {
        min_files: c.sharing.min_result_files,
        min_upload_speed: c.sharing.min_peer_upload_speed,
        max_queue_length: c.sharing.max_peer_queue_length,
    }
}

/// `(free_slots, in_queue)` as a search answer and the user info tell it: how many uploads wait,
/// and whether none does.
pub open spec fn slots_told(pending: nat) -> (bool, u32) {
    (pending == 0, (pending % 0x1_0000_0000) as u32)
}

/// What we tell of our upload slots, given how many uploads wait.
pub fn slot_advertisement(pending_uploads: usize) -> (r: (bool, u32))
    ensures
        r == slots_told(pending_uploads as nat),
{
    (pending_uploads == 0, (pending_uploads as u64 % 0x1_0000_0000) as u32)
}

/// What is written back to a peer.
#[derive(Debug, PartialEq)]
#[allow(inconsistent_fields)]
pub enum PeerReply<S, F> {
    /// The list of everything that we share.
    ShareList { folders: F },
    UserInfo {
        description: S,
        total_uploads: u32,
        queue_size: u32,
        slots_available: bool,
        upload_allowed: u32,
    },
    /// One of our folders, with its files.
    FolderContents { token: u32, directory: S, folders: F },
    TransferResponse { token: u32, allowed: bool, filesize: Option<u64>, reason: Option<S> },
    /// We offer to send a file.
    TransferRequest { token: u32, file: S, filesize: u64 },
    UploadDenied { file: S, reason: S },
    PlaceInQueueResponse { filename: S, place: u32 },
}

pub type Reply = PeerReply<String, Vec<SharedFolder>>;

pub type ReplyView = PeerReply<Seq<char>, Seq<SharedFolderView>>;

impl View for PeerReply<String, Vec<SharedFolder>> {
    type V = ReplyView;

    open spec fn view(&self) -> ReplyView {
        match self {
            PeerReply::ShareList { folders } => PeerReply::ShareList { folders: views(folders@) },
            PeerReply::UserInfo {
                description,
                total_uploads,
                queue_size,
                slots_available,
                upload_allowed,
            } => PeerReply::UserInfo {
                description: description@,
                total_uploads: *total_uploads,
                queue_size: *queue_size,
                slots_available: *slots_available,
                upload_allowed: *upload_allowed,
            },
            PeerReply::FolderContents { token, directory, folders } => PeerReply::FolderContents {
                token: *token,
                directory: directory@,
                folders: views(folders@),
            },
            PeerReply::TransferResponse { token, allowed, filesize, reason } =>
                PeerReply::TransferResponse {
                    token: *token,
                    allowed: *allowed,
                    filesize: *filesize,
                    reason: crate::text::ov(*reason),
                },
            PeerReply::TransferRequest { token, file, filesize } => PeerReply::TransferRequest {
                token: *token,
                file: file@,
                filesize: *filesize,
            },
            PeerReply::UploadDenied { file, reason } => PeerReply::UploadDenied {
                file: file@,
                reason: reason@,
            },
            PeerReply::PlaceInQueueResponse { filename, place } =>
                PeerReply::PlaceInQueueResponse { filename: filename@, place: *place },
        }
    }
}

/// What the peer network tells the rest of the program.
#[derive(Debug, PartialEq)]
pub enum PeerEvent<S, L> {
    /// The address of a peer is needed, to send it what it approved.
    ResolveUploadPeer { username: S },
    UploadStarted { username: S, filename: S, size: u64 },
    UploadComplete { username: S, filename: S },
    UploadFailed { username: S, filename: S, reason: S },
    DownloadComplete { username: S, filename: S, path: S },
    DownloadFailed { username: S, filename: S, reason: S },
    DownloadQueuePosition { username: S, filename: S, place: u32 },
    TransferProgress { username: S, filename: S, bytes: u64, size: u64, upload: bool },
    SearchResultReceived {
        token: u32,
        username: S,
        free_slots: bool,
        upload_speed: u32,
        in_queue: u32,
        files: L,
    },
    BrowseFailed { username: S, reason: S },
    PeerActivity { note: S },
}

pub type Event = PeerEvent<String, Vec<SearchResultFile>>;

pub type EventView = PeerEvent<Seq<char>, Seq<ResultFileView>>;

impl View for PeerEvent<String, Vec<SearchResultFile>> {
    type V = EventView;

    open spec fn view(&self) -> EventView {
        match self {
            PeerEvent::ResolveUploadPeer { username } => PeerEvent::ResolveUploadPeer {
                username: username@,
            },
            PeerEvent::UploadStarted { username, filename, size } => PeerEvent::UploadStarted {
                username: username@,
                filename: filename@,
                size: *size,
            },
            PeerEvent::UploadComplete { username, filename } => PeerEvent::UploadComplete {
                username: username@,
                filename: filename@,
            },
            PeerEvent::UploadFailed { username, filename, reason } => PeerEvent::UploadFailed {
                username: username@,
                filename: filename@,
                reason: reason@,
            },
            PeerEvent::DownloadComplete { username, filename, path } =>
                PeerEvent::DownloadComplete {
                    username: username@,
                    filename: filename@,
                    path: path@,
                },
            PeerEvent::DownloadFailed { username, filename, reason } => PeerEvent::DownloadFailed {
                username: username@,
                filename: filename@,
                reason: reason@,
            },
            PeerEvent::DownloadQueuePosition { username, filename, place } =>
                PeerEvent::DownloadQueuePosition {
                    username: username@,
                    filename: filename@,
                    place: *place,
                },
            PeerEvent::TransferProgress { username, filename, bytes, size, upload } =>
                PeerEvent::TransferProgress {
                    username: username@,
                    filename: filename@,
                    bytes: *bytes,
                    size: *size,
                    upload: *upload,
                },
            PeerEvent::SearchResultReceived {
                token,
                username,
                free_slots,
                upload_speed,
                in_queue,
                files,
            } => PeerEvent::SearchResultReceived {
                token: *token,
                username: username@,
                free_slots: *free_slots,
                upload_speed: *upload_speed,
                in_queue: *in_queue,
                files: views(files@),
            },
            PeerEvent::BrowseFailed { username, reason } => PeerEvent::BrowseFailed {
                username: username@,
                reason: reason@,
            },
            PeerEvent::PeerActivity { note } => PeerEvent::PeerActivity { note: note@ },
        }
    }
}

/// What a finished connection produced.
#[derive(Debug, PartialEq)]
pub enum ConnOutcome<S> {
    /// Served requests, or negotiated only: nothing to tell.
    Done,
    Downloaded { username: S, filename: S, path: S },
    DownloadFailed { username: S, filename: S, reason: S },
    Uploaded { username: S, filename: S },
    UploadFailed { username: S, filename: S, reason: S },
}

impl View for ConnOutcome<String> {
    type V = ConnOutcome<Seq<char>>;

    open spec fn view(&self) -> ConnOutcome<Seq<char>> {
        match self {
            ConnOutcome::Done => ConnOutcome::Done,
            ConnOutcome::Downloaded { username, filename, path } => ConnOutcome::Downloaded {
                username: username@,
                filename: filename@,
                path: path@,
            },
            ConnOutcome::DownloadFailed { username, filename, reason } =>
                ConnOutcome::DownloadFailed {
                    username: username@,
                    filename: filename@,
                    reason: reason@,
                },
            ConnOutcome::Uploaded { username, filename } => ConnOutcome::Uploaded {
                username: username@,
                filename: filename@,
            },
            ConnOutcome::UploadFailed { username, filename, reason } => ConnOutcome::UploadFailed {
                username: username@,
                filename: filename@,
                reason: reason@,
            },
        }
    }
}

/// What is told of a finished connection: one event for each transfer, and nothing otherwise.
pub open spec fn outcome_told(o: ConnOutcome<Seq<char>>) -> Option<EventView> {
    match o {
        ConnOutcome::Done => None,
        ConnOutcome::Downloaded { username, filename, path } => Some(
            PeerEvent::DownloadComplete { username, filename, path },
        ),
        ConnOutcome::DownloadFailed { username, filename, reason } => Some(
            PeerEvent::DownloadFailed { username, filename, reason },
        ),
        ConnOutcome::Uploaded { username, filename } => Some(
            PeerEvent::UploadComplete { username, filename },
        ),
        ConnOutcome::UploadFailed { username, filename, reason } => Some(
            PeerEvent::UploadFailed { username, filename, reason },
        ),
    }
}

/// What to tell of a finished connection.
pub fn report_outcome(outcome: ConnOutcome<String>) -> (event: Option<Event>)
    ensures
        match event {
            Some(e) => outcome_told(outcome@) == Some(e@),
            None => outcome_told(outcome@) is None,
        },
{
    match outcome {
        ConnOutcome::Done => None,
        ConnOutcome::Downloaded { username, filename, path } => Some(
            PeerEvent::DownloadComplete { username, filename, path },
        ),
        ConnOutcome::DownloadFailed { username, filename, reason } => Some(
            PeerEvent::DownloadFailed { username, filename, reason },
        ),
        ConnOutcome::Uploaded { username, filename } => Some(
            PeerEvent::UploadComplete { username, filename },
        ),
        ConnOutcome::UploadFailed { username, filename, reason } => Some(
            PeerEvent::UploadFailed { username, filename, reason },
        ),
    }
}

/// What a message from a peer leads to.
pub struct Reaction {
    /// To write back on the connection.
    pub reply: Option<Reply>,
    /// To tell the rest of the program.
    pub event: Option<Event>,
    /// How the connection ends, where it does.
    pub end: Option<ConnOutcome<String>>,
}

pub struct ReactionView {
    pub reply: Option<ReplyView>,
    pub event: Option<EventView>,
    pub end: Option<ConnOutcome<Seq<char>>>,
}

impl View for Reaction {
    type V = ReactionView;

    open spec fn view(&self) -> ReactionView {
        ReactionView {
            reply: match self.reply {
                Some(r) => Some(r@),
                None => None,
            },
            event: match self.event {
                Some(e) => Some(e@),
                None => None,
            },
            end: match self.end {
                Some(o) => Some(o@),
                None => None,
            },
        }
    }
}

/// Nothing follows from a message.
pub open spec fn no_reaction() -> ReactionView {
    ReactionView { reply: None, event: None, end: None }
}

/// A message is answered, and nothing else follows.
pub open spec fn answer(reply: ReplyView) -> ReactionView {
    ReactionView { reply: Some(reply), event: None, end: None }
}

/// A message makes something known, and nothing else follows.
pub open spec fn tell(event: EventView) -> ReactionView {
    ReactionView { reply: None, event: Some(event), end: None }
}

/// A message ends the connection.
pub open spec fn finish(end: ConnOutcome<Seq<char>>) -> ReactionView {
    ReactionView { reply: None, event: None, end: Some(end) }
}

/// What the connections share, in terms of what it stands for.
pub struct HubModel {
    pub shares: SharesView,
    /// Frames that wait for a peer to collect them, by relay token.
    pub deliveries: Seq<(u32, Seq<Seq<u8>>)>,
    pub downloads: DownloadsModel,
    pub uploads: OffersModel,
    pub our_username: Seq<char>,
    pub download_dir: Seq<char>,
    pub incomplete_dir: Seq<char>,
    /// The token of the next upload that we offer.
    pub next_token: u32,
    /// The relay token of the next answer to a search.
    pub connect_token: u32,
    /// Phrases that must not occur in a file that we name.
    pub excluded_phrases: Seq<Seq<char>>,
    pub filter: SearchFilter,
    pub max_results: u32,
    /// Whether incoming searches are answered at all.
    pub respond_to_searches: bool,
    pub distrib: DistribModel,
    /// Bytes per second; 0 before the first upload.
    pub upload_speed: u32,
    pub gate: GateModel,
}

/// The description in our user info.
pub open spec fn description_of(files: nat) -> Seq<char> {
    "soulrust — "@ + decimal(files) + " file(s) shared"@
}

/// What the user info says: the waiting uploads, whatever else.
pub open spec fn user_info(m: HubModel) -> ReplyView {
    let told = slots_told(m.uploads.queue.waiting.len());
    PeerReply::UserInfo {
        description: description_of(m.shares.files.len()),
        total_uploads: told.1,
        queue_size: told.1,
        slots_available: told.0,
        upload_allowed: 1,
    }
}

/// An uploader offers a file: it is accepted if and only if we asked this very peer for it.
pub open spec fn on_offer(m: HubModel, peer: Seq<char>, token: u32, file: Seq<char>) -> (
    HubModel,
    ReactionView,
) {
    let yes = wanted(m.downloads.pending, peer, file) is Some;
    (
        HubModel { downloads: accepted(m.downloads, token, peer, file), ..m },
        answer(
            PeerReply::TransferResponse {
                token,
                allowed: yes,
                filesize: None,
                reason: if yes {
                    None
                } else {
                    Some("Cancelled"@)
                },
            },
        ),
    )
}

/// A peer asks for a file, and will connect to collect it under its own token: a shared file is
/// offered under that token, which never gives way to the bound on offers.
pub open spec fn on_download_request(
    m: HubModel,
    peer: Seq<char>,
    token: u32,
    file: Seq<char>,
) -> (HubModel, ReactionView) {
    match resolved(m.shares.files, file) {
        Some((path, size)) => (
            HubModel {
                uploads: offered(m.uploads, token, peer, file, path, size, true),
                ..m
            },
            answer(
                PeerReply::TransferResponse {
                    token,
                    allowed: true,
                    filesize: Some(size),
                    reason: None,
                },
            ),
        ),
        None => (
            m,
            answer(
                PeerReply::TransferResponse {
                    token,
                    allowed: false,
                    filesize: None,
                    reason: Some("File not shared."@),
                },
            ),
        ),
    }
}

/// A peer queues a file of ours: a shared file is offered to it under a token of ours.
pub open spec fn on_queue_upload(m: HubModel, peer: Seq<char>, file: Seq<char>) -> (
    HubModel,
    ReactionView,
) {
    match resolved(m.shares.files, file) {
        Some((path, size)) => (
            HubModel {
                next_token: wrap_add(m.next_token, 1),
                uploads: offered(m.uploads, m.next_token, peer, file, path, size, false),
                ..m
            },
            answer(PeerReply::TransferRequest { token: m.next_token, file, filesize: size }),
        ),
        None => (
            m,
            answer(PeerReply::UploadDenied { file, reason: "File not shared"@ }),
        ),
    }
}

/// A peer's verdict on an offer: an approved offer is marked and the peer's address asked for; a
/// refused one leaves registry and queue.
pub open spec fn on_verdict(m: HubModel, peer: Seq<char>, token: u32, allowed: bool) -> (
    HubModel,
    ReactionView,
) {
    match lookup(m.uploads.by_token, token) {
        Some(u) => if allowed {
            (
                HubModel {
                    uploads: OffersModel {
                        by_token: crate::tokens::put(
                            m.uploads.by_token,
                            token,
                            PendingUploadView { approved: true, ..u },
                        ),
                        ..m.uploads
                    },
                    ..m
                },
                tell(PeerEvent::ResolveUploadPeer { username: peer }),
            )
        } else {
            (HubModel { uploads: withdrawn(m.uploads, token), ..m }, no_reaction())
        },
        None => (m, no_reaction()),
    }
}

/// Whether the reason of a denial only says that the file waits in the peer's queue.
pub open spec fn only_queued(reason: Seq<char>) -> bool {
    same_ignoring_ascii_case(trim_end_of(reason, '.'), "queued"@)
}

/// Whether the reason of a denial only says that the file waits in the peer's queue: `queued`, in
/// whatever case and with whatever dots behind it.
pub fn says_queued(reason: &str) -> (r: bool)
    ensures
        r == only_queued(reason@),
{
    eq_ignore_ascii_case(trim_end_char(reason, '.'), "queued")
}

/// A peer will not send a file that we asked for: the download fails, unless the file only waits
/// in the peer's queue or was never asked for.
pub open spec fn on_refusal(
    m: HubModel,
    peer: Seq<char>,
    file: Seq<char>,
    reason: Seq<char>,
) -> (HubModel, ReactionView) {
    if wanted(m.downloads.pending, peer, file) is Some {
        (
            HubModel { downloads: dropped(m.downloads, peer, file), ..m },
            finish(ConnOutcome::DownloadFailed { username: peer, filename: file, reason }),
        )
    } else {
        (m, no_reaction())
    }
}

/// A number as it fits 32 bits.
pub open spec fn low32(n: nat) -> u32 {
    (n % 0x1_0000_0000) as u32
}

/// What a message from a peer leads to.
pub open spec fn on_peer_message(m: HubModel, peer: Seq<char>, message: PeerMessage) -> (
    HubModel,
    ReactionView,
) {
    match message {
        PeerMessage::SharedFileListRequest => (
            m,
            answer(PeerReply::ShareList { folders: share_list_of(m.shares.files) }),
        ),
        PeerMessage::UserInfoRequest => (m, answer(user_info(m))),
        PeerMessage::FolderContentsRequest { token, directory } => (
            m,
            answer(
                PeerReply::FolderContents {
                    token,
                    directory: directory@,
                    folders: seq![folder_entry(m.shares.files, directory@)],
                },
            ),
        ),
        PeerMessage::TransferRequest { direction, token, file, filesize } => match direction {
            TransferDirection::Upload => on_offer(m, peer, token, file@),
            TransferDirection::Download => on_download_request(m, peer, token, file@),
        },
        PeerMessage::QueueUpload { file } => on_queue_upload(m, peer, file@),
        PeerMessage::TransferResponse { token, allowed } => on_verdict(m, peer, token, allowed),
        PeerMessage::UploadDenied { file, reason } => if only_queued(reason@) {
            (m, no_reaction())
        } else {
            on_refusal(m, peer, file@, reason@)
        },
        PeerMessage::UploadFailed { file } => on_refusal(m, peer, file@, "upload failed"@),
        PeerMessage::PlaceInQueueRequest { file } => (
            m,
            answer(
                PeerReply::PlaceInQueueResponse {
                    filename: file@,
                    place: low32(place_of_offer(m.uploads, peer, file@)),
                },
            ),
        ),
        PeerMessage::PlaceInQueueResponse { filename, place } => (
            m,
            tell(PeerEvent::DownloadQueuePosition { username: peer, filename: filename@, place }),
        ),
        PeerMessage::FileSearchResponse(r) => if passes_filter(m.filter, r) {
            (
                m,
                tell(
                    PeerEvent::SearchResultReceived {
                        token: r.token,
                        username: r.username@,
                        free_slots: r.free_slots,
                        upload_speed: r.upload_speed,
                        in_queue: r.in_queue,
                        files: views(r.files@),
                    },
                ),
            )
        } else {
            (m, no_reaction())
        },
        PeerMessage::Other => (m, no_reaction()),
    }
}

/// The peer network: what all connections share.
pub struct PeerNet {
    pub shares: ShareIndex,
    pub deliveries: PendingDeliveries,
    pub downloads: Downloads,
    pub uploads: Uploads,
    pub our_username: String,
    pub download_dir: String,
    pub incomplete_dir: String,
    pub next_token: u32,
    pub connect_token: u32,
    pub excluded_phrases: Vec<String>,
    pub filter: SearchFilter,
    pub max_results: u32,
    pub respond_to_searches: bool,
    pub distrib: DistribState,
    pub upload_speed: u32,
    pub gate: UploadGate,
}

impl View for PeerNet {
    type V = HubModel;

    open spec fn view(&self) -> HubModel {
        HubModel {
            shares: self.shares@,
            deliveries: self.deliveries.pending(),
            downloads: self.downloads@,
            uploads: self.uploads@,
            our_username: self.our_username@,
            download_dir: self.download_dir@,
            incomplete_dir: self.incomplete_dir@,
            next_token: self.next_token,
            connect_token: self.connect_token,
            excluded_phrases: views(self.excluded_phrases@),
            filter: self.filter,
            max_results: self.max_results,
            respond_to_searches: self.respond_to_searches,
            distrib: self.distrib@,
            upload_speed: self.upload_speed,
            gate: self.gate@,
        }
    }
}

fn reply_only(reply: Reply) -> (r: Reaction)
    ensures
        r@ == answer(reply@),
{
    Reaction { reply: Some(reply), event: None, end: None }
}

fn event_only(event: Event) -> (r: Reaction)
    ensures
        r@ == tell(event@),
{
    Reaction { reply: None, event: Some(event), end: None }
}

fn nothing() -> (r: Reaction)
    ensures
        r@ == no_reaction(),
{
    Reaction { reply: None, event: None, end: None }
}

impl PeerNet {
    pub open spec fn wf(&self) -> bool {
        &&& self.shares.wf()
        &&& self.deliveries.wf()
        &&& self.downloads.wf()
        &&& self.uploads.wf()
    }

    /// The user info that we tell.
    fn user_info(&self) -> (reply: Reply)
        ensures
            reply@ == user_info(self@),
    {
        let (free, waiting) = slot_advertisement(self.uploads.queue_len());
        let mut description = "soulrust — ".to_owned();
        push_decimal(&mut description, self.shares.num_files() as u64);
        description.append(" file(s) shared");
        PeerReply::UserInfo {
            description,
            total_uploads: waiting,
            queue_size: waiting,
            slots_available: free,
            upload_allowed: 1,
        }
    }

    /// A peer asks for a file, and will connect to collect it.
    fn download_request(&mut self, peer: &str, token: u32, file: String) -> (r: Reaction)
        requires
            old(self).wf(),
        ensures
            final(self).wf(),
            (final(self)@, r@) == on_download_request(old(self)@, peer@, token, file@),
    {
        let found = match self.shares.resolve(file.as_str()) {
            Some((path, size)) => Some((path.to_owned(), size)),
            None => None,
        };
        match found {
            Some((path, size)) => {
                self.uploads.offer(token, peer, file.as_str(), path.as_str(), size, true);
                reply_only(
                    PeerReply::TransferResponse {
                        token,
                        allowed: true,
                        filesize: Some(size),
                        reason: None,
                    },
                )
            },
            None => reply_only(
                PeerReply::TransferResponse {
                    token,
                    allowed: false,
                    filesize: None,
                    reason: Some("File not shared.".to_owned()),
                },
            ),
        }
    }

    /// A peer queues a file of ours.
    fn queue_upload(&mut self, peer: &str, file: String) -> (r: Reaction)
        requires
            old(self).wf(),
        ensures
            final(self).wf(),
            (final(self)@, r@) == on_queue_upload(old(self)@, peer@, file@),
    {
        let found = match self.shares.resolve(file.as_str()) {
            Some((path, size)) => Some((path.to_owned(), size)),
            None => None,
        };
        match found {
            Some((path, size)) => {
                let token: u32 = self.next_token;
                self.next_token = self.next_token.wrapping_add(1);
                self.uploads.offer(token, peer, file.as_str(), path.as_str(), size, false);
                reply_only(PeerReply::TransferRequest { token, file, filesize: size })
            },
            None => reply_only(
                PeerReply::UploadDenied { file, reason: "File not shared".to_owned() },
            ),
        }
    }

    /// A peer will not send a file.
    fn refused(&mut self, peer: &str, file: String, reason: String) -> (r: Reaction)
        requires
            old(self).wf(),
        ensures
            final(self).wf(),
            (final(self)@, r@) == on_refusal(old(self)@, peer@, file@, reason@),
    {
        if self.downloads.wanted_size(peer, file.as_str()).is_some() {
            self.downloads.drop_pending(peer, file.as_str());
            Reaction {
                reply: None,
                event: None,
                end: Some(
                    ConnOutcome::DownloadFailed {
                        username: peer.to_owned(),
                        filename: file,
                        reason,
                    },
                ),
            }
        } else {
            nothing()
        }
    }

    /// A peer's verdict on an offer.
    fn verdict(&mut self, peer: &str, token: u32, allowed: bool) -> (r: Reaction)
        requires
            old(self).wf(),
        ensures
            final(self).wf(),
            (final(self)@, r@) == on_verdict(old(self)@, peer@, token, allowed),
    {
        if allowed {
            if self.uploads.approve(token) {
                event_only(PeerEvent::ResolveUploadPeer { username: peer.to_owned() })
            } else {
                nothing()
            }
        } else {
            self.uploads.withdraw(token);
            nothing()
        }
    }

    /// A message came from a peer on a connection for messages.
    pub fn peer_message(&mut self, peer: &str, message: PeerMessage) -> (r: Reaction)
        requires
            old(self).wf(),
        ensures
            final(self).wf(),
            (final(self)@, r@) == on_peer_message(old(self)@, peer@, message),
    {
        match message {
            PeerMessage::SharedFileListRequest => reply_only(
                PeerReply::ShareList { folders: self.shares.share_list() },
            ),
            PeerMessage::UserInfoRequest => reply_only(self.user_info()),
            PeerMessage::FolderContentsRequest { token, directory } => {
                let files = self.shares.folder(directory.as_str());
                let folders = vec![SharedFolder { path: directory.clone(), files }];
                assert(views(folders@) =~= seq![
                    folder_entry(self@.shares.files, directory@),
                ]);
                reply_only(PeerReply::FolderContents { token, directory, folders })
            },
            PeerMessage::TransferRequest { direction, token, file, filesize: _ } => {
                match direction {
                    TransferDirection::Upload => {
                        let allowed = self.downloads.accept(token, peer, file.as_str());
                        let reason = if allowed {
                            None
                        } else {
                            Some("Cancelled".to_owned())
                        };
                        reply_only(
                            PeerReply::TransferResponse { token, allowed, filesize: None, reason },
                        )
                    },
                    TransferDirection::Download => self.download_request(peer, token, file),
                }
            },
            PeerMessage::QueueUpload { file } => self.queue_upload(peer, file),
            PeerMessage::TransferResponse { token, allowed } => self.verdict(peer, token, allowed),
            PeerMessage::UploadDenied { file, reason } => {
                if says_queued(reason.as_str()) {
                    nothing()
                } else {
                    self.refused(peer, file, reason)
                }
            },
            PeerMessage::UploadFailed { file } => self.refused(
                peer,
                file,
                "upload failed".to_owned(),
            ),
            PeerMessage::PlaceInQueueRequest { file } => {
                let place: usize = self.uploads.place(peer, file.as_str());
                reply_only(
                    PeerReply::PlaceInQueueResponse {
                        filename: file,
                        place: (place as u64 % 0x1_0000_0000) as u32,
                    },
                )
            },
            PeerMessage::PlaceInQueueResponse { filename, place } => event_only(
                PeerEvent::DownloadQueuePosition { username: peer.to_owned(), filename, place },
            ),
            PeerMessage::FileSearchResponse(r) => {
                if self.filter.accepts(&r) {
                    event_only(
                        PeerEvent::SearchResultReceived {
                            token: r.token,
                            username: r.username,
                            free_slots: r.free_slots,
                            upload_speed: r.upload_speed,
                            in_queue: r.in_queue,
                            files: r.files,
                        },
                    )
                } else {
                    nothing()
                }
            },
            PeerMessage::Other => nothing(),
        }
    }
}

/// What the first message on a connection leads to.
#[derive(Debug, PartialEq)]
pub enum Opening<S, L> {
    /// A file is coming, or is collected: the transfer's token follows.
    ReceiveFile { username: S },
    /// A peer wants to be our child in the distributed tree.
    AdoptChild { username: S },
    /// The peer is served, after it got the frames that waited for it.
    Serve { peer: S, queued: L },
    /// Nothing to do here.
    Close,
}

impl View for Opening<String, Vec<Vec<u8>>> {
    type V = Opening<Seq<char>, Seq<Seq<u8>>>;

    open spec fn view(&self) -> Opening<Seq<char>, Seq<Seq<u8>>> {
        match self {
            Opening::ReceiveFile { username } => Opening::ReceiveFile { username: username@ },
            Opening::AdoptChild { username } => Opening::AdoptChild { username: username@ },
            Opening::Serve { peer, queued } => Opening::Serve {
                peer: peer@,
                queued: views(queued@),
            },
            Opening::Close => Opening::Close,
        }
    }
}

/// The name of a peer that is known by its relay token only.
pub open spec fn indirect_name(token: u32) -> Seq<char> {
    "<indirect "@ + decimal(token as nat) + ">"@
}

/// What the first message on a connection leads to. A peer that echoes a relay token collects
/// what waits under it; a token that nothing waits under is none of ours. A message that cannot
/// be read (`None`) closes the connection.
pub open spec fn on_opening(m: HubModel, first: Option<PeerInitMessage>) -> (
    HubModel,
    Opening<Seq<char>, Seq<Seq<u8>>>,
) {
    match first {
        Some(PeerInitMessage::PeerInit { username, connection_type }) => (
            m,
            match connection_type {
                ConnectionType::File => Opening::ReceiveFile { username: username@ },
                ConnectionType::Distributed => Opening::AdoptChild { username: username@ },
                ConnectionType::Peer => Opening::Serve { peer: username@, queued: Seq::empty() },
            },
        ),
        Some(PeerInitMessage::PierceFirewall { token }) => (
            HubModel { deliveries: without(m.deliveries, token), ..m },
            match lookup(m.deliveries, token) {
                Some(frames) => Opening::Serve { peer: indirect_name(token), queued: frames },
                None => Opening::Close,
            },
        ),
        None => (m, Opening::Close),
    }
}

/// What a connection for a file is for.
#[derive(Debug, PartialEq)]
pub enum FileConnection<S> {
    /// A download that we agreed on arrives, to be kept at `incomplete` until it is whole.
    Receive { username: S, filename: S, size: u64, basename: S, incomplete: S },
    /// A peer collects what we offered.
    Serve { username: S, filename: S, real_path: S, size: u64 },
    /// Neither: the connection is dropped.
    Unknown,
}

impl View for FileConnection<String> {
    type V = FileConnection<Seq<char>>;

    open spec fn view(&self) -> FileConnection<Seq<char>> {
        match self {
            FileConnection::Receive { username, filename, size, basename, incomplete } =>
                FileConnection::Receive {
                    username: username@,
                    filename: filename@,
                    size: *size,
                    basename: basename@,
                    incomplete: incomplete@,
                },
            FileConnection::Serve { username, filename, real_path, size } =>
                FileConnection::Serve {
                    username: username@,
                    filename: filename@,
                    real_path: real_path@,
                    size: *size,
                },
            FileConnection::Unknown => FileConnection::Unknown,
        }
    }
}

/// What a token on a file connection from `peer` stands for: a download that we agreed on with
/// this peer, or else a file that we offered to this peer. Tokens that belong to other peers stay
/// untouched.
pub open spec fn on_file_connection(m: HubModel, peer: Seq<char>, token: u32) -> (
    HubModel,
    FileConnection<Seq<char>>,
) {
    match deliverable(m.downloads, token, peer) {
        Some(d) => (
            HubModel {
                downloads: DownloadsModel {
                    by_token: without(m.downloads.by_token, token),
                    ..m.downloads
                },
                ..m
            },
            FileConnection::Receive {
                username: d.username,
                filename: d.filename,
                size: d.size,
                basename: basename_on_disk(d.filename),
                incomplete: joined(
                    m.incomplete_dir,
                    incomplete_name_of(d.username, d.filename, basename_on_disk(d.filename)),
                ),
            },
        ),
        None => match lookup(m.uploads.by_token, token) {
            Some(u) if u.username == peer => (
                HubModel { uploads: withdrawn(m.uploads, token), ..m },
                FileConnection::Serve {
                    username: u.username,
                    filename: u.filename,
                    real_path: u.real_path,
                    size: u.size,
                },
            ),
            _ => (m, FileConnection::Unknown),
        },
    }
}

/// The waiting uploads that start now, first come first served, as far as there are slots.
pub open spec fn pumped(g: GateModel) -> (GateModel, Seq<UploadJobView>)
    decreases g.waiting.len(),
{
    match claimed(g) {
        (after, Some(job)) => if after.waiting.len() < g.waiting.len() {
            let rest = pumped(after);
            (rest.0, seq![job] + rest.1)
        } else {
            (g, Seq::empty())
        },
        (_, None) => (g, Seq::empty()),
    }
}

/// What is told as uploads start.
pub open spec fn starts_told(jobs: Seq<UploadJobView>) -> Seq<EventView> {
    jobs.map_values(
        |job: UploadJobView|
            EventView::UploadStarted {
                username: job.peer,
                filename: job.filename,
                size: job.size,
            },
    )
}

/// Whether an address says that the peer is not to be reached.
pub open spec fn offline(ip: Seq<char>, port: u16) -> bool {
    ip == "0.0.0.0"@ || port == 0
}

/// The ready uploads of a peer, for its address.
pub open spec fn jobs_for(
    ready: Seq<(u32, PendingUploadView)>,
    peer: Seq<char>,
    ip: Seq<char>,
    port: u16,
) -> Seq<UploadJobView> {
    ready.map_values(
        |e: (u32, PendingUploadView)|
            UploadJobView {
                ip,
                port,
                token: e.0,
                peer,
                filename: e.1.filename,
                real_path: e.1.real_path,
                size: e.1.size,
            },
    )
}

/// What is told of the ready uploads of a peer that is not to be reached.
pub open spec fn unreachable_told(ready: Seq<(u32, PendingUploadView)>, peer: Seq<char>) -> Seq<
    EventView,
> {
    ready.map_values(
        |e: (u32, PendingUploadView)|
            EventView::UploadFailed {
                username: peer,
                filename: e.1.filename,
                reason: "peer is offline or not reachable"@,
            },
    )
}

/// Uploads that start, and what is told.
pub struct Started {
    pub events: Vec<Event>,
    pub jobs: Vec<UploadJob>,
}

pub struct StartedView {
    pub events: Seq<EventView>,
    pub jobs: Seq<UploadJobView>,
}

impl View for Started {
    type V = StartedView;

    open spec fn view(&self) -> StartedView {
        StartedView { events: views(self.events@), jobs: views(self.jobs@) }
    }
}

/// Waiting uploads start, after `told` was told.
pub open spec fn on_pump(m: HubModel, told: Seq<EventView>) -> (HubModel, StartedView) {
    let after = pumped(m.gate);
    (
        HubModel { gate: after.0, ..m },
        StartedView { events: told + starts_told(after.1), jobs: after.1 },
    )
}

/// The address of a peer is known: all that it approved leaves the registry and gets in line for
/// a slot, or fails where the peer is not to be reached.
pub open spec fn on_upload_connect(m: HubModel, peer: Seq<char>, ip: Seq<char>, port: u16) -> (
    HubModel,
    StartedView,
) {
    let ready = m.uploads.by_token.filter(approved_for(peer));
    let uploads = all_withdrawn(m.uploads, ready);
    if offline(ip, port) {
        on_pump(HubModel { uploads, ..m }, unreachable_told(ready, peer))
    } else {
        on_pump(
            HubModel {
                uploads,
                gate: GateModel {
                    waiting: m.gate.waiting + jobs_for(ready, peer, ip, port),
                    ..m.gate
                },
                ..m
            },
            Seq::empty(),
        )
    }
}

/// Uploads shorter than this say nothing of our speed: setting them up takes most of their time.
pub const SPEED_SAMPLE_BYTES: u64 = 64 * 1024;

/// Our upload speed after an upload of `sent` bytes, which took `rate` bytes per second where it
/// took any time.
pub open spec fn speed_after(speed: u32, sent: u64, rate: Option<u32>) -> u32 {
    match rate {
        Some(r) if sent >= SPEED_SAMPLE_BYTES => crate::transfer_io::averaged(speed, r),
        _ => speed,
    }
}

/// An upload ended: it is told, its slot is free again, and waiting uploads start.
pub open spec fn on_upload_done(
    m: HubModel,
    peer: Seq<char>,
    filename: Seq<char>,
    failure: Option<Seq<char>>,
    sent: u64,
    rate: Option<u32>,
) -> (HubModel, StartedView) {
    let gate = GateModel { active: wrap_add(m.gate.active, -1), ..m.gate };
    match failure {
        Some(reason) => on_pump(
            HubModel { gate, ..m },
            seq![EventView::UploadFailed { username: peer, filename, reason }],
        ),
        None => on_pump(
            HubModel { gate, upload_speed: speed_after(m.upload_speed, sent, rate), ..m },
            seq![EventView::UploadComplete { username: peer, filename }],
        ),
    }
}

/// Our answer to a search, and how the searcher is asked to come for it.
pub struct SearchAnswer {
    /// The relay token under which the answer is to wait.
    pub relay_token: u32,
    /// The user name in the answer: ours.
    pub username: String,
    /// The searcher's token.
    pub token: u32,
    pub files: Vec<SharedFile>,
    pub free_slots: bool,
    pub upload_speed: u32,
    pub in_queue: u32,
    /// For the server: asks the searcher to connect to us.
    pub request: ServerRequest<String>,
}

/// Whether `a` is the answer to a search that names `files`.
pub open spec fn search_answer(
    m: HubModel,
    searcher: Seq<char>,
    token: u32,
    files: Seq<SharedFileView>,
    a: SearchAnswer,
) -> bool {
    &&& a.relay_token == m.connect_token
    &&& a.username@ == m.our_username
    &&& a.token == token
    &&& views(a.files@) == files
    &&& (a.free_slots, a.in_queue) == slots_told(m.uploads.queue.waiting.len())
    &&& a.upload_speed == m.upload_speed
    &&& a.request@ == (ServerRequest::ConnectToPeer {
        token: m.connect_token,
        username: searcher,
        connection_type: ConnectionType::Peer,
    })
}

/// What the settings change while the program runs.
pub open spec fn reconfigured(m: HubModel, c: ConfigView, home: Seq<char>) -> HubModel {
    HubModel {
        filter: filter_of(c),
        max_results: c.sharing.max_search_results,
        respond_to_searches: c.sharing.respond_to_searches,
        download_dir: download_path_of(c.sharing, home),
        incomplete_dir: incomplete_path_of(c.sharing, home),
        ..m
    }
}

/// The peer network at the start: nothing shared, asked for or offered yet.
pub open spec fn fresh(c: ConfigView, home: Seq<char>) -> HubModel {
    HubModel {
        shares: SharesView { files: Seq::empty(), words: Seq::empty() },
        deliveries: Seq::empty(),
        downloads: DownloadsModel { pending: Seq::empty(), by_token: Seq::empty() },
        uploads: OffersModel {
            by_token: Seq::empty(),
            queue: crate::peer_net::uploads::QueueModel { waiting: Seq::empty(), next_id: 0 },
        },
        our_username: c.server.username,
        download_dir: download_path_of(c.sharing, home),
        incomplete_dir: incomplete_path_of(c.sharing, home),
        next_token: 1,
        connect_token: 1,
        excluded_phrases: Seq::empty(),
        filter: filter_of(c),
        max_results: c.sharing.max_search_results,
        respond_to_searches: c.sharing.respond_to_searches,
        distrib: DistribModel {
            level: 0,
            root: c.server.username,
            children: Seq::empty(),
            next_child: 0,
            attached: false,
            min_speed: 0,
            ratio: 0,
        },
        upload_speed: 0,
        gate: GateModel {
            active: 0,
            waiting: Seq::empty(),
            slots: c.sharing.upload_slots as usize,
        },
    }
}

fn filter_from(config: &Config) -> (filter: SearchFilter)
    ensures
        filter == filter_of(config@),
{
    SearchFilter {
        min_files: config.sharing.min_result_files,
        min_upload_speed: config.sharing.min_peer_upload_speed,
        max_queue_length: config.sharing.max_peer_queue_length,
    }
}

impl PeerNet {
    /// The peer network at the start; `home` is the user's home directory.
    pub fn new(ctx: &AppContext, home: &str) -> (r: PeerNet)
        ensures
            r.wf(),
            r@ == fresh(ctx.config@, home@),
    {
        let config = &ctx.config;
        let r = PeerNet {
            shares: ShareIndex::new(),
            deliveries: PendingDeliveries::new(),
            downloads: Downloads::new(),
            uploads: Uploads::new(),
            our_username: config.server.username.clone(),
            download_dir: config.sharing.download_path(home),
            incomplete_dir: config.sharing.incomplete_path(home),
            next_token: 1,
            connect_token: 1,
            excluded_phrases: Vec::new(),
            filter: filter_from(config),
            max_results: config.sharing.max_search_results,
            respond_to_searches: config.sharing.respond_to_searches,
            distrib: DistribState::new(config.server.username.as_str()),
            upload_speed: 0,
            gate: UploadGate::new(config.sharing.upload_slots as usize),
        };
        assert(r@.excluded_phrases =~= Seq::<Seq<char>>::empty());
        r
    }

    /// The settings changed.
    pub fn config_changed(&mut self, config: &Config, home: &str)
        requires
            old(self).wf(),
        ensures
            final(self).wf(),
            final(self)@ == reconfigured(old(self)@, config@, home@),
    {
        self.filter = filter_from(config);
        self.max_results = config.sharing.max_search_results;
        self.respond_to_searches = config.sharing.respond_to_searches;
        self.download_dir = config.sharing.download_path(home);
        self.incomplete_dir = config.sharing.incomplete_path(home);
    }

    /// The first message on a connection came, or could not be read.
    pub fn open_connection(&mut self, first: Option<PeerInitMessage>) -> (r: Opening<
        String,
        Vec<Vec<u8>>,
    >)
        requires
            old(self).wf(),
        ensures
            final(self).wf(),
            (final(self)@, r@) == on_opening(old(self)@, first),
    {
        match first {
            Some(PeerInitMessage::PeerInit { username, connection_type }) => {
                match connection_type {
                    ConnectionType::File => Opening::ReceiveFile { username },
                    ConnectionType::Distributed => Opening::AdoptChild { username },
                    ConnectionType::Peer => {
                        let queued: Vec<Vec<u8>> = Vec::new();
                        assert(views(queued@) =~= Seq::<Seq<u8>>::empty());
                        Opening::Serve { peer: username, queued }
                    },
                }
            },
            Some(PeerInitMessage::PierceFirewall { token }) => {
                match self.deliveries.take(token) {
                    Some(queued) => {
                        let mut peer = "<indirect ".to_owned();
                        push_decimal(&mut peer, token as u64);
                        peer.append(">");
                        Opening::Serve { peer, queued }
                    },
                    None => Opening::Close,
                }
            },
            None => Opening::Close,
        }
    }

    /// A token came on a file connection from a peer.
    pub fn file_connection(&mut self, peer: &str, token: u32) -> (r: FileConnection<String>)
        requires
            old(self).wf(),
        ensures
            final(self).wf(),
            (final(self)@, r@) == on_file_connection(old(self)@, peer@, token),
    {
        match self.downloads.deliver(token, peer) {
            Some(d) => {
                let basename = download_basename(d.filename.as_str());
                let name = incomplete_name(
                    d.username.as_str(),
                    d.filename.as_str(),
                    basename.as_str(),
                );
                let incomplete = join_path(self.incomplete_dir.as_str(), name.as_str());
                FileConnection::Receive {
                    username: d.username,
                    filename: d.filename,
                    size: d.size,
                    basename,
                    incomplete,
                }
            },
            None => {
                let ours = match self.uploads.get(token) {
                    Some(u) => same(u.username.as_str(), peer),
                    None => false,
                };
                if ours {
                    match self.uploads.withdraw(token) {
                        Some(u) => FileConnection::Serve {
                            username: u.username,
                            filename: u.filename,
                            real_path: u.real_path,
                            size: u.size,
                        },
                        None => FileConnection::Unknown,
                    }
                } else {
                    FileConnection::Unknown
                }
            },
        }
    }

    /// Starts the waiting uploads that there are slots for, after `told`.
    fn pump_after(&mut self, told: Vec<Event>) -> (r: Started)
        requires
            old(self).wf(),
        ensures
            final(self).wf(),
            (final(self)@, r@) == on_pump(old(self)@, views(told@)),
    {
        let ghost m = self@;
        let ghost first = views(told@);
        let ghost all = pumped(m.gate);
        let mut events = told;
        let mut jobs: Vec<UploadJob> = Vec::new();
        proof {
            assert(views(jobs@) + all.1 =~= all.1);
            assert(first + starts_told(views(jobs@)) =~= first);
        }
        let mut more = true;
        while more
            invariant
                self.wf(),
                self@ == (HubModel { gate: self.gate@, ..m }),
                all == (pumped(self.gate@).0, views(jobs@) + pumped(self.gate@).1),
                views(events@) == first + starts_told(views(jobs@)),
                !more ==> pumped(self.gate@).1.len() == 0 && pumped(self.gate@).0 == self.gate@,
            decreases self.gate@.waiting.len() + (if more {
                    1int
                } else {
                    0
                }),
        {
            let ghost g = self.gate@;
            let ghost had = views(jobs@);
            match self.gate.try_claim() {
                Some(job) => {
                    let event: Event = PeerEvent::UploadStarted {
                        username: job.peer.clone(),
                        filename: job.filename.clone(),
                        size: job.size,
                    };
                    events.push(event);
                    jobs.push(job);
                    proof {
                        assert(views(jobs@) + pumped(self.gate@).1 =~= had + (seq![job@]
                            + pumped(self.gate@).1));
                        assert(starts_told(views(jobs@)) =~= starts_told(had).push(event@));
                        assert(first + starts_told(views(jobs@)) =~= (first + starts_told(
                            had,
                        )).push(event@));
                    }
                },
                None => {
                    more = false;
                },
            }
        }
        assert(views(jobs@) + pumped(self.gate@).1 =~= views(jobs@));
        Started { events, jobs }
    }

    /// Starts the waiting uploads that there are slots for.
    pub fn pump_uploads(&mut self) -> (r: Started)
        requires
            old(self).wf(),
        ensures
            final(self).wf(),
            (final(self)@, r@) == on_pump(old(self)@, Seq::empty()),
    {
        let told: Vec<Event> = Vec::new();
        assert(views(told@) =~= Seq::<EventView>::empty());
        self.pump_after(told)
    }

    /// The address of a peer that approved uploads is known.
    pub fn upload_connect(&mut self, peer: &str, ip: &str, port: u16) -> (r: Started)
        requires
            old(self).wf(),
        ensures
            final(self).wf(),
            (final(self)@, r@) == on_upload_connect(old(self)@, peer@, ip@, port),
    {
        let ghost m = self@;
        let ready = self.uploads.take_approved(peer);
        let ghost all = views(ready@);
        let away = same(ip, "0.0.0.0") || port == 0;
        let mut told: Vec<Event> = Vec::new();
        let mut i: usize = 0;
        let ghost uploads = self.uploads@;
        proof {
            assert(views(told@) =~= unreachable_told(all.take(0), peer@));
            assert(m.gate.waiting + jobs_for(all.take(0), peer@, ip@, port) =~= m.gate.waiting);
        }
        while i < ready.len()
            invariant
                i <= ready@.len(),
                all == views(ready@),
                self.wf(),
                away == offline(ip@, port),
                self@ == (HubModel { gate: self.gate@, uploads, ..m }),
                away ==> self.gate@ == m.gate && views(told@) == unreachable_told(
                    all.take(i as int),
                    peer@,
                ),
                !away ==> told@.len() == 0 && self.gate@ == (GateModel {
                    waiting: m.gate.waiting + jobs_for(all.take(i as int), peer@, ip@, port),
                    ..m.gate
                }),
            decreases ready@.len() - i,
        {
            let (token, upload) = &ready[i];
            assert(all[i as int] == (*token, upload@));
            assert(all.take(i as int + 1) =~= all.take(i as int).push(all[i as int]));
            if away {
                let event: Event = PeerEvent::UploadFailed {
                    username: peer.to_owned(),
                    filename: upload.filename.clone(),
                    reason: "peer is offline or not reachable".to_owned(),
                };
                told.push(event);
                assert(unreachable_told(all.take(i as int + 1), peer@) =~= unreachable_told(
                    all.take(i as int),
                    peer@,
                ).push(event@));
            } else {
                let job = UploadJob {
                    ip: ip.to_owned(),
                    port,
                    token: *token,
                    peer: peer.to_owned(),
                    filename: upload.filename.clone(),
                    real_path: upload.real_path.clone(),
                    size: upload.size,
                };
                assert(m.gate.waiting + jobs_for(all.take(i as int + 1), peer@, ip@, port)
                    =~= (m.gate.waiting + jobs_for(all.take(i as int), peer@, ip@, port)).push(
                    job@,
                ));
                self.gate.push_back(job);
            }
            i += 1;
        }
        assert(all.take(i as int) =~= all);
        assert(!away ==> views(told@) =~= Seq::<EventView>::empty());
        self.pump_after(told)
    }

    /// An upload ended, in full or with a reason why not.
    pub fn upload_done(
        &mut self,
        peer: &str,
        filename: &str,
        failure: Option<String>,
        sent: u64,
        rate: Option<u32>,
    ) -> (r: Started)
        requires
            old(self).wf(),
        ensures
            final(self).wf(),
            (final(self)@, r@) == on_upload_done(
                old(self)@,
                peer@,
                filename@,
                crate::text::ov(failure),
                sent,
                rate,
            ),
    {
        let username = peer.to_owned();
        let filename = filename.to_owned();
        let ghost failed = crate::text::ov(failure);
        let ghost name = filename@;
        let event: Event = match failure {
            Some(reason) => PeerEvent::UploadFailed { username, filename, reason },
            None => {
                if let Some(sample) = rate {
                    if sent >= SPEED_SAMPLE_BYTES {
                        self.upload_speed = crate::transfer_io::record_upload_speed(
                            self.upload_speed,
                            sample,
                        );
                    }
                }
                PeerEvent::UploadComplete { username, filename }
            },
        };
        self.gate.release();
        let mut told: Vec<Event> = Vec::new();
        told.push(event);
        assert(views(told@) =~= seq![event@]);
        self.pump_after(told)
    }

    /// A search came in. Every search takes a relay token, whether it is answered or not. None is
    /// answered where the settings say so, nor one that nothing of ours matches.
    pub fn incoming_search(&mut self, searcher: &str, token: u32, query: &str) -> (r: Option<
        SearchAnswer,
    >)
        requires
            old(self).wf(),
        ensures
            final(self).wf(),
            final(self)@ == (HubModel {
                connect_token: wrap_add(old(self)@.connect_token, 1),
                ..old(self)@
            }),
            !old(self)@.respond_to_searches ==> r is None,
            old(self)@.respond_to_searches ==> exists|files: Seq<SharedFileView>| #[trigger]
                answered(
                    old(self)@.shares,
                    query@,
                    old(self)@.max_results as int,
                    old(self)@.excluded_phrases,
                    files,
                ) && match r {
                    Some(a) => files.len() > 0 && search_answer(
                        old(self)@,
                        searcher@,
                        token,
                        files,
                        a,
                    ),
                    None => files.len() == 0,
                },
    {
        let ghost m = self@;
        let relay_token: u32 = self.connect_token;
        self.connect_token = self.connect_token.wrapping_add(1);
        if !self.respond_to_searches {
            return None;
        }
        let files = respond(
            query,
            self.max_results as usize,
            &self.excluded_phrases,
            &self.shares,
        );
        assert(answered(
            m.shares,
            query@,
            m.max_results as int,
            m.excluded_phrases,
            views(files@),
        ));
        if files.len() == 0 {
            return None;
        }
        let (free_slots, in_queue) = slot_advertisement(self.uploads.queue_len());
        let request = ServerRequest::ConnectToPeer {
            token: relay_token,
            username: searcher.to_owned(),
            connection_type: ConnectionType::Peer,
        };
        let a = SearchAnswer {
            relay_token,
            username: self.our_username.clone(),
            token,
            files,
            free_slots,
            upload_speed: self.upload_speed,
            in_queue,
            request,
        };
        assert(search_answer(m, searcher@, token, views(a.files@), a));
        Some(a)
    }
}

/// What an offer says of the file's size is of no account.
pub proof fn law_the_offered_size_is_ignored(
    m: HubModel,
    peer: Seq<char>,
    direction: TransferDirection,
    token: u32,
    file: String,
    a: Option<u64>,
    b: Option<u64>,
)
    ensures
        on_peer_message(
            m,
            peer,
            PeerMessage::TransferRequest { direction, token, file, filesize: a },
        ) == on_peer_message(
            m,
            peer,
            PeerMessage::TransferRequest { direction, token, file, filesize: b },
        ),
{
}

/// A file that we do not share is never offered, whichever way a peer asks for it, and asking
/// changes nothing.
pub proof fn law_unshared_files_are_denied(
    m: HubModel,
    peer: Seq<char>,
    token: u32,
    file: Seq<char>,
)
    requires
        resolved(m.shares.files, file) is None,
    ensures
        on_queue_upload(m, peer, file) == (
            m,
            answer(PeerReply::UploadDenied { file, reason: "File not shared"@ }),
        ),
        on_download_request(m, peer, token, file).0 == m,
        on_download_request(m, peer, token, file).1.reply matches Some(
            PeerReply::TransferResponse { allowed, .. },
        ) && !allowed,
{
}

/// Whether the registries of transfers are ordered by token, and within their bound.
pub open spec fn transfers_bounded(m: HubModel) -> bool {
    &&& ascending(m.uploads.by_token)
    &&& m.uploads.by_token.len() <= MAX_PENDING_TRANSFERS
    &&& ascending(m.downloads.by_token)
    &&& m.downloads.by_token.len() <= MAX_PENDING_TRANSFERS
}

/// Whatever peers ask for, queue, offer or approve, under whichever tokens, the registries of
/// transfers stay bounded.
pub proof fn law_transfers_stay_bounded(m: HubModel, peer: Seq<char>, message: PeerMessage)
    requires
        transfers_bounded(m),
    ensures
        transfers_bounded(on_peer_message(m, peer, message).0),
{
    match message {
        PeerMessage::TransferRequest { direction, token, file, filesize } => match direction {
            TransferDirection::Upload => {
                law_agreed_downloads_stay_bounded(m.downloads, token, peer, file@);
            },
            TransferDirection::Download => {
                if let Some((path, size)) = resolved(m.shares.files, file@) {
                    law_offers_are_bounded(m.uploads, token, peer, file@, path, size, true);
                }
            },
        },
        PeerMessage::QueueUpload { file } => {
            if let Some((path, size)) = resolved(m.shares.files, file@) {
                law_offers_are_bounded(
                    m.uploads,
                    m.next_token,
                    peer,
                    file@,
                    path,
                    size,
                    false,
                );
            }
        },
        PeerMessage::TransferResponse { token, allowed } => {
            if let Some(u) = lookup(m.uploads.by_token, token) {
                crate::tokens::lemma_order_kept(
                    m.uploads.by_token,
                    token,
                    PendingUploadView { approved: true, ..u },
                );
            }
        },
        _ => {},
    }
}

/// A file that a peer asks for under its own token waits for it there, however many offers there
/// are and whatever the token.
pub proof fn law_a_requested_file_waits(m: HubModel, peer: Seq<char>, token: u32, file: Seq<char>)
    requires
        transfers_bounded(m),
        deliverable(m.downloads, token, peer) is None,
    ensures
        resolved(m.shares.files, file) matches Some((path, size)) ==> on_file_connection(
            on_download_request(m, peer, token, file).0,
            peer,
            token,
        ).1 == (FileConnection::Serve { username: peer, filename: file, real_path: path, size }),
{
    if let Some((path, size)) = resolved(m.shares.files, file) {
        law_offers_are_bounded(m.uploads, token, peer, file, path, size, true);
    }
}

/// No peer can take what belongs to another: a token on a file connection that was agreed with,
/// or offered to, someone else changes nothing.
pub proof fn law_file_tokens_are_personal(m: HubModel, peer: Seq<char>, token: u32)
    requires
        lookup(m.downloads.by_token, token) matches Some(d) ==> d.username != peer,
        lookup(m.uploads.by_token, token) matches Some(u) ==> u.username != peer,
    ensures
        on_file_connection(m, peer, token) == (m, FileConnection::<Seq<char>>::Unknown),
{
}

/// What waits under a relay token is collected by whoever echoes the token, once.
pub proof fn law_deliveries_are_collected_once(m: HubModel, token: u32)
    requires
        ascending(m.deliveries),
    ensures
        on_opening(
            on_opening(m, Some(PeerInitMessage::PierceFirewall { token })).0,
            Some(PeerInitMessage::PierceFirewall { token }),
        ).1 == Opening::<Seq<char>, Seq<Seq<u8>>>::Close,
{
    crate::tokens::lemma_removed_is_gone(m.deliveries, token);
}

/// Waiting uploads start from the first on and none is lost: those that start and those that still
/// wait are those that waited, in their order. Each that starts takes a slot, and waiting goes on
/// only where all slots are taken.
pub proof fn law_uploads_start_in_line(g: GateModel)
    requires
        g.active + g.waiting.len() <= u32::MAX,
    ensures
        pumped(g).1 + pumped(g).0.waiting == g.waiting,
        pumped(g).0.active == g.active + pumped(g).1.len(),
        pumped(g).0.slots == g.slots,
        pumped(g).0.waiting.len() > 0 ==> g.slots > 0 && pumped(g).0.active >= g.slots,
        g.slots > 0 && pumped(g).1.len() > 0 ==> pumped(g).0.active <= g.slots,
    decreases g.waiting.len(),
{
    let (after, first) = claimed(g);
    match first {
        Some(job) => {
            law_uploads_start_in_line(after);
            let rest = pumped(after);
            assert(pumped(g).1 + pumped(g).0.waiting =~= seq![job] + (rest.1 + rest.0.waiting));
            assert(seq![g.waiting[0]] + g.waiting.skip(1) =~= g.waiting);
        },
        None => {
            assert(pumped(g).1 + pumped(g).0.waiting =~= g.waiting);
        },
    }
}

/// Once a peer's address is known, the uploads that this very peer approved get in line behind
/// those that wait, each with its own token, file and size and for this address, and uploads start
/// from the first in line; every start is told. Other peers' offers stay as they are.
pub proof fn law_an_address_starts_the_peers_own_uploads(
    m: HubModel,
    peer: Seq<char>,
    ip: Seq<char>,
    port: u16,
    token: u32,
)
    requires
        ascending(m.uploads.by_token),
        ip != "0.0.0.0"@,
        port != 0,
        m.gate.active + m.gate.waiting.len() + m.uploads.by_token.len() <= u32::MAX,
    ensures
        ({
            let (after, started) = on_upload_connect(m, peer, ip, port);
            let own = m.uploads.by_token.filter(
                |e: (u32, PendingUploadView)| e.1.username == peer && e.1.approved,
            );
            let line = started.jobs + after.gate.waiting;
            let n = m.gate.waiting.len() as int;
            &&& line.len() == n + own.len()
            &&& line.take(n) == m.gate.waiting
            &&& forall|i: int|
                0 <= i < own.len() ==> {
                    let job = #[trigger] line[n + i];
                    &&& job.ip == ip && job.port == port && job.peer == peer
                    &&& job.token == own[i].0 && job.filename == own[i].1.filename
                    &&& job.real_path == own[i].1.real_path && job.size == own[i].1.size
                }
            &&& started.events.len() == started.jobs.len()
            &&& forall|i: int|
                0 <= i < started.jobs.len() ==> #[trigger] started.events[i] == (
                EventView::UploadStarted {
                    username: started.jobs[i].peer,
                    filename: started.jobs[i].filename,
                    size: started.jobs[i].size,
                })
            &&& lookup(after.uploads.by_token, token) == (match lookup(m.uploads.by_token, token) {
                Some(u) => if u.username == peer && u.approved {
                    None
                } else {
                    Some(u)
                },
                None => None,
            })
            &&& after.downloads == m.downloads && after.shares == m.shares && after.deliveries
                == m.deliveries
        }),
{
    let p = |e: (u32, PendingUploadView)| e.1.username == peer && e.1.approved;
    assert(approved_for(peer) =~= p);
    let own = m.uploads.by_token.filter(p);
    law_only_what_the_user_approved_is_taken(m.uploads, peer);
    crate::sequences::lemma_filter_rank(m.uploads.by_token, p, m.uploads.by_token.len() as int);
    crate::sequences::lemma_count_bound(m.uploads.by_token, p, m.uploads.by_token.len() as int);
    let g = GateModel { waiting: m.gate.waiting + jobs_for(own, peer, ip, port), ..m.gate };
    law_uploads_start_in_line(g);
    let (after, started) = on_upload_connect(m, peer, ip, port);
    let line = started.jobs + after.gate.waiting;
    assert(line =~= g.waiting);
    assert(line.take(m.gate.waiting.len() as int) =~= m.gate.waiting);
}

/// The uploads of a peer that is away fail, each by its own name, and leave registry and queue.
pub proof fn law_uploads_to_an_absent_peer_fail(m: HubModel, peer: Seq<char>, ip: Seq<char>, port: u16)
    requires
        ip == "0.0.0.0"@ || port == 0,
    ensures
        ({
            let (after, started) = on_upload_connect(m, peer, ip, port);
            let own = m.uploads.by_token.filter(
                |e: (u32, PendingUploadView)| e.1.username == peer && e.1.approved,
            );
            &&& started.events.len() == own.len() + started.jobs.len()
            &&& forall|i: int|
                0 <= i < own.len() ==> ((#[trigger] started.events[i]) matches PeerEvent::UploadFailed {
                    username,
                    filename,
                    ..
                } && username == peer && filename == own[i].1.filename)
        }),
{
    let p = |e: (u32, PendingUploadView)| e.1.username == peer && e.1.approved;
    assert(approved_for(peer) =~= p);
}

/// A finished upload is told once, as done or with its reason, and gives its slot to the first that
/// waits.
pub proof fn law_a_finished_upload_frees_its_slot(
    m: HubModel,
    peer: Seq<char>,
    filename: Seq<char>,
    failure: Option<Seq<char>>,
    sent: u64,
    rate: Option<u32>,
)
    requires
        m.gate.active > 0,
        m.gate.active + m.gate.waiting.len() <= u32::MAX,
    ensures
        ({
            let (after, started) = on_upload_done(m, peer, filename, failure, sent, rate);
            &&& started.events.len() == 1 + started.jobs.len()
            &&& started.events[0] == (match failure {
                Some(reason) => EventView::UploadFailed { username: peer, filename, reason },
                None => EventView::UploadComplete { username: peer, filename },
            })
            &&& after.gate.active == m.gate.active - 1 + started.jobs.len()
            &&& started.jobs + after.gate.waiting == m.gate.waiting
            &&& m.gate.slots > 0 && m.gate.active <= m.gate.slots && m.gate.waiting.len() > 0
                ==> started.jobs.len() > 0 && started.jobs[0] == m.gate.waiting[0]
            &&& failure is Some ==> after.upload_speed == m.upload_speed
            &&& after.uploads == m.uploads && after.downloads == m.downloads
        }),
{
    let gate = GateModel { active: (m.gate.active - 1) as u32, ..m.gate };
    assert(wrap_add(m.gate.active, -1) == gate.active);
    law_uploads_start_in_line(gate);
    let (after, started) = on_upload_done(m, peer, filename, failure, sent, rate);
    if m.gate.slots > 0 && m.gate.active <= m.gate.slots && m.gate.waiting.len() > 0 {
        assert(started.jobs.len() > 0);
        assert((started.jobs + after.gate.waiting)[0] == started.jobs[0]);
    }
}

/// A file that a peer queues is offered to it under a new token; once the peer approves, its
/// address starts the upload of that very file.
pub proof fn law_a_queued_file_reaches_its_peer(m: HubModel, peer: Seq<char>, file: Seq<char>)
    requires
        transfers_bounded(m),
        m.uploads.by_token.len() < MAX_PENDING_TRANSFERS,
        m.next_token < u32::MAX,
    ensures
        resolved(m.shares.files, file) matches Some((path, size)) ==> ({
            let (offered, r) = on_queue_upload(m, peer, file);
            let (approved, v) = on_verdict(offered, peer, m.next_token, true);
            &&& r.reply == Some(
                ReplyView::TransferRequest { token: m.next_token, file, filesize: size },
            )
            &&& r.event is None && r.end is None
            &&& offered.next_token == m.next_token + 1
            &&& v.event == Some(EventView::ResolveUploadPeer { username: peer })
            &&& lookup(approved.uploads.by_token, m.next_token) matches Some(u) && u.username
                == peer && u.filename == file && u.real_path == path && u.size == size
                && u.approved
            &&& offered.downloads == m.downloads && approved.downloads == m.downloads
        }),
{
    if let Some((path, size)) = resolved(m.shares.files, file) {
        let u = PendingUploadView {
            username: peer,
            filename: file,
            real_path: path,
            size,
            approved: false,
            transfer_id: m.uploads.queue.next_id,
        };
        let s = m.uploads.by_token;
        crate::tokens::lemma_put_is_found(s, m.next_token, u);
        crate::tokens::lemma_order_kept(s, m.next_token, u);
        let offered = on_queue_upload(m, peer, file).0;
        assert(offered.uploads.by_token == crate::tokens::put(s, m.next_token, u));
        crate::tokens::lemma_put_is_found(
            offered.uploads.by_token,
            m.next_token,
            PendingUploadView { approved: true, ..u },
        );
    }
}

/// A refused offer is forgotten, and a verdict touches no other offer.
pub proof fn law_a_verdict_is_on_one_offer(
    m: HubModel,
    peer: Seq<char>,
    token: u32,
    allowed: bool,
    other: u32,
)
    requires
        ascending(m.uploads.by_token),
    ensures
        ({
            let (after, r) = on_verdict(m, peer, token, allowed);
            &&& other != token ==> lookup(after.uploads.by_token, other) == lookup(
                m.uploads.by_token,
                other,
            )
            &&& !allowed ==> lookup(after.uploads.by_token, token) is None && r.event is None
            &&& r.reply is None && r.end is None
            &&& after.downloads == m.downloads
        }),
{
    crate::peer_net::uploads::law_a_withdrawn_offer_is_gone(m.uploads, token, other, 0);
    if let Some(u) = lookup(m.uploads.by_token, token) {
        if other != token {
            crate::tokens::law_registry_reads_back(
                m.uploads.by_token,
                token,
                PendingUploadView { approved: true, ..u },
                other,
            );
        }
    }
}

/// An offer is accepted if and only if this file was asked for of this very peer, and then the
/// peer can deliver it under the token, at the size that was asked for, to a place of its own among
/// the unfinished downloads; otherwise nothing changes.
pub proof fn law_an_offer_is_accepted_where_it_was_asked_for(
    m: HubModel,
    peer: Seq<char>,
    token: u32,
    file: Seq<char>,
)
    requires
        transfers_bounded(m),
    ensures
        ({
            let (after, r) = on_offer(m, peer, token, file);
            let asked = exists|k: int|
                0 <= k < m.downloads.pending.len() && (
                #[trigger] m.downloads.pending[k]).username == peer && m.downloads.pending[k].filename
                    == file;
            &&& r.event is None && r.end is None
            &&& r.reply matches Some(PeerReply::TransferResponse { token: t, allowed, filesize, .. })
                && t == token && allowed == asked && filesize is None
            &&& !asked ==> after == m
            &&& asked ==> (on_file_connection(after, peer, token).1 matches FileConnection::Receive {
                username,
                filename,
                size,
                basename,
                incomplete,
            } && username == peer && filename == file && Some(size) == wanted(
                m.downloads.pending,
                peer,
                file,
            ))
            &&& after.uploads == m.uploads
        }),
{
    crate::peer_net::downloads::law_a_file_is_wanted_once_asked_for(
        m.downloads,
        crate::peer_net::downloads::DownloadView { username: peer, filename: file, size: 0 },
        peer,
        file,
    );
    if wanted(m.downloads.pending, peer, file) is Some {
        crate::peer_net::downloads::law_an_offer_is_accepted_once(
            m.downloads,
            token,
            peer,
            file,
            peer,
            file,
        );
    }
}

/// A download fails by a peer's word only where it was asked of this peer, and for the reason that
/// the peer gives; a file that is merely queued waits on.
pub proof fn law_a_refusal_fails_the_download_it_is_about(
    m: HubModel,
    peer: Seq<char>,
    file: String,
    reason: String,
)
    ensures
        ({
            let (after, r) = on_peer_message(m, peer, PeerMessage::UploadDenied { file, reason });
            let asked = wanted(m.downloads.pending, peer, file@) is Some;
            let fails = asked && !only_queued(reason@);
            &&& fails ==> r.end == Some(
                ConnOutcome::DownloadFailed { username: peer, filename: file@, reason: reason@ },
            ) && wanted(after.downloads.pending, peer, file@) is None
            &&& !fails ==> r.end is None && after == m
            &&& r.reply is None && r.event is None
            &&& after.uploads == m.uploads && after.downloads.by_token == m.downloads.by_token
        }),
        ({
            let (after, r) = on_peer_message(m, peer, PeerMessage::UploadFailed { file });
            let asked = wanted(m.downloads.pending, peer, file@) is Some;
            &&& asked ==> (r.end matches Some(ConnOutcome::DownloadFailed { username, filename, .. })
                && username == peer && filename == file@)
            &&& !asked ==> r.end is None && after == m
        }),
{
    crate::peer_net::downloads::law_a_file_is_wanted_once_asked_for(
        m.downloads,
        crate::peer_net::downloads::DownloadView { username: peer, filename: file@, size: 0 },
        peer,
        file@,
    );
}

/// An answer to one of our searches is shown as it came, if and only if it has the files, the speed
/// and the queue that the settings ask for.
pub proof fn law_answers_are_shown_as_they_came(
    m: HubModel,
    peer: Seq<char>,
    r: FileSearchResponse,
)
    ensures
        ({
            let (after, out) = on_peer_message(m, peer, PeerMessage::FileSearchResponse(r));
            let good = r.files@.len() >= m.filter.min_files && r.upload_speed
                >= m.filter.min_upload_speed && (m.filter.max_queue_length == 0 || r.in_queue
                <= m.filter.max_queue_length);
            &&& after == m && out.reply is None && out.end is None
            &&& out.event == (if good {
                Some(
                    EventView::SearchResultReceived {
                        token: r.token,
                        username: r.username@,
                        free_slots: r.free_slots,
                        upload_speed: r.upload_speed,
                        in_queue: r.in_queue,
                        files: views(r.files@),
                    },
                )
            } else {
                None
            })
        }),
{
}

/// What we tell a searcher: our name, its token, the files, and how long our queue is; and it is
/// asked to connect under the token that the answer waits under.
pub proof fn law_a_searcher_is_told_how_to_come(
    m: HubModel,
    searcher: Seq<char>,
    token: u32,
    files: Seq<SharedFileView>,
    a: SearchAnswer,
)
    requires
        search_answer(m, searcher, token, files, a),
        m.uploads.queue.waiting.len() <= u32::MAX,
    ensures
        a.username@ == m.our_username,
        a.token == token,
        views(a.files@) == files,
        a.in_queue == m.uploads.queue.waiting.len(),
        a.free_slots <==> m.uploads.queue.waiting.len() == 0,
        a.upload_speed == m.upload_speed,
        a.request@ == (ServerRequest::ConnectToPeer {
            token: a.relay_token,
            username: searcher,
            connection_type: ConnectionType::Peer,
        }),
        a.relay_token == m.connect_token,
{
}

/// What a peer asks of our state is answered from it, and changes nothing: how many uploads wait,
/// the place of its own file in the queue, and the place of ours in its queue is told as it came.
pub proof fn law_questions_are_answered_truly(
    m: HubModel,
    peer: Seq<char>,
    file: String,
    place: u32,
)
    requires
        m.uploads.queue.waiting.len() <= u32::MAX,
    ensures
        ({
            let (after, r) = on_peer_message(m, peer, PeerMessage::UserInfoRequest);
            &&& after == m
            &&& r.reply matches Some(
                PeerReply::UserInfo { total_uploads, queue_size, slots_available, upload_allowed, .. },
            ) && total_uploads == m.uploads.queue.waiting.len() && queue_size
                == m.uploads.queue.waiting.len() && slots_available == (
            m.uploads.queue.waiting.len() == 0)
        }),
        ({
            let (after, r) = on_peer_message(m, peer, PeerMessage::PlaceInQueueRequest { file });
            &&& after == m
            &&& r.reply matches Some(PeerReply::PlaceInQueueResponse { filename, place: p })
                && filename == file@ && p == place_of_offer(m.uploads, peer, file@)
        }),
        on_peer_message(m, peer, PeerMessage::PlaceInQueueResponse { filename: file, place }) == (
            m,
            tell(EventView::DownloadQueuePosition { username: peer, filename: file@, place }),
        ),
{
    if let Some(u) = crate::peer_net::uploads::first_offer(m.uploads.by_token, peer, file@) {
        crate::peer_net::uploads::law_places_count_from_one(
            m.uploads.queue.waiting,
            u.transfer_id,
        );
    }
}

/// The first message of a connection is taken at its word: who connects, and what for.
pub proof fn law_connections_are_what_they_say(
    m: HubModel,
    username: String,
    connection_type: ConnectionType,
)
    ensures
        ({
            let (after, opening) = on_opening(
                m,
                Some(PeerInitMessage::PeerInit { username, connection_type }),
            );
            &&& after == m
            &&& opening == (match connection_type {
                ConnectionType::File => Opening::<Seq<char>, Seq<Seq<u8>>>::ReceiveFile {
                    username: username@,
                },
                ConnectionType::Distributed => Opening::AdoptChild { username: username@ },
                ConnectionType::Peer => Opening::Serve { peer: username@, queued: Seq::empty() },
            })
        }),
{
}

/// What was queued for a searcher is what it collects with its token, in order.
pub proof fn law_a_queued_answer_is_collected(m: HubModel, token: u32, frame: Seq<u8>)
    requires
        ascending(m.deliveries),
        m.deliveries.len() < crate::peer_net::deliveries::MAX_PENDING_DELIVERIES,
        lookup(m.deliveries, token) is None,
    ensures
        ({
            let waiting = HubModel {
                deliveries: crate::peer_net::deliveries::queued(m.deliveries, token, frame),
                ..m
            };
            on_opening(waiting, Some(PeerInitMessage::PierceFirewall { token })).1 matches Opening::Serve {
                queued,
                ..
            } && queued == seq![frame]
        }),
{
    crate::peer_net::deliveries::law_delivery_is_collected_once(m.deliveries, token, frame);
    assert(Seq::<Seq<u8>>::empty().push(frame) =~= seq![frame]);
}

/// Settings that change take hold, each where it belongs, and what is under way goes on.
pub proof fn law_settings_take_hold(m: HubModel, c: ConfigView, home: Seq<char>)
    ensures
        ({
            let after = reconfigured(m, c, home);
            &&& after.filter.min_files == c.sharing.min_result_files
            &&& after.filter.min_upload_speed == c.sharing.min_peer_upload_speed
            &&& after.filter.max_queue_length == c.sharing.max_peer_queue_length
            &&& after.max_results == c.sharing.max_search_results
            &&& after.respond_to_searches == c.sharing.respond_to_searches
            &&& after.download_dir == download_path_of(c.sharing, home)
            &&& after.incomplete_dir == incomplete_path_of(c.sharing, home)
            &&& after.shares == m.shares && after.downloads == m.downloads && after.uploads
                == m.uploads && after.gate == m.gate && after.distrib == m.distrib
                && after.deliveries == m.deliveries && after.our_username == m.our_username
        }),
{
}

/// At the start nothing is shared, nothing is under way, and the settings hold.
pub proof fn law_a_start_is_empty(c: ConfigView, home: Seq<char>)
    ensures
        ({
            let m = fresh(c, home);
            &&& m.shares.files.len() == 0 && m.deliveries.len() == 0
            &&& m.downloads.pending.len() == 0 && m.downloads.by_token.len() == 0
            &&& m.uploads.by_token.len() == 0 && m.uploads.queue.waiting.len() == 0
            &&& m.gate.active == 0 && m.gate.waiting.len() == 0 && m.gate.slots
                == c.sharing.upload_slots
            &&& m.our_username == c.server.username && m.distrib.root == c.server.username
            &&& m.distrib.level == 0 && !m.distrib.attached && m.distrib.children.len() == 0
            &&& m.filter == filter_of(c) && m.max_results == c.sharing.max_search_results
            &&& m.respond_to_searches == c.sharing.respond_to_searches
            &&& m.download_dir == download_path_of(c.sharing, home) && m.incomplete_dir
                == incomplete_path_of(c.sharing, home)
        }),
{
}

/// How a transfer ended is told of that transfer: whose it was, of what file, and where it is or why
/// it failed.
pub proof fn law_every_end_is_told(
    username: Seq<char>,
    filename: Seq<char>,
    path: Seq<char>,
    reason: Seq<char>,
)
    ensures
        outcome_told(ConnOutcome::Downloaded { username, filename, path }) == Some(
            EventView::DownloadComplete { username, filename, path },
        ),
        outcome_told(ConnOutcome::DownloadFailed { username, filename, reason }) == Some(
            EventView::DownloadFailed { username, filename, reason },
        ),
        outcome_told(ConnOutcome::Uploaded { username, filename }) == Some(
            EventView::UploadComplete { username, filename },
        ),
        outcome_told(ConnOutcome::UploadFailed { username, filename, reason }) == Some(
            EventView::UploadFailed { username, filename, reason },
        ),
        outcome_told(ConnOutcome::Done) is None,
{
}

/// An offer that is turned down says so, and one that is taken gives no reason; a request for a
/// file that is not shared is turned down in the same way.
pub proof fn law_a_refusal_gives_its_reason(
    m: HubModel,
    peer: Seq<char>,
    token: u32,
    file: Seq<char>,
)
    ensures
        on_offer(m, peer, token, file).1.reply matches Some(
            PeerReply::TransferResponse { allowed, reason, .. },
        ) && (allowed <==> reason is None),
        on_download_request(m, peer, token, file).1.reply matches Some(
            PeerReply::TransferResponse { token: t, allowed, filesize, reason },
        ) && t == token && (allowed <==> reason is None) && (allowed <==> filesize is Some) && (
        allowed <==> exists|k: int|
            0 <= k < m.shares.files.len() && (#[trigger] m.shares.files[k]).virtual_path == file),
{
    if exists|k: int|
        0 <= k < m.shares.files.len() && (#[trigger] m.shares.files[k]).virtual_path == file {
        crate::shares::law_shared_paths_resolve(m.shares.files, file);
    } else {
        crate::shares::law_a_path_leads_to_its_file(m.shares.files, file, 0);
    }
}

/// The speed that we tell others follows an upload only where it was long enough to tell.
pub proof fn law_short_uploads_tell_no_speed(speed: u32, sent: u64, rate: u32)
    ensures
        sent < SPEED_SAMPLE_BYTES ==> speed_after(speed, sent, Some(rate)) == speed,
        sent >= SPEED_SAMPLE_BYTES && speed == 0 ==> speed_after(speed, sent, Some(rate)) == rate,
        speed_after(speed, sent, None) == speed,
{
}

/// Dots behind the reason of a denial make no difference, nor does case: it says that the file is
/// queued if and only if the rest is that word.
pub proof fn law_queued_is_told_by_the_word(reason: Seq<char>)
    ensures
        only_queued(reason.push('.')) == only_queued(reason),
        reason.len() == 0 || reason.last() != '.' ==> (only_queued(reason) <==> reason.len() == 6
            && (reason[0] == 'q' || reason[0] == 'Q') && (reason[1] == 'u' || reason[1] == 'U') && (
        reason[2] == 'e' || reason[2] == 'E') && (reason[3] == 'u' || reason[3] == 'U') && (
        reason[4] == 'e' || reason[4] == 'E') && (reason[5] == 'd' || reason[5] == 'D')),
{
    assert(reason.push('.').drop_last() =~= reason);
    reveal_strlit("queued");
    let word = "queued"@;
    assert(word.len() == 6 && word[0] == 'q' && word[1] == 'u' && word[2] == 'e' && word[3] == 'u'
        && word[4] == 'e' && word[5] == 'd');
    if reason.len() == 0 || reason.last() != '.' {
        assert(trim_end_of(reason, '.') == reason);
        if reason.len() == 6 {
            assert(only_queued(reason) ==> crate::text::ascii_lower(reason[0]) == 'q'
                && crate::text::ascii_lower(reason[1]) == 'u' && crate::text::ascii_lower(reason[2])
                == 'e' && crate::text::ascii_lower(reason[3]) == 'u' && crate::text::ascii_lower(
                reason[4],
            ) == 'e' && crate::text::ascii_lower(reason[5]) == 'd');
            assert forall|i: int| 0 <= i < 6 implies (crate::text::ascii_lower(reason[i])
                == crate::text::ascii_lower(#[trigger] word[i]) <==> (reason[i] == word[i]
                || reason[i] as u32 + 32 == word[i] as u32)) by {}
        }
    }
}

/// A file that was agreed on with a peer is received from it once, under the token that was agreed
/// on, as its own part among the unfinished downloads.
pub proof fn law_a_delivery_goes_to_its_place(m: HubModel, peer: Seq<char>, token: u32)
    requires
        ascending(m.downloads.by_token),
        lookup(m.downloads.by_token, token) matches Some(d) && d.username == peer,
    ensures
        ({
            let d = lookup(m.downloads.by_token, token)->0;
            let (after, connection) = on_file_connection(m, peer, token);
            &&& connection == (FileConnection::Receive {
                username: peer,
                filename: d.filename,
                size: d.size,
                basename: basename_on_disk(d.filename),
                incomplete: joined(
                    m.incomplete_dir,
                    incomplete_name_of(peer, d.filename, basename_on_disk(d.filename)),
                ),
            })
            &&& lookup(after.downloads.by_token, token) is None
            &&& after.uploads == m.uploads && after.downloads.pending == m.downloads.pending
        }),
{
    crate::tokens::lemma_removed_is_gone(m.downloads.by_token, token);
}

} // verus!
