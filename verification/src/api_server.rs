//! The status that the programming interface reports, and the files of the web frontend.
use vstd::prelude::*;
use vstd::string::*;

use crate::config::{AppContext, Config};
use crate::session::SessionEvent;
use crate::text::{after_last_index, chars_of, last_index, same, string_of};

verus! {

pub const DEFAULT_API_ADDR: &'static str = "127.0.0.1:5031";

/// What is reported.
#[derive(Debug)]
pub struct StatusSnapshot {
    pub logged_in: bool,
    pub username: String,
    pub greeting: String,
    pub own_ip: String,
    /// No part of the program counts the shared files for this yet: 0.
    pub shared_files: u32,
}

pub struct StatusView {
    pub logged_in: bool,
    pub username: Seq<char>,
    pub greeting: Seq<char>,
    pub own_ip: Seq<char>,
    pub shared_files: u32,
}

impl View for StatusSnapshot {
    type V = StatusView;

    open spec fn view(&self) -> StatusView {
        StatusView {
            logged_in: self.logged_in,
            username: self.username@,
            greeting: self.greeting@,
            own_ip: self.own_ip@,
            shared_files: self.shared_files,
        }
    }
}

impl Clone for StatusSnapshot {
    fn clone(&self) -> (r: Self)
        ensures
            r@ == self@,
    {
        StatusSnapshot {
            logged_in: self.logged_in,
            username: self.username.clone(),
            greeting: self.greeting.clone(),
            own_ip: self.own_ip.clone(),
            shared_files: self.shared_files,
        }
    }
}

/// The status once something happened to the session.
pub open spec fn on_session(status: StatusView, event: SessionEvent<Seq<char>>) -> StatusView {
    match event {
        SessionEvent::LoggedIn { greeting, own_ip } => StatusView {
            logged_in: true,
            greeting,
            own_ip,
            ..status
        },
        SessionEvent::Connecting => StatusView { logged_in: false, ..status },
        SessionEvent::LoginFailed { reason } => StatusView { logged_in: false, ..status },
        SessionEvent::Disconnected { reason } => StatusView { logged_in: false, ..status },
        _ => status,
    }
}

/// Keeps the status up to date.
pub struct ApiServer {
    addr: String,
    snapshot: StatusSnapshot,
}

pub struct ApiModel {
    /// The address to serve at.
    pub addr: Seq<char>,
    pub status: StatusView,
}

impl View for ApiServer {
    type V = ApiModel;

    closed spec fn view(&self) -> ApiModel {
        ApiModel { addr: self.addr@, status: self.snapshot@ }
    }
}

impl ApiServer {
    pub fn new(ctx: &AppContext) -> (r: ApiServer)
        ensures
            r@ == (ApiModel {
                addr: DEFAULT_API_ADDR@,
                status: StatusView {
                    logged_in: false,
                    username: ctx.config@.server.username,
                    greeting: ""@,
                    own_ip: ""@,
                    shared_files: 0,
                },
            }),
    {
        ApiServer {
            addr: DEFAULT_API_ADDR.to_owned(),
            snapshot: StatusSnapshot {
                logged_in: false,
                username: ctx.config.server.username.clone(),
                greeting: "".to_owned(),
                own_ip: "".to_owned(),
                shared_files: 0,
            },
        }
    }

    /// The address to serve at.
    pub fn addr(&self) -> (r: &str)
        ensures
            r@ == self@.addr,
    {
        self.addr.as_str()
    }

    /// Something happened to the session.
    pub fn session_event(&mut self, event: &SessionEvent<String>)
        ensures
            final(self)@ == (ApiModel {
                status: on_session(old(self)@.status, event@),
                ..old(self)@
            }),
    {
        match event {
            SessionEvent::LoggedIn { greeting, own_ip } => {
                self.snapshot.logged_in = true;
                self.snapshot.greeting = greeting.clone();
                self.snapshot.own_ip = own_ip.clone();
            },
            SessionEvent::Connecting => {
                self.snapshot.logged_in = false;
            },
            SessionEvent::LoginFailed { .. } => {
                self.snapshot.logged_in = false;
            },
            SessionEvent::Disconnected { .. } => {
                self.snapshot.logged_in = false;
            },
            _ => {},
        }
    }

    /// The settings changed.
    pub fn config_changed(&mut self, config: &Config)
        ensures
            final(self)@ == (ApiModel {
                status: StatusView { username: config@.server.username, ..old(self)@.status },
                ..old(self)@
            }),
    {
        self.snapshot.username = config.server.username.clone();
    }

    /// The status.
    pub fn get_status(&self) -> (r: StatusSnapshot)
        ensures
            r@ == self@.status,
    {
        self.snapshot.clone()
    }
}

/// The media type of a file of the frontend, by what stands behind the last dot of its path.
pub open spec fn content_type_of(path: Seq<char>) -> Seq<char> {
    let e = path.skip(last_index(path, '.') + 1);
    if e == "html"@ {
        "text/html; charset=utf-8"@
    } else if e == "js"@ {
        "text/javascript; charset=utf-8"@
    } else if e == "css"@ {
        "text/css; charset=utf-8"@
    } else if e == "json"@ {
        "application/json"@
    } else if e == "svg"@ {
        "image/svg+xml"@
    } else if e == "png"@ {
        "image/png"@
    } else if e == "woff2"@ {
        "font/woff2"@
    } else {
        "application/octet-stream"@
    }
}

/// The media type of a file of the frontend.
pub fn content_type(path: &str) -> (r: &'static str)
    ensures
        r@ == content_type_of(path@),
{
    let v = chars_of(path);
    let start = after_last_index(&v, '.');
    let tail = string_of(&v, start, v.len());
    assert(tail@ =~= path@.skip(last_index(path@, '.') + 1));
    let e = tail.as_str();
    if same(e, "html") {
        "text/html; charset=utf-8"
    } else if same(e, "js") {
        "text/javascript; charset=utf-8"
    } else if same(e, "css") {
        "text/css; charset=utf-8"
    } else if same(e, "json") {
        "application/json"
    } else if same(e, "svg") {
        "image/svg+xml"
    } else if same(e, "png") {
        "image/png"
    } else if same(e, "woff2") {
        "font/woff2"
    } else {
        "application/octet-stream"
    }
}

/// The path, within the frontend, of the file that a request for a path of the server asks for.
pub fn asset_path(url_path: &str) -> (r: Option<String>)
    ensures
        match r {
            Some(p) => (url_path@ == "/"@ && p@ == "index.html"@) || (url_path@ != "/"@
                && "/assets/"@.is_prefix_of(url_path@) && p@ == "assets/"@ + url_path@.skip(
                "/assets/"@.len() as int,
            )),
            None => url_path@ != "/"@ && !"/assets/"@.is_prefix_of(url_path@),
        },
{
    if same(url_path, "/") {
        return Some("index.html".to_owned());
    }
    match crate::text::strip_prefix(url_path, "/assets/") {
        Some(rest) => {
            let mut out = "assets/".to_owned();
            out.append(rest);
            Some(out)
        },
        None => None,
    }
}

/// The file at a path among those of the frontend: its bytes.
pub fn find_asset<'a>(assets: &'a Vec<(String, Vec<u8>)>, path: &str) -> (r: Option<&'a Vec<u8>>)
    ensures
        match r {
            Some(bytes) => exists|i: int|
                0 <= i < assets@.len() && (#[trigger] assets@[i]).0@ == path@ && assets@[i].1
                    == *bytes && forall|j: int|
                    0 <= j < i ==> (#[trigger] assets@[j]).0@ != path@,
            None => forall|j: int|
                0 <= j < assets@.len() ==> (#[trigger] assets@[j]).0@ != path@,
        },
{
    let mut i: usize = 0;
    while i < assets.len()
        invariant
            i <= assets@.len(),
            forall|j: int| 0 <= j < i ==> (#[trigger] assets@[j]).0@ != path@,
        decreases assets@.len() - i,
    {
        if same(assets[i].0.as_str(), path) {
            assert(assets@[i as int].0@ == path@);
            return Some(&assets[i].1);
        }
        i += 1;
    }
    None
}

/// The status says that we are logged in from a login on until the connection changes, with the
/// greeting of that login; what is not about the connection leaves it as it is.
pub proof fn law_the_status_follows_the_session(
    status: StatusView,
    greeting: Seq<char>,
    own_ip: Seq<char>,
    event: SessionEvent<Seq<char>>,
)
    ensures
        ({
            let after = on_session(status, SessionEvent::LoggedIn { greeting, own_ip });
            &&& after.logged_in && after.greeting == greeting && after.own_ip == own_ip
            &&& after.username == status.username
        }),
        event is Connecting || event is LoginFailed || event is Disconnected ==> !on_session(
            status,
            event,
        ).logged_in && on_session(status, event).username == status.username,
        event is SearchStarted || event is SearchBroadcastSeen || event is ProtocolNote
            ==> on_session(status, event) == status,
{
}

/// What a file is sent as follows from its extension alone.
pub proof fn law_the_content_follows_the_extension(a: Seq<char>, b: Seq<char>, ext: Seq<char>)
    requires
        forall|k: int| 0 <= k < ext.len() ==> #[trigger] ext[k] != '.',
    ensures
        content_type_of(a.push('.') + ext) == content_type_of(b.push('.') + ext),
{
    lemma_extension(a, ext);
    lemma_extension(b, ext);
}

proof fn lemma_extension(stem: Seq<char>, ext: Seq<char>)
    requires
        forall|k: int| 0 <= k < ext.len() ==> #[trigger] ext[k] != '.',
    ensures
        (stem.push('.') + ext).skip(last_index(stem.push('.') + ext, '.') + 1) == ext,
{
    let path = stem.push('.') + ext;
    let n = stem.len() as int;
    assert(path[n] == '.');
    assert forall|k: int| n < k < path.len() implies path[k] != '.' by {
        assert(path[k] == ext[k - n - 1]);
    }
    crate::text::lemma_last_index(path, '.', n);
    assert(path.skip(n + 1) =~= ext);
}

} // verus!
