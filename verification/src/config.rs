//! Configuration: the settings, their defaults, the form in which they travel over the bus,
//! and the store that validates and serves them.
use vstd::prelude::*;
use vstd::string::*;
use crate::text::{
    clone_option, clone_strings, is_blank, nonempty, nonempty_text, ov, trimmed, views,
};

verus! {

/// How to reach the Soulseek server, and as whom.
#[derive(Debug, PartialEq)]
pub struct ServerConfig {
    pub host: String,
    pub port: u16,
    pub username: String,
    pub password: String,
    /// Port advertised to the server for incoming peer connections.
    pub listen_port: u32,
}

pub struct ServerView {
    pub host: Seq<char>,
    pub port: u16,
    pub username: Seq<char>,
    pub password: Seq<char>,
    pub listen_port: u32,
}

impl View for ServerConfig {
    type V = ServerView;

    open spec fn view(&self) -> ServerView {
        ServerView {
            host: self.host@,
            port: self.port,
            username: self.username@,
            password: self.password@,
            listen_port: self.listen_port,
        }
    }
}

impl Clone for ServerConfig {
    fn clone(&self) -> (r: Self)
        ensures
            r@ == self@,
    {
        ServerConfig {
            host: self.host.clone(),
            port: self.port,
            username: self.username.clone(),
            password: self.password.clone(),
            listen_port: self.listen_port,
        }
    }
}

/// The server settings of a fresh installation.
pub open spec fn default_server() -> ServerView {
    ServerView {
        host: "server.slsknet.org"@,
        port: 2242,
        username: Seq::empty(),
        password: Seq::empty(),
        listen_port: 2234,
    }
}

impl Default for ServerConfig {
    fn default() -> (r: Self)
        ensures
            r@ == default_server(),
    {
        ServerConfig {
            host: "server.slsknet.org".to_owned(),
            port: 2242,
            username: String::new(),
            password: String::new(),
            listen_port: 2234,
        }
    }
}

/// Spotify credentials.
#[derive(Debug, PartialEq)]
pub struct SpotifyConfig {
    pub client_id: Option<String>,
    pub client_secret: Option<String>,
    /// Present once the user has logged in; exchanged for short-lived access tokens.
    pub refresh_token: Option<String>,
}

pub struct SpotifyView {
    pub client_id: Option<Seq<char>>,
    pub client_secret: Option<Seq<char>>,
    pub refresh_token: Option<Seq<char>>,
}

impl View for SpotifyConfig {
    type V = SpotifyView;

    open spec fn view(&self) -> SpotifyView {
        SpotifyView {
            client_id: ov(self.client_id),
            client_secret: ov(self.client_secret),
            refresh_token: ov(self.refresh_token),
        }
    }
}

impl Clone for SpotifyConfig {
    fn clone(&self) -> (r: Self)
        ensures
            r@ == self@,
    {
        SpotifyConfig {
            client_id: clone_option(&self.client_id),
            client_secret: clone_option(&self.client_secret),
            refresh_token: clone_option(&self.refresh_token),
        }
    }
}

pub open spec fn default_spotify() -> SpotifyView {
    SpotifyView { client_id: None, client_secret: None, refresh_token: None }
}

impl Default for SpotifyConfig {
    fn default() -> (r: Self)
        ensures
            r@ == default_spotify(),
    {
        SpotifyConfig { client_id: None, client_secret: None, refresh_token: None }
    }
}

/// The self-updater's settings.
#[derive(Debug, PartialEq)]
pub struct UpdateConfig {
    pub enabled: bool,
    pub auto_apply: bool,
    /// GitHub `owner/repo` the self-updater polls for releases.
    pub repo: String,
}

pub struct UpdateView {
    pub enabled: bool,
    pub auto_apply: bool,
    pub repo: Seq<char>,
}

impl View for UpdateConfig {
    type V = UpdateView;

    open spec fn view(&self) -> UpdateView {
        UpdateView { enabled: self.enabled, auto_apply: self.auto_apply, repo: self.repo@ }
    }
}

impl Clone for UpdateConfig {
    fn clone(&self) -> (r: Self)
        ensures
            r@ == self@,
    {
        UpdateConfig {
            enabled: self.enabled,
            auto_apply: self.auto_apply,
            repo: self.repo.clone(),
        }
    }
}

pub open spec fn default_update() -> UpdateView {
    UpdateView { enabled: true, auto_apply: true, repo: "berendjan/soulrust"@ }
}

impl Default for UpdateConfig {
    fn default() -> (r: Self)
        ensures
            r@ == default_update(),
    {
        UpdateConfig { enabled: true, auto_apply: true, repo: "berendjan/soulrust".to_owned() }
    }
}

/// Where the web UI listens.
#[derive(Debug, PartialEq)]
pub struct UiConfig {
    pub bind_addr: String,
    /// Open the web UI in the default browser on startup.
    pub open_browser: bool,
}

pub struct UiView {
    pub bind_addr: Seq<char>,
    pub open_browser: bool,
}

impl View for UiConfig {
    type V = UiView;

    open spec fn view(&self) -> UiView {
        UiView { bind_addr: self.bind_addr@, open_browser: self.open_browser }
    }
}

impl Clone for UiConfig {
    fn clone(&self) -> (r: Self)
        ensures
            r@ == self@,
    {
        UiConfig { bind_addr: self.bind_addr.clone(), open_browser: self.open_browser }
    }
}

pub open spec fn default_ui() -> UiView {
    UiView { bind_addr: "127.0.0.1:5030"@, open_browser: true }
}

impl Default for UiConfig {
    fn default() -> (r: Self)
        ensures
            r@ == default_ui(),
    {
        UiConfig { bind_addr: "127.0.0.1:5030".to_owned(), open_browser: true }
    }
}

/// Shares, downloads, and the limits on both.
#[derive(Debug, PartialEq)]
pub struct SharingConfig {
    /// Folders whose files are shared with the network.
    pub folders: Vec<String>,
    pub download_dir: String,
    pub incomplete_dir: String,
    /// Concurrent upload slots.
    pub upload_slots: u32,
    /// Asks for first-in-first-out order of the upload queue. The queue has that order whatever
    /// this says.
    pub fifo_queue: bool,
    /// Whether to answer incoming searches with shared files.
    pub respond_to_searches: bool,
    /// Hard cap on files returned for a single incoming search.
    pub max_search_results: u32,
    /// Drop a peer's response with fewer than this many files.
    pub min_result_files: u32,
    /// Drop a peer's response whose upload speed is below this (0 = no minimum).
    pub min_peer_upload_speed: u32,
    /// Drop a peer's response whose queue is longer than this (0 = no limit).
    pub max_peer_queue_length: u32,
    /// Aggregate download throttle in bytes per second (0 = unlimited).
    pub max_download_speed: u32,
    /// Aggregate upload throttle in bytes per second (0 = unlimited).
    pub max_upload_speed: u32,
}

pub struct SharingView {
    pub folders: Seq<Seq<char>>,
    pub download_dir: Seq<char>,
    pub incomplete_dir: Seq<char>,
    pub upload_slots: u32,
    pub fifo_queue: bool,
    pub respond_to_searches: bool,
    pub max_search_results: u32,
    pub min_result_files: u32,
    pub min_peer_upload_speed: u32,
    pub max_peer_queue_length: u32,
    pub max_download_speed: u32,
    pub max_upload_speed: u32,
}

impl View for SharingConfig {
    type V = SharingView;

    open spec fn view(&self) -> SharingView {
        SharingView {
            folders: views(self.folders@),
            download_dir: self.download_dir@,
            incomplete_dir: self.incomplete_dir@,
            upload_slots: self.upload_slots,
            fifo_queue: self.fifo_queue,
            respond_to_searches: self.respond_to_searches,
            max_search_results: self.max_search_results,
            min_result_files: self.min_result_files,
            min_peer_upload_speed: self.min_peer_upload_speed,
            max_peer_queue_length: self.max_peer_queue_length,
            max_download_speed: self.max_download_speed,
            max_upload_speed: self.max_upload_speed,
        }
    }
}

impl Clone for SharingConfig {
    fn clone(&self) -> (r: Self)
        ensures
            r@ == self@,
    {
        SharingConfig {
            folders: clone_strings(&self.folders),
            download_dir: self.download_dir.clone(),
            incomplete_dir: self.incomplete_dir.clone(),
            upload_slots: self.upload_slots,
            fifo_queue: self.fifo_queue,
            respond_to_searches: self.respond_to_searches,
            max_search_results: self.max_search_results,
            min_result_files: self.min_result_files,
            min_peer_upload_speed: self.min_peer_upload_speed,
            max_peer_queue_length: self.max_peer_queue_length,
            max_download_speed: self.max_download_speed,
            max_upload_speed: self.max_upload_speed,
        }
    }
}

pub open spec fn default_sharing() -> SharingView {
    SharingView {
        folders: Seq::empty(),
        download_dir: Seq::empty(),
        incomplete_dir: Seq::empty(),
        upload_slots: 2,
        fifo_queue: false,
        respond_to_searches: true,
        max_search_results: 100,
        min_result_files: 1,
        min_peer_upload_speed: 0,
        max_peer_queue_length: 0,
        max_download_speed: 0,
        max_upload_speed: 0,
    }
}

impl Default for SharingConfig {
    fn default() -> (r: Self)
        ensures
            r@ == default_sharing(),
    {
        let r = SharingConfig {
            folders: Vec::new(),
            download_dir: String::new(),
            incomplete_dir: String::new(),
            upload_slots: 2,
            fifo_queue: false,
            respond_to_searches: true,
            max_search_results: 100,
            min_result_files: 1,
            min_peer_upload_speed: 0,
            max_peer_queue_length: 0,
            max_download_speed: 0,
            max_upload_speed: 0,
        };
        assert(views(r.folders@) =~= Seq::empty());
        r
    }
}

/// `leaf` below the directory `base`.
pub open spec fn joined(base: Seq<char>, leaf: Seq<char>) -> Seq<char> {
    if base.len() == 0 || base.last() == '/' {
        base + leaf
    } else {
        base + "/"@ + leaf
    }
}

/// Appends a relative path to a directory.
pub fn join_path(base: &str, leaf: &str) -> (r: String)
    ensures
        r@ == joined(base@, leaf@),
{
    let mut out = base.to_owned();
    let n: usize = base.unicode_len();
    if n > 0 && base.get_char(n - 1) != '/' {
        out.append("/");
    }
    out.append(leaf);
    out
}

/// Where finished downloads land for a user whose home is `home`.
pub open spec fn download_path_of(c: SharingView, home: Seq<char>) -> Seq<char> {
    if trimmed(c.download_dir).len() == 0 {
        joined(joined(home, "Downloads"@), "soulrust"@)
    } else {
        c.download_dir
    }
}

/// Where files in progress live for a user whose home is `home`.
pub open spec fn incomplete_path_of(c: SharingView, home: Seq<char>) -> Seq<char> {
    if trimmed(c.incomplete_dir).len() == 0 {
        joined(download_path_of(c, home), "incomplete"@)
    } else {
        c.incomplete_dir
    }
}

impl SharingConfig {
    /// Where finished downloads land: `Downloads/soulrust` in the home directory unless set.
    pub fn download_path(&self, home: &str) -> (r: String)
        ensures
            r@ == download_path_of(self@, home@),
    {
        if is_blank(self.download_dir.as_str()) {
            let downloads = join_path(home, "Downloads");
            join_path(downloads.as_str(), "soulrust")
        } else {
            self.download_dir.clone()
        }
    }

    /// Where files in progress live: `incomplete` in the download folder unless set.
    pub fn incomplete_path(&self, home: &str) -> (r: String)
        ensures
            r@ == incomplete_path_of(self@, home@),
    {
        if is_blank(self.incomplete_dir.as_str()) {
            let dir = self.download_path(home);
            join_path(dir.as_str(), "incomplete")
        } else {
            self.incomplete_dir.clone()
        }
    }
}

/// Everything the user can set.
#[derive(Debug, PartialEq)]
pub struct Config {
    pub server: ServerConfig,
    pub spotify: SpotifyConfig,
    pub update: UpdateConfig,
    pub ui: UiConfig,
    pub sharing: SharingConfig,
}

pub struct ConfigView {
    pub server: ServerView,
    pub spotify: SpotifyView,
    pub update: UpdateView,
    pub ui: UiView,
    pub sharing: SharingView,
}

impl View for Config {
    type V = ConfigView;

    open spec fn view(&self) -> ConfigView {
        ConfigView {
            server: self.server@,
            spotify: self.spotify@,
            update: self.update@,
            ui: self.ui@,
            sharing: self.sharing@,
        }
    }
}

impl Clone for Config {
    fn clone(&self) -> (r: Self)
        ensures
            r@ == self@,
    {
        Config {
            server: self.server.clone(),
            spotify: self.spotify.clone(),
            update: self.update.clone(),
            ui: self.ui.clone(),
            sharing: self.sharing.clone(),
        }
    }
}

pub open spec fn default_config() -> ConfigView {
    ConfigView {
        server: default_server(),
        spotify: default_spotify(),
        update: default_update(),
        ui: default_ui(),
        sharing: default_sharing(),
    }
}

impl Default for Config {
    fn default() -> (r: Self)
        ensures
            r@ == default_config(),
    {
        Config {
            server: ServerConfig::default(),
            spotify: SpotifyConfig::default(),
            update: UpdateConfig::default(),
            ui: UiConfig::default(),
            sharing: SharingConfig::default(),
        }
    }
}


/// The server settings as they travel over the bus.
#[derive(Debug, PartialEq)]
pub struct BusServerConfig {
    pub host: String,
    pub port: u32,
    pub username: String,
    pub password: String,
    pub listen_port: u32,
}

pub struct BusServerView {
    pub host: Seq<char>,
    pub port: u32,
    pub username: Seq<char>,
    pub password: Seq<char>,
    pub listen_port: u32,
}

impl View for BusServerConfig {
    type V = BusServerView;

    open spec fn view(&self) -> BusServerView {
        BusServerView {
            host: self.host@,
            port: self.port,
            username: self.username@,
            password: self.password@,
            listen_port: self.listen_port,
        }
    }
}

/// The UI settings as they travel over the bus; an older sender leaves the browser flag out.
#[derive(Debug, PartialEq)]
pub struct BusUiConfig {
    pub bind_addr: String,
    pub open_browser: Option<bool>,
}

pub struct BusUiView {
    pub bind_addr: Seq<char>,
    pub open_browser: Option<bool>,
}

impl View for BusUiConfig {
    type V = BusUiView;

    open spec fn view(&self) -> BusUiView {
        BusUiView { bind_addr: self.bind_addr@, open_browser: self.open_browser }
    }
}

/// The settings as they travel over the bus, each section optional. A section that is not
/// there reads as one with empty texts, zeros and `false`.
#[derive(Debug, PartialEq)]
pub struct BusConfig {
    pub server: Option<BusServerConfig>,
    pub spotify: Option<SpotifyConfig>,
    pub update: Option<UpdateConfig>,
    pub ui: Option<BusUiConfig>,
    pub sharing: Option<SharingConfig>,
}

pub struct BusConfigView {
    pub server: Option<BusServerView>,
    pub spotify: Option<SpotifyView>,
    pub update: Option<UpdateView>,
    pub ui: Option<BusUiView>,
    pub sharing: Option<SharingView>,
}

impl View for BusConfig {
    type V = BusConfigView;

    open spec fn view(&self) -> BusConfigView {
        BusConfigView {
            server: match self.server {
                Some(x) => Some(x@),
                None => None,
            },
            spotify: match self.spotify {
                Some(x) => Some(x@),
                None => None,
            },
            update: match self.update {
                Some(x) => Some(x@),
                None => None,
            },
            ui: match self.ui {
                Some(x) => Some(x@),
                None => None,
            },
            sharing: match self.sharing {
                Some(x) => Some(x@),
                None => None,
            },
        }
    }
}

/// The low sixteen bits of a number.
pub open spec fn low16(n: u32) -> u16 {
    (n % 0x10000) as u16
}

/// A port number carried in thirty-two bits, cut to the sixteen that count.
pub fn to_port(n: u32) -> (r: u16)
    ensures
        r == low16(n),
{
    (n % 0x10000) as u16
}

/// The settings `c` as the bus carries them.
pub open spec fn to_bus(c: ConfigView) -> BusConfigView {
    BusConfigView {
        server: Some(
            BusServerView {
                host: c.server.host,
                port: c.server.port as u32,
                username: c.server.username,
                password: c.server.password,
                listen_port: c.server.listen_port,
            },
        ),
        spotify: Some(c.spotify),
        update: Some(c.update),
        ui: Some(
            BusUiView { bind_addr: c.ui.bind_addr, open_browser: Some(c.ui.open_browser) },
        ),
        sharing: Some(c.sharing),
    }
}

/// The settings that a bus form stands for.
pub open spec fn from_bus(c: BusConfigView) -> ConfigView {
    ConfigView {
        server: match c.server {
            Some(s) => ServerView {
                host: s.host,
                port: low16(s.port),
                username: s.username,
                password: s.password,
                listen_port: s.listen_port,
            },
            None => ServerView {
                host: Seq::empty(),
                port: 0,
                username: Seq::empty(),
                password: Seq::empty(),
                listen_port: 0,
            },
        },
        spotify: match c.spotify {
            Some(s) => s,
            None => default_spotify(),
        },
        update: match c.update {
            Some(u) => u,
            None => UpdateView { enabled: false, auto_apply: false, repo: Seq::empty() },
        },
        ui: match c.ui {
            Some(u) => UiView {
                bind_addr: u.bind_addr,
                open_browser: match u.open_browser {
                    Some(b) => b,
                    None => true,
                },
            },
            None => UiView { bind_addr: Seq::empty(), open_browser: true },
        },
        sharing: match c.sharing {
            Some(s) => s,
            None => SharingView {
                folders: Seq::empty(),
                download_dir: Seq::empty(),
                incomplete_dir: Seq::empty(),
                upload_slots: 0,
                fifo_queue: false,
                respond_to_searches: false,
                max_search_results: 0,
                min_result_files: 0,
                min_peer_upload_speed: 0,
                max_peer_queue_length: 0,
                max_download_speed: 0,
                max_upload_speed: 0,
            },
        },
    }
}

/// The settings in the form that the bus carries.
pub fn config_to_proto(c: &Config) -> (r: BusConfig)
    ensures
        r@ == to_bus(c@),
{
    BusConfig {
        server: Some(
            BusServerConfig {
                host: c.server.host.clone(),
                port: c.server.port as u32,
                username: c.server.username.clone(),
                password: c.server.password.clone(),
                listen_port: c.server.listen_port,
            },
        ),
        spotify: Some(c.spotify.clone()),
        update: Some(c.update.clone()),
        ui: Some(
            BusUiConfig {
                bind_addr: c.ui.bind_addr.clone(),
                open_browser: Some(c.ui.open_browser),
            },
        ),
        sharing: Some(c.sharing.clone()),
    }
}

/// The settings out of the form that the bus carries.
pub fn config_from_proto(c: &BusConfig) -> (r: Config)
    ensures
        r@ == from_bus(c@),
{
    let server = match &c.server {
        Some(s) => ServerConfig {
            host: s.host.clone(),
            port: to_port(s.port),
            username: s.username.clone(),
            password: s.password.clone(),
            listen_port: s.listen_port,
        },
        None => ServerConfig {
            host: String::new(),
            port: 0,
            username: String::new(),
            password: String::new(),
            listen_port: 0,
        },
    };
    let spotify = match &c.spotify {
        Some(s) => s.clone(),
        None => SpotifyConfig::default(),
    };
    let update = match &c.update {
        Some(u) => u.clone(),
        None => UpdateConfig { enabled: false, auto_apply: false, repo: String::new() },
    };
    let ui = match &c.ui {
        Some(u) => UiConfig {
            bind_addr: u.bind_addr.clone(),
            open_browser: match u.open_browser {
                Some(b) => b,
                None => true,
            },
        },
        None => UiConfig { bind_addr: String::new(), open_browser: true },
    };
    let sharing = match &c.sharing {
        Some(s) => s.clone(),
        None => SharingConfig {
            folders: Vec::new(),
            download_dir: String::new(),
            incomplete_dir: String::new(),
            upload_slots: 0,
            fifo_queue: false,
            respond_to_searches: false,
            max_search_results: 0,
            min_result_files: 0,
            min_peer_upload_speed: 0,
            max_peer_queue_length: 0,
            max_download_speed: 0,
            max_upload_speed: 0,
        },
    };
    let r = Config { server, spotify, update, ui, sharing };
    assert(c.sharing is None ==> views(r.sharing.folders@) =~= Seq::<Seq<char>>::empty());
    r
}

/// Settings survive the bus unchanged.
pub proof fn law_config_survives_the_bus(c: ConfigView)
    ensures
        from_bus(to_bus(c)) == c,
{
}

/// The user's home directory, from the variables that may name it: the first that is set, or the
/// folder that the program runs in.
pub fn home_dir(home: Option<String>, user_profile: Option<String>) -> (r: String)
    ensures
        r@ == match (ov(home), ov(user_profile)) {
            (Some(h), _) => h,
            (None, Some(p)) => p,
            (None, None) => "."@,
        },
{
    match home {
        Some(h) => h,
        None => match user_profile {
            Some(p) => p,
            None => ".".to_owned(),
        },
    }
}

/// Where the settings are stored: in the folder for settings where one is named, or in `.config`
/// in the home directory.
pub open spec fn config_path_of(config_home: Option<Seq<char>>, home: Seq<char>) -> Seq<char> {
    match nonempty(config_home) {
        Some(dir) => joined(dir, "soulrust.yaml"@),
        None => joined(joined(home, ".config"@), "soulrust.yaml"@),
    }
}

/// Where the settings are stored.
pub fn default_config_path(config_home: &Option<String>, home: &str) -> (r: String)
    ensures
        r@ == config_path_of(ov(*config_home), home@),
{
    match nonempty_text(config_home) {
        Some(dir) => join_path(dir, "soulrust.yaml"),
        None => join_path(join_path(home, ".config").as_str(), "soulrust.yaml"),
    }
}

/// Flags that the web bridge sets and the main loop polls.
#[derive(Debug)]
pub struct Control {
    pub quit: bool,
    pub restart: bool,
}

impl Default for Control {
    fn default() -> (r: Self)
        ensures
            !r.quit,
            !r.restart,
    {
        Control { quit: false, restart: false }
    }
}

/// What every component is made from.
pub struct AppContext {
    pub config: Config,
    pub config_path: String,
    pub control: Control,
    /// Message bus ring size; a power of two.
    pub bus_buffer_size: usize,
}

impl AppContext {
    pub fn new(config: Config, config_path: String) -> (r: Self)
        ensures
            r.config == config,
            r.config_path == config_path,
            !r.control.quit,
            !r.control.restart,
            r.bus_buffer_size == 16 * 1024 * 1024,
    {
        AppContext {
            config,
            config_path,
            control: Control::default(),
            bus_buffer_size: 16 * 1024 * 1024,
        }
    }
}

/// Asks for the settings in force.
pub struct GetConfigReq {
    pub corr: u64,
}

/// The settings in force, in answer to request `corr`.
pub struct ConfigSnapshot {
    pub corr: u64,
    pub config: Config,
}

/// Asks for the settings to be replaced.
pub struct SetConfigReq {
    pub corr: u64,
    pub config: Config,
}

/// How a request to replace the settings ended.
pub struct SetConfigResult {
    pub corr: u64,
    pub error: Option<String>,
}

/// Broadcast after the settings were replaced.
pub struct ConfigChanged {
    pub config: Config,
}

/// Owns the settings in force.
pub struct ConfigStore {
    path: String,
    current: Config,
}

/// Why settings are refused, if they are. `addr_ok` says whether the UI's bind address is a
/// socket address.
pub open spec fn refusal(c: ConfigView, addr_ok: bool) -> Option<Seq<char>> {
    if trimmed(c.server.host).len() == 0 {
        Some("server host must not be empty"@)
    } else if !addr_ok {
        Some("invalid ui bind address: "@ + c.ui.bind_addr)
    } else {
        None
    }
}

/// What to do with a request to replace the settings.
pub enum SetStep {
    /// Write these settings to the store's file, then report how that went.
    Save { corr: u64, config: Config },
    /// Answer the request; nothing changes.
    Refuse(SetConfigResult),
}

impl ConfigStore {
    /// The settings in force.
    pub closed spec fn settings(&self) -> ConfigView {
        self.current@
    }

    /// Where they are kept.
    pub closed spec fn file(&self) -> Seq<char> {
        self.path@
    }

    pub fn new(ctx: &AppContext) -> (r: Self)
        ensures
            r.settings() == ctx.config@,
            r.file() == ctx.config_path@,
    {
        ConfigStore { path: ctx.config_path.clone(), current: ctx.config.clone() }
    }

    /// Where the settings are kept.
    pub fn path(&self) -> (r: &str)
        ensures
            r@ == self.file(),
    {
        self.path.as_str()
    }

    /// Whether settings can be put in force. `addr_ok` says whether the UI's bind address is a
    /// socket address.
    pub fn validate(config: &Config, addr_ok: bool) -> (r: Result<(), String>)
        ensures
            match r {
                Ok(()) => refusal(config@, addr_ok) is None,
                Err(e) => refusal(config@, addr_ok) == Some(e@),
            },
    {
        if is_blank(config.server.host.as_str()) {
            return Err("server host must not be empty".to_owned());
        }
        if !addr_ok {
            let mut e = "invalid ui bind address: ".to_owned();
            e.append(config.ui.bind_addr.as_str());
            return Err(e);
        }
        Ok(())
    }

    /// Answers a request for the settings in force.
    pub fn get_config(&self, message: &GetConfigReq) -> (r: ConfigSnapshot)
        ensures
            r.corr == message.corr,
            r.config@ == self.settings(),
    {
        ConfigSnapshot { corr: message.corr, config: self.current.clone() }
    }

    /// Takes up a request to replace the settings: refused at once where they are not valid,
    /// to be saved otherwise. Nothing is in force before it is saved.
    pub fn set_config(&self, message: &SetConfigReq, addr_ok: bool) -> (r: SetStep)
        ensures
            match r {
                SetStep::Save { corr, config } => refusal(message.config@, addr_ok) is None
                    && corr == message.corr && config@ == message.config@,
                SetStep::Refuse(answer) => refusal(message.config@, addr_ok) is Some && answer.corr
                    == message.corr && ov(answer.error) == refusal(message.config@, addr_ok),
            },
    {
        match Self::validate(&message.config, addr_ok) {
            Ok(()) => SetStep::Save { corr: message.corr, config: message.config.clone() },
            Err(e) => SetStep::Refuse(SetConfigResult { corr: message.corr, error: Some(e) }),
        }
    }

    /// Finishes a request whose settings were handed out for saving: they are in force, and
    /// announced, if and only if they were saved.
    pub fn saved(&mut self, corr: u64, config: Config, outcome: Result<(), String>) -> (r: (
        Option<ConfigChanged>,
        SetConfigResult,
    ))
        ensures
            final(self).file() == old(self).file(),
            r.1.corr == corr,
            outcome matches Ok(()) ==> {
                &&& final(self).settings() == config@
                &&& r.0 is Some
                &&& r.0->0.config@ == config@
                &&& r.1.error is None
            },
            outcome matches Err(e) ==> {
                &&& final(self).settings() == old(self).settings()
                &&& r.0 is None
                &&& r.1.error == Some(e)
            },
    {
        match outcome {
            Ok(()) => {
                self.current = config;
                (
                    Some(ConfigChanged { config: self.current.clone() }),
                    SetConfigResult { corr, error: None },
                )
            },
            Err(e) => (None, SetConfigResult { corr, error: Some(e) }),
        }
    }
}

/// Paths are joined by one separator: where the first ends with one, no other is put in.
pub proof fn law_paths_are_joined_by_one_separator(base: Seq<char>, leaf: Seq<char>)
    requires
        base.len() > 0,
        base.last() != '/',
    ensures
        joined(base, leaf) == base.push('/') + leaf,
        joined(base.push('/'), leaf) == base.push('/') + leaf,
        joined(Seq::empty(), leaf) == leaf,
{
    reveal_strlit("/");
    assert(base + "/"@ =~= base.push('/'));
    assert(Seq::<char>::empty() + leaf =~= leaf);
}

/// Downloads go where the settings say, and where they say nothing into a folder of the user's own
/// downloads; unfinished ones go into a folder of that, unless the settings say otherwise.
pub proof fn law_downloads_go_where_the_settings_say(c: SharingView, home: Seq<char>)
    requires
        home.len() > 0,
        home.last() != '/',
    ensures
        trimmed(c.download_dir).len() > 0 ==> download_path_of(c, home) == c.download_dir,
        trimmed(c.download_dir).len() == 0 ==> download_path_of(c, home) == home
            + "/Downloads/soulrust"@,
        trimmed(c.incomplete_dir).len() > 0 ==> incomplete_path_of(c, home) == c.incomplete_dir,
        trimmed(c.incomplete_dir).len() == 0 ==> incomplete_path_of(c, home) == joined(
            download_path_of(c, home),
            "incomplete"@,
        ),
{
    reveal_strlit("/");
    reveal_strlit("Downloads");
    reveal_strlit("soulrust");
    reveal_strlit("/Downloads/soulrust");
    let first = home + "/"@ + "Downloads"@;
    assert(first.last() == 's');
    assert("/Downloads/soulrust"@ =~= "/"@ + "Downloads"@ + "/"@ + "soulrust"@);
    assert(first + "/"@ + "soulrust"@ =~= home + "/Downloads/soulrust"@);
}

/// Settings are refused if and only if they name no server, or no address to serve the pages at.
pub proof fn law_settings_need_a_server_and_an_address(c: ConfigView, addr_ok: bool)
    ensures
        refusal(c, addr_ok) is None <==> trimmed(c.server.host).len() > 0 && addr_ok,
{
}

/// A port survives the bus, whichever it is.
pub proof fn law_ports_survive_the_bus(port: u16)
    ensures
        low16(port as u32) == port,
{
}

/// The settings stand where the system keeps settings, or else in the user's own folder for them.
pub proof fn law_the_settings_stand_in_their_folder(dir: Seq<char>, home: Seq<char>)
    requires
        dir.len() > 0,
        dir.last() != '/',
        home.len() > 0,
        home.last() != '/',
    ensures
        config_path_of(Some(dir), home) == dir + "/soulrust.yaml"@,
        config_path_of(None, home) == home + "/.config/soulrust.yaml"@,
        config_path_of(Some(Seq::empty()), home) == home + "/.config/soulrust.yaml"@,
{
    reveal_strlit("/");
    reveal_strlit(".config");
    reveal_strlit("soulrust.yaml");
    reveal_strlit("/soulrust.yaml");
    reveal_strlit("/.config/soulrust.yaml");
    assert(dir + "/"@ + "soulrust.yaml"@ =~= dir + "/soulrust.yaml"@);
    let first = home + "/"@ + ".config"@;
    assert(first.last() == 'g');
    assert("/.config/soulrust.yaml"@ =~= "/"@ + ".config"@ + "/"@ + "soulrust.yaml"@);
    assert(first + "/"@ + "soulrust.yaml"@ =~= home + "/.config/soulrust.yaml"@);
}

} // verus!
