//! Updates of the program itself: what a check leads to, and when a download is applied.
use vstd::prelude::*;
use vstd::string::*;

use crate::config::{join_path, joined, AppContext, Config, UpdateConfig, UpdateView};
use crate::github::{
    asset_name, asset_named, expected_asset_name, is_newer, newer, pick_asset, tag_version,
    GithubReleases, Release, ReleaseView,
};
use crate::text::{group_views, trim_start_char, views};

verus! {

broadcast use group_views;

/// The version of this program.
pub const VERSION: &'static str = "0.1.0";

/// Where an update stands.
#[derive(Debug, PartialEq)]
pub enum UpdaterStatus<S> {
    Checking,
    UpToDate { current: S },
    Available { latest: S },
    Downloading { latest: S },
    ReadyToApply { latest: S },
    RestartRequired { latest: S },
    Failed { error: S },
    Skipped { reason: S },
}

pub type Status = UpdaterStatus<String>;

pub type StatusView = UpdaterStatus<Seq<char>>;

impl View for UpdaterStatus<String> {
    type V = StatusView;

    open spec fn view(&self) -> StatusView {
        match self {
            UpdaterStatus::Checking => UpdaterStatus::Checking,
            UpdaterStatus::UpToDate { current } => UpdaterStatus::UpToDate { current: current@ },
            UpdaterStatus::Available { latest } => UpdaterStatus::Available { latest: latest@ },
            UpdaterStatus::Downloading { latest } => UpdaterStatus::Downloading { latest: latest@ },
            UpdaterStatus::ReadyToApply { latest } => UpdaterStatus::ReadyToApply {
                latest: latest@,
            },
            UpdaterStatus::RestartRequired { latest } => UpdaterStatus::RestartRequired {
                latest: latest@,
            },
            UpdaterStatus::Failed { error } => UpdaterStatus::Failed { error: error@ },
            UpdaterStatus::Skipped { reason } => UpdaterStatus::Skipped { reason: reason@ },
        }
    }
}

impl Clone for UpdaterStatus<String> {
    fn clone(&self) -> (r: Self)
        ensures
            r@ == self@,
    {
        match self {
            UpdaterStatus::Checking => UpdaterStatus::Checking,
            UpdaterStatus::UpToDate { current } => UpdaterStatus::UpToDate {
                current: current.clone(),
            },
            UpdaterStatus::Available { latest } => UpdaterStatus::Available {
                latest: latest.clone(),
            },
            UpdaterStatus::Downloading { latest } => UpdaterStatus::Downloading {
                latest: latest.clone(),
            },
            UpdaterStatus::ReadyToApply { latest } => UpdaterStatus::ReadyToApply {
                latest: latest.clone(),
            },
            UpdaterStatus::RestartRequired { latest } => UpdaterStatus::RestartRequired {
                latest: latest.clone(),
            },
            UpdaterStatus::Failed { error } => UpdaterStatus::Failed { error: error.clone() },
            UpdaterStatus::Skipped { reason } => UpdaterStatus::Skipped { reason: reason.clone() },
        }
    }
}

/// Which status a message on the bus carries.
#[derive(Debug, Clone, Copy, PartialEq, Eq, Structural)]
pub enum UpdaterStatusKind {
    Checking,
    UpToDate,
    Available,
    Downloading,
    ReadyToApply,
    RestartRequired,
    Failed,
    Skipped,
}

/// A status as the bus carries it: a kind, and the texts that go with some of them.
#[derive(Debug, PartialEq)]
pub struct UpdaterStatusChanged<S> {
    /// `None` is a kind that this version does not know.
    pub kind: Option<UpdaterStatusKind>,
    pub current: S,
    pub latest: S,
    pub error: S,
    pub reason: S,
}

impl View for UpdaterStatusChanged<String> {
    type V = UpdaterStatusChanged<Seq<char>>;

    open spec fn view(&self) -> UpdaterStatusChanged<Seq<char>> {
        UpdaterStatusChanged {
            kind: self.kind,
            current: self.current@,
            latest: self.latest@,
            error: self.error@,
            reason: self.reason@,
        }
    }
}

/// A message that carries a kind and no texts.
pub open spec fn bare_status(kind: UpdaterStatusKind) -> UpdaterStatusChanged<Seq<char>> {
    UpdaterStatusChanged {
        kind: Some(kind),
        current: Seq::empty(),
        latest: Seq::empty(),
        error: Seq::empty(),
        reason: Seq::empty(),
    }
}

/// A status as the bus carries it.
pub open spec fn status_to_bus(s: StatusView) -> UpdaterStatusChanged<Seq<char>> {
    match s {
        UpdaterStatus::Checking => bare_status(UpdaterStatusKind::Checking),
        UpdaterStatus::UpToDate { current } => UpdaterStatusChanged {
            current,
            ..bare_status(UpdaterStatusKind::UpToDate)
        },
        UpdaterStatus::Available { latest } => UpdaterStatusChanged {
            latest,
            ..bare_status(UpdaterStatusKind::Available)
        },
        UpdaterStatus::Downloading { latest } => UpdaterStatusChanged {
            latest,
            ..bare_status(UpdaterStatusKind::Downloading)
        },
        UpdaterStatus::ReadyToApply { latest } => UpdaterStatusChanged {
            latest,
            ..bare_status(UpdaterStatusKind::ReadyToApply)
        },
        UpdaterStatus::RestartRequired { latest } => UpdaterStatusChanged {
            latest,
            ..bare_status(UpdaterStatusKind::RestartRequired)
        },
        UpdaterStatus::Failed { error } => UpdaterStatusChanged {
            error,
            ..bare_status(UpdaterStatusKind::Failed)
        },
        UpdaterStatus::Skipped { reason } => UpdaterStatusChanged {
            reason,
            ..bare_status(UpdaterStatusKind::Skipped)
        },
    }
}

/// The status that a message on the bus carries; an unknown kind counts as a check.
pub open spec fn status_from_bus(m: UpdaterStatusChanged<Seq<char>>) -> StatusView {
    match m.kind {
        Some(UpdaterStatusKind::UpToDate) => UpdaterStatus::UpToDate { current: m.current },
        Some(UpdaterStatusKind::Available) => UpdaterStatus::Available { latest: m.latest },
        Some(UpdaterStatusKind::Downloading) => UpdaterStatus::Downloading { latest: m.latest },
        Some(UpdaterStatusKind::ReadyToApply) => UpdaterStatus::ReadyToApply { latest: m.latest },
        Some(UpdaterStatusKind::RestartRequired) => UpdaterStatus::RestartRequired {
            latest: m.latest,
        },
        Some(UpdaterStatusKind::Failed) => UpdaterStatus::Failed { error: m.error },
        Some(UpdaterStatusKind::Skipped) => UpdaterStatus::Skipped { reason: m.reason },
        _ => UpdaterStatus::Checking,
    }
}

/// A status comes off the bus as it was put there.
pub proof fn law_status_survives_the_bus(s: StatusView)
    ensures
        status_from_bus(status_to_bus(s)) == s,
{
}

fn bare(kind: UpdaterStatusKind) -> (r: UpdaterStatusChanged<String>)
    ensures
        r@ == bare_status(kind),
{
    let r = UpdaterStatusChanged {
        kind: Some(kind),
        current: String::new(),
        latest: String::new(),
        error: String::new(),
        reason: String::new(),
    };
    assert(r@.current =~= Seq::<char>::empty());
    assert(r@.latest =~= Seq::<char>::empty());
    assert(r@.error =~= Seq::<char>::empty());
    assert(r@.reason =~= Seq::<char>::empty());
    r
}

/// A status for the bus.
pub fn send_status(status: Status) -> (r: UpdaterStatusChanged<String>)
    ensures
        r@ == status_to_bus(status@),
{
    match status {
        UpdaterStatus::Checking => bare(UpdaterStatusKind::Checking),
        UpdaterStatus::UpToDate { current } => {
            let mut r = bare(UpdaterStatusKind::UpToDate);
            r.current = current;
            r
        },
        UpdaterStatus::Available { latest } => {
            let mut r = bare(UpdaterStatusKind::Available);
            r.latest = latest;
            r
        },
        UpdaterStatus::Downloading { latest } => {
            let mut r = bare(UpdaterStatusKind::Downloading);
            r.latest = latest;
            r
        },
        UpdaterStatus::ReadyToApply { latest } => {
            let mut r = bare(UpdaterStatusKind::ReadyToApply);
            r.latest = latest;
            r
        },
        UpdaterStatus::RestartRequired { latest } => {
            let mut r = bare(UpdaterStatusKind::RestartRequired);
            r.latest = latest;
            r
        },
        UpdaterStatus::Failed { error } => {
            let mut r = bare(UpdaterStatusKind::Failed);
            r.error = error;
            r
        },
        UpdaterStatus::Skipped { reason } => {
            let mut r = bare(UpdaterStatusKind::Skipped);
            r.reason = reason;
            r
        },
    }
}

/// The status that came off the bus.
pub fn local_updater_status(m: &UpdaterStatusChanged<String>) -> (r: Status)
    ensures
        r@ == status_from_bus(m@),
{
    match m.kind {
        Some(UpdaterStatusKind::UpToDate) => UpdaterStatus::UpToDate { current: m.current.clone() },
        Some(UpdaterStatusKind::Available) => UpdaterStatus::Available { latest: m.latest.clone() },
        Some(UpdaterStatusKind::Downloading) => UpdaterStatus::Downloading {
            latest: m.latest.clone(),
        },
        Some(UpdaterStatusKind::ReadyToApply) => UpdaterStatus::ReadyToApply {
            latest: m.latest.clone(),
        },
        Some(UpdaterStatusKind::RestartRequired) => UpdaterStatus::RestartRequired {
            latest: m.latest.clone(),
        },
        Some(UpdaterStatusKind::Failed) => UpdaterStatus::Failed { error: m.error.clone() },
        Some(UpdaterStatusKind::Skipped) => UpdaterStatus::Skipped { reason: m.reason.clone() },
        _ => UpdaterStatus::Checking,
    }
}

/// A new version was fetched to a path.
#[derive(Debug, PartialEq)]
pub struct UpdateDownloaded<S> {
    pub latest: S,
    pub artifact: S,
}

impl View for UpdateDownloaded<String> {
    type V = UpdateDownloaded<Seq<char>>;

    open spec fn view(&self) -> UpdateDownloaded<Seq<char>> {
        UpdateDownloaded { latest: self.latest@, artifact: self.artifact@ }
    }
}

/// A file to fetch.
pub struct Fetch<S> {
    pub latest: S,
    pub url: S,
    pub artifact: S,
}

impl View for Fetch<String> {
    type V = Fetch<Seq<char>>;

    open spec fn view(&self) -> Fetch<Seq<char>> {
        Fetch { latest: self.latest@, url: self.url@, artifact: self.artifact@ }
    }
}

/// The platform that the program runs on, and the directory of its executable.
pub struct Platform {
    pub arch: String,
    pub os: String,
    pub exe_dir: String,
}

/// What a release is worth: what is told, and what is fetched where it is newer than the running
/// version and has a file for this platform.
pub open spec fn on_release(
    platform: Platform,
    release: ReleaseView,
) -> (Seq<StatusView>, Option<Fetch<Seq<char>>>) {
    let expected = asset_name(platform.arch@, platform.os@);
    let latest = tag_version(release.tag);
    match newer(release.tag, VERSION@) {
        Err(error) => (seq![StatusView::Failed { error }], None),
        Ok(false) => (seq![StatusView::UpToDate { current: VERSION@ }], None),
        Ok(true) => match asset_named(release.assets, expected) {
            None => (
                seq![
                    StatusView::Available { latest },
                    StatusView::Failed {
                        error: "release "@ + release.tag + " has no asset named "@ + expected,
                    },
                ],
                None,
            ),
            Some(asset) => (
                seq![StatusView::Available { latest }, StatusView::Downloading { latest }],
                Some(
                    Fetch {
                        latest,
                        url: asset.download_url,
                        artifact: joined(platform.exe_dir@, ".soulrust-update-"@ + latest),
                    },
                ),
            ),
        },
    }
}

/// Decides on a release.
pub fn judge_release(platform: &Platform, release: &Release) -> (r: (
    Vec<Status>,
    Option<Fetch<String>>,
))
    ensures
        views(r.0@) == on_release(*platform, release@).0,
        match r.1 {
            Some(fetch) => on_release(*platform, release@).1 == Some(fetch@),
            None => on_release(*platform, release@).1 is None,
        },
{
    let ghost want = on_release(*platform, release@).0;
    let mut told: Vec<Status> = Vec::new();
    match is_newer(release.tag.as_str(), VERSION) {
        Err(error) => {
            told.push(UpdaterStatus::Failed { error });
            assert(views(told@) =~= want);
            (told, None)
        },
        Ok(false) => {
            told.push(UpdaterStatus::UpToDate { current: VERSION.to_owned() });
            assert(views(told@) =~= want);
            (told, None)
        },
        Ok(true) => {
            let latest = trim_start_char(release.tag.as_str(), 'v').to_owned();
            told.push(UpdaterStatus::Available { latest: latest.clone() });
            let expected = expected_asset_name(platform.arch.as_str(), platform.os.as_str());
            match pick_asset(release, expected.as_str()) {
                None => {
                    let mut error = "release ".to_owned();
                    error.append(release.tag.as_str());
                    error.append(" has no asset named ");
                    error.append(expected.as_str());
                    told.push(UpdaterStatus::Failed { error });
                    assert(views(told@) =~= want);
                    (told, None)
                },
                Some(asset) => {
                    told.push(UpdaterStatus::Downloading { latest: latest.clone() });
                    let mut name = ".soulrust-update-".to_owned();
                    name.append(latest.as_str());
                    let artifact = join_path(platform.exe_dir.as_str(), name.as_str());
                    assert(views(told@) =~= want);
                    (told, Some(Fetch { latest, url: asset.download_url.clone(), artifact }))
                },
            }
        },
    }
}

/// What a whole check tells, and what it downloaded.
pub struct Checked {
    pub told: Vec<Status>,
    pub downloaded: Option<UpdateDownloaded<String>>,
}

pub struct CheckedView {
    pub told: Seq<StatusView>,
    pub downloaded: Option<UpdateDownloaded<Seq<char>>>,
}

impl View for Checked {
    type V = CheckedView;

    open spec fn view(&self) -> CheckedView {
        CheckedView {
            told: views(self.told@),
            downloaded: match self.downloaded {
                Some(d) => Some(d@),
                None => None,
            },
        }
    }
}

/// What a check amounts to, given what the lookup and the download came to. Failing to look up a
/// release is no failure of the program: the check is skipped.
pub open spec fn on_check(
    platform: Platform,
    lookup: Result<ReleaseView, Seq<char>>,
    download: Result<(), Seq<char>>,
) -> CheckedView {
    match lookup {
        Err(error) => CheckedView {
            told: seq![
                StatusView::Checking,
                StatusView::Skipped { reason: "couldn't check for updates: "@ + error },
            ],
            downloaded: None,
        },
        Ok(release) => {
            let (told, fetch) = on_release(platform, release);
            match fetch {
                None => CheckedView { told: seq![StatusView::Checking] + told, downloaded: None },
                Some(f) => match download {
                    Ok(()) => CheckedView {
                        told: seq![StatusView::Checking] + told,
                        downloaded: Some(
                            UpdateDownloaded { latest: f.latest, artifact: f.artifact },
                        ),
                    },
                    Err(error) => CheckedView {
                        told: (seq![StatusView::Checking] + told).push(
                            StatusView::Failed { error },
                        ),
                        downloaded: None,
                    },
                },
            }
        },
    }
}

pub open spec fn lookup_view(r: Result<Release, String>) -> Result<ReleaseView, Seq<char>> {
    match r {
        Ok(release) => Ok(release@),
        Err(e) => Err(e@),
    }
}

pub open spec fn download_view(r: Result<(), String>) -> Result<(), Seq<char>> {
    match r {
        Ok(()) => Ok(()),
        Err(e) => Err(e@),
    }
}

/// Whether a check of a repository may have come by these results: the lookup is of that
/// repository, and the download, where there is one, of the file that the lookup points to.
pub open spec fn checked_with<G: GithubReleases>(
    api: &G,
    repo: Seq<char>,
    platform: Platform,
    lookup: Result<Release, String>,
    download: Result<(), String>,
) -> bool {
    &&& api.may_find(repo, lookup)
    &&& match lookup {
        Ok(release) => on_release(platform, release@).1 matches Some(f) ==> api.may_fetch(
            f.url,
            f.artifact,
            download,
        ),
        Err(_) => true,
    }
}

/// What the lookup of a release comes to.
pub fn finish_lookup(platform: &Platform, lookup: Result<Release, String>) -> (r: (
    Vec<Status>,
    Option<Fetch<String>>,
))
    ensures
        forall|download: Result<(), Seq<char>>|
            r.1 is None ==> #[trigger] on_check(*platform, lookup_view(lookup), download) == (
            CheckedView { told: views(r.0@), downloaded: None }),
        r.1 matches Some(f) ==> lookup is Ok && on_release(*platform, lookup->Ok_0@).1 == Some(f@)
            && views(r.0@) == seq![StatusView::Checking] + on_release(
            *platform,
            lookup->Ok_0@,
        ).0,
{
    let mut told: Vec<Status> = Vec::new();
    told.push(UpdaterStatus::Checking);
    match lookup {
        Err(error) => {
            let mut reason = "couldn't check for updates: ".to_owned();
            reason.append(error.as_str());
            told.push(UpdaterStatus::Skipped { reason });
            assert(views(told@) =~= on_check(
                *platform,
                lookup_view(lookup),
                Ok::<(), Seq<char>>(()),
            ).told);
            (told, None)
        },
        Ok(release) => {
            let (mut more, fetch) = judge_release(platform, &release);
            let ghost later = views(more@);
            told.append(&mut more);
            assert(views(told@) =~= seq![StatusView::Checking] + later);
            (told, fetch)
        },
    }
}

/// Checks for an update: looks the latest release up, and fetches its file for this platform where
/// it is newer than the running version. What is told and downloaded follows from what the lookup
/// and the download come to.
pub fn run_check<G: GithubReleases>(repo: &str, api: &G, platform: &Platform) -> (r: Checked)
    ensures
        exists|lookup: Result<Release, String>, download: Result<(), String>| #[trigger]
            checked_with(api, repo@, *platform, lookup, download) && r@ == on_check(
                *platform,
                lookup_view(lookup),
                download_view(download),
            ),
{
    let lookup = api.latest_release(repo);
    let ghost looked = lookup;
    let ghost found = lookup_view(lookup);
    let (mut told, fetch) = finish_lookup(platform, lookup);
    match fetch {
        None => {
            let r = Checked { told, downloaded: None };
            let ghost download = Ok::<(), String>(());
            assert(checked_with(api, repo@, *platform, looked, download));
            assert(r@ == on_check(*platform, found, download_view(download)));
            r
        },
        Some(f) => {
            let fetched = api.download(f.url.as_str(), f.artifact.as_str());
            let ghost download = fetched;
            assert(checked_with(api, repo@, *platform, looked, download));
            match fetched {
                Ok(_) => {
                    let r = Checked {
                        told,
                        downloaded: Some(
                            UpdateDownloaded { latest: f.latest, artifact: f.artifact },
                        ),
                    };
                    assert(r@ == on_check(*platform, found, download_view(download)));
                    r
                },
                Err(error) => {
                    told.push(UpdaterStatus::Failed { error });
                    let r = Checked { told, downloaded: None };
                    assert(r@ == on_check(*platform, found, download_view(download)));
                    r
                },
            }
        },
    }
}

/// What a check without a writable executable directory tells: it is skipped for that reason.
pub fn skip_check(reason: String) -> (r: Status)
    ensures
        r@ == (StatusView::Skipped { reason: reason@ }),
{
    UpdaterStatus::Skipped { reason }
}

/// What follows a download, or a request to apply one.
pub enum UpdateStep {
    /// Tell this, and nothing more is to do.
    Tell(Status),
    /// Replace the executable by the artifact, and say how it went.
    Apply { latest: String, artifact: String },
    /// There is nothing to apply.
    Refuse(String),
}

/// The updater.
pub struct Updater {
    auto_apply: bool,
    update_config: UpdateConfig,
    /// A download that waits to be applied: version and path.
    pending: Option<(String, String)>,
}

pub struct UpdaterModel {
    pub auto_apply: bool,
    pub config: UpdateView,
    pub pending: Option<(Seq<char>, Seq<char>)>,
}

impl View for Updater {
    type V = UpdaterModel;

    closed spec fn view(&self) -> UpdaterModel {
        UpdaterModel {
            auto_apply: self.auto_apply,
            config: self.update_config@,
            pending: match self.pending {
                Some((latest, artifact)) => Some((latest@, artifact@)),
                None => None,
            },
        }
    }
}

/// What an attempt to apply an update tells.
pub open spec fn applied_told(latest: Seq<char>, failure: Option<Seq<char>>) -> StatusView {
    match failure {
        None => StatusView::RestartRequired { latest },
        Some(error) => StatusView::Failed { error },
    }
}

/// What an attempt to apply an update tells.
pub fn applied(latest: String, failure: Option<String>) -> (r: Status)
    ensures
        r@ == applied_told(latest@, crate::text::ov(failure)),
{
    match failure {
        None => UpdaterStatus::RestartRequired { latest },
        Some(error) => UpdaterStatus::Failed { error },
    }
}

impl Updater {
    pub fn new(ctx: &AppContext) -> (r: Updater)
        ensures
            r@ == (UpdaterModel {
                auto_apply: ctx.config@.update.auto_apply,
                config: ctx.config@.update,
                pending: None,
            }),
    {
        Updater {
            auto_apply: ctx.config.update.auto_apply,
            update_config: ctx.config.update.clone(),
            pending: None,
        }
    }

    /// An updater with default settings.
    pub fn for_test(auto_apply: bool) -> (r: Updater)
        ensures
            r@ == (UpdaterModel {
                auto_apply,
                config: crate::config::default_update(),
                pending: None,
            }),
    {
        Updater { auto_apply, update_config: UpdateConfig::default(), pending: None }
    }

    /// Whether downloads are applied by themselves.
    pub fn applies_by_itself(&self) -> (r: bool)
        ensures
            r == self@.auto_apply,
    {
        self.auto_apply
    }

    /// The repository whose releases are looked up.
    pub fn repo(&self) -> (r: &str)
        ensures
            r@ == self@.config.repo,
    {
        self.update_config.repo.as_str()
    }

    /// Whether a download waits to be applied.
    pub fn has_pending(&self) -> (r: bool)
        ensures
            r == (self@.pending is Some),
    {
        self.pending.is_some()
    }

    /// What is told at the start where checks are switched off; otherwise a check is to run.
    pub fn start(&self) -> (r: Option<Status>)
        ensures
            match r {
                Some(s) => !self@.config.enabled && s@ == (StatusView::Skipped {
                    reason: "disabled in configuration"@,
                }),
                None => self@.config.enabled,
            },
    {
        if self.update_config.enabled {
            None
        } else {
            Some(UpdaterStatus::Skipped { reason: "disabled in configuration".to_owned() })
        }
    }

    /// The settings changed: they apply from now on.
    pub fn config_changed(&mut self, config: &Config)
        ensures
            final(self)@ == (UpdaterModel {
                auto_apply: config@.update.auto_apply,
                config: config@.update,
                pending: old(self)@.pending,
            }),
    {
        self.auto_apply = config.update.auto_apply;
        self.update_config = config.update.clone();
    }

    /// A new version was downloaded: it is applied at once, or waits until it is asked for.
    pub fn update_downloaded(&mut self, message: &UpdateDownloaded<String>) -> (r: UpdateStep)
        ensures
            if old(self)@.auto_apply {
                &&& final(self)@ == old(self)@
                &&& r matches UpdateStep::Apply { latest, artifact } && latest@ == message@.latest
                    && artifact@ == message@.artifact
            } else {
                &&& final(self)@ == (UpdaterModel {
                    pending: Some((message@.latest, message@.artifact)),
                    ..old(self)@
                })
                &&& r matches UpdateStep::Tell(s) && s@ == (StatusView::ReadyToApply {
                    latest: message@.latest,
                })
            },
    {
        if self.auto_apply {
            UpdateStep::Apply {
                latest: message.latest.clone(),
                artifact: message.artifact.clone(),
            }
        } else {
            self.pending = Some((message.latest.clone(), message.artifact.clone()));
            UpdateStep::Tell(UpdaterStatus::ReadyToApply { latest: message.latest.clone() })
        }
    }

    /// The user asks for the waiting download to be applied: it no longer waits then, however
    /// applying it goes.
    pub fn apply_request(&mut self) -> (r: UpdateStep)
        ensures
            final(self)@ == (UpdaterModel { pending: None, ..old(self)@ }),
            match old(self)@.pending {
                Some((latest, artifact)) => r matches UpdateStep::Apply { latest: l, artifact: a }
                    && l@ == latest && a@ == artifact,
                None => r matches UpdateStep::Refuse(reason) && reason@
                    == "no downloaded update is pending"@,
            },
    {
        match self.pending.take() {
            Some((latest, artifact)) => UpdateStep::Apply { latest, artifact },
            None => UpdateStep::Refuse("no downloaded update is pending".to_owned()),
        }
    }
}

/// Nothing is downloaded unless the release is newer than the running version and has a file for
/// this very platform.
pub proof fn law_only_newer_releases_are_fetched(platform: Platform, release: ReleaseView)
    ensures
        on_release(platform, release).1 is Some <==> newer(release.tag, VERSION@) == Ok::<
            bool,
            Seq<char>,
        >(true) && asset_named(release.assets, asset_name(platform.arch@, platform.os@)) is Some,
{
}

/// A newer release with an asset for this platform is fetched from that asset's address, beside
/// the executable; what is told names the version of the release.
pub proof fn law_the_platforms_own_asset_is_fetched(
    platform: Platform,
    release: ReleaseView,
    k: int,
)
    requires
        newer(release.tag, VERSION@) == Ok::<bool, Seq<char>>(true),
        0 <= k < release.assets.len(),
        release.assets[k].name == "soulrust-"@ + platform.arch@ + "-"@ + platform.os@,
        forall|i: int|
            0 <= i < k ==> (#[trigger] release.assets[i]).name != "soulrust-"@ + platform.arch@
                + "-"@ + platform.os@,
    ensures
        ({
            let (told, fetch) = on_release(platform, release);
            let latest = tag_version(release.tag);
            &&& fetch matches Some(f) && f.url == release.assets[k].download_url && f.latest
                == latest && f.artifact == joined(
                platform.exe_dir@,
                ".soulrust-update-"@ + latest,
            )
            &&& told.len() == 2
            &&& told[0] == (StatusView::Available { latest })
            &&& told[1] == (StatusView::Downloading { latest })
        }),
{
    crate::github::law_an_asset_is_found_by_name(
        release.assets,
        asset_name(platform.arch@, platform.os@),
        k,
    );
}

/// A check that comes to nothing says why: that the release is no newer, or what failed.
pub proof fn law_a_check_says_how_it_went(
    platform: Platform,
    release: ReleaseView,
    error: Seq<char>,
    download: Result<(), Seq<char>>,
)
    ensures
        on_check(platform, Err(error), download).told.len() == 2 && on_check(
            platform,
            Err(error),
            download,
        ).told[1] is Skipped && on_check(platform, Err(error), download).downloaded is None,
        newer(release.tag, VERSION@) == Ok::<bool, Seq<char>>(false) ==> on_check(
            platform,
            Ok(release),
            download,
        ).told.last() == (StatusView::UpToDate { current: VERSION@ }) && on_check(
            platform,
            Ok(release),
            download,
        ).downloaded is None,
        on_check(platform, Ok(release), Err(error)).downloaded is None,
        on_release(platform, release).1 is Some ==> on_check(
            platform,
            Ok(release),
            Err(error),
        ).told.last() == (StatusView::Failed { error }),
        on_release(platform, release).1 matches Some(f) ==> on_check(
            platform,
            Ok(release),
            Ok(()),
        ).downloaded == Some(UpdateDownloaded { latest: f.latest, artifact: f.artifact }),
        on_check(platform, Ok(release), download).told[0] is Checking,
{
}

/// An update that is applied asks for a restart, and one that is not says why.
pub proof fn law_an_applied_update_asks_for_a_restart(latest: Seq<char>, error: Seq<char>)
    ensures
        applied_told(latest, None) == (StatusView::RestartRequired { latest }),
        applied_told(latest, Some(error)) == (StatusView::Failed { error }),
{
}

} // verus!
