//! Releases and updates.
use soulrust::config::Config;
use soulrust::github::{
    expected_asset_name, is_newer, pick_asset, release_from_json, Asset, GithubReleases, Release,
};
use soulrust::json::Json;
use soulrust::updater::{
    applied, local_updater_status, run_check, send_status, skip_check, Platform, UpdateDownloaded,
    UpdateStep, Updater, UpdaterStatus,
};

#[test]
fn version_comparison_strips_v_prefix() {
    assert!(is_newer("v0.2.0", "0.1.0").unwrap());
    assert!(is_newer("0.1.1", "0.1.0").unwrap());
    assert!(!is_newer("v0.1.0", "0.1.0").unwrap());
    assert!(!is_newer("v0.0.9", "0.1.0").unwrap());
    assert!(is_newer("not-a-version", "0.1.0").is_err());
    assert_eq!(
        is_newer("not-a-version", "0.1.0"),
        Err(format!(
            "release tag {:?} is not semver: {}",
            "not-a-version",
            semver::Version::parse("not-a-version").unwrap_err()
        ))
    );
    assert!(is_newer("1.0.0", "x").unwrap_err().starts_with("current version \"x\" is not semver"));
}

#[test]
fn version_comparison_orders_prereleases_below_their_release() {
    assert!(!is_newer("v0.1.0-beta", "0.1.0").unwrap(), "prerelease is not newer than release");
    assert!(is_newer("v0.1.0", "0.1.0-beta").unwrap(), "release is newer than its prerelease");
    assert!(is_newer("v0.2.0-beta", "0.2.0-alpha").unwrap());
    assert!(is_newer("v0.2.0-alpha", "0.1.0").unwrap(), "newer prerelease beats older release");
    assert!(!is_newer("v0.1.0-alpha", "0.1.0-beta").unwrap());
}

#[test]
fn picks_only_the_exact_platform_asset() {
    let release = Release {
        tag: "v0.2.0".into(),
        assets: vec![
            Asset { name: "soulrust-x86_64-linux".into(), download_url: "u1".into() },
            Asset { name: "soulrust-aarch64-macos".into(), download_url: "u2".into() },
            Asset { name: "checksums.txt".into(), download_url: "u3".into() },
        ],
    };
    assert_eq!(pick_asset(&release, "soulrust-aarch64-macos").unwrap().download_url, "u2");
    assert!(pick_asset(&release, "soulrust-riscv64-linux").is_none());
}

#[test]
fn releases_are_read_from_json() {
    let asset = |name: &str, url: Option<&str>| {
        let mut members = vec![("name".to_owned(), Json::Text(name.to_owned()))];
        if let Some(u) = url {
            members.push(("browser_download_url".to_owned(), Json::Text(u.to_owned())));
        }
        Json::Object(members)
    };
    let response = Json::Object(vec![
        ("tag_name".to_owned(), Json::Text("v1.2.3".to_owned())),
        (
            "assets".to_owned(),
            Json::Array(vec![asset("a", Some("u")), asset("b", None), asset("c", Some("w"))]),
        ),
    ]);
    assert_eq!(
        release_from_json(&response),
        Ok(Release {
            tag: "v1.2.3".into(),
            assets: vec![
                Asset { name: "a".into(), download_url: "u".into() },
                Asset { name: "c".into(), download_url: "w".into() },
            ],
        })
    );
    assert_eq!(
        release_from_json(&Json::Null),
        Err("release response missing tag_name".to_owned())
    );
}

struct MockGithub {
    tag: Result<&'static str, String>,
    with_asset: bool,
    download_result: Result<(), String>,
}

impl GithubReleases for MockGithub {
    fn latest_release(&self, repo: &str) -> Result<Release, String> {
        assert_eq!(repo, "owner/repo");
        let tag = self.tag.clone()?;
        let mut assets = Vec::new();
        if self.with_asset {
            assets.push(Asset {
                name: expected_asset_name("x86_64", "linux"),
                download_url: "https://example.com/asset".into(),
            });
        }
        Ok(Release { tag: tag.into(), assets })
    }

    fn download(&self, url: &str, _dest: &str) -> Result<(), String> {
        assert_eq!(url, "https://example.com/asset");
        self.download_result.clone()
    }
}

fn platform() -> Platform {
    Platform { arch: "x86_64".into(), os: "linux".into(), exe_dir: "/opt/soulrust".into() }
}

#[test]
fn up_to_date_release_reports_up_to_date() {
    let api = MockGithub { tag: Ok("v0.1.0"), with_asset: true, download_result: Ok(()) };
    let checked = run_check("owner/repo", &api, &platform());
    assert!(matches!(checked.told.last(), Some(UpdaterStatus::UpToDate { .. })));
    assert!(checked.downloaded.is_none());
}

#[test]
fn newer_release_downloads_and_reports_progress() {
    let api = MockGithub { tag: Ok("v9.9.9"), with_asset: true, download_result: Ok(()) };
    let checked = run_check("owner/repo", &api, &platform());
    assert!(checked.told.contains(&UpdaterStatus::Checking));
    assert!(checked.told.contains(&UpdaterStatus::Available { latest: "9.9.9".into() }));
    assert!(checked.told.contains(&UpdaterStatus::Downloading { latest: "9.9.9".into() }));
    let downloaded = checked.downloaded.unwrap();
    assert_eq!(downloaded.latest, "9.9.9");
    assert!(downloaded.artifact.starts_with("/opt/soulrust/"));
}

#[test]
fn a_failed_download_is_told() {
    let api = MockGithub {
        tag: Ok("v9.9.9"),
        with_asset: true,
        download_result: Err("reset".into()),
    };
    let checked = run_check("owner/repo", &api, &platform());
    assert!(matches!(
        checked.told.last(),
        Some(UpdaterStatus::Failed { error }) if error.contains("reset")
    ));
    assert!(checked.downloaded.is_none());
}

#[test]
fn missing_platform_asset_fails_loudly() {
    let api = MockGithub { tag: Ok("v9.9.9"), with_asset: false, download_result: Ok(()) };
    let checked = run_check("owner/repo", &api, &platform());
    assert!(matches!(
        checked.told.last(),
        Some(UpdaterStatus::Failed { error }) if error.contains("no asset named")
    ));
}

#[test]
fn api_error_skips_rather_than_failing() {
    let api =
        MockGithub { tag: Err("rate limited".into()), with_asset: true, download_result: Ok(()) };
    let checked = run_check("owner/repo", &api, &platform());
    assert!(matches!(
        checked.told.last(),
        Some(UpdaterStatus::Skipped { reason }) if reason.contains("rate limited")
    ));
}

#[test]
fn manual_mode_holds_download_until_apply_request() {
    let mut updater = Updater::for_test(false);
    let step = updater.update_downloaded(&UpdateDownloaded {
        latest: "9.9.9".to_owned(),
        artifact: "/tmp/soulrust-artifact".to_owned(),
    });
    assert!(matches!(
        step,
        UpdateStep::Tell(UpdaterStatus::ReadyToApply { latest }) if latest == "9.9.9"
    ));
    assert!(updater.has_pending());
    assert!(matches!(
        updater.apply_request(),
        UpdateStep::Apply { latest, artifact }
            if latest == "9.9.9" && artifact == "/tmp/soulrust-artifact"
    ));
    assert!(!updater.has_pending());
}

#[test]
fn config_change_updates_settings_live() {
    let mut updater = Updater::for_test(false);
    assert!(!updater.applies_by_itself());

    let mut config = Config::default();
    config.update.auto_apply = true;
    config.update.repo = "owner/newrepo".into();
    updater.config_changed(&config);

    assert!(updater.applies_by_itself(), "auto_apply flipped live");
    assert_eq!(updater.repo(), "owner/newrepo", "repo updated live");
}

#[test]
fn apply_without_pending_download_errors() {
    let mut updater = Updater::for_test(false);
    assert!(matches!(
        updater.apply_request(),
        UpdateStep::Refuse(e) if e == "no downloaded update is pending"
    ));
}

#[test]
fn automatic_mode_applies_at_once() {
    let mut updater = Updater::for_test(true);
    let step = updater.update_downloaded(&UpdateDownloaded {
        latest: "2.0.0".to_owned(),
        artifact: "/a".to_owned(),
    });
    assert!(matches!(step, UpdateStep::Apply { .. }));
    assert_eq!(
        applied("2.0.0".into(), None),
        UpdaterStatus::RestartRequired { latest: "2.0.0".into() }
    );
    assert_eq!(
        applied("2.0.0".into(), Some("busy".into())),
        UpdaterStatus::Failed { error: "busy".into() }
    );
    assert!(matches!(skip_check("dev".into()), UpdaterStatus::Skipped { .. }));
}

#[test]
fn statuses_survive_the_bus() {
    for status in [
        UpdaterStatus::Checking,
        UpdaterStatus::UpToDate { current: "0.1.0".to_owned() },
        UpdaterStatus::Available { latest: "1".to_owned() },
        UpdaterStatus::Failed { error: "e".to_owned() },
        UpdaterStatus::Skipped { reason: "r".to_owned() },
    ] {
        let copy = status.clone();
        assert_eq!(local_updater_status(&send_status(status)), copy);
    }
}
