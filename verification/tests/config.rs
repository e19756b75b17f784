//! The settings, their defaults, and the store that keeps them.
use soulrust::config::{
    config_from_proto, config_to_proto, default_config_path, home_dir, AppContext, Config,
    ConfigStore, GetConfigReq, SetConfigReq, SetStep, SharingConfig,
};

#[test]
fn sharing_paths_fall_back_to_sane_defaults() {
    let cfg = SharingConfig::default();
    let dl = cfg.download_path("/home/me");
    assert!(dl.ends_with("Downloads/soulrust"), "default download dir: {dl:?}");
    assert_eq!(cfg.incomplete_path("/home/me"), format!("{dl}/incomplete"));

    let cfg = SharingConfig {
        download_dir: "/music/dl".into(),
        incomplete_dir: "/music/part".into(),
        ..SharingConfig::default()
    };
    assert_eq!(cfg.download_path("/home/me"), "/music/dl");
    assert_eq!(cfg.incomplete_path("/home/me"), "/music/part");
}

#[test]
fn missing_file_yields_defaults() {
    let config = Config::default();
    assert_eq!(config.server.host, "server.slsknet.org");
    assert_eq!(config.ui.bind_addr, "127.0.0.1:5030");
}

#[test]
fn validate_rejects_bad_bind_addr() {
    let mut config = Config::default();
    config.ui.bind_addr = "not-an-addr".into();
    assert_eq!(
        ConfigStore::validate(&config, false),
        Err("invalid ui bind address: not-an-addr".to_owned())
    );
    assert_eq!(ConfigStore::validate(&Config::default(), true), Ok(()));
    config.server.host = "  ".into();
    assert_eq!(
        ConfigStore::validate(&config, true),
        Err("server host must not be empty".to_owned())
    );
}

#[test]
fn settings_survive_the_bus() {
    let mut config = Config::default();
    config.server.username = "ääää".into();
    config.server.port = 65535;
    config.spotify.client_id = Some("id".into());
    config.sharing.folders = vec!["/a".into(), "/b".into()];
    config.sharing.upload_slots = 3;
    assert_eq!(config_from_proto(&config_to_proto(&config)), config);
}

#[test]
fn the_store_changes_only_once_settings_are_saved() {
    let ctx = AppContext::new(Config::default(), "/tmp/soulrust.yaml".into());
    let mut store = ConfigStore::new(&ctx);
    assert_eq!(store.path(), "/tmp/soulrust.yaml");
    let mut config = Config::default();
    config.server.username = "bob".into();
    let request = SetConfigReq { corr: 4, config: config.clone() };
    match store.set_config(&request, false) {
        SetStep::Refuse(answer) => {
            assert_eq!(answer.corr, 4);
            assert!(answer.error.is_some());
        }
        SetStep::Save { .. } => panic!("a bad address is refused"),
    }
    let (corr, wanted) = match store.set_config(&request, true) {
        SetStep::Save { corr, config } => (corr, config),
        SetStep::Refuse(_) => panic!("good settings are saved"),
    };
    assert_eq!(wanted, config);
    let (told, answer) = store.saved(corr, wanted, Err("disk full".into()));
    assert!(told.is_none());
    assert_eq!(answer.error.as_deref(), Some("disk full"));
    let before = store.get_config(&GetConfigReq { corr: 1 });
    assert_eq!(before.config.server.username, "");
    let (told, answer) = store.saved(corr, config, Ok(()));
    assert_eq!(told.unwrap().config.server.username, "bob");
    assert_eq!(answer.error, None);
    let after = store.get_config(&GetConfigReq { corr: 2 });
    assert_eq!(after.config.server.username, "bob");
}

#[test]
fn settings_have_their_place() {
    assert_eq!(home_dir(Some("/h".into()), Some("/p".into())), "/h");
    assert_eq!(home_dir(None, Some("/p".into())), "/p");
    assert_eq!(home_dir(None, None), ".");
    assert_eq!(default_config_path(&Some("/x".into()), "/h"), "/x/soulrust.yaml");
    assert_eq!(default_config_path(&Some("".into()), "/h"), "/h/.config/soulrust.yaml");
    assert_eq!(default_config_path(&None, "/h"), "/h/.config/soulrust.yaml");
}
