use download_core::control::extracted_sibling_path;
use download_core::events::CoreError;
use download_core::record::DownloadInfo;
use download_core::record::DownloadStatus;
use download_core::record::ExtractionStatus;
use download_core::settings::article_url;
use download_core::settings::echo_test;
use download_core::settings::launch_plan;
use download_core::settings::normalize_loaded_state;
use download_core::settings::resolve_launch_config;
use download_core::settings::retain_existing_games;
use download_core::settings::AppState;
use download_core::settings::CloudinaryConfig;
use download_core::settings::DownloadedGameInfo;
use download_core::settings::LaunchConfig;
use download_core::settings::LaunchPlan;

fn game(id: &str, path: &str) -> DownloadedGameInfo {
    DownloadedGameInfo {
        id: id.to_string(),
        filename: format!("{}.zip", id),
        path: path.to_string(),
        extracted: false,
        extracted_path: None,
        downloaded_at: None,
        launch_config: None,
        icon_path: None,
    }
}

fn download(id: &str, path: Option<&str>) -> DownloadInfo {
    DownloadInfo {
        id: id.to_string(),
        filename: format!("{}.zip", id),
        url: String::new(),
        progress: 10000,
        status: DownloadStatus::Completed,
        path: path.map(|p| p.to_string()),
        error: None,
        provider: None,
        downloaded_at: Some("t".to_string()),
        extracted: false,
        extracted_path: None,
        extraction_status: ExtractionStatus::Idle,
        extraction_progress: 0,
    }
}

#[test]
fn token_and_cloudinary_settings() {
    let mut state = AppState::default();
    assert!(state.get_token().is_none());
    state.set_token("token-abc".to_string());
    assert_eq!(state.get_token().as_deref(), Some("token-abc"));

    assert!(state.get_cloudinary_config().is_none());
    state.set_cloudinary_config("cloud".to_string(), "key".to_string(), "secret".to_string());
    let c = state.get_cloudinary_config().unwrap();
    assert_eq!(c.cloud_name, "cloud");
    assert_eq!(c.api_key, "key");
    assert_eq!(c.api_secret, "secret");

    state.save_all_settings(
        "token2".to_string(),
        CloudinaryConfig {
            cloud_name: "c2".to_string(),
            api_key: "k2".to_string(),
            api_secret: "s2".to_string(),
        },
    );
    assert_eq!(state.get_token().as_deref(), Some("token2"));
    assert_eq!(state.get_cloudinary_config().unwrap().cloud_name, "c2");
}

#[test]
fn download_dir_setting() {
    let mut state = AppState::default();
    assert!(state.get_download_dir().is_none());
    state.set_download_dir("/downloads".to_string());
    assert_eq!(state.get_download_dir().as_deref(), Some("/downloads"));
}

#[test]
fn normalize_fills_missing_pieces() {
    let mut state = AppState::default();
    normalize_loaded_state(&mut state, Some("/default".to_string()));
    assert_eq!(state.get_download_dir().as_deref(), Some("/default"));
    assert_eq!(state.games.as_ref().map(|g| g.len()), Some(0));

    let mut state2 = AppState::default();
    state2.set_download_dir("/kept".to_string());
    normalize_loaded_state(&mut state2, Some("/default".to_string()));
    assert_eq!(state2.get_download_dir().as_deref(), Some("/kept"));
}

#[test]
fn save_games_preserves_launch_config() {
    let mut state = AppState::default();
    let mut existing = game("g1", "/games/g1.zip");
    existing.launch_config = Some(LaunchConfig {
        executable_path: "/games/g1/run.exe".to_string(),
        launch_method: "direct".to_string(),
        custom_command: None,
    });
    existing.icon_path = Some("/icons/g1.png".to_string());
    state.games = Some(vec![existing]);

    state.save_games(vec![download("g1", Some("/games/g1.zip")), download("g2", None)]);
    let games = state.games.as_ref().unwrap();
    assert_eq!(games.len(), 2);
    let g1 = &games[0];
    assert_eq!(g1.id, "g1");
    assert_eq!(g1.path, "/games/g1.zip");
    let kept = g1.launch_config.as_ref().expect("launch config must be preserved");
    assert_eq!(kept.executable_path, "/games/g1/run.exe");
    assert_eq!(g1.icon_path.as_deref(), Some("/icons/g1.png"));
    let g2 = &games[1];
    assert_eq!(g2.id, "g2");
    assert_eq!(g2.path, "");
    assert!(g2.launch_config.is_none());
}

#[test]
fn save_launch_config_updates_matching_game() {
    let mut state = AppState::default();
    state.games = Some(vec![game("g1", "/a"), game("g2", "/b")]);
    let cfg = LaunchConfig {
        executable_path: "/b/run.py".to_string(),
        launch_method: "python".to_string(),
        custom_command: None,
    };
    state
        .save_launch_config(&"g2".to_string(), cfg, Some("/icons/g2.png".to_string()))
        .expect("g2 exists");
    let games = state.games.as_ref().unwrap();
    assert!(games[0].launch_config.is_none());
    let set = games[1].launch_config.as_ref().unwrap();
    assert_eq!(set.launch_method, "python");
    assert_eq!(games[1].icon_path.as_deref(), Some("/icons/g2.png"));
}

#[test]
fn save_launch_config_unknown_game() {
    let mut state = AppState::default();
    state.games = Some(vec![game("g1", "/a")]);
    let cfg = LaunchConfig {
        executable_path: "/x".to_string(),
        launch_method: "direct".to_string(),
        custom_command: None,
    };
    let r = state.save_launch_config(&"missing".to_string(), cfg, None);
    assert_eq!(r, Err(CoreError::NotFound));
    assert!(state.games.as_ref().unwrap()[0].launch_config.is_none());
}

#[test]
fn retain_games_by_disk_probes() {
    let g_kept = game("g1", "/exists");
    let g_gone = game("g2", "/gone");
    let mut g_extracted = game("g3", "/gone-too");
    g_extracted.extracted_path = Some("/extracted-still-there".to_string());
    let g_empty_path = game("g4", "");
    let games = vec![g_kept, g_gone, g_extracted, g_empty_path];
    let path_exists = vec![true, false, false, false];
    let extracted_exists = vec![false, false, true, false];
    let kept = retain_existing_games(&games, &path_exists, &extracted_exists);
    let ids: Vec<&str> = kept.iter().map(|g| g.id.as_str()).collect();
    // g2 stays: its file is gone, but with no extracted path recorded there
    // is nothing else to lose, and that side counts as present.
    assert_eq!(ids, vec!["g1", "g2", "g3", "g4"]);

    let mut g_gone_for_real = game("g5", "/gone");
    g_gone_for_real.extracted_path = Some("/also-gone".to_string());
    let kept = retain_existing_games(
        &vec![g_gone_for_real],
        &vec![false],
        &vec![false],
    );
    assert!(kept.is_empty());
}

#[test]
fn resolve_launch_config_prefers_stored() {
    let mut g = game("g1", "/a");
    g.launch_config = Some(LaunchConfig {
        executable_path: "/stored".to_string(),
        launch_method: "direct".to_string(),
        custom_command: None,
    });
    let games = Some(vec![g]);
    let provided = Some(LaunchConfig {
        executable_path: "/provided".to_string(),
        launch_method: "wine".to_string(),
        custom_command: None,
    });
    let resolved = resolve_launch_config(&games, &"g1".to_string(), provided).unwrap();
    assert_eq!(resolved.executable_path, "/stored");

    let resolved = resolve_launch_config(
        &games,
        &"other".to_string(),
        Some(LaunchConfig {
            executable_path: "/provided".to_string(),
            launch_method: "wine".to_string(),
            custom_command: None,
        }),
    )
    .unwrap();
    assert_eq!(resolved.executable_path, "/provided");

    assert!(resolve_launch_config(&games, &"other".to_string(), None).is_none());
}

#[test]
fn launch_plan_variants() {
    let direct = LaunchConfig {
        executable_path: "/x.exe".to_string(),
        launch_method: "direct".to_string(),
        custom_command: None,
    };
    assert!(matches!(launch_plan(&direct), Ok(LaunchPlan::Direct(p)) if p == "/x.exe"));

    let python = LaunchConfig {
        executable_path: "/x.py".to_string(),
        launch_method: "python".to_string(),
        custom_command: None,
    };
    assert!(matches!(launch_plan(&python), Ok(LaunchPlan::Python(p)) if p == "/x.py"));

    let wine = LaunchConfig {
        executable_path: "/x.exe".to_string(),
        launch_method: "wine".to_string(),
        custom_command: None,
    };
    assert!(matches!(launch_plan(&wine), Ok(LaunchPlan::Wine(p)) if p == "/x.exe"));

    let custom = LaunchConfig {
        executable_path: String::new(),
        launch_method: "custom".to_string(),
        custom_command: Some("run --fast".to_string()),
    };
    assert!(matches!(launch_plan(&custom), Ok(LaunchPlan::Custom(c)) if c == "run --fast"));

    let custom_missing = LaunchConfig {
        executable_path: String::new(),
        launch_method: "custom".to_string(),
        custom_command: None,
    };
    assert!(matches!(
        launch_plan(&custom_missing),
        Err(CoreError::MissingCustomCommand)
    ));

    let odd = LaunchConfig {
        executable_path: String::new(),
        launch_method: "teleport".to_string(),
        custom_command: None,
    };
    assert!(matches!(launch_plan(&odd), Err(CoreError::InvalidLaunchMethod)));
}

#[test]
fn small_helpers() {
    assert_eq!(
        article_url(&"my-game".to_string()),
        "https://api.chanomhub.online/articles/my-game"
    );
    assert_eq!(echo_test(&"ping".to_string()), "Echo reply: ping");
    assert_eq!(
        extracted_sibling_path(&"/tmp/a.zip".to_string()),
        "/tmp/a.zip_extracted"
    );
}
