use download_core::config::state_from_json;
use download_core::config::state_to_json;
use download_core::settings::AppState;
use download_core::settings::CloudinaryConfig;
use download_core::settings::DownloadedGameInfo;
use download_core::settings::LaunchConfig;

fn full_state() -> AppState {
    AppState {
        token: Some("token-abc".to_string()),
        cloudinary: Some(CloudinaryConfig {
            cloud_name: "cloud".to_string(),
            api_key: "key".to_string(),
            api_secret: "secret".to_string(),
        }),
        download_dir: Some("/downloads".to_string()),
        games: Some(vec![
            DownloadedGameInfo {
                id: "g1".to_string(),
                filename: "g1.zip".to_string(),
                path: "/games/g1.zip".to_string(),
                extracted: true,
                extracted_path: Some("/games/g1.zip_extracted".to_string()),
                downloaded_at: Some("2024-01-02T03:04:05+00:00".to_string()),
                launch_config: Some(LaunchConfig {
                    executable_path: "/games/g1/run.exe".to_string(),
                    launch_method: "wine".to_string(),
                    custom_command: None,
                }),
                icon_path: Some("/icons/g1.png".to_string()),
            },
            DownloadedGameInfo {
                id: "g2".to_string(),
                filename: "g2.zip".to_string(),
                path: String::new(),
                extracted: false,
                extracted_path: None,
                downloaded_at: None,
                launch_config: Some(LaunchConfig {
                    executable_path: String::new(),
                    launch_method: "custom".to_string(),
                    custom_command: Some("sh run.sh \"with quotes\"".to_string()),
                }),
                icon_path: None,
            },
        ]),
    }
}

fn assert_same_state(a: &AppState, b: &AppState) {
    assert_eq!(a.token, b.token);
    match (&a.cloudinary, &b.cloudinary) {
        (None, None) => {}
        (Some(x), Some(y)) => {
            assert_eq!(x.cloud_name, y.cloud_name);
            assert_eq!(x.api_key, y.api_key);
            assert_eq!(x.api_secret, y.api_secret);
        }
        _ => panic!("cloudinary presence differs"),
    }
    assert_eq!(a.download_dir, b.download_dir);
    match (&a.games, &b.games) {
        (None, None) => {}
        (Some(xs), Some(ys)) => {
            assert_eq!(xs.len(), ys.len());
            for (x, y) in xs.iter().zip(ys.iter()) {
                assert_eq!(x.id, y.id);
                assert_eq!(x.filename, y.filename);
                assert_eq!(x.path, y.path);
                assert_eq!(x.extracted, y.extracted);
                assert_eq!(x.extracted_path, y.extracted_path);
                assert_eq!(x.downloaded_at, y.downloaded_at);
                assert_eq!(x.icon_path, y.icon_path);
                match (&x.launch_config, &y.launch_config) {
                    (None, None) => {}
                    (Some(p), Some(q)) => {
                        assert_eq!(p.executable_path, q.executable_path);
                        assert_eq!(p.launch_method, q.launch_method);
                        assert_eq!(p.custom_command, q.custom_command);
                    }
                    _ => panic!("launch config presence differs"),
                }
            }
        }
        _ => panic!("games presence differs"),
    }
}

#[test]
fn default_state_roundtrip() {
    let state = AppState::default();
    let text = state_to_json(&state);
    assert_eq!(
        text,
        "{\"token\":null,\"cloudinary\":null,\"download_dir\":null,\"games\":null}"
    );
    let loaded = state_from_json(&text).expect("the default document loads");
    assert_same_state(&state, &loaded);
}

#[test]
fn full_state_roundtrip() {
    let state = full_state();
    let text = state_to_json(&state);
    let loaded = state_from_json(&text).expect("the full document loads");
    assert_same_state(&state, &loaded);
}

#[test]
fn empty_games_list_roundtrip() {
    let mut state = AppState::default();
    state.games = Some(Vec::new());
    let text = state_to_json(&state);
    assert_eq!(
        text,
        "{\"token\":null,\"cloudinary\":null,\"download_dir\":null,\"games\":[]}"
    );
    let loaded = state_from_json(&text).expect("an empty list loads");
    assert_eq!(loaded.games.map(|g| g.len()), Some(0));
}

#[test]
fn launch_config_keys_keep_their_wire_names() {
    let state = full_state();
    let text = state_to_json(&state);
    assert!(text.contains("\"executablePath\":\"/games/g1/run.exe\""));
    assert!(text.contains("\"launchMethod\":\"wine\""));
    assert!(text.contains("\"customCommand\":\"sh run.sh \\\"with quotes\\\"\""));
}

#[test]
fn malformed_state_documents_do_not_load() {
    assert!(state_from_json("").is_none());
    assert!(state_from_json("{}").is_none());
    assert!(state_from_json("{\"token\":null}").is_none());
    let state = full_state();
    let text = state_to_json(&state);
    assert!(state_from_json(&text[..text.len() - 1]).is_none());
    assert!(state_from_json(&format!("{} ", text)).is_none());
}
