use proxypal::codec::{auth_from_json, auth_to_json, config_from_json, config_to_json};
use proxypal::model::{AppConfig, AppState, AuthStatus};
use proxypal::provider::Provider;

fn fresh_with_auth(auth: AuthStatus) -> AppState {
    AppState::new(AppConfig::default(), auth)
}

#[test]
fn config_document_has_the_expected_form() {
    let c = AppConfig::default();
    assert_eq!(
        config_to_json(&c),
        "{\"port\":8317,\"autoStart\":true,\"launchAtLogin\":false}"
    );
}

#[test]
fn config_round_trips_for_all_field_combinations() {
    for port in [0u16, 1, 8317, 9999, 65535] {
        for auto_start in [false, true] {
            for launch_at_login in [false, true] {
                let c = AppConfig { port, auto_start, launch_at_login };
                let text = config_to_json(&c);
                assert_eq!(config_from_json(&text), Some(c));
            }
        }
    }
}

#[test]
fn config_reader_rejects_everything_else() {
    assert_eq!(config_from_json(""), None);
    assert_eq!(config_from_json("{}"), None);
    assert_eq!(
        config_from_json("{\"port\":65536,\"autoStart\":true,\"launchAtLogin\":false}"),
        None
    );
    assert_eq!(
        config_from_json("{\"port\":007,\"autoStart\":true,\"launchAtLogin\":false}"),
        None
    );
    assert_eq!(
        config_from_json("{\"port\":8317,\"autoStart\":true,\"launchAtLogin\":false} "),
        None
    );
    assert_eq!(
        config_from_json("{\"port\":8317,\"autoStart\":yes,\"launchAtLogin\":false}"),
        None
    );
}

#[test]
fn auth_document_has_the_expected_form() {
    let a = AuthStatus::default();
    assert_eq!(
        auth_to_json(&a),
        "{\"acme\":false,\"openai\":false,\"gemini\":false,\"qwen\":false}"
    );
}

#[test]
fn auth_round_trips_for_all_flag_combinations() {
    for bits in 0u8..16 {
        let a = AuthStatus {
            acme: bits & 1 != 0,
            openai: bits & 2 != 0,
            gemini: bits & 4 != 0,
            qwen: bits & 8 != 0,
        };
        let text = auth_to_json(&a);
        assert_eq!(auth_from_json(&text), Some(a));
    }
    assert_eq!(auth_from_json("{\"acme\":false}"), None);
}

#[test]
fn reconcile_sets_flags_from_matching_filenames() {
    let mut st = fresh_with_auth(AuthStatus::default());
    let names = vec![
        "acme-someone@example.com.json".to_string(),
        "gemini-user-project.json".to_string(),
        "iflow-user.json".to_string(),
        "codex-user.txt".to_string(),
    ];
    let auth = st.refresh_auth_status(&names);
    assert!(auth.acme);
    assert!(auth.gemini);
    assert!(!auth.openai);
    assert!(!auth.qwen);
}

#[test]
fn reconcile_matches_prefixes_case_insensitively() {
    let mut st = fresh_with_auth(AuthStatus::default());
    let names = vec![
        "ACMECORP-x.JSON".to_string(),
        "Codex-y.Json".to_string(),
        "QWEN-z.json".to_string(),
    ];
    let auth = st.refresh_auth_status(&names);
    assert!(auth.acme);
    assert!(auth.openai);
    assert!(auth.qwen);
    assert!(!auth.gemini);
}

#[test]
fn reconcile_twice_over_the_same_scan_is_idempotent() {
    let mut st = fresh_with_auth(AuthStatus::default());
    let names = vec!["qwen-a.json".to_string(), "notes.txt".to_string()];
    let first = st.refresh_auth_status(&names);
    let second = st.refresh_auth_status(&names);
    assert_eq!(first, second);
}

#[test]
fn reconcile_never_clears_a_flag_on_absence() {
    let start = AuthStatus { acme: true, openai: true, gemini: true, qwen: true };
    let mut st = fresh_with_auth(start);
    let auth = st.refresh_auth_status(&Vec::new());
    assert_eq!(auth, start);
}

#[test]
fn disconnect_clears_one_flag_until_a_file_brings_it_back() {
    let mut st = fresh_with_auth(AuthStatus::default());
    st.complete_oauth(Provider::Openai);
    assert!(st.get_auth_status().openai);
    let auth = st.disconnect_provider(Provider::Openai);
    assert!(!auth.openai);
    let auth = st.refresh_auth_status(&Vec::new());
    assert!(!auth.openai);
    let auth = st.refresh_auth_status(&vec!["notes.txt".to_string()]);
    assert!(!auth.openai);
    let auth = st.refresh_auth_status(&vec!["codex-user@example.com.json".to_string()]);
    assert!(auth.openai);
}

#[test]
fn save_config_replaces_the_stored_configuration() {
    let mut st = AppState::new(AppConfig::default(), AuthStatus::default());
    let c = AppConfig { port: 4242, auto_start: false, launch_at_login: true };
    st.save_config(c);
    assert_eq!(st.get_config(), c);
    let text = config_to_json(&st.get_config());
    assert_eq!(config_from_json(&text), Some(c));
}
