use proxypal::model::{AppConfig, AppState, AuthStatus};
use proxypal::oauth::{auth_url_endpoint, poll_status_endpoint};
use proxypal::provider::{auth_path, parse_provider, Provider};
use proxypal::wire::{parse_callback_url, parse_status, parse_url_state};

fn fresh() -> AppState {
    AppState::new(AppConfig::default(), AuthStatus::default())
}

#[test]
fn provider_identifiers_are_a_closed_set() {
    assert_eq!(parse_provider("acme"), Some(Provider::Acme));
    assert_eq!(parse_provider("openai"), Some(Provider::Openai));
    assert_eq!(parse_provider("gemini"), Some(Provider::Gemini));
    assert_eq!(parse_provider("qwen"), Some(Provider::Qwen));
    assert_eq!(parse_provider("iflow"), None);
    assert_eq!(parse_provider("Acme"), None);
    assert_eq!(parse_provider(""), None);
}

#[test]
fn authorization_endpoints_use_fixed_paths() {
    assert_eq!(
        auth_url_endpoint(Provider::Acme, 8317),
        "http://localhost:8317/v0/management/acmecorp-auth-url?is_webui=true"
    );
    assert_eq!(
        auth_url_endpoint(Provider::Openai, 8317),
        "http://localhost:8317/v0/management/codex-auth-url?is_webui=true"
    );
    assert_eq!(
        auth_url_endpoint(Provider::Gemini, 1),
        "http://localhost:1/v0/management/gemini-cli-auth-url?is_webui=true"
    );
    assert_eq!(
        auth_url_endpoint(Provider::Qwen, 65535),
        "http://localhost:65535/v0/management/qwen-auth-url?is_webui=true"
    );
    assert_eq!(auth_path(Provider::Acme), "acmecorp-auth-url");
}

#[test]
fn poll_endpoint_carries_port_and_token() {
    assert_eq!(
        poll_status_endpoint(8317, "tok123"),
        "http://localhost:8317/v0/management/get-auth-status?state=tok123"
    );
}

#[test]
fn second_authorization_replaces_pending_session() {
    let mut st = fresh();
    let first = st
        .begin_oauth(Provider::Qwen, "{\"url\":\"https://qwen.example\",\"state\":\"tok-qwen\"}")
        .expect("readable answer");
    assert_eq!(first.1, "tok-qwen");
    let second = st
        .begin_oauth(Provider::Acme, "{\"url\":\"https://acme.example\",\"state\":\"tok-acme\"}")
        .expect("readable answer");
    assert_eq!(second.0, "https://acme.example");
    assert_eq!(second.1, "tok-acme");
    assert_eq!(st.handle_oauth_callback("tok-qwen", "code1"), None);
    assert_eq!(
        st.handle_oauth_callback("tok-acme", "code2"),
        Some((Provider::Acme, "code2".to_string()))
    );
}

#[test]
fn mismatched_callback_completes_nothing_and_mutates_nothing() {
    let mut st = fresh();
    st.begin_oauth(Provider::Gemini, "{\"url\":\"https://g\",\"state\":\"Y\"}")
        .expect("readable answer");
    let auth_before = st.get_auth_status();
    assert_eq!(st.handle_oauth_callback("X", "somecode"), None);
    assert_eq!(st.get_auth_status(), auth_before);
    assert_eq!(
        st.handle_oauth_callback("Y", "somecode"),
        Some((Provider::Gemini, "somecode".to_string()))
    );
}

#[test]
fn callback_without_pending_session_is_dropped() {
    let st = fresh();
    assert_eq!(st.handle_oauth_callback("anything", "c"), None);
}

#[test]
fn unreadable_authorization_answer_leaves_state_intact() {
    let mut st = fresh();
    assert_eq!(st.begin_oauth(Provider::Acme, "not json"), None);
    assert_eq!(st.begin_oauth(Provider::Acme, "{\"url\":\"u\"}"), None);
    assert_eq!(st.handle_oauth_callback("", "c"), None);
}

#[test]
fn completion_sets_flag_and_clears_pending() {
    let mut st = fresh();
    st.begin_oauth(Provider::Acme, "{\"url\":\"u\",\"state\":\"t\"}")
        .expect("readable answer");
    let auth = st.complete_oauth(Provider::Acme);
    assert!(auth.acme);
    assert!(!auth.openai);
    assert_eq!(st.handle_oauth_callback("t", "c"), None);
}

#[test]
fn poll_decides_only_on_exact_completion_status() {
    assert!(AppState::poll_oauth_decide(true, "{\"status\":\"ok\"}"));
    assert!(!AppState::poll_oauth_decide(true, "{\"status\":\"wait\"}"));
    assert!(!AppState::poll_oauth_decide(true, "{\"status\":\"OK\"}"));
    assert!(!AppState::poll_oauth_decide(false, "{\"status\":\"ok\"}"));
    assert!(!AppState::poll_oauth_decide(true, "garbage"));
    assert!(!AppState::poll_oauth_decide(true, ""));
}

#[test]
fn url_state_answer_is_read_exactly() {
    assert_eq!(
        parse_url_state("{\"url\":\"https://a/b?c=d\",\"state\":\"s-1\"}"),
        Some(("https://a/b?c=d".to_string(), "s-1".to_string()))
    );
    assert_eq!(parse_url_state("{\"state\":\"s\",\"url\":\"u\"}"), None);
    assert_eq!(parse_url_state("{\"url\":\"u\",\"state\":\"s\"} "), None);
    assert_eq!(parse_url_state(""), None);
}

#[test]
fn status_answer_is_read_exactly() {
    assert_eq!(parse_status("{\"status\":\"ok\"}"), Some("ok".to_string()));
    assert_eq!(parse_status("{\"status\":\"wait\"}"), Some("wait".to_string()));
    assert_eq!(parse_status("{\"status\":ok}"), None);
}

#[test]
fn callback_url_is_parsed_into_code_and_state() {
    assert_eq!(
        parse_callback_url("proxypal://oauth/callback?code=abc123&state=xyz"),
        Some(("abc123".to_string(), "xyz".to_string()))
    );
    assert_eq!(parse_callback_url("https://oauth/callback?code=a&state=b"), None);
    assert_eq!(parse_callback_url("proxypal://oauth/callback?state=b&code=a"), None);
    assert_eq!(parse_callback_url("proxypal://oauth/callback?code=a"), None);
}
