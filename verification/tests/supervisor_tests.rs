use proxypal::model::{AppConfig, AppState, AuthStatus};
use proxypal::supervisor::{management_key, render_sidecar_config, StartStep, StopStep};

fn fresh(port: u16) -> AppState {
    let mut config = AppConfig::default();
    config.port = port;
    AppState::new(config, AuthStatus::default())
}

#[test]
fn stop_on_stopped_returns_prior_status_unchanged() {
    let mut st = fresh(8317);
    let before = st.get_proxy_status();
    match st.stop_proxy_step() {
        StopStep::AlreadyStopped(s) => {
            assert_eq!(s, before);
        }
        StopStep::Terminate { .. } => panic!("a stopped supervisor asked for a termination"),
    }
    assert_eq!(st.get_proxy_status(), before);
}

#[test]
fn start_on_running_returns_prior_status_and_spawns_nothing() {
    let mut st = fresh(9000);
    match st.start_proxy_prepare() {
        StartStep::NeedSpawn(_) => {}
        StartStep::AlreadyRunning(_) => panic!("a stopped supervisor reported itself running"),
    }
    let started = st.start_proxy_commit();
    assert!(started.running);
    assert_eq!(started.port, 9000);
    assert_eq!(started.endpoint, "http://localhost:9000/v1");
    match st.start_proxy_prepare() {
        StartStep::AlreadyRunning(s) => assert_eq!(s, started),
        StartStep::NeedSpawn(_) => panic!("a running supervisor asked for a second spawn"),
    }
}

#[test]
fn unsolicited_exit_marks_stopped_and_stop_is_safe() {
    let mut st = fresh(8317);
    st.start_proxy_commit();
    assert!(st.get_proxy_status().running);
    let after_exit = st.on_process_exit();
    assert!(!after_exit.running);
    assert!(!st.get_proxy_status().running);
    match st.stop_proxy_step() {
        StopStep::AlreadyStopped(s) => assert!(!s.running),
        StopStep::Terminate { .. } => {
            panic!("stop after a natural death asked to touch a handle")
        }
    }
}

#[test]
fn stop_on_running_terminates_with_handle() {
    let mut st = fresh(8317);
    st.start_proxy_commit();
    match st.stop_proxy_step() {
        StopStep::Terminate { had_handle, status } => {
            assert!(had_handle);
            assert!(!status.running);
            assert_eq!(status.port, 8317);
        }
        StopStep::AlreadyStopped(_) => panic!("a running supervisor reported itself stopped"),
    }
    assert!(!st.get_proxy_status().running);
}

#[test]
fn generated_config_embeds_port_and_management_block() {
    let text = render_sidecar_config(8317);
    let expected = "# ProxyPal generated config\nport: 8317\nauth-dir: \"~/.cli-proxy-api\"\napi-keys:\n  - \"proxypal-local\"\ndebug: false\n\n# Enable Management API for OAuth flows\nremote-management:\n  allow-remote: false\n  secret-key: \"proxypal-mgmt-key\"\n  disable-control-panel: true\n";
    assert_eq!(text, expected);
    let other = render_sidecar_config(65535);
    assert!(other.contains("port: 65535\n"));
}

#[test]
fn management_key_is_fixed() {
    assert_eq!(management_key(), "proxypal-mgmt-key");
}

#[test]
fn default_status_is_stopped_on_default_port() {
    let st = fresh(8317);
    let s = st.get_proxy_status();
    assert!(!s.running);
    assert_eq!(s.port, 8317);
    assert_eq!(s.endpoint, "http://localhost:8317/v1");
}

#[test]
fn default_container_is_fully_reset() {
    let st = AppState::default();
    let s = st.get_proxy_status();
    assert!(!s.running);
    assert_eq!(s.endpoint, "http://localhost:8317/v1");
    assert_eq!(st.get_auth_status(), AuthStatus::default());
    assert_eq!(st.get_config(), AppConfig::default());
    assert_eq!(st.handle_oauth_callback("any", "c"), None);
}
