use vstd::prelude::*;
use crate::provider::Provider;
use crate::text::{dec_digits, u16_to_dec};

verus! {

/// Where the proxy endpoint for a given listening port is reachable.
pub open spec fn spec_endpoint(port: u16) -> Seq<char> {
    "http://localhost:"@ + dec_digits(port as nat) + "/v1"@
}

/// Builds the proxy endpoint URL for a listening port.
pub fn endpoint_url(port: u16) -> (r: String)
    ensures
        r@ == spec_endpoint(port),
{
    let mut s = String::from_str("http://localhost:");
    let d = u16_to_dec(port);
    s.append(d.as_str());
    s.append("/v1");
    s
}

/// Observable state of the supervised sidecar process.
#[derive(Clone, PartialEq, Eq, Debug)]
pub struct ProxyStatus {
    pub running: bool,
    pub port: u16,
    pub endpoint: String,
}

impl Default for ProxyStatus {
    /// A stopped proxy on the default port.
    fn default() -> (r: ProxyStatus)
        ensures
            r.running == false,
            r.port == 8317,
            r.endpoint@ == spec_endpoint(8317),
    {
        ProxyStatus { running: false, port: 8317, endpoint: endpoint_url(8317) }
    }
}

impl ProxyStatus {
    /// An exact copy.
    pub fn clone_status(&self) -> (r: ProxyStatus)
        ensures
            r == *self,
    {
        ProxyStatus { running: self.running, port: self.port, endpoint: self.endpoint.clone() }
    }
}

/// One authentication flag per provider.
#[derive(Clone, Copy, PartialEq, Eq, Structural, Debug)]
pub struct AuthStatus {
    pub acme: bool,
    pub openai: bool,
    pub gemini: bool,
    pub qwen: bool,
}

impl Default for AuthStatus {
    /// All providers start unauthenticated.
    fn default() -> (r: AuthStatus)
        ensures
            r == spec_auth_default(),
    {
        AuthStatus { acme: false, openai: false, gemini: false, qwen: false }
    }
}

/// The all-false authentication record.
pub open spec fn spec_auth_default() -> AuthStatus {
    AuthStatus { acme: false, openai: false, gemini: false, qwen: false }
}

/// The flag a record holds for one provider.
pub open spec fn auth_flag(a: AuthStatus, p: Provider) -> bool {
    match p {
        Provider::Acme => a.acme,
        Provider::Openai => a.openai,
        Provider::Gemini => a.gemini,
        Provider::Qwen => a.qwen,
    }
}

/// The record with one provider's flag replaced and every other flag kept.
pub open spec fn spec_auth_with(a: AuthStatus, p: Provider, v: bool) -> AuthStatus {
    match p {
        Provider::Acme => AuthStatus { acme: v, ..a },
        Provider::Openai => AuthStatus { openai: v, ..a },
        Provider::Gemini => AuthStatus { gemini: v, ..a },
        Provider::Qwen => AuthStatus { qwen: v, ..a },
    }
}

/// Replaces one provider's flag, leaving the others untouched.
pub fn auth_with(a: AuthStatus, p: Provider, v: bool) -> (r: AuthStatus)
    ensures
        r == spec_auth_with(a, p, v),
        auth_flag(r, p) == v,
{
    match p {
        Provider::Acme => AuthStatus { acme: v, ..a },
        Provider::Openai => AuthStatus { openai: v, ..a },
        Provider::Gemini => AuthStatus { gemini: v, ..a },
        Provider::Qwen => AuthStatus { qwen: v, ..a },
    }
}

/// User preferences, persisted as one flat document.
#[derive(Clone, Copy, PartialEq, Eq, Structural, Debug)]
pub struct AppConfig {
    pub port: u16,
    pub auto_start: bool,
    pub launch_at_login: bool,
}

impl Default for AppConfig {
    /// Default port 8317, start the proxy automatically, no login item.
    fn default() -> (r: AppConfig)
        ensures
            r == spec_config_default(),
    {
        AppConfig { port: 8317, auto_start: true, launch_at_login: false }
    }
}

/// The default configuration.
pub open spec fn spec_config_default() -> AppConfig {
    AppConfig { port: 8317, auto_start: true, launch_at_login: false }
}

/// A pending authorization round trip: which provider it is for and the
/// opaque state token the management API issued for it.
#[derive(Clone, PartialEq, Eq, Debug)]
pub struct OAuthState {
    pub provider: Provider,
    pub state: String,
}

/// The process-wide state container: proxy status, authentication flags,
/// configuration, the single pending-authorization slot, and whether a
/// handle on a spawned sidecar process is currently held.
pub struct AppState {
    pub proxy_status: ProxyStatus,
    pub auth_status: AuthStatus,
    pub config: AppConfig,
    pub pending_oauth: Option<OAuthState>,
    pub process_held: bool,
}

/// The container invariant: a proxy marked running implies a live process
/// handle is held; a proxy marked stopped implies none is.
pub open spec fn wf(st: AppState) -> bool {
    st.proxy_status.running == st.process_held
}

impl Default for AppState {
    /// A fresh container with every field at its default: proxy stopped,
    /// nothing authenticated, nothing pending, no handle held.
    fn default() -> (r: AppState)
        ensures
            r.proxy_status.running == false,
            r.auth_status == spec_auth_default(),
            r.config == spec_config_default(),
            r.pending_oauth is None,
            r.process_held == false,
            wf(r),
    {
        AppState::new(AppConfig::default(), AuthStatus::default())
    }
}

impl AppState {
    /// A fresh container: proxy stopped, nothing pending, no handle held,
    /// with the given persisted configuration and authentication record.
    pub fn new(config: AppConfig, auth: AuthStatus) -> (r: AppState)
        ensures
            r.proxy_status.running == false,
            r.proxy_status.port == 8317,
            r.proxy_status.endpoint@ == spec_endpoint(8317),
            r.auth_status == auth,
            r.config == config,
            r.pending_oauth is None,
            r.process_held == false,
            wf(r),
    {
        AppState {
            proxy_status: ProxyStatus::default(),
            auth_status: auth,
            config,
            pending_oauth: None,
            process_held: false,
        }
    }

    /// Pure read of the current proxy status.
    pub fn get_proxy_status(&self) -> (r: ProxyStatus)
        ensures
            r == self.proxy_status,
    {
        self.proxy_status.clone_status()
    }

    /// Pure read of the current authentication record.
    pub fn get_auth_status(&self) -> (r: AuthStatus)
        ensures
            r == self.auth_status,
    {
        self.auth_status
    }

    /// Pure read of the current configuration.
    pub fn get_config(&self) -> (r: AppConfig)
        ensures
            r == self.config,
    {
        self.config
    }

    /// Replaces the configuration; nothing else moves.
    pub fn save_config(&mut self, config: AppConfig)
        ensures
            final(self).config == config,
            final(self).proxy_status == old(self).proxy_status,
            final(self).auth_status == old(self).auth_status,
            final(self).pending_oauth == old(self).pending_oauth,
            final(self).process_held == old(self).process_held,
    {
        self.config = config;
    }
}

} // verus!
