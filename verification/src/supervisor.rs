use vstd::prelude::*;
use crate::model::{AppState, ProxyStatus, endpoint_url, spec_endpoint, wf};
use crate::text::{dec_digits, u16_to_dec};

verus! {

/// The fixed shared secret that authenticates calls to the sidecar's
/// management API, both in the generated configuration and in the header
/// of every management request.
pub open spec fn spec_management_key() -> Seq<char> {
    "proxypal-mgmt-key"@
}

/// The management-API shared secret.
pub fn management_key() -> (r: &'static str)
    ensures
        r@ == spec_management_key(),
{
    "proxypal-mgmt-key"
}

/// The configuration document generated for the sidecar on every start:
/// the listening port, the credentials directory, the fixed local API key,
/// debug off, and a management-API block with remote access disabled, the
/// fixed shared secret, and the control panel disabled.
pub open spec fn spec_sidecar_config(port: u16) -> Seq<char> {
    "# ProxyPal generated config\nport: "@ + dec_digits(port as nat)
        + "\nauth-dir: \"~/.cli-proxy-api\"\napi-keys:\n  - \"proxypal-local\"\ndebug: false\n\n# Enable Management API for OAuth flows\nremote-management:\n  allow-remote: false\n  secret-key: \"proxypal-mgmt-key\"\n  disable-control-panel: true\n"@
}

/// Renders the sidecar configuration document for a listening port.
pub fn render_sidecar_config(port: u16) -> (r: String)
    ensures
        r@ == spec_sidecar_config(port),
{
    let mut s = String::from_str("# ProxyPal generated config\nport: ");
    let d = u16_to_dec(port);
    s.append(d.as_str());
    s.append(
        "\nauth-dir: \"~/.cli-proxy-api\"\napi-keys:\n  - \"proxypal-local\"\ndebug: false\n\n# Enable Management API for OAuth flows\nremote-management:\n  allow-remote: false\n  secret-key: \"proxypal-mgmt-key\"\n  disable-control-panel: true\n",
    );
    s
}

/// What a start request decides: either the proxy is already running and
/// the prior status is returned untouched, or a process must be spawned
/// with the given freshly generated configuration document.
pub enum StartStep {
    AlreadyRunning(ProxyStatus),
    NeedSpawn(String),
}

/// What a stop request decides: either the proxy is already stopped and the
/// prior status is returned untouched, or the process must be terminated —
/// `had_handle` says whether a handle was still held (a terminated process
/// may already have given it up), and `status` is the new stopped status.
pub enum StopStep {
    AlreadyStopped(ProxyStatus),
    Terminate { had_handle: bool, status: ProxyStatus },
}

/// A state with the proxy marked stopped and the process handle released;
/// every other field keeps its value.
pub open spec fn spec_stopped(st: AppState) -> AppState {
    AppState {
        proxy_status: ProxyStatus { running: false, ..st.proxy_status },
        process_held: false,
        ..st
    }
}

/// The stop transition: a stopped proxy is left exactly as it was; a
/// running one is marked stopped and its handle released.
pub open spec fn spec_stop_step(st: AppState) -> (AppState, StopStep) {
    if st.proxy_status.running {
        (
            spec_stopped(st),
            StopStep::Terminate {
                had_handle: st.process_held,
                status: spec_stopped(st).proxy_status,
            },
        )
    } else {
        (st, StopStep::AlreadyStopped(st.proxy_status))
    }
}

impl AppState {
    /// Decides a start request. Idempotence: on an already-running
    /// supervisor this returns the prior status unchanged and asks for no
    /// spawn; otherwise it asks the caller to spawn the sidecar with a
    /// freshly generated configuration document for the configured port.
    /// Nothing is mutated here: state moves only in `start_proxy_commit`,
    /// after the spawn has succeeded.
    pub fn start_proxy_prepare(&self) -> (r: StartStep)
        ensures
            self.proxy_status.running ==> r == StartStep::AlreadyRunning(self.proxy_status),
            !self.proxy_status.running ==> (r matches StartStep::NeedSpawn(c) && c@
                == spec_sidecar_config(self.config.port)),
    {
        if self.proxy_status.running {
            StartStep::AlreadyRunning(self.proxy_status.clone_status())
        } else {
            StartStep::NeedSpawn(render_sidecar_config(self.config.port))
        }
    }

    /// Records a successful spawn: the proxy is marked running on the
    /// configured port with the matching endpoint, and the process handle
    /// is recorded as held. Nothing else moves.
    pub fn start_proxy_commit(&mut self) -> (r: ProxyStatus)
        requires
            !old(self).proxy_status.running,
        ensures
            final(self).proxy_status.running == true,
            final(self).proxy_status.port == old(self).config.port,
            final(self).proxy_status.endpoint@ == spec_endpoint(old(self).config.port),
            final(self).process_held == true,
            final(self).auth_status == old(self).auth_status,
            final(self).config == old(self).config,
            final(self).pending_oauth == old(self).pending_oauth,
            r == final(self).proxy_status,
            wf(*final(self)),
    {
        let port = self.config.port;
        self.proxy_status = ProxyStatus { running: true, port, endpoint: endpoint_url(port) };
        self.process_held = true;
        self.proxy_status.clone_status()
    }

    /// Decides and records a stop request in one step. Idempotence: on an
    /// already-stopped supervisor the prior status is returned with nothing
    /// mutated and no process operation requested. Otherwise the proxy is
    /// marked stopped, the handle is released, and the caller is told to
    /// terminate the process — only if a handle was still held, so a stop
    /// racing with an observed natural death touches no stale handle.
    pub fn stop_proxy_step(&mut self) -> (r: StopStep)
        ensures
            *final(self) == spec_stop_step(*old(self)).0,
            r == spec_stop_step(*old(self)).1,
            wf(*old(self)) ==> wf(*final(self)),
    {
        if !self.proxy_status.running {
            StopStep::AlreadyStopped(self.proxy_status.clone_status())
        } else {
            let had_handle = self.process_held;
            self.process_held = false;
            self.proxy_status.running = false;
            StopStep::Terminate { had_handle, status: self.proxy_status.clone_status() }
        }
    }

    /// Records an unsolicited exit of the sidecar process, observed by the
    /// background termination listener: the proxy is marked stopped and the
    /// handle released, whatever state the supervisor was in.
    pub fn on_process_exit(&mut self) -> (r: ProxyStatus)
        ensures
            *final(self) == spec_stopped(*old(self)),
            r == final(self).proxy_status,
            wf(*final(self)),
    {
        self.process_held = false;
        self.proxy_status.running = false;
        self.proxy_status.clone_status()
    }
}

/// Stopping an already-stopped supervisor is a no-op: the state is left
/// exactly as it was and the prior status is handed back, with no process
/// operation requested.
pub proof fn lemma_stop_idempotent(st: AppState)
    requires
        !st.proxy_status.running,
    ensures
        spec_stop_step(st).0 == st,
        spec_stop_step(st).1 == StopStep::AlreadyStopped(st.proxy_status),
{
}

/// After an unsolicited process exit is recorded, the proxy reads as
/// stopped, and a subsequent stop changes nothing and asks for no
/// termination — in particular it cannot touch a handle twice, since the
/// exit already released it.
pub proof fn lemma_exit_then_stop(st: AppState)
    ensures
        spec_stopped(st).proxy_status.running == false,
        spec_stopped(st).process_held == false,
        spec_stop_step(spec_stopped(st)).0 == spec_stopped(st),
        spec_stop_step(spec_stopped(st)).1 == StopStep::AlreadyStopped(
            spec_stopped(st).proxy_status,
        ),
        wf(spec_stopped(st)),
{
}

} // verus!
