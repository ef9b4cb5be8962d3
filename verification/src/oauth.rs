use vstd::prelude::*;
use crate::model::{auth_flag, auth_with, spec_auth_with, AppState, AuthStatus, OAuthState};
use crate::provider::{auth_path, spec_auth_path, Provider};
use crate::text::{dec_digits, u16_to_dec};
use crate::wire::{parse_status, parse_url_state, spec_status_json, spec_url_state_json,
    lemma_status_json_injective, quote_free};

verus! {

/// The management endpoint that opens an authorization round trip for a
/// provider, against the configured port.
pub open spec fn spec_auth_url_endpoint(p: Provider, port: u16) -> Seq<char> {
    "http://localhost:"@ + dec_digits(port as nat) + "/v0/management/"@ + spec_auth_path(p)
        + "?is_webui=true"@
}

/// Builds the authorization-initiation endpoint for a provider.
pub fn auth_url_endpoint(p: Provider, port: u16) -> (r: String)
    ensures
        r@ == spec_auth_url_endpoint(p, port),
{
    let mut s = String::from_str("http://localhost:");
    let d = u16_to_dec(port);
    s.append(d.as_str());
    s.append("/v0/management/");
    s.append(auth_path(p));
    s.append("?is_webui=true");
    s
}

/// The management endpoint that reports completion for a state token.
pub open spec fn spec_poll_endpoint(port: u16, token: Seq<char>) -> Seq<char> {
    "http://localhost:"@ + dec_digits(port as nat) + "/v0/management/get-auth-status?state="@
        + token
}

/// Builds the completion-poll endpoint for a state token.
pub fn poll_status_endpoint(port: u16, token: &str) -> (r: String)
    ensures
        r@ == spec_poll_endpoint(port, token@),
{
    let mut s = String::from_str("http://localhost:");
    let d = u16_to_dec(port);
    s.append(d.as_str());
    s.append("/v0/management/get-auth-status?state=");
    s.append(token);
    s
}

impl AppState {
    /// Records the management API's answer to an authorization-initiation
    /// request. On a readable answer the pending-session slot is replaced —
    /// unconditionally, whatever session was pending before — with the new
    /// provider and token, and the authorization URL and token are handed
    /// back. On an unreadable answer nothing is mutated.
    pub fn begin_oauth(&mut self, provider: Provider, body: &str) -> (r: Option<(String, String)>)
        ensures
            match r {
                Some(ut) => body@ == spec_url_state_json(ut.0@, ut.1@) && final(self).pending_oauth
                    == (Some(OAuthState { provider, state: ut.1 })),
                None => (forall|u: Seq<char>, t: Seq<char>|
                    quote_free(u) && quote_free(t) ==> body@ != spec_url_state_json(u, t))
                    && final(self).pending_oauth == old(self).pending_oauth,
            },
            final(self).proxy_status == old(self).proxy_status,
            final(self).auth_status == old(self).auth_status,
            final(self).config == old(self).config,
            final(self).process_held == old(self).process_held,
    {
        match parse_url_state(body) {
            Some((url, token)) => {
                self.pending_oauth = Some(OAuthState { provider, state: token.clone() });
                Some((url, token))
            },
            None => None,
        }
    }

    /// Decides a completion poll from what came back over the wire: true
    /// exactly when the request succeeded and the answer carries the status
    /// word of a finished authorization. A failed request or any other
    /// answer reads as "not yet complete", never as an error.
    pub fn poll_oauth_decide(http_ok: bool, body: &str) -> (r: bool)
        ensures
            r == (http_ok && body@ == spec_status_json("ok"@)),
    {
        if !http_ok {
            return false;
        }
        match parse_status(body) {
            Some(word) => {
                let is_ok = word == String::from_str("ok");
                proof {
                    reveal_strlit("ok");
                    if word@ == "ok"@ {
                        assert(body@ == spec_status_json("ok"@));
                    } else {
                        if body@ == spec_status_json("ok"@) {
                            assert(quote_free("ok"@));
                            lemma_status_json_injective(word@, "ok"@);
                        }
                    }
                }
                is_ok
            },
            None => {
                proof {
                    reveal_strlit("ok");
                    assert(quote_free("ok"@));
                }
                false
            },
        }
    }

    /// Judges an inbound callback against the pending session: the provider
    /// and the delivered code are handed back exactly when a session is
    /// pending and the delivered state equals its token. A mismatch — a
    /// stale, duplicate or injected callback — is silently dropped, and
    /// nothing is ever mutated here: the pending slot is cleared only by the
    /// explicit completion acknowledgement.
    pub fn handle_oauth_callback(&self, state_param: &str, code: &str) -> (r: Option<
        (Provider, String),
    >)
        ensures
            match spec_callback_accepts(*self, state_param@) {
                Some(p) => r matches Some(pc) && pc.0 == p && pc.1@ == code@,
                None => r is None,
            },
    {
        match &self.pending_oauth {
            Some(p) => {
                let delivered = String::from_str(state_param);
                if p.state == delivered {
                    Some((p.provider, code.to_owned()))
                } else {
                    None
                }
            },
            None => None,
        }
    }

    /// Acknowledges a completed authorization: the provider's flag is set,
    /// the pending-session slot is cleared, and the new record is handed
    /// back for persisting. Nothing else moves.
    pub fn complete_oauth(&mut self, provider: Provider) -> (r: AuthStatus)
        ensures
            final(self).auth_status == spec_auth_with(old(self).auth_status, provider, true),
            final(self).pending_oauth is None,
            final(self).proxy_status == old(self).proxy_status,
            final(self).config == old(self).config,
            final(self).process_held == old(self).process_held,
            r == final(self).auth_status,
    {
        self.auth_status = auth_with(self.auth_status, provider, true);
        self.pending_oauth = None;
        self.auth_status
    }

    /// Clears the provider's flag — bookkeeping only: credentials the
    /// sidecar already stores are untouched. The pending slot and everything
    /// else keep their values, and the new record is handed back for
    /// persisting.
    pub fn disconnect_provider(&mut self, provider: Provider) -> (r: AuthStatus)
        ensures
            final(self).auth_status == spec_auth_with(old(self).auth_status, provider, false),
            final(self).pending_oauth == old(self).pending_oauth,
            final(self).proxy_status == old(self).proxy_status,
            final(self).config == old(self).config,
            final(self).process_held == old(self).process_held,
            r == final(self).auth_status,
    {
        self.auth_status = auth_with(self.auth_status, provider, false);
        self.auth_status
    }
}

/// Which provider, if any, a delivered callback state completes: the one of
/// the pending session, and only when the delivered state equals its token.
pub open spec fn spec_callback_accepts(st: AppState, delivered: Seq<char>) -> Option<Provider> {
    match st.pending_oauth {
        Some(p) => if p.state@ == delivered {
            Some(p.provider)
        } else {
            None
        },
        None => None,
    }
}

/// A fresh authorization replaces whatever session was pending: in any state
/// whose pending slot holds the new session, a callback carrying any other
/// token — the prior session's in particular — completes nothing.
pub proof fn lemma_new_session_rejects_old(st: AppState, fresh: OAuthState, old_token: Seq<char>)
    requires
        old_token != fresh.state@,
    ensures
        spec_callback_accepts(AppState { pending_oauth: Some(fresh), ..st }, old_token) is None,
{
}

/// A mismatched callback completes nothing, whatever the delivered token
/// and whatever session is pending.
pub proof fn lemma_mismatch_ignored(st: AppState, delivered: Seq<char>)
    requires
        match st.pending_oauth {
            Some(p) => p.state@ != delivered,
            None => true,
        },
    ensures
        spec_callback_accepts(st, delivered) is None,
{
}

} // verus!
