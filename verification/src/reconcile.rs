use vstd::prelude::*;
use crate::model::{auth_flag, AppState, AuthStatus};
use crate::provider::Provider;

verus! {

/// A character's code with an ASCII capital folded to its small letter;
/// every other character keeps its own code.
pub open spec fn lower_code(c: char) -> int {
    if 65 <= (c as int) && (c as int) <= 90 {
        (c as int) + 32
    } else {
        (c as int)
    }
}

/// Whether two characters are equal up to ASCII case.
pub open spec fn eq_ci(a: char, b: char) -> bool {
    lower_code(a) == lower_code(b)
}

/// Whether `pat` is a prefix of `name`, up to ASCII case.
pub open spec fn prefix_ci(name: Seq<char>, pat: Seq<char>) -> bool {
    name.len() >= pat.len() && forall|k: int| 0 <= k < pat.len() ==> eq_ci(name[k], pat[k])
}

/// Whether `pat` is a suffix of `name`, up to ASCII case.
pub open spec fn suffix_ci(name: Seq<char>, pat: Seq<char>) -> bool {
    name.len() >= pat.len() && forall|k: int|
        0 <= k < pat.len() ==> eq_ci(name[name.len() - pat.len() + k], pat[k])
}

/// Whether a filename is a credential file carrying the given prefix: the
/// prefix at the front and the credential extension at the end, both read
/// without regard to ASCII case.
pub open spec fn cred_match(name: Seq<char>, pat: Seq<char>) -> bool {
    suffix_ci(name, ".json"@) && prefix_ci(name, pat)
}

/// Whether a filename marks stored credentials for a provider, under the
/// sidecar's naming patterns.
pub open spec fn matches_provider(name: Seq<char>, p: Provider) -> bool {
    match p {
        Provider::Acme => cred_match(name, "acme-"@) || cred_match(name, "acmecorp-"@),
        Provider::Openai => cred_match(name, "codex-"@),
        Provider::Gemini => cred_match(name, "gemini-"@),
        Provider::Qwen => cred_match(name, "qwen-"@),
    }
}

/// Whether some filename of the scan marks credentials for a provider.
pub open spec fn any_match(names: Seq<Seq<char>>, p: Provider) -> bool {
    exists|k: int| 0 <= k < names.len() && matches_provider(#[trigger] names[k], p)
}

/// The record after a reconciliation pass over a directory scan: a
/// provider's flag is set where some filename matches it, and every flag
/// that was already true stays true — absence of a file never clears one.
pub open spec fn spec_reconcile(a: AuthStatus, names: Seq<Seq<char>>) -> AuthStatus {
    AuthStatus {
        acme: a.acme || any_match(names, Provider::Acme),
        openai: a.openai || any_match(names, Provider::Openai),
        gemini: a.gemini || any_match(names, Provider::Gemini),
        qwen: a.qwen || any_match(names, Provider::Qwen),
    }
}

/// The folded code of one character.
fn lower_code_exec(c: char) -> (r: u32)
    ensures
        r == lower_code(c),
{
    let u = c as u32;
    if 65 <= u && u <= 90 {
        u + 32
    } else {
        u
    }
}

/// Whether `pat` is a prefix of `name`, up to ASCII case.
fn has_prefix_ci(name: &str, pat: &str) -> (r: bool)
    ensures
        r == prefix_ci(name@, pat@),
{
    let nl = name.unicode_len();
    let pl = pat.unicode_len();
    if pl > nl {
        return false;
    }
    let mut k: usize = 0;
    while k < pl
        invariant
            0 <= k <= pl,
            pl <= nl,
            nl == name@.len(),
            pl == pat@.len(),
            forall|m: int| 0 <= m < k ==> eq_ci(name@[m], pat@[m]),
        decreases pl - k,
    {
        if lower_code_exec(name.get_char(k)) != lower_code_exec(pat.get_char(k)) {
            return false;
        }
        k += 1;
    }
    true
}

/// Whether `pat` is a suffix of `name`, up to ASCII case.
fn has_suffix_ci(name: &str, pat: &str) -> (r: bool)
    ensures
        r == suffix_ci(name@, pat@),
{
    let nl = name.unicode_len();
    let pl = pat.unicode_len();
    if pl > nl {
        return false;
    }
    let off = nl - pl;
    let mut k: usize = 0;
    while k < pl
        invariant
            0 <= k <= pl,
            pl <= nl,
            nl == name@.len(),
            pl == pat@.len(),
            off == nl - pl,
            forall|m: int| 0 <= m < k ==> eq_ci(name@[off + m], pat@[m]),
        decreases pl - k,
    {
        if lower_code_exec(name.get_char(off + k)) != lower_code_exec(pat.get_char(k)) {
            return false;
        }
        k += 1;
    }
    true
}

/// Whether a filename is a credential file carrying the given prefix.
fn is_cred_match(name: &str, pat: &str) -> (r: bool)
    ensures
        r == cred_match(name@, pat@),
{
    has_suffix_ci(name, ".json") && has_prefix_ci(name, pat)
}

/// Whether a filename marks stored credentials for a provider.
pub fn matches_provider_exec(name: &str, p: Provider) -> (r: bool)
    ensures
        r == matches_provider(name@, p),
{
    match p {
        Provider::Acme => is_cred_match(name, "acme-") || is_cred_match(name, "acmecorp-"),
        Provider::Openai => is_cred_match(name, "codex-"),
        Provider::Gemini => is_cred_match(name, "gemini-"),
        Provider::Qwen => is_cred_match(name, "qwen-"),
    }
}

/// A match among the first `i + 1` names is a match among the first `i` or
/// a match of the name at `i`.
proof fn lemma_any_match_extend(names: Seq<Seq<char>>, i: int, p: Provider)
    requires
        0 <= i < names.len(),
    ensures
        any_match(names.take(i + 1), p) == (any_match(names.take(i), p) || matches_provider(
            names[i],
            p,
        )),
{
    assert(names.take(i + 1)[i] == names[i]);
    if any_match(names.take(i + 1), p) {
        let k = choose|k: int|
            0 <= k < i + 1 && matches_provider(#[trigger] names.take(i + 1)[k], p);
        if k < i {
            assert(names.take(i)[k] == names.take(i + 1)[k]);
            assert(any_match(names.take(i), p));
        }
    }
    if any_match(names.take(i), p) {
        let k = choose|k: int| 0 <= k < i && matches_provider(#[trigger] names.take(i)[k], p);
        assert(names.take(i + 1)[k] == names.take(i)[k]);
        assert(any_match(names.take(i + 1), p));
    }
    if matches_provider(names[i], p) {
        assert(matches_provider(names.take(i + 1)[i], p));
        assert(any_match(names.take(i + 1), p));
    }
}

impl AppState {
    /// Reconciles the authentication record against a scan of the sidecar's
    /// credentials directory: each provider with a matching filename is
    /// marked authenticated, and a provider without one keeps its prior
    /// flag — this pass only ever sets flags, it never clears one. The new
    /// record is handed back for persisting; nothing else moves.
    pub fn refresh_auth_status(&mut self, names: &Vec<String>) -> (r: AuthStatus)
        ensures
            final(self).auth_status == spec_reconcile(old(self).auth_status, names.deep_view()),
            final(self).pending_oauth == old(self).pending_oauth,
            final(self).proxy_status == old(self).proxy_status,
            final(self).config == old(self).config,
            final(self).process_held == old(self).process_held,
            r == final(self).auth_status,
    {
        let ghost ns = names.deep_view();
        let mut acme = self.auth_status.acme;
        let mut openai = self.auth_status.openai;
        let mut gemini = self.auth_status.gemini;
        let mut qwen = self.auth_status.qwen;
        let mut i: usize = 0;
        proof {
            assert(ns.take(0) =~= Seq::<Seq<char>>::empty());
        }
        while i < names.len()
            invariant
                0 <= i <= names.len(),
                ns == names.deep_view(),
                ns.len() == names@.len(),
                forall|k: int| 0 <= k < ns.len() ==> ns[k] == names@[k]@,
                acme == (self.auth_status.acme || any_match(ns.take(i as int), Provider::Acme)),
                openai == (self.auth_status.openai || any_match(ns.take(i as int), Provider::Openai)),
                gemini == (self.auth_status.gemini || any_match(ns.take(i as int), Provider::Gemini)),
                qwen == (self.auth_status.qwen || any_match(ns.take(i as int), Provider::Qwen)),
            decreases names.len() - i,
        {
            let name = &names[i];
            acme = acme || matches_provider_exec(name.as_str(), Provider::Acme);
            openai = openai || matches_provider_exec(name.as_str(), Provider::Openai);
            gemini = gemini || matches_provider_exec(name.as_str(), Provider::Gemini);
            qwen = qwen || matches_provider_exec(name.as_str(), Provider::Qwen);
            proof {
                lemma_any_match_extend(ns, i as int, Provider::Acme);
                lemma_any_match_extend(ns, i as int, Provider::Openai);
                lemma_any_match_extend(ns, i as int, Provider::Gemini);
                lemma_any_match_extend(ns, i as int, Provider::Qwen);
            }
            i += 1;
        }
        proof {
            assert(ns.take(ns.len() as int) =~= ns);
        }
        self.auth_status = AuthStatus { acme, openai, gemini, qwen };
        self.auth_status
    }
}

/// Reconciliation is idempotent: a second pass over the same scan changes
/// nothing.
pub proof fn lemma_reconcile_idempotent(a: AuthStatus, names: Seq<Seq<char>>)
    ensures
        spec_reconcile(spec_reconcile(a, names), names) == spec_reconcile(a, names),
{
}

/// Reconciliation only ever sets flags: a flag that was true stays true,
/// whatever the scan holds — in particular, absence of every file leaves
/// every previously-true flag unchanged.
pub proof fn lemma_reconcile_monotone(a: AuthStatus, names: Seq<Seq<char>>, p: Provider)
    ensures
        auth_flag(a, p) ==> auth_flag(spec_reconcile(a, names), p),
{
}

/// An empty scan changes nothing at all: with no files present, every flag
/// keeps its prior value.
pub proof fn lemma_reconcile_empty(a: AuthStatus)
    ensures
        spec_reconcile(a, Seq::<Seq<char>>::empty()) == a,
{
}

/// A flag that is false stays false exactly when no filename of the scan
/// matches the provider.
pub proof fn lemma_reconcile_absent(a: AuthStatus, names: Seq<Seq<char>>, p: Provider)
    requires
        !auth_flag(a, p),
        !any_match(names, p),
    ensures
        !auth_flag(spec_reconcile(a, names), p),
{
}

} // verus!
