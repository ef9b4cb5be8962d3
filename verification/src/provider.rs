use vstd::prelude::*;

verus! {

/// The closed set of provider accounts the coordinator can authorize.
#[derive(Clone, Copy, PartialEq, Eq, Structural, Debug)]
pub enum Provider {
    Acme,
    Openai,
    Gemini,
    Qwen,
}

/// The identifier under which a provider is named at the API boundary.
pub open spec fn provider_name(p: Provider) -> Seq<char> {
    match p {
        Provider::Acme => "acme"@,
        Provider::Openai => "openai"@,
        Provider::Gemini => "gemini"@,
        Provider::Qwen => "qwen"@,
    }
}

/// Which provider, if any, a boundary identifier denotes.
pub open spec fn spec_parse_provider(s: Seq<char>) -> Option<Provider> {
    if s == "acme"@ {
        Some(Provider::Acme)
    } else if s == "openai"@ {
        Some(Provider::Openai)
    } else if s == "gemini"@ {
        Some(Provider::Gemini)
    } else if s == "qwen"@ {
        Some(Provider::Qwen)
    } else {
        None
    }
}

/// Validates a provider identifier against the closed provider set;
/// every other identifier is rejected.
pub fn parse_provider(name: &str) -> (r: Option<Provider>)
    ensures
        r == spec_parse_provider(name@),
        r matches Some(p) ==> name@ == provider_name(p),
{
    let n = String::from_str(name);
    if n == String::from_str("acme") {
        Some(Provider::Acme)
    } else if n == String::from_str("openai") {
        Some(Provider::Openai)
    } else if n == String::from_str("gemini") {
        Some(Provider::Gemini)
    } else if n == String::from_str("qwen") {
        Some(Provider::Qwen)
    } else {
        None
    }
}

/// The management-API path segment that initiates authorization for a
/// provider.
pub open spec fn spec_auth_path(p: Provider) -> Seq<char> {
    match p {
        Provider::Acme => "acmecorp-auth-url"@,
        Provider::Openai => "codex-auth-url"@,
        Provider::Gemini => "gemini-cli-auth-url"@,
        Provider::Qwen => "qwen-auth-url"@,
    }
}

/// The authorization path segment for a provider.
pub fn auth_path(p: Provider) -> (r: &'static str)
    ensures
        r@ == spec_auth_path(p),
{
    match p {
        Provider::Acme => "acmecorp-auth-url",
        Provider::Openai => "codex-auth-url",
        Provider::Gemini => "gemini-cli-auth-url",
        Provider::Qwen => "qwen-auth-url",
    }
}

} // verus!
