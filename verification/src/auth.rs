use vstd::prelude::*;
use crate::config::{Runtime, opt_view};
use crate::error::{AppError, is_error};
use crate::json::{Json, JsonValue, entries_model, json_str, push_entry};
use crate::text::chars_of;
use crate::redact::{redact_sensitive_string, spec_redact_sensitive_string};

verus! {

/// Whether `c` is white space by Unicode's `White_Space` property, which
/// `char::is_whitespace` and `str::trim` follow.
pub open spec fn white_space(c: char) -> bool {
    ('\u{9}' <= c <= '\u{d}') || c == ' ' || c == '\u{85}' || c == '\u{a0}' || c == '\u{1680}' || ('\u{2000}' <= c
        <= '\u{200a}') || c == '\u{2028}' || c == '\u{2029}' || c == '\u{202f}' || c == '\u{205f}' || c == '\u{3000}'
}

/// Whether a text holds nothing but white space (what `str::trim` would
/// leave empty).
pub open spec fn blank(s: Seq<char>) -> bool {
    forall|k: int| 0 <= k < s.len() ==> white_space(#[trigger] s[k])
}

/// Whether a text holds nothing but white space.
pub fn is_blank(s: &str) -> (r: bool)
    ensures
        r == blank(s@),
{
    let cs = chars_of(s);
    let mut i: usize = 0;
    while i < cs.len()
        invariant
            cs@ == s@,
            i <= cs@.len(),
            forall|k: int| 0 <= k < i ==> white_space(#[trigger] s@[k]),
        decreases cs@.len() - i,
    {
        let c = cs[i];
        let ws = ('\u{9}' <= c && c <= '\u{d}') || c == ' ' || c == '\u{85}' || c == '\u{a0}' || c == '\u{1680}'
            || ('\u{2000}' <= c && c <= '\u{200a}') || c == '\u{2028}' || c == '\u{2029}' || c == '\u{202f}' || c
            == '\u{205f}' || c == '\u{3000}';
        if !ws {
            assert(!white_space(s@[i as int]));
            return false;
        }
        i = i + 1;
    }
    true
}

/// The cached Bearer token and when it expires.
pub struct TokenCache {
    pub token: String,
    pub expires_at: u64,
}

/// Where the Bearer token for a live request comes from.
pub enum TokenSource {
    /// The token set in the environment.
    Environment(String),
    /// The cached token, which stays valid for more than a minute.
    Cached(String),
    /// A new token must be requested.
    Request,
}

/// Picks the Bearer token: a token from the environment unless it is blank,
/// else a cached token that is valid for more than sixty seconds more, else
/// a new one. `env_token` is `RESLY_ACCESS_TOKEN`, or `RESLY_TOKEN` when
/// the first is not set; `cache` is the cache file, when it could be read.
pub fn choose_token(env_token: Option<&str>, cache: Option<TokenCache>, now: u64) -> (r: TokenSource)
    requires
        cache is Some ==> now <= u64::MAX - 60,
    ensures
        match env_token {
            Some(t) if !blank(t@) => r matches TokenSource::Environment(x) && x@ == t@,
            _ => match cache {
                Some(c) if c.expires_at > now + 60 => r matches TokenSource::Cached(x) && x@ == c.token@,
                _ => r is Request,
            },
        },
{
    match env_token {
        Some(t) => {
            if !is_blank(t) {
                return TokenSource::Environment(String::from_str(t));
            }
        },
        None => {},
    }
    match cache {
        Some(c) => {
            if c.expires_at > now + 60 {
                return TokenSource::Cached(c.token);
            }
            TokenSource::Request
        },
        None => TokenSource::Request,
    }
}

/// The account and the key a token request needs, or `auth.missing`.
pub fn token_credentials(runtime: &Runtime) -> (r: Result<(String, String), AppError>)
    ensures
        runtime.account_id is None ==> (r matches Err(e) && is_error(
            e,
            "auth.missing"@,
            "Missing RESLY_ACCOUNT_ID or account_id in ~/.resly/config.toml"@,
        )),
        runtime.account_id is Some && runtime.api_key is None ==> (r matches Err(e) && is_error(
            e,
            "auth.missing"@,
            "Missing RESLY_API_KEY or api_key in ~/.resly/config.toml"@,
        )),
        runtime.account_id is Some && runtime.api_key is Some ==> (r matches Ok((a, k)) && Some(a@) == opt_view(
            runtime.account_id,
        ) && Some(k@) == opt_view(runtime.api_key)),
{
    let account = match &runtime.account_id {
        Some(a) => a.clone(),
        None => {
            return Err(AppError::new("auth.missing", "Missing RESLY_ACCOUNT_ID or account_id in ~/.resly/config.toml"));
        },
    };
    let key = match &runtime.api_key {
        Some(k) => k.clone(),
        None => {
            return Err(AppError::new("auth.missing", "Missing RESLY_API_KEY or api_key in ~/.resly/config.toml"));
        },
    };
    Ok((account, key))
}

/// The body of a token request: `{"accountId": ..., "key": ...}`.
pub fn token_request_body(account_id: &str, key: &str) -> (r: JsonValue)
    ensures
        r@ == Json::Object(seq![("accountId"@, Json::Str(account_id@)), ("key"@, Json::Str(key@))]),
{
    let mut e: Vec<(String, JsonValue)> = Vec::new();
    push_entry(&mut e, "accountId", json_str(account_id));
    push_entry(&mut e, "key", json_str(key));
    assert(entries_model(e@) =~= seq![("accountId"@, Json::Str(account_id@)), ("key"@, Json::Str(key@))]);
    JsonValue::Object(e)
}

/// The error for a token request that the API answered with a failure
/// status; `status` is the status as printed, `body` the answer.
pub fn token_http_failure(status: &str, body: &str) -> (r: AppError)
    ensures
        is_error(r, "auth.failed"@, "Token request returned "@ + status@ + ": "@ + spec_redact_sensitive_string(body@)),
{
    let mut m = String::from_str("Token request returned ");
    m.append(status);
    m.append(": ");
    let redacted = redact_sensitive_string(body);
    m.append(redacted.as_str());
    AppError::new("auth.failed", m.as_str())
}

/// Refuses a token answer that reports `success: false`, with its message
/// or a default one.
pub fn check_token_response(success: Option<bool>, message: Option<&str>) -> (r: Result<(), AppError>)
    ensures
        success == Some(false) ==> (r matches Err(e) && is_error(
            e,
            "auth.failed"@,
            match message {
                Some(m) => m@,
                None => "Token request was not successful"@,
            },
        )),
        success != Some(false) ==> r is Ok,
{
    if success == Some(false) {
        return match message {
            Some(m) => Err(AppError::new("auth.failed", m)),
            None => Err(AppError::new("auth.failed", "Token request was not successful")),
        };
    }
    Ok(())
}

/// The cache entry for a new token: it expires `expires_in` seconds from
/// `now`, a day when the API does not say.
pub fn token_cache_entry(token: String, expires_in: Option<u64>, now: u64) -> (r: TokenCache)
    requires
        now + match expires_in {
            Some(s) => s,
            None => 86_400,
        } <= u64::MAX,
    ensures
        r.token@ == token@,
        r.expires_at == now + match expires_in {
            Some(s) => s,
            None => 86_400,
        },
{
    let lifetime = match expires_in {
        Some(s) => s,
        None => 86_400,
    };
    TokenCache { token, expires_at: now + lifetime }
}

/// The error for an API answer with a failure status; `status` is the
/// status as printed, `body` the answer's JSON text.
pub fn api_error(status: &str, body: &str) -> (r: AppError)
    ensures
        is_error(r, "api.error"@, "Resly API returned "@ + status@ + ": "@ + spec_redact_sensitive_string(body@)),
{
    let mut m = String::from_str("Resly API returned ");
    m.append(status);
    m.append(": ");
    let redacted = redact_sensitive_string(body);
    m.append(redacted.as_str());
    AppError::new("api.error", m.as_str())
}

} // verus!
