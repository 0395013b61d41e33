//! OAuth client-credentials tokens, their cache, and the CSRF token that
//! modifying requests need.
use vstd::prelude::*;

use crate::config::OauthConfig;
use crate::text::{self, owned, push_str, trim, trim_end_char};

verus! {

/// The token endpoint's answer.
#[derive(Debug)]
pub struct TokenResponse {
    pub access_token: String,
    pub token_type: String,
    pub expires_in: Option<u64>,
}

/// A token kept on disk between runs, with the second it expires.
#[derive(Debug)]
pub struct CachedToken {
    pub access_token: String,
    pub expires_at: u64,
}

/// Seconds before expiry at which a cached token is no longer used.
pub const TOKEN_MARGIN_SECS: u64 = 30;

/// Lifetime assumed when the endpoint does not say.
pub const DEFAULT_TOKEN_LIFETIME_SECS: u64 = 3600;

/// A cached token is used while it expires more than the margin after `now`.
pub fn cached_token_usable(cached: &CachedToken, now: u64) -> (b: bool)
    requires
        now + TOKEN_MARGIN_SECS <= u64::MAX,
    ensures
        b == (cached.expires_at > now + TOKEN_MARGIN_SECS),
{
    cached.expires_at > now + TOKEN_MARGIN_SECS
}

/// The cache entry for a freshly fetched token: it expires `expires_in`
/// seconds (an hour when not given) after `now`.
pub fn cache_entry(response: &TokenResponse, now: u64) -> (c: CachedToken)
    requires
        now + match response.expires_in {
            Some(e) => e,
            None => DEFAULT_TOKEN_LIFETIME_SECS,
        } <= u64::MAX,
    ensures
        c.access_token@ == response.access_token@,
        c.expires_at == now + match response.expires_in {
            Some(e) => e,
            None => DEFAULT_TOKEN_LIFETIME_SECS,
        },
{
    let lifetime = match response.expires_in {
        Some(e) => e,
        None => DEFAULT_TOKEN_LIFETIME_SECS,
    };
    CachedToken { access_token: response.access_token.clone(), expires_at: now + lifetime }
}

/// The file name of a profile's token cache: `token_cache_<profile>.json`.
pub fn token_cache_file_name(profile: &str) -> (r: String)
    ensures
        r@ == "token_cache_"@ + profile@ + ".json"@,
{
    let mut r = owned("token_cache_");
    push_str(&mut r, profile);
    push_str(&mut r, ".json");
    r
}

/// The form fields of the client-credentials grant.
pub fn token_form(oauth: &OauthConfig) -> (r: Vec<(String, String)>)
    ensures
        r@.len() == 3,
        r@[0].0@ == "grant_type"@ && r@[0].1@ == "client_credentials"@,
        r@[1].0@ == "client_id"@ && r@[1].1@ == oauth.client_id@,
        r@[2].0@ == "client_secret"@ && r@[2].1@ == oauth.client_secret@,
{
    let mut r: Vec<(String, String)> = Vec::new();
    r.push((owned("grant_type"), owned("client_credentials")));
    r.push((owned("client_id"), oauth.client_id.clone()));
    r.push((owned("client_secret"), oauth.client_secret.clone()));
    r
}

/// The value of an `Authorization` header for a bearer token.
pub fn bearer(token: &str) -> (r: String)
    ensures
        r@ == "Bearer "@ + token@,
{
    let mut r = owned("Bearer ");
    push_str(&mut r, token);
    r
}

/// A tenant URL without its trailing slashes, as every request address
/// starts.
pub fn base_url(url: &str) -> (r: String)
    ensures
        r@ == text::strip_trailing(url@, '/'),
{
    trim_end_char(url, '/')
}

/// Failures around tokens.
#[derive(Debug)]
pub enum AuthError {
    /// The token endpoint answered with this status and body.
    TokenRefused(String, String),
    /// The CSRF request answered with this status and body.
    CsrfRefused(String, String),
    /// The CSRF answer had no token.
    CsrfMissing,
}

impl AuthError {
    /// The message shown for the error.
    pub fn message(&self) -> (r: String)
        ensures
            r@ == match self {
                AuthError::TokenRefused(s, b) => "token request failed with status "@ + s@ + ": "@
                    + b@,
                AuthError::CsrfRefused(s, b) => "CSRF token request failed with status "@ + s@
                    + ": "@ + b@,
                AuthError::CsrfMissing => "CSRF token header was missing from the response"@,
            },
    {
        match self {
            AuthError::TokenRefused(s, b) => {
                let mut m = owned("token request failed with status ");
                push_str(&mut m, s.as_str());
                push_str(&mut m, ": ");
                push_str(&mut m, b.as_str());
                m
            },
            AuthError::CsrfRefused(s, b) => {
                let mut m = owned("CSRF token request failed with status ");
                push_str(&mut m, s.as_str());
                push_str(&mut m, ": ");
                push_str(&mut m, b.as_str());
                m
            },
            AuthError::CsrfMissing => owned("CSRF token header was missing from the response"),
        }
    }
}

/// A success status of an HTTP answer (2xx), as `StatusCode::is_success`
/// tests it.
pub open spec fn status_ok(status: u16) -> bool {
    200 <= status <= 299
}

/// Whether an HTTP answer's status is a success (see `status_ok`).
pub fn is_success(status: u16) -> (b: bool)
    ensures
        b == status_ok(status),
{
    200 <= status && status <= 299
}

/// The address queried for a CSRF token: the API root of the tenant.
pub fn csrf_url(base_url: &str) -> (r: String)
    ensures
        r@ == text::strip_trailing(base_url@, '/') + "/api/v1/"@,
{
    let mut r = trim_end_char(base_url, '/');
    push_str(&mut r, "/api/v1/");
    r
}

/// The CSRF token from the response's `x-csrf-token` header (absent when
/// missing or not visible ASCII): trimmed, and required to be non-empty.
pub fn csrf_token_from_header(header: Option<&str>) -> (r: Result<String, AuthError>)
    ensures
        ({
            let t = match header {
                Some(h) => text::trim_spec(h@),
                None => Seq::empty(),
            };
            match r {
                Ok(x) => t.len() > 0 && x@ == t,
                Err(e) => t.len() == 0 && e matches AuthError::CsrfMissing,
            }
        }),
{
    let t = match header {
        Some(h) => trim(h),
        None => String::new(),
    };
    if t.as_str().is_empty() {
        return Err(AuthError::CsrfMissing);
    }
    Ok(t)
}

} // verus!
