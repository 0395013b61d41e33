use btpis::auth::{
    base_url, bearer, cache_entry, cached_token_usable, csrf_token_from_header, csrf_url,
    token_cache_file_name, token_form, AuthError, CachedToken, TokenResponse,
};
use btpis::config::OauthConfig;

#[test]
fn cached_tokens_expire_with_a_margin() {
    let c = CachedToken { access_token: "t".to_string(), expires_at: 1_000 };
    assert!(cached_token_usable(&c, 969));
    assert!(!cached_token_usable(&c, 970));
    let r = TokenResponse {
        access_token: "abc".to_string(),
        token_type: "bearer".to_string(),
        expires_in: Some(60),
    };
    let e = cache_entry(&r, 100);
    assert_eq!(e.access_token, "abc");
    assert_eq!(e.expires_at, 160);
    let r = TokenResponse { access_token: "x".to_string(), token_type: String::new(), expires_in: None };
    assert_eq!(cache_entry(&r, 100).expires_at, 3700);
    assert_eq!(token_cache_file_name("dev"), "token_cache_dev.json");
}

#[test]
fn token_requests_are_built() {
    let o = OauthConfig {
        createdate: String::new(),
        client_id: "id".to_string(),
        client_secret: "secret".to_string(),
        token_url: "u".to_string(),
        url: "v".to_string(),
    };
    let f = token_form(&o);
    assert_eq!(
        f,
        vec![
            ("grant_type".to_string(), "client_credentials".to_string()),
            ("client_id".to_string(), "id".to_string()),
            ("client_secret".to_string(), "secret".to_string()),
        ]
    );
    assert_eq!(bearer("tok"), "Bearer tok");
    assert_eq!(base_url("https://t//"), "https://t");
    assert_eq!(csrf_url("https://t/"), "https://t/api/v1/");
}

#[test]
fn csrf_token_is_taken_from_the_header() {
    assert_eq!(csrf_token_from_header(Some("  abc ")).unwrap(), "abc");
    let e = csrf_token_from_header(Some("   ")).unwrap_err();
    assert!(matches!(e, AuthError::CsrfMissing));
    assert_eq!(e.message(), "CSRF token header was missing from the response");
    assert!(csrf_token_from_header(None).is_err());
    let e = AuthError::TokenRefused("401 Unauthorized".to_string(), "no".to_string());
    assert_eq!(e.message(), "token request failed with status 401 Unauthorized: no");
    let e = AuthError::CsrfRefused("500".to_string(), "b".to_string());
    assert_eq!(e.message(), "CSRF token request failed with status 500: b");
}
