use btpis::config::{
    default_profile_name, migrate_old_config, profile_listing, resolve_profile,
    select_loaded_config, validate_oauth, ConfigError, ConfigFile, OauthConfig,
};

fn oauth(id: &str, url: &str) -> OauthConfig {
    OauthConfig {
        createdate: "2024".to_string(),
        client_id: id.to_string(),
        client_secret: "s".to_string(),
        token_url: "https://auth/token".to_string(),
        url: url.to_string(),
    }
}

#[test]
fn saved_profiles_read_back() {
    let mut c = ConfigFile::with_default("dev");
    c.insert_profile("dev", oauth("a", "https://dev"));
    c.insert_profile("qa", oauth("b", "https://qa"));
    c.insert_profile("dev", oauth("c", "https://dev2"));
    assert_eq!(c.profile_count(), 2);
    assert_eq!(c.get_profile("dev").unwrap().client_id, "c");
    assert_eq!(c.get_profile("qa").unwrap().url, "https://qa");
    let err = c.get_profile("prd").unwrap_err();
    assert_eq!(
        err.message(),
        "profile 'prd' not found. Use 'btpis config set prd <file>' to add it, or run 'btpis config list' to see available profiles."
    );
}

#[test]
fn default_profile_must_exist() {
    let mut c = ConfigFile::with_default("dev");
    c.insert_profile("qa", oauth("b", "https://qa"));
    let err = c.set_default("prd").unwrap_err();
    assert!(matches!(&err, ConfigError::NoSuchProfile(n) if n == "prd"));
    assert_eq!(
        err.message(),
        "profile 'prd' does not exist. Use 'btpis config set prd <file>' first."
    );
    assert_eq!(c.default_profile, "dev");
    c.set_default("qa").unwrap();
    assert_eq!(c.default_profile, "qa");
}

#[test]
fn profile_is_resolved_in_order() {
    let c = ConfigFile::with_default("dev");
    assert_eq!(resolve_profile(Some("cli"), Some("env"), &c), "cli");
    assert_eq!(resolve_profile(None, Some("env"), &c), "env");
    assert_eq!(resolve_profile(None, None, &c), "dev");
    assert_eq!(default_profile_name(), "default");
}

#[test]
fn old_format_is_migrated() {
    let m = migrate_old_config(oauth("a", "https://x"));
    assert_eq!(m.default_profile, "default");
    assert_eq!(m.get_profile("default").unwrap().client_id, "a");

    let mut current = ConfigFile::with_default("dev");
    current.insert_profile("dev", oauth("d", "https://d"));
    let (c, migrated) = select_loaded_config("/p", Some(current), Some(oauth("o", "https://o"))).unwrap();
    assert!(!migrated);
    assert_eq!(c.get_profile("dev").unwrap().client_id, "d");

    let empty = ConfigFile::with_default("dev");
    let (c, migrated) = select_loaded_config("/p", Some(empty), Some(oauth("o", "https://o"))).unwrap();
    assert!(migrated);
    assert_eq!(c.get_profile("default").unwrap().client_id, "o");

    let err = select_loaded_config("/cfg.json", None, None).unwrap_err();
    assert_eq!(
        err.message(),
        "invalid config format. Remove /cfg.json and run 'btpis config set <profile> <file>'."
    );
}

#[test]
fn blank_oauth_fields_are_refused() {
    assert!(validate_oauth(&oauth("a", "https://x")).is_ok());
    let err = validate_oauth(&oauth("  ", "https://x")).unwrap_err();
    assert_eq!(err.message(), "config is missing required OAuth fields");
    assert!(validate_oauth(&oauth("a", "\t")).is_err());
}

#[test]
fn profiles_are_listed() {
    let mut c = ConfigFile::with_default("qa");
    c.insert_profile("dev", oauth("a", "https://dev"));
    c.insert_profile("qa", oauth("b", "https://qa"));
    assert_eq!(
        profile_listing(&c),
        vec![
            "2 profile(s) configured:\n",
            "  dev",
            "    URL: https://dev",
            "    Client ID: a",
            "",
            "  qa (default)",
            "    URL: https://qa",
            "    Client ID: b",
            "",
        ]
    );
}
