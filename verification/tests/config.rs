use ncheap::config::{
    check_config_mode, parse_bool, resolve, ConfigError, ConfigFile, ProfileFile, Secret,
};

fn env_of(pairs: &[(&str, &str)]) -> Vec<(String, String)> {
    pairs
        .iter()
        .map(|(k, v)| ((*k).to_owned(), (*v).to_owned()))
        .collect()
}

fn profile_file(user: &str, key: &str, ip: &str, sandbox: Option<bool>) -> ProfileFile {
    ProfileFile {
        api_user: Some(user.to_owned()),
        api_key: Some(Secret::new(key.to_owned())),
        username: None,
        client_ip: Some(ip.to_owned()),
        sandbox,
        allow_production_mutations: None,
    }
}

/// The config file of the examples: a default production profile and a
/// sandbox profile.
fn sample_file() -> ConfigFile {
    ConfigFile {
        default_profile: Some("production".to_owned()),
        profile: vec![
            (
                "production".to_owned(),
                profile_file("fileuser", "filekey", "192.0.2.10", None),
            ),
            (
                "sandbox".to_owned(),
                profile_file("sbuser", "sbkey", "192.0.2.10", Some(true)),
            ),
        ],
    }
}

#[test]
fn file_profile_resolves_and_username_defaults_to_api_user() {
    let p = resolve(Some(sample_file()), None, &env_of(&[])).ok().unwrap();
    assert_eq!(p.name, "production");
    assert_eq!(p.api_user, "fileuser");
    assert_eq!(p.username, "fileuser");
    assert!(!p.sandbox);
    assert_eq!(p.endpoint(), "https://api.namecheap.com/xml.response");
}

#[test]
fn env_overrides_file() {
    let env = env_of(&[("NCHEAP_API_KEY", "envkey"), ("NCHEAP_USERNAME", "other")]);
    let p = resolve(Some(sample_file()), None, &env).ok().unwrap();
    assert_eq!(p.api_key.expose(), "envkey");
    assert_eq!(p.username, "other");
    assert_eq!(p.api_user, "fileuser");
}

#[test]
fn profile_flag_selects_sandbox() {
    let p = resolve(Some(sample_file()), Some("sandbox"), &env_of(&[]))
        .ok()
        .unwrap();
    assert!(p.sandbox);
    assert_eq!(
        p.endpoint(),
        "https://api.sandbox.namecheap.com/xml.response"
    );
}

#[test]
fn unknown_explicit_profile_errors() {
    let err = resolve(Some(sample_file()), Some("staging"), &env_of(&[]))
        .err()
        .unwrap();
    assert!(matches!(err, ConfigError::UnknownProfile(name) if name == "staging"));
}

#[test]
fn pure_env_operation_without_file() {
    let env = env_of(&[
        ("NCHEAP_API_USER", "envuser"),
        ("NCHEAP_API_KEY", "envkey"),
        ("NCHEAP_CLIENT_IP", "192.0.2.20"),
    ]);
    let p = resolve(None, None, &env).ok().unwrap();
    assert_eq!(p.api_user, "envuser");
    assert_eq!(p.username, "envuser");
}

#[test]
fn missing_fields_are_listed() {
    let err = resolve(None, None, &env_of(&[("NCHEAP_API_USER", "u")]))
        .err()
        .unwrap();
    let msg = err.message();
    assert!(msg.contains("api_key"));
    assert!(msg.contains("client_ip"));
    assert!(!msg.contains("api_user ("));
}

#[test]
fn secret_debug_is_redacted() {
    let s = Secret::new("supersecret".into());
    assert_eq!(s.debug_repr(), "<redacted>");
}

#[test]
fn env_profile_selects_and_flag_wins_over_env() {
    let env = env_of(&[("NCHEAP_PROFILE", "sandbox")]);
    let p = resolve(Some(sample_file()), None, &env).ok().unwrap();
    assert_eq!(p.name, "sandbox");
    assert!(p.sandbox);
    let p = resolve(Some(sample_file()), Some("production"), &env)
        .ok()
        .unwrap();
    assert_eq!(p.name, "production");
}

#[test]
fn env_sandbox_flag_parses_and_rejects_garbage() {
    let env = env_of(&[("NCHEAP_SANDBOX", "TRUE")]);
    let p = resolve(Some(sample_file()), None, &env).ok().unwrap();
    assert!(p.sandbox);
    let env = env_of(&[("NCHEAP_SANDBOX", "maybe")]);
    let err = resolve(Some(sample_file()), None, &env).err().unwrap();
    assert!(matches!(err, ConfigError::Invalid(ref v) if v == "NCHEAP_SANDBOX"));
    assert_eq!(
        err.message(),
        "invalid value for NCHEAP_SANDBOX (expected true or false)"
    );
}

#[test]
fn production_mutations_are_armed_only_by_the_file() {
    let mut file = sample_file();
    file.profile[0].1.allow_production_mutations = Some(true);
    let p = resolve(Some(file), None, &env_of(&[])).ok().unwrap();
    assert!(p.allow_production_mutations);
    let p = resolve(Some(sample_file()), None, &env_of(&[])).ok().unwrap();
    assert!(!p.allow_production_mutations);
}

#[test]
fn missing_everything_names_all_three_fields() {
    let err = resolve(None, None, &env_of(&[])).err().unwrap();
    let msg = err.message();
    assert!(msg.starts_with("missing credentials: "));
    assert!(msg.contains("api_user (NCHEAP_API_USER)"));
    assert!(msg.contains("api_key (NCHEAP_API_KEY)"));
    assert!(msg.contains("client_ip (NCHEAP_CLIENT_IP)"));
}

#[test]
fn config_error_messages() {
    assert_eq!(
        ConfigError::UnknownProfile("staging".into()).message(),
        "profile \"staging\" not found in config file"
    );
    assert_eq!(
        ConfigError::Permissions("/x/config.toml".into()).message(),
        "config file /x/config.toml is readable by group/other; run: chmod 600 /x/config.toml"
    );
}

#[test]
fn parse_bool_accepts_both_spellings_in_any_case() {
    assert_eq!(parse_bool("True"), Some(true));
    assert_eq!(parse_bool("1"), Some(true));
    assert_eq!(parse_bool("FALSE"), Some(false));
    assert_eq!(parse_bool("0"), Some(false));
    assert_eq!(parse_bool("yes"), None);
}

#[test]
fn the_environment_cannot_arm_production() {
    let env = env_of(&[("NCHEAP_ALLOW_PRODUCTION_MUTATIONS", "true")]);
    let p = resolve(Some(sample_file()), None, &env).ok().unwrap();
    assert!(!p.allow_production_mutations);
}

#[test]
fn config_files_readable_by_group_or_other_are_refused() {
    assert!(check_config_mode("/home/u/.config/ncheap/config.toml", 0o100600).is_ok());
    assert!(check_config_mode("c.toml", 0o400).is_ok());
    for mode in [0o644, 0o640, 0o604, 0o610, 0o601, 0o100660] {
        match check_config_mode("c.toml", mode) {
            Err(ConfigError::Permissions(p)) => assert_eq!(p, "c.toml"),
            other => panic!("mode {mode:o}: {other:?}"),
        }
    }
}
