use codex_egress_relay::config::{default_user_agent, env_number_or, env_or, Config, ConfigError};
use codex_egress_relay::fresh::time_stamp;
use codex_egress_relay::identity::is_codex;

fn vars(pairs: &[(&str, &str)]) -> Vec<(String, String)> {
    pairs
        .iter()
        .map(|(key, value)| ((*key).to_owned(), (*value).to_owned()))
        .collect()
}

#[test]
fn env_or_treats_empty_as_absent() {
    let env = vars(&[("A", "1"), ("B", ""), ("A", "2")]);
    assert_eq!(env_or(&env, "A", "d"), "1");
    assert_eq!(env_or(&env, "B", "d"), "d");
    assert_eq!(env_or(&env, "C", "d"), "d");
    assert_eq!(env_or(&env, "a", "d"), "d");
}

#[test]
fn env_number_falls_back() {
    let env = vars(&[("P", "65535"), ("Q", "65536"), ("R", "x"), ("S", ""), ("T", "+8")]);
    assert_eq!(env_number_or(&env, "P", 7, 65535), 65535);
    assert_eq!(env_number_or(&env, "Q", 7, 65535), 7);
    assert_eq!(env_number_or(&env, "R", 7, 65535), 7);
    assert_eq!(env_number_or(&env, "S", 7, 65535), 7);
    assert_eq!(env_number_or(&env, "T", 7, 65535), 8);
    assert_eq!(env_number_or(&env, "U", 7, 65535), 7);
}

#[test]
fn defaults_fill_everything_but_the_url() {
    let env = vars(&[("CODEX_PROXY_UPSTREAM_URL", "https://up.test/codex//")]);
    let cfg = Config::from_env(&env).unwrap_or_else(|e| panic!("{}", e.message()));
    assert_eq!(cfg.upstream_base_url, "https://up.test/codex");
    assert_eq!(cfg.port, 18092);
    assert_eq!(
        cfg.user_agent,
        "codex-tui/0.145.0 (Debian 12.0.0; x86_64) unknown (codex-tui; 0.145.0)"
    );
    assert_eq!(cfg.originator, "codex-tui");
    assert_eq!(cfg.beta_features, "remote_compaction_v2");
    assert_eq!(cfg.accept_encoding, "gzip, deflate");
    assert_eq!(cfg.max_body_bytes, 10 * 1024 * 1024);
    assert_eq!(cfg.timeout_secs, 120);
    assert_eq!(cfg.installation_id.len(), 36);
    assert_eq!(cfg.installation_id.as_bytes()[14], b'4');
    assert!(is_codex(&cfg.user_agent));
    assert!(is_codex(&cfg.originator));
}

#[test]
fn missing_or_empty_url_is_refused() {
    for env in [
        vars(&[]),
        vars(&[("CODEX_PROXY_UPSTREAM_URL", "")]),
        vars(&[("CODEX_PROXY_UPSTREAM_URL", "///")]),
    ] {
        match Config::from_env(&env) {
            Ok(_) => panic!("made a configuration without a URL"),
            Err(error) => {
                assert_eq!(error, ConfigError::MissingUpstreamUrl);
                assert!(error
                    .message()
                    .starts_with("CODEX_PROXY_UPSTREAM_URL is required. Example: "));
            }
        }
    }
}

#[test]
fn variables_override_defaults() {
    let env = vars(&[
        ("CODEX_PROXY_UPSTREAM_URL", "http://a/b"),
        ("CODEX_PROXY_PORT", "80"),
        ("CODEX_PROXY_UA_VERSION", "1.2"),
        ("CODEX_PROXY_ORIGINATOR", "codex_x"),
        ("CODEX_PROXY_UA_OS", "OS 1"),
        ("CODEX_PROXY_UA_TERMINAL", "term"),
        ("CODEX_PROXY_BETA_FEATURES", "b"),
        ("CODEX_PROXY_INSTALLATION_ID", "fixed"),
        ("CODEX_PROXY_ACCEPT_ENCODING", "br"),
        ("CODEX_PROXY_TIMEOUT", "5"),
        ("CODEX_PROXY_MAX_BODY_BYTES", "99"),
    ]);
    let cfg = Config::from_env(&env).unwrap_or_else(|e| panic!("{}", e.message()));
    assert_eq!(cfg.upstream_base_url, "http://a/b");
    assert_eq!(cfg.port, 80);
    assert_eq!(cfg.user_agent, "codex_x/1.2 (OS 1) term (codex_x; 1.2)");
    assert_eq!(cfg.originator, "codex_x");
    assert_eq!(cfg.beta_features, "b");
    assert_eq!(cfg.installation_id, "fixed");
    assert_eq!(cfg.accept_encoding, "br");
    assert_eq!(cfg.timeout_secs, 5);
    assert_eq!(cfg.max_body_bytes, 99);
}

#[test]
fn whole_user_agent_and_bad_numbers() {
    let env = vars(&[
        ("CODEX_PROXY_UPSTREAM_URL", "http://a"),
        ("CODEX_PROXY_USER_AGENT", "mine"),
        ("CODEX_PROXY_PORT", "70000"),
        ("CODEX_PROXY_TIMEOUT", "-1"),
        ("CODEX_PROXY_MAX_BODY_BYTES", "1_000"),
        ("CODEX_PROXY_BETA_FEATURES", ""),
    ]);
    let cfg = Config::with_installation_id(&env, "given".to_owned())
        .unwrap_or_else(|e| panic!("{}", e.message()));
    assert_eq!(cfg.user_agent, "mine");
    assert_eq!(cfg.port, 18092);
    assert_eq!(cfg.timeout_secs, 120);
    assert_eq!(cfg.max_body_bytes, 10485760);
    assert_eq!(cfg.beta_features, "remote_compaction_v2");
    assert_eq!(cfg.installation_id, "given");
}

#[test]
fn user_agent_has_five_parts() {
    assert_eq!(
        default_user_agent("o", "v", "os", "t"),
        "o/v (os) t (o; v)"
    );
}

#[test]
fn time_stamps_are_clamped() {
    assert_eq!(time_stamp(None), 0);
    assert_eq!(time_stamp(Some(1700000000000)), 1700000000000);
    assert_eq!(time_stamp(Some(u64::MAX as u128 + 1)), u64::MAX);
}
