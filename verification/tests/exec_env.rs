use silo::env_map::EnvMap;
use silo::manifest::{EnvConfig, Manifest, NetworkConfig, SecretsConfig, SetupConfig, ShellConfig};
use silo::runtime_env::build_child_env;
use silo::secrets::resolve_from_envfile;

fn strings(items: &[&str]) -> Vec<String> {
    items.iter().map(|s| s.to_string()).collect()
}

fn env_map(pairs: &[(&str, &str)]) -> EnvMap {
    let mut m = EnvMap::new();
    for (k, v) in pairs {
        m.insert(k.to_string(), v.to_string());
    }
    m
}

/// The manifest `id = "work"`, `root = "/tmp/work"` with the given `[env]`
/// section and network mode, validated as reading it would.
fn manifest(
    allow: &[&str],
    deny: &[&str],
    set: &[(&str, &str)],
    mode: &str,
    proxy_url: Option<&str>,
) -> Result<Manifest, silo::error::AienvError> {
    Manifest {
        id: "work".to_string(),
        root: "/tmp/work".to_string(),
        inherit_cwd: true,
        shared_paths: Vec::new(),
        env: EnvConfig { allow: strings(allow), deny: strings(deny), set: env_map(set) },
        secrets: SecretsConfig::default(),
        shell: ShellConfig::default(),
        network: NetworkConfig { mode: mode.to_string(), proxy_url: proxy_url.map(|s| s.to_string()) },
        setup: SetupConfig::default(),
        extends: None,
    }
    .finish_parse(None)
}

fn get<'a>(env: &'a EnvMap, key: &str) -> &'a str {
    env.get(key).unwrap().as_str()
}

#[test]
fn loads_only_requested_keys_from_envfile() {
    let secrets = resolve_from_envfile(
        "secrets.env",
        0o600,
        "OPENAI_API_KEY=one\nANTHROPIC_API_KEY=two\nUNUSED_KEY=three\n",
        &strings(&["OPENAI_API_KEY"]),
    )
    .unwrap();
    assert_eq!(get(&secrets, "OPENAI_API_KEY"), "one");
    assert!(!secrets.contains_key("ANTHROPIC_API_KEY"));
}

#[test]
fn rejects_invalid_envfile_lines() {
    let err = resolve_from_envfile(
        "secrets.env",
        0o600,
        "OPENAI_API_KEY=one\nBROKEN_LINE\n",
        &strings(&["OPENAI_API_KEY"]),
    )
    .unwrap_err();
    assert!(err.message().contains("invalid envfile line"));
}

#[test]
fn rejects_missing_requested_keys_from_envfile() {
    let err = resolve_from_envfile(
        "secrets.env",
        0o600,
        "OPENAI_API_KEY=one\n",
        &strings(&["ANTHROPIC_API_KEY"]),
    )
    .unwrap_err();
    assert!(err.message().contains("missing secret"));
}

#[test]
fn builds_sanitized_child_env() {
    let mut m = manifest(
        &["TERM", "PATH"],
        &["OPENAI_API_KEY", "SSH_AUTH_SOCK"],
        &[("AI_ENV", "work")],
        "default",
        None,
    )
    .unwrap();
    m.shared_paths = strings(&["/tmp/ai-bus"]);
    m.secrets = SecretsConfig { provider: "keychain".to_string(), items: Vec::new() };

    let host = env_map(&[
        ("TERM", "xterm-256color"),
        ("PATH", "/usr/bin"),
        ("OPENAI_API_KEY", "should-not-leak"),
        ("HOME", "/Users/test"),
    ]);

    let env = build_child_env(&m, &host, EnvMap::new(), None);
    assert_eq!(get(&env, "AI_ENV"), "work");
    assert_eq!(get(&env, "HOME"), "/tmp/work/home");
    assert_eq!(get(&env, "XDG_CONFIG_HOME"), "/tmp/work/config");
    assert_eq!(get(&env, "XDG_CACHE_HOME"), "/tmp/work/cache");
    assert_eq!(get(&env, "TMPDIR"), "/tmp/work/tmp");
    assert_eq!(get(&env, "TERM"), "xterm-256color");
    assert_eq!(get(&env, "PATH"), "/usr/bin");
    assert!(!env.contains_key("OPENAI_API_KEY"));
    assert!(!env.contains_key("SSH_AUTH_SOCK"));
}

#[test]
fn envfile_supports_comments_and_blank_lines() {
    let secrets = resolve_from_envfile(
        "secrets.env",
        0o600,
        "# this is a comment\n\nOPENAI_API_KEY=one\n# another comment\nGEMINI_KEY=two\n",
        &strings(&["OPENAI_API_KEY", "GEMINI_KEY"]),
    )
    .unwrap();
    assert_eq!(get(&secrets, "OPENAI_API_KEY"), "one");
    assert_eq!(get(&secrets, "GEMINI_KEY"), "two");
}

#[test]
fn envfile_supports_export_prefix() {
    let secrets = resolve_from_envfile(
        "secrets.env",
        0o600,
        "export OPENAI_API_KEY=one\n",
        &strings(&["OPENAI_API_KEY"]),
    )
    .unwrap();
    assert_eq!(get(&secrets, "OPENAI_API_KEY"), "one");
}

#[test]
fn envfile_supports_double_quoted_values() {
    let secrets = resolve_from_envfile(
        "secrets.env",
        0o600,
        "KEY=\"hello world\"\nKEY2=\"line\\nbreak\"\n",
        &strings(&["KEY", "KEY2"]),
    )
    .unwrap();
    assert_eq!(get(&secrets, "KEY"), "hello world");
    assert_eq!(get(&secrets, "KEY2"), "line\nbreak");
}

#[test]
fn envfile_supports_single_quoted_values() {
    let secrets = resolve_from_envfile(
        "secrets.env",
        0o600,
        "KEY='hello world'\nKEY2='no\\nescape'\n",
        &strings(&["KEY", "KEY2"]),
    )
    .unwrap();
    assert_eq!(get(&secrets, "KEY"), "hello world");
    assert_eq!(get(&secrets, "KEY2"), "no\\nescape");
}

#[test]
fn envfile_trims_whitespace_around_key_and_value() {
    let secrets = resolve_from_envfile(
        "secrets.env",
        0o600,
        "  KEY  =  value  \n",
        &strings(&["KEY"]),
    )
    .unwrap();
    assert_eq!(get(&secrets, "KEY"), "value");
}

#[test]
fn envfile_rejects_open_permissions() {
    let err = resolve_from_envfile("secrets.env", 0o644, "KEY=value\n", &strings(&["KEY"]))
        .unwrap_err();
    assert!(err.message().contains("permissions"));
}

#[test]
fn envfile_accepts_strict_permissions() {
    let secrets =
        resolve_from_envfile("secrets.env", 0o600, "KEY=value\n", &strings(&["KEY"])).unwrap();
    assert_eq!(get(&secrets, "KEY"), "value");
}

#[test]
fn forced_vars_cannot_be_overridden_by_env_set() {
    let err = manifest(&[], &[], &[("XDG_DATA_HOME", "/bad")], "default", None).unwrap_err();
    assert!(err.message().contains("reserved"));
}

#[test]
fn builds_env_with_xdg_data_and_state() {
    let m = manifest(&["TERM"], &[], &[("AI_ENV", "work")], "default", None).unwrap();
    let host = env_map(&[("TERM", "xterm"), ("HOME", "/Users/test")]);

    let env = build_child_env(&m, &host, EnvMap::new(), None);
    assert_eq!(get(&env, "XDG_DATA_HOME"), "/tmp/work/data");
    assert_eq!(get(&env, "XDG_STATE_HOME"), "/tmp/work/state");
    assert_eq!(get(&env, "HOME"), "/tmp/work/home");
    assert_eq!(get(&env, "SILO_ROOT"), "/Users/test/.silo");
}

#[test]
fn deny_overrides_allow_when_both_present() {
    let m = manifest(&["TERM", "SECRET"], &["SECRET"], &[], "default", None).unwrap();
    let host = env_map(&[("TERM", "xterm"), ("SECRET", "should-not-leak"), ("HOME", "/Users/test")]);

    let env = build_child_env(&m, &host, EnvMap::new(), None);
    assert_eq!(get(&env, "TERM"), "xterm");
    assert!(!env.contains_key("SECRET"));
}

#[test]
fn network_offline_injects_proxy_vars() {
    let m = manifest(&[], &[], &[], "offline", None).unwrap();
    let host = env_map(&[("HOME", "/Users/test")]);

    let env = build_child_env(&m, &host, EnvMap::new(), None);
    assert_eq!(get(&env, "http_proxy"), "http://127.0.0.1:1");
    assert_eq!(get(&env, "https_proxy"), "http://127.0.0.1:1");
    assert_eq!(get(&env, "ALL_PROXY"), "http://127.0.0.1:1");
}

#[test]
fn network_proxy_injects_custom_url() {
    let m = manifest(&[], &[], &[], "proxy", Some("http://proxy.local:8080")).unwrap();
    let host = env_map(&[("HOME", "/Users/test")]);

    let env = build_child_env(&m, &host, EnvMap::new(), None);
    assert_eq!(get(&env, "http_proxy"), "http://proxy.local:8080");
    assert_eq!(get(&env, "https_proxy"), "http://proxy.local:8080");
    assert_eq!(get(&env, "ALL_PROXY"), "http://proxy.local:8080");
}

#[test]
fn silo_root_preserves_existing_value() {
    let m = manifest(&[], &[], &[], "default", None).unwrap();
    let host = env_map(&[("HOME", "/Users/test"), ("SILO_ROOT", "/custom/silo")]);

    let env = build_child_env(&m, &host, EnvMap::new(), None);
    assert_eq!(get(&env, "SILO_ROOT"), "/custom/silo");
}

#[test]
fn silo_exec_dir_injected_when_provided() {
    let m = manifest(&[], &[], &[], "default", None).unwrap();
    let host = env_map(&[("HOME", "/Users/test")]);

    let env = build_child_env(&m, &host, EnvMap::new(), Some("/tmp/work/run/12345"));
    assert_eq!(get(&env, "SILO_EXEC_DIR"), "/tmp/work/run/12345");
}
