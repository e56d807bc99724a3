use silo::env_map::EnvMap;
use silo::manifest::{EnvConfig, Manifest, NetworkConfig, SecretsConfig, SetupConfig, ShellConfig};

fn strings(items: &[&str]) -> Vec<String> {
    items.iter().map(|s| s.to_string()).collect()
}

/// A manifest with `id = "work"`, `root = "/tmp/work"`, an empty `[env]`
/// and every optional section at its default.
fn base() -> Manifest {
    Manifest {
        id: "work".to_string(),
        root: "/tmp/work".to_string(),
        inherit_cwd: true,
        shared_paths: Vec::new(),
        env: EnvConfig::default(),
        secrets: SecretsConfig::default(),
        shell: ShellConfig::default(),
        network: NetworkConfig::default(),
        setup: SetupConfig::default(),
        extends: None,
    }
}

fn with_provider(mut m: Manifest, provider: &str, items: &[&str]) -> Manifest {
    m.secrets = SecretsConfig { provider: provider.to_string(), items: strings(items) };
    m
}

#[test]
fn rejects_unknown_network_mode() {
    let mut m = with_provider(base(), "keychain", &[]);
    m.network.mode = "bogus".to_string();
    let err = m.finish_parse(None).unwrap_err();
    assert!(err.message().contains("network.mode"));
}

#[test]
fn rejects_empty_id() {
    let mut m = with_provider(base(), "keychain", &[]);
    m.id = String::new();
    let err = m.finish_parse(None).unwrap_err();
    assert!(err.message().contains("id cannot be empty"));
}

#[test]
fn rejects_extends_until_inheritance_is_implemented() {
    let mut m = with_provider(base(), "keychain", &[]);
    m.extends = Some("base/default".to_string());
    let err = m.finish_parse(None).unwrap_err();
    assert!(err.message().contains("extends"));
}

#[test]
fn rejects_invalid_secrets_provider() {
    let m = with_provider(base(), "bogus", &[]);
    let err = m.finish_parse(None).unwrap_err();
    assert!(err.message().contains("secrets.provider"));
}

#[test]
fn rejects_reserved_key_in_env_set() {
    let mut m = with_provider(base(), "none", &[]);
    let mut set = EnvMap::new();
    set.insert("HOME".to_string(), "/bad".to_string());
    m.env.set = set;
    let err = m.finish_parse(None).unwrap_err();
    assert!(err.message().contains("reserved"));
}

#[test]
fn rejects_reserved_key_in_secrets_items() {
    let m = with_provider(base(), "keychain", &["TMPDIR"]);
    let err = m.finish_parse(None).unwrap_err();
    assert!(err.message().contains("reserved"));
}

#[test]
fn accepts_none_secrets_provider() {
    let m = with_provider(base(), "none", &[]);
    let manifest = m.finish_parse(None).unwrap();
    assert_eq!(manifest.secrets.provider, "none");
}

#[test]
fn proxy_mode_requires_proxy_url() {
    let mut m = base();
    m.network.mode = "proxy".to_string();
    let err = m.finish_parse(None).unwrap_err();
    assert!(err.message().contains("proxy_url"));
}

#[test]
fn proxy_mode_with_url_is_valid() {
    let mut m = base();
    m.network = NetworkConfig {
        mode: "proxy".to_string(),
        proxy_url: Some("http://proxy.local:8080".to_string()),
    };
    let manifest = m.finish_parse(None).unwrap();
    assert_eq!(manifest.network.proxy_url.as_deref(), Some("http://proxy.local:8080"));
}

#[test]
fn expands_tilde_in_root_path() {
    let home = "/Users/tester";
    let mut m = base();
    m.root = "~/.aienv/work".to_string();
    let manifest = m.finish_parse(Some(home)).unwrap();
    assert_eq!(manifest.root, format!("{home}/.aienv/work"));
}
