use silo::commands::exec::{choose_cwd, exit_code, run_dir_path, split_command, CwdChoice};
use silo::commands::init::{default_manifest, env_subdirs, init_report, init_script, validate_env_name};
use silo::commands::ls::sort_names;
use silo::commands::setup::{hook_outcome, hook_progress, setup_complete, setup_notice, setup_plan, SetupStep};
use silo::commands::show::show_lines;
use silo::env_map::EnvMap;
use silo::env_path::{aienv_root, env_root, load_manifest, resolve_secrets, secrets_env_path, SecretsSource};
use silo::error::{AienvError, SiloError};
use silo::manifest::{
    default_env_zsh, default_network_mode, default_none_provider, default_true, default_zsh,
    expand_tilde_path, is_reserved, EnvConfig, Manifest, NetworkConfig, SecretsConfig, SetupConfig,
    ShellConfig,
};
use silo::paths::{join_str, path_file_name, paths_equal};
use silo::runtime_env::build_child_env;
use silo::secrets::{
    check_file_permissions, keychain_secret, parse_envfile, parse_envfile_value, resolve_from_envfile,
    unescape_double_quoted,
};
use silo::text::{str_less, trim_str};

fn strings(items: &[&str]) -> Vec<String> {
    items.iter().map(|s| s.to_string()).collect()
}

fn env_map(pairs: &[(&str, &str)]) -> EnvMap {
    let mut m = EnvMap::new();
    for (k, v) in pairs {
        m.insert(k.to_string(), v.to_string());
    }
    m
}

fn base() -> Manifest {
    Manifest {
        id: "work".to_string(),
        root: "/tmp/work".to_string(),
        inherit_cwd: true,
        shared_paths: Vec::new(),
        env: EnvConfig::default(),
        secrets: SecretsConfig::default(),
        shell: ShellConfig::default(),
        network: NetworkConfig::default(),
        setup: SetupConfig::default(),
        extends: None,
    }
}

fn get<'a>(env: &'a EnvMap, key: &str) -> &'a str {
    env.get(key).unwrap().as_str()
}

#[test]
fn env_map_keeps_names_sorted_and_replaces_values() {
    let mut m = EnvMap::new();
    m.insert("b".to_string(), "1".to_string());
    m.insert("a".to_string(), "2".to_string());
    m.insert("b".to_string(), "3".to_string());
    assert_eq!(m.len(), 2);
    assert_eq!(m.entry(0), (&"a".to_string(), &"2".to_string()));
    assert_eq!(m.entry(1), (&"b".to_string(), &"3".to_string()));
    assert!(m.get("c").is_none());
    let c = m.clone();
    assert_eq!(get(&c, "b"), "3");
}

#[test]
fn str_order_is_by_code_point() {
    assert!(str_less("Zed", "alpha"));
    assert!(str_less("ab", "abc"));
    assert!(!str_less("abc", "abc"));
    assert!(!str_less("b", "a"));
}

#[test]
fn trim_removes_unicode_white_space() {
    assert_eq!(trim_str("\u{3000} x y \t\n"), "x y");
    assert_eq!(trim_str("   "), "");
}

#[test]
fn join_follows_path_rules() {
    assert_eq!(join_str("/a/b", "c"), "/a/b/c");
    assert_eq!(join_str("/a/b/", "c"), "/a/b/c");
    assert_eq!(join_str("", "c"), "c");
    assert_eq!(join_str("/a", "/abs"), "/abs");
}

#[test]
fn file_name_is_the_last_component() {
    assert_eq!(path_file_name("/bin/zsh").as_deref(), Some("zsh"));
    assert_eq!(path_file_name("/bin/zsh/").as_deref(), Some("zsh"));
    assert_eq!(path_file_name("a/."), Some("a".to_string()));
    assert_eq!(path_file_name("/"), None);
    assert_eq!(path_file_name("a/.."), None);
    assert_eq!(path_file_name("./."), None);
}

#[test]
fn paths_compare_by_component() {
    assert!(paths_equal("/tmp/work/", "/tmp/work"));
    assert!(paths_equal("/tmp//work", "/tmp/work"));
    assert!(paths_equal("/a/./b", "/a/b"));
    assert!(!paths_equal("./a", "a"));
    assert!(!paths_equal("/a", "a"));
    assert!(!paths_equal("/a/b", "/a/c"));
}

#[test]
fn tilde_expansion_only_for_home() {
    assert_eq!(expand_tilde_path("~", "/h"), "/h");
    assert_eq!(expand_tilde_path("~/x/y", "/h"), "/h/x/y");
    assert_eq!(expand_tilde_path("~user/x", "/h"), "~user/x");
    assert_eq!(expand_tilde_path("/abs/~/x", "/h"), "/abs/~/x");
}

#[test]
fn manifest_defaults() {
    assert!(default_true());
    assert_eq!(default_none_provider(), "none");
    assert_eq!(default_zsh(), "/bin/zsh");
    assert_eq!(default_env_zsh(), "env.zsh");
    assert_eq!(default_network_mode(), "default");
    let m = base();
    assert_eq!(m.secrets.provider, "none");
    assert_eq!(m.shell.program, "/bin/zsh");
    assert_eq!(m.shell.init, "env.zsh");
    assert_eq!(m.network.mode, "default");
    assert!(m.network.proxy_url.is_none());
    assert!(m.setup.on_init.is_empty());
    assert!(m.validate().is_ok());
}

#[test]
fn reserved_names() {
    for k in ["HOME", "XDG_CONFIG_HOME", "XDG_CACHE_HOME", "XDG_DATA_HOME", "XDG_STATE_HOME", "TMPDIR", "SILO_ROOT"] {
        assert!(is_reserved(k));
    }
    assert!(!is_reserved("PATH"));
    assert!(!is_reserved("home"));
}

#[test]
fn validation_messages_are_exact() {
    let mut m = base();
    m.id = "  ".to_string();
    assert_eq!(m.validate().unwrap_err().message(), "manifest validation error: id cannot be empty");

    let mut m = base();
    m.network.mode = "bogus".to_string();
    assert_eq!(
        m.validate().unwrap_err().message(),
        "manifest validation error: network.mode must be default|offline|proxy, got bogus"
    );

    let mut m = base();
    m.env.set = env_map(&[("TMPDIR", "/x"), ("HOME", "/y")]);
    assert_eq!(
        m.validate().unwrap_err().message(),
        "manifest validation error: env.set contains reserved key: HOME"
    );

    let mut m = base();
    m.secrets = SecretsConfig { provider: "envfile".to_string(), items: strings(&["A", "SILO_ROOT"]) };
    assert_eq!(
        m.validate().unwrap_err().message(),
        "manifest validation error: secrets.items contains reserved key: SILO_ROOT"
    );

    let mut m = base();
    m.extends = Some("x".to_string());
    m.network.mode = "bogus".to_string();
    assert_eq!(
        m.validate().unwrap_err().message(),
        "manifest validation error: manifest inheritance via `extends` is not implemented yet"
    );

    let e = AienvError::ManifestParse("unknown field `typo`".to_string());
    assert_eq!(e.message(), "manifest parse error: unknown field `typo`");
}

#[test]
fn finish_parse_expands_shared_paths() {
    let mut m = base();
    m.shared_paths = strings(&["~/shared", "/abs"]);
    let m = m.finish_parse(Some("/home/u")).unwrap();
    assert_eq!(m.shared_paths, strings(&["/home/u/shared", "/abs"]));
    let mut n = base();
    n.root = "~/r".to_string();
    assert_eq!(n.finish_parse(None).unwrap().root, "~/r");
}

#[test]
fn envfile_values() {
    assert_eq!(parse_envfile_value("\"a b\""), "a b");
    assert_eq!(parse_envfile_value("'a\\nb'"), "a\\nb");
    assert_eq!(parse_envfile_value("plain # kept"), "plain # kept");
    assert_eq!(parse_envfile_value("\""), "\"");
    assert_eq!(parse_envfile_value("\"open"), "\"open");
    assert_eq!(unescape_double_quoted("a\\tb\\\\c\\\"d\\qe\\"), "a\tb\\c\"d\\qe\\");
}

#[test]
fn envfile_later_lines_win_and_crlf_is_accepted() {
    let m = parse_envfile("K=1\r\nK=2\r\nexport  L = x=y \n").unwrap();
    assert_eq!(get(&m, "K"), "2");
    assert_eq!(get(&m, "L"), "x=y");
    let e = parse_envfile("A=1\n  bad line \r\nB=2").unwrap_err();
    assert_eq!(e.message(), "invalid envfile line:   bad line ");
}

#[test]
fn envfile_errors_are_reported_in_order() {
    let e = resolve_from_envfile("/e/secrets.env", 0o640, "BROKEN\n", &strings(&["A"])).unwrap_err();
    assert_eq!(
        e.message(),
        "envfile /e/secrets.env has too-open permissions (640); expected no group/other access (e.g. 0600)"
    );
    let e = resolve_from_envfile("s", 0o600, "A=1\n", &strings(&["A", "B", "C"])).unwrap_err();
    assert_eq!(e.message(), "missing secret B in envfile");
    assert!(check_file_permissions("s", 0o100600).is_ok());
    assert!(check_file_permissions("s", 0o100604).is_err());
}

#[test]
fn keychain_answers() {
    assert_eq!(keychain_secret("silo.work", "K", true, Ok("v\r\n".to_string()), "").unwrap(), "v");
    assert_eq!(keychain_secret("silo.work", "K", true, Ok("v\n\n".to_string()), "").unwrap(), "v\n");
    assert_eq!(keychain_secret("silo.work", "K", true, Ok("v".to_string()), "").unwrap(), "v");
    let e = keychain_secret("silo.work", "K", false, Ok(String::new()), "  denied \n").unwrap_err();
    assert_eq!(e.message(), "failed to read secret K from keychain service silo.work: denied");
    let e = keychain_secret("silo.work", "K", false, Ok(String::new()), " \n").unwrap_err();
    assert_eq!(e.message(), "failed to read secret K from keychain service silo.work");
    let e = keychain_secret("silo.work", "K", true, Err("bad utf-8".to_string()), "").unwrap_err();
    assert_eq!(e.message(), "bad utf-8");
}

#[test]
fn silo_root_and_env_root() {
    assert_eq!(aienv_root(Some("/custom"), Some("/h")).unwrap(), "/custom");
    assert_eq!(aienv_root(None, Some("/h")).unwrap(), "/h/.silo");
    assert_eq!(aienv_root(None, None).unwrap_err().message(), "HOME not set");
    assert_eq!(env_root(None, Some("/h"), "work").unwrap(), "/h/.silo/work");
    assert_eq!(secrets_env_path("/h/.silo/work"), "/h/.silo/work/secrets.env");
}

#[test]
fn load_manifest_checks_id_and_root() {
    let mut m = base();
    m.root = "/h/.silo/work/".to_string();
    let (loaded, root) = load_manifest("work", "/h/.silo/work", Ok(m.clone())).unwrap();
    assert_eq!(loaded.id, "work");
    assert_eq!(root, "/h/.silo/work");

    let e = load_manifest("other", "/h/.silo/work", Ok(m.clone())).unwrap_err();
    assert_eq!(e.message(), "manifest id \"work\" does not match environment name \"other\"");

    let e = load_manifest("work", "/h/.silo/elsewhere", Ok(m)).unwrap_err();
    assert_eq!(
        e.message(),
        "manifest root \"/h/.silo/work/\" does not match environment directory \"/h/.silo/elsewhere\""
    );

    let e = load_manifest("work", "/r", Err(AienvError::ManifestValidation("id cannot be empty".to_string())))
        .unwrap_err();
    assert_eq!(e.message(), "manifest validation error: id cannot be empty");
}

#[test]
fn secrets_source_by_provider() {
    let mut m = base();
    assert!(matches!(resolve_secrets(&m, "/r", false).unwrap(), SecretsSource::Nothing));
    m.secrets = SecretsConfig { provider: "envfile".to_string(), items: strings(&["A"]) };
    match resolve_secrets(&m, "/r", true).unwrap() {
        SecretsSource::Envfile { path } => assert_eq!(path, "/r/secrets.env"),
        other => panic!("unexpected {other:?}"),
    }
    assert_eq!(resolve_secrets(&m, "/r", false).unwrap_err().message(), "secrets.env not found at /r/secrets.env");
    m.secrets.provider = "keychain".to_string();
    match resolve_secrets(&m, "/r", false).unwrap() {
        SecretsSource::Keychain { service } => assert_eq!(service, "silo.work"),
        other => panic!("unexpected {other:?}"),
    }
    m.secrets.provider = "none".to_string();
    assert!(matches!(resolve_secrets(&m, "/r", false).unwrap(), SecretsSource::Nothing));
    m.secrets.provider = "vault".to_string();
    assert_eq!(resolve_secrets(&m, "/r", false).unwrap_err().message(), "unknown secrets provider: vault");
}

#[test]
fn child_env_sources_in_order() {
    let mut m = base();
    m.env = EnvConfig {
        allow: strings(&["A", "B", "C", "HOME"]),
        deny: strings(&["C"]),
        set: env_map(&[("B", "from-set"), ("S", "from-set")]),
    };
    let host = env_map(&[("A", "host-a"), ("B", "host-b"), ("C", "host-c"), ("D", "host-d"), ("HOME", "/Users/me")]);
    let secrets = env_map(&[("S", "secret"), ("HOME", "sneaky")]);
    let env = build_child_env(&m, &host, secrets, None);
    assert_eq!(get(&env, "A"), "host-a");
    assert_eq!(get(&env, "B"), "from-set");
    assert_eq!(get(&env, "S"), "secret");
    assert!(!env.contains_key("C"));
    assert!(!env.contains_key("D"));
    assert!(!env.contains_key("SILO_EXEC_DIR"));
    assert!(!env.contains_key("http_proxy"));
    assert_eq!(get(&env, "HOME"), "/tmp/work/home");
    assert_eq!(get(&env, "SILO_HOST_HOME"), "/Users/me");
    assert_eq!(get(&env, "SILO_ROOT"), "/Users/me/.silo");
    assert_eq!(env.len(), 11);
}

#[test]
fn host_home_survives_nesting() {
    let m = base();
    let host = env_map(&[("HOME", "/tmp/work/home"), ("SILO_HOST_HOME", "/Users/me")]);
    let env = build_child_env(&m, &host, EnvMap::new(), None);
    assert_eq!(get(&env, "SILO_HOST_HOME"), "/Users/me");
    let empty = build_child_env(&m, &EnvMap::new(), EnvMap::new(), None);
    assert_eq!(get(&empty, "SILO_ROOT"), "");
    assert_eq!(get(&empty, "SILO_HOST_HOME"), "");
}

#[test]
fn exec_choices() {
    let mut m = base();
    assert!(matches!(choose_cwd(Some("/w".to_string()), &m), CwdChoice::Given(ref g) if g == "/w"));
    assert!(matches!(choose_cwd(None, &m), CwdChoice::Current));
    m.inherit_cwd = false;
    assert!(matches!(choose_cwd(None, &m), CwdChoice::EnvHome(ref h) if h == "/tmp/work/home"));
    assert_eq!(run_dir_path("/tmp/work", 12345), "/tmp/work/run/12345");
    let (p, a) = split_command(&strings(&["python3", "-c", "x"])).unwrap();
    assert_eq!(p, "python3");
    assert_eq!(a, strings(&["-c", "x"]));
    assert_eq!(split_command(&Vec::new()).unwrap_err().message(), "command cannot be empty");
    assert_eq!(exit_code(Some(3), None), 3);
    assert_eq!(exit_code(None, Some(9)), 137);
    assert_eq!(exit_code(None, None), 129);
}

#[test]
fn env_names() {
    assert!(validate_env_name("work-1_A").is_ok());
    assert_eq!(validate_env_name("").unwrap_err().message(), "environment name cannot be empty");
    assert_eq!(
        validate_env_name("a b").unwrap_err().message(),
        "environment name may only contain ASCII letters, digits, '-' and '_'"
    );
    assert!(validate_env_name("é").is_err());
    assert!(validate_env_name(".").is_err());
}

#[test]
fn init_texts() {
    let text = default_manifest("work", "/h/.silo/work");
    assert!(text.starts_with("id = \"work\"\nroot = \"/h/.silo/work\"\ninherit_cwd = true\n"));
    assert!(text.contains("[env.set]\nAI_ENV = \"work\"\n"));
    assert!(text.contains("  \"ALL_PROXY\",\n]\n"));
    assert!(text.ends_with("[network]\nmode = \"default\"\n"));
    assert_eq!(init_script("work"), "export AI_ENV=work\n");
    assert_eq!(init_report("work", true), "environment work already initialized");
    assert_eq!(init_report("work", false), "initialized environment work");
    assert_eq!(env_subdirs(), strings(&["home", "config", "cache", "data", "state", "tmp", "run"]));
}

#[test]
fn setup_decisions_and_texts() {
    assert_eq!(setup_plan(true, false, 3), SetupStep::AlreadyDone);
    assert_eq!(setup_plan(true, true, 3), SetupStep::Run);
    assert_eq!(setup_plan(false, false, 0), SetupStep::NoHooks);
    assert_eq!(setup_notice(&SetupStep::AlreadyDone).unwrap(), "setup already completed (use --force to re-run)");
    assert_eq!(setup_notice(&SetupStep::NoHooks).unwrap(), "no setup hooks defined");
    assert!(setup_notice(&SetupStep::Run).is_none());
    assert_eq!(hook_progress(0, 3, "touch x"), "[setup 1/3] touch x");
    assert_eq!(setup_complete(12), "setup complete (12 commands)");
    assert!(hook_outcome(true, Some(0), "x").is_ok());
    assert_eq!(hook_outcome(false, Some(1), "false").unwrap_err().message(), "setup command failed (exit 1): false");
    assert_eq!(hook_outcome(false, None, "k").unwrap_err().message(), "setup command failed (exit -1): k");
}

#[test]
fn show_report_lines() {
    let mut m = base();
    m.env.allow = strings(&["PATH", "TERM"]);
    m.env.set = env_map(&[("B", "2"), ("A", "1")]);
    m.secrets = SecretsConfig { provider: "envfile".to_string(), items: strings(&["K"]) };
    m.network = NetworkConfig { mode: "proxy".to_string(), proxy_url: Some("http://p:1".to_string()) };
    let lines = show_lines(&m, "/h/.silo/work");
    let expected = strings(&[
        "Environment:     work",
        "Root:            /tmp/work",
        "Inherit CWD:     true",
        "Network:         proxy",
        "Proxy URL:       http://p:1",
        "",
        "Env Allow:       PATH, TERM",
        "Env Deny:        (none)",
        "Env Set:         A=1, B=2",
        "",
        "Secrets:         envfile (/h/.silo/work/secrets.env)",
        "Secret Items:    K",
        "",
        "Shell:           /bin/zsh",
        "Shell Init:      env.zsh",
        "",
        "Directories:",
        "  HOME             /tmp/work/home",
        "  XDG_CONFIG_HOME  /tmp/work/config",
        "  XDG_CACHE_HOME   /tmp/work/cache",
        "  XDG_DATA_HOME    /tmp/work/data",
        "  XDG_STATE_HOME   /tmp/work/state",
        "  TMPDIR           /tmp/work/tmp",
    ]);
    assert_eq!(lines, expected);
    let mut k = base();
    k.secrets = SecretsConfig { provider: "keychain".to_string(), items: Vec::new() };
    assert_eq!(show_lines(&k, "/x")[9], "Secrets:         keychain (silo.work)");
}

#[test]
fn ls_sorts_names() {
    assert_eq!(sort_names(strings(&["beta", "alpha", "Zed", "alpha"])), strings(&["Zed", "alpha", "alpha", "beta"]));
    assert!(sort_names(Vec::new()).is_empty());
}

#[test]
fn error_messages_of_every_kind() {
    let cases: Vec<(SiloError, &str)> = vec![
        (SiloError::HomeNotSet, "HOME not set"),
        (SiloError::InvalidEnvfileLine { line: "X".to_string() }, "invalid envfile line: X"),
        (SiloError::EmptyEnvName, "environment name cannot be empty"),
        (SiloError::EmptyCommand, "command cannot be empty"),
        (SiloError::KeychainOutput { detail: "d".to_string() }, "d"),
        (SiloError::UnknownSecretsProvider { provider: "p".to_string() }, "unknown secrets provider: p"),
        (SiloError::SecretsFileMissing { path: "/p".to_string() }, "secrets.env not found at /p"),
        (SiloError::EnvfilePermissions { path: "f".to_string(), mode: 0o100777 }, "envfile f has too-open permissions (777); expected no group/other access (e.g. 0600)"),
        (SiloError::SetupFailed { code: -2147483648, command: "c".to_string() }, "setup command failed (exit -2147483648): c"),
    ];
    for (e, text) in cases {
        assert_eq!(e.message(), text);
    }
}
