use silo::commands::shell::build_shell_args;
use silo::commands::show::show_lines;
use silo::env_map::EnvMap;
use silo::manifest::{EnvConfig, Manifest, NetworkConfig, SecretsConfig, SetupConfig, ShellConfig};

#[test]
fn shell_command_builds_correct_zsh_args() {
    let args = build_shell_args("/bin/zsh", "/root", "env.zsh");
    assert_eq!(args[0], "/bin/zsh");
    assert_eq!(args[1], "--no-globalrcs");
    assert_eq!(args[2], "--no-rcs");
    assert_eq!(args[3], "-c");
    assert!(args[4].contains("source"));
    assert!(args[4].contains("env.zsh"));
    assert!(args[4].contains("exec"));
    assert!(args[4].contains("-i"));
}

#[test]
fn shell_command_builds_correct_bash_args() {
    let args = build_shell_args("/bin/bash", "/root", "env.zsh");
    assert_eq!(args[0], "/bin/bash");
    assert_eq!(args[1], "--noprofile");
    assert_eq!(args[2], "--norc");
    assert_eq!(args[3], "-c");
    assert!(args[4].contains("source"));
}

#[test]
fn shell_command_builds_generic_args_for_unknown_shell() {
    let args = build_shell_args("/bin/fish", "/root", "env.zsh");
    assert_eq!(args[0], "/bin/fish");
    assert_eq!(args[1], "-c");
    assert!(args[2].contains("source"));
    assert!(args[2].contains("exec"));
    assert!(args[2].contains("-i"));
}

#[test]
fn show_prints_resolved_config() {
    let env_root = "/home/tester/.aienv/work";
    let mut set = EnvMap::new();
    set.insert("AI_ENV".to_string(), "work".to_string());
    let manifest = Manifest {
        id: "work".to_string(),
        root: env_root.to_string(),
        inherit_cwd: true,
        shared_paths: Vec::new(),
        env: EnvConfig {
            allow: vec!["PATH".to_string()],
            deny: vec!["OPENAI_API_KEY".to_string()],
            set,
        },
        secrets: SecretsConfig::default(),
        shell: ShellConfig::default(),
        network: NetworkConfig::default(),
        setup: SetupConfig::default(),
        extends: None,
    };
    let stdout = show_lines(&manifest, env_root).join("\n");
    assert!(stdout.contains("Environment:"));
    assert!(stdout.contains("work"));
    assert!(stdout.contains("Env Allow:"));
    assert!(stdout.contains("PATH"));
    assert!(stdout.contains("Directories:"));
    assert!(stdout.contains("home"));
}
