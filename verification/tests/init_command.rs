use silo::commands::init::validate_env_name;

#[test]
fn init_rejects_path_escaping_env_names() {
    let err = validate_env_name("../escape").unwrap_err();
    assert!(err.message().contains("environment name"));
}
