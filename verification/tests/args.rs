use checkout::args::{unresolved, Args, Environment, LogLevel};
use checkout::failure::Failure;

fn strings(list: &[&str]) -> Vec<String> {
    list.iter().map(|s| s.to_string()).collect()
}

fn args() -> Args {
    Args {
        bump: strings(&["core"]),
        ignore: strings(&["docs", "ci"]),
        repository_path: Some("here".to_string()),
        force_checkout: true,
        debug: false,
    }
}

fn nothing() -> Environment {
    Environment { bump: None, ignore: None, repository_path: None, force_checkout: None }
}

#[test]
fn empty_environment_changes_nothing() {
    let mut merged = args();
    merged.merge_from_env(nothing());
    assert_eq!(merged.bump, strings(&["core"]));
    assert_eq!(merged.ignore, strings(&["docs", "ci"]));
    assert_eq!(merged.repository_path, Some("here".to_string()));
    assert!(merged.force_checkout);
    assert!(!merged.debug);
}

#[test]
fn environment_adds_categories() {
    let mut merged = args();
    let mut environment = nothing();
    environment.bump = Some(" ui  net ".to_string());
    environment.ignore = Some("".to_string());
    merged.merge_from_env(environment);
    assert_eq!(merged.bump, strings(&["core", "ui", "net"]));
    assert_eq!(merged.ignore, strings(&["docs", "ci"]));
}

#[test]
fn environment_replaces_the_path() {
    let mut merged = args();
    let mut environment = nothing();
    environment.repository_path = Some("there".to_string());
    merged.merge_from_env(environment);
    assert_eq!(merged.repository_path, Some("there".to_string()));
    assert_eq!(merged.root_path(), "there");
}

#[test]
fn environment_decides_on_force() {
    for (value, force) in [
        ("0", false),
        ("false", false),
        ("False", false),
        ("FALSE", false),
        ("", true),
        ("1", true),
        ("00", true),
        ("no", true),
        ("true", true),
    ] {
        let mut merged = args();
        merged.force_checkout = !force;
        let mut environment = nothing();
        environment.force_checkout = Some(value.to_string());
        merged.merge_from_env(environment);
        assert_eq!(merged.force_checkout, force, "{}", value);
    }
}

#[test]
fn current_directory_by_default() {
    let mut args = args();
    args.repository_path = None;
    assert_eq!(args.root_path(), ".");
}

#[test]
fn debug_messages_on_request() {
    let mut args = args();
    assert_eq!(args.log_level(), LogLevel::Info);
    args.debug = true;
    assert_eq!(args.log_level(), LogLevel::Debug);
}

#[test]
fn unresolved_root() {
    let failure = unresolved("x", Failure::new("no such file".to_string()));
    assert_eq!(failure.message, "Cannot resolve 'x'");
    assert_eq!(failure.causes, strings(&["no such file"]));
}
