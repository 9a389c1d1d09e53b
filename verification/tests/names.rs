use clihatch::{Request, default_tap, run, validate_name};
use std::path::PathBuf;

#[test]
fn github_without_git_is_a_usage_error() {
    let req = Request {
        name: "demo".into(),
        description: "d".into(),
        owner: "rvben".into(),
        author: "A <a@b.c>".into(),
        year: "2026".into(),
        into: "/tmp/does-not-matter".into(),
        git: false,
        github: true,
        pypi: true,
    };
    let err = run(&req).expect_err("--github with --no-git must fail");
    assert_eq!(err.kind(), "usage");
    // Fails fast, before touching the filesystem.
    assert!(!PathBuf::from("/tmp/does-not-matter/demo").exists());
}

#[test]
fn default_tap_follows_repo_owner() {
    assert_eq!(default_tap("rvben/dotdiff"), "rvben/homebrew-tap");
    assert_eq!(default_tap("acme/tool"), "acme/homebrew-tap");
}

#[test]
fn accepts_good_names() {
    assert!(validate_name("dotpick").is_ok());
    assert!(validate_name("my-cool-tool2").is_ok());
    assert!(validate_name("a_b").is_ok());
}

#[test]
fn rejects_bad_names() {
    assert!(validate_name("").is_err());
    assert!(validate_name("9lives").is_err());
    assert!(validate_name("Caps").is_err());
    assert!(validate_name("has space").is_err());
    assert!(validate_name("dots.bad").is_err());
}

#[test]
fn rejected_name_message_quotes_the_name() {
    let e = validate_name("Caps").unwrap_err();
    assert_eq!(
        e.to_string(),
        "invalid crate name \"Caps\": use lowercase letters, digits, '-' or '_', starting with a letter"
    );
    assert_eq!(e.exit_code(), 3);
}

#[test]
fn name_length_limit_is_64() {
    let ok = format!("a{}", "b".repeat(63));
    let long = format!("a{}", "b".repeat(64));
    assert!(validate_name(&ok).is_ok());
    assert!(validate_name(&long).is_err());
}

#[test]
fn default_tap_of_a_bare_name_is_that_name() {
    assert_eq!(default_tap("solo"), "solo/homebrew-tap");
    assert_eq!(default_tap("a/b/c"), "a/homebrew-tap");
}

#[test]
fn invalid_name_is_reported_before_github_check() {
    let req = Request {
        name: "Bad".into(),
        description: "d".into(),
        owner: "o".into(),
        author: "a".into(),
        year: "2026".into(),
        into: ".".into(),
        git: false,
        github: true,
        pypi: true,
    };
    let e = run(&req).unwrap_err();
    assert!(e.to_string().starts_with("invalid crate name"));
}

#[test]
fn accepted_request_is_planned() {
    let req = Request {
        name: "my-tool".into(),
        description: "desc".into(),
        owner: "acme".into(),
        author: "A <a@b.c>".into(),
        year: "2026".into(),
        into: "/tmp/x".into(),
        git: true,
        github: true,
        pypi: false,
    };
    let plan = run(&req).unwrap();
    assert_eq!(plan.vars.name_snake, "my_tool");
    assert_eq!(plan.vars.name_pascal, "MyTool");
    assert!(!plan.vars.pypi);
    assert!(plan.git && plan.github);
    assert_eq!(plan.into, "/tmp/x");
}
