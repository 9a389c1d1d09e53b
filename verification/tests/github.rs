use std::cell::RefCell;

use clihatch::{CmdOutput, CommandRunner, create_repo};

#[derive(Default)]
struct RecordingRunner {
    calls: RefCell<Vec<Vec<String>>>,
    fail: Option<String>,
}

impl CommandRunner for RecordingRunner {
    fn run(&mut self, _program: &str, args: &[&str], _stdin: Option<&str>) -> std::io::Result<CmdOutput> {
        self.calls
            .borrow_mut()
            .push(args.iter().map(|s| s.to_string()).collect());
        Ok(match &self.fail {
            Some(stderr) => CmdOutput {
                success: false,
                stdout: String::new(),
                stderr: stderr.clone(),
            },
            None => CmdOutput {
                success: true,
                stdout: String::new(),
                stderr: String::new(),
            },
        })
    }
}

#[test]
fn creates_a_public_repo_from_the_source_dir_and_pushes() {
    let mut runner = RecordingRunner::default();
    let slug = create_repo(&mut runner, "rvben", "demo", "a demo tool", "/tmp/demo").unwrap();
    assert_eq!(slug, "rvben/demo");
    let args = &runner.calls.borrow()[0];
    assert_eq!(args[0..3], ["repo", "create", "rvben/demo"]);
    assert!(args.contains(&"--public".to_string()));
    assert!(args.contains(&"--push".to_string()));
    // --source points at the scaffold dir.
    let src = args.iter().position(|a| a == "--source").unwrap();
    assert_eq!(args[src + 1], "/tmp/demo");
    // description is passed through.
    let desc = args.iter().position(|a| a == "--description").unwrap();
    assert_eq!(args[desc + 1], "a demo tool");
}

#[test]
fn surfaces_gh_failure_as_backend_error() {
    let mut runner = RecordingRunner {
        fail: Some("HTTP 422: name already exists".into()),
        ..Default::default()
    };
    let e = create_repo(&mut runner, "rvben", "demo", "d", ".").unwrap_err();
    assert_eq!(e.kind(), "backend");
    assert!(e.to_string().contains("already exists"));
}

#[test]
fn create_repo_passes_the_full_argv_once() {
    let mut runner = RecordingRunner::default();
    create_repo(&mut runner, "acme", "tool", "desc", "/x/tool").unwrap();
    let calls = runner.calls.borrow();
    assert_eq!(calls.len(), 1);
    assert_eq!(
        calls[0],
        [
            "repo", "create", "acme/tool", "--public", "--description", "desc", "--source",
            "/x/tool", "--remote", "origin", "--push"
        ]
    );
}

#[test]
fn create_repo_failure_message_names_gh() {
    let mut runner = RecordingRunner {
        fail: Some("boom".into()),
        ..Default::default()
    };
    let e = create_repo(&mut runner, "a", "b", "c", "d").unwrap_err();
    assert_eq!(e.to_string(), "gh: boom");
    assert_eq!(e.exit_code(), 2);
}

/// A runner that cannot start any program.
struct NoGh;

impl CommandRunner for NoGh {
    fn run(&mut self, _program: &str, _args: &[&str], _stdin: Option<&str>) -> std::io::Result<CmdOutput> {
        Err(std::io::Error::new(std::io::ErrorKind::NotFound, "gh is not installed"))
    }
}

#[test]
fn a_missing_gh_is_a_backend_error_with_the_io_text() {
    let e = create_repo(&mut NoGh, "rvben", "demo", "d", "/tmp/demo").unwrap_err();
    assert_eq!(e.kind(), "backend");
    assert_eq!(e.to_string(), "gh: gh is not installed");
}

#[test]
fn the_description_and_source_dir_are_passed_in_place() {
    let mut runner = RecordingRunner::default();
    create_repo(&mut runner, "rvben", "demo", "a demo tool", "/tmp/demo").unwrap();
    let args = &runner.calls.borrow()[0];
    assert_eq!(
        *args,
        [
            "repo",
            "create",
            "rvben/demo",
            "--public",
            "--description",
            "a demo tool",
            "--source",
            "/tmp/demo",
            "--remote",
            "origin",
            "--push"
        ]
    );
}
