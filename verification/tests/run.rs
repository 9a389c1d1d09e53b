use std::cell::RefCell;

use clihatch::scaffold::outcome_of;
use clihatch::{CmdOutput, CommandRunner, Request, finish_run, run};

#[derive(Default)]
struct Recorder {
    calls: RefCell<Vec<Vec<String>>>,
    fail: bool,
}

impl CommandRunner for Recorder {
    fn run(&mut self, _program: &str, args: &[&str], _stdin: Option<&str>) -> std::io::Result<CmdOutput> {
        self.calls
            .borrow_mut()
            .push(args.iter().map(|s| s.to_string()).collect());
        Ok(CmdOutput {
            success: !self.fail,
            stdout: String::new(),
            stderr: "nope".into(),
        })
    }
}

fn request(github: bool) -> Request {
    Request {
        name: "demo".into(),
        description: "d".into(),
        owner: "acme".into(),
        author: "A <a@b.c>".into(),
        year: "2026".into(),
        into: "/tmp/x".into(),
        git: true,
        github,
        pypi: true,
    }
}

#[test]
fn github_run_records_the_created_repo() {
    let plan = run(&request(true)).unwrap();
    let outcome = outcome_of(&plan.vars, "/tmp/x/demo".into(), vec![], true);
    let mut runner = Recorder::default();
    let done = finish_run(&plan, outcome, "/tmp/x/demo", &mut runner).unwrap();
    assert_eq!(done.repo.as_deref(), Some("acme/demo"));
    assert_eq!(runner.calls.borrow().len(), 1);
}

#[test]
fn plain_run_creates_no_repo() {
    let plan = run(&request(false)).unwrap();
    let outcome = outcome_of(&plan.vars, "/tmp/x/demo".into(), vec![], true);
    let mut runner = Recorder::default();
    let done = finish_run(&plan, outcome.clone(), "/tmp/x/demo", &mut runner).unwrap();
    assert_eq!(done, outcome);
    assert!(runner.calls.borrow().is_empty());
}

#[test]
fn failed_repo_creation_is_a_backend_error() {
    let plan = run(&request(true)).unwrap();
    let outcome = outcome_of(&plan.vars, "/tmp/x/demo".into(), vec![], true);
    let mut runner = Recorder {
        fail: true,
        ..Default::default()
    };
    let e = finish_run(&plan, outcome, "/tmp/x/demo", &mut runner).unwrap_err();
    assert_eq!(e.to_string(), "gh: nope");
}

#[test]
fn github_needs_git() {
    let mut req = request(true);
    req.git = false;
    let e = run(&req).unwrap_err();
    assert_eq!(
        e.to_string(),
        "--github needs the initial commit; remove --no-git"
    );
}
