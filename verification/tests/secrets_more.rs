use std::cell::RefCell;

use clihatch::secrets::{
    RealSecretOps, SecretOps, Sources, bootstrap, cargo_token_from_credentials, check_repo_view,
    delete_key_argv, keygen_argv, pypi_token_from_pypirc,
};
use clihatch::{ClihatchError, CmdOutput, CommandRunner};

struct RotatingOps {
    titles: RefCell<Vec<String>>,
}

impl SecretOps for RotatingOps {
    fn preflight(&mut self, _repo: &str) -> Result<(), ClihatchError> {
        Ok(())
    }
    fn set_secret(&mut self, _repo: &str, _name: &str, _value: &str) -> Result<(), ClihatchError> {
        Ok(())
    }
    fn generate_keypair(&mut self, comment: &str) -> Result<(String, String), ClihatchError> {
        self.titles.borrow_mut().push(comment.to_string());
        Ok(("PRIV".into(), "PUB".into()))
    }
    fn add_deploy_key(&mut self, _tap: &str, title: &str, _k: &str) -> Result<bool, ClihatchError> {
        self.titles.borrow_mut().push(title.to_string());
        Ok(true)
    }
}

fn demo_sources() -> Sources {
    Sources {
        crate_name: "demo".into(),
        tap: "rvben/homebrew-tap".into(),
        cargo_token: None,
        pypi_token: Some("p".into()),
    }
}

#[test]
fn rotated_key_is_noted() {
    let mut ops = RotatingOps {
        titles: RefCell::new(vec![]),
    };
    let report = bootstrap(&mut ops, "rvben/demo", &demo_sources(), false).unwrap();
    assert_eq!(
        report.notes,
        ["rotated existing deploy key \"demo release (CI push)\" on rvben/homebrew-tap"]
    );
    assert_eq!(
        *ops.titles.borrow(),
        ["demo release (CI push)", "demo release (CI push)"]
    );
    assert_eq!(report.set, ["HOMEBREW_TAP_DEPLOY_KEY", "PYPI_API_TOKEN"]);
    assert_eq!(report.skipped[0].secret, "CARGO_REGISTRY_TOKEN");
    assert_eq!(
        report.skipped[0].reason,
        "no token in ~/.cargo/credentials.toml (run `cargo login`)"
    );
}

#[test]
fn dry_run_reports_the_same_set_as_a_real_run() {
    let mut ops = RotatingOps {
        titles: RefCell::new(vec![]),
    };
    let dry = bootstrap(&mut ops, "rvben/demo", &demo_sources(), true).unwrap();
    let real = bootstrap(&mut ops, "rvben/demo", &demo_sources(), false).unwrap();
    assert_eq!(dry.set, real.set);
    assert_eq!(dry.skipped, real.skipped);
    assert!(dry.notes.is_empty());
    assert!(dry.dry_run && !real.dry_run);
}

#[test]
fn cargo_token_falls_back_to_first_token_elsewhere() {
    let creds = "[registries.other]\ntoken = \"first\"\n[registries.more]\ntoken = \"second\"\n";
    assert_eq!(cargo_token_from_credentials(creds), Some("first".into()));
    let creds = "[x]\ntoken = \"fallback\"\n[registry]\ntoken = \"\"\n[ registry ]\ntoken=\"main\"\r\n";
    assert_eq!(cargo_token_from_credentials(creds), Some("main".into()));
    assert_eq!(cargo_token_from_credentials("tokens = \"no\"\n"), None);
    assert_eq!(cargo_token_from_credentials(""), None);
}

#[test]
fn pypi_password_must_be_in_pypi_section_and_non_empty() {
    let rc = "[pypi]\npassword =\npassword = x y \n";
    assert_eq!(pypi_token_from_pypirc(rc), Some("x y".into()));
    let rc = "password = top\n[pypi]\nusername = u\n";
    assert_eq!(pypi_token_from_pypirc(rc), None);
    let rc = "[pypi]\n[other]\npassword = no\n";
    assert_eq!(pypi_token_from_pypirc(rc), None);
}

#[test]
fn command_arguments() {
    assert_eq!(
        keygen_argv("/tmp/k", "c"),
        ["-t", "ed25519", "-f", "/tmp/k", "-N", "", "-C", "c", "-q"]
    );
    assert_eq!(
        delete_key_argv(-5, "o/t"),
        ["repo", "deploy-key", "delete", "-5", "-R", "o/t"]
    );
}

#[test]
fn repo_view_failure_names_the_repo() {
    let out = CmdOutput {
        success: false,
        stdout: String::new(),
        stderr: "  HTTP 404\n".into(),
    };
    let e = check_repo_view("rvben/demo", &out).unwrap_err();
    assert_eq!(
        e.to_string(),
        "gh: repo rvben/demo not found or inaccessible: HTTP 404"
    );
}

struct Scripted {
    calls: RefCell<Vec<(String, Vec<String>)>>,
    outputs: RefCell<Vec<bool>>,
}

impl CommandRunner for Scripted {
    fn run(&mut self, program: &str, args: &[&str], _stdin: Option<&str>) -> std::io::Result<CmdOutput> {
        self.calls.borrow_mut().push((
            program.to_string(),
            args.iter().map(|s| s.to_string()).collect(),
        ));
        let success = self.outputs.borrow_mut().remove(0);
        Ok(CmdOutput {
            success,
            stdout: String::new(),
            stderr: "err".into(),
        })
    }
}

#[test]
fn preflight_checks_repo_after_auth() {
    let runner = Scripted {
        calls: RefCell::new(vec![]),
        outputs: RefCell::new(vec![true, false]),
    };
    let mut ops = RealSecretOps::with_runner(runner);
    let e = ops.preflight("o/r").unwrap_err();
    assert_eq!(e.to_string(), "gh: repo o/r not found or inaccessible: err");
    let calls = ops.runner_ref().calls.borrow();
    assert_eq!(calls[0].1, ["auth", "status"]);
    assert_eq!(calls[1].1, ["repo", "view", "o/r", "--json", "name"]);
}

#[test]
fn keygen_failure_is_an_ssh_keygen_error() {
    let runner = Scripted {
        calls: RefCell::new(vec![]),
        outputs: RefCell::new(vec![false]),
    };
    let mut ops = RealSecretOps::with_runner(runner);
    let e = ops.keygen("/tmp/k", "c").unwrap_err();
    assert_eq!(e.to_string(), "ssh-keygen: err");
    assert_eq!(ops.runner_ref().calls.borrow()[0].0, "ssh-keygen");
}

/// A runner whose every command fails to start.
struct Missing;

impl CommandRunner for Missing {
    fn run(&mut self, _program: &str, _args: &[&str], _stdin: Option<&str>) -> std::io::Result<CmdOutput> {
        Err(std::io::Error::new(std::io::ErrorKind::NotFound, "no such program"))
    }
}

#[test]
fn a_tool_that_cannot_start_is_a_backend_error_with_the_io_text() {
    let mut ops = RealSecretOps::with_runner(Missing);
    let e = ops.set_secret("o/r", "X", "v").unwrap_err();
    assert_eq!(e.kind(), "backend");
    assert_eq!(e.to_string(), "gh: no such program");
    let e = ops.preflight("o/r").unwrap_err();
    assert_eq!(e.to_string(), "gh: no such program");
}

#[test]
fn a_failed_auth_probe_is_reported_as_not_authenticated() {
    let runner = Scripted {
        calls: RefCell::new(vec![]),
        outputs: RefCell::new(vec![false]),
    };
    let mut ops = RealSecretOps::with_runner(runner);
    let e = ops.preflight("o/r").unwrap_err();
    assert_eq!(e.to_string(), "gh: not authenticated; run `gh auth login`");
}

/// Records what a run stores and registers.
#[derive(Default)]
struct KeyRecorder {
    stored: RefCell<Vec<(String, String)>>,
    registered: RefCell<Vec<(String, String, String)>>,
}

impl SecretOps for KeyRecorder {
    fn preflight(&mut self, _repo: &str) -> Result<(), ClihatchError> {
        Ok(())
    }
    fn set_secret(&mut self, _repo: &str, name: &str, value: &str) -> Result<(), ClihatchError> {
        self.stored.borrow_mut().push((name.into(), value.into()));
        Ok(())
    }
    fn generate_keypair(&mut self, _comment: &str) -> Result<(String, String), ClihatchError> {
        Ok(("PRIVATE-1".into(), "ssh-ed25519 PUBLIC-1".into()))
    }
    fn add_deploy_key(&mut self, tap: &str, title: &str, key: &str) -> Result<bool, ClihatchError> {
        self.registered
            .borrow_mut()
            .push((tap.into(), title.into(), key.into()));
        Ok(false)
    }
}

#[test]
fn the_stored_deploy_key_is_the_private_half_of_the_registered_one() {
    let mut ops = KeyRecorder::default();
    bootstrap(&mut ops, "rvben/demo", &demo_sources(), false).unwrap();
    assert_eq!(
        *ops.registered.borrow(),
        [(
            "rvben/homebrew-tap".to_string(),
            "demo release (CI push)".to_string(),
            "ssh-ed25519 PUBLIC-1".to_string()
        )]
    );
    assert_eq!(
        *ops.stored.borrow(),
        [
            ("HOMEBREW_TAP_DEPLOY_KEY".to_string(), "PRIVATE-1".to_string()),
            ("PYPI_API_TOKEN".to_string(), "p".to_string())
        ]
    );
}
