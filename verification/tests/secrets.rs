use std::cell::RefCell;
use std::collections::VecDeque;

use clihatch::secrets::{
    DeployKey, KeyFiles, RealBackend, RealSecretOps, SecretOps, Sources, bootstrap,
    cargo_token_from_credentials, pypi_token_from_pypirc,
};
use clihatch::{ClihatchError, CmdOutput, CommandRunner};

#[derive(Default)]
struct FakeOps {
    secrets: RefCell<Vec<(String, String)>>,
    deploy_keys: RefCell<Vec<String>>,
}

impl SecretOps for FakeOps {
    fn preflight(&mut self, _repo: &str) -> Result<(), ClihatchError> {
        Ok(())
    }
    fn set_secret(&mut self, _repo: &str, name: &str, value: &str) -> Result<(), ClihatchError> {
        self.secrets.borrow_mut().push((name.into(), value.into()));
        Ok(())
    }
    fn generate_keypair(&mut self, _c: &str) -> Result<(String, String), ClihatchError> {
        Ok(("PRIVATE".into(), "ssh-ed25519 AAAA...".into()))
    }
    fn add_deploy_key(&mut self, tap: &str, _t: &str, _k: &str) -> Result<bool, ClihatchError> {
        self.deploy_keys.borrow_mut().push(tap.into());
        Ok(false)
    }
}

fn sources(cargo: Option<&str>, pypi: Option<&str>) -> Sources {
    Sources {
        crate_name: "demo".into(),
        tap: "rvben/homebrew-tap".into(),
        cargo_token: cargo.map(String::from),
        pypi_token: pypi.map(String::from),
    }
}

#[test]
fn sets_all_three_when_sources_present() {
    let mut ops = FakeOps::default();
    let report = bootstrap(
        &mut ops,
        "rvben/demo",
        &sources(Some("cio_x"), Some("pypi-y")),
        false,
    )
    .unwrap();
    assert_eq!(
        report.set,
        [
            "CARGO_REGISTRY_TOKEN",
            "HOMEBREW_TAP_DEPLOY_KEY",
            "PYPI_API_TOKEN"
        ]
    );
    assert!(report.skipped.is_empty());
    let names: Vec<String> = ops
        .secrets
        .borrow()
        .iter()
        .map(|(n, _)| n.clone())
        .collect();
    assert_eq!(
        names,
        [
            "CARGO_REGISTRY_TOKEN",
            "HOMEBREW_TAP_DEPLOY_KEY",
            "PYPI_API_TOKEN"
        ]
    );
    assert_eq!(*ops.deploy_keys.borrow(), ["rvben/homebrew-tap"]);
}

#[test]
fn skips_missing_token_sources_but_still_does_homebrew() {
    let mut ops = FakeOps::default();
    let report = bootstrap(&mut ops, "rvben/demo", &sources(None, None), false).unwrap();
    assert_eq!(report.set, ["HOMEBREW_TAP_DEPLOY_KEY"]);
    assert_eq!(report.skipped.len(), 2);
}

#[test]
fn dry_run_executes_nothing() {
    let mut ops = FakeOps::default();
    let report = bootstrap(&mut ops, "rvben/demo", &sources(Some("cio_x"), None), true).unwrap();
    assert!(report.dry_run);
    assert!(
        ops.secrets.borrow().is_empty(),
        "dry run must not set secrets"
    );
    assert!(
        ops.deploy_keys.borrow().is_empty(),
        "dry run must not register keys"
    );
    assert!(report.set.contains(&"HOMEBREW_TAP_DEPLOY_KEY".to_string()));
}

#[test]
fn parses_cargo_token_from_registry_section() {
    let creds = "[registry]\ntoken = \"cio_abc123\"\n";
    assert_eq!(
        cargo_token_from_credentials(creds),
        Some("cio_abc123".into())
    );
}

#[test]
fn parses_cargo_token_from_crates_io_section() {
    let creds = "[registries.crates-io]\ntoken = \"cio_xyz\"\n";
    assert_eq!(cargo_token_from_credentials(creds), Some("cio_xyz".into()));
}

#[test]
fn no_cargo_token_when_absent() {
    assert_eq!(cargo_token_from_credentials("[other]\nkey = 1\n"), None);
}

#[test]
fn reads_pypi_token_from_pypi_section() {
    let rc = "[pypi]\nusername = __token__\npassword = pypi-AgEN123\n";
    assert_eq!(pypi_token_from_pypirc(rc), Some("pypi-AgEN123".into()));
}

#[test]
fn ignores_testpypi_section() {
    let rc = "[testpypi]\nusername = __token__\npassword = pypi-TEST\n";
    assert_eq!(pypi_token_from_pypirc(rc), None);
}

#[test]
fn prefers_pypi_over_other_sections() {
    let rc = "[distutils]\nindex-servers = pypi\n\n[testpypi]\npassword = pypi-WRONG\n\n[pypi]\nusername = __token__\npassword = pypi-RIGHT\n";
    assert_eq!(pypi_token_from_pypirc(rc), Some("pypi-RIGHT".into()));
}

/// One recorded call: (program, args, stdin).
type Call = (String, Vec<String>, Option<String>);
/// A call's (args, stdin) once filtered to a single program.
type Invocation = (Vec<String>, Option<String>);

/// A recording runner: captures every [`Call`] and returns queued responses
/// (defaulting to empty success).
#[derive(Default)]
struct RecordingRunner {
    calls: RefCell<Vec<Call>>,
    responses: RefCell<VecDeque<CmdOutput>>,
}

impl RecordingRunner {
    fn with(responses: Vec<CmdOutput>) -> Self {
        Self {
            calls: RefCell::new(Vec::new()),
            responses: RefCell::new(responses.into()),
        }
    }
    fn calls_to(&self, program: &str) -> Vec<Invocation> {
        self.calls
            .borrow()
            .iter()
            .filter(|(p, ..)| p == program)
            .map(|(_, a, s)| (a.clone(), s.clone()))
            .collect()
    }
}

impl CommandRunner for RecordingRunner {
    fn run(&mut self, program: &str, args: &[&str], stdin: Option<&str>) -> std::io::Result<CmdOutput> {
        self.calls.borrow_mut().push((
            program.to_string(),
            args.iter().map(|s| s.to_string()).collect(),
            stdin.map(String::from),
        ));
        Ok(self
            .responses
            .borrow_mut()
            .pop_front()
            .unwrap_or(CmdOutput {
                success: true,
                stdout: String::new(),
                stderr: String::new(),
            }))
    }
}

fn ok(stdout: &str) -> CmdOutput {
    CmdOutput {
        success: true,
        stdout: stdout.into(),
        stderr: String::new(),
    }
}

fn err(stderr: &str) -> CmdOutput {
    CmdOutput {
        success: false,
        stdout: String::new(),
        stderr: stderr.into(),
    }
}

#[test]
fn set_secret_pipes_value_on_stdin_with_correct_argv() {
    let mut ops = RealSecretOps::with_runner(RecordingRunner::default());
    ops.set_secret("rvben/demo", "CARGO_REGISTRY_TOKEN", "cio_secret")
        .unwrap();
    let calls = ops.runner_ref().calls_to("gh");
    assert_eq!(
        calls,
        [(
            vec![
                "secret".into(),
                "set".into(),
                "CARGO_REGISTRY_TOKEN".into(),
                "-R".into(),
                "rvben/demo".into()
            ],
            Some("cio_secret".into())
        )]
    );
}

#[test]
fn set_secret_surfaces_gh_failure_as_backend_error() {
    let mut ops = RealSecretOps::with_runner(RecordingRunner::with(vec![err("HTTP 404")]));
    let e = ops.set_secret("rvben/demo", "X", "v").unwrap_err();
    assert_eq!(e.kind(), "backend");
    assert!(e.to_string().contains("HTTP 404"));
}

/// The deploy keys of a `gh repo deploy-key list --json id,title` listing.
fn parse_keys(listing: String) -> Result<Vec<DeployKey>, ClihatchError> {
    let value: serde_json::Value = serde_json::from_str(&listing)
        .map_err(|e| ClihatchError::backend("gh", format!("parsing deploy-key list: {e}")))?;
    let items = value
        .as_array()
        .ok_or_else(|| ClihatchError::backend("gh", "parsing deploy-key list: not an array".into()))?;
    let mut keys = Vec::new();
    for item in items {
        let id = item["id"].as_i64();
        let title = item["title"].as_str();
        match (id, title) {
            (Some(id), Some(title)) => keys.push(DeployKey {
                id,
                title: title.to_string(),
            }),
            _ => {
                return Err(ClihatchError::backend(
                    "gh",
                    "parsing deploy-key list: bad entry".into(),
                ));
            }
        }
    }
    Ok(keys)
}

/// Stages the public key at a fixed path without touching the disk.
fn stage(_key: &str) -> Result<String, ClihatchError> {
    Ok("/tmp/k.pub".to_string())
}

#[test]
fn add_deploy_key_rotates_matching_title_then_adds() {
    // list returns one matching + one unrelated key; delete + add succeed.
    let runner = RecordingRunner::with(vec![
        ok(r#"[{"id":42,"title":"demo release (CI push)"},{"id":7,"title":"other"}]"#),
        ok(""), // delete 42
        ok(""), // add
    ]);
    let mut ops = RealSecretOps::with_runner(runner);
    let rotated = ops
        .add_deploy_key(
            "rvben/homebrew-tap",
            "demo release (CI push)",
            "ssh-ed25519 K",
            &parse_keys,
            &stage,
        )
        .unwrap();
    assert!(rotated, "an existing key with the title was rotated");
    let calls = ops.runner_ref().calls_to("gh");
    // list, delete 42, add - the unrelated key 7 is untouched.
    assert_eq!(calls[0].0[..3], ["repo", "deploy-key", "list"]);
    assert_eq!(
        calls[1].0,
        [
            "repo",
            "deploy-key",
            "delete",
            "42",
            "-R",
            "rvben/homebrew-tap"
        ]
    );
    assert_eq!(calls[2].0[..3], ["repo", "deploy-key", "add"]);
    assert!(calls[2].0.contains(&"--allow-write".to_string()));
    assert!(calls.iter().all(|(a, _)| !a.contains(&"7".to_string())));
}

#[test]
fn add_deploy_key_no_rotation_when_title_absent() {
    let runner = RecordingRunner::with(vec![ok("[]"), ok("")]);
    let mut ops = RealSecretOps::with_runner(runner);
    let rotated = ops
        .add_deploy_key(
            "rvben/homebrew-tap",
            "demo release (CI push)",
            "ssh-ed25519 K",
            &parse_keys,
            &stage,
        )
        .unwrap();
    assert!(!rotated);
    let calls = ops.runner_ref().calls_to("gh");
    assert_eq!(calls.len(), 2, "list + add only, no delete");
}

#[test]
fn add_deploy_key_stops_at_an_unparsable_listing() {
    let runner = RecordingRunner::with(vec![ok("not json")]);
    let mut ops = RealSecretOps::with_runner(runner);
    let e = ops
        .add_deploy_key(
            "rvben/homebrew-tap",
            "demo release (CI push)",
            "ssh-ed25519 K",
            &parse_keys,
            &stage,
        )
        .unwrap_err();
    assert_eq!(e.kind(), "backend");
    assert!(e.to_string().contains("parsing deploy-key list"));
    assert_eq!(ops.runner_ref().calls_to("gh").len(), 1, "no delete, no add");
}

#[test]
fn add_deploy_key_stops_at_a_failed_delete() {
    let runner = RecordingRunner::with(vec![
        ok(r#"[{"id":42,"title":"demo release (CI push)"}]"#),
        err("HTTP 403"),
    ]);
    let mut ops = RealSecretOps::with_runner(runner);
    let e = ops
        .add_deploy_key(
            "rvben/homebrew-tap",
            "demo release (CI push)",
            "ssh-ed25519 K",
            &parse_keys,
            &stage,
        )
        .unwrap_err();
    assert_eq!(e.to_string(), "gh: HTTP 403");
    assert_eq!(ops.runner_ref().calls_to("gh").len(), 2, "no add after a failed delete");
}

#[test]
fn add_deploy_key_surfaces_a_failed_add_with_stderr() {
    let runner = RecordingRunner::with(vec![ok("[]"), err("key already in use")]);
    let mut ops = RealSecretOps::with_runner(runner);
    let e = ops
        .add_deploy_key(
            "rvben/homebrew-tap",
            "demo release (CI push)",
            "ssh-ed25519 K",
            &parse_keys,
            &stage,
        )
        .unwrap_err();
    assert_eq!(e.to_string(), "gh: key already in use");
    let calls = ops.runner_ref().calls_to("gh");
    assert_eq!(calls[1].0[3], "/tmp/k.pub");
}

#[test]
fn generate_keypair_runs_keygen_then_reads_the_keys() {
    let mut ops = RealSecretOps::with_runner(RecordingRunner::default());
    let pair = ops
        .generate_keypair("/tmp/clihatch-key-test", "demo release (CI push)", &|| {
            Ok(("PRIVATE".to_string(), "ssh-ed25519 AAAA".to_string()))
        })
        .unwrap();
    assert_eq!(pair, ("PRIVATE".to_string(), "ssh-ed25519 AAAA".to_string()));
    let calls = ops.runner_ref().calls_to("ssh-keygen");
    assert_eq!(
        calls,
        [(
            vec![
                "-t".to_string(),
                "ed25519".into(),
                "-f".into(),
                "/tmp/clihatch-key-test".into(),
                "-N".into(),
                "".into(),
                "-C".into(),
                "demo release (CI push)".into(),
                "-q".into()
            ],
            None
        )]
    );
}

#[test]
fn generate_keypair_surfaces_keygen_stderr_and_reads_nothing() {
    let mut ops = RealSecretOps::with_runner(RecordingRunner::with(vec![err("bad key type")]));
    let e = ops
        .generate_keypair("/tmp/clihatch-key-test", "c", &|| -> Result<(String, String), ClihatchError> {
            panic!("keys are not read after a failed ssh-keygen")
        })
        .unwrap_err();
    assert_eq!(e.to_string(), "ssh-keygen: bad key type");
}

#[test]
fn preflight_fails_fast_when_not_authenticated() {
    let runner = RecordingRunner::with(vec![err("You are not logged into any GitHub hosts")]);
    let mut ops = RealSecretOps::with_runner(runner);
    let e = ops.preflight("rvben/demo").unwrap_err();
    assert_eq!(e.kind(), "backend");
    assert!(e.to_string().contains("not authenticated"));
    // It stops at auth - never reaches `repo view`.
    assert_eq!(ops.runner_ref().calls_to("gh").len(), 1);
}

#[test]
fn bootstrap_preflight_aborts_before_any_mutation() {
    let runner = RecordingRunner::with(vec![err("not logged in")]);
    let mut ops = RealBackend::new(
        runner,
        KeyFiles::new(
            "/tmp/k".to_string(),
            || -> Result<(String, String), ClihatchError> { unreachable!("no key is generated") },
            parse_keys,
            stage,
        ),
    );
    let e = bootstrap(&mut ops, "rvben/demo", &sources(Some("cio"), None), false).unwrap_err();
    assert_eq!(e.kind(), "backend");
    // Only the auth probe ran; no secret was set.
    assert_eq!(ops.ops().runner_ref().calls_to("gh").len(), 1);
}

#[test]
fn bootstrap_through_the_real_backend_runs_every_step_in_order() {
    let runner = RecordingRunner::with(vec![
        ok(""),   // auth status
        ok(""),   // repo view
        ok(""),   // secret set CARGO_REGISTRY_TOKEN
        ok(""),   // ssh-keygen
        ok("[]"), // deploy-key list
        ok(""),   // deploy-key add
        ok(""),   // secret set HOMEBREW_TAP_DEPLOY_KEY
    ]);
    let mut ops = RealBackend::new(
        runner,
        KeyFiles::new(
            "/tmp/k".to_string(),
            || Ok(("PRIVATE".to_string(), "ssh-ed25519 PUB".to_string())),
            parse_keys,
            stage,
        ),
    );
    let report = bootstrap(&mut ops, "rvben/demo", &sources(Some("cio"), None), false).unwrap();
    assert_eq!(report.set, ["CARGO_REGISTRY_TOKEN", "HOMEBREW_TAP_DEPLOY_KEY"]);
    assert!(report.notes.is_empty());
    let calls = ops.ops().runner_ref().calls.borrow().clone();
    let programs: Vec<&str> = calls.iter().map(|(p, ..)| p.as_str()).collect();
    assert_eq!(programs, ["gh", "gh", "gh", "ssh-keygen", "gh", "gh", "gh"]);
    assert_eq!(calls[0].1, ["auth", "status"]);
    assert_eq!(calls[2].2.as_deref(), Some("cio"));
    assert_eq!(calls[3].1[3], "/tmp/k");
    assert_eq!(calls[3].1[7], "demo release (CI push)");
    assert_eq!(calls[5].1[..4], ["repo", "deploy-key", "add", "/tmp/k.pub"]);
    assert_eq!(
        calls[6].1,
        ["secret", "set", "HOMEBREW_TAP_DEPLOY_KEY", "-R", "rvben/demo"]
    );
    assert_eq!(calls[6].2.as_deref(), Some("PRIVATE"));
}
