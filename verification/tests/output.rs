use clihatch::Outcome;
use clihatch::output::{next_steps, render_secrets_text, render_text, render_verify_text};
use clihatch::secrets::{SecretReport, Skip, VerifyReport};

fn outcome(owner: &str, repo: Option<&str>) -> Outcome {
    Outcome {
        name: "demo".into(),
        owner: owner.into(),
        dir: "./demo".into(),
        files: vec![],
        committed: true,
        repo: repo.map(String::from),
    }
}

#[test]
fn next_steps_carry_non_default_owner() {
    let steps = next_steps(&outcome("acme", None));
    assert!(
        steps.iter().any(|s| s.contains("gh repo create acme/demo")),
        "create step targets the configured owner: {steps:?}"
    );
    assert!(
        steps.iter().any(|s| s == "clihatch secrets acme/demo"),
        "secrets step targets owner/name, not the default owner: {steps:?}"
    );
}

#[test]
fn next_steps_omit_create_when_repo_exists() {
    let steps = next_steps(&outcome("rvben", Some("rvben/demo")));
    assert!(!steps.iter().any(|s| s.contains("gh repo create")));
    assert!(steps.iter().any(|s| s == "clihatch secrets rvben/demo"));
}

#[test]
fn next_steps_exact_list() {
    let steps = next_steps(&outcome("acme", None));
    assert_eq!(
        steps,
        [
            "cd ./demo && make check",
            "create the GitHub repo + push (or re-run with --github): gh repo create acme/demo --source . --push",
            "clihatch secrets acme/demo",
            "vership release  # tag + dual-publish",
        ]
    );
}

#[test]
fn render_text_lists_files_and_steps() {
    let mut o = outcome("rvben", Some("rvben/demo"));
    o.files = vec!["a".into(), "b".into()];
    assert_eq!(
        render_text(&o),
        "Scaffolded ./demo (2 files, committed)\nCreated and pushed github.com/rvben/demo\nNext:\n  - cd ./demo && make check\n  - clihatch secrets rvben/demo\n  - vership release  # tag + dual-publish"
    );
    let mut o = outcome("rvben", None);
    o.committed = false;
    assert!(render_text(&o).starts_with("Scaffolded ./demo (0 files)\nNext:"));
}

#[test]
fn render_secrets_text_shows_set_skipped_and_notes() {
    let report = SecretReport {
        repo: "rvben/demo".into(),
        dry_run: true,
        set: vec!["A".into(), "B".into()],
        skipped: vec![Skip {
            secret: "C".into(),
            reason: "why".into(),
        }],
        notes: vec!["n1".into()],
    };
    assert_eq!(
        render_secrets_text(&report),
        "Secrets on rvben/demo (dry run)\n  would set: A, B\n  skipped C: why\n  note: n1"
    );
}

#[test]
fn render_verify_text_shows_present_and_missing() {
    let report = VerifyReport {
        repo: "o/r".into(),
        present: vec!["X".into()],
        missing: vec!["Y".into(), "Z".into()],
    };
    assert_eq!(
        render_verify_text(&report),
        "Release secrets on o/r\n  set: X\n  missing: Y, Z"
    );
    let empty = VerifyReport {
        repo: "o/r".into(),
        present: vec![],
        missing: vec![],
    };
    assert_eq!(render_verify_text(&empty), "Release secrets on o/r");
}
