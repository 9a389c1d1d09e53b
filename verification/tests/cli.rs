use clihatch::OutputFormat;
use clihatch::cli::{
    OutputChoice, author_from_git, crate_name_of, default_description, resolve_cargo_token,
    resolve_output, resolve_pypi_token, resolve_repo, token_from, year_from_unix_secs,
};
use clihatch::text::{i64_to_decimal, u64_to_decimal};

#[test]
fn auto_output_follows_the_terminal() {
    assert_eq!(resolve_output(OutputChoice::Auto, true), OutputFormat::Text);
    assert_eq!(resolve_output(OutputChoice::Auto, false), OutputFormat::Json);
    assert_eq!(resolve_output(OutputChoice::Json, true), OutputFormat::Json);
    assert_eq!(resolve_output(OutputChoice::Text, false), OutputFormat::Text);
}

#[test]
fn bare_repo_names_take_the_owner() {
    assert_eq!(resolve_repo("demo", "rvben"), "rvben/demo");
    assert_eq!(resolve_repo("acme/demo", "rvben"), "acme/demo");
    assert_eq!(crate_name_of("acme/demo"), "demo");
    assert_eq!(crate_name_of("a/b/c"), "c");
    assert_eq!(crate_name_of("solo"), "solo");
}

#[test]
fn tokens_are_trimmed_and_empty_ones_absent() {
    assert_eq!(token_from("  tok \n"), Some("tok".to_string()));
    assert_eq!(token_from(" \t\n"), None);
}

#[test]
fn cargo_token_prefers_the_environment() {
    let creds = "[registry]\ntoken = \"from_file\"\n";
    assert_eq!(
        resolve_cargo_token(Some(" env "), Some(creds)),
        Some("env".into())
    );
    assert_eq!(
        resolve_cargo_token(Some("   "), Some(creds)),
        Some("from_file".into())
    );
    assert_eq!(resolve_cargo_token(None, None), None);
}

#[test]
fn pypi_token_sources_in_order() {
    let rc = "[pypi]\npassword = pypi-RC\n";
    let env = vec!["".to_string(), " pypi-UV ".to_string()];
    assert_eq!(
        resolve_pypi_token(None, &env, Some(rc)),
        Some("pypi-UV".into())
    );
    assert_eq!(
        resolve_pypi_token(None, &vec![], Some(rc)),
        Some("pypi-RC".into())
    );
    // stdin was asked for: nothing else is consulted.
    assert_eq!(resolve_pypi_token(Some("\n"), &env, Some(rc)), None);
    assert_eq!(
        resolve_pypi_token(Some(" pypi-IN\n"), &env, Some(rc)),
        Some("pypi-IN".into())
    );
}

#[test]
fn author_from_git_config() {
    assert_eq!(
        author_from_git(Some("Ann".into()), Some("a@b.c".into())),
        "Ann <a@b.c>"
    );
    assert_eq!(author_from_git(Some("Ann".into()), None), "Ann");
    assert_eq!(
        author_from_git(None, Some("a@b.c".into())),
        "Your Name <you@example.com>"
    );
}

#[test]
fn year_from_epoch_seconds() {
    assert_eq!(year_from_unix_secs(0), "1970");
    assert_eq!(year_from_unix_secs(1_750_000_000), "2025");
    assert_eq!(year_from_unix_secs(31_556_952), "1971");
}

#[test]
fn decimal_forms() {
    assert_eq!(u64_to_decimal(0), "0");
    assert_eq!(u64_to_decimal(u64::MAX), u64::MAX.to_string());
    assert_eq!(i64_to_decimal(-42), "-42");
    assert_eq!(i64_to_decimal(i64::MIN), i64::MIN.to_string());
    assert_eq!(i64_to_decimal(7), "7");
}

#[test]
fn default_description_names_the_crate() {
    assert_eq!(default_description("demo"), "A clispec-compliant CLI (demo).");
}
