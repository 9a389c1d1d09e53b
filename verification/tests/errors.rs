use clihatch::ClihatchError;

fn all() -> Vec<ClihatchError> {
    vec![
        ClihatchError::Usage {
            message: "bad".into(),
        },
        ClihatchError::Exists {
            path: "./demo".into(),
        },
        ClihatchError::Io {
            message: "disk".into(),
        },
        ClihatchError::Git {
            message: "no repo".into(),
        },
        ClihatchError::backend("gh", "HTTP 500".into()),
    ]
}

#[test]
fn kinds_and_exit_codes_follow_the_error_table() {
    let got: Vec<(&str, i32)> = all().iter().map(|e| (e.kind(), e.exit_code())).collect();
    assert_eq!(
        got,
        [
            ("usage", 3),
            ("exists", 3),
            ("io", 2),
            ("git", 2),
            ("backend", 2)
        ]
    );
}

#[test]
fn messages_match_display_forms() {
    let got: Vec<String> = all().iter().map(|e| e.to_string()).collect();
    assert_eq!(
        got,
        [
            "bad",
            "./demo already exists",
            "disk",
            "git: no repo",
            "gh: HTTP 500"
        ]
    );
}

#[test]
fn hints_only_where_actionable() {
    let got: Vec<Option<&str>> = all().iter().map(|e| e.hint()).collect();
    assert_eq!(
        got,
        [
            Some("see `clihatch --help` or `clihatch schema`"),
            Some("choose another name, or remove the existing directory"),
            None,
            None,
            Some("ensure `gh` is installed and authenticated (`gh auth status`)"),
        ]
    );
}

#[test]
fn the_published_error_table_matches_every_error() {
    let table = clihatch::error::error_table();
    let kinds: Vec<&str> = table.iter().map(|e| e.kind).collect();
    assert_eq!(kinds, ["usage", "exists", "io", "git", "backend"]);
    for e in all() {
        let row = table.iter().find(|r| r.kind == e.kind()).unwrap();
        assert_eq!(row.exit_code, e.exit_code());
        assert!(!row.retryable);
    }
    assert_eq!(table[1].description, "The target directory already exists.");
}

#[test]
fn schema_marks_only_new_as_mutating() {
    let commands = clihatch::schema::command_table();
    let new = commands.iter().find(|c| c.name == "new").unwrap();
    assert!(new.mutating);
    for name in ["schema", "completions"] {
        let c = commands.iter().find(|c| c.name == name).unwrap();
        assert!(!c.mutating, "{name} must be read-only");
    }
}

#[test]
fn the_command_table_lists_each_command_with_its_arguments() {
    let commands = clihatch::schema::command_table();
    let names: Vec<&str> = commands.iter().map(|c| c.name).collect();
    assert_eq!(names, ["new", "secrets", "schema", "completions"]);
    assert!(commands.iter().all(|c| c.stability == "stable"));
    let shell = &commands[3].args[0];
    assert_eq!(shell.choices, ["bash", "zsh", "fish", "powershell", "elvish"]);
    assert!(shell.required);
    let owner = &commands[0].args[2];
    assert_eq!(owner.name, "--owner");
    assert_eq!(owner.default, Some(clihatch::schema::ArgDefault::Text("rvben")));
    let global = clihatch::schema::global_args();
    assert_eq!(global[0].name, "--output");
}
