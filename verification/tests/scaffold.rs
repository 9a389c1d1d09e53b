use clihatch::scaffold::{
    RenderedFile, TemplateFile, author_identity, git_init_commands, outcome_of, render_templates,
};
use clihatch::text::sort_strings;
use clihatch::{ClihatchError, Vars};

fn vars(name: &str) -> Vars {
    Vars::new(name, "desc", "rvben", "A <a@b.c>", "2026")
}

#[test]
fn splits_author_into_name_and_email() {
    assert_eq!(
        author_identity("Ruben Jongejan <ruben@example.com>"),
        (
            "Ruben Jongejan".to_string(),
            "ruben@example.com".to_string()
        )
    );
}

#[test]
fn author_identity_falls_back_when_malformed() {
    // No angle brackets -> the whole string is the name, placeholder email.
    let (name, email) = author_identity("Just A Name");
    assert_eq!(name, "Just A Name");
    assert!(email.contains('@'));
    // Empty -> safe placeholders, never empty (git rejects empty idents).
    let (name, email) = author_identity("");
    assert!(!name.is_empty() && email.contains('@'));
}

#[test]
fn derives_snake_and_pascal_case() {
    let v = vars("my-cool-tool");
    assert_eq!(v.name_snake, "my_cool_tool");
    assert_eq!(v.name_pascal, "MyCoolTool");
}

#[test]
fn substitutes_all_placeholders() {
    let v = vars("foo-bar");
    let out = v.apply("{{name}} {{name_snake}} {{name_pascal}} {{owner}} {{year}}");
    assert_eq!(out, "foo-bar foo_bar FooBar rvben 2026");
}

#[test]
fn name_token_does_not_clobber_longer_tokens() {
    // `{{name}}` replacement must not corrupt `{{name_snake}}`.
    let v = vars("x");
    assert_eq!(v.apply("{{name_snake}}"), "x");
    assert_eq!(v.apply("{{name_pascal}}"), "X");
}

#[test]
fn author_identity_with_reversed_brackets_uses_whole_string() {
    let (name, email) = author_identity("> odd <");
    assert_eq!(name, "> odd <");
    assert_eq!(email, "clihatch@users.noreply.github.com");
}

#[test]
fn author_identity_trims_and_defaults_empty_name() {
    let (name, email) = author_identity("  <me@x.y>  ");
    assert_eq!(name, "clihatch");
    assert_eq!(email, "me@x.y");
}

#[test]
fn pascal_case_skips_empty_segments() {
    let v = vars("__a--b_c2");
    assert_eq!(v.name_pascal, "ABC2");
    assert_eq!(v.name_snake, "__a__b_c2");
}

#[test]
fn apply_leaves_other_braces_alone() {
    let v = vars("t");
    assert_eq!(v.apply("${{ github.ref }} {{unknown}}"), "${{ github.ref }} {{unknown}}");
    assert_eq!(v.apply("{{description}} by {{author}}"), "desc by A <a@b.c>");
}

#[test]
fn git_init_commands_stage_only_the_generated_files() {
    let files = vec!["Cargo.toml".to_string(), "src/main.rs".to_string()];
    let cmds = git_init_commands("demo", "Ruben <r@e.com>", &files);
    assert_eq!(cmds[0], ["init", "-q"]);
    assert_eq!(cmds[1], ["add", "--", "Cargo.toml", "src/main.rs"]);
    assert_eq!(
        cmds[2],
        [
            "-c",
            "user.name=Ruben",
            "-c",
            "user.email=r@e.com",
            "commit",
            "-q",
            "-m",
            "chore: scaffold demo with clihatch"
        ]
    );
    assert_eq!(cmds[3], ["branch", "-M", "main"]);
}

#[test]
fn templates_render_without_tmpl_suffix() {
    let v = vars("neat-tool");
    let templates = vec![
        TemplateFile {
            path: "Cargo.toml.tmpl".into(),
            contents: Some("name = \"{{name}}\"".into()),
        },
        TemplateFile {
            path: "src/main.rs".into(),
            contents: Some("use {{name_snake}}::run;".into()),
        },
    ];
    let (files, err) = render_templates(&v, &templates);
    assert!(err.is_none());
    assert_eq!(
        files,
        [
            RenderedFile {
                path: "Cargo.toml".into(),
                contents: "name = \"neat-tool\"".into()
            },
            RenderedFile {
                path: "src/main.rs".into(),
                contents: "use neat_tool::run;".into()
            },
        ]
    );
}

#[test]
fn non_utf8_template_stops_rendering_with_io_error() {
    let v = vars("x");
    let templates = vec![
        TemplateFile {
            path: "a".into(),
            contents: Some("A".into()),
        },
        TemplateFile {
            path: "bin.tmpl".into(),
            contents: None,
        },
        TemplateFile {
            path: "c".into(),
            contents: Some("C".into()),
        },
    ];
    let (files, err) = render_templates(&v, &templates);
    assert_eq!(files.len(), 1);
    let err = err.unwrap();
    assert_eq!(err.kind(), "io");
    assert_eq!(err.exit_code(), 2);
    assert_eq!(
        err,
        ClihatchError::Io {
            message: "template bin.tmpl is not valid UTF-8".into()
        }
    );
}

#[test]
fn without_pypi_the_pyproject_file_is_omitted() {
    let mut v = vars("rusttool");
    v.pypi = false;
    let templates = vec![
        TemplateFile {
            path: "pyproject.toml.tmpl".into(),
            contents: Some("x".into()),
        },
        TemplateFile {
            path: "Makefile".into(),
            contents: Some("y".into()),
        },
    ];
    let (files, err) = render_templates(&v, &templates);
    assert!(err.is_none());
    assert_eq!(files.len(), 1);
    assert_eq!(files[0].path, "Makefile");
}

#[test]
fn sorts_paths_like_string_sort() {
    let mut files = vec![
        "src/main.rs".to_string(),
        "Cargo.toml".to_string(),
        ".gitignore".to_string(),
        "src/lib.rs".to_string(),
        "README.md".to_string(),
        "src".to_string(),
        "é".to_string(),
        "z".to_string(),
    ];
    let sorted = sort_strings(files.clone());
    files.sort();
    assert_eq!(sorted, files);
}

#[test]
fn outcome_starts_without_repo() {
    let v = vars("demo");
    let o = outcome_of(&v, "./demo".into(), vec!["a".into()], true);
    assert_eq!(o.name, "demo");
    assert_eq!(o.owner, "rvben");
    assert!(o.repo.is_none() && o.committed);
}

#[test]
fn pascal_case_of_an_ascii_name_keeps_digits_and_drops_separators() {
    let v = vars("a1-b2_c3");
    assert_eq!(v.name_pascal, "A1B2C3");
    assert!(!v.name_pascal.contains('-') && !v.name_pascal.contains('_'));
}

/// Records git runs; fails the run at `fail_at`, if any, with a padded stderr.
struct GitRecorder {
    calls: Vec<Vec<String>>,
    fail_at: Option<usize>,
}

impl clihatch::CommandRunner for GitRecorder {
    fn run(
        &mut self,
        program: &str,
        args: &[&str],
        _stdin: Option<&str>,
    ) -> std::io::Result<clihatch::CmdOutput> {
        assert_eq!(program, "git");
        self.calls.push(args.iter().map(|s| s.to_string()).collect());
        let failed = self.fail_at == Some(self.calls.len() - 1);
        Ok(clihatch::CmdOutput {
            success: !failed,
            stdout: String::new(),
            stderr: if failed { "  fatal: nope \n".into() } else { String::new() },
        })
    }
}

#[test]
fn git_commands_run_in_the_crate_dir_in_order() {
    let commands = git_init_commands("demo", "A <a@b.c>", &vec!["Cargo.toml".to_string()]);
    let mut runner = GitRecorder { calls: vec![], fail_at: None };
    clihatch::scaffold::run_git_commands(&mut runner, "/tmp/demo", &commands).unwrap();
    assert_eq!(runner.calls.len(), 4);
    assert_eq!(runner.calls[0], ["-C", "/tmp/demo", "init", "-q"]);
    assert_eq!(runner.calls[1], ["-C", "/tmp/demo", "add", "--", "Cargo.toml"]);
    assert_eq!(runner.calls[3], ["-C", "/tmp/demo", "branch", "-M", "main"]);
}

#[test]
fn a_failing_git_command_stops_the_commit_with_trimmed_stderr() {
    let commands = git_init_commands("demo", "A <a@b.c>", &vec![]);
    let mut runner = GitRecorder { calls: vec![], fail_at: Some(1) };
    let e = clihatch::scaffold::run_git_commands(&mut runner, "/tmp/demo", &commands).unwrap_err();
    assert_eq!(e, ClihatchError::Git { message: "fatal: nope".into() });
    assert_eq!(runner.calls.len(), 2, "nothing runs after the failure");
}
