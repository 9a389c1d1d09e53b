use clihatch::Vars;
use clihatch::scaffold::{TemplateFile, render_templates, resolve_sections};

fn text(s: &str, pypi: bool) -> String {
    resolve_sections(s, pypi).into_iter().collect()
}

#[test]
fn pypi_sections_follow_the_flag() {
    let s = "a{{#pypi}}P{{/pypi}}b{{^pypi}}N{{/pypi}}c";
    assert_eq!(text(s, true), "aPbc");
    assert_eq!(text(s, false), "abNc");
}

#[test]
fn unclosed_section_tags_stay() {
    assert_eq!(text("x{{#pypi}}y", false), "x{{#pypi}}y");
    assert_eq!(text("{{/pypi}} alone", true), "{{/pypi}} alone");
}

#[test]
fn sections_then_placeholders() {
    let mut vars = Vars::new("neat-tool", "desc", "rvben", "A <a@b.c>", "2026");
    vars.pypi = false;
    let templates = vec![TemplateFile {
        path: ".github/workflows/release.yml.tmpl".into(),
        contents: Some(
            "jobs:\n{{#pypi}}  publish-pypi: {{name}}\n{{/pypi}}  publish-crates: {{name}}\n".into(),
        ),
    }];
    let (files, err) = render_templates(&vars, &templates);
    assert!(err.is_none());
    assert_eq!(files[0].path, ".github/workflows/release.yml");
    assert_eq!(files[0].contents, "jobs:\n  publish-crates: neat-tool\n");
}
