use clihatch::{Vars, run, Request};

fn vars() -> Vars {
    Vars::new("neat-tool", "A tool.", "acme", "Ann <a@b.c>", "2026")
}

#[test]
fn plain_text_renders_unchanged() {
    let text = "MIT License\n\nPermission is hereby granted, free of charge.\n";
    assert_eq!(vars().apply(text), text);
}

#[test]
fn known_placeholders_leave_no_brace() {
    let out = vars().apply(
        "[package]\nname = \"{{name}}\"\ndescription = \"{{description}}\"\nauthors = [\"{{author}}\"]\n# (c) {{year}} {{owner}} {{name_pascal}} {{name_snake}}\n",
    );
    assert!(!out.contains('{') && !out.contains('}'));
    assert_eq!(
        out,
        "[package]\nname = \"neat-tool\"\ndescription = \"A tool.\"\nauthors = [\"Ann <a@b.c>\"]\n# (c) 2026 acme NeatTool neat_tool\n"
    );
}

#[test]
fn substitution_is_per_placeholder_in_any_position() {
    let out = vars().apply("{{owner}}{{name}}{{owner}}/{{year}}{{name_snake}}");
    assert_eq!(out, "acmeneat-toolacme/2026neat_tool");
}

#[test]
fn accepted_names_give_identifier_snake_forms() {
    for name in ["a", "my-cool-tool2", "x_y-z", "q9"] {
        let req = Request {
            name: name.into(),
            description: "d".into(),
            owner: "o".into(),
            author: "a".into(),
            year: "2026".into(),
            into: ".".into(),
            git: false,
            github: false,
            pypi: true,
        };
        let plan = run(&req).unwrap();
        let snake = &plan.vars.name_snake;
        assert_eq!(snake.len(), name.len());
        assert!(snake.starts_with(|c: char| c.is_ascii_lowercase()));
        assert!(snake
            .chars()
            .all(|c| c.is_ascii_lowercase() || c.is_ascii_digit() || c == '_'));
    }
}
