//! The command table of the clispec contract that `clihatch schema` prints:
//! the global arguments and, for each command, its arguments and output
//! fields. The caller renders it as JSON.

use vstd::prelude::*;

verus! {

/// The default of an argument.
#[derive(Debug, Clone, Copy, PartialEq, Eq)]
pub enum ArgDefault {
    Text(&'static str),
    Flag(bool),
}

/// One argument of a command: its name, value type, whether it is required,
/// the values it may take (any, when empty), its default and what it means.
#[derive(Debug, Clone, PartialEq, Eq)]
pub struct ArgSpec {
    pub name: &'static str,
    pub kind: &'static str,
    pub required: bool,
    pub choices: Vec<&'static str>,
    pub default: Option<ArgDefault>,
    pub description: &'static str,
}

/// One field of a command's output.
#[derive(Debug, Clone, Copy, PartialEq, Eq)]
pub struct FieldSpec {
    pub name: &'static str,
    pub kind: &'static str,
    pub description: Option<&'static str>,
}

/// One command of the contract.
#[derive(Debug, Clone, PartialEq, Eq)]
pub struct CommandSpec {
    pub name: &'static str,
    pub description: &'static str,
    pub mutating: bool,
    pub stability: &'static str,
    pub args: Vec<ArgSpec>,
    pub output_fields: Vec<FieldSpec>,
}

/// The arguments `args` of `secrets` declare the default tap as the one the
/// command registers the deploy key on when no tap is given: for a bare repo
/// name under the declared default owner, that owner's `homebrew-tap`.
pub open spec fn tap_default_follows_owner(args: Seq<ArgSpec>) -> bool {
    match (args[1].default, args[2].default) {
        (Some(ArgDefault::Text(owner)), Some(ArgDefault::Text(tap))) => forall|name: Seq<char>|
            !name.contains('/') ==> tap@ == crate::repo_owner(crate::cli::full_repo(name, owner@))
                + "/homebrew-tap"@,
        _ => false,
    }
}

/// The names of the commands, in the contract's order.
pub open spec fn command_names() -> Seq<Seq<char>> {
    seq!["new"@, "secrets"@, "schema"@, "completions"@]
}

/// The names of a command's arguments.
pub open spec fn arg_names(args: Seq<ArgSpec>) -> Seq<Seq<char>> {
    args.map_values(|a: ArgSpec| a.name@)
}

/// The arguments every command takes: the output format, `auto` by
/// default.
pub fn global_args() -> (g: Vec<ArgSpec>)
    ensures
        arg_names(g@) == seq!["--output"@],
        g@[0].default == Some(ArgDefault::Text("auto")),
        g@[0].choices@.map_values(|c: &'static str| c@) == seq!["auto"@, "json"@, "text"@],
{
    let g = vec![
        ArgSpec {
                    name: "--output",
                    kind: "string",
                    required: false,
                    choices: vec!["auto", "json", "text"],
                    default: Some(ArgDefault::Text("auto")),
                    description: "Output format. auto = text on a TTY, JSON when piped.",
                }
    ];
    assert(arg_names(g@) =~= seq!["--output"@]);
    assert(g@[0].choices@.map_values(|c: &'static str| c@) =~= seq!["auto"@, "json"@, "text"@]);
    g
}

/// The commands of the contract, in order: `new`, `secrets`, `schema` and
/// `completions`. `new` is the one mutating command, and every command is
/// stable.
pub fn command_table() -> (t: Vec<CommandSpec>)
    ensures
        t@.map_values(|c: CommandSpec| c.name@) == command_names(),
        forall|i: int| 0 <= i < t@.len() ==> (#[trigger] t@[i].mutating <==> t@[i].name@ == "new"@),
        forall|i: int| 0 <= i < t@.len() ==> #[trigger] t@[i].stability@ == "stable"@,
        arg_names(t@[0].args@) == seq![
            "name"@,
            "--description"@,
            "--owner"@,
            "--author"@,
            "--into"@,
            "--no-git"@,
            "--github"@,
            "--no-pypi"@,
        ],
        arg_names(t@[1].args@) == seq![
            "repo"@,
            "--owner"@,
            "--tap"@,
            "--pypi-token-stdin"@,
            "--dry-run"@,
            "--verify"@,
        ],
        t@[2].args@.len() == 0,
        arg_names(t@[3].args@) == seq!["shell"@],
        t@[0].args@[2].default == t@[1].args@[1].default,
        tap_default_follows_owner(t@[1].args@),
{
    proof {
        reveal_strlit("new");
        reveal_strlit("secrets");
        reveal_strlit("schema");
        reveal_strlit("completions");
    }
    let t = vec![
        CommandSpec {
            name: "new",
            description: "Scaffold a new clispec-compliant Rust CLI into ./<name>. Refuses if the directory exists.",
            mutating: true,
            stability: "stable",
            args: vec![
                ArgSpec {
                    name: "name",
                    kind: "string",
                    required: true,
                    choices: vec![],
                    default: None,
                    description: "Crate/binary name ([a-z][a-z0-9_-]*).",
                },
                ArgSpec {
                    name: "--description",
                    kind: "string",
                    required: false,
                    choices: vec![],
                    default: None,
                    description: "One-line package description.",
                },
                ArgSpec {
                    name: "--owner",
                    kind: "string",
                    required: false,
                    choices: vec![],
                    default: Some(ArgDefault::Text("rvben")),
                    description: "GitHub owner for repo URLs.",
                },
                ArgSpec {
                    name: "--author",
                    kind: "string",
                    required: false,
                    choices: vec![],
                    default: None,
                    description: "Cargo/LICENSE author (default: git config).",
                },
                ArgSpec {
                    name: "--into",
                    kind: "path",
                    required: false,
                    choices: vec![],
                    default: Some(ArgDefault::Text(".")),
                    description: "Directory to create the crate inside.",
                },
                ArgSpec {
                    name: "--no-git",
                    kind: "boolean",
                    required: false,
                    choices: vec![],
                    default: Some(ArgDefault::Flag(false)),
                    description: "Skip git init + initial commit.",
                },
                ArgSpec {
                    name: "--github",
                    kind: "boolean",
                    required: false,
                    choices: vec![],
                    default: Some(ArgDefault::Flag(false)),
                    description: "Also create the GitHub repo (owner/name) and push the initial commit. Requires git.",
                },
                ArgSpec {
                    name: "--no-pypi",
                    kind: "boolean",
                    required: false,
                    choices: vec![],
                    default: Some(ArgDefault::Flag(false)),
                    description: "Omit the PyPI/maturin pipeline; the crate publishes to crates.io + Homebrew only.",
                },
            ],
            output_fields: vec![
                FieldSpec { name: "created", kind: "string", description: Some("Path of the new crate directory.") },
                FieldSpec { name: "files", kind: "string[]", description: Some("Files written, relative to the crate.") },
                FieldSpec { name: "committed", kind: "boolean", description: None },
                FieldSpec { name: "repo", kind: "string", description: Some("The owner/name of the GitHub repo created with --github (null otherwise).") },
                FieldSpec { name: "next", kind: "string[]", description: Some("Suggested next commands, through to a published release.") },
            ],
        },
        CommandSpec {
            name: "secrets",
            description: "Bootstrap a repo's release secrets: generate + register the Homebrew tap deploy key (rotating any prior key with the same title), and set CARGO_REGISTRY_TOKEN / PYPI_API_TOKEN from local sources. Preflights `gh` auth and repo access; missing token sources are skipped, not invented.",
            mutating: false,
            stability: "stable",
            args: vec![
                ArgSpec {
                    name: "repo",
                    kind: "string",
                    required: true,
                    choices: vec![],
                    default: None,
                    description: "Target repo as owner/name, or a bare name (combined with --owner).",
                },
                ArgSpec {
                    name: "--owner",
                    kind: "string",
                    required: false,
                    choices: vec![],
                    default: Some(ArgDefault::Text("rvben")),
                    description: "GitHub owner, used when repo is a bare name.",
                },
                ArgSpec {
                    name: "--tap",
                    kind: "string",
                    required: false,
                    choices: vec![],
                    default: Some(ArgDefault::Text("rvben/homebrew-tap")),
                    description: "Homebrew tap repo to register the deploy key on.",
                },
                ArgSpec {
                    name: "--pypi-token-stdin",
                    kind: "boolean",
                    required: false,
                    choices: vec![],
                    default: Some(ArgDefault::Flag(false)),
                    description: "Read the PyPI token from stdin (otherwise $PYPI_API_TOKEN/$UV_PUBLISH_TOKEN, then the [pypi] token in ~/.pypirc).",
                },
                ArgSpec {
                    name: "--dry-run",
                    kind: "boolean",
                    required: false,
                    choices: vec![],
                    default: Some(ArgDefault::Flag(false)),
                    description: "Report what would be set without executing anything.",
                },
                ArgSpec {
                    name: "--verify",
                    kind: "boolean",
                    required: false,
                    choices: vec![],
                    default: Some(ArgDefault::Flag(false)),
                    description: "Read-only: report which release secrets are already set on the repo (no changes). Outputs present/missing instead of set/skipped.",
                },
            ],
            output_fields: vec![
                FieldSpec { name: "repo", kind: "string", description: Some("Resolved owner/name the secrets target.") },
                FieldSpec { name: "dry_run", kind: "boolean", description: None },
                FieldSpec { name: "set", kind: "string[]", description: Some("Secret names set (or, in a dry run, that would be set).") },
                FieldSpec { name: "skipped", kind: "object[]", description: Some("Secrets not set, each with `secret` and `reason`.") },
                FieldSpec { name: "notes", kind: "string[]", description: Some("Side notes worth surfacing, e.g. a rotated deploy key.") },
                FieldSpec { name: "present", kind: "string[]", description: Some("With --verify: release secrets already set on the repo.") },
                FieldSpec { name: "missing", kind: "string[]", description: Some("With --verify: release secrets not yet set.") },
            ],
        },
        CommandSpec {
            name: "schema",
            description: "Print this clispec contract as JSON.",
            mutating: false,
            stability: "stable",
            args: vec![
                
            ],
            output_fields: vec![
                
            ],
        },
        CommandSpec {
            name: "completions",
            description: "Generate a shell completion script.",
            mutating: false,
            stability: "stable",
            args: vec![
                ArgSpec {
                    name: "shell",
                    kind: "string",
                    required: true,
                    choices: vec!["bash", "zsh", "fish", "powershell", "elvish"],
                    default: None,
                    description: "Target shell.",
                },
            ],
            output_fields: vec![
                
            ],
        },
    ];
    assert(t@.map_values(|c: CommandSpec| c.name@) =~= command_names());
    assert("new"@.len() == 3 && "secrets"@.len() == 7 && "schema"@.len() == 6);
    assert("completions"@.len() == 11);
    assert forall|i: int| 0 <= i < t@.len() implies (#[trigger] t@[i].mutating <==> t@[i].name@
        == "new"@) by {
        assert(i == 0 || i == 1 || i == 2 || i == 3);
    }
    assert(arg_names(t@[0].args@) =~= seq![
        "name"@,
        "--description"@,
        "--owner"@,
        "--author"@,
        "--into"@,
        "--no-git"@,
        "--github"@,
        "--no-pypi"@,
    ]);
    assert(arg_names(t@[1].args@) =~= seq![
        "repo"@,
        "--owner"@,
        "--tap"@,
        "--pypi-token-stdin"@,
        "--dry-run"@,
        "--verify"@,
    ]);
    assert(arg_names(t@[3].args@) =~= seq!["shell"@]);
    proof {
        reveal_strlit("rvben");
        reveal_strlit("rvben/homebrew-tap");
        reveal_strlit("/homebrew-tap");
        let owner = "rvben"@;
        assert(!owner.contains('/')) by {
            assert forall|i: int| 0 <= i < owner.len() implies owner[i] != '/' by {}
        }
        assert forall|name: Seq<char>| !name.contains('/') implies "rvben/homebrew-tap"@
            == crate::repo_owner(crate::cli::full_repo(name, owner)) + "/homebrew-tap"@ by {
            crate::bare_repo_belongs_to_its_owner(name, owner);
            assert("rvben/homebrew-tap"@ =~= owner + "/homebrew-tap"@);
        }
    }
    t
}

} // verus!
