//! clihatch: scaffold a complete, clispec-compliant, agent-facing Rust CLI -
//! source skeleton, schema + conformance test, and the GitHub-hosted
//! dual-publish release pipeline.
//!
//! This crate holds the decisions of every command, each with its contract;
//! the file system, subprocesses and the terminal stay with the caller, who
//! hands their results back as plain values.

use vstd::prelude::*;

pub mod cli;
pub mod error;
pub mod github;
pub mod output;
pub mod process;
pub mod scaffold;
pub mod schema;
pub mod secrets;
pub mod text;

pub use error::ClihatchError;
pub use github::create_repo;
pub use process::{CmdOutput, CommandRunner};
pub use output::next_steps;
pub use scaffold::{Outcome, Vars};
pub use secrets::{
    RealSecretOps, SecretOps, SecretReport, Skip, Sources, VerifyReport, bootstrap,
    cargo_token_from_credentials, pypi_token_from_pypirc,
};

use crate::text::{chars_of, concat, debug_quoted, debug_repr, find_char, index_of, string_of_range};

verus! {

/// Rendered output format.
#[derive(Debug, Clone, Copy, PartialEq, Eq)]
pub enum OutputFormat {
    Text,
    Json,
}

/// A request to scaffold a new CLI crate.
#[derive(Debug, Clone)]
pub struct Request {
    pub name: String,
    pub description: String,
    pub owner: String,
    pub author: String,
    pub year: String,
    /// Directory the new `<name>/` crate is created inside.
    pub into: String,
    pub git: bool,
    /// Create the GitHub repo (`owner/name`) and push the initial commit.
    pub github: bool,
    /// Include the PyPI/maturin dual-publish machinery.
    pub pypi: bool,
}

/// What a scaffold run does once its request is accepted.
#[derive(Debug, Clone)]
pub struct RunPlan {
    /// The substitution values of the templates.
    pub vars: Vars,
    /// Directory the new crate is created inside.
    pub into: String,
    /// Make the first commit.
    pub git: bool,
    /// Create the GitHub repo and push.
    pub github: bool,
}

/// A character allowed in a crate name.
pub open spec fn is_name_char(c: char) -> bool {
    ('a' <= c <= 'z') || ('0' <= c <= '9') || c == '-' || c == '_'
}

/// Crate-name rules: `[a-z][a-z0-9_-]*`, at most 64 bytes, matching what
/// crates.io accepts.
pub open spec fn valid_crate_name(name: Seq<char>) -> bool {
    &&& 0 < name.len() <= 64
    &&& 'a' <= name[0] <= 'z'
    &&& forall|i: int| 0 <= i < name.len() ==> is_name_char(#[trigger] name[i])
}

/// The message of a rejected crate name.
pub open spec fn invalid_name_message(name: Seq<char>) -> Seq<char> {
    "invalid crate name "@ + debug_repr(name)
        + ": use lowercase letters, digits, '-' or '_', starting with a letter"@
}

/// The message of `--github` without git.
pub open spec fn github_needs_git_message() -> Seq<char> {
    "--github needs the initial commit; remove --no-git"@
}

/// The owner part of a repo: what comes before its first `/` (all of it when
/// there is none).
pub open spec fn repo_owner(repo: Seq<char>) -> Seq<char> {
    match index_of(repo, '/') {
        Some(i) => repo.take(i),
        None => repo,
    }
}

/// Check a crate name against [`valid_crate_name`].
pub fn validate_name(name: &str) -> (r: Result<(), ClihatchError>)
    ensures
        r is Ok <==> valid_crate_name(name@),
        r is Err ==> r->Err_0 is Usage && r->Err_0->Usage_message@ == invalid_name_message(
            name@,
        ),
{
    let v = chars_of(name);
    let n = v.len();
    let mut ok = 0 < n && n <= 64 && 'a' <= v[0] && v[0] <= 'z';
    let mut i: usize = 0;
    while ok && i < n
        invariant
            n == v@.len(),
            i <= n,
            ok ==> 0 < n <= 64 && 'a' <= v@[0] <= 'z',
            ok ==> forall|j: int| 0 <= j < i ==> is_name_char(#[trigger] v@[j]),
            !ok ==> !valid_crate_name(v@),
        decreases n - i,
    {
        let c = v[i];
        if !(('a' <= c && c <= 'z') || ('0' <= c && c <= '9') || c == '-' || c == '_') {
            ok = false;
        }
        i = i + 1;
    }
    if ok {
        Ok(())
    } else {
        let quoted = debug_quoted(name);
        let head = concat("invalid crate name ", quoted.as_str());
        let message = concat(
            head.as_str(),
            ": use lowercase letters, digits, '-' or '_', starting with a letter",
        );
        Err(ClihatchError::Usage { message })
    }
}

/// The conventional Homebrew tap for a repo's owner: `<owner>/homebrew-tap`.
/// Keeps `clihatch secrets`' default consistent with the tap the generated
/// release workflow clones.
pub fn default_tap(repo: &str) -> (tap: String)
    ensures
        tap@ == repo_owner(repo@) + "/homebrew-tap"@,
{
    let v = chars_of(repo);
    let owner = match find_char(&v, '/') {
        Some(i) => {
            proof {
                crate::text::lemma_index_of(v@, '/');
            }
            assert(v@.subrange(0, i as int) == v@.take(i as int));
            string_of_range(&v, 0, i)
        },
        None => repo.to_owned(),
    };
    concat(owner.as_str(), "/homebrew-tap")
}

/// Accept or refuse a scaffold request: the crate name must be valid, and
/// `--github` needs the initial commit. An accepted request is planned: its
/// substitution values, target directory and steps. Nothing is touched.
pub fn run(req: &Request) -> (r: Result<RunPlan, ClihatchError>)
    ensures
        !valid_crate_name(req.name@) ==> r is Err && r->Err_0 is Usage
            && r->Err_0->Usage_message@ == invalid_name_message(req.name@),
        valid_crate_name(req.name@) && req.github && !req.git ==> r is Err && r->Err_0 is Usage
            && r->Err_0->Usage_message@ == github_needs_git_message(),
        r is Ok <==> valid_crate_name(req.name@) && (req.git || !req.github),
        r matches Ok(plan) ==> {
            &&& plan.vars.name@ == req.name@
            &&& plan.vars.name_snake@ == scaffold::snake_case(req.name@)
            &&& plan.vars.name_pascal@ == scaffold::pascal_case(req.name@)
            &&& forall|i: int|
                0 <= i < plan.vars.name_pascal@.len() ==> !scaffold::is_separator(
                    #[trigger] plan.vars.name_pascal@[i],
                )
            &&& plan.vars.description@ == req.description@
            &&& plan.vars.owner@ == req.owner@
            &&& plan.vars.author@ == req.author@
            &&& plan.vars.year@ == req.year@
            &&& plan.vars.pypi == req.pypi
            &&& plan.into@ == req.into@
            &&& plan.git == req.git
            &&& plan.github == req.github
        },
{
    match validate_name(req.name.as_str()) {
        Ok(()) => {},
        Err(e) => {
            return Err(e);
        },
    }
    if req.github && !req.git {
        return Err(
            ClihatchError::Usage {
                message: "--github needs the initial commit; remove --no-git".to_owned(),
            },
        );
    }
    proof {
        assert(scaffold::is_ascii(req.name@)) by {
            assert forall|i: int| 0 <= i < req.name@.len() implies (#[trigger] req.name@[i] as int)
                < 128 by {
                assert(is_name_char(req.name@[i]));
            }
        }
        scaffold::ascii_pascal_has_no_separator(req.name@, true);
    }
    let mut vars = Vars::new(
        req.name.as_str(),
        req.description.as_str(),
        req.owner.as_str(),
        req.author.as_str(),
        req.year.as_str(),
    );
    vars.pypi = req.pypi;
    Ok(RunPlan { vars, into: req.into.clone(), git: req.git, github: req.github })
}

/// The last step of a run, after the crate was written to `dir`: with
/// `--github`, create the repo `owner/name` and record it in the outcome;
/// otherwise the outcome stands as it is.
pub fn finish_run<R: CommandRunner>(
    plan: &RunPlan,
    outcome: Outcome,
    dir: &str,
    runner: &mut R,
) -> (r: Result<Outcome, ClihatchError>)
    ensures
        !plan.github ==> r == Ok::<Outcome, ClihatchError>(outcome) && *final(runner) == *old(
            runner,
        ),
        plan.github && r is Ok ==> r->Ok_0 == (Outcome {
            repo: Some(r->Ok_0.repo->0),
            ..outcome
        }) && r->Ok_0.repo->0@ == github::repo_slug(plan.vars.owner@, plan.vars.name@),
        r matches Err(e) ==> plan.github && e is Backend && e->tool@ == "gh"@,
        plan.github && R::records_runs() ==> process::one_run(
            old(runner).runs(),
            final(runner).runs(),
            "gh"@,
            github::create_repo_args(
                github::repo_slug(plan.vars.owner@, plan.vars.name@),
                plan.vars.description@,
                dir@,
            ),
            None,
        ) && (r is Ok <==> process::succeeded(final(runner).runs().last().result)) && (
        r matches Err(e) ==> process::run_error("gh"@, final(runner).runs().last().result, e)),
{
    if !plan.github {
        return Ok(outcome);
    }
    let slug = create_repo(
        runner,
        plan.vars.owner.as_str(),
        plan.vars.name.as_str(),
        plan.vars.description.as_str(),
        dir,
    );
    match slug {
        Ok(slug) => {
            let mut outcome = outcome;
            outcome.repo = Some(slug);
            Ok(outcome)
        },
        Err(e) => Err(e),
    }
}

/// A Rust identifier of the crate's own kind: a lowercase letter, then
/// lowercase letters, digits and `_`.
pub open spec fn is_snake_identifier(s: Seq<char>) -> bool {
    &&& s.len() > 0
    &&& 'a' <= s[0] <= 'z'
    &&& forall|i: int|
        0 <= i < s.len() ==> ('a' <= #[trigger] s[i] <= 'z') || ('0' <= s[i] <= '9') || s[i] == '_'
}

/// The snake_case form of an accepted crate name is the identifier the
/// generated sources `use`, and as long as the name.
pub proof fn accepted_name_has_identifier_snake_form(name: Seq<char>)
    requires
        valid_crate_name(name),
    ensures
        is_snake_identifier(scaffold::snake_case(name)),
        scaffold::snake_case(name).len() == name.len(),
{
    let snake = scaffold::snake_case(name);
    assert forall|i: int| 0 <= i < snake.len() implies ('a' <= #[trigger] snake[i] <= 'z') || (
    '0' <= snake[i] <= '9') || snake[i] == '_' by {
        assert(is_name_char(name[i]));
    }
}

/// A bare repo name resolved under an owner belongs to that owner, so the
/// default tap of `secrets` for it is the owner's `homebrew-tap`.
pub proof fn bare_repo_belongs_to_its_owner(name: Seq<char>, owner: Seq<char>)
    requires
        !name.contains('/'),
        !owner.contains('/'),
    ensures
        repo_owner(cli::full_repo(name, owner)) == owner,
{
    let full = owner + "/"@ + name;
    reveal_strlit("/");
    assert(cli::full_repo(name, owner) == full);
    crate::text::lemma_index_of(full, '/');
    assert(full[owner.len() as int] == '/');
    match index_of(full, '/') {
        Some(i) => {
            if i < owner.len() {
                assert(full[i] == owner[i]);
                assert(owner.contains(owner[i]));
            }
            assert(full.take(i) =~= owner);
        },
        None => {},
    }
}

} // verus!
