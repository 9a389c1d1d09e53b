//! Create the GitHub repo for a freshly scaffolded crate and push the initial
//! commit, so `clihatch secrets` and a release can run immediately.
//!
//! Shells out to `gh repo create` through a [`CommandRunner`].

use vstd::prelude::*;

use crate::error::ClihatchError;
use crate::process::{
    CommandRunner, args_view, as_strs, check_output, one_run, run_error, spawn_result, succeeded,
};
use crate::text::concat;

verus! {

/// The `owner/name` slug of a repo.
pub open spec fn repo_slug(owner: Seq<char>, name: Seq<char>) -> Seq<char> {
    owner + "/"@ + name
}

/// The `gh` arguments that create the public repo `slug` from the sources in
/// `dir`, set its `origin` remote and push.
pub open spec fn create_repo_args(slug: Seq<char>, description: Seq<char>, dir: Seq<char>) -> Seq<
    Seq<char>,
> {
    seq![
        "repo"@,
        "create"@,
        slug,
        "--public"@,
        "--description"@,
        description,
        "--source"@,
        dir,
        "--remote"@,
        "origin"@,
        "--push"@,
    ]
}

/// The `owner/name` slug, computed.
pub fn slug(owner: &str, name: &str) -> (s: String)
    ensures
        s@ == repo_slug(owner@, name@),
{
    let head = concat(owner, "/");
    concat(head.as_str(), name)
}

/// [`create_repo_args`], computed.
pub fn create_repo_argv(slug: &str, description: &str, dir: &str) -> (v: Vec<String>)
    ensures
        v@.map_values(|a: String| a@) == create_repo_args(slug@, description@, dir@),
{
    let v = vec![
        "repo".to_owned(),
        "create".to_owned(),
        slug.to_owned(),
        "--public".to_owned(),
        "--description".to_owned(),
        description.to_owned(),
        "--source".to_owned(),
        dir.to_owned(),
        "--remote".to_owned(),
        "origin".to_owned(),
        "--push".to_owned(),
    ];
    assert(v@.map_values(|a: String| a@) =~= create_repo_args(slug@, description@, dir@));
    v
}

/// Create a public GitHub repo `owner/name` from the scaffold in `dir`, set the
/// `origin` remote, and push: `gh` with [`create_repo_args`]. Returns the
/// `owner/name` slug when `gh` succeeds; otherwise a `gh` backend error
/// carrying `gh`'s stderr, or the I/O error that kept it from running.
pub fn create_repo<R: CommandRunner>(
    runner: &mut R,
    owner: &str,
    name: &str,
    description: &str,
    dir: &str,
) -> (r: Result<String, ClihatchError>)
    ensures
        r matches Ok(s) ==> s@ == repo_slug(owner@, name@),
        r matches Err(e) ==> e is Backend && e->tool@ == "gh"@,
        R::records_runs() ==> one_run(
            old(runner).runs(),
            final(runner).runs(),
            "gh"@,
            create_repo_args(repo_slug(owner@, name@), description@, dir@),
            None,
        ) && (r is Ok <==> succeeded(final(runner).runs().last().result)) && (r matches Err(e)
            ==> run_error("gh"@, final(runner).runs().last().result, e)),
{
    let slug = slug(owner, name);
    let argv = create_repo_argv(slug.as_str(), description, dir);
    let args = as_strs(&argv);
    let slice = args.as_slice();
    assert(args_view(slice@) =~= create_repo_args(repo_slug(owner@, name@), description@, dir@));
    let out = spawn_result("gh", runner.run("gh", slice, None));
    match out {
        Ok(out) => match check_output("gh", out) {
            Ok(_) => Ok(slug),
            Err(e) => Err(e),
        },
        Err(e) => Err(e),
    }
}

} // verus!
