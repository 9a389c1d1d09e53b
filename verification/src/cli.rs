//! The decisions of the command line: output format, repo and crate names,
//! token sources, author and year defaults.

use vstd::prelude::*;

use crate::OutputFormat;
use crate::secrets::{
    cargo_token, cargo_token_from_credentials, pypi_token, pypi_token_from_pypirc,
};
use crate::text::{
    chars_of, concat, decimal, last_index_of, lemma_index_of, lemma_last_index_of,
    find_char, rfind_char, string_of_range, trim, trim_string, u64_to_decimal,
};

verus! {

/// The `--output` choice: `auto` is text on a terminal, JSON when piped.
#[derive(Debug, Clone, Copy, PartialEq, Eq)]
pub enum OutputChoice {
    Auto,
    Json,
    Text,
}

/// The format an output choice resolves to.
pub open spec fn resolved_format(choice: OutputChoice, stdout_is_terminal: bool) -> OutputFormat {
    match choice {
        OutputChoice::Json => OutputFormat::Json,
        OutputChoice::Text => OutputFormat::Text,
        OutputChoice::Auto => if stdout_is_terminal {
            OutputFormat::Text
        } else {
            OutputFormat::Json
        },
    }
}

/// Resolve an `--output` choice, given whether stdout is a terminal.
pub fn resolve_output(choice: OutputChoice, stdout_is_terminal: bool) -> (f: OutputFormat)
    ensures
        f == resolved_format(choice, stdout_is_terminal),
{
    match choice {
        OutputChoice::Json => OutputFormat::Json,
        OutputChoice::Text => OutputFormat::Text,
        OutputChoice::Auto => if stdout_is_terminal {
            OutputFormat::Text
        } else {
            OutputFormat::Json
        },
    }
}

/// The repo a `secrets` run targets: `repo` itself when it names an owner
/// (`owner/name`), else `owner/repo`.
pub open spec fn full_repo(repo: Seq<char>, owner: Seq<char>) -> Seq<char> {
    if repo.contains('/') {
        repo
    } else {
        owner + "/"@ + repo
    }
}

/// The crate name of a repo: what follows its last `/` (all of it when
/// there is none).
pub open spec fn repo_crate_name(repo: Seq<char>) -> Seq<char> {
    match last_index_of(repo, '/') {
        Some(i) => repo.skip(i + 1),
        None => repo,
    }
}

/// A token read from the environment or stdin: trimmed, and absent when
/// nothing is left.
pub open spec fn token_of(raw: Seq<char>) -> Option<Seq<char>> {
    if trim(raw).len() > 0 {
        Some(trim(raw))
    } else {
        None
    }
}

/// The first of `raws` that holds a token, as a token.
pub open spec fn first_token(raws: Seq<Seq<char>>) -> Option<Seq<char>>
    decreases raws.len(),
{
    if raws.len() == 0 {
        None
    } else if token_of(raws[0]) is Some {
        token_of(raws[0])
    } else {
        first_token(raws.drop_first())
    }
}

/// Resolve the target repo of a `secrets` run.
pub fn resolve_repo(repo: &str, owner: &str) -> (r: String)
    ensures
        r@ == full_repo(repo@, owner@),
{
    let v = chars_of(repo);
    proof {
        lemma_index_of(v@, '/');
    }
    match find_char(&v, '/') {
        Some(i) => {
            assert(v@.contains('/')) by {
                assert(v@[i as int] == '/');
            }
            repo.to_owned()
        },
        None => {
            let head = concat(owner, "/");
            concat(head.as_str(), repo)
        },
    }
}

/// The crate name of a repo.
pub fn crate_name_of(repo: &str) -> (r: String)
    ensures
        r@ == repo_crate_name(repo@),
{
    let v = chars_of(repo);
    proof {
        lemma_last_index_of(v@, '/');
    }
    match rfind_char(&v, '/') {
        Some(i) => {
            assert(i < v@.len());
            assert(v@.subrange(i + 1, v@.len() as int) == v@.skip(i + 1));
            string_of_range(&v, i + 1, v.len())
        },
        None => repo.to_owned(),
    }
}

/// A token from a raw value: see [`token_of`].
pub fn token_from(raw: &str) -> (r: Option<String>)
    ensures
        r is Some <==> token_of(raw@) is Some,
        r matches Some(t) ==> t@ == token_of(raw@)->0,
{
    let t = trim_string(raw);
    if t.as_str().is_empty() {
        None
    } else {
        Some(t)
    }
}

/// The crates.io token: `$CARGO_REGISTRY_TOKEN` when it holds one, else the
/// token of the Cargo credentials file, when there is one.
pub fn resolve_cargo_token(env_token: Option<&str>, credentials: Option<&str>) -> (r: Option<String>)
    ensures
        ({
            let from_env = match env_token {
                Some(raw) => token_of(raw@),
                None => None,
            };
            let expected = if from_env is Some {
                from_env
            } else {
                match credentials {
                    Some(toml) => cargo_token(toml@),
                    None => None,
                }
            };
            &&& r is Some <==> expected is Some
            &&& r matches Some(t) ==> t@ == expected->0
        }),
{
    match env_token {
        Some(raw) => match token_from(raw) {
            Some(t) => {
                return Some(t);
            },
            None => {},
        },
        None => {},
    }
    match credentials {
        Some(toml) => cargo_token_from_credentials(toml),
        None => None,
    }
}

/// The PyPI token. Read from stdin when requested (absent is fine: the secret
/// is skipped, not invented); otherwise the first of the environment values
/// (`$PYPI_API_TOKEN`, then `$UV_PUBLISH_TOKEN`) that holds one; otherwise
/// the `[pypi]` token of `~/.pypirc`.
pub fn resolve_pypi_token(stdin: Option<&str>, env_values: &Vec<String>, pypirc: Option<&str>) -> (r:
    Option<String>)
    ensures
        ({
            let raws = env_values@.map_values(|s: String| s@);
            let expected = match stdin {
                Some(raw) => token_of(raw@),
                None => if first_token(raws) is Some {
                    first_token(raws)
                } else {
                    match pypirc {
                        Some(rc) => pypi_token(rc@),
                        None => None,
                    }
                },
            };
            &&& r is Some <==> expected is Some
            &&& r matches Some(t) ==> t@ == expected->0
        }),
{
    match stdin {
        Some(raw) => {
            return token_from(raw);
        },
        None => {},
    }
    let ghost raws = env_values@.map_values(|s: String| s@);
    let n = env_values.len();
    assert(raws.skip(0) == raws);
    for i in 0..n
        invariant
            stdin is None,
            n == env_values@.len(),
            raws == env_values@.map_values(|s: String| s@),
            first_token(raws) == first_token(raws.skip(i as int)),
    {
        let ghost rest = raws.skip(i as int);
        assert(rest[0] == env_values@[i as int]@);
        assert(rest.drop_first() == raws.skip(i + 1));
        match token_from(env_values[i].as_str()) {
            Some(t) => {
                return Some(t);
            },
            None => {},
        }
    }
    assert(raws.skip(n as int).len() == 0);
    match pypirc {
        Some(rc) => pypi_token_from_pypirc(rc),
        None => None,
    }
}

/// The author string from git's `user.name` and `user.email`:
/// `Name <email>`, the name alone, or a placeholder.
pub open spec fn git_author(name: Option<Seq<char>>, email: Option<Seq<char>>) -> Seq<char> {
    match (name, email) {
        (Some(n), Some(e)) => n + " <"@ + e + ">"@,
        (Some(n), None) => n,
        _ => "Your Name <you@example.com>"@,
    }
}

/// [`git_author`], computed.
pub fn author_from_git(name: Option<String>, email: Option<String>) -> (a: String)
    ensures
        a@ == git_author(
            match name {
                Some(n) => Some(n@),
                None => None,
            },
            match email {
                Some(e) => Some(e@),
                None => None,
            },
        ),
{
    match (name, email) {
        (Some(n), Some(e)) => {
            let head = concat(n.as_str(), " <");
            let head = concat(head.as_str(), e.as_str());
            concat(head.as_str(), ">")
        },
        (Some(n), None) => n,
        _ => "Your Name <you@example.com>".to_owned(),
    }
}

/// The length of the average Gregorian year, in seconds.
pub const SECONDS_PER_YEAR: u64 = 31_556_952;

/// The (UTC) year `secs` seconds after the Unix epoch, good enough for a
/// copyright line: the average Gregorian year length accounts for leap years.
pub open spec fn year_of(secs: nat) -> nat {
    1970 + secs / (SECONDS_PER_YEAR as nat)
}

/// [`year_of`], as a decimal string.
pub fn year_from_unix_secs(secs: u64) -> (y: String)
    ensures
        y@ == decimal(year_of(secs as nat)),
{
    u64_to_decimal(1970 + secs / SECONDS_PER_YEAR)
}

/// The description of a crate when none is given.
pub fn default_description(name: &str) -> (d: String)
    ensures
        d@ == "A clispec-compliant CLI ("@ + name@ + ")."@,
{
    let head = concat("A clispec-compliant CLI (", name);
    concat(head.as_str(), ").")
}

} // verus!
