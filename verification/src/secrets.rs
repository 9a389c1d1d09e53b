//! Bootstrap a repo's three release secrets:
//! - `HOMEBREW_TAP_DEPLOY_KEY` - generate an ed25519 key, register it as a
//!   write deploy key on the tap (rotating any prior key with the same title),
//!   and store the private key;
//! - `CARGO_REGISTRY_TOKEN` - from `~/.cargo/credentials.toml`;
//! - `PYPI_API_TOKEN` - from the environment, stdin, or `~/.pypirc`.
//!
//! Two seams keep this testable offline: [`SecretOps`], the side effects a
//! run performs, and [`crate::process::CommandRunner`], the commands the real
//! backend runs.

use vstd::prelude::*;

use crate::error::ClihatchError;
use crate::process::{
    CmdOutput, CommandRunner, RunRecord, args_view, as_strs, check_output, one_run, run_error,
    settled, spawn_result, stdin_view, succeeded,
};
use crate::text::{
    chars_of, concat, debug_quoted, debug_repr, i64_to_decimal, signed_decimal, string_eq, strings_view,
    trim_string, lemma_lines_step, line_end, lines_of, range_equals, range_starts_with, starts_with,
    string_of_range, trim, trim_quotes, trim_range, trim_start, trim_start_range,
};

verus! {

/// The inside of a `[section]` header line.
pub open spec fn section_header(line: Seq<char>) -> Option<Seq<char>> {
    if line.len() >= 2 && line[0] == '[' && line.last() == ']' {
        Some(line.subrange(1, line.len() - 1))
    } else {
        None
    }
}

/// The value of a `key = value` line: what follows `key`, optional
/// whitespace and `=`, trimmed.
pub open spec fn key_value(line: Seq<char>, key: Seq<char>) -> Option<Seq<char>> {
    if starts_with(line, key) {
        let rest = trim_start(line.skip(key.len() as int));
        if rest.len() > 0 && rest[0] == '=' {
            Some(trim(rest.drop_first()))
        } else {
            None
        }
    } else {
        None
    }
}

/// The `[section]` header in `v[a..b]`: the bounds of its inside.
fn header_range(v: &Vec<char>, a: usize, b: usize) -> (r: Option<(usize, usize)>)
    requires
        a <= b <= v@.len(),
    ensures
        r is Some <==> section_header(v@.subrange(a as int, b as int)) is Some,
        r matches Some(h) ==> a <= h.0 <= h.1 <= b && v@.subrange(h.0 as int, h.1 as int)
            == section_header(v@.subrange(a as int, b as int))->0,
{
    if b - a >= 2 && v[a] == '[' && v[b - 1] == ']' {
        assert(v@.subrange(a as int, b as int).subrange(1, (b - a) - 1) == v@.subrange(
            a + 1,
            b - 1,
        ));
        Some((a + 1, b - 1))
    } else {
        None
    }
}

/// The value of the `key = value` line in `v[a..b]`: its bounds.
fn key_value_range(v: &Vec<char>, a: usize, b: usize, key: &Vec<char>) -> (r: Option<
    (usize, usize),
>)
    requires
        a <= b <= v@.len(),
    ensures
        r is Some <==> key_value(v@.subrange(a as int, b as int), key@) is Some,
        r matches Some(k) ==> a <= k.0 <= k.1 <= b && v@.subrange(k.0 as int, k.1 as int)
            == key_value(v@.subrange(a as int, b as int), key@)->0,
{
    if !range_starts_with(v, a, b, key) {
        return None;
    }
    let p = a + key.len();
    assert(v@.subrange(a as int, b as int).skip(key@.len() as int) == v@.subrange(
        p as int,
        b as int,
    ));
    let q = trim_start_range(v, p, b, false);
    if q < b && v[q] == '=' {
        assert(v@.subrange(q as int, b as int).drop_first() == v@.subrange(q + 1, b as int));
        Some(trim_range(v, q + 1, b, false))
    } else {
        None
    }
}

/// The crates.io token of a Cargo `credentials.toml`, read line by line from
/// `lines` while in `section`: the first non-empty `token` under `[registry]`
/// or `[registries.crates-io]`; else `fallback`, which keeps the first
/// non-empty token found anywhere.
pub open spec fn cargo_scan(
    lines: Seq<Seq<char>>,
    section: Seq<char>,
    fallback: Option<Seq<char>>,
) -> Option<Seq<char>>
    decreases lines.len(),
{
    if lines.len() == 0 {
        fallback
    } else {
        let line = trim(lines[0]);
        let rest = lines.drop_first();
        match section_header(line) {
            Some(inner) => cargo_scan(rest, trim(inner), fallback),
            None => match key_value(line, "token"@) {
                Some(raw) => {
                    let value = trim_quotes(raw);
                    if value.len() == 0 {
                        cargo_scan(rest, section, fallback)
                    } else if section == "registry"@ || section == "registries.crates-io"@ {
                        Some(value)
                    } else {
                        cargo_scan(
                            rest,
                            section,
                            if fallback is Some {
                                fallback
                            } else {
                                Some(value)
                            },
                        )
                    }
                },
                None => cargo_scan(rest, section, fallback),
            },
        }
    }
}

/// The crates.io token of a Cargo `credentials.toml`.
pub open spec fn cargo_token(toml: Seq<char>) -> Option<Seq<char>> {
    cargo_scan(lines_of(toml), Seq::empty(), None)
}

/// The PyPI upload token of a `.pypirc`, read line by line from `lines` while
/// `in_pypi` says whether the current section is `[pypi]`: the first
/// non-empty `password` there.
pub open spec fn pypi_scan(lines: Seq<Seq<char>>, in_pypi: bool) -> Option<Seq<char>>
    decreases lines.len(),
{
    if lines.len() == 0 {
        None
    } else {
        let line = trim(lines[0]);
        let rest = lines.drop_first();
        match section_header(line) {
            Some(inner) => pypi_scan(rest, trim(inner) == "pypi"@),
            None => if !in_pypi {
                pypi_scan(rest, in_pypi)
            } else {
                match key_value(line, "password"@) {
                    Some(value) => if value.len() > 0 {
                        Some(value)
                    } else {
                        pypi_scan(rest, in_pypi)
                    },
                    None => pypi_scan(rest, in_pypi),
                }
            },
        }
    }
}

/// The PyPI upload token of a `.pypirc`.
pub open spec fn pypi_token(pypirc: Seq<char>) -> Option<Seq<char>> {
    pypi_scan(lines_of(pypirc), false)
}

/// The section in effect after `line`, when `current` was in effect before
/// it: the trimmed name of a `[section]` header line, else `current`.
pub open spec fn section_after(line: Seq<char>, current: Seq<char>) -> Seq<char> {
    match section_header(trim(line)) {
        Some(inner) => trim(inner),
        None => current,
    }
}

/// The section line `k` of `lines` falls under, when `current` is in effect
/// before the first line.
pub open spec fn section_of_line(lines: Seq<Seq<char>>, k: int, current: Seq<char>) -> Seq<char>
    decreases lines.len(),
{
    if k <= 0 || lines.len() == 0 {
        current
    } else {
        section_of_line(lines.drop_first(), k - 1, section_after(lines[0], current))
    }
}

/// The non-empty token a `token = "..."` line sets, if it is one.
pub open spec fn token_line(line: Seq<char>) -> Option<Seq<char>> {
    if section_header(trim(line)) is None && key_value(trim(line), "token"@) is Some
        && trim_quotes(key_value(trim(line), "token"@)->0).len() > 0 {
        Some(trim_quotes(key_value(trim(line), "token"@)->0))
    } else {
        None
    }
}

/// The sections that hold the crates.io token.
pub open spec fn is_crates_io_section(section: Seq<char>) -> bool {
    section == "registry"@ || section == "registries.crates-io"@
}

/// Line `k` of `lines` sets a token under a crates.io section.
pub open spec fn crates_io_token_at(lines: Seq<Seq<char>>, k: int, current: Seq<char>) -> bool {
    0 <= k < lines.len() && token_line(lines[k]) is Some && is_crates_io_section(
        section_of_line(lines, k, current),
    )
}

/// The scan finds the first token set under a crates.io section, whatever
/// tokens other sections set before it.
proof fn lemma_scan_finds_crates_io_token(
    lines: Seq<Seq<char>>,
    section: Seq<char>,
    fallback: Option<Seq<char>>,
    k: int,
)
    requires
        crates_io_token_at(lines, k, section),
        forall|j: int| 0 <= j < k ==> !#[trigger] crates_io_token_at(lines, j, section),
    ensures
        cargo_scan(lines, section, fallback) == token_line(lines[k]),
    decreases lines.len(),
{
    let line = trim(lines[0]);
    let rest = lines.drop_first();
    let next = section_after(lines[0], section);
    if k == 0 {
        assert(section_of_line(lines, 0, section) == section);
    } else {
        assert forall|j: int| 0 <= j < k - 1 implies !#[trigger] crates_io_token_at(
            rest,
            j,
            next,
        ) by {
            assert(rest[j] == lines[j + 1]);
            assert(section_of_line(lines, j + 1, section) == section_of_line(rest, j, next));
            assert(!crates_io_token_at(lines, j + 1, section));
        }
        assert(rest[k - 1] == lines[k]);
        assert(section_of_line(lines, k, section) == section_of_line(rest, k - 1, next));
        assert(!crates_io_token_at(lines, 0, section));
        assert(section_of_line(lines, 0, section) == section);
        match section_header(line) {
            Some(inner) => {
                lemma_scan_finds_crates_io_token(rest, trim(inner), fallback, k - 1);
            },
            None => {
                let fb = match key_value(line, "token"@) {
                    Some(raw) => if trim_quotes(raw).len() > 0 && fallback is None {
                        Some(trim_quotes(raw))
                    } else {
                        fallback
                    },
                    None => fallback,
                };
                lemma_scan_finds_crates_io_token(rest, section, fb, k - 1);
            },
        }
    }
}

/// The crates.io token of a credentials file is the first token set under
/// `[registry]` or `[registries.crates-io]`, whatever tokens other
/// registries' sections set before it.
pub proof fn crates_io_token_is_preferred(toml: Seq<char>, k: int)
    requires
        crates_io_token_at(lines_of(toml), k, Seq::empty()),
        forall|j: int|
            0 <= j < k ==> !#[trigger] crates_io_token_at(lines_of(toml), j, Seq::empty()),
    ensures
        cargo_token(toml) == token_line(lines_of(toml)[k]),
{
    lemma_scan_finds_crates_io_token(lines_of(toml), Seq::empty(), None, k);
}

/// Extract the crates.io token from a Cargo `credentials.toml`. Handles both
/// `[registry]` and `[registries.crates-io]`; falls back to the first token
/// found if neither of those is present.
pub fn cargo_token_from_credentials(toml: &str) -> (r: Option<String>)
    ensures
        r is Some <==> cargo_token(toml@) is Some,
        r matches Some(t) ==> t@ == cargo_token(toml@)->0,
{
    let v = chars_of(toml);
    let n = v.len();
    let token_key = chars_of("token");
    let registry = chars_of("registry");
    let crates_io = chars_of("registries.crates-io");
    let mut section: (usize, usize) = (0, 0);
    let mut fallback: Option<(usize, usize)> = None;
    let mut start: usize = 0;
    assert(v@.skip(0) == v@);
    assert(v@.subrange(0, 0) == Seq::<char>::empty());
    while start < n
        invariant
            n == v@.len(),
            v@ == toml@,
            start <= n,
            token_key@ == "token"@,
            registry@ == "registry"@,
            crates_io@ == "registries.crates-io"@,
            section.0 <= section.1 <= n,
            fallback matches Some(f) ==> f.0 <= f.1 <= n,
            cargo_scan(
                lines_of(v@.skip(start as int)),
                v@.subrange(section.0 as int, section.1 as int),
                match fallback {
                    Some(f) => Some(v@.subrange(f.0 as int, f.1 as int)),
                    None => None,
                },
            ) == cargo_token(v@),
        decreases n - start,
    {
        let e = line_end(&v, start);
        proof {
            lemma_lines_step(v@, start as int, e as int);
        }
        let ghost lines = lines_of(v@.skip(start as int));
        assert(lines[0] == v@.subrange(start as int, e as int));
        assert(lines.drop_first() == lines_of(v@.skip(e + 1)) || e == n);
        let (a, b) = trim_range(&v, start, e, false);
        match header_range(&v, a, b) {
            Some((h0, h1)) => {
                section = trim_range(&v, h0, h1, false);
            },
            None => match key_value_range(&v, a, b, &token_key) {
                Some((k0, k1)) => {
                    let (q0, q1) = trim_range(&v, k0, k1, true);
                    if q0 < q1 {
                        if range_equals(&v, section.0, section.1, &registry) || range_equals(
                            &v,
                            section.0,
                            section.1,
                            &crates_io,
                        ) {
                            assert(cargo_scan(
                                lines,
                                v@.subrange(section.0 as int, section.1 as int),
                                match fallback {
                                    Some(f) => Some(v@.subrange(f.0 as int, f.1 as int)),
                                    None => None,
                                },
                            ) == Some(v@.subrange(q0 as int, q1 as int)));
                            return Some(string_of_range(&v, q0, q1));
                        }
                        if fallback.is_none() {
                            fallback = Some((q0, q1));
                        }
                    }
                },
                None => {},
            },
        }
        if e < n {
            start = e + 1;
        } else {
            assert(lines.drop_first() == Seq::<Seq<char>>::empty());
            assert(v@.skip(n as int) == Seq::<char>::empty());
            start = n;
        }
    }
    assert(v@.skip(n as int) == Seq::<char>::empty());
    match fallback {
        Some((f0, f1)) => Some(string_of_range(&v, f0, f1)),
        None => None,
    }
}

/// Extract the PyPI upload token from a `.pypirc`: the `password` under the
/// `[pypi]` section (the conventional `__token__` password). The `[testpypi]`
/// and `[distutils]` sections are ignored.
pub fn pypi_token_from_pypirc(pypirc: &str) -> (r: Option<String>)
    ensures
        r is Some <==> pypi_token(pypirc@) is Some,
        r matches Some(t) ==> t@ == pypi_token(pypirc@)->0,
{
    let v = chars_of(pypirc);
    let n = v.len();
    let password_key = chars_of("password");
    let pypi = chars_of("pypi");
    let mut in_pypi = false;
    let mut start: usize = 0;
    assert(v@.skip(0) == v@);
    while start < n
        invariant
            n == v@.len(),
            v@ == pypirc@,
            start <= n,
            password_key@ == "password"@,
            pypi@ == "pypi"@,
            pypi_scan(lines_of(v@.skip(start as int)), in_pypi) == pypi_token(v@),
        decreases n - start,
    {
        let e = line_end(&v, start);
        proof {
            lemma_lines_step(v@, start as int, e as int);
        }
        let ghost lines = lines_of(v@.skip(start as int));
        assert(lines[0] == v@.subrange(start as int, e as int));
        assert(lines.drop_first() == lines_of(v@.skip(e + 1)) || e == n);
        let (a, b) = trim_range(&v, start, e, false);
        match header_range(&v, a, b) {
            Some((h0, h1)) => {
                let (i0, i1) = trim_range(&v, h0, h1, false);
                in_pypi = range_equals(&v, i0, i1, &pypi);
            },
            None => {
                if in_pypi {
                    match key_value_range(&v, a, b, &password_key) {
                        Some((k0, k1)) => {
                            if k0 < k1 {
                                assert(pypi_scan(lines, in_pypi) == Some(
                                    v@.subrange(k0 as int, k1 as int),
                                ));
                                return Some(string_of_range(&v, k0, k1));
                            }
                        },
                        None => {},
                    }
                }
            },
        }
        if e < n {
            start = e + 1;
        } else {
            assert(lines.drop_first() == Seq::<Seq<char>>::empty());
            assert(v@.skip(n as int) == Seq::<char>::empty());
            start = n;
        }
    }
    assert(v@.skip(n as int) == Seq::<char>::empty());
    None
}

/// One call a secrets run made on its backend, with its arguments and how
/// it ended.
pub enum SecretStep {
    Preflight { repo: Seq<char>, result: Result<(), ClihatchError> },
    SetSecret { repo: Seq<char>, name: Seq<char>, value: Seq<char>, result: Result<(), ClihatchError> },
    GenerateKeypair { comment: Seq<char>, result: Result<(Seq<char>, Seq<char>), ClihatchError> },
    AddDeployKey {
        tap: Seq<char>,
        title: Seq<char>,
        public_key: Seq<char>,
        result: Result<bool, ClihatchError>,
    },
}

/// A generated keypair, by its views.
pub open spec fn keypair_view(r: Result<(String, String), ClihatchError>) -> Result<
    (Seq<char>, Seq<char>),
    ClihatchError,
> {
    match r {
        Ok(pair) => Ok((pair.0@, pair.1@)),
        Err(e) => Err(e),
    }
}

/// External side effects a secrets run performs.
///
/// A backend that keeps a record of the calls made on it says so with
/// [`records_steps`](SecretOps::records_steps) and lists them, with their
/// arguments and results, in [`steps`](SecretOps::steps); what
/// [`bootstrap`] states of the calls it makes holds of such backends. A
/// backend that keeps no record leaves both defaults.
pub trait SecretOps {
    /// Whether backends of this type record their calls in `steps`.
    open spec fn records_steps() -> bool {
        false
    }

    /// Every call made so far, oldest first.
    open spec fn steps(&self) -> Seq<SecretStep> {
        Seq::empty()
    }

    /// Verify prerequisites (auth, repo access) before any mutation.
    fn preflight(&mut self, repo: &str) -> (r: Result<(), ClihatchError>)
        ensures
            Self::records_steps() ==> final(self).steps() == old(self).steps().push(
                (SecretStep::Preflight { repo: repo@, result: r }),
            ),
    ;

    /// Store `value` as the secret `name` of `repo`.
    fn set_secret(&mut self, repo: &str, name: &str, value: &str) -> (r: Result<(), ClihatchError>)
        ensures
            Self::records_steps() ==> final(self).steps() == old(self).steps().push(
                (SecretStep::SetSecret { repo: repo@, name: name@, value: value@, result: r }),
            ),
    ;

    /// Generate an ed25519 keypair, returning `(private_key, public_key)`.
    fn generate_keypair(&mut self, comment: &str) -> (r: Result<(String, String), ClihatchError>)
        ensures
            Self::records_steps() ==> final(self).steps() == old(self).steps().push(
                (SecretStep::GenerateKeypair { comment: comment@, result: keypair_view(r) }),
            ),
    ;

    /// Register `public_key` as a write deploy key on `tap`, first removing any
    /// existing key with the same `title`. Returns `true` if a key was rotated.
    fn add_deploy_key(&mut self, tap: &str, title: &str, public_key: &str) -> (r: Result<
        bool,
        ClihatchError,
    >)
        ensures
            Self::records_steps() ==> final(self).steps() == old(self).steps().push(
                (SecretStep::AddDeployKey {
                    tap: tap@,
                    title: title@,
                    public_key: public_key@,
                    result: r,
                }),
            ),
    ;
}

/// The calls `steps` of a real (not dry) run on `repo` from `sources` that
/// ended in `r`: first the preflight; a failing call ends the run with its
/// error, and nothing follows it.
pub open spec fn bootstrap_steps(
    repo: Seq<char>,
    sources: Sources,
    steps: Seq<SecretStep>,
    r: Result<SecretReport, ClihatchError>,
) -> bool {
    &&& steps.len() > 0
    &&& steps[0] matches SecretStep::Preflight { repo: at, result } && at == repo && match result {
        Err(e) => steps.len() == 1 && r == Err::<SecretReport, ClihatchError>(e),
        Ok(_) => cargo_steps(repo, sources, steps.drop_first(), r),
    }
}

/// The calls after a passed preflight: the crates.io token is stored when
/// there is one, then [`keypair_steps`].
pub open spec fn cargo_steps(
    repo: Seq<char>,
    sources: Sources,
    steps: Seq<SecretStep>,
    r: Result<SecretReport, ClihatchError>,
) -> bool {
    match sources.cargo_token {
        Some(token) => {
            &&& steps.len() > 0
            &&& steps[0] matches SecretStep::SetSecret { repo: at, name, value, result } && at
                == repo && name == "CARGO_REGISTRY_TOKEN"@ && value == token@ && match result {
                Err(e) => steps.len() == 1 && r == Err::<SecretReport, ClihatchError>(e),
                Ok(_) => keypair_steps(repo, sources, steps.drop_first(), r),
            }
        },
        None => keypair_steps(repo, sources, steps, r),
    }
}

/// A keypair is generated with the deploy key's title as its comment, then
/// its public key registered on the tap ([`register_steps`]).
pub open spec fn keypair_steps(
    repo: Seq<char>,
    sources: Sources,
    steps: Seq<SecretStep>,
    r: Result<SecretReport, ClihatchError>,
) -> bool {
    &&& steps.len() > 0
    &&& steps[0] matches SecretStep::GenerateKeypair { comment, result } && comment
        == deploy_key_title(sources.crate_name@) && match result {
        Err(e) => steps.len() == 1 && r == Err::<SecretReport, ClihatchError>(e),
        Ok(pair) => register_steps(repo, sources, pair.0, pair.1, steps.drop_first(), r),
    }
}

/// The generated `public_key` is registered on the tap under the deploy
/// key's title, then the `private_key` stored ([`deploy_key_steps`]).
pub open spec fn register_steps(
    repo: Seq<char>,
    sources: Sources,
    private_key: Seq<char>,
    public_key: Seq<char>,
    steps: Seq<SecretStep>,
    r: Result<SecretReport, ClihatchError>,
) -> bool {
    &&& steps.len() > 0
    &&& steps[0] matches SecretStep::AddDeployKey { tap, title, public_key: registered, result }
        && tap == sources.tap@ && title == deploy_key_title(sources.crate_name@) && registered
        == public_key && match result {
        Err(e) => steps.len() == 1 && r == Err::<SecretReport, ClihatchError>(e),
        Ok(rotated) => deploy_key_steps(repo, sources, private_key, rotated, steps.drop_first(), r),
    }
}

/// The generated `private_key` is stored as the Homebrew deploy key, then
/// [`pypi_steps`].
pub open spec fn deploy_key_steps(
    repo: Seq<char>,
    sources: Sources,
    private_key: Seq<char>,
    rotated: bool,
    steps: Seq<SecretStep>,
    r: Result<SecretReport, ClihatchError>,
) -> bool {
    &&& steps.len() > 0
    &&& steps[0] matches SecretStep::SetSecret { repo: at, name, value, result } && at == repo
        && name == "HOMEBREW_TAP_DEPLOY_KEY"@ && value == private_key && match result {
        Err(e) => steps.len() == 1 && r == Err::<SecretReport, ClihatchError>(e),
        Ok(_) => pypi_steps(repo, sources, rotated, steps.drop_first(), r),
    }
}

/// The PyPI token is stored when there is one; then the run ends with its
/// report, `rotated` saying whether a prior deploy key was replaced.
pub open spec fn pypi_steps(
    repo: Seq<char>,
    sources: Sources,
    rotated: bool,
    steps: Seq<SecretStep>,
    r: Result<SecretReport, ClihatchError>,
) -> bool {
    match sources.pypi_token {
        Some(token) => {
            &&& steps.len() > 0
            &&& steps[0] matches SecretStep::SetSecret { repo: at, name, value, result } && at
                == repo && name == "PYPI_API_TOKEN"@ && value == token@ && match result {
                Err(e) => steps.len() == 1 && r == Err::<SecretReport, ClihatchError>(e),
                Ok(_) => run_reported(repo, sources, rotated, steps.drop_first(), r),
            }
        },
        None => run_reported(repo, sources, rotated, steps, r),
    }
}

/// No call follows, and the run succeeds with its report.
pub open spec fn run_reported(
    repo: Seq<char>,
    sources: Sources,
    rotated: bool,
    steps: Seq<SecretStep>,
    r: Result<SecretReport, ClihatchError>,
) -> bool {
    &&& steps.len() == 0
    &&& r matches Ok(rep) && report_matches(rep, repo, sources, false, rotated)
}

/// The tokens and targets a run draws on.
#[derive(Debug, Clone)]
pub struct Sources {
    pub crate_name: String,
    pub tap: String,
    pub cargo_token: Option<String>,
    pub pypi_token: Option<String>,
}

/// A secret that was not set, and why.
#[derive(Debug, Clone, PartialEq, Eq)]
pub struct Skip {
    pub secret: String,
    pub reason: String,
}

/// What a run did (or, with `dry_run`, would do).
#[derive(Debug, Clone, PartialEq, Eq)]
pub struct SecretReport {
    pub repo: String,
    pub dry_run: bool,
    pub set: Vec<String>,
    pub skipped: Vec<Skip>,
    /// Side notes worth surfacing (e.g. a rotated deploy key).
    pub notes: Vec<String>,
}

/// Which release secrets a repo already has.
#[derive(Debug, Clone, PartialEq, Eq)]
pub struct VerifyReport {
    pub repo: String,
    pub present: Vec<String>,
    pub missing: Vec<String>,
}

/// A skipped secret and its reason.
pub open spec fn skip_view(s: Skip) -> (Seq<char>, Seq<char>) {
    (s.secret@, s.reason@)
}

/// The reason the crates.io token is skipped.
pub open spec fn cargo_skip_reason() -> Seq<char> {
    "no token in ~/.cargo/credentials.toml (run `cargo login`)"@
}

/// The reason the PyPI token is skipped.
pub open spec fn pypi_skip_reason() -> Seq<char> {
    "no token in $PYPI_API_TOKEN or ~/.pypirc (or pass --pypi-token-stdin)"@
}

/// The secrets a run sets, in order: the crates.io token when there is one,
/// the Homebrew deploy key always, the PyPI token when there is one.
pub open spec fn planned_set(has_cargo: bool, has_pypi: bool) -> Seq<Seq<char>> {
    (if has_cargo { seq!["CARGO_REGISTRY_TOKEN"@] } else { Seq::empty() }) + seq![
        "HOMEBREW_TAP_DEPLOY_KEY"@,
    ] + (if has_pypi { seq!["PYPI_API_TOKEN"@] } else { Seq::empty() })
}

/// The secrets a run skips, with their reasons: each token that has no
/// source.
pub open spec fn planned_skipped(has_cargo: bool, has_pypi: bool) -> Seq<(Seq<char>, Seq<char>)> {
    (if has_cargo { Seq::empty() } else { seq![("CARGO_REGISTRY_TOKEN"@, cargo_skip_reason())] })
        + (if has_pypi { Seq::empty() } else { seq![("PYPI_API_TOKEN"@, pypi_skip_reason())] })
}

/// The title of a crate's deploy key on the tap.
pub open spec fn deploy_key_title(crate_name: Seq<char>) -> Seq<char> {
    crate_name + " release (CI push)"@
}

/// The note of a rotated deploy key.
pub open spec fn rotation_note(crate_name: Seq<char>, tap: Seq<char>) -> Seq<char> {
    "rotated existing deploy key "@ + debug_repr(deploy_key_title(crate_name)) + " on "@ + tap
}

/// The report of a run on `repo` from `sources`: what it set and skipped,
/// and, when a prior deploy key was `rotated`, a note saying so.
pub open spec fn report_matches(
    rep: SecretReport,
    repo: Seq<char>,
    sources: Sources,
    dry_run: bool,
    rotated: bool,
) -> bool {
    &&& rep.repo@ == repo
    &&& rep.dry_run == dry_run
    &&& strings_view(rep.set) == planned_set(sources.cargo_token is Some, sources.pypi_token is Some)
    &&& rep.skipped@.map_values(|k: Skip| skip_view(k)) == planned_skipped(
        sources.cargo_token is Some,
        sources.pypi_token is Some,
    )
    &&& strings_view(rep.notes) == if rotated {
        seq![rotation_note(sources.crate_name@, sources.tap@)]
    } else {
        Seq::<Seq<char>>::empty()
    }
}

/// The title of `crate_name`'s deploy key, computed.
pub fn deploy_key_title_of(crate_name: &str) -> (t: String)
    ensures
        t@ == deploy_key_title(crate_name@),
{
    concat(crate_name, " release (CI push)")
}

/// The report of a run: see [`report_matches`].
pub fn secret_report(repo: &str, sources: &Sources, dry_run: bool, rotated: bool) -> (rep:
    SecretReport)
    ensures
        report_matches(rep, repo@, *sources, dry_run, rotated),
{
    let mut set: Vec<String> = Vec::new();
    let mut skipped: Vec<Skip> = Vec::new();
    let mut notes: Vec<String> = Vec::new();
    if sources.cargo_token.is_some() {
        set.push("CARGO_REGISTRY_TOKEN".to_owned());
    } else {
        skipped.push(
            Skip {
                secret: "CARGO_REGISTRY_TOKEN".to_owned(),
                reason: "no token in ~/.cargo/credentials.toml (run `cargo login`)".to_owned(),
            },
        );
    }
    set.push("HOMEBREW_TAP_DEPLOY_KEY".to_owned());
    if sources.pypi_token.is_some() {
        set.push("PYPI_API_TOKEN".to_owned());
    } else {
        skipped.push(
            Skip {
                secret: "PYPI_API_TOKEN".to_owned(),
                reason: "no token in $PYPI_API_TOKEN or ~/.pypirc (or pass --pypi-token-stdin)".to_owned(),
            },
        );
    }
    if rotated {
        let title = deploy_key_title_of(sources.crate_name.as_str());
        let quoted = debug_quoted(title.as_str());
        let head = concat("rotated existing deploy key ", quoted.as_str());
        let head = concat(head.as_str(), " on ");
        notes.push(concat(head.as_str(), sources.tap.as_str()));
    }
    let rep = SecretReport { repo: repo.to_owned(), dry_run, set, skipped, notes };
    assert(strings_view(rep.set) =~= planned_set(
        sources.cargo_token is Some,
        sources.pypi_token is Some,
    ));
    assert(rep.skipped@.map_values(|k: Skip| skip_view(k)) =~= planned_skipped(
        sources.cargo_token is Some,
        sources.pypi_token is Some,
    ));
    assert(strings_view(rep.notes) =~= if rotated {
        seq![rotation_note(sources.crate_name@, sources.tap@)]
    } else {
        Seq::<Seq<char>>::empty()
    });
    rep
}

/// Set the release secrets on `repo`. In a dry run nothing is executed, no key
/// is generated, and no preflight runs; the report shows what would happen.
///
/// Otherwise, in order: the preflight; the crates.io token; a new keypair
/// titled [`deploy_key_title`], registered on the tap, whose private key is
/// stored as the Homebrew deploy key; the PyPI token. The first failing step
/// ends the run with its error.
pub fn bootstrap<O: SecretOps>(ops: &mut O, repo: &str, sources: &Sources, dry_run: bool) -> (r:
    Result<SecretReport, ClihatchError>)
    ensures
        dry_run ==> *final(ops) == *old(ops),
        dry_run ==> r is Ok && report_matches(r->Ok_0, repo@, *sources, true, false),
        !dry_run && O::records_steps() ==> final(ops).steps().len() >= old(ops).steps().len() && final(ops).steps().take(
            old(ops).steps().len() as int,
        ) == old(ops).steps() && bootstrap_steps(
            repo@,
            *sources,
            final(ops).steps().skip(old(ops).steps().len() as int),
            r,
        ),
{
    if dry_run {
        return Ok(secret_report(repo, sources, dry_run, false));
    }
    let pre = ops.preflight(repo);
    match pre {
        Ok(()) => {},
        Err(e) => {
            return Err(e);
        },
    }
    match &sources.cargo_token {
        Some(token) => {
            let stored = ops.set_secret(repo, "CARGO_REGISTRY_TOKEN", token.as_str());
            match stored {
                Ok(()) => {},
                Err(e) => {
                    return Err(e);
                },
            }
        },
        None => {},
    }
    let title = deploy_key_title_of(sources.crate_name.as_str());
    let generated = ops.generate_keypair(title.as_str());
    let (private_key, public_key) = match generated {
        Ok(pair) => pair,
        Err(e) => {
            return Err(e);
        },
    };
    let registered = ops.add_deploy_key(sources.tap.as_str(), title.as_str(), public_key.as_str());
    let rotated = match registered {
        Ok(rotated) => rotated,
        Err(e) => {
            return Err(e);
        },
    };
    let key_stored = ops.set_secret(repo, "HOMEBREW_TAP_DEPLOY_KEY", private_key.as_str());
    match key_stored {
        Ok(()) => {},
        Err(e) => {
            return Err(e);
        },
    }
    match &sources.pypi_token {
        Some(token) => {
            let stored = ops.set_secret(repo, "PYPI_API_TOKEN", token.as_str());
            match stored {
                Ok(()) => {},
                Err(e) => {
                    return Err(e);
                },
            }
        },
        None => {},
    }
    Ok(secret_report(repo, sources, dry_run, rotated))
}

/// One deploy key as `gh repo deploy-key list --json id,title` reports it.
#[derive(Debug, Clone, PartialEq, Eq)]
pub struct DeployKey {
    pub id: i64,
    pub title: String,
}

/// The `gh` arguments that set the secret `name` of `repo` from stdin.
pub open spec fn set_secret_args(repo: Seq<char>, name: Seq<char>) -> Seq<Seq<char>> {
    seq!["secret"@, "set"@, name, "-R"@, repo]
}

/// The `gh` arguments that check its authentication.
pub open spec fn auth_status_args() -> Seq<Seq<char>> {
    seq!["auth"@, "status"@]
}

/// The `gh` arguments that look a repo up.
pub open spec fn repo_view_args(repo: Seq<char>) -> Seq<Seq<char>> {
    seq!["repo"@, "view"@, repo, "--json"@, "name"@]
}

/// The `ssh-keygen` arguments that write an ed25519 keypair without a
/// passphrase to `path` and `path.pub`.
pub open spec fn keygen_args(path: Seq<char>, comment: Seq<char>) -> Seq<Seq<char>> {
    seq!["-t"@, "ed25519"@, "-f"@, path, "-N"@, ""@, "-C"@, comment, "-q"@]
}

/// The `gh` arguments that list a tap's deploy keys as JSON.
pub open spec fn list_keys_args(tap: Seq<char>) -> Seq<Seq<char>> {
    seq!["repo"@, "deploy-key"@, "list"@, "-R"@, tap, "--json"@, "id,title"@]
}

/// The `gh` arguments that delete the deploy key `id` of a tap.
pub open spec fn delete_key_args(id: int, tap: Seq<char>) -> Seq<Seq<char>> {
    seq!["repo"@, "deploy-key"@, "delete"@, signed_decimal(id), "-R"@, tap]
}

/// The `gh` arguments that add the public key in `path` as a write deploy
/// key titled `title` on a tap.
pub open spec fn add_key_args(path: Seq<char>, tap: Seq<char>, title: Seq<char>) -> Seq<Seq<char>> {
    seq!["repo"@, "deploy-key"@, "add"@, path, "-R"@, tap, "--allow-write"@, "--title"@, title]
}

/// The message of a failed `gh auth status`.
pub open spec fn not_authenticated_message() -> Seq<char> {
    "not authenticated; run `gh auth login`"@
}

/// The message of a failed `gh repo view`.
pub open spec fn repo_inaccessible_message(repo: Seq<char>, stderr: Seq<char>) -> Seq<char> {
    "repo "@ + repo + " not found or inaccessible: "@ + trim(stderr)
}

/// The keys of `keys` titled `title`.
pub open spec fn keys_titled(keys: Seq<DeployKey>, title: Seq<char>) -> Seq<DeployKey> {
    keys.filter(|k: DeployKey| k.title@ == title)
}

/// [`set_secret_args`], computed.
pub fn set_secret_argv(repo: &str, name: &str) -> (v: Vec<String>)
    ensures
        strings_view(v) == set_secret_args(repo@, name@),
{
    let v = vec!["secret".to_owned(), "set".to_owned(), name.to_owned(), "-R".to_owned(), repo.to_owned()];
    assert(strings_view(v) =~= set_secret_args(repo@, name@));
    v
}

/// [`repo_view_args`], computed.
pub fn repo_view_argv(repo: &str) -> (v: Vec<String>)
    ensures
        strings_view(v) == repo_view_args(repo@),
{
    let v = vec!["repo".to_owned(), "view".to_owned(), repo.to_owned(), "--json".to_owned(), "name".to_owned()];
    assert(strings_view(v) =~= repo_view_args(repo@));
    v
}

/// [`keygen_args`], computed.
pub fn keygen_argv(path: &str, comment: &str) -> (v: Vec<String>)
    ensures
        strings_view(v) == keygen_args(path@, comment@),
{
    let v = vec![
        "-t".to_owned(),
        "ed25519".to_owned(),
        "-f".to_owned(),
        path.to_owned(),
        "-N".to_owned(),
        "".to_owned(),
        "-C".to_owned(),
        comment.to_owned(),
        "-q".to_owned(),
    ];
    assert(strings_view(v) =~= keygen_args(path@, comment@));
    v
}

/// [`list_keys_args`], computed.
pub fn list_keys_argv(tap: &str) -> (v: Vec<String>)
    ensures
        strings_view(v) == list_keys_args(tap@),
{
    let v = vec![
        "repo".to_owned(),
        "deploy-key".to_owned(),
        "list".to_owned(),
        "-R".to_owned(),
        tap.to_owned(),
        "--json".to_owned(),
        "id,title".to_owned(),
    ];
    assert(strings_view(v) =~= list_keys_args(tap@));
    v
}

/// [`delete_key_args`], computed.
pub fn delete_key_argv(id: i64, tap: &str) -> (v: Vec<String>)
    ensures
        strings_view(v) == delete_key_args(id as int, tap@),
{
    let v = vec![
        "repo".to_owned(),
        "deploy-key".to_owned(),
        "delete".to_owned(),
        i64_to_decimal(id),
        "-R".to_owned(),
        tap.to_owned(),
    ];
    assert(strings_view(v) =~= delete_key_args(id as int, tap@));
    v
}

/// [`add_key_args`], computed.
pub fn add_key_argv(path: &str, tap: &str, title: &str) -> (v: Vec<String>)
    ensures
        strings_view(v) == add_key_args(path@, tap@, title@),
{
    let v = vec![
        "repo".to_owned(),
        "deploy-key".to_owned(),
        "add".to_owned(),
        path.to_owned(),
        "-R".to_owned(),
        tap.to_owned(),
        "--allow-write".to_owned(),
        "--title".to_owned(),
        title.to_owned(),
    ];
    assert(strings_view(v) =~= add_key_args(path@, tap@, title@));
    v
}

/// What a finished `gh auth status` means for the preflight.
pub fn check_auth(out: &CmdOutput) -> (r: Result<(), ClihatchError>)
    ensures
        r is Ok <==> out.success,
        r is Err ==> r->Err_0 is Backend && r->Err_0->tool@ == "gh"@
            && r->Err_0->Backend_message@ == not_authenticated_message(),
{
    if out.success {
        Ok(())
    } else {
        Err(
            ClihatchError::Backend {
                tool: "gh",
                message: "not authenticated; run `gh auth login`".to_owned(),
            },
        )
    }
}

/// What a finished `gh repo view` of `repo` means for the preflight.
pub fn check_repo_view(repo: &str, out: &CmdOutput) -> (r: Result<(), ClihatchError>)
    ensures
        r is Ok <==> out.success,
        r is Err ==> r->Err_0 is Backend && r->Err_0->tool@ == "gh"@
            && r->Err_0->Backend_message@ == repo_inaccessible_message(repo@, out.stderr@),
{
    if out.success {
        Ok(())
    } else {
        let head = concat("repo ", repo);
        let head = concat(head.as_str(), " not found or inaccessible: ");
        let detail = trim_string(out.stderr.as_str());
        Err(ClihatchError::Backend { tool: "gh", message: concat(head.as_str(), detail.as_str()) })
    }
}

/// The runs `after` appends to `before` in a preflight of `repo` that ended
/// in `r`: `gh auth status`, and only when it succeeded, `gh repo view`. A
/// failed probe's error is "not authenticated" or "repo not found or
/// inaccessible" with `gh`'s stderr; a probe that could not run gives its
/// I/O error.
pub open spec fn preflight_runs(
    before: Seq<RunRecord>,
    after: Seq<RunRecord>,
    repo: Seq<char>,
    r: Result<(), ClihatchError>,
) -> bool {
    let auth = before.len() as int;
    &&& after.len() > auth
    &&& one_run(before, after.take(auth + 1), "gh"@, auth_status_args(), None)
    &&& if !succeeded(after[auth].result) {
        &&& after.len() == auth + 1
        &&& r matches Err(e) && match after[auth].result {
            Ok(_) => e is Backend && e->tool@ == "gh"@ && e->Backend_message@
                == not_authenticated_message(),
            Err(_) => run_error("gh"@, after[auth].result, e),
        }
    } else {
        &&& one_run(after.take(auth + 1), after, "gh"@, repo_view_args(repo), None)
        &&& r is Ok <==> succeeded(after.last().result)
        &&& r matches Err(e) ==> match after.last().result {
            Ok(out) => e is Backend && e->tool@ == "gh"@ && e->Backend_message@
                == repo_inaccessible_message(repo, out.stderr@),
            Err(_) => run_error("gh"@, after.last().result, e),
        }
    }
}

/// The runs `after` appends to `before` in deleting the keys of `keys` titled
/// `title` from `tap`, ending in `r`: one `gh` delete per titled key, in list
/// order, and no other run; a failing delete ends it with its error.
/// Success says whether there was a titled key.
pub open spec fn deletion_runs(
    before: Seq<RunRecord>,
    after: Seq<RunRecord>,
    tap: Seq<char>,
    title: Seq<char>,
    keys: Seq<DeployKey>,
    r: Result<bool, ClihatchError>,
) -> bool {
    let titled = keys_titled(keys, title);
    let new = after.skip(before.len() as int);
    &&& after.len() >= before.len()
    &&& after.take(before.len() as int) == before
    &&& new.len() <= titled.len()
    &&& forall|j: int|
        0 <= j < new.len() ==> #[trigger] new[j] == (RunRecord {
            program: "gh"@,
            args: delete_key_args(titled[j].id as int, tap),
            stdin: None,
            result: new[j].result,
        })
    &&& forall|j: int| 0 <= j < new.len() - 1 ==> succeeded(#[trigger] new[j].result)
    &&& r matches Ok(rotated) ==> new.len() == titled.len() && (new.len() == 0 || succeeded(
        new.last().result,
    )) && rotated == (titled.len() > 0)
    &&& r matches Err(e) ==> new.len() > 0 && run_error("gh"@, new.last().result, e)
}

/// `stage`, handed the public key `public_key`, can end in `r`.
pub open spec fn stages<S: Fn(&str) -> Result<String, ClihatchError>>(
    stage: S,
    public_key: Seq<char>,
    r: Result<String, ClihatchError>,
) -> bool {
    exists|key: &str| key@ == public_key && #[trigger] call_ensures(stage, (key,), r)
}

/// The runs `after` appends to `before` in registering `public_key` as the
/// write deploy key `title` on `tap`, ending in `r`: the tap's keys are
/// listed and the listing `parse`d; the keys titled `title` are deleted
/// ([`deletion_runs`]); the public key is `stage`d in a file and that file
/// added. Each step runs only after the ones before it succeeded, and the
/// first failure ends it with its error. Success says whether a key was
/// rotated.
pub open spec fn deploy_key_runs<
    P: Fn(String) -> Result<Vec<DeployKey>, ClihatchError>,
    S: Fn(&str) -> Result<String, ClihatchError>,
>(
    before: Seq<RunRecord>,
    after: Seq<RunRecord>,
    parse: P,
    stage: S,
    tap: Seq<char>,
    title: Seq<char>,
    public_key: Seq<char>,
    r: Result<bool, ClihatchError>,
) -> bool {
    let listed = before.len() + 1int;
    let list = after[before.len() as int].result;
    &&& after.len() >= listed
    &&& one_run(before, after.take(listed), "gh"@, list_keys_args(tap), None)
    &&& if !succeeded(list) {
        &&& after.len() == listed
        &&& r matches Err(e) && run_error("gh"@, list, e)
    } else {
        exists|parsed: Result<Vec<DeployKey>, ClihatchError>|
            #[trigger] call_ensures(parse, (list->Ok_0.stdout,), parsed) && match parsed {
                Err(e) => after.len() == listed && r == Err::<bool, ClihatchError>(e),
                Ok(keys) => exists|mid: int, deleted: Result<bool, ClihatchError>|
                    listed <= mid <= after.len() && #[trigger] deletion_runs(
                        after.take(listed),
                        after.take(mid),
                        tap,
                        title,
                        keys@,
                        deleted,
                    ) && match deleted {
                        Err(e) => after.len() == mid && r == Err::<bool, ClihatchError>(e),
                        Ok(rotated) => exists|staged: Result<String, ClihatchError>|
                            #[trigger] stages(stage, public_key, staged) && match staged {
                                Err(e) => after.len() == mid && r == Err::<bool, ClihatchError>(e),
                                Ok(path) => {
                                    &&& one_run(
                                        after.take(mid),
                                        after,
                                        "gh"@,
                                        add_key_args(path@, tap, title),
                                        None,
                                    )
                                    &&& settled("gh"@, after.last().result, r)
                                    &&& r is Ok ==> r == Ok::<bool, ClihatchError>(rotated)
                                },
                            },
                    },
            }
    }
}

/// The run `after` appends to `before` in generating a keypair at `path`
/// commented `comment`, ending in `r`: one `ssh-keygen` run; when it
/// succeeded, `r` is what `read_keys` read back, else the run's error.
pub open spec fn keypair_runs<F: Fn() -> Result<(String, String), ClihatchError>>(
    before: Seq<RunRecord>,
    after: Seq<RunRecord>,
    read_keys: F,
    path: Seq<char>,
    comment: Seq<char>,
    r: Result<(String, String), ClihatchError>,
) -> bool {
    &&& one_run(before, after, "ssh-keygen"@, keygen_args(path, comment), None)
    &&& if succeeded(after.last().result) {
        call_ensures(read_keys, (), r)
    } else {
        r matches Err(e) && run_error("ssh-keygen"@, after.last().result, e)
    }
}

/// The keys titled `title` among the first `i + 1` of `keys`: those among
/// the first `i`, and the `i`-th when it is titled.
proof fn lemma_titled_step(keys: Seq<DeployKey>, title: Seq<char>, i: int)
    requires
        0 <= i < keys.len(),
    ensures
        keys_titled(keys.take(i + 1), title) == if keys[i].title@ == title {
            keys_titled(keys.take(i), title).push(keys[i])
        } else {
            keys_titled(keys.take(i), title)
        },
{
    reveal(Seq::filter);
    assert(keys.take(i + 1).drop_last() == keys.take(i));
    assert(keys.take(i + 1).last() == keys[i]);
}

/// The keys titled `title` among the first `i` of `keys` begin the keys
/// titled `title` among all of them.
proof fn lemma_titled_prefix(keys: Seq<DeployKey>, title: Seq<char>, i: int)
    requires
        0 <= i <= keys.len(),
    ensures
        keys_titled(keys.take(i), title).len() <= keys_titled(keys, title).len(),
        forall|j: int|
            0 <= j < keys_titled(keys.take(i), title).len() ==> #[trigger] keys_titled(
                keys.take(i),
                title,
            )[j] == keys_titled(keys, title)[j],
    decreases keys.len() - i,
{
    if i == keys.len() {
        assert(keys.take(i) == keys);
    } else {
        lemma_titled_prefix(keys, title, i + 1);
        lemma_titled_step(keys, title, i);
        let short = keys_titled(keys.take(i), title);
        let next = keys_titled(keys.take(i + 1), title);
        assert forall|j: int| 0 <= j < short.len() implies #[trigger] short[j] == keys_titled(
            keys,
            title,
        )[j] by {
            assert(short[j] == next[j]);
        }
    }
}

/// The real backend: `gh` for secrets and deploy keys, `ssh-keygen` for the
/// key, each run through a [`CommandRunner`]. Moving the key files between
/// those runs is left to the caller.
pub struct RealSecretOps<R> {
    runner: R,
}

impl<R: CommandRunner> RealSecretOps<R> {
    /// Build a backend over a specific command runner.
    pub fn with_runner(runner: R) -> (ops: Self)
        ensures
            ops.runner() == runner,
    {
        RealSecretOps { runner }
    }

    /// The command runner.
    pub closed spec fn runner(&self) -> R {
        self.runner
    }

    /// Every run the runner made so far.
    pub open spec fn runs(&self) -> Seq<RunRecord> {
        self.runner().runs()
    }

    /// The command runner.
    pub fn runner_ref(&self) -> (r: &R)
        ensures
            *r == self.runner(),
    {
        &self.runner
    }

    fn run_tool(&mut self, tool: &'static str, args: &Vec<String>, stdin: Option<&str>) -> (r:
        Result<CmdOutput, ClihatchError>)
        ensures
            r matches Err(e) ==> e is Backend && e->tool == tool,
            R::records_runs() ==> {
                &&& one_run(
                    old(self).runs(),
                    final(self).runs(),
                    tool@,
                    strings_view(*args),
                    stdin_view(stdin),
                )
                &&& r is Ok <==> final(self).runs().last().result is Ok
                &&& r matches Ok(out) ==> final(self).runs().last().result == Ok::<
                    CmdOutput,
                    std::io::Error,
                >(out)
                &&& r matches Err(e) ==> run_error(tool@, final(self).runs().last().result, e)
            },
    {
        let a = as_strs(args);
        let slice = a.as_slice();
        assert(args_view(slice@) =~= strings_view(*args));
        let res = self.runner.run(tool, slice, stdin);
        spawn_result(tool, res)
    }

    /// Run `tool` and require it to succeed.
    fn run_checked(&mut self, tool: &'static str, args: &Vec<String>, stdin: Option<&str>) -> (r:
        Result<CmdOutput, ClihatchError>)
        ensures
            r matches Err(e) ==> e is Backend && e->tool == tool,
            R::records_runs() ==> {
                &&& one_run(
                    old(self).runs(),
                    final(self).runs(),
                    tool@,
                    strings_view(*args),
                    stdin_view(stdin),
                )
                &&& settled(tool@, final(self).runs().last().result, r)
                &&& r matches Ok(out) ==> final(self).runs().last().result == Ok::<
                    CmdOutput,
                    std::io::Error,
                >(out)
            },
    {
        match self.run_tool(tool, args, stdin) {
            Ok(out) => check_output(tool, out),
            Err(e) => Err(e),
        }
    }

    /// Verify prerequisites before any mutation: `gh` is authenticated
    /// ([`check_auth`]), then `repo` is reachable ([`check_repo_view`]). Stops
    /// at the first failure; see [`preflight_runs`].
    pub fn preflight(&mut self, repo: &str) -> (r: Result<(), ClihatchError>)
        ensures
            r matches Err(e) ==> e is Backend && e->tool@ == "gh"@,
            R::records_runs() ==> preflight_runs(old(self).runs(), final(self).runs(), repo@, r),
    {
        let ghost before = self.runs();
        let auth_args = vec!["auth".to_owned(), "status".to_owned()];
        assert(strings_view(auth_args) =~= auth_status_args());
        let auth = self.run_tool("gh", &auth_args, None);
        let ghost after_auth = self.runs();
        assert(R::records_runs() ==> after_auth.take(before.len() + 1int) == after_auth);
        let auth = match auth {
            Ok(out) => out,
            Err(e) => {
                return Err(e);
            },
        };
        match check_auth(&auth) {
            Ok(()) => {},
            Err(e) => {
                return Err(e);
            },
        }
        let view = self.run_tool("gh", &repo_view_argv(repo), None);
        assert(R::records_runs() ==> self.runs().take(before.len() + 1int) == after_auth);
        let view = match view {
            Ok(out) => out,
            Err(e) => {
                return Err(e);
            },
        };
        check_repo_view(repo, &view)
    }

    /// Store `value` as the secret `name` of `repo`: one `gh` run with
    /// [`set_secret_args`], the value on stdin.
    pub fn set_secret(&mut self, repo: &str, name: &str, value: &str) -> (r: Result<(), ClihatchError>)
        ensures
            r matches Err(e) ==> e is Backend && e->tool@ == "gh"@,
            R::records_runs() ==> one_run(
                old(self).runs(),
                final(self).runs(),
                "gh"@,
                set_secret_args(repo@, name@),
                Some(value@),
            ) && settled("gh"@, final(self).runs().last().result, r),
    {
        match self.run_checked("gh", &set_secret_argv(repo, name), Some(value)) {
            Ok(_) => Ok(()),
            Err(e) => Err(e),
        }
    }

    /// Write an ed25519 keypair to `path` and `path.pub`: one `ssh-keygen`
    /// run with [`keygen_args`].
    pub fn keygen(&mut self, path: &str, comment: &str) -> (r: Result<(), ClihatchError>)
        ensures
            r matches Err(e) ==> e is Backend && e->tool@ == "ssh-keygen"@,
            R::records_runs() ==> one_run(
                old(self).runs(),
                final(self).runs(),
                "ssh-keygen"@,
                keygen_args(path@, comment@),
                None,
            ) && settled("ssh-keygen"@, final(self).runs().last().result, r),
    {
        match self.run_checked("ssh-keygen", &keygen_argv(path, comment), None) {
            Ok(_) => Ok(()),
            Err(e) => Err(e),
        }
    }

    /// The JSON listing of `tap`'s deploy keys: the stdout of one `gh` run
    /// with [`list_keys_args`].
    pub fn list_deploy_keys(&mut self, tap: &str) -> (r: Result<String, ClihatchError>)
        ensures
            r matches Err(e) ==> e is Backend && e->tool@ == "gh"@,
            R::records_runs() ==> {
                &&& one_run(old(self).runs(), final(self).runs(), "gh"@, list_keys_args(tap@), None)
                &&& settled("gh"@, final(self).runs().last().result, r)
                &&& r matches Ok(listing) ==> listing == final(self).runs().last().result->Ok_0.stdout
            },
    {
        match self.run_checked("gh", &list_keys_argv(tap), None) {
            Ok(out) => Ok(out.stdout),
            Err(e) => Err(e),
        }
    }

    /// Delete every key of `keys` titled `title` from `tap`, in order, with
    /// [`delete_key_args`]; the other keys are untouched. Returns whether a
    /// key was deleted, so the stored secret and the registered key always
    /// match. Stops at the first failing deletion; see [`deletion_runs`].
    pub fn delete_titled_keys(&mut self, tap: &str, title: &str, keys: &Vec<DeployKey>) -> (r:
        Result<bool, ClihatchError>)
        ensures
            r matches Ok(rotated) ==> rotated == (keys_titled(keys@, title@).len() > 0),
            r matches Err(e) ==> e is Backend && e->tool@ == "gh"@,
            R::records_runs() ==> deletion_runs(
                old(self).runs(),
                final(self).runs(),
                tap@,
                title@,
                keys@,
                r,
            ),
    {
        let ghost start = self.runs();
        let mut rotated = false;
        let n = keys.len();
        for i in 0..n
            invariant
                n == keys@.len(),
                start == old(self).runs(),
                R::records_runs() ==> {
                    &&& self.runs().len() >= start.len()
                    &&& self.runs().take(start.len() as int) == start
                    &&& self.runs().skip(start.len() as int).len() == keys_titled(
                        keys@.take(i as int),
                        title@,
                    ).len()
                    &&& forall|j: int|
                        0 <= j < self.runs().skip(start.len() as int).len() ==> #[trigger] self.runs().skip(
                            start.len() as int,
                        )[j] == (RunRecord {
                            program: "gh"@,
                            args: delete_key_args(
                                keys_titled(keys@.take(i as int), title@)[j].id as int,
                                tap@,
                            ),
                            stdin: None,
                            result: self.runs().skip(start.len() as int)[j].result,
                        })
                    &&& forall|j: int|
                        0 <= j < self.runs().skip(start.len() as int).len() ==> succeeded(
                            #[trigger] self.runs().skip(start.len() as int)[j].result,
                        )
                },
                rotated == (keys_titled(keys@.take(i as int), title@).len() > 0),
        {
            let key = &keys[i];
            let ghost before = self.runs();
            proof {
                lemma_titled_step(keys@, title@, i as int);
                lemma_titled_prefix(keys@, title@, i + 1);
            }
            if string_eq(&key.title, title) {
                let deleted = self.run_checked("gh", &delete_key_argv(key.id, tap), None);
                proof {
                    if R::records_runs() {
                    let old_new = before.skip(start.len() as int);
                    let new = self.runs().skip(start.len() as int);
                    assert(new == old_new.push(self.runs().last()));
                    assert(self.runs().take(start.len() as int) == start);
                    assert forall|j: int| 0 <= j < new.len() implies #[trigger] new[j] == (
                    RunRecord {
                        program: "gh"@,
                        args: delete_key_args(
                            keys_titled(keys@.take(i + 1), title@)[j].id as int,
                            tap@,
                        ),
                        stdin: None,
                        result: new[j].result,
                    }) by {
                        if j < old_new.len() {
                            assert(new[j] == old_new[j]);
                        }
                    }
                    }
                }
                match deleted {
                    Ok(_) => {},
                    Err(e) => {
                        proof {
                            if R::records_runs() {
                            let new = self.runs().skip(start.len() as int);
                            assert forall|j: int| 0 <= j < new.len() implies #[trigger] new[j]
                                == (RunRecord {
                                program: "gh"@,
                                args: delete_key_args(
                                    keys_titled(keys@, title@)[j].id as int,
                                    tap@,
                                ),
                                stdin: None,
                                result: new[j].result,
                            }) by {
                                assert(keys_titled(keys@.take(i + 1), title@)[j] == keys_titled(
                                    keys@,
                                    title@,
                                )[j]);
                            }
                            assert forall|j: int| 0 <= j < new.len() - 1 implies succeeded(
                                #[trigger] new[j].result,
                            ) by {
                                assert(new[j] == before.skip(start.len() as int)[j]);
                            }
                            assert(new.last() == self.runs().last());
                            assert(new.len() == keys_titled(keys@.take(i + 1), title@).len());
                            assert(new.len() <= keys_titled(keys@, title@).len());
                            }
                        }
                        return Err(e);
                    },
                }
                rotated = true;
            }
        }
        proof {
            assert(keys@.take(n as int) == keys@);
            let new = self.runs().skip(start.len() as int);
            if R::records_runs() && new.len() > 0 {
                assert(succeeded(new[new.len() - 1].result));
            }
        }
        Ok(rotated)
    }

    /// Register the public key in `path` as a write deploy key titled
    /// `title` on `tap`: one `gh` run with [`add_key_args`].
    pub fn add_key(&mut self, path: &str, tap: &str, title: &str) -> (r: Result<(), ClihatchError>)
        ensures
            r matches Err(e) ==> e is Backend && e->tool@ == "gh"@,
            R::records_runs() ==> one_run(
                old(self).runs(),
                final(self).runs(),
                "gh"@,
                add_key_args(path@, tap@, title@),
                None,
            ) && settled("gh"@, final(self).runs().last().result, r),
    {
        match self.run_checked("gh", &add_key_argv(path, tap, title), None) {
            Ok(_) => Ok(()),
            Err(e) => Err(e),
        }
    }

    /// Generate an ed25519 keypair commented `comment`: [`keygen`](Self::keygen)
    /// writes it to `path` and `path.pub`, then `read_keys` reads
    /// `(private_key, public_key)` back; see [`keypair_runs`].
    pub fn generate_keypair<F: Fn() -> Result<(String, String), ClihatchError>>(
        &mut self,
        path: &str,
        comment: &str,
        read_keys: &F,
    ) -> (r: Result<(String, String), ClihatchError>)
        requires
            call_requires(*read_keys, ()),
        ensures
            R::records_runs() ==> keypair_runs(
                old(self).runs(),
                final(self).runs(),
                *read_keys,
                path@,
                comment@,
                r,
            ),
    {
        match self.keygen(path, comment) {
            Ok(()) => {},
            Err(e) => {
                return Err(e);
            },
        }
        read_keys()
    }

    /// Register `public_key` as a write deploy key titled `title` on `tap`,
    /// rotating any key with that title: list the tap's keys, `parse` the
    /// listing, delete the keys titled `title`, `stage` the public key in a
    /// file, and add that file. Returns whether a key was rotated, so the
    /// stored secret and the registered key always match. Stops at the first
    /// failing step, with its error; see [`deploy_key_runs`].
    pub fn add_deploy_key<
        P: Fn(String) -> Result<Vec<DeployKey>, ClihatchError>,
        S: Fn(&str) -> Result<String, ClihatchError>,
    >(&mut self, tap: &str, title: &str, public_key: &str, parse: &P, stage: &S) -> (r: Result<
        bool,
        ClihatchError,
    >)
        requires
            forall|listing: String| call_requires(*parse, (listing,)),
            call_requires(*stage, (public_key,)),
        ensures
            R::records_runs() ==> deploy_key_runs(
                old(self).runs(),
                final(self).runs(),
                *parse,
                *stage,
                tap@,
                title@,
                public_key@,
                r,
            ),
    {
        let ghost before = self.runs();
        let listed = self.list_deploy_keys(tap);
        let ghost after_list = self.runs();
        assert(R::records_runs() ==> after_list.take(before.len() + 1int) == after_list);
        let listing = match listed {
            Ok(listing) => listing,
            Err(e) => {
                return Err(e);
            },
        };
        let parsed = parse(listing);
        let keys = match parsed {
            Ok(keys) => keys,
            Err(e) => {
                return Err(e);
            },
        };
        let deleted = self.delete_titled_keys(tap, title, &keys);
        let ghost after_delete = self.runs();
        assert(R::records_runs() ==> after_delete.take(before.len() + 1int) == after_list);
        assert(after_delete.take(after_delete.len() as int) == after_delete);
        assert(R::records_runs() ==> deletion_runs(
            after_delete.take(before.len() + 1int),
            after_delete.take(after_delete.len() as int),
            tap@,
            title@,
            keys@,
            deleted,
        ));
        let rotated = match deleted {
            Ok(rotated) => rotated,
            Err(e) => {
                return Err(e);
            },
        };
        let staged = stage(public_key);
        assert(stages(*stage, public_key@, staged));
        let path = match staged {
            Ok(path) => path,
            Err(e) => {
                return Err(e);
            },
        };
        let added = self.add_key(path.as_str(), tap, title);
        assert(R::records_runs() ==> self.runs().take(before.len() + 1int) == after_list);
        assert(R::records_runs() ==> self.runs().take(after_delete.len() as int) == after_delete);
        match added {
            Ok(()) => Ok(rotated),
            Err(e) => Err(e),
        }
    }
}

/// The steps of the real backend that touch files: `read_keys` reads back
/// the keypair `ssh-keygen` wrote to `key_path` (and `key_path.pub`), `parse`
/// reads a deploy-key listing, and `stage` writes a public key to a file and
/// gives the file's path.
pub struct KeyFiles<
    K: Fn() -> Result<(String, String), ClihatchError>,
    P: Fn(String) -> Result<Vec<DeployKey>, ClihatchError>,
    S: Fn(&str) -> Result<String, ClihatchError>,
> {
    key_path: String,
    read_keys: K,
    parse: P,
    stage: S,
}

impl<
    K: Fn() -> Result<(String, String), ClihatchError>,
    P: Fn(String) -> Result<Vec<DeployKey>, ClihatchError>,
    S: Fn(&str) -> Result<String, ClihatchError>,
> KeyFiles<K, P, S> {
    /// The steps can always be called.
    #[verifier::type_invariant]
    spec fn steps_callable(self) -> bool {
        &&& call_requires(self.read_keys, ())
        &&& forall|listing: String| call_requires(self.parse, (listing,))
        &&& forall|key: &str| call_requires(self.stage, (key,))
    }

    /// The file steps, with generated keys written to `key_path`.
    pub fn new(key_path: String, read_keys: K, parse: P, stage: S) -> (f: Self)
        requires
            call_requires(read_keys, ()),
            forall|listing: String| call_requires(parse, (listing,)),
            forall|key: &str| call_requires(stage, (key,)),
        ensures
            f.key_path() == key_path@,
            f.read_keys() == read_keys,
            f.parse() == parse,
            f.stage() == stage,
    {
        KeyFiles { key_path, read_keys, parse, stage }
    }

    /// Where generated keys are written.
    pub closed spec fn key_path(&self) -> Seq<char> {
        self.key_path@
    }

    /// The step that reads generated keys back.
    pub closed spec fn read_keys(&self) -> K {
        self.read_keys
    }

    /// The step that reads a deploy-key listing.
    pub closed spec fn parse(&self) -> P {
        self.parse
    }

    /// The step that writes a public key to a file.
    pub closed spec fn stage(&self) -> S {
        self.stage
    }
}

/// The real backend as a [`SecretOps`]: [`RealSecretOps`]' command steps
/// over a runner, with the steps that touch files handed in as
/// [`KeyFiles`]. Every call is recorded.
pub struct RealBackend<
    R: CommandRunner,
    K: Fn() -> Result<(String, String), ClihatchError>,
    P: Fn(String) -> Result<Vec<DeployKey>, ClihatchError>,
    S: Fn(&str) -> Result<String, ClihatchError>,
> {
    ops: RealSecretOps<R>,
    files: KeyFiles<K, P, S>,
    steps: Ghost<Seq<SecretStep>>,
}

impl<
    R: CommandRunner,
    K: Fn() -> Result<(String, String), ClihatchError>,
    P: Fn(String) -> Result<Vec<DeployKey>, ClihatchError>,
    S: Fn(&str) -> Result<String, ClihatchError>,
> RealBackend<R, K, P, S> {
    /// A backend over `runner` with the file steps `files`; no call made
    /// yet.
    pub fn new(runner: R, files: KeyFiles<K, P, S>) -> (b: Self)
        ensures
            b.runner() == runner,
            b.files() == files,
            b.steps() == Seq::<SecretStep>::empty(),
    {
        RealBackend { ops: RealSecretOps::with_runner(runner), files, steps: Ghost(Seq::empty()) }
    }

    /// The command runner.
    pub closed spec fn runner(&self) -> R {
        self.ops.runner()
    }

    /// Every run the runner made so far.
    pub open spec fn runs(&self) -> Seq<RunRecord> {
        self.runner().runs()
    }

    /// The file steps.
    pub closed spec fn files(&self) -> KeyFiles<K, P, S> {
        self.files
    }

    /// The command steps.
    pub fn ops(&self) -> (o: &RealSecretOps<R>)
        ensures
            o.runner() == self.runner(),
    {
        &self.ops
    }
}

impl<
    R: CommandRunner,
    K: Fn() -> Result<(String, String), ClihatchError>,
    P: Fn(String) -> Result<Vec<DeployKey>, ClihatchError>,
    S: Fn(&str) -> Result<String, ClihatchError>,
> SecretOps for RealBackend<R, K, P, S> {
    open spec fn records_steps() -> bool {
        true
    }

    closed spec fn steps(&self) -> Seq<SecretStep> {
        self.steps@
    }

    fn preflight(&mut self, repo: &str) -> (r: Result<(), ClihatchError>)
        ensures
            R::records_runs() ==> preflight_runs(old(self).runs(), final(self).runs(), repo@, r),
    {
        let r = self.ops.preflight(repo);
        self.steps = Ghost(self.steps@.push(SecretStep::Preflight { repo: repo@, result: r }));
        r
    }

    fn set_secret(&mut self, repo: &str, name: &str, value: &str) -> (r: Result<(), ClihatchError>)
        ensures
            R::records_runs() ==> one_run(
                old(self).runs(),
                final(self).runs(),
                "gh"@,
                set_secret_args(repo@, name@),
                Some(value@),
            ) && settled("gh"@, final(self).runs().last().result, r),
    {
        let r = self.ops.set_secret(repo, name, value);
        self.steps = Ghost(
            self.steps@.push(
                SecretStep::SetSecret { repo: repo@, name: name@, value: value@, result: r },
            ),
        );
        r
    }

    fn generate_keypair(&mut self, comment: &str) -> (r: Result<(String, String), ClihatchError>)
        ensures
            R::records_runs() ==> keypair_runs(
                old(self).runs(),
                final(self).runs(),
                old(self).files().read_keys(),
                old(self).files().key_path(),
                comment@,
                r,
            ),
    {
        proof {
            use_type_invariant(&self.files);
        }
        let r = self.ops.generate_keypair(
            self.files.key_path.as_str(),
            comment,
            &self.files.read_keys,
        );
        self.steps = Ghost(
            self.steps@.push(
                SecretStep::GenerateKeypair { comment: comment@, result: keypair_view(r) },
            ),
        );
        r
    }

    fn add_deploy_key(&mut self, tap: &str, title: &str, public_key: &str) -> (r: Result<
        bool,
        ClihatchError,
    >)
        ensures
            R::records_runs() ==> deploy_key_runs(
                old(self).runs(),
                final(self).runs(),
                old(self).files().parse(),
                old(self).files().stage(),
                tap@,
                title@,
                public_key@,
                r,
            ),
    {
        proof {
            use_type_invariant(&self.files);
        }
        let r = self.ops.add_deploy_key(
            tap,
            title,
            public_key,
            &self.files.parse,
            &self.files.stage,
        );
        self.steps = Ghost(
            self.steps@.push(
                SecretStep::AddDeployKey {
                    tap: tap@,
                    title: title@,
                    public_key: public_key@,
                    result: r,
                },
            ),
        );
        r
    }
}

/// The three release secrets.
pub open spec fn is_release_secret(name: Seq<char>) -> bool {
    name == "CARGO_REGISTRY_TOKEN"@ || name == "HOMEBREW_TAP_DEPLOY_KEY"@ || name
        == "PYPI_API_TOKEN"@
}

/// Every release secret is either set or skipped, never both, and nothing
/// else is reported: the Homebrew deploy key is always set, and a token is
/// skipped exactly when it has no source.
pub proof fn release_secrets_partitioned(has_cargo: bool, has_pypi: bool)
    ensures
        planned_set(has_cargo, has_pypi).contains("HOMEBREW_TAP_DEPLOY_KEY"@),
        forall|name: Seq<char>|
            is_release_secret(name) ==> (#[trigger] planned_set(has_cargo, has_pypi).contains(name)
                != skipped_names(has_cargo, has_pypi).contains(name)),
        forall|name: Seq<char>|
            #[trigger] planned_set(has_cargo, has_pypi).contains(name) ==> is_release_secret(name),
        forall|name: Seq<char>|
            #[trigger] skipped_names(has_cargo, has_pypi).contains(name) ==> is_release_secret(name),
        planned_set(has_cargo, has_pypi).contains("CARGO_REGISTRY_TOKEN"@) <==> has_cargo,
        planned_set(has_cargo, has_pypi).contains("PYPI_API_TOKEN"@) <==> has_pypi,
{
    reveal_strlit("CARGO_REGISTRY_TOKEN");
    reveal_strlit("HOMEBREW_TAP_DEPLOY_KEY");
    reveal_strlit("PYPI_API_TOKEN");
    let c = "CARGO_REGISTRY_TOKEN"@;
    let h = "HOMEBREW_TAP_DEPLOY_KEY"@;
    let p = "PYPI_API_TOKEN"@;
    assert(c.len() == 20 && h.len() == 23 && p.len() == 14);
    assert(c != h && c != p && h != p);
    let set = planned_set(has_cargo, has_pypi);
    let skipped = skipped_names(has_cargo, has_pypi);
    if has_cargo && has_pypi {
        assert(set =~= seq![c, h, p]);
        assert(skipped =~= Seq::<Seq<char>>::empty());
        assert(set[0] == c && set[1] == h && set[2] == p);
    } else if has_cargo {
        assert(set =~= seq![c, h]);
        assert(skipped =~= seq![p]);
        assert(set[0] == c && set[1] == h && skipped[0] == p);
    } else if has_pypi {
        assert(set =~= seq![h, p]);
        assert(skipped =~= seq![c]);
        assert(set[0] == h && set[1] == p && skipped[0] == c);
    } else {
        assert(set =~= seq![h]);
        assert(skipped =~= seq![c, p]);
        assert(set[0] == h && skipped[0] == c && skipped[1] == p);
    }
}

/// The names of the secrets a run skips.
pub open spec fn skipped_names(has_cargo: bool, has_pypi: bool) -> Seq<Seq<char>> {
    planned_skipped(has_cargo, has_pypi).map_values(|k: (Seq<char>, Seq<char>)| k.0)
}

/// A dry run reports the same secrets as set and skipped as a real run from
/// the same sources.
pub proof fn dry_run_reports_what_a_run_sets(
    dry: SecretReport,
    actual: SecretReport,
    repo: Seq<char>,
    sources: Sources,
    rotated: bool,
)
    requires
        report_matches(dry, repo, sources, true, false),
        report_matches(actual, repo, sources, false, rotated),
    ensures
        strings_view(dry.set) == strings_view(actual.set),
        dry.skipped@.map_values(|k: Skip| skip_view(k)) == actual.skipped@.map_values(
            |k: Skip| skip_view(k),
        ),
        dry.notes@.len() == 0,
{
    assert(strings_view(dry.notes).len() == 0);
}

} // verus!
