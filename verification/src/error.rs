//! Error type, the stable error `kind` set, and the exit-code contract.
//!
//! Exit codes:
//! - `2` an IO or git failure, or a failing external tool
//! - `3` usage error (bad arguments, or the target directory already exists)

use vstd::prelude::*;

use crate::text::concat;

verus! {

/// All failure modes of a clihatch run.
#[derive(Debug, PartialEq, Eq)]
pub enum ClihatchError {
    /// Invalid command-line arguments.
    Usage { message: String },
    /// The target directory already exists (clihatch never overwrites).
    Exists { path: String },
    /// A filesystem operation failed.
    Io { message: String },
    /// A git operation failed.
    Git { message: String },
    /// An external tool (gh, ssh-keygen) failed.
    Backend { tool: &'static str, message: String },
}

/// The stable kind identifier of an error.
pub open spec fn error_kind(e: ClihatchError) -> Seq<char> {
    match e {
        ClihatchError::Usage { .. } => "usage"@,
        ClihatchError::Exists { .. } => "exists"@,
        ClihatchError::Io { .. } => "io"@,
        ClihatchError::Git { .. } => "git"@,
        ClihatchError::Backend { .. } => "backend"@,
    }
}

/// The remediation hint of an error, where there is one.
pub open spec fn error_hint(e: ClihatchError) -> Option<Seq<char>> {
    match e {
        ClihatchError::Usage { .. } => Some("see `clihatch --help` or `clihatch schema`"@),
        ClihatchError::Exists { .. } => Some(
            "choose another name, or remove the existing directory"@,
        ),
        ClihatchError::Backend { .. } => Some(
            "ensure `gh` is installed and authenticated (`gh auth status`)"@,
        ),
        _ => None,
    }
}

/// The process exit code of an error.
pub open spec fn error_exit_code(e: ClihatchError) -> int {
    match e {
        ClihatchError::Io { .. } | ClihatchError::Git { .. } | ClihatchError::Backend { .. } => 2,
        ClihatchError::Usage { .. } | ClihatchError::Exists { .. } => 3,
    }
}

/// The human-readable message of an error.
pub open spec fn error_message(e: ClihatchError) -> Seq<char> {
    match e {
        ClihatchError::Usage { message } => message@,
        ClihatchError::Exists { path } => path@ + " already exists"@,
        ClihatchError::Io { message } => message@,
        ClihatchError::Git { message } => "git: "@ + message@,
        ClihatchError::Backend { tool, message } => tool@ + ": "@ + message@,
    }
}

/// The exit code that the published error table declares for each kind:
/// `usage` and `exists` exit with 3; `io`, `git` and `backend` with 2.
pub open spec fn declared_exit_code(kind: Seq<char>) -> Option<int> {
    if kind == "usage"@ || kind == "exists"@ {
        Some(3)
    } else if kind == "io"@ || kind == "git"@ || kind == "backend"@ {
        Some(2)
    } else {
        None
    }
}

/// One row of the published error table: an error kind, the exit code it
/// ends the process with, whether retrying can help, and what it means.
#[derive(Debug, Clone, Copy, PartialEq, Eq)]
pub struct ErrorEntry {
    pub kind: &'static str,
    pub exit_code: i32,
    pub retryable: bool,
    pub description: &'static str,
}

/// The kinds of the published error table, in order.
pub open spec fn table_kinds() -> Seq<Seq<char>> {
    seq!["usage"@, "exists"@, "io"@, "git"@, "backend"@]
}

/// The error table the contract publishes: every kind once, in
/// [`table_kinds`] order, each with its declared exit code, none retryable.
pub fn error_table() -> (t: Vec<ErrorEntry>)
    ensures
        t@.map_values(|e: ErrorEntry| e.kind@) == table_kinds(),
        forall|i: int|
            0 <= i < t@.len() ==> declared_exit_code(#[trigger] t@[i].kind@) == Some(
                t@[i].exit_code as int,
            ) && !t@[i].retryable,
{
    proof {
        reveal_strlit("usage");
        reveal_strlit("exists");
        reveal_strlit("io");
        reveal_strlit("git");
        reveal_strlit("backend");
    }
    let t = vec![
        ErrorEntry {
            kind: "usage",
            exit_code: 3,
            retryable: false,
            description: "Invalid command-line arguments or crate name.",
        },
        ErrorEntry {
            kind: "exists",
            exit_code: 3,
            retryable: false,
            description: "The target directory already exists.",
        },
        ErrorEntry {
            kind: "io",
            exit_code: 2,
            retryable: false,
            description: "A filesystem operation failed.",
        },
        ErrorEntry {
            kind: "git",
            exit_code: 2,
            retryable: false,
            description: "A git operation failed (the files were still written).",
        },
        ErrorEntry {
            kind: "backend",
            exit_code: 2,
            retryable: false,
            description: "An external tool (gh, ssh-keygen) failed; check `gh auth status`.",
        },
    ];
    assert(t@.map_values(|e: ErrorEntry| e.kind@) =~= table_kinds());
    assert("usage"@.len() == 5 && "exists"@.len() == 6 && "io"@.len() == 2);
    assert("git"@.len() == 3 && "backend"@.len() == 7);
    assert forall|i: int| 0 <= i < t@.len() implies declared_exit_code(#[trigger] t@[i].kind@)
        == Some(t@[i].exit_code as int) && !t@[i].retryable by {
        assert(i == 0 || i == 1 || i == 2 || i == 3 || i == 4);
    }
    t
}

/// Every error's kind has a row in the published table.
pub proof fn every_kind_is_in_the_table(e: ClihatchError)
    ensures
        table_kinds().contains(error_kind(e)),
{
    let k = table_kinds();
    assert(k[0] == "usage"@ && k[1] == "exists"@ && k[2] == "io"@ && k[3] == "git"@ && k[4]
        == "backend"@);
}

impl ClihatchError {
    /// A failure of the external tool `tool`.
    pub fn backend(tool: &'static str, message: String) -> (e: ClihatchError)
        ensures
            e == (ClihatchError::Backend { tool, message }),
    {
        ClihatchError::Backend { tool, message }
    }

    /// Stable snake_case identifier consumers branch on.
    pub fn kind(&self) -> (k: &'static str)
        ensures
            k@ == error_kind(*self),
    {
        match self {
            ClihatchError::Usage { .. } => "usage",
            ClihatchError::Exists { .. } => "exists",
            ClihatchError::Io { .. } => "io",
            ClihatchError::Git { .. } => "git",
            ClihatchError::Backend { .. } => "backend",
        }
    }

    /// Actionable remediation, when there is one.
    pub fn hint(&self) -> (h: Option<&'static str>)
        ensures
            h is Some <==> error_hint(*self) is Some,
            h is Some ==> h->0@ == error_hint(*self)->0,
    {
        match self {
            ClihatchError::Usage { .. } => Some("see `clihatch --help` or `clihatch schema`"),
            ClihatchError::Exists { .. } => Some(
                "choose another name, or remove the existing directory",
            ),
            ClihatchError::Backend { .. } => Some(
                "ensure `gh` is installed and authenticated (`gh auth status`)",
            ),
            _ => None,
        }
    }

    /// The process exit code associated with this error.
    pub fn exit_code(&self) -> (c: i32)
        ensures
            c == error_exit_code(*self),
    {
        match self {
            ClihatchError::Io { .. } | ClihatchError::Git { .. } | ClihatchError::Backend {
                ..
            } => 2,
            ClihatchError::Usage { .. } | ClihatchError::Exists { .. } => 3,
        }
    }

    /// The error's message, as its `Display` form shows it.
    pub fn to_string(&self) -> (s: String)
        ensures
            s@ == error_message(*self),
    {
        match self {
            ClihatchError::Usage { message } => message.clone(),
            ClihatchError::Exists { path } => concat(path.as_str(), " already exists"),
            ClihatchError::Io { message } => message.clone(),
            ClihatchError::Git { message } => concat("git: ", message.as_str()),
            ClihatchError::Backend { tool, message } => {
                let head = concat(tool, ": ");
                concat(head.as_str(), message.as_str())
            },
        }
    }
}

/// Every error exits with the code that the published error table declares
/// for its kind.
pub proof fn exit_code_matches_declared_table(e: ClihatchError)
    ensures
        declared_exit_code(error_kind(e)) == Some(error_exit_code(e)),
{
    reveal_strlit("usage");
    reveal_strlit("exists");
    reveal_strlit("io");
    reveal_strlit("git");
    reveal_strlit("backend");
    assert("usage"@.len() == 5 && "exists"@.len() == 6 && "io"@.len() == 2);
    assert("git"@.len() == 3 && "backend"@.len() == 7);
}

/// Two errors of the same kind exit with the same code, and carry the same
/// hint.
pub proof fn kind_determines_exit_code_and_hint(a: ClihatchError, b: ClihatchError)
    requires
        error_kind(a) == error_kind(b),
    ensures
        error_exit_code(a) == error_exit_code(b),
        error_hint(a) == error_hint(b),
{
    reveal_strlit("usage");
    reveal_strlit("exists");
    reveal_strlit("io");
    reveal_strlit("git");
    reveal_strlit("backend");
    assert("usage"@.len() == 5 && "exists"@.len() == 6 && "io"@.len() == 2);
    assert("git"@.len() == 3 && "backend"@.len() == 7);
}

} // verus!
