//! The external-command seam, shared by the `secrets` and `github` backends.
//!
//! Callers hand a [`CommandRunner`] the exact argv and stdin; tests substitute
//! a recording runner, the application a real one.

use vstd::prelude::*;

use crate::error::ClihatchError;

verus! {

#[verifier::external_type_specification]
#[verifier::external_body]
pub struct ExIoError(std::io::Error);

/// The result of running an external command.
#[derive(Debug, Clone)]
pub struct CmdOutput {
    pub success: bool,
    pub stdout: String,
    pub stderr: String,
}

/// The views of argument slices.
pub open spec fn args_view(args: Seq<&str>) -> Seq<Seq<char>> {
    args.map_values(|a: &str| a@)
}

/// The view of an optional stdin.
pub open spec fn stdin_view(stdin: Option<&str>) -> Option<Seq<char>> {
    match stdin {
        Some(s) => Some(s@),
        None => None,
    }
}

/// One run of an external command as a runner records it: the program, its
/// arguments, its standard input, and how the run ended.
pub struct RunRecord {
    pub program: Seq<char>,
    pub args: Seq<Seq<char>>,
    pub stdin: Option<Seq<char>>,
    pub result: std::io::Result<CmdOutput>,
}

/// Runs external commands.
///
/// A runner that keeps a record of its runs says so with
/// [`records_runs`](CommandRunner::records_runs) and lists them in
/// [`runs`](CommandRunner::runs); what the library states of the runs it
/// makes holds of such runners. A runner that keeps no record leaves both
/// defaults.
pub trait CommandRunner {
    /// Whether runners of this type record their runs in `runs`.
    open spec fn records_runs() -> bool {
        false
    }

    /// Every run so far, oldest first.
    open spec fn runs(&self) -> Seq<RunRecord> {
        Seq::empty()
    }

    /// Run `program` with `args`, `stdin` on its standard input; the output
    /// when it ran to the end, else the I/O error that stopped it.
    fn run(&mut self, program: &str, args: &[&str], stdin: Option<&str>) -> (r: std::io::Result<
        CmdOutput,
    >)
        ensures
            Self::records_runs() ==> final(self).runs() == old(self).runs().push(
                (RunRecord {
                    program: program@,
                    args: args_view(args@),
                    stdin: stdin_view(stdin),
                    result: r,
                }),
            ),
    ;
}

/// `after` is `before` with one more run: `program` with `args` and `stdin`,
/// however it ended.
pub open spec fn one_run(
    before: Seq<RunRecord>,
    after: Seq<RunRecord>,
    program: Seq<char>,
    args: Seq<Seq<char>>,
    stdin: Option<Seq<char>>,
) -> bool {
    &&& after.len() == before.len() + 1
    &&& after == before.push((RunRecord { program, args, stdin, result: after.last().result }))
}

/// A run that ran to a successful end.
pub open spec fn succeeded(result: std::io::Result<CmdOutput>) -> bool {
    result matches Ok(out) && out.success
}

/// `e` is what a failed run of `tool` that ended in `result` amounts to: a
/// backend error of that tool carrying the run's stderr, or the text of the
/// I/O error that kept it from running.
pub open spec fn run_error(tool: Seq<char>, result: std::io::Result<CmdOutput>, e: ClihatchError) -> bool {
    &&& e is Backend
    &&& e->tool@ == tool
    &&& match result {
        Ok(out) => !out.success && e->Backend_message == out.stderr,
        Err(io) => vstd::string::to_string_from_display_ensures::<std::io::Error>(
            &io,
            e->Backend_message,
        ),
    }
}

/// `r` is what a run of `tool` that ended in `result` comes to: success
/// exactly when the run succeeded, else the run's error.
pub open spec fn settled<T>(
    tool: Seq<char>,
    result: std::io::Result<CmdOutput>,
    r: Result<T, ClihatchError>,
) -> bool {
    &&& r is Ok <==> succeeded(result)
    &&& r matches Err(e) ==> run_error(tool, result, e)
}

/// What a finished run of `tool` amounts to: its output when it succeeded,
/// else a backend error carrying its stderr.
pub open spec fn tool_outcome(tool: &'static str, out: CmdOutput) -> Result<CmdOutput, ClihatchError> {
    if out.success {
        Ok(out)
    } else {
        Err(ClihatchError::Backend { tool, message: out.stderr })
    }
}

/// Turns the result of running `tool` into the library's terms: an I/O
/// failure to run it becomes a backend error carrying the error's text;
/// otherwise the output is returned as it came.
pub fn spawn_result(tool: &'static str, res: std::io::Result<CmdOutput>) -> (r: Result<
    CmdOutput,
    ClihatchError,
>)
    ensures
        res is Ok ==> r == Ok::<CmdOutput, ClihatchError>(res->Ok_0),
        res is Err ==> r is Err && r->Err_0 is Backend && r->Err_0->tool == tool
            && vstd::string::to_string_from_display_ensures::<std::io::Error>(
            &res->Err_0,
            r->Err_0->Backend_message,
        ),
{
    match res {
        Ok(out) => Ok(out),
        Err(e) => Err(ClihatchError::backend(tool, e.to_string())),
    }
}

/// [`tool_outcome`], computed.
pub fn check_output(tool: &'static str, out: CmdOutput) -> (r: Result<CmdOutput, ClihatchError>)
    ensures
        r == tool_outcome(tool, out),
{
    if out.success {
        Ok(out)
    } else {
        Err(ClihatchError::backend(tool, out.stderr))
    }
}

/// The argument vector as string slices, element for element.
pub fn as_strs(args: &Vec<String>) -> (r: Vec<&str>)
    ensures
        r@.len() == args@.len(),
        forall|i: int| 0 <= i < args@.len() ==> #[trigger] r@[i]@ == args@[i]@,
{
    let mut r: Vec<&str> = Vec::new();
    let n = args.len();
    for i in 0..n
        invariant
            n == args@.len(),
            r@.len() == i,
            forall|j: int| 0 <= j < i ==> #[trigger] r@[j]@ == args@[j]@,
    {
        r.push(args[i].as_str());
    }
    r
}

} // verus!
