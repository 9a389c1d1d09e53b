//! The scaffolding engine's logic: substitution values and placeholder
//! rendering, the rendered file set, the git commands of the first commit,
//! and the outcome report.

use vstd::prelude::*;

use crate::error::ClihatchError;
use crate::process::{CmdOutput, CommandRunner, RunRecord, args_view, as_strs, succeeded};
use crate::text::{
    chars_of, concat, extend_chars, find_char, index_of, last_index_of, replace_all, replace_chars,
    range_equals, range_starts_with, rfind_char, starts_with, string_of, string_of_range,
    strings_view, trim, trim_range, trim_string,
};

verus! {

/// The uppercase mapping of `c` (one or more characters), as
/// `char::to_uppercase` yields it.
pub uninterp spec fn uppercase(c: char) -> Seq<char>;

/// The uppercase form of an ASCII character: `'a'..='z'` become `'A'..='Z'`,
/// every other character stays as it is.
pub open spec fn ascii_upper(c: char) -> char {
    if 'a' <= c <= 'z' {
        ((c as int) - 32) as char
    } else {
        c
    }
}

/// Every character of `s` is ASCII.
pub open spec fn is_ascii(s: Seq<char>) -> bool {
    forall|i: int| 0 <= i < s.len() ==> (#[trigger] s[i] as int) < 128
}

/// `char::to_uppercase`, collected. Its contract names the mapping and states
/// only the ASCII case, as std documents it: `'a'..='z'` map to `'A'..='Z'`,
/// and an ASCII character without an uppercase mapping maps to itself.
#[verifier::external_body]
fn to_uppercase(c: char) -> (r: Vec<char>)
    ensures
        r@ == uppercase(c),
        (c as int) < 128 ==> r@ == seq![ascii_upper(c)],
{
    c.to_uppercase().collect()
}

/// A name segment separator.
pub open spec fn is_separator(c: char) -> bool {
    c == '-' || c == '_'
}

/// `name` with every `-` replaced by `_`.
pub open spec fn snake_case(name: Seq<char>) -> Seq<char> {
    name.map_values(|c: char| if c == '-' { '_' } else { c })
}

/// The PascalCase form of `s`, where `at_start` says whether `s` begins a
/// segment: separators are dropped, and the first character of every segment
/// is upper-cased.
pub open spec fn pascal_from(s: Seq<char>, at_start: bool) -> Seq<char>
    decreases s.len(),
{
    if s.len() == 0 {
        Seq::empty()
    } else if is_separator(s[0]) {
        pascal_from(s.drop_first(), true)
    } else if at_start {
        uppercase(s[0]) + pascal_from(s.drop_first(), false)
    } else {
        seq![s[0]] + pascal_from(s.drop_first(), false)
    }
}

/// The PascalCase form of a name: its `-`/`_`-separated non-empty segments,
/// each capitalized, joined.
pub open spec fn pascal_case(name: Seq<char>) -> Seq<char> {
    pascal_from(name, true)
}

/// [`pascal_from`] of an ASCII `s`, where upper-casing is [`ascii_upper`].
pub open spec fn ascii_pascal_from(s: Seq<char>, at_start: bool) -> Seq<char>
    decreases s.len(),
{
    if s.len() == 0 {
        Seq::empty()
    } else if is_separator(s[0]) {
        ascii_pascal_from(s.drop_first(), true)
    } else if at_start {
        seq![ascii_upper(s[0])] + ascii_pascal_from(s.drop_first(), false)
    } else {
        seq![s[0]] + ascii_pascal_from(s.drop_first(), false)
    }
}

/// The PascalCase form of an ASCII name.
pub open spec fn ascii_pascal_case(name: Seq<char>) -> Seq<char> {
    ascii_pascal_from(name, true)
}

/// The PascalCase form of an ASCII name holds no separator.
pub proof fn ascii_pascal_has_no_separator(s: Seq<char>, at_start: bool)
    requires
        is_ascii(s),
    ensures
        forall|i: int|
            0 <= i < ascii_pascal_from(s, at_start).len() ==> !is_separator(
                #[trigger] ascii_pascal_from(s, at_start)[i],
            ),
    decreases s.len(),
{
    if s.len() > 0 {
        let rest = s.drop_first();
        assert(is_ascii(rest)) by {
            assert forall|i: int| 0 <= i < rest.len() implies (#[trigger] rest[i] as int) < 128 by {
                assert(rest[i] == s[i + 1]);
            }
        }
        ascii_pascal_has_no_separator(rest, true);
        ascii_pascal_has_no_separator(rest, false);
        assert((s[0] as int) < 128);
        if !is_separator(s[0]) {
            let head = if at_start {
                ascii_upper(s[0])
            } else {
                s[0]
            };
            let tail = ascii_pascal_from(rest, false);
            assert(ascii_pascal_from(s, at_start) == seq![head] + tail);
            assert(!is_separator(head));
            assert forall|i: int|
                0 <= i < ascii_pascal_from(s, at_start).len() implies !is_separator(
                #[trigger] ascii_pascal_from(s, at_start)[i],
            ) by {
                if i > 0 {
                    assert(ascii_pascal_from(s, at_start)[i] == tail[i - 1]);
                }
            }
        } else {
            assert(ascii_pascal_from(s, at_start) == ascii_pascal_from(rest, true));
        }
    }
}

/// Substitution values for one scaffold.
#[derive(Debug, Clone)]
pub struct Vars {
    pub name: String,
    pub name_snake: String,
    pub name_pascal: String,
    pub description: String,
    pub owner: String,
    pub author: String,
    pub year: String,
    /// Include the PyPI/maturin publishing files.
    pub pypi: bool,
}

/// What `Vars::apply` makes of `s`: each `{{placeholder}}` replaced, token by
/// token, in this order.
pub open spec fn apply_spec(v: Vars, s: Seq<char>) -> Seq<char> {
    let s1 = replace_all(s, "{{name_snake}}"@, v.name_snake@);
    let s2 = replace_all(s1, "{{name_pascal}}"@, v.name_pascal@);
    let s3 = replace_all(s2, "{{name}}"@, v.name@);
    let s4 = replace_all(s3, "{{description}}"@, v.description@);
    let s5 = replace_all(s4, "{{owner}}"@, v.owner@);
    let s6 = replace_all(s5, "{{author}}"@, v.author@);
    replace_all(s6, "{{year}}"@, v.year@)
}

fn replace_token(s: &Vec<char>, token: &str, value: &str) -> (r: Vec<char>)
    requires
        token@.len() > 0,
    ensures
        r@ == replace_all(s@, token@, value@),
{
    let pat = chars_of(token);
    let rep = chars_of(value);
    replace_chars(s, &pat, &rep)
}

fn snake_chars(name: &Vec<char>) -> (r: Vec<char>)
    ensures
        r@ == snake_case(name@),
{
    let mut r: Vec<char> = Vec::new();
    let n = name.len();
    for i in 0..n
        invariant
            n == name@.len(),
            r@ == snake_case(name@.take(i as int)),
    {
        let c = name[i];
        r.push(if c == '-' { '_' } else { c });
        assert(name@.take(i + 1) == name@.take(i as int).push(c));
        assert(snake_case(name@.take(i + 1)) =~= snake_case(name@.take(i as int)).push(
            if c == '-' { '_' } else { c },
        ));
    }
    assert(name@.take(n as int) == name@);
    r
}

fn pascal_chars(name: &Vec<char>) -> (r: Vec<char>)
    ensures
        r@ == pascal_case(name@),
        is_ascii(name@) ==> r@ == ascii_pascal_case(name@),
{
    let mut r: Vec<char> = Vec::new();
    let n = name.len();
    let mut at_start = true;
    let mut i: usize = 0;
    assert(name@.skip(0) == name@);
    while i < n
        invariant
            n == name@.len(),
            i <= n,
            r@ + pascal_from(name@.skip(i as int), at_start) == pascal_case(name@),
            is_ascii(name@) ==> r@ + ascii_pascal_from(name@.skip(i as int), at_start)
                == ascii_pascal_case(name@),
        decreases n - i,
    {
        let c = name[i];
        let ghost rest = name@.skip(i as int);
        assert(rest[0] == c);
        assert(rest.drop_first() == name@.skip(i + 1));
        if c == '-' || c == '_' {
            at_start = true;
        } else if at_start {
            let ghost before = r@;
            let u = to_uppercase(c);
            extend_chars(&mut r, &u);
            assert(r@ + pascal_from(name@.skip(i + 1), false) == pascal_case(name@));
            proof {
                if is_ascii(name@) {
                    assert((name@[i as int] as int) < 128);
                    assert(r@ == before + seq![ascii_upper(c)]);
                    assert(r@ + ascii_pascal_from(name@.skip(i + 1), false) == ascii_pascal_case(
                        name@,
                    ));
                }
            }
            at_start = false;
        } else {
            r.push(c);
            assert(r@ + pascal_from(name@.skip(i + 1), false) == pascal_case(name@));
            assert(is_ascii(name@) ==> r@ + ascii_pascal_from(name@.skip(i + 1), false)
                == ascii_pascal_case(name@));
        }
        i = i + 1;
    }
    assert(name@.skip(n as int) == Seq::<char>::empty());
    assert(r@ + Seq::<char>::empty() == r@);
    r
}

impl Vars {
    /// The values for a crate called `name`: its snake_case and PascalCase
    /// forms are derived from it. The PyPI files are included.
    pub fn new(name: &str, description: &str, owner: &str, author: &str, year: &str) -> (v: Vars)
        ensures
            v.name@ == name@,
            v.name_snake@ == snake_case(name@),
            v.name_pascal@ == pascal_case(name@),
            is_ascii(name@) ==> v.name_pascal@ == ascii_pascal_case(name@),
            v.description@ == description@,
            v.owner@ == owner@,
            v.author@ == author@,
            v.year@ == year@,
            v.pypi,
    {
        let chars = chars_of(name);
        let snake = snake_chars(&chars);
        let pascal = pascal_chars(&chars);
        Vars {
            name: name.to_owned(),
            name_snake: string_of(&snake),
            name_pascal: string_of(&pascal),
            description: description.to_owned(),
            owner: owner.to_owned(),
            author: author.to_owned(),
            year: year.to_owned(),
            pypi: true,
        }
    }

    /// Replace every `{{placeholder}}` in `s`.
    pub fn apply(&self, s: &str) -> (r: String)
        ensures
            r@ == apply_spec(*self, s@),
    {
        proof {
            reveal_strlit("{{name_snake}}");
            reveal_strlit("{{name_pascal}}");
            reveal_strlit("{{name}}");
            reveal_strlit("{{description}}");
            reveal_strlit("{{owner}}");
            reveal_strlit("{{author}}");
            reveal_strlit("{{year}}");
        }
        let s0 = chars_of(s);
        let s1 = replace_token(&s0, "{{name_snake}}", self.name_snake.as_str());
        let s2 = replace_token(&s1, "{{name_pascal}}", self.name_pascal.as_str());
        let s3 = replace_token(&s2, "{{name}}", self.name.as_str());
        let s4 = replace_token(&s3, "{{description}}", self.description.as_str());
        let s5 = replace_token(&s4, "{{owner}}", self.owner.as_str());
        let s6 = replace_token(&s5, "{{author}}", self.author.as_str());
        let s7 = replace_token(&s6, "{{year}}", self.year.as_str());
        string_of(&s7)
    }
}

/// The `(name, email)` parts of an author string `Name <email>`: the trimmed
/// text before the first `<` and between it and the last `>` (when that `>`
/// comes after the `<`); otherwise the whole trimmed string and no email.
pub open spec fn author_parts(author: Seq<char>) -> (Seq<char>, Seq<char>) {
    let open = index_of(author, '<');
    let close = last_index_of(author, '>');
    if open is Some && close is Some && close->0 > open->0 {
        (trim(author.take(open->0)), trim(author.subrange(open->0 + 1, close->0)))
    } else {
        (trim(author), Seq::empty())
    }
}

/// The commit identity for `author`: its parts, with safe placeholders for an
/// empty name or email.
pub open spec fn commit_identity(author: Seq<char>) -> (Seq<char>, Seq<char>) {
    let (name, email) = author_parts(author);
    (
        if name.len() == 0 { "clihatch"@ } else { name },
        if email.len() == 0 { "clihatch@users.noreply.github.com"@ } else { email },
    )
}

/// Split an `author` string of the form `Name <email>` into `(name, email)`,
/// falling back to safe placeholders so the commit always has an identity.
pub fn author_identity(author: &str) -> (r: (String, String))
    ensures
        r.0@ == commit_identity(author@).0,
        r.1@ == commit_identity(author@).1,
        r.0@.len() > 0,
        r.1@.len() > 0,
{
    proof {
        reveal_strlit("clihatch");
        reveal_strlit("clihatch@users.noreply.github.com");
    }
    let v = chars_of(author);
    let n = v.len();
    proof {
        crate::text::lemma_index_of(v@, '<');
        crate::text::lemma_last_index_of(v@, '>');
    }
    let open = find_char(&v, '<');
    let close = rfind_char(&v, '>');
    let (name_range, email_range) = match (open, close) {
        (Some(o), Some(c)) => {
            if c > o {
                assert(v@.subrange(0, o as int) == v@.take(o as int));
                (trim_range(&v, 0, o, false), trim_range(&v, o + 1, c, false))
            } else {
                assert(v@.subrange(0, n as int) == v@);
                (trim_range(&v, 0, n, false), (0, 0))
            }
        },
        _ => {
            assert(v@.subrange(0, n as int) == v@);
            (trim_range(&v, 0, n, false), (0, 0))
        },
    };
    let name = if name_range.0 == name_range.1 {
        "clihatch".to_owned()
    } else {
        string_of_range(&v, name_range.0, name_range.1)
    };
    let email = if email_range.0 == email_range.1 {
        "clihatch@users.noreply.github.com".to_owned()
    } else {
        string_of_range(&v, email_range.0, email_range.1)
    };
    (name, email)
}

/// The commit message of the first commit.
pub open spec fn scaffold_commit_message(name: Seq<char>) -> Seq<char> {
    "chore: scaffold "@ + name + " with clihatch"@
}

/// The git invocations that make the first commit, in order: `git init`, add
/// exactly the generated files (never `-A`), commit as the author's identity,
/// and force the branch to `main`.
pub open spec fn git_init_args(name: Seq<char>, author: Seq<char>, files: Seq<Seq<char>>) -> Seq<
    Seq<Seq<char>>,
> {
    let (commit_name, commit_email) = commit_identity(author);
    seq![
        seq!["init"@, "-q"@],
        seq!["add"@, "--"@] + files,
        seq![
            "-c"@,
            "user.name="@ + commit_name,
            "-c"@,
            "user.email="@ + commit_email,
            "commit"@,
            "-q"@,
            "-m"@,
            scaffold_commit_message(name),
        ],
        seq!["branch"@, "-M"@, "main"@],
    ]
}

/// `args` run in the directory `dir`: `git -C dir` followed by `args`.
pub open spec fn in_dir(dir: Seq<char>, args: Seq<Seq<char>>) -> Seq<Seq<char>> {
    seq!["-C"@, dir] + args
}

/// `e` is what a failed git run that ended in `result` amounts to: a git
/// error carrying git's trimmed stderr, or, when git could not run, the I/O
/// error's text after "could not run git: ".
pub open spec fn git_error(result: std::io::Result<CmdOutput>, e: ClihatchError) -> bool {
    &&& e is Git
    &&& match result {
        Ok(out) => !out.success && e->Git_message@ == trim(out.stderr@),
        Err(io) => exists|m: String|
            vstd::string::to_string_from_display_ensures::<std::io::Error>(&io, m)
                && e->Git_message@ == "could not run git: "@ + m@,
    }
}

/// The runs `after` appends to `before` in running the git `commands` in
/// `dir`, ending in `r`: the commands in order, each only after the ones
/// before it succeeded; the first failure ends it with its git error.
pub open spec fn git_runs(
    before: Seq<RunRecord>,
    after: Seq<RunRecord>,
    dir: Seq<char>,
    commands: Seq<Seq<Seq<char>>>,
    r: Result<(), ClihatchError>,
) -> bool {
    let new = after.skip(before.len() as int);
    &&& after.len() >= before.len()
    &&& after.take(before.len() as int) == before
    &&& new.len() <= commands.len()
    &&& forall|j: int|
        0 <= j < new.len() ==> #[trigger] new[j] == (RunRecord {
            program: "git"@,
            args: in_dir(dir, commands[j]),
            stdin: None,
            result: new[j].result,
        })
    &&& forall|j: int| 0 <= j < new.len() - 1 ==> succeeded(#[trigger] new[j].result)
    &&& r is Ok ==> new.len() == commands.len() && (new.len() == 0 || succeeded(new.last().result))
    &&& r matches Err(e) ==> new.len() > 0 && git_error(new.last().result, e)
}

/// What a finished git run means: success, or a git error with its trimmed
/// stderr.
fn git_outcome(res: std::io::Result<CmdOutput>) -> (r: Result<(), ClihatchError>)
    ensures
        r is Ok <==> succeeded(res),
        r matches Err(e) ==> git_error(res, e),
{
    match res {
        Ok(out) => {
            if out.success {
                Ok(())
            } else {
                Err(ClihatchError::Git { message: trim_string(out.stderr.as_str()) })
            }
        },
        Err(e) => {
            let m = e.to_string();
            Err(ClihatchError::Git { message: concat("could not run git: ", m.as_str()) })
        },
    }
}

/// Run the git `commands` in `dir` through `runner`, in order, stopping at
/// the first failure with its git error; see [`git_runs`].
pub fn run_git_commands<R: CommandRunner>(
    runner: &mut R,
    dir: &str,
    commands: &Vec<Vec<String>>,
) -> (r: Result<(), ClihatchError>)
    ensures
        r matches Err(e) ==> e is Git,
        R::records_runs() ==> git_runs(
            old(runner).runs(),
            final(runner).runs(),
            dir@,
            commands@.map_values(|c: Vec<String>| strings_view(c)),
            r,
        ),
{
    let ghost start = runner.runs();
    let ghost cmds = commands@.map_values(|c: Vec<String>| strings_view(c));
    let n = commands.len();
    for i in 0..n
        invariant
            n == commands@.len(),
            cmds == commands@.map_values(|c: Vec<String>| strings_view(c)),
            start == old(runner).runs(),
            R::records_runs() ==> {
                &&& runner.runs().len() == start.len() + i
                &&& runner.runs().take(start.len() as int) == start
                &&& forall|j: int|
                    0 <= j < i ==> #[trigger] runner.runs().skip(start.len() as int)[j] == (
                    RunRecord {
                        program: "git"@,
                        args: in_dir(dir@, cmds[j]),
                        stdin: None,
                        result: runner.runs().skip(start.len() as int)[j].result,
                    })
                &&& forall|j: int|
                    0 <= j < i ==> succeeded(
                        #[trigger] runner.runs().skip(start.len() as int)[j].result,
                    )
            },
    {
        let mut argv: Vec<String> = vec!["-C".to_owned(), dir.to_owned()];
        assert(strings_view(argv) =~= seq!["-C"@, dir@] + strings_view(commands@[i as int]).take(0));
        let cmd = &commands[i];
        let m = cmd.len();
        for k in 0..m
            invariant
                m == cmd@.len(),
                strings_view(argv) == seq!["-C"@, dir@] + strings_view(*cmd).take(k as int),
        {
            let ghost before = argv@;
            argv.push(cmd[k].clone());
            assert(argv@ == before.push(cmd@[k as int]));
            assert(strings_view(argv) =~= before.map_values(|a: String| a@).push(cmd@[k as int]@));
            assert(strings_view(*cmd).take(k + 1) == strings_view(*cmd).take(k as int).push(
                cmd@[k as int]@,
            ));
            assert(strings_view(argv) =~= seq!["-C"@, dir@] + strings_view(*cmd).take(k + 1));
        }
        assert(strings_view(*cmd).take(m as int) == strings_view(*cmd));
        let args = as_strs(&argv);
        let slice = args.as_slice();
        assert(args_view(slice@) =~= in_dir(dir@, cmds[i as int]));
        let ghost before = runner.runs();
        let res = runner.run("git", slice, None);
        let outcome = git_outcome(res);
        proof {
            if R::records_runs() {
                let old_new = before.skip(start.len() as int);
                let new = runner.runs().skip(start.len() as int);
                assert(new == old_new.push(runner.runs().last()));
                assert(runner.runs().take(start.len() as int) == start);
                assert forall|j: int| 0 <= j < i + 1 implies #[trigger] new[j] == (RunRecord {
                    program: "git"@,
                    args: in_dir(dir@, cmds[j]),
                    stdin: None,
                    result: new[j].result,
                }) by {
                    if j < i {
                        assert(new[j] == old_new[j]);
                    }
                }
                assert forall|j: int| 0 <= j < i implies succeeded(#[trigger] new[j].result) by {
                    assert(new[j] == old_new[j]);
                }
            }
        }
        match outcome {
            Ok(()) => {},
            Err(e) => {
                return Err(e);
            },
        }
    }
    proof {
        if R::records_runs() && n > 0 {
            assert(succeeded(runner.runs().skip(start.len() as int)[n - 1].result));
        }
    }
    Ok(())
}

/// [`git_init_args`], computed: the argument vectors of the git commands that
/// make the first commit of the scaffold named `name`.
pub fn git_init_commands(name: &str, author: &str, files: &Vec<String>) -> (r: Vec<Vec<String>>)
    ensures
        r@.len() == 4,
        forall|i: int| 0 <= i < 4 ==> strings_view(#[trigger] r@[i]) == git_init_args(
            name@,
            author@,
            strings_view(*files),
        )[i],
{
    let init = vec!["init".to_owned(), "-q".to_owned()];
    let mut add = vec!["add".to_owned(), "--".to_owned()];
    let n = files.len();
    for i in 0..n
        invariant
            n == files@.len(),
            strings_view(add) == seq!["add"@, "--"@] + strings_view(*files).take(i as int),
    {
        let ghost before = add@;
        add.push(files[i].clone());
        assert(add@ == before.push(files@[i as int]));
        assert(strings_view(add) =~= before.map_values(|a: String| a@).push(files@[i as int]@));
        assert(strings_view(*files).take(i + 1) == strings_view(*files).take(i as int).push(
            files@[i as int]@,
        ));
        assert(strings_view(add) =~= seq!["add"@, "--"@] + strings_view(*files).take(i + 1));
    }
    assert(strings_view(*files).take(n as int) == strings_view(*files));
    let (commit_name, commit_email) = author_identity(author);
    let head = concat("chore: scaffold ", name);
    let message = concat(head.as_str(), " with clihatch");
    let commit = vec![
        "-c".to_owned(),
        concat("user.name=", commit_name.as_str()),
        "-c".to_owned(),
        concat("user.email=", commit_email.as_str()),
        "commit".to_owned(),
        "-q".to_owned(),
        "-m".to_owned(),
        message,
    ];
    let branch = vec!["branch".to_owned(), "-M".to_owned(), "main".to_owned()];
    let r = vec![init, add, commit, branch];
    let ghost spec = git_init_args(name@, author@, strings_view(*files));
    assert(strings_view(r@[0]) =~= spec[0]);
    assert(strings_view(r@[1]) =~= spec[1]);
    assert(strings_view(r@[2]) =~= spec[2]);
    assert(strings_view(r@[3]) =~= spec[3]);
    r
}

/// What was created.
#[derive(Debug, Clone, PartialEq, Eq)]
pub struct Outcome {
    pub name: String,
    /// The GitHub owner the next steps target (`owner/name`).
    pub owner: String,
    pub dir: String,
    pub files: Vec<String>,
    pub committed: bool,
    /// The `owner/name` of the GitHub repo created with `--github`, if any.
    pub repo: Option<String>,
}

/// The outcome of scaffolding `vars` into `dir`, having written `files`; no
/// repo is created yet.
pub fn outcome_of(vars: &Vars, dir: String, files: Vec<String>, committed: bool) -> (o: Outcome)
    ensures
        o.name@ == vars.name@,
        o.owner@ == vars.owner@,
        o.dir == dir,
        o.files == files,
        o.committed == committed,
        o.repo is None,
{
    Outcome {
        name: vars.name.clone(),
        owner: vars.owner.clone(),
        dir,
        files,
        committed,
        repo: None,
    }
}

/// One embedded template: its path below the template root, and its
/// contents when they are valid UTF-8.
#[derive(Debug, Clone)]
pub struct TemplateFile {
    pub path: String,
    pub contents: Option<String>,
}

/// One file of the new crate: its path below the crate root, and its
/// contents.
#[derive(Debug, Clone, PartialEq, Eq)]
pub struct RenderedFile {
    pub path: String,
    pub contents: String,
}

/// The path a template is written to: its own, without a `.tmpl` suffix.
pub open spec fn output_path(path: Seq<char>) -> Seq<char> {
    if path.len() >= 5 && path.skip(path.len() - 5) == ".tmpl"@ {
        path.take(path.len() - 5)
    } else {
        path
    }
}

/// Whether the file at `path` belongs to the crate: the PyPI packaging file
/// only when the PyPI pipeline is included.
pub open spec fn included(vars: Vars, path: Seq<char>) -> bool {
    vars.pypi || path != "pyproject.toml"@
}

/// The message of a template that is not UTF-8.
pub open spec fn invalid_template_message(path: Seq<char>) -> Seq<char> {
    "template "@ + path + " is not valid UTF-8"@
}

/// The files rendered from `templates`, in order, up to the first included
/// template that is not UTF-8: each at its output path, with its conditional
/// sections resolved, then its placeholders substituted.
pub open spec fn rendered_files(vars: Vars, templates: Seq<TemplateFile>) -> Seq<
    (Seq<char>, Seq<char>),
>
    decreases templates.len(),
{
    if templates.len() == 0 {
        Seq::empty()
    } else {
        let t = templates[0];
        let out = output_path(t.path@);
        if !included(vars, out) {
            rendered_files(vars, templates.drop_first())
        } else {
            match t.contents {
                Some(c) => seq![(out, apply_spec(vars, render_sections(c@, vars.pypi)))] + rendered_files(
                    vars,
                    templates.drop_first(),
                ),
                None => Seq::empty(),
            }
        }
    }
}

/// With the PyPI pipeline included, every template is rendered: when all
/// templates are UTF-8, there is one file per template, each at the
/// template's output path, in order (the PyPI packaging file among them).
pub proof fn pypi_scaffold_renders_every_template(vars: Vars, templates: Seq<TemplateFile>)
    requires
        vars.pypi,
        forall|i: int| 0 <= i < templates.len() ==> (#[trigger] templates[i]).contents is Some,
    ensures
        rendered_files(vars, templates).len() == templates.len(),
        forall|i: int|
            0 <= i < templates.len() ==> #[trigger] rendered_files(vars, templates)[i].0
                == output_path(templates[i].path@),
    decreases templates.len(),
{
    if templates.len() > 0 {
        let rest = templates.drop_first();
        assert forall|i: int| 0 <= i < rest.len() implies (#[trigger] rest[i]).contents is Some by {
            assert(rest[i] == templates[i + 1]);
        }
        pypi_scaffold_renders_every_template(vars, rest);
        let r = rendered_files(vars, templates);
        assert forall|i: int| 0 <= i < templates.len() implies #[trigger] r[i].0 == output_path(
            templates[i].path@,
        ) by {
            if i > 0 {
                assert(r[i] == rendered_files(vars, rest)[i - 1]);
                assert(rest[i - 1] == templates[i]);
            }
        }
    }
}

/// Without the PyPI pipeline, no rendered file is the PyPI packaging file.
pub proof fn no_pyproject_without_pypi(vars: Vars, templates: Seq<TemplateFile>)
    requires
        !vars.pypi,
    ensures
        forall|i: int|
            0 <= i < rendered_files(vars, templates).len() ==> #[trigger] rendered_files(
                vars,
                templates,
            )[i].0 != "pyproject.toml"@,
    decreases templates.len(),
{
    if templates.len() > 0 {
        let rest = templates.drop_first();
        no_pyproject_without_pypi(vars, rest);
        let r = rendered_files(vars, templates);
        let out = output_path(templates[0].path@);
        if included(vars, out) && templates[0].contents is Some {
            assert forall|i: int| 0 <= i < r.len() implies #[trigger] r[i].0 != "pyproject.toml"@ by {
                if i > 0 {
                    assert(r[i] == rendered_files(vars, rest)[i - 1]);
                }
            }
        } else if !included(vars, out) {
            assert(r == rendered_files(vars, rest));
        }
    }
}

/// The path of the first included template that is not UTF-8, if any.
pub open spec fn invalid_template(vars: Vars, templates: Seq<TemplateFile>) -> Option<Seq<char>>
    decreases templates.len(),
{
    if templates.len() == 0 {
        None
    } else {
        let t = templates[0];
        let out = output_path(t.path@);
        if !included(vars, out) {
            invalid_template(vars, templates.drop_first())
        } else {
            match t.contents {
                Some(_) => invalid_template(vars, templates.drop_first()),
                None => Some(t.path@),
            }
        }
    }
}

/// The view of a rendered file.
pub open spec fn rendered_view(f: RenderedFile) -> (Seq<char>, Seq<char>) {
    (f.path@, f.contents@)
}

fn output_path_of(path: &String) -> (r: String)
    ensures
        r@ == output_path(path@),
{
    let v = chars_of(path.as_str());
    let n = v.len();
    let suffix = chars_of(".tmpl");
    proof {
        reveal_strlit(".tmpl");
    }
    if n >= 5 && range_equals(&v, n - 5, n, &suffix) {
        assert(v@.subrange(n - 5, n as int) == v@.skip(n - 5));
        assert(v@.subrange(0, n - 5) == v@.take(n - 5));
        string_of_range(&v, 0, n - 5)
    } else {
        if n >= 5 {
            assert(v@.subrange(n - 5, n as int) == v@.skip(n - 5));
        }
        path.clone()
    }
}

/// Render the embedded templates for a new crate: every included template
/// (see [`included`]) at its output path, its sections resolved
/// ([`render_sections`]) and its placeholders substituted, in order.
/// The first included template that is not UTF-8 stops the rendering: the
/// files before it are returned with an I/O error naming it.
pub fn render_templates(vars: &Vars, templates: &Vec<TemplateFile>) -> (r: (
    Vec<RenderedFile>,
    Option<ClihatchError>,
))
    ensures
        r.0@.map_values(|f: RenderedFile| rendered_view(f)) == rendered_files(*vars, templates@),
        r.1 is Some <==> invalid_template(*vars, templates@) is Some,
        r.1 matches Some(e) ==> e is Io && e->Io_message@ == invalid_template_message(
            invalid_template(*vars, templates@)->0,
        ),
{
    let mut files: Vec<RenderedFile> = Vec::new();
    let n = templates.len();
    let pyproject = chars_of("pyproject.toml");
    let ghost all = templates@;
    assert(all.skip(0) == all);
    for i in 0..n
        invariant
            n == templates@.len(),
            all == templates@,
            pyproject@ == "pyproject.toml"@,
            files@.map_values(|f: RenderedFile| rendered_view(f)) + rendered_files(
                *vars,
                all.skip(i as int),
            ) == rendered_files(*vars, all),
            invalid_template(*vars, all.skip(i as int)) == invalid_template(*vars, all),
    {
        let t = &templates[i];
        let ghost rest = all.skip(i as int);
        assert(rest[0] == *t);
        assert(rest.drop_first() == all.skip(i + 1));
        let out = output_path_of(&t.path);
        let oc = chars_of(out.as_str());
        let is_pyproject = range_equals(&oc, 0, oc.len(), &pyproject);
        assert(oc@.subrange(0, oc@.len() as int) == oc@);
        if vars.pypi || !is_pyproject {
            match &t.contents {
                Some(c) => {
                    let ghost before = files@.map_values(|f: RenderedFile| rendered_view(f));
                    let sectioned = string_of(&resolve_sections(c.as_str(), vars.pypi));
                    let rendered = RenderedFile { path: out, contents: vars.apply(sectioned.as_str()) };
                    files.push(rendered);
                    assert(files@.map_values(|f: RenderedFile| rendered_view(f)) =~= before.push(
                        rendered_view(rendered),
                    ));
                    assert(before.push(rendered_view(rendered)) + rendered_files(*vars, rest.drop_first())
                        =~= before + rendered_files(*vars, rest));
                },
                None => {
                    let head = concat("template ", t.path.as_str());
                    let message = concat(head.as_str(), " is not valid UTF-8");
                    assert(rendered_files(*vars, rest) == Seq::<(Seq<char>, Seq<char>)>::empty());
                    assert(files@.map_values(|f: RenderedFile| rendered_view(f)) =~= files@.map_values(
                        |f: RenderedFile| rendered_view(f),
                    ) + Seq::<(Seq<char>, Seq<char>)>::empty());
                    return (files, Some(ClihatchError::Io { message }));
                },
            }
        }
    }
    assert(all.skip(n as int) == Seq::<TemplateFile>::empty());
    assert(files@.map_values(|f: RenderedFile| rendered_view(f)) =~= files@.map_values(
        |f: RenderedFile| rendered_view(f),
    ) + Seq::<(Seq<char>, Seq<char>)>::empty());
    (files, None)
}

/// The position of the first occurrence of `pat` in `s`.
pub open spec fn find_seq(s: Seq<char>, pat: Seq<char>) -> Option<int>
    decreases s.len(),
{
    if s.len() < pat.len() {
        None
    } else if s.take(pat.len() as int) == pat {
        Some(0)
    } else if s.len() == 0 {
        None
    } else {
        match find_seq(s.drop_first(), pat) {
            Some(k) => Some(k + 1),
            None => None,
        }
    }
}

/// `find_seq` finds the first occurrence; `None` means there is none.
proof fn lemma_find_seq(s: Seq<char>, pat: Seq<char>)
    ensures
        match find_seq(s, pat) {
            Some(k) => 0 <= k && k + pat.len() <= s.len() && s.subrange(k, k + pat.len()) == pat
                && forall|j: int| 0 <= j < k ==> #[trigger] s.subrange(j, j + pat.len()) != pat,
            None => forall|j: int|
                0 <= j && j + pat.len() <= s.len() ==> #[trigger] s.subrange(j, j + pat.len())
                    != pat,
        },
    decreases s.len(),
{
    if s.len() >= pat.len() {
        assert(s.take(pat.len() as int) == s.subrange(0int, 0int + pat.len()));
        if s.len() == 0 {
            assert(s.take(pat.len() as int) =~= pat);
        }
        if s.take(pat.len() as int) != pat && s.len() > 0 {
            let t = s.drop_first();
            lemma_find_seq(t, pat);
            assert forall|j: int| 0 <= j && j + pat.len() <= t.len() implies #[trigger] t.subrange(
                j,
                j + pat.len(),
            ) == s.subrange(j + 1, j + 1 + pat.len()) by {
                assert(t.subrange(j, j + pat.len()) =~= s.subrange(j + 1, j + 1 + pat.len()));
            }
            match find_seq(t, pat) {
                Some(k) => {
                    assert(t.subrange(k, k + pat.len()) =~= s.subrange(k + 1, k + 1 + pat.len()));
                    assert forall|j: int| 0 <= j < k + 1 implies #[trigger] s.subrange(
                        j,
                        j + pat.len(),
                    ) != pat by {
                        if j > 0 {
                            assert(t.subrange(j - 1, j - 1 + pat.len()) =~= s.subrange(
                                j,
                                j + pat.len(),
                            ));
                        }
                    }
                },
                None => {
                    assert forall|j: int| 0 <= j && j + pat.len() <= s.len() implies #[trigger] s.subrange(
                        j,
                        j + pat.len(),
                    ) != pat by {
                        if j > 0 {
                            assert(t.subrange(j - 1, j - 1 + pat.len()) =~= s.subrange(
                                j,
                                j + pat.len(),
                            ));
                        }
                    }
                },
            }
        }
    }
}

/// The first occurrence of `pat` in `v[start..]`, as a position in `v`.
fn find_from(v: &Vec<char>, start: usize, pat: &Vec<char>) -> (r: Option<usize>)
    requires
        start <= v@.len(),
        pat@.len() > 0,
    ensures
        r matches Some(k) ==> start <= k && find_seq(v@.skip(start as int), pat@) == Some(
            k - start,
        ),
        r is None ==> find_seq(v@.skip(start as int), pat@) is None,
{
    let ghost t = v@.skip(start as int);
    proof {
        lemma_find_seq(t, pat@);
    }
    let n = v.len();
    let m = pat.len();
    let mut j = start;
    while m <= n - j
        invariant
            m > 0,
            start <= j <= n,
            n == v@.len(),
            m == pat@.len(),
            t == v@.skip(start as int),
            forall|q: int| 0 <= q < j - start ==> #[trigger] t.subrange(q, q + m) != pat@,
            match find_seq(t, pat@) {
                Some(k) => 0 <= k && k + m <= t.len() && t.subrange(k, k + m) == pat@
                    && forall|q: int| 0 <= q < k ==> #[trigger] t.subrange(q, q + m) != pat@,
                None => forall|q: int|
                    0 <= q && q + m <= t.len() ==> #[trigger] t.subrange(q, q + m) != pat@,
            },
        decreases n - j,
    {
        let hit = range_starts_with(v, j, n, pat);
        assert(v@.subrange(j as int, n as int).take(m as int) == t.subrange(
            j - start,
            j - start + m,
        ));
        if hit {
            return Some(j);
        }
        j = j + 1;
    }
    None
}

/// The opening tag of a section kept only with the PyPI pipeline.
pub open spec fn pypi_open() -> Seq<char> {
    "{{#pypi}}"@
}

/// The opening tag of a section kept only without the PyPI pipeline.
pub open spec fn pypi_inverted() -> Seq<char> {
    "{{^pypi}}"@
}

/// The closing tag of either section.
pub open spec fn pypi_close() -> Seq<char> {
    "{{/pypi}}"@
}

/// `s` with its conditional sections resolved: the text between
/// `{{#pypi}}` and the next `{{/pypi}}` is kept only when `pypi` holds, the
/// text between `{{^pypi}}` and the next `{{/pypi}}` only when it does not,
/// and the tags themselves are dropped. A tag that no closing tag follows
/// stays as it is.
pub open spec fn render_sections(s: Seq<char>, pypi: bool) -> Seq<char>
    decreases s.len(),
{
    if s.len() == 0 {
        s
    } else {
        let open = starts_with(s, pypi_open());
        let inverted = starts_with(s, pypi_inverted());
        let body = s.skip(9);
        let close = find_seq(body, pypi_close());
        if (open || inverted) && s.len() >= 9 && close is Some && 0 <= close->0 && close->0 + 9
            <= body.len() {
            let keep = if open {
                pypi
            } else {
                !pypi
            };
            (if keep {
                body.take(close->0)
            } else {
                Seq::empty()
            }) + render_sections(body.skip(close->0 + 9), pypi)
        } else {
            seq![s[0]] + render_sections(s.drop_first(), pypi)
        }
    }
}

/// Resolve the conditional sections of `s` (see [`render_sections`]).
pub fn resolve_sections(s: &str, pypi: bool) -> (r: Vec<char>)
    ensures
        r@ == render_sections(s@, pypi),
{
    proof {
        reveal_strlit("{{#pypi}}");
        reveal_strlit("{{^pypi}}");
        reveal_strlit("{{/pypi}}");
    }
    let v = chars_of(s);
    let open_tag = chars_of("{{#pypi}}");
    let inverted_tag = chars_of("{{^pypi}}");
    let close_tag = chars_of("{{/pypi}}");
    let n = v.len();
    let mut out: Vec<char> = Vec::new();
    let mut i: usize = 0;
    assert(v@.skip(0) == v@);
    while i < n
        invariant
            n == v@.len(),
            i <= n,
            open_tag@ == pypi_open(),
            inverted_tag@ == pypi_inverted(),
            close_tag@ == pypi_close(),
            pypi_open().len() == 9 && pypi_inverted().len() == 9 && pypi_close().len() == 9,
            out@ + render_sections(v@.skip(i as int), pypi) == render_sections(s@, pypi),
            v@ == s@,
        decreases n - i,
    {
        let ghost rest = v@.skip(i as int);
        assert(v@.subrange(i as int, n as int) == rest);
        let is_open = range_starts_with(&v, i, n, &open_tag);
        let is_inverted = range_starts_with(&v, i, n, &inverted_tag);
        let mut close: Option<usize> = None;
        if (is_open || is_inverted) && n - i >= 9 {
            close = find_from(&v, i + 9, &close_tag);
            assert(rest.skip(9) == v@.skip(i + 9));
        }
        match close {
            Some(c) => {
                proof {
                    lemma_find_seq(v@.skip(i + 9), close_tag@);
                }
                let keep = if is_open {
                    pypi
                } else {
                    !pypi
                };
                let ghost before = out@;
                if keep {
                    let mut j = i + 9;
                    while j < c
                        invariant
                            i + 9 <= j <= c,
                            c + 9 <= n,
                            n == v@.len(),
                            out@ == before + v@.subrange(i + 9, j as int),
                        decreases c - j,
                    {
                        out.push(v[j]);
                        assert(v@.subrange(i + 9, j + 1) == v@.subrange(i + 9, j as int).push(
                            v@[j as int],
                        ));
                        j = j + 1;
                    }
                }
                proof {
                    let body = rest.skip(9);
                    let k = (c - (i + 9)) as int;
                    assert(body.take(k) == v@.subrange(i + 9, c as int));
                    assert(body.skip(k + 9) == v@.skip(c + 9));
                    assert(out@ == before + if keep {
                        body.take(k)
                    } else {
                        Seq::<char>::empty()
                    });
                    assert(render_sections(rest, pypi) == (if keep {
                        body.take(k)
                    } else {
                        Seq::<char>::empty()
                    }) + render_sections(body.skip(k + 9), pypi));
                    assert(out@ + render_sections(v@.skip(c + 9), pypi) =~= before
                        + render_sections(rest, pypi));
                }
                i = c + 9;
            },
            None => {
                let ghost before = out@;
                out.push(v[i]);
                proof {
                    if (is_open || is_inverted) && n - i >= 9 {
                        assert(find_seq(rest.skip(9), pypi_close()) is None);
                    }
                    assert(rest.drop_first() == v@.skip(i + 1));
                    assert(render_sections(rest, pypi) == seq![v@[i as int]] + render_sections(
                        rest.drop_first(),
                        pypi,
                    ));
                    assert(out@ + render_sections(v@.skip(i + 1), pypi) =~= before
                        + render_sections(rest, pypi));
                }
                i = i + 1;
            },
        }
    }
    assert(v@.skip(n as int) == Seq::<char>::empty());
    assert(out@ + Seq::<char>::empty() == out@);
    out
}

/// `s` holds no brace.
pub open spec fn brace_free(s: Seq<char>) -> bool {
    forall|i: int| 0 <= i < s.len() ==> #[trigger] s[i] != '{' && s[i] != '}'
}

/// `s` is a placeholder token: `{{` and `}}` around a brace-free word.
pub open spec fn is_placeholder(s: Seq<char>) -> bool {
    &&& s.len() >= 4
    &&& s[0] == '{' && s[1] == '{'
    &&& s[s.len() - 2] == '}' && s[s.len() - 1] == '}'
    &&& forall|i: int| 2 <= i < s.len() - 2 ==> #[trigger] s[i] != '{' && s[i] != '}'
}

/// A pattern that occurs nowhere in `s` leaves it unchanged.
proof fn lemma_replace_unmatched(s: Seq<char>, pat: Seq<char>, rep: Seq<char>)
    requires
        pat.len() > 0,
        forall|k: int|
            0 <= k && k + pat.len() <= s.len() ==> #[trigger] s.subrange(k, k + pat.len()) != pat,
    ensures
        replace_all(s, pat, rep) == s,
    decreases s.len(),
{
    if s.len() >= pat.len() {
        assert(s.subrange(0int, 0int + pat.len()) != pat);
        assert(s.take(pat.len() as int) == s.subrange(0int, 0int + pat.len()));
        let t = s.drop_first();
        assert forall|k: int| 0 <= k && k + pat.len() <= t.len() implies #[trigger] t.subrange(
            k,
            k + pat.len(),
        ) != pat by {
            assert(t.subrange(k, k + pat.len()) == s.subrange(k + 1, k + 1 + pat.len()));
        }
        lemma_replace_unmatched(t, pat, rep);
        assert(s =~= seq![s[0]] + t);
    }
}

/// A pattern that begins with a brace leaves brace-free text unchanged.
pub proof fn lemma_replace_brace_free(s: Seq<char>, pat: Seq<char>, rep: Seq<char>)
    requires
        brace_free(s),
        pat.len() > 0,
        pat[0] == '{',
    ensures
        replace_all(s, pat, rep) == s,
{
    assert forall|k: int| 0 <= k && k + pat.len() <= s.len() implies #[trigger] s.subrange(
        k,
        k + pat.len(),
    ) != pat by {
        assert(s.subrange(k, k + pat.len())[0] == s[k]);
    }
    lemma_replace_unmatched(s, pat, rep);
}

/// Text without braces renders unchanged.
pub proof fn apply_leaves_brace_free_text(vars: Vars, s: Seq<char>)
    requires
        brace_free(s),
    ensures
        apply_spec(vars, s) == s,
{
    reveal_strlit("{{name_snake}}");
    reveal_strlit("{{name_pascal}}");
    reveal_strlit("{{name}}");
    reveal_strlit("{{description}}");
    reveal_strlit("{{owner}}");
    reveal_strlit("{{author}}");
    reveal_strlit("{{year}}");
    lemma_replace_brace_free(s, "{{name_snake}}"@, vars.name_snake@);
    lemma_replace_brace_free(s, "{{name_pascal}}"@, vars.name_pascal@);
    lemma_replace_brace_free(s, "{{name}}"@, vars.name@);
    lemma_replace_brace_free(s, "{{description}}"@, vars.description@);
    lemma_replace_brace_free(s, "{{owner}}"@, vars.owner@);
    lemma_replace_brace_free(s, "{{author}}"@, vars.author@);
    lemma_replace_brace_free(s, "{{year}}"@, vars.year@);
}

proof fn lemma_tokens_are_placeholders()
    ensures
        is_placeholder("{{name_snake}}"@),
        is_placeholder("{{name_pascal}}"@),
        is_placeholder("{{name}}"@),
        is_placeholder("{{description}}"@),
        is_placeholder("{{owner}}"@),
        is_placeholder("{{author}}"@),
        is_placeholder("{{year}}"@),
        "{{name_snake}}"@.len() == 14,
        "{{name_pascal}}"@.len() == 15,
        "{{name}}"@.len() == 8,
        "{{description}}"@.len() == 15,
        "{{owner}}"@.len() == 9,
        "{{author}}"@.len() == 10,
        "{{year}}"@.len() == 8,
        "{{name_pascal}}"@ != "{{description}}"@,
        "{{name}}"@ != "{{year}}"@,
{
    reveal_strlit("{{name_snake}}");
    reveal_strlit("{{name_pascal}}");
    reveal_strlit("{{name}}");
    reveal_strlit("{{description}}");
    reveal_strlit("{{owner}}");
    reveal_strlit("{{author}}");
    reveal_strlit("{{year}}");
    assert("{{name_pascal}}"@[2] != "{{description}}"@[2]);
    assert("{{name}}"@[2] != "{{year}}"@[2]);
}

/// A piece of template text: brace-free text, or one placeholder.
pub open spec fn is_piece(p: Seq<char>) -> bool {
    brace_free(p) || is_placeholder(p)
}

/// The pieces, concatenated.
pub open spec fn join_pieces(ps: Seq<Seq<char>>) -> Seq<char>
    decreases ps.len(),
{
    if ps.len() == 0 {
        Seq::empty()
    } else {
        ps[0] + join_pieces(ps.drop_first())
    }
}

/// What a piece becomes: the value of the placeholder it is, or itself.
pub open spec fn substitute(vars: Vars, p: Seq<char>) -> Seq<char> {
    if p == "{{name_snake}}"@ {
        vars.name_snake@
    } else if p == "{{name_pascal}}"@ {
        vars.name_pascal@
    } else if p == "{{name}}"@ {
        vars.name@
    } else if p == "{{description}}"@ {
        vars.description@
    } else if p == "{{owner}}"@ {
        vars.owner@
    } else if p == "{{author}}"@ {
        vars.author@
    } else if p == "{{year}}"@ {
        vars.year@
    } else {
        p
    }
}

/// A prefix in which no occurrence of `pat` starts is kept as it is.
proof fn lemma_replace_prefix(p: Seq<char>, x: Seq<char>, pat: Seq<char>, rep: Seq<char>)
    requires
        pat.len() > 0,
        forall|k: int|
            0 <= k < p.len() && k + pat.len() <= p.len() + x.len() ==> #[trigger] (p + x).subrange(
                k,
                k + pat.len(),
            ) != pat,
    ensures
        replace_all(p + x, pat, rep) == p + replace_all(x, pat, rep),
    decreases p.len(),
{
    let s = p + x;
    if p.len() == 0 {
        assert(s =~= x);
        assert(p + replace_all(x, pat, rep) =~= replace_all(x, pat, rep));
    } else if s.len() < pat.len() {
        assert(x.len() < pat.len());
    } else {
        assert(s.take(pat.len() as int) == s.subrange(0int, 0int + pat.len()));
        let q = p.drop_first();
        assert(s.drop_first() =~= q + x);
        assert forall|k: int|
            0 <= k < q.len() && k + pat.len() <= q.len() + x.len() implies #[trigger] (q
            + x).subrange(k, k + pat.len()) != pat by {
            assert((q + x).subrange(k, k + pat.len()) =~= s.subrange(k + 1, k + 1 + pat.len()));
        }
        lemma_replace_prefix(q, x, pat, rep);
        assert(s[0] == p[0]);
        assert(seq![p[0]] + (q + replace_all(x, pat, rep)) =~= p + replace_all(x, pat, rep));
    }
}

/// Replacing one placeholder across a piece and what follows it.
proof fn lemma_replace_piece(p: Seq<char>, x: Seq<char>, pat: Seq<char>, rep: Seq<char>)
    requires
        is_piece(p),
        is_placeholder(pat),
    ensures
        replace_all(p + x, pat, rep) == (if p == pat {
            rep
        } else {
            p
        }) + replace_all(x, pat, rep),
{
    let s = p + x;
    let l = pat.len() as int;
    if p == pat {
        assert(s.take(l) =~= pat);
        assert(s.skip(l) =~= x);
    } else {
        assert forall|k: int|
            0 <= k < p.len() && k + l <= p.len() + x.len() implies #[trigger] s.subrange(k, k + l)
            != pat by {
            let w = s.subrange(k, k + l);
            if w == pat {
                assert(w[0] == s[k] && s[k] == p[k]);
                if brace_free(p) {
                    assert(p[k] != '{');
                } else {
                    if k >= 2 {
                        if k < p.len() - 2 {
                            assert(p[k] != '{');
                        } else {
                            assert(p[k] == '}');
                        }
                    } else if k == 1 {
                        assert(w[1] == s[2]);
                        if p.len() > 4 {
                            assert(p[2] != '{');
                        } else {
                            assert(p[2] == '}');
                        }
                    } else {
                        let m = p.len() as int;
                        if l <= m {
                            assert(w[l - 1] == p[l - 1] && w[l - 2] == p[l - 2]);
                            if l < m {
                                if l - 1 >= 2 {
                                    assert(p[l - 1] != '}');
                                }
                            }
                            assert(w =~= p) by {
                                assert(l == m);
                            }
                        } else {
                            assert(w[m - 1] == p[m - 1] && w[m - 2] == p[m - 2]);
                            assert(pat[m - 2] == '}');
                            if m - 2 >= 2 {
                                assert(pat[m - 2] != '}');
                            }
                        }
                    }
                }
            }
        }
        lemma_replace_prefix(p, x, pat, rep);
    }
}

/// A piece after one placeholder is replaced.
pub open spec fn replace_piece(p: Seq<char>, pat: Seq<char>, rep: Seq<char>) -> Seq<char> {
    if p == pat {
        rep
    } else {
        p
    }
}

/// The pieces after one placeholder is replaced.
pub open spec fn replace_pieces(ps: Seq<Seq<char>>, pat: Seq<char>, rep: Seq<char>) -> Seq<
    Seq<char>,
> {
    ps.map_values(|p: Seq<char>| replace_piece(p, pat, rep))
}

/// Replacing one placeholder in joined pieces replaces the pieces that are it.
proof fn lemma_replace_pieces(ps: Seq<Seq<char>>, pat: Seq<char>, rep: Seq<char>)
    requires
        forall|i: int| 0 <= i < ps.len() ==> is_piece(#[trigger] ps[i]),
        is_placeholder(pat),
    ensures
        replace_all(join_pieces(ps), pat, rep) == join_pieces(replace_pieces(ps, pat, rep)),
    decreases ps.len(),
{
    if ps.len() == 0 {
        assert(replace_pieces(ps, pat, rep) =~= Seq::<Seq<char>>::empty());
    } else {
        let rest = ps.drop_first();
        assert forall|i: int| 0 <= i < rest.len() implies is_piece(#[trigger] rest[i]) by {
            assert(rest[i] == ps[i + 1]);
        }
        lemma_replace_piece(ps[0], join_pieces(rest), pat, rep);
        lemma_replace_pieces(rest, pat, rep);
        assert(replace_pieces(ps, pat, rep).drop_first() =~= replace_pieces(rest, pat, rep));
    }
}

proof fn lemma_replaced_pieces_are_pieces(ps: Seq<Seq<char>>, pat: Seq<char>, rep: Seq<char>)
    requires
        forall|i: int| 0 <= i < ps.len() ==> is_piece(#[trigger] ps[i]),
        brace_free(rep),
    ensures
        forall|i: int|
            0 <= i < ps.len() ==> is_piece(#[trigger] replace_pieces(ps, pat, rep)[i]),
{
}

/// Substitution is placeholder by placeholder: in text made of brace-free
/// pieces and placeholders, every placeholder is replaced by its value and
/// nothing else changes, provided no value holds a brace. The order in which
/// the placeholders are replaced therefore does not matter for such text.
pub proof fn apply_substitutes_each_placeholder(vars: Vars, pieces: Seq<Seq<char>>)
    requires
        forall|i: int| 0 <= i < pieces.len() ==> is_piece(#[trigger] pieces[i]),
        brace_free(vars.name_snake@),
        brace_free(vars.name_pascal@),
        brace_free(vars.name@),
        brace_free(vars.description@),
        brace_free(vars.owner@),
        brace_free(vars.author@),
        brace_free(vars.year@),
    ensures
        apply_spec(vars, join_pieces(pieces)) == join_pieces(
            pieces.map_values(|p: Seq<char>| substitute(vars, p)),
        ),
{
    lemma_tokens_are_placeholders();
    let t1 = "{{name_snake}}"@;
    let t2 = "{{name_pascal}}"@;
    let t3 = "{{name}}"@;
    let t4 = "{{description}}"@;
    let t5 = "{{owner}}"@;
    let t6 = "{{author}}"@;
    let t7 = "{{year}}"@;
    let ps0 = pieces;
    lemma_replace_pieces(ps0, t1, vars.name_snake@);
    lemma_replaced_pieces_are_pieces(ps0, t1, vars.name_snake@);
    let ps1 = replace_pieces(ps0, t1, vars.name_snake@);
    lemma_replace_pieces(ps1, t2, vars.name_pascal@);
    lemma_replaced_pieces_are_pieces(ps1, t2, vars.name_pascal@);
    let ps2 = replace_pieces(ps1, t2, vars.name_pascal@);
    lemma_replace_pieces(ps2, t3, vars.name@);
    lemma_replaced_pieces_are_pieces(ps2, t3, vars.name@);
    let ps3 = replace_pieces(ps2, t3, vars.name@);
    lemma_replace_pieces(ps3, t4, vars.description@);
    lemma_replaced_pieces_are_pieces(ps3, t4, vars.description@);
    let ps4 = replace_pieces(ps3, t4, vars.description@);
    lemma_replace_pieces(ps4, t5, vars.owner@);
    lemma_replaced_pieces_are_pieces(ps4, t5, vars.owner@);
    let ps5 = replace_pieces(ps4, t5, vars.owner@);
    lemma_replace_pieces(ps5, t6, vars.author@);
    lemma_replaced_pieces_are_pieces(ps5, t6, vars.author@);
    let ps6 = replace_pieces(ps5, t6, vars.author@);
    lemma_replace_pieces(ps6, t7, vars.year@);
    let ps7 = replace_pieces(ps6, t7, vars.year@);
    let target = pieces.map_values(|p: Seq<char>| substitute(vars, p));
    assert forall|i: int| 0 <= i < pieces.len() implies #[trigger] ps7[i] == target[i] by {
        let p = pieces[i];
        let vals = seq![
            vars.name_snake@,
            vars.name_pascal@,
            vars.name@,
            vars.description@,
            vars.owner@,
            vars.author@,
            vars.year@,
        ];
        assert forall|j: int| 0 <= j < 7 implies !is_placeholder(#[trigger] vals[j]) by {
            if vals[j].len() >= 4 {
                assert(vals[j][0] != '{');
            }
        }
        assert(!is_placeholder(vars.name_snake@));
        assert(!is_placeholder(vars.name_pascal@));
        assert(!is_placeholder(vars.name@));
        assert(!is_placeholder(vars.description@));
        assert(!is_placeholder(vars.owner@));
        assert(!is_placeholder(vars.author@));
        assert(!is_placeholder(vars.year@));
        assert(ps1[i] == replace_piece(p, t1, vars.name_snake@));
        assert(ps2[i] == replace_piece(ps1[i], t2, vars.name_pascal@));
        assert(ps3[i] == replace_piece(ps2[i], t3, vars.name@));
        assert(ps4[i] == replace_piece(ps3[i], t4, vars.description@));
        assert(ps5[i] == replace_piece(ps4[i], t5, vars.owner@));
        assert(ps6[i] == replace_piece(ps5[i], t6, vars.author@));
        assert(ps7[i] == replace_piece(ps6[i], t7, vars.year@));
    }
    assert(ps7 =~= target);
}

/// Each placeholder alone renders to its value: substituting one token
/// never clobbers another, provided no value holds a brace.
pub proof fn placeholder_alone_renders_its_value(vars: Vars)
    requires
        brace_free(vars.name_snake@),
        brace_free(vars.name_pascal@),
        brace_free(vars.name@),
        brace_free(vars.description@),
        brace_free(vars.owner@),
        brace_free(vars.author@),
        brace_free(vars.year@),
    ensures
        apply_spec(vars, "{{name_snake}}"@) == vars.name_snake@,
        apply_spec(vars, "{{name_pascal}}"@) == vars.name_pascal@,
        apply_spec(vars, "{{name}}"@) == vars.name@,
        apply_spec(vars, "{{description}}"@) == vars.description@,
        apply_spec(vars, "{{owner}}"@) == vars.owner@,
        apply_spec(vars, "{{author}}"@) == vars.author@,
        apply_spec(vars, "{{year}}"@) == vars.year@,
{
    lemma_tokens_are_placeholders();
    let tokens = seq![
        "{{name_snake}}"@,
        "{{name_pascal}}"@,
        "{{name}}"@,
        "{{description}}"@,
        "{{owner}}"@,
        "{{author}}"@,
        "{{year}}"@,
    ];
    assert forall|i: int| 0 <= i < 7 implies apply_spec(vars, #[trigger] tokens[i]) == substitute(
        vars,
        tokens[i],
    ) by {
        let ps = seq![tokens[i]];
        assert(join_pieces(ps.drop_first()) == Seq::<char>::empty());
        assert(join_pieces(ps) =~= tokens[i]);
        apply_substitutes_each_placeholder(vars, ps);
        let qs = ps.map_values(|p: Seq<char>| substitute(vars, p));
        assert(qs.drop_first() =~= Seq::<Seq<char>>::empty());
        assert(join_pieces(qs.drop_first()) == Seq::<char>::empty());
        assert(join_pieces(qs) =~= substitute(vars, tokens[i]));
    }
    assert(apply_spec(vars, tokens[0]) == substitute(vars, tokens[0]));
    assert(apply_spec(vars, tokens[1]) == substitute(vars, tokens[1]));
    assert(apply_spec(vars, tokens[2]) == substitute(vars, tokens[2]));
    assert(apply_spec(vars, tokens[3]) == substitute(vars, tokens[3]));
    assert(apply_spec(vars, tokens[4]) == substitute(vars, tokens[4]));
    assert(apply_spec(vars, tokens[5]) == substitute(vars, tokens[5]));
    assert(apply_spec(vars, tokens[6]) == substitute(vars, tokens[6]));
}

/// One of the seven placeholders that `Vars::apply` substitutes.
pub open spec fn is_known_placeholder(p: Seq<char>) -> bool {
    p == "{{name_snake}}"@ || p == "{{name_pascal}}"@ || p == "{{name}}"@ || p == "{{description}}"@
        || p == "{{owner}}"@ || p == "{{author}}"@ || p == "{{year}}"@
}

proof fn lemma_join_brace_free(ps: Seq<Seq<char>>)
    requires
        forall|i: int| 0 <= i < ps.len() ==> brace_free(#[trigger] ps[i]),
    ensures
        brace_free(join_pieces(ps)),
    decreases ps.len(),
{
    if ps.len() > 0 {
        let rest = ps.drop_first();
        assert forall|i: int| 0 <= i < rest.len() implies brace_free(#[trigger] rest[i]) by {
            assert(rest[i] == ps[i + 1]);
        }
        lemma_join_brace_free(rest);
        let j = join_pieces(ps);
        assert forall|i: int| 0 <= i < j.len() implies #[trigger] j[i] != '{' && j[i] != '}' by {
            if i < ps[0].len() {
                assert(j[i] == ps[0][i]);
            } else {
                assert(j[i] == join_pieces(rest)[i - ps[0].len()]);
            }
        }
    }
}

/// No placeholder survives: text made of brace-free pieces and the seven
/// known placeholders renders without a single brace, provided no value
/// holds one.
pub proof fn apply_leaves_no_placeholder(vars: Vars, pieces: Seq<Seq<char>>)
    requires
        forall|i: int|
            0 <= i < pieces.len() ==> brace_free(#[trigger] pieces[i]) || is_known_placeholder(
                pieces[i],
            ),
        brace_free(vars.name_snake@),
        brace_free(vars.name_pascal@),
        brace_free(vars.name@),
        brace_free(vars.description@),
        brace_free(vars.owner@),
        brace_free(vars.author@),
        brace_free(vars.year@),
    ensures
        brace_free(apply_spec(vars, join_pieces(pieces))),
{
    lemma_tokens_are_placeholders();
    assert forall|i: int| 0 <= i < pieces.len() implies is_piece(#[trigger] pieces[i]) by {}
    apply_substitutes_each_placeholder(vars, pieces);
    let out = pieces.map_values(|p: Seq<char>| substitute(vars, p));
    assert forall|i: int| 0 <= i < out.len() implies brace_free(#[trigger] out[i]) by {
        assert(out[i] == substitute(vars, pieces[i]));
    }
    lemma_join_brace_free(out);
}

} // verus!
