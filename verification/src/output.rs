//! The text renderings of what a command did, and the suggested next steps.

use vstd::prelude::*;

use crate::scaffold::Outcome;
use crate::secrets::{SecretReport, Skip, VerifyReport};
use crate::text::{
    concat, decimal, join, join_strings, prefix_each, push_prefixed, push_str, starts_with,
    strings_view, u64_to_decimal,
};

verus! {

/// The suggested next steps after scaffolding `outcome`: check the crate,
/// create the repo (unless it was created with `--github`), set the release
/// secrets, release. Every command targets the configured `owner/name`.
pub open spec fn next_steps_spec(o: Outcome) -> Seq<Seq<char>> {
    let slug = o.owner@ + "/"@ + o.name@;
    seq!["cd "@ + o.dir@ + " && make check"@] + (if o.repo is None {
        seq![
            "create the GitHub repo + push (or re-run with --github): gh repo create "@ + slug
                + " --source . --push"@,
        ]
    } else {
        Seq::empty()
    }) + seq!["clihatch secrets "@ + slug, "vership release  # tag + dual-publish"@]
}

/// The text rendering of a scaffold outcome.
pub open spec fn render_text_spec(o: Outcome) -> Seq<char> {
    "Scaffolded "@ + o.dir@ + " ("@ + decimal(o.files@.len()) + " files"@ + (if o.committed {
        ", committed"@
    } else {
        Seq::<char>::empty()
    }) + ")"@ + (match o.repo {
        Some(repo) => "\nCreated and pushed github.com/"@ + repo@,
        None => Seq::<char>::empty(),
    }) + "\nNext:"@ + prefix_each(next_steps_spec(o), "\n  - "@)
}

/// A skipped secret's line.
pub open spec fn skip_line(k: Skip) -> Seq<char> {
    "\n  skipped "@ + k.secret@ + ": "@ + k.reason@
}

/// The skipped secrets' lines, in order.
pub open spec fn skip_lines(ks: Seq<Skip>) -> Seq<char>
    decreases ks.len(),
{
    if ks.len() == 0 {
        Seq::empty()
    } else {
        skip_line(ks[0]) + skip_lines(ks.drop_first())
    }
}

/// The text rendering of a secrets report.
pub open spec fn render_secrets_text_spec(r: SecretReport) -> Seq<char> {
    "Secrets on "@ + r.repo@ + (if r.dry_run {
        " (dry run)"@
    } else {
        Seq::<char>::empty()
    }) + (if r.set@.len() > 0 {
        "\n  "@ + (if r.dry_run {
            "would set"@
        } else {
            "set"@
        }) + ": "@ + join(strings_view(r.set), ", "@)
    } else {
        Seq::<char>::empty()
    }) + skip_lines(r.skipped@) + prefix_each(strings_view(r.notes), "\n  note: "@)
}

/// The text rendering of a verify report.
pub open spec fn render_verify_text_spec(r: VerifyReport) -> Seq<char> {
    "Release secrets on "@ + r.repo@ + (if r.present@.len() > 0 {
        "\n  set: "@ + join(strings_view(r.present), ", "@)
    } else {
        Seq::<char>::empty()
    }) + (if r.missing@.len() > 0 {
        "\n  missing: "@ + join(strings_view(r.missing), ", "@)
    } else {
        Seq::<char>::empty()
    })
}

/// The suggested next steps, covering the path to a published release. When
/// the repo was already created (`--github`), the "create the repo" step is
/// omitted. The configured owner is carried through, so the commands target
/// the right repo even with a non-default `--owner`.
pub fn next_steps(outcome: &Outcome) -> (steps: Vec<String>)
    ensures
        strings_view(steps) == next_steps_spec(*outcome),
{
    let head = concat(outcome.owner.as_str(), "/");
    let slug = concat(head.as_str(), outcome.name.as_str());
    let mut steps: Vec<String> = Vec::new();
    let cd = concat("cd ", outcome.dir.as_str());
    steps.push(concat(cd.as_str(), " && make check"));
    if outcome.repo.is_none() {
        let create = concat(
            "create the GitHub repo + push (or re-run with --github): gh repo create ",
            slug.as_str(),
        );
        steps.push(concat(create.as_str(), " --source . --push"));
    }
    steps.push(concat("clihatch secrets ", slug.as_str()));
    steps.push("vership release  # tag + dual-publish".to_owned());
    assert(strings_view(steps) =~= next_steps_spec(*outcome));
    steps
}

/// Render what was created, as text.
pub fn render_text(outcome: &Outcome) -> (out: String)
    ensures
        out@ == render_text_spec(*outcome),
{
    let next = next_steps(outcome);
    let mut out = concat("Scaffolded ", outcome.dir.as_str());
    push_str(&mut out, " (");
    let count = u64_to_decimal(outcome.files.len() as u64);
    push_str(&mut out, count.as_str());
    push_str(&mut out, " files");
    if outcome.committed {
        push_str(&mut out, ", committed");
    }
    push_str(&mut out, ")");
    match &outcome.repo {
        Some(repo) => {
            push_str(&mut out, "\nCreated and pushed github.com/");
            push_str(&mut out, repo.as_str());
        },
        None => {},
    }
    push_str(&mut out, "\nNext:");
    push_prefixed(&mut out, &next, "\n  - ");
    assert(out@ =~= render_text_spec(*outcome));
    out
}

/// Render a secrets-bootstrap report as text.
pub fn render_secrets_text(report: &SecretReport) -> (out: String)
    ensures
        out@ == render_secrets_text_spec(*report),
{
    let mut out = concat("Secrets on ", report.repo.as_str());
    if report.dry_run {
        push_str(&mut out, " (dry run)");
    }
    if report.set.len() > 0 {
        push_str(&mut out, "\n  ");
        if report.dry_run {
            push_str(&mut out, "would set");
        } else {
            push_str(&mut out, "set");
        }
        push_str(&mut out, ": ");
        let joined = join_strings(&report.set, ", ");
        push_str(&mut out, joined.as_str());
    }
    let ghost head = out@;
    let n = report.skipped.len();
    for i in 0..n
        invariant
            n == report.skipped@.len(),
            out@ == head + skip_lines(report.skipped@.take(i as int)),
    {
        let skip = &report.skipped[i];
        proof {
            lemma_skip_lines_push(report.skipped@.take(i as int), *skip);
            assert(report.skipped@.take(i + 1) == report.skipped@.take(i as int).push(*skip));
        }
        push_str(&mut out, "\n  skipped ");
        push_str(&mut out, skip.secret.as_str());
        push_str(&mut out, ": ");
        push_str(&mut out, skip.reason.as_str());
    }
    assert(report.skipped@.take(n as int) == report.skipped@);
    push_prefixed(&mut out, &report.notes, "\n  note: ");
    assert(out@ =~= render_secrets_text_spec(*report));
    out
}

proof fn lemma_skip_lines_push(ks: Seq<Skip>, k: Skip)
    ensures
        skip_lines(ks.push(k)) == skip_lines(ks) + skip_line(k),
    decreases ks.len(),
{
    let ys = ks.push(k);
    if ks.len() == 0 {
        assert(ys.drop_first() =~= Seq::<Skip>::empty());
        assert(ys[0] == k);
        assert(skip_lines(ys) == skip_line(k) + skip_lines(ys.drop_first()));
        assert(skip_lines(ys.drop_first()) == Seq::<char>::empty());
        assert(skip_lines(ys) =~= skip_lines(ks) + skip_line(k));
    } else {
        assert(ys.drop_first() =~= ks.drop_first().push(k));
        lemma_skip_lines_push(ks.drop_first(), k);
        assert(ys[0] == ks[0]);
        assert(skip_lines(ys) == skip_line(ks[0]) + skip_lines(ks.drop_first().push(k)));
        assert(skip_lines(ys) =~= skip_lines(ks) + skip_line(k));
    }
}

/// Render a `secrets --verify` report as text.
pub fn render_verify_text(report: &VerifyReport) -> (out: String)
    ensures
        out@ == render_verify_text_spec(*report),
{
    let mut out = concat("Release secrets on ", report.repo.as_str());
    if report.present.len() > 0 {
        push_str(&mut out, "\n  set: ");
        let joined = join_strings(&report.present, ", ");
        push_str(&mut out, joined.as_str());
    }
    if report.missing.len() > 0 {
        push_str(&mut out, "\n  missing: ");
        let joined = join_strings(&report.missing, ", ");
        push_str(&mut out, joined.as_str());
    }
    assert(out@ =~= render_verify_text_spec(*report));
    out
}

/// A report of a real run names the secrets it set as set, right after the
/// repo; only a dry run's report says "would set", after marking the run as
/// a dry run.
pub proof fn secrets_text_reports_what_a_run_set(r: SecretReport)
    requires
        r.set@.len() > 0,
    ensures
        !r.dry_run ==> starts_with(
            render_secrets_text_spec(r),
            "Secrets on "@ + r.repo@ + "\n  set: "@ + join(strings_view(r.set), ", "@),
        ),
        r.dry_run ==> starts_with(
            render_secrets_text_spec(r),
            "Secrets on "@ + r.repo@ + " (dry run)\n  would set: "@ + join(
                strings_view(r.set),
                ", "@,
            ),
        ),
{
    reveal_strlit("\n  ");
    reveal_strlit("set");
    reveal_strlit("would set");
    reveal_strlit(": ");
    reveal_strlit("\n  set: ");
    reveal_strlit(" (dry run)");
    reveal_strlit(" (dry run)\n  would set: ");
    let text = render_secrets_text_spec(r);
    let names = join(strings_view(r.set), ", "@);
    let rest = skip_lines(r.skipped@) + prefix_each(strings_view(r.notes), "\n  note: "@);
    if r.dry_run {
        let p = "Secrets on "@ + r.repo@ + " (dry run)\n  would set: "@ + names;
        assert(" (dry run)\n  would set: "@ =~= " (dry run)"@ + "\n  "@ + "would set"@ + ": "@);
        assert(text =~= p + rest);
        assert((p + rest).take(p.len() as int) =~= p);
    } else {
        let p = "Secrets on "@ + r.repo@ + "\n  set: "@ + names;
        assert("\n  set: "@ =~= "\n  "@ + "set"@ + ": "@);
        assert(text =~= p + rest);
        assert((p + rest).take(p.len() as int) =~= p);
    }
}

/// The report of a scaffold says the crate was committed exactly when it
/// was, whether or not a GitHub repo was created.
pub proof fn scaffold_text_reports_the_commit(o: Outcome)
    ensures
        o.committed ==> starts_with(
            render_text_spec(o),
            "Scaffolded "@ + o.dir@ + " ("@ + decimal(o.files@.len()) + " files, committed)"@,
        ),
        !o.committed ==> starts_with(
            render_text_spec(o),
            "Scaffolded "@ + o.dir@ + " ("@ + decimal(o.files@.len()) + " files)"@,
        ),
{
    reveal_strlit(" files");
    reveal_strlit(", committed");
    reveal_strlit(")");
    reveal_strlit(" files, committed)");
    reveal_strlit(" files)");
    let text = render_text_spec(o);
    let head = "Scaffolded "@ + o.dir@ + " ("@ + decimal(o.files@.len());
    let rest = (match o.repo {
        Some(repo) => "\nCreated and pushed github.com/"@ + repo@,
        None => Seq::<char>::empty(),
    }) + "\nNext:"@ + prefix_each(next_steps_spec(o), "\n  - "@);
    if o.committed {
        let p = head + " files, committed)"@;
        assert(" files, committed)"@ =~= " files"@ + ", committed"@ + ")"@);
        assert(text =~= p + rest);
        assert((p + rest).take(p.len() as int) =~= p);
    } else {
        let p = head + " files)"@;
        assert(" files)"@ =~= " files"@ + Seq::<char>::empty() + ")"@);
        assert(text =~= p + rest);
        assert((p + rest).take(p.len() as int) =~= p);
    }
}

} // verus!
