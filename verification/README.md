# clihatch

Scaffold a complete, clispec-compliant, agent-facing Rust CLI: source
skeleton, schema + conformance test, and the GitHub-hosted dual-publish
release pipeline; and bootstrap the release secrets of its repo.

## Layout

- `src/` - the library, verified with Verus. It holds the tool's logic, each
  function with its contract: crate-name rules and run planning
  (`lib.rs`), the error kinds, exit codes and published error table (`error.rs`), placeholder and
  conditional-section rendering, the rendered file set and the git commands
  of the first commit, and running them (`scaffold.rs`), the command table
  of the clispec contract (`schema.rs`), the secrets bootstrap, the real
  backend's `gh` / `ssh-keygen` steps and the credential-file readers
  (`secrets.rs`), repo creation (`github.rs`), the text renderings and next
  steps (`output.rs`), the command line's defaults (`cli.rs`), and the
  character-level string functions they are built on (`text.rs`).
  External commands run through the `CommandRunner` seam (`process.rs`), and
  the secrets backend through the `SecretOps` seam; a runner or backend that
  records its calls gets, from the library's contracts, exactly which calls
  were made, in what order, and with what results. The
  secrets backend's steps that touch files (reading the generated keys,
  staging the public key) and parse the deploy-key listing are handed in by
  the caller as closures.
- `app/` - the binary: argument parsing (clap), the file system, subprocesses,
  the embedded templates (include_dir), JSON parsing and output (serde_json),
  including rendering the contract's tables as JSON.
- `tests/` - the test suite, run against the library.
