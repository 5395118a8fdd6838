# jj-hooks

Runs pre-commit, prek, lefthook or hk hooks against the bookmark updates that
a `jj git push` would make, in an ephemeral worktree of each target commit,
and pushes only when every hook passes without modifying files. Hook
modifications are kept as a fixup commit.

Layout:

- `src/` — the verified library. `bookmark_updates` parses the dry-run report
  of `jj git push`; `runner` builds hook command lines and detects the runner
  from the configuration files present; `hooks` decides, step by step, the
  work for one bookmark update (diff bases, hook runs, fixup commit);
  `push` decides the checks of a whole push and whether it may proceed;
  `revset` checks a revset without pushing; `init` plans and applies the
  interactive setup and merges jjui actions into jjui's TOML configuration
  (through `toml_doc`); `text` holds the string operations with their
  specifications.
- `app/` — the `jj-hooks` binary: command-line parsing, logging, and the
  processes, worktrees and files that the library's steps ask for.
- `tests/` — tests of the library.
