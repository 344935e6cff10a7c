# onevcs

Version control and its remote host behind one host-neutral vocabulary: sessions
that cut work into per-run worktrees, publication through a repository's own merge
path, a report of every preserved branch that has not reached its base, and the
release questions a consumer asks of a landed change.

## Layout

- `src/` — the library, verified with Verus. Its decisions stand here, each
  with a contract: how git's and GitHub's answers are read
  (`git`, `gh`, `host`), what a rules file resolves to (`policy`, `rules`,
  `branches`), whether work landed (`landed`), the pool of warm checkouts (`pool`),
  the integration train (`integrate`), importing and syncing (`import`, `ops`),
  release declarations and answers (`declaration`, `releases`), the references a
  squash carries forward (`closing`), session labels and events (`label`,
  `event`), and the reports the verbs print (`recoverable`, `verbs`). `text`
  holds the string operations the rest is specified over. Public `lemma_*` proof
  functions state the laws the library keeps across calls.
- `app/` — a thin `onevcs` program: argument parsing, the git and `gh` processes,
  and the JSON, TOML and YAML taken apart into the plain values the library reads.
  It runs `import` and `sync`; the verbs that need the repository registry and the
  session store answer that this build does not carry them.
- `tests/` — the library's tests, run against the compiled crate.
