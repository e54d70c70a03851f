# samokod

samokod drives OpenCode agents over ACP through a plan lifecycle: a scoping
chat writes `plan.md` under `.samokod/plans/scoping/<timestamp>/`, approval
moves the plan to `executing/` under a slug of its title, and it ends in
`completed/` (directly or through `merging/`) or `cancelled/`.

Layout:

- `src/` is the verified library. Plan naming and transitions (`plans`),
  worktree and git decisions (`worktrees`, `branch`), the agent state
  machine (`agent` and its submodules: lifecycle, sessions, turns,
  permissions, the plans list, warming), the OpenCode agent configuration
  and prompts (`opencode`), ACP payload models and their rendering
  (`protocol`, `updates`, `permissions`, `session_config`, `todos`, `json`),
  prefs and per-repo role state (`prefs`, `repo_state`), binary lookup
  (`acp`), error hints (`error_hint`), and the single-session desktop shell's
  rules (`desktop`). `text` holds the string helpers and the few trusted
  wrappers over `str`/`char` functions of std.
- `tests/` exercises the library on concrete values.
- `app/` is the unverified edge: git processes, the filesystem, JSON files,
  the clock, the sleep lock, the HEAD watcher, and conversions from the ACP
  SDK's types.
