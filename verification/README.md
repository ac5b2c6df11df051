# cli_agent

A command-line coding agent whose decision-making core is verified with
Verus.

## Layout

- `src/` — the verified library. Every function has a contract; the laws
  of the library are public proof functions (named `law_*`).
  - `text` — character-level string helpers and their lemmas.
  - `repl` — slash commands, chat replies and API error wording, git
    command results, extensions.
  - `agent_loop` — the agentic loop: conversation state, stop-reason
    decisions, the echo tool, and one run of the loop as a state machine.
  - `files`, `paths` — file-tool logic (numbered reads, normalised writes,
    listings, the base-directory boundary).
  - `shell` — command building, danger checks, output truncation.
  - `streaming` — SSE line splitting, event parsing, tool-call assembly and
    the state of a streamed message.
  - `context`, `tui` — token estimates, the context budget, pruning, and the
    terminal interface's state.
  - `search` — grep and glob searches over `regex` and `globset`.
  - `permissions` — permission levels, command and path filters, approvals.
  - `provider` — provider-neutral messages and their Anthropic and OpenAI
    forms, status handling, provider configuration.
  - `settings`, `config_tree`, `session` — layered configuration, TOML
    table layering, sessions and the main loop's decisions.
- `app/` — the programs around the library: HTTP, files, processes,
  terminal drawing, serde wire types. The first argument picks a program
  (`repl`, `chat`, `agent`, `tools`, `files`, `shell`, `stream`,
  `tui-minimal`, `tui`, `search`, `git`, `guarded`, `providers`,
  `extensions`, `full`).
- `tests/` — tests of the library.

The default Anthropic model is taken from `AGENT_ANTHROPIC_MODEL`.
