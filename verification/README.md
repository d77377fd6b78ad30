# opi coding agent — verified core

The decisions of the `opi` coding agent, written in Verus and proved against
their contracts: configuration layering, tool policy, resource and package
discovery, package resolution and the package store, the doctor report,
session files, the RPC command gate, adapter hosting and the extension
bridge, OAuth helpers, and the terminal UI's key and picker logic and its
event-driven state (`tui_state::tui_apply_event`).

- `src/` — the verified library. Each module states its behaviour over
  mathematical models (`Seq`, `Map`, spec functions) and proves it; the
  public `proof fn`s state the laws that relate several operations (for
  example `config::lemma_model_precedence`,
  `rpc::lemma_busy_refuses`, `adapter_extension::lemma_before_tool_call_fails_closed`,
  `package_discovery::lemma_compose_order_and_disabled`).
  Calls into `base64`, `percent-encoding`, `sha2`, `rand` and `serde_json`
  go through small trusted wrappers whose contracts are documented where
  they stand.
- `tests/` — tests on concrete values, run against the compiled library.
- `app/` — the `opi` binary: command-line parsing, file and process I/O
  around the library (configuration files, package stores, `git`, session
  files) and the output formats.
