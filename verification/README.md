# Symphony

A daemon that polls Linear for issues, gives each a workspace of its own, and lets a Codex app-server
work on it, turn by turn, until the issue is done.

- `src/` is the library: what the daemon decides, with contracts that Verus proves. It reads no file
  and opens no connection. The few functions that call another crate say what they take from it.
- `app/` is the daemon: command line, files, processes, network and timers. It hands the library plain
  values, and does what the library decides.
- `tests/` runs the library on examples.

The issue orchestration is in `src/orchestrator.rs`, and what holds of every state that it reaches in
`src/invariants.rs`.
