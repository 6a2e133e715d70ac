# codex_policy

Verified decision logic for Codex lifecycle hooks, the single-use sudo
broker, the agent mailbox and the terminal UI's transcript rows and status
displays. Everything under `src/` is checked by Verus; `app/` holds the I/O
around it (processes, `/proc`, files, channels) and the few computations
that need floating point.

Layout of `src/`:

- `hooks/`: event names and persisted hook keys (`mod.rs`), handler
  configuration (`handler.rs`), prompt-handler normalization (`discovery.rs`),
  command planning and output collection (`command.rs`), prompt filters
  (`filter.rs`), prompt rendering and runs (`prompt.rs`), the meaning of a
  handler run and the aggregation of decisions (`outcome.rs`), and the spill
  of oversized output (`spill.rs`).
- `sudo/`: the frame protocol (`wire.rs`), `/proc` parsing and the ancestor
  search (`procfs.rs`), capability checks (`capability.rs`) and the approved
  command snapshot (`command.rs`).
- `mailbox/`: mailbox messages and the store with idempotent enqueue and
  consuming reads.
- `protocol/`: item lifecycle policies and the sudo credential type.
- `tui/`: throughput tracking, transcript rows for multi-agent tool calls,
  mailbox actions, sudo overlays, agent navigation keys and chat routing.
- `text.rs`, `ids.rs`, `secret.rs`, `prompts.rs`: shared text operations,
  thread ids, wiped-on-drop secrets, and prompt template checks.
