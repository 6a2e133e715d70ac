//! Decision logic, wire formats and state machines behind Codex hooks, the
//! single-use sudo broker, the agent mailbox and status-line displays.

pub mod ids;
pub mod hooks;
pub mod mailbox;
pub mod prompts;
pub mod protocol;
pub mod secret;
pub mod sudo;
pub mod text;
pub mod tui;
