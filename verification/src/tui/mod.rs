//! What the terminal UI shows: the live output throughput, transcript
//! summaries and titles, and names in the agent picker.

pub mod collab;
pub mod collab_cells;
pub mod agent_nav;
pub mod chat_flow;
pub mod mailbox_action;
pub mod mailbox_status;
pub mod styled;
pub mod sudo_overlay;
pub mod throughput;
pub mod transcript;
