//! Single-use sudo execution: frame protocol and process checks.

pub mod capability;
pub mod command;
pub mod procfs;
pub mod wire;
