//! Protocol types shared between the agent core and its clients.

pub mod lifecycle;
pub mod sudo_once;
