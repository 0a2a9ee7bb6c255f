//! Tool sandboxing: path jail, command allowlist and output shaping.

pub mod path;
pub mod sandbox;
pub mod output;
pub mod command;
pub mod executor;
pub mod definitions;
pub mod report;
