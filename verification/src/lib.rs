//! Verified core of the Jarvis assistant shell: tool sandboxing, command
//! policy, session bookkeeping and pair-programming authentication.

pub mod text;
pub mod tools;
pub mod session;
pub mod pair;
pub mod ai;
pub mod ui;
pub mod pty;
pub mod audio;
pub mod assistant;
pub mod chat;
