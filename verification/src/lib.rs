//! Decisions, parsers and state machines of `wake`, a command that keeps a machine awake.

pub mod commands;
pub mod dispatch;
pub mod durations;
pub mod error;
pub mod interactive;
pub mod lid;
pub mod platform;
pub mod run;
pub mod session;
pub mod supervisor;
pub mod sysutil;
pub mod text;
pub mod time;
