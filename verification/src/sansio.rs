//! Parsers, data types and state machines that perform no I/O.
pub mod agent;
pub mod deepseek;
pub mod permissions;
pub mod safe_command;
pub mod sse;
pub mod tui;
