//! Building blocks of a coding agent, verified.
pub mod agent_cli;
pub mod child_output;
pub mod cli;
pub mod curl;
pub mod deepseek;
pub mod json;
pub mod memories;
pub mod metrics;
pub mod model;
pub mod permissions;
pub mod plan;
pub mod plan_cmd;
pub mod rpc;
pub mod sansio;
pub mod session;
pub mod shell;
pub mod text;
pub mod time;

pub use metrics::Counter;
