//! The agent loop of one invocation.
//!
//! A conversation goes to the model; the tool calls that it makes are
//! dispatched and their results go back to it, until it makes no more calls, a
//! call needs the user's approval, or a cap is reached.
use vstd::prelude::*;
use vstd::string::*;

pub mod compaction;
pub mod counters;
pub mod drive;
pub mod gate;
pub mod prompt;
pub mod prose;
pub mod repair;
pub mod summary;
pub mod tallies;
pub mod telling;
pub mod upkeep;
pub mod wording;

pub use counters::{Counters, ToolCallsByKind};
pub use gate::{GateDecision, RateLimit, ToolCallGate};

use crate::sansio::permissions::Authorization;

verus! {

pub const EXIT_OK: u8 = 0;

pub const EXIT_ERROR: u8 = 1;

pub const EXIT_AWAITING_APPROVAL: u8 = 10;

pub const DEFAULT_MAX_TURNS: usize = 20;

pub const DEFAULT_TURN_TOOL_CALL_LIMIT: usize = 20;

pub const DEFAULT_TOOL_CALL_RATE_CALLS: usize = 60;

pub const DEFAULT_TOOL_CALL_RATE_WINDOW_SECS: u64 = 60;

pub const DEFAULT_SESSION_TOOL_CALL_MAX: usize = 5000;

/// The settings of an invocation.
pub struct AgentConfig {
    pub session_name: String,
    pub model: String,
    /// Maximum completion tokens per call to the model.
    pub max_tokens: Option<u64>,
    pub workspace_root: String,
    pub system_prompt: Option<String>,
    pub show_reasoning: bool,
    /// Maximum calls to the model.
    pub max_turns: usize,
    /// More paths that may be read, besides those that the rules allow.
    pub extra_read_paths_cli: Vec<String>,
    /// Files that go into the system prompt.
    pub reference_paths: Vec<String>,
    /// Maximum tool calls in one turn.
    pub turn_tool_call_limit: usize,
    /// Maximum tool calls in a span of time.
    pub tool_call_rate: Option<RateLimit>,
    /// Maximum tool calls of the invocation, which then ends.
    pub session_tool_call_max: Option<usize>,
    /// A skill whose text goes into the system prompt.
    pub skill_name: Option<String>,
    pub authorization: Authorization,
}

/// How an invocation goes on.
#[derive(Debug, PartialEq, Eq)]
pub enum Continuation {
    /// With a prompt of the user.
    Prompt(String),
    /// With the tool calls that wait, which the user approves.
    Approve,
    /// With the tool calls that wait, which the user rejects.
    Reject,
}

} // verus!
