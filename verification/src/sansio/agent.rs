//! The agent core.
use vstd::prelude::*;

pub mod arguments;
pub mod conduct;
pub mod debug;
pub mod engine;
pub mod errors;
pub mod growth;
pub mod laws;
pub mod metrics;
pub mod runs;
pub mod state;
pub mod submit;
pub mod tools;
pub mod types;

pub use engine::{AgentCore, Dispatch, Invocation};
pub use metrics::AgentMetrics;
pub use types::{
    Action, ActiveToolCall, ApprovalState, CommandOutputStream, CommandOutputTail, CommandPreview,
    Event, PatchPreview, PendingResponse, PreviewHash, RequestId, Status,
};
pub use errors::{CommandError, PatchError, ToolExecutionError, ToolOutcome};
pub use submit::{
    PlanProposeInvocation, SubmitCommand, SubmitConfirmation, SubmitPatch, SubmitPlanInvocation,
};
pub use tools::{
    CommandInvocation, PatchInvocation, PatchTool, ReadOnlyTool, SkillLoadInvocation,
    SubagentRunInvocation,
};

verus! {

/// Maximum bytes of tool-call arguments, summed over the streamed fragments,
/// that the core accepts for one tool call.
pub const ARGUMENTS_MAX_BYTES: usize = 64 * 1024;

/// Maximum number of tool calls that the core emits per user turn.
pub const TURN_TOOL_CALL_LIMIT: usize = 20;

/// Default upper bound on entries returned by a list.
pub const DEFAULT_LIST_MAX_ENTRIES: usize = 200;

/// Default upper bound on results returned by a search.
pub const DEFAULT_SEARCH_MAX_RESULTS: usize = 50;

/// Maximum bytes read from a single file.
pub const READ_MAX_BYTES: usize = 1024 * 1024;

/// Maximum edits in a single patch call.
pub const PATCH_MAX_EDITS: usize = 20;

/// Maximum bytes of a file that a patch writes.
pub const PATCH_MAX_FILE_BYTES: usize = READ_MAX_BYTES;

/// Maximum bytes kept of either output stream of a command.
pub const COMMAND_MAX_STREAM_BYTES: usize = 256 * 1024;

/// Maximum characters kept of the end of a running command's output.
pub const COMMAND_TAIL_CHARS: usize = 4 * 1024;

/// Size of a single read from an output stream of a command.
pub const COMMAND_STREAM_CHUNK_SIZE: usize = 4 * 1024;

} // verus!
