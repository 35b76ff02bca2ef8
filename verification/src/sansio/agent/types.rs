//! What goes into the agent core and what comes out of it.
use vstd::prelude::*;
use vstd::string::*;

use super::errors::{OutcomeModel, ToolOutcome};
use super::tools::{CommandInvocation, EditModel, PatchInvocation, ReadOnlyModel, ReadOnlyTool};
use crate::model::{deep, maybe};
use crate::sansio::deepseek::{clone_texts, ChatMessage, MessageModel};
use crate::text::views;

verus! {

/// SHA-256 digest of a file, taken when a patch was previewed. A file that a
/// patch adds has none.
#[derive(Debug, PartialEq, Eq)]
pub struct PreviewHash {
    pub path: String,
    pub sha256: Option<[u8; 32]>,
}

/// A [`PreviewHash`] as a mathematical value.
#[verifier::ext_equal]
pub struct PreviewHashModel {
    pub path: Seq<char>,
    pub sha256: Option<[u8; 32]>,
}

impl View for PreviewHash {
    type V = PreviewHashModel;

    open spec fn view(&self) -> PreviewHashModel {
        PreviewHashModel { path: self.path@, sha256: self.sha256 }
    }
}

impl Clone for PreviewHash {
    fn clone(&self) -> (r: Self)
        ensures
            r@ == self@,
    {
        PreviewHash { path: self.path.clone(), sha256: self.sha256 }
    }
}

/// A copy of a list of digests.
pub fn clone_hashes(v: &Vec<PreviewHash>) -> (r: Vec<PreviewHash>)
    ensures
        deep(r@) == deep(v@),
{
    let mut out: Vec<PreviewHash> = Vec::new();
    let mut i: usize = 0;
    while i < v.len()
        invariant
            i <= v@.len(),
            out@.len() == i,
            forall|k: int| 0 <= k < i ==> (#[trigger] out@[k])@ == v@[k]@,
        decreases v@.len() - i,
    {
        out.push(v[i].clone());
        i = i + 1;
    }
    assert(deep(out@) =~= deep(v@));
    out
}

/// What a patch would do, for the user to look at.
#[derive(Debug, PartialEq, Eq)]
pub struct PatchPreview {
    /// Sorted list of target paths, each once.
    pub target_paths: Vec<String>,
    /// Number of `+` lines over all edits.
    pub added_lines: u64,
    /// Number of `-` lines over all edits.
    pub removed_lines: u64,
    /// Number of edits.
    pub edit_count: u64,
}

/// A [`PatchPreview`] as a mathematical value.
#[verifier::ext_equal]
pub struct PatchPreviewModel {
    pub target_paths: Seq<Seq<char>>,
    pub added_lines: u64,
    pub removed_lines: u64,
    pub edit_count: u64,
}

impl View for PatchPreview {
    type V = PatchPreviewModel;

    open spec fn view(&self) -> PatchPreviewModel {
        PatchPreviewModel {
            target_paths: views(self.target_paths@),
            added_lines: self.added_lines,
            removed_lines: self.removed_lines,
            edit_count: self.edit_count,
        }
    }
}

impl Clone for PatchPreview {
    fn clone(&self) -> (r: Self)
        ensures
            r@ == self@,
    {
        PatchPreview {
            target_paths: clone_texts(&self.target_paths),
            added_lines: self.added_lines,
            removed_lines: self.removed_lines,
            edit_count: self.edit_count,
        }
    }
}

impl Default for PatchPreview {
    /// A preview of nothing.
    fn default() -> (r: Self)
        ensures
            r@ == (PatchPreviewModel {
                target_paths: Seq::empty(),
                added_lines: 0,
                removed_lines: 0,
                edit_count: 0,
            }),
    {
        let r = PatchPreview {
            target_paths: Vec::new(),
            added_lines: 0,
            removed_lines: 0,
            edit_count: 0,
        };
        assert(views(r.target_paths@) =~= Seq::empty());
        r
    }
}

/// Approval status of a tool call.
#[derive(Debug, Clone, Copy, PartialEq, Eq, Structural)]
pub enum ApprovalState {
    NotRequired,
    Pending,
    Approved,
    Rejected,
}

/// What a command would run, for the user to look at.
#[derive(Debug, PartialEq, Eq)]
pub struct CommandPreview {
    pub argv: Vec<String>,
    /// Directory in which the child would run.
    pub working_directory: String,
}

/// A [`CommandPreview`] as a mathematical value.
#[verifier::ext_equal]
pub struct CommandPreviewModel {
    pub argv: Seq<Seq<char>>,
    pub working_directory: Seq<char>,
}

impl View for CommandPreview {
    type V = CommandPreviewModel;

    open spec fn view(&self) -> CommandPreviewModel {
        CommandPreviewModel {
            argv: views(self.argv@),
            working_directory: self.working_directory@,
        }
    }
}

impl Clone for CommandPreview {
    fn clone(&self) -> (r: Self)
        ensures
            r@ == self@,
    {
        CommandPreview {
            argv: clone_texts(&self.argv),
            working_directory: self.working_directory.clone(),
        }
    }
}

/// The end of a running command's output, and how many bytes there were.
#[derive(Debug, PartialEq, Eq)]
pub struct CommandOutputTail {
    pub stdout_tail: String,
    pub stderr_tail: String,
    pub stdout_bytes_total: u64,
    pub stderr_bytes_total: u64,
}

/// A [`CommandOutputTail`] as a mathematical value.
#[verifier::ext_equal]
pub struct TailModel {
    pub stdout_tail: Seq<char>,
    pub stderr_tail: Seq<char>,
    pub stdout_bytes_total: u64,
    pub stderr_bytes_total: u64,
}

impl View for CommandOutputTail {
    type V = TailModel;

    open spec fn view(&self) -> TailModel {
        TailModel {
            stdout_tail: self.stdout_tail@,
            stderr_tail: self.stderr_tail@,
            stdout_bytes_total: self.stdout_bytes_total,
            stderr_bytes_total: self.stderr_bytes_total,
        }
    }
}

/// No output yet.
pub open spec fn empty_tail() -> TailModel {
    TailModel {
        stdout_tail: Seq::empty(),
        stderr_tail: Seq::empty(),
        stdout_bytes_total: 0,
        stderr_bytes_total: 0,
    }
}

impl Clone for CommandOutputTail {
    fn clone(&self) -> (r: Self)
        ensures
            r@ == self@,
    {
        CommandOutputTail {
            stdout_tail: self.stdout_tail.clone(),
            stderr_tail: self.stderr_tail.clone(),
            stdout_bytes_total: self.stdout_bytes_total,
            stderr_bytes_total: self.stderr_bytes_total,
        }
    }
}

impl Default for CommandOutputTail {
    fn default() -> (r: Self)
        ensures
            r@ == empty_tail(),
    {
        CommandOutputTail {
            stdout_tail: String::new(),
            stderr_tail: String::new(),
            stdout_bytes_total: 0,
            stderr_bytes_total: 0,
        }
    }
}

/// The pipe that a chunk of output came from.
#[derive(Debug, Clone, Copy, PartialEq, Eq, Structural)]
pub enum CommandOutputStream {
    Stdout,
    Stderr,
}

/// Opaque identifier of a model request.
#[derive(Debug, Clone, Copy, PartialEq, Eq, Hash, Structural)]
pub struct RequestId(pub u64);

impl RequestId {
    pub fn new(raw: u64) -> (r: Self)
        ensures
            r == RequestId(raw),
    {
        RequestId(raw)
    }

    pub fn as_u64(self) -> (r: u64)
        ensures
            r == self.0,
    {
        self.0
    }
}

/// Coarse-grained runtime status of the core.
#[derive(Debug, Clone, Copy, PartialEq, Eq, Structural)]
pub enum Status {
    /// No request is in flight.
    Idle,
    /// A request has been issued but no delta has been received yet.
    AwaitingModel,
    /// The current request has begun to stream content or reasoning.
    Streaming,
    /// The model asked for tools, which the shell is executing.
    ToolRunning,
    /// At least one tool call waits for the user's approval.
    AwaitingApproval,
}

impl Default for Status {
    fn default() -> (r: Self)
        ensures
            r == Status::Idle,
    {
        Status::Idle
    }
}

/// The pieces of the assistant's response that have arrived.
#[derive(Debug, Clone, PartialEq, Eq)]
pub struct PendingResponse {
    pub content: String,
    pub reasoning: String,
    pub finish_reason: Option<String>,
}

/// A [`PendingResponse`] as a mathematical value.
#[verifier::ext_equal]
pub struct ResponseModel {
    pub content: Seq<char>,
    pub reasoning: Seq<char>,
    pub finish_reason: Option<Seq<char>>,
}

impl View for PendingResponse {
    type V = ResponseModel;

    open spec fn view(&self) -> ResponseModel {
        ResponseModel {
            content: self.content@,
            reasoning: self.reasoning@,
            finish_reason: maybe(self.finish_reason),
        }
    }
}

/// Nothing has arrived yet.
pub open spec fn empty_response() -> ResponseModel {
    ResponseModel { content: Seq::empty(), reasoning: Seq::empty(), finish_reason: None }
}

impl Default for PendingResponse {
    fn default() -> (r: Self)
        ensures
            r@ == empty_response(),
    {
        PendingResponse { content: String::new(), reasoning: String::new(), finish_reason: None }
    }
}

/// Input event fed to the core.
#[derive(Debug, Clone, PartialEq, Eq)]
pub enum Event {
    /// The user submitted a new prompt. Ignored while a request is in flight.
    UserMessage(String),
    /// The user asked to abort the current request.
    Cancel,
    /// A content delta arrived.
    ContentDelta { request: RequestId, text: String },
    /// A reasoning delta arrived.
    ReasoningDelta { request: RequestId, text: String },
    /// A fragment of a tool call arrived. Fragments with the same `index`
    /// belong together: the first id and the first name win, and the
    /// arguments are concatenated.
    ToolCallDelta {
        request: RequestId,
        index: u64,
        id: Option<String>,
        function_name: Option<String>,
        arguments_fragment: Option<String>,
    },
    /// The response is complete.
    Finish { request: RequestId, reason: Option<String> },
    /// A tool execution completed.
    ToolResult { request: RequestId, call_id: String, outcome: ToolOutcome },
    /// The preview of a patch is there, and waits for approval.
    PatchPreviewReady {
        request: RequestId,
        call_id: String,
        preview_hashes: Vec<PreviewHash>,
        preview: PatchPreview,
    },
    /// The user approved a call.
    ApproveToolCall { call_id: String },
    /// The user rejected a call.
    RejectToolCall { call_id: String },
    /// A running command wrote something.
    CommandOutputChunk {
        request: RequestId,
        call_id: String,
        stream: CommandOutputStream,
        bytes: Vec<u8>,
    },
    /// The transport reported an unrecoverable error.
    TransportError { request: RequestId, message: String },
    /// The request took too long.
    Timeout { request: RequestId },
}

/// An [`Event`] as a mathematical value.
#[verifier::ext_equal]
pub enum EventModel {
    UserMessage(Seq<char>),
    Cancel,
    ContentDelta { request: RequestId, text: Seq<char> },
    ReasoningDelta { request: RequestId, text: Seq<char> },
    ToolCallDelta {
        request: RequestId,
        index: u64,
        id: Option<Seq<char>>,
        function_name: Option<Seq<char>>,
        arguments_fragment: Option<Seq<char>>,
    },
    Finish { request: RequestId, reason: Option<Seq<char>> },
    ToolResult { request: RequestId, call_id: Seq<char>, outcome: OutcomeModel },
    PatchPreviewReady {
        request: RequestId,
        call_id: Seq<char>,
        preview_hashes: Seq<PreviewHashModel>,
        preview: PatchPreviewModel,
    },
    ApproveToolCall { call_id: Seq<char> },
    RejectToolCall { call_id: Seq<char> },
    CommandOutputChunk {
        request: RequestId,
        call_id: Seq<char>,
        stream: CommandOutputStream,
        bytes: Seq<u8>,
    },
    TransportError { request: RequestId, message: Seq<char> },
    Timeout { request: RequestId },
}

impl View for Event {
    type V = EventModel;

    open spec fn view(&self) -> EventModel {
        match self {
            Event::UserMessage(text) => EventModel::UserMessage(text@),
            Event::Cancel => EventModel::Cancel,
            Event::ContentDelta { request, text } => EventModel::ContentDelta {
                request: *request,
                text: text@,
            },
            Event::ReasoningDelta { request, text } => EventModel::ReasoningDelta {
                request: *request,
                text: text@,
            },
            Event::ToolCallDelta { request, index, id, function_name, arguments_fragment } => {
                EventModel::ToolCallDelta {
                    request: *request,
                    index: *index,
                    id: maybe(*id),
                    function_name: maybe(*function_name),
                    arguments_fragment: maybe(*arguments_fragment),
                }
            },
            Event::Finish { request, reason } => EventModel::Finish {
                request: *request,
                reason: maybe(*reason),
            },
            Event::ToolResult { request, call_id, outcome } => EventModel::ToolResult {
                request: *request,
                call_id: call_id@,
                outcome: outcome@,
            },
            Event::PatchPreviewReady { request, call_id, preview_hashes, preview } => {
                EventModel::PatchPreviewReady {
                    request: *request,
                    call_id: call_id@,
                    preview_hashes: deep(preview_hashes@),
                    preview: preview@,
                }
            },
            Event::ApproveToolCall { call_id } => EventModel::ApproveToolCall {
                call_id: call_id@,
            },
            Event::RejectToolCall { call_id } => EventModel::RejectToolCall { call_id: call_id@ },
            Event::CommandOutputChunk { request, call_id, stream, bytes } => {
                EventModel::CommandOutputChunk {
                    request: *request,
                    call_id: call_id@,
                    stream: *stream,
                    bytes: bytes@,
                }
            },
            Event::TransportError { request, message } => EventModel::TransportError {
                request: *request,
                message: message@,
            },
            Event::Timeout { request } => EventModel::Timeout { request: *request },
        }
    }
}

/// Output action produced by the core for the surrounding shell.
#[derive(Debug, Clone, PartialEq, Eq)]
pub enum Action {
    /// Hand `messages` to the transport, and tag what comes back with `id`.
    StartRequest { id: RequestId, messages: Vec<ChatMessage> },
    /// Abort the request.
    CancelRequest { id: RequestId },
    /// Run a read-only tool.
    ExecuteTool { request: RequestId, call_id: String, invocation: ReadOnlyTool },
    /// Compute the preview of a patch, without touching the filesystem.
    PreviewPatch { request: RequestId, call_id: String, invocation: PatchInvocation },
    /// Apply a patch that the user approved.
    ApplyPatch {
        request: RequestId,
        call_id: String,
        invocation: PatchInvocation,
        preview_hashes: Vec<PreviewHash>,
    },
    /// Run a command that the user approved.
    ExecuteCommand { request: RequestId, call_id: String, invocation: CommandInvocation },
    /// Abort the tool executions of a request that have not reported yet.
    CancelToolExecution { request: RequestId },
    /// Show a diagnostic message to the user.
    ReportError { message: String },
    /// Something visible changed.
    Redraw,
}

/// An [`Action`] as a mathematical value.
#[verifier::ext_equal]
pub enum ActionModel {
    StartRequest { id: RequestId, messages: Seq<MessageModel> },
    CancelRequest { id: RequestId },
    ExecuteTool { request: RequestId, call_id: Seq<char>, invocation: ReadOnlyModel },
    PreviewPatch { request: RequestId, call_id: Seq<char>, invocation: Seq<EditModel> },
    ApplyPatch {
        request: RequestId,
        call_id: Seq<char>,
        invocation: Seq<EditModel>,
        preview_hashes: Seq<PreviewHashModel>,
    },
    ExecuteCommand { request: RequestId, call_id: Seq<char>, invocation: Seq<Seq<char>> },
    CancelToolExecution { request: RequestId },
    ReportError { message: Seq<char> },
    Redraw,
}

impl View for Action {
    type V = ActionModel;

    open spec fn view(&self) -> ActionModel {
        match self {
            Action::StartRequest { id, messages } => ActionModel::StartRequest {
                id: *id,
                messages: deep(messages@),
            },
            Action::CancelRequest { id } => ActionModel::CancelRequest { id: *id },
            Action::ExecuteTool { request, call_id, invocation } => ActionModel::ExecuteTool {
                request: *request,
                call_id: call_id@,
                invocation: invocation@,
            },
            Action::PreviewPatch { request, call_id, invocation } => ActionModel::PreviewPatch {
                request: *request,
                call_id: call_id@,
                invocation: invocation@,
            },
            Action::ApplyPatch { request, call_id, invocation, preview_hashes } => {
                ActionModel::ApplyPatch {
                    request: *request,
                    call_id: call_id@,
                    invocation: invocation@,
                    preview_hashes: deep(preview_hashes@),
                }
            },
            Action::ExecuteCommand { request, call_id, invocation } => {
                ActionModel::ExecuteCommand {
                    request: *request,
                    call_id: call_id@,
                    invocation: invocation@,
                }
            },
            Action::CancelToolExecution { request } => ActionModel::CancelToolExecution {
                request: *request,
            },
            Action::ReportError { message } => ActionModel::ReportError { message: message@ },
            Action::Redraw => ActionModel::Redraw,
        }
    }
}

/// A single tool call as a user interface shows it.
#[derive(Debug, Clone, PartialEq, Eq)]
pub struct ActiveToolCall {
    pub call_id: String,
    pub function_name: String,
    pub arguments_json: String,
    pub outcome: Option<ToolOutcome>,
    /// Whether the model is still emitting fragments.
    pub is_streaming: bool,
    pub approval: ApprovalState,
    pub patch_preview: Option<PatchPreview>,
    pub preview_hashes: Vec<PreviewHash>,
    pub command_preview: Option<CommandPreview>,
    pub command_output_tail: Option<CommandOutputTail>,
}

/// An [`ActiveToolCall`] as a mathematical value.
#[verifier::ext_equal]
pub struct ActiveModel {
    pub call_id: Seq<char>,
    pub function_name: Seq<char>,
    pub arguments_json: Seq<char>,
    pub outcome: Option<OutcomeModel>,
    pub is_streaming: bool,
    pub approval: ApprovalState,
    pub patch_preview: Option<PatchPreviewModel>,
    pub preview_hashes: Seq<PreviewHashModel>,
    pub command_preview: Option<CommandPreviewModel>,
    pub command_output_tail: Option<TailModel>,
}

impl View for ActiveToolCall {
    type V = ActiveModel;

    open spec fn view(&self) -> ActiveModel {
        ActiveModel {
            call_id: self.call_id@,
            function_name: self.function_name@,
            arguments_json: self.arguments_json@,
            outcome: maybe(self.outcome),
            is_streaming: self.is_streaming,
            approval: self.approval,
            patch_preview: maybe(self.patch_preview),
            preview_hashes: deep(self.preview_hashes@),
            command_preview: maybe(self.command_preview),
            command_output_tail: maybe(self.command_output_tail),
        }
    }
}

} // verus!
