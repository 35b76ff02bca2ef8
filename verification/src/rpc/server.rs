//! The session of one client.
//!
//! [`RpcSession`] keeps the core and what goes on around it. Each of its
//! functions takes in one thing that happened, and says what is to be sent,
//! started and stopped, in order.
use vstd::prelude::*;
use vstd::string::*;

use super::transcript::{ApprovalKind, SessionEndReason, TranscriptModel, TranscriptRecord};
use super::wire::{
    error_text, incoming_of_line, parse_incoming, refusal_of, string_member, success_text,
    ErrorModel, ErrorResponse, Incoming, IncomingModel, LineError, LineErrorModel, SuccessResponse,
    CODE_INVALID_PARAMS, CODE_METHOD_NOT_FOUND,
};
use crate::deepseek::{
    transport_error_text, StreamEvent, StreamEventModel, TransportError, TransportErrorModel,
};
use crate::json::{
    parsed, quote, quote_or_null, quoted, quoted_or_null, required, unsigned, JsonDoc, NodeModel,
};
use crate::model::{deep, maybe};
use crate::sansio::agent::engine::{approval_wanted, AgentCore};
use crate::sansio::agent::errors::{
    CommandError, CommandErrorModel, OutcomeModel, PatchError, ToolErrorModel, ToolExecutionError,
    ToolOutcome,
};
use crate::sansio::agent::metrics::AgentMetrics;
use crate::sansio::agent::state::{new_core, step, CoreModel};
use crate::sansio::agent::tools::{
    definition, CommandInvocation, EditModel, PatchInvocation, ReadOnlyModel, ReadOnlyTool,
    COMMAND_DESCRIPTION, COMMAND_PARAMS_SCHEMA, LIST_DESCRIPTION, LIST_PARAMS_SCHEMA,
    PATCH_DESCRIPTION, PATCH_PARAMS_SCHEMA, READ_DESCRIPTION, READ_PARAMS_SCHEMA,
    SEARCH_DESCRIPTION, SEARCH_PARAMS_SCHEMA,
};
use crate::sansio::agent::types::{
    Action, ActionModel, CommandOutputStream, Event, EventModel, PatchPreview, PatchPreviewModel,
    PreviewHash, PreviewHashModel, RequestId, Status,
};
use crate::sansio::deepseek::{
    clone_calls, clone_text, clone_texts, CallModel, ChatMessage, ChatRequest, MessageModel,
    RequestModel, ToolCall, ToolDefModel,
};
use crate::sansio::tui::{build_render_state, grid_of, render, GridModel, RenderedGrid, UiState};
use crate::session::ApprovalDecision;
use crate::text::{cat, cat3, decimal, decimal_of, same};

verus! {

broadcast use crate::model::group_deep;

/// Something that is to be done, in order.
#[derive(Debug, PartialEq, Eq)]
pub enum Output {
    /// Answer a request. The line has its end.
    Reply { id: Option<u64>, line: String },
    /// Answer a request with what a terminal would show.
    Grid { id: u64, grid: RenderedGrid },
    /// Answer a request with the counts.
    Metrics { id: u64, metrics: AgentMetrics },
    /// Tell the client, and the transcript.
    Notice { method: &'static str, record: TranscriptRecord },
    /// Send a request to the model.
    StartStream { id: RequestId, request: ChatRequest },
    /// Drop the response of the model.
    DropStream,
    /// Run a tool that only reads.
    RunTool { request: RequestId, call_id: String, tool: ReadOnlyTool },
    /// Abort the tools of a request.
    AbortTools { request: RequestId },
    /// Find out what a patch would do.
    PreviewPatch { request: RequestId, call_id: String, edits: PatchInvocation },
    /// Apply a patch.
    ApplyPatch {
        request: RequestId,
        call_id: String,
        edits: PatchInvocation,
        hashes: Vec<PreviewHash>,
    },
    /// Start a command.
    StartCommand { request: RequestId, call_id: String, command: CommandInvocation },
    /// Stop the command that runs.
    StopCommand,
    /// End the session.
    Quit,
}

/// An [`Output`] as a mathematical value.
#[verifier::ext_equal]
pub enum OutputModel {
    Reply { id: Option<u64>, line: Seq<char> },
    Grid { id: u64, grid: GridModel },
    Metrics { id: u64, metrics: AgentMetrics },
    Notice { method: Seq<char>, record: TranscriptModel },
    StartStream { id: RequestId, request: RequestModel },
    DropStream,
    RunTool { request: RequestId, call_id: Seq<char>, tool: ReadOnlyModel },
    AbortTools { request: RequestId },
    PreviewPatch { request: RequestId, call_id: Seq<char>, edits: Seq<EditModel> },
    ApplyPatch {
        request: RequestId,
        call_id: Seq<char>,
        edits: Seq<EditModel>,
        hashes: Seq<PreviewHashModel>,
    },
    StartCommand { request: RequestId, call_id: Seq<char>, command: Seq<Seq<char>> },
    StopCommand,
    Quit,
}

impl View for Output {
    type V = OutputModel;

    open spec fn view(&self) -> OutputModel {
        match self {
            Output::Reply { id, line } => OutputModel::Reply { id: *id, line: line@ },
            Output::Grid { id, grid } => OutputModel::Grid { id: *id, grid: grid@ },
            Output::Metrics { id, metrics } => OutputModel::Metrics { id: *id, metrics: *metrics },
            Output::Notice { method, record } => OutputModel::Notice {
                method: method@,
                record: record@,
            },
            Output::StartStream { id, request } => OutputModel::StartStream {
                id: *id,
                request: request@,
            },
            Output::DropStream => OutputModel::DropStream,
            Output::RunTool { request, call_id, tool } => OutputModel::RunTool {
                request: *request,
                call_id: call_id@,
                tool: tool@,
            },
            Output::AbortTools { request } => OutputModel::AbortTools { request: *request },
            Output::PreviewPatch { request, call_id, edits } => OutputModel::PreviewPatch {
                request: *request,
                call_id: call_id@,
                edits: edits@,
            },
            Output::ApplyPatch { request, call_id, edits, hashes } => OutputModel::ApplyPatch {
                request: *request,
                call_id: call_id@,
                edits: edits@,
                hashes: deep(hashes@),
            },
            Output::StartCommand { request, call_id, command } => OutputModel::StartCommand {
                request: *request,
                call_id: call_id@,
                command: command@,
            },
            Output::StopCommand => OutputModel::StopCommand,
            Output::Quit => OutputModel::Quit,
        }
    }
}

/// What a tool has to report.
#[derive(Debug, PartialEq, Eq)]
pub enum ToolFeedback {
    Result { request: RequestId, call_id: String, outcome: ToolOutcome },
    PatchPreviewReady {
        request: RequestId,
        call_id: String,
        preview_hashes: Vec<PreviewHash>,
        preview: PatchPreview,
    },
    PatchPreviewFailed { request: RequestId, call_id: String, outcome: ToolOutcome },
    CommandOutputChunk {
        request: RequestId,
        call_id: String,
        stream: CommandOutputStream,
        bytes: Vec<u8>,
    },
}

/// A [`ToolFeedback`] as a mathematical value.
#[verifier::ext_equal]
pub enum FeedbackModel {
    Result { request: RequestId, call_id: Seq<char>, outcome: OutcomeModel },
    PatchPreviewReady {
        request: RequestId,
        call_id: Seq<char>,
        preview_hashes: Seq<PreviewHashModel>,
        preview: PatchPreviewModel,
    },
    PatchPreviewFailed { request: RequestId, call_id: Seq<char>, outcome: OutcomeModel },
    CommandOutputChunk {
        request: RequestId,
        call_id: Seq<char>,
        stream: CommandOutputStream,
        bytes: Seq<u8>,
    },
}

impl View for ToolFeedback {
    type V = FeedbackModel;

    open spec fn view(&self) -> FeedbackModel {
        match self {
            ToolFeedback::Result { request, call_id, outcome } => FeedbackModel::Result {
                request: *request,
                call_id: call_id@,
                outcome: outcome@,
            },
            ToolFeedback::PatchPreviewReady { request, call_id, preview_hashes, preview } => {
                FeedbackModel::PatchPreviewReady {
                    request: *request,
                    call_id: call_id@,
                    preview_hashes: deep(preview_hashes@),
                    preview: preview@,
                }
            },
            ToolFeedback::PatchPreviewFailed { request, call_id, outcome } => {
                FeedbackModel::PatchPreviewFailed {
                    request: *request,
                    call_id: call_id@,
                    outcome: outcome@,
                }
            },
            ToolFeedback::CommandOutputChunk { request, call_id, stream, bytes } => {
                FeedbackModel::CommandOutputChunk {
                    request: *request,
                    call_id: call_id@,
                    stream: *stream,
                    bytes: bytes@,
                }
            },
        }
    }
}

/// A command that waits for its turn.
#[verifier::ext_equal]
pub struct QueuedModel {
    pub request: RequestId,
    pub call_id: Seq<char>,
    pub command: Seq<Seq<char>>,
}

struct PendingCommand {
    request: RequestId,
    call_id: String,
    invocation: CommandInvocation,
}

impl View for PendingCommand {
    type V = QueuedModel;

    closed spec fn view(&self) -> QueuedModel {
        QueuedModel {
            request: self.request,
            call_id: self.call_id@,
            command: self.invocation@,
        }
    }
}

/// The call and its kind.
#[verifier::ext_equal]
pub struct KindModel {
    pub call_id: Seq<char>,
    pub kind: ApprovalKind,
}

struct CallKind {
    call_id: String,
    kind: ApprovalKind,
}

impl View for CallKind {
    type V = KindModel;

    closed spec fn view(&self) -> KindModel {
        KindModel { call_id: self.call_id@, kind: self.kind }
    }
}

/// An [`RpcSession`] as a mathematical value.
#[verifier::ext_equal]
pub struct RpcModel {
    pub model: Seq<char>,
    pub core: CoreModel,
    /// The request whose response comes in.
    pub stream: Option<RequestId>,
    /// The command that runs: its request and its call.
    pub active: Option<(RequestId, Seq<char>)>,
    /// The commands that wait for their turn.
    pub queue: Seq<QueuedModel>,
    /// How many messages of the conversation the client was told of.
    pub told: nat,
    /// The call of which the client was told last that it waits.
    pub asked: Option<Seq<char>>,
    /// The kinds of the calls that were made, the newest last.
    pub kinds: Seq<KindModel>,
}

/// A step of the session: the state after it, and what is to be done.
pub type RpcStep = (RpcModel, Seq<OutputModel>);

/// What the client is told of an event before the core takes it in.
pub open spec fn event_notice(event: EventModel, ts: u64) -> Seq<OutputModel> {
    match event {
        EventModel::Cancel => seq![
            OutputModel::Notice {
                method: "event/cancel"@,
                record: TranscriptModel::Cancel { ts },
            },
        ],
        EventModel::TransportError { message, .. } => seq![
            OutputModel::Notice {
                method: "event/transport_error"@,
                record: TranscriptModel::TransportError { ts, message },
            },
        ],
        EventModel::Finish { reason, .. } => seq![
            OutputModel::Notice {
                method: "event/finish"@,
                record: TranscriptModel::Finish { ts, reason },
            },
        ],
        EventModel::PatchPreviewReady { call_id, preview, .. } => seq![
            OutputModel::Notice {
                method: "event/patch_preview_ready"@,
                record: TranscriptModel::PatchPreviewReady {
                    ts,
                    call_id,
                    target_paths: preview.target_paths,
                    added_lines: preview.added_lines,
                    removed_lines: preview.removed_lines,
                    edit_count: preview.edit_count,
                },
            },
        ],
        EventModel::ApproveToolCall { call_id } => seq![
            OutputModel::Notice {
                method: "event/tool_approval"@,
                record: TranscriptModel::ToolApproval {
                    ts,
                    call_id,
                    decision: ApprovalDecision::Approve,
                },
            },
        ],
        EventModel::RejectToolCall { call_id } => seq![
            OutputModel::Notice {
                method: "event/tool_approval"@,
                record: TranscriptModel::ToolApproval {
                    ts,
                    call_id,
                    decision: ApprovalDecision::Reject,
                },
            },
        ],
        _ => Seq::empty(),
    }
}

/// What the client is told of a message. Of system messages it is told
/// nothing.
pub open spec fn message_notice(m: MessageModel, ts: u64) -> Seq<OutputModel> {
    match m {
        MessageModel::User(text) => seq![
            OutputModel::Notice {
                method: "event/user_message"@,
                record: TranscriptModel::UserMessage { ts, text },
            },
        ],
        MessageModel::Assistant { content, reasoning_content, tool_calls } => seq![
            OutputModel::Notice {
                method: "event/assistant_message"@,
                record: TranscriptModel::AssistantMessage {
                    ts,
                    content,
                    reasoning: reasoning_content,
                    tool_calls,
                },
            },
        ],
        MessageModel::Tool { tool_call_id, content } => seq![
            OutputModel::Notice {
                method: "event/tool_result"@,
                record: TranscriptModel::ToolResult { ts, call_id: tool_call_id, content },
            },
        ],
        MessageModel::System(_) => Seq::empty(),
    }
}

/// The kind of a tool that can wait for approval.
pub open spec fn approval_kind(name: Seq<char>) -> Option<ApprovalKind> {
    if name == "patch"@ {
        Some(ApprovalKind::Patch)
    } else if name == "command"@ {
        Some(ApprovalKind::Command)
    } else {
        None
    }
}

/// The kinds once calls were made.
pub open spec fn kinds_with(kinds: Seq<KindModel>, calls: Seq<CallModel>) -> Seq<KindModel>
    decreases calls.len(),
{
    if calls.len() == 0 {
        kinds
    } else {
        let before = kinds_with(kinds, calls.drop_last());
        match approval_kind(calls.last().function_name) {
            Some(kind) => before.push(KindModel { call_id: calls.last().id, kind }),
            None => before,
        }
    }
}

/// The kinds once a message was made.
pub open spec fn kinds_after(kinds: Seq<KindModel>, m: MessageModel) -> Seq<KindModel> {
    match m {
        MessageModel::Assistant { tool_calls, .. } => kinds_with(kinds, tool_calls),
        _ => kinds,
    }
}

/// The kind of a call: the newest that is known of its id, or else a patch.
pub open spec fn kind_of_call(kinds: Seq<KindModel>, call_id: Seq<char>) -> ApprovalKind
    decreases kinds.len(),
{
    if kinds.len() == 0 {
        ApprovalKind::Patch
    } else if kinds.last().call_id == call_id {
        kinds.last().kind
    } else {
        kind_of_call(kinds.drop_last(), call_id)
    }
}

/// The client is told of the messages up to the `n`-th.
pub open spec fn tell_messages(m: RpcModel, n: nat, ts: u64) -> RpcStep
    decreases n,
{
    if n <= m.told {
        (m, Seq::empty())
    } else {
        let (before, outputs) = tell_messages(m, (n - 1) as nat, ts);
        let message = m.core.conversation[n - 1];
        (
            RpcModel { told: n, kinds: kinds_after(before.kinds, message), ..before },
            outputs + message_notice(message, ts),
        )
    }
}

/// The client is told which call waits for approval, unless it knows.
pub open spec fn tell_approval(m: RpcModel, ts: u64) -> RpcStep {
    let current = approval_wanted(m.core);
    if m.asked == current {
        (m, Seq::empty())
    } else {
        (
            RpcModel { asked: current, ..m },
            match current {
                Some(call_id) => seq![
                    OutputModel::Notice {
                        method: "event/tool_approval_required"@,
                        record: TranscriptModel::ToolApprovalRequired {
                            ts,
                            call_id,
                            tool_kind: kind_of_call(m.kinds, call_id),
                        },
                    },
                ],
                None => Seq::empty(),
            },
        )
    }
}

/// The tools that the model is offered.
pub open spec fn rpc_tools() -> Seq<ToolDefModel> {
    seq![
        definition("list"@, LIST_DESCRIPTION@, LIST_PARAMS_SCHEMA@),
        definition("read"@, READ_DESCRIPTION@, READ_PARAMS_SCHEMA@),
        definition("search"@, SEARCH_DESCRIPTION@, SEARCH_PARAMS_SCHEMA@),
        definition("patch"@, PATCH_DESCRIPTION@, PATCH_PARAMS_SCHEMA@),
        definition("command"@, COMMAND_DESCRIPTION@, COMMAND_PARAMS_SCHEMA@),
    ]
}

/// The commands that are not of a request.
pub open spec fn without_request(queue: Seq<QueuedModel>, request: RequestId) -> Seq<QueuedModel>
    decreases queue.len(),
{
    if queue.len() == 0 {
        Seq::empty()
    } else if queue.last().request == request {
        without_request(queue.drop_last(), request)
    } else {
        without_request(queue.drop_last(), request).push(queue.last())
    }
}

/// Whether the command that runs belongs to that request.
pub open spec fn runs_for(active: Option<(RequestId, Seq<char>)>, request: RequestId) -> bool {
    match active {
        Some(a) => a.0 == request,
        None => false,
    }
}

/// Whether the command that runs is that call.
pub open spec fn runs_call(active: Option<(RequestId, Seq<char>)>, call_id: Seq<char>) -> bool {
    match active {
        Some(a) => a.1 == call_id,
        None => false,
    }
}

/// What is done about an action of the core. Commands run one at a time.
pub open spec fn action_step(m: RpcModel, a: ActionModel) -> RpcStep {
    match a {
        ActionModel::StartRequest { id, messages } => (
            RpcModel { stream: Some(id), ..m },
            seq![
                OutputModel::StartStream {
                    id,
                    request: RequestModel {
                        model: m.model,
                        messages,
                        tools: rpc_tools(),
                        max_tokens: None,
                    },
                },
            ],
        ),
        ActionModel::CancelRequest { .. } => (
            RpcModel { stream: None, ..m },
            seq![OutputModel::DropStream],
        ),
        ActionModel::ExecuteTool { request, call_id, invocation } => (
            m,
            seq![OutputModel::RunTool { request, call_id, tool: invocation }],
        ),
        ActionModel::CancelToolExecution { request } => (
            RpcModel { queue: without_request(m.queue, request), ..m },
            seq![OutputModel::AbortTools { request }] + (if runs_for(m.active, request) {
                seq![OutputModel::StopCommand]
            } else {
                Seq::empty()
            }),
        ),
        ActionModel::PreviewPatch { request, call_id, invocation } => (
            m,
            seq![OutputModel::PreviewPatch { request, call_id, edits: invocation }],
        ),
        ActionModel::ApplyPatch { request, call_id, invocation, preview_hashes } => (
            m,
            seq![
                OutputModel::ApplyPatch {
                    request,
                    call_id,
                    edits: invocation,
                    hashes: preview_hashes,
                },
            ],
        ),
        ActionModel::ExecuteCommand { request, call_id, invocation } => if m.active is Some {
            (
                RpcModel {
                    queue: m.queue.push(QueuedModel { request, call_id, command: invocation }),
                    ..m
                },
                Seq::empty(),
            )
        } else {
            (
                RpcModel { active: Some((request, call_id)), ..m },
                seq![OutputModel::StartCommand { request, call_id, command: invocation }],
            )
        },
        ActionModel::ReportError { .. } => (m, Seq::empty()),
        ActionModel::Redraw => (m, Seq::empty()),
    }
}

/// What is done about actions of the core, in order.
pub open spec fn actions_step(m: RpcModel, actions: Seq<ActionModel>) -> RpcStep
    decreases actions.len(),
{
    if actions.len() == 0 {
        (m, Seq::empty())
    } else {
        let (before, outputs) = actions_step(m, actions.drop_last());
        let (after, more) = action_step(before, actions.last());
        (after, outputs + more)
    }
}

/// The core takes in an event. The client is told of it, of the messages
/// that it brought and of a call that waits; then the actions are done.
pub open spec fn dispatch_step(m: RpcModel, event: EventModel, ts: u64) -> RpcStep {
    let (core, actions) = step(m.core, event);
    let n = RpcModel { core, ..m };
    let (o, messages) = tell_messages(n, core.conversation.len(), ts);
    let (p, approval) = tell_approval(o, ts);
    let (q, outputs) = actions_step(p, actions);
    (q, event_notice(event, ts) + messages + approval + outputs)
}

/// A command has ended: the next one in the queue starts.
pub open spec fn command_ended(m: RpcModel, call_id: Seq<char>) -> RpcStep {
    if runs_call(m.active, call_id) {
        if m.queue.len() == 0 {
            (RpcModel { active: None, ..m }, Seq::empty())
        } else {
            let next = m.queue[0];
            (
                RpcModel {
                    active: Some((next.request, next.call_id)),
                    queue: m.queue.skip(1),
                    ..m
                },
                seq![
                    OutputModel::StartCommand {
                        request: next.request,
                        call_id: next.call_id,
                        command: next.command,
                    },
                ],
            )
        }
    } else {
        (m, Seq::empty())
    }
}

/// What the client is told of the output of a command.
pub open spec fn chunk_notice(
    call_id: Seq<char>,
    stream: CommandOutputStream,
    bytes: Seq<u8>,
    ts: u64,
) -> OutputModel {
    OutputModel::Notice {
        method: "event/command_output_chunk"@,
        record: TranscriptModel::CommandOutputChunk { ts, call_id, stream, bytes },
    }
}

/// A tool has reported.
pub open spec fn feedback_step(m: RpcModel, f: FeedbackModel, ts: u64) -> RpcStep {
    match f {
        FeedbackModel::Result { request, call_id, outcome } => {
            let (n, started) = command_ended(m, call_id);
            let (o, outputs) = dispatch_step(
                n,
                EventModel::ToolResult { request, call_id, outcome },
                ts,
            );
            (o, started + outputs)
        },
        FeedbackModel::PatchPreviewReady { request, call_id, preview_hashes, preview } =>
            dispatch_step(
            m,
            EventModel::PatchPreviewReady { request, call_id, preview_hashes, preview },
            ts,
        ),
        FeedbackModel::PatchPreviewFailed { request, call_id, outcome } => dispatch_step(
            m,
            EventModel::ToolResult { request, call_id, outcome },
            ts,
        ),
        FeedbackModel::CommandOutputChunk { request, call_id, stream, bytes } => {
            let (o, outputs) = dispatch_step(
                m,
                EventModel::CommandOutputChunk { request, call_id, stream, bytes },
                ts,
            );
            (
                o,
                seq![chunk_notice(call_id, stream, bytes, ts)] + outputs,
            )
        },
    }
}

/// The event of the core that an event of the stream stands for. Comments
/// stand for none.
pub open spec fn core_event(e: StreamEventModel, request: RequestId) -> Option<EventModel> {
    match e {
        StreamEventModel::ContentDelta(text) => Some(EventModel::ContentDelta { request, text }),
        StreamEventModel::ReasoningDelta(text) => Some(
            EventModel::ReasoningDelta { request, text },
        ),
        StreamEventModel::ToolCallDelta(d) => Some(
            EventModel::ToolCallDelta {
                request,
                index: d.index,
                id: d.id,
                function_name: d.function_name,
                arguments_fragment: d.arguments_fragment,
            },
        ),
        StreamEventModel::Comment(_) => None,
        StreamEventModel::Finish { reason } => Some(EventModel::Finish { request, reason }),
    }
}

/// The response of the model has brought an event.
pub open spec fn stream_event_step(m: RpcModel, e: StreamEventModel, ts: u64) -> RpcStep {
    match m.stream {
        None => (m, Seq::empty()),
        Some(request) => match core_event(e, request) {
            None => (m, Seq::empty()),
            Some(event) => dispatch_step(m, event, ts),
        },
    }
}

/// The response of the model has broken off.
pub open spec fn stream_error_step(m: RpcModel, e: TransportErrorModel, ts: u64) -> RpcStep {
    match m.stream {
        None => (m, Seq::empty()),
        Some(request) => {
            let (n, outputs) = dispatch_step(
                m,
                EventModel::TransportError { request, message: transport_error_text(e) },
                ts,
            );
            (RpcModel { stream: None, ..n }, outputs)
        },
    }
}

/// A result is sent.
pub open spec fn reply(id: u64, result: Seq<char>) -> OutputModel {
    OutputModel::Reply { id: Some(id), line: success_text(id, result).push('\n') }
}

/// An error is sent.
pub open spec fn error_reply(e: ErrorModel) -> OutputModel {
    OutputModel::Reply { id: e.id, line: error_text(e).push('\n') }
}

/// Parameters do not fit.
pub open spec fn bad_params(m: RpcModel, id: u64, message: Seq<char>) -> RpcStep {
    (
        m,
        seq![error_reply(ErrorModel { id: Some(id), code: CODE_INVALID_PARAMS, message })],
    )
}

/// A truth value under a name.
pub open spec fn flag_text(name: Seq<char>, value: bool) -> Seq<char> {
    "{\""@ + name + "\":"@ + (if value {
        "true"@
    } else {
        "false"@
    }) + "}"@
}

/// A prompt is submitted. It is accepted if the core was idle.
pub open spec fn submit_step(
    m: RpcModel,
    id: u64,
    text: Result<Seq<char>, Seq<char>>,
    ts: u64,
) -> RpcStep {
    match text {
        Err(e) => bad_params(m, id, e),
        Ok(text) => {
            let (n, outputs) = dispatch_step(m, EventModel::UserMessage(text), ts);
            let accepted = m.core.status is Idle && !(n.core.status is Idle);
            (n, outputs.push(reply(id, flag_text("accepted"@, accepted))))
        },
    }
}

/// A call is approved or rejected. It is applied if that call waits.
pub open spec fn decide_step(
    m: RpcModel,
    id: u64,
    call_id: Result<Seq<char>, Seq<char>>,
    approve: bool,
    ts: u64,
) -> RpcStep {
    match call_id {
        Err(e) => bad_params(m, id, e),
        Ok(call_id) => if approval_wanted(m.core) == Some(call_id) {
            let (n, outputs) = dispatch_step(
                m,
                if approve {
                    EventModel::ApproveToolCall { call_id }
                } else {
                    EventModel::RejectToolCall { call_id }
                },
                ts,
            );
            (n, outputs.push(reply(id, flag_text("applied"@, true))))
        } else {
            (m, seq![reply(id, flag_text("applied"@, false))])
        },
    }
}

/// The name of a status.
pub open spec fn status_text(s: Status) -> Seq<char> {
    match s {
        Status::Idle => "idle"@,
        Status::AwaitingModel => "awaiting_model"@,
        Status::Streaming => "streaming"@,
        Status::ToolRunning => "tool_running"@,
        Status::AwaitingApproval => "awaiting_approval"@,
    }
}

/// The state of the session as JSON.
pub open spec fn state_text(m: RpcModel) -> Seq<char> {
    "{\"phase\":"@ + quoted(status_text(m.core.status)) + ",\"pending_approval_call_id\":"@
        + quoted_or_null(approval_wanted(m.core)) + ",\"conversation_length\":"@ + decimal(
        m.core.conversation.len(),
    ) + ",\"active_command_call_id\":"@ + quoted_or_null(
        match m.active {
            Some(a) => Some(a.1),
            None => None,
        },
    ) + "}"@
}

/// What a terminal of that size would show.
pub open spec fn grid_step(m: RpcModel, id: u64, size: Result<(usize, usize), Seq<char>>) -> RpcStep {
    match size {
        Err(e) => bad_params(m, id, e),
        Ok(size) => (
            m,
            seq![
                OutputModel::Grid {
                    id,
                    grid: grid_of(shown_state(m), size),
                },
            ],
        ),
    }
}

/// What a terminal would show of the session: no draft, and no error.
pub open spec fn shown_state(m: RpcModel) -> crate::sansio::tui::RenderModel {
    crate::sansio::tui::RenderModel {
        model: m.model,
        status: m.core.status,
        active: m.core.pending is Some,
        awaiting_approval: approval_wanted(m.core) is Some,
        draft: Seq::empty(),
        conversation: m.core.conversation,
        pending: match m.core.pending {
            Some(p) => Some(p.response),
            None => None,
        },
        active_tool_calls: crate::sansio::agent::engine::active_of(m.core),
        error_banner: None,
    }
}

/// A string among the parameters.
pub open spec fn string_param(params: Seq<char>, key: Seq<char>) -> Result<Seq<char>, Seq<char>> {
    match parsed(params) {
        Err(e) => Err(e),
        Ok(doc) => string_member(doc, key),
    }
}

/// A number among the parameters.
pub open spec fn number_param(doc: Seq<NodeModel>, key: Seq<char>) -> Result<u64, Seq<char>> {
    match required(doc, 0, key) {
        Err(e) => Err(e),
        Ok(j) => match unsigned(doc, j, u64::MAX as int) {
            Ok(n) => Ok(n as u64),
            Err(_) => Err(key + " must be a u64"@),
        },
    }
}

/// The size of a terminal that a document holds.
pub open spec fn size_of_doc(doc: Seq<NodeModel>) -> Result<(usize, usize), Seq<char>> {
    match number_param(doc, "rows"@) {
        Err(e) => Err(e),
        Ok(rows) => match number_param(doc, "cols"@) {
            Err(e) => Err(e),
            Ok(cols) => Ok((rows as usize, cols as usize)),
        },
    }
}

/// The size of a terminal among the parameters.
pub open spec fn size_param(params: Seq<char>) -> Result<(usize, usize), Seq<char>> {
    match parsed(params) {
        Err(e) => Err(e),
        Ok(doc) => size_of_doc(doc),
    }
}

/// A request of the client.
pub open spec fn request_step(
    m: RpcModel,
    id: u64,
    method: Seq<char>,
    params: Seq<char>,
    ts: u64,
) -> RpcStep {
    if method == "submit_prompt"@ {
        submit_step(m, id, string_param(params, "text"@), ts)
    } else if method == "approve"@ {
        decide_step(m, id, string_param(params, "call_id"@), true, ts)
    } else if method == "reject"@ {
        decide_step(m, id, string_param(params, "call_id"@), false, ts)
    } else if method == "cancel"@ {
        let (n, outputs) = dispatch_step(m, EventModel::Cancel, ts);
        (n, outputs.push(reply(id, "{}"@)))
    } else if method == "get_state"@ {
        (m, seq![reply(id, state_text(m))])
    } else if method == "get_metrics"@ {
        (m, seq![OutputModel::Metrics { id, metrics: m.core.metrics }])
    } else if method == "get_rendered_grid"@ {
        grid_step(m, id, size_param(params))
    } else if method == "quit"@ {
        (m, seq![reply(id, "{}"@), OutputModel::Quit])
    } else {
        (
            m,
            seq![
                error_reply(
                    ErrorModel {
                        id: Some(id),
                        code: CODE_METHOD_NOT_FOUND,
                        message: "method not found: "@ + method,
                    },
                ),
            ],
        )
    }
}

/// A message of the client. Notifications are ignored.
pub open spec fn incoming_step(
    m: RpcModel,
    incoming: Result<IncomingModel, LineErrorModel>,
    ts: u64,
) -> RpcStep {
    match incoming {
        Err(e) => (m, seq![error_reply(refusal_of(e))]),
        Ok(IncomingModel::Request { id, method, params_json }) => request_step(
            m,
            id,
            method,
            params_json,
            ts,
        ),
        Ok(IncomingModel::Notification { .. }) => (m, Seq::empty()),
    }
}

/// The session of one client.
pub struct RpcSession {
    model: String,
    agent: AgentCore,
    stream: Option<RequestId>,
    active: Option<(RequestId, String)>,
    queue: Vec<PendingCommand>,
    told: usize,
    asked: Option<String>,
    kinds: Vec<CallKind>,
}

impl View for RpcSession {
    type V = RpcModel;

    closed spec fn view(&self) -> RpcModel {
        RpcModel {
            model: self.model@,
            core: self.agent@,
            stream: self.stream,
            active: match self.active {
                Some(a) => Some((a.0, a.1@)),
                None => None,
            },
            queue: deep(self.queue@),
            told: self.told as nat,
            asked: maybe(self.asked),
            kinds: deep(self.kinds@),
        }
    }
}

/// The name of a status.
pub fn status_str(s: Status) -> (r: &'static str)
    ensures
        r@ == status_text(s),
{
    match s {
        Status::Idle => "idle",
        Status::AwaitingModel => "awaiting_model",
        Status::Streaming => "streaming",
        Status::ToolRunning => "tool_running",
        Status::AwaitingApproval => "awaiting_approval",
    }
}

/// Reads a string among the parameters.
pub fn parse_string_field(params_json: &str, key: &str) -> (r: Result<String, String>)
    ensures
        match r {
            Ok(s) => string_param(params_json@, key@) == Ok::<Seq<char>, Seq<char>>(s@),
            Err(e) => string_param(params_json@, key@) == Err::<Seq<char>, Seq<char>>(e@),
        },
{
    match JsonDoc::parse(params_json) {
        Err(e) => Err(e.message),
        Ok(doc) => match doc.required(0, key) {
            Err(e) => Err(e.message),
            Ok(j) => match doc.string(j) {
                Err(e) => Err(e.message),
                Ok(s) => Ok(s),
            },
        },
    }
}

fn read_number(doc: &JsonDoc, key: &str) -> (r: Result<u64, String>)
    requires
        doc.wf(),
    ensures
        match r {
            Ok(n) => number_param(doc@, key@) == Ok::<u64, Seq<char>>(n),
            Err(e) => number_param(doc@, key@) == Err::<u64, Seq<char>>(e@),
        },
{
    match doc.required(0, key) {
        Err(e) => Err(e.message),
        Ok(j) => match doc.unsigned(j, u64::MAX) {
            Ok(n) => Ok(n),
            Err(_) => Err(cat(key, " must be a u64")),
        },
    }
}

/// Reads the size of a terminal out of a document.
pub fn read_rows_cols(doc: &JsonDoc) -> (r: Result<(usize, usize), String>)
    requires
        doc.wf(),
    ensures
        match r {
            Ok(size) => size_of_doc(doc@) == Ok::<(usize, usize), Seq<char>>(size),
            Err(e) => size_of_doc(doc@) == Err::<(usize, usize), Seq<char>>(e@),
        },
{
    let rows: u64 = read_number(doc, "rows")?;
    let cols: u64 = read_number(doc, "cols")?;
    Ok((rows as usize, cols as usize))
}

/// Reads the size of a terminal among the parameters.
pub fn parse_rows_cols(params_json: &str) -> (r: Result<(usize, usize), String>)
    ensures
        match r {
            Ok(size) => size_param(params_json@) == Ok::<(usize, usize), Seq<char>>(size),
            Err(e) => size_param(params_json@) == Err::<(usize, usize), Seq<char>>(e@),
        },
{
    match JsonDoc::parse(params_json) {
        Err(e) => Err(e.message),
        Ok(doc) => read_rows_cols(&doc),
    }
}

/// The event of the core that an event of the stream stands for.
pub fn translate_stream_event(event: StreamEvent, request: RequestId) -> (r: Option<Event>)
    ensures
        maybe(r) == core_event(event@, request),
{
    match event {
        StreamEvent::ContentDelta(text) => Some(Event::ContentDelta { request, text }),
        StreamEvent::ReasoningDelta(text) => Some(Event::ReasoningDelta { request, text }),
        StreamEvent::ToolCallDelta { index, id, function_name, arguments_fragment } => Some(
            Event::ToolCallDelta { request, index, id, function_name, arguments_fragment },
        ),
        StreamEvent::Comment(_) => None,
        StreamEvent::Finish { reason } => Some(Event::Finish { request, reason }),
    }
}

/// What the client is told of an event before the core takes it in.
pub fn pre_event_record(event: &Event, ts: u64) -> (r: Vec<Output>)
    ensures
        deep(r@) == event_notice(event@, ts),
{
    let mut out: Vec<Output> = Vec::new();
    match event {
        Event::Cancel => {
            out.push(
                Output::Notice { method: "event/cancel", record: TranscriptRecord::Cancel { ts } },
            );
        },
        Event::TransportError { message, .. } => {
            out.push(
                Output::Notice {
                    method: "event/transport_error",
                    record: TranscriptRecord::TransportError { ts, message: message.clone() },
                },
            );
        },
        Event::Finish { reason, .. } => {
            out.push(
                Output::Notice {
                    method: "event/finish",
                    record: TranscriptRecord::Finish { ts, reason: clone_text(reason) },
                },
            );
        },
        Event::PatchPreviewReady { call_id, preview, .. } => {
            out.push(
                Output::Notice {
                    method: "event/patch_preview_ready",
                    record: TranscriptRecord::PatchPreviewReady {
                        ts,
                        call_id: call_id.clone(),
                        target_paths: clone_texts(&preview.target_paths),
                        added_lines: preview.added_lines,
                        removed_lines: preview.removed_lines,
                        edit_count: preview.edit_count,
                    },
                },
            );
        },
        Event::ApproveToolCall { call_id } => {
            out.push(
                Output::Notice {
                    method: "event/tool_approval",
                    record: TranscriptRecord::ToolApproval {
                        ts,
                        call_id: call_id.clone(),
                        decision: ApprovalDecision::Approve,
                    },
                },
            );
        },
        Event::RejectToolCall { call_id } => {
            out.push(
                Output::Notice {
                    method: "event/tool_approval",
                    record: TranscriptRecord::ToolApproval {
                        ts,
                        call_id: call_id.clone(),
                        decision: ApprovalDecision::Reject,
                    },
                },
            );
        },
        _ => {},
    }
    assert(deep(out@) =~= event_notice(event@, ts));
    out
}

fn push_message_notice(out: &mut Vec<Output>, m: &ChatMessage, ts: u64)
    ensures
        deep(final(out)@) == deep(old(out)@) + message_notice(m@, ts),
{
    let ghost before = deep(out@);
    match m {
        ChatMessage::User(text) => {
            out.push(
                Output::Notice {
                    method: "event/user_message",
                    record: TranscriptRecord::UserMessage { ts, text: text.clone() },
                },
            );
        },
        ChatMessage::Assistant { content, reasoning_content, tool_calls } => {
            out.push(
                Output::Notice {
                    method: "event/assistant_message",
                    record: TranscriptRecord::AssistantMessage {
                        ts,
                        content: content.clone(),
                        reasoning: clone_text(reasoning_content),
                        tool_calls: clone_calls(tool_calls),
                    },
                },
            );
        },
        ChatMessage::Tool { tool_call_id, content } => {
            out.push(
                Output::Notice {
                    method: "event/tool_result",
                    record: TranscriptRecord::ToolResult {
                        ts,
                        call_id: tool_call_id.clone(),
                        content: content.clone(),
                    },
                },
            );
        },
        ChatMessage::System(_) => {},
    }
    assert(deep(out@) =~= before + message_notice(m@, ts));
}

/// What came of a patch that was to be applied.
pub fn patch_outcome(reply: Result<(), PatchError>) -> (r: ToolOutcome)
    ensures
        r@ == match reply {
            Ok(_) => OutcomeModel::Success("{\"applied\":true}"@),
            Err(e) => OutcomeModel::Failure(ToolErrorModel::Patch(e@)),
        },
{
    match reply {
        Ok(_) => ToolOutcome::Success("{\"applied\":true}".to_owned()),
        Err(e) => ToolOutcome::Failure(ToolExecutionError::Patch(e)),
    }
}

/// What came of a command: what it printed, or why it could not be started.
pub fn command_outcome(reply: Result<String, String>) -> (r: ToolOutcome)
    ensures
        r@ == match reply {
            Ok(s) => OutcomeModel::Success(s@),
            Err(e) => OutcomeModel::Failure(
                ToolErrorModel::Command(CommandErrorModel::SpawnFailed { message: e@ }),
            ),
        },
{
    match reply {
        Ok(s) => ToolOutcome::Success(s),
        Err(e) => ToolOutcome::Failure(
            ToolExecutionError::Command(CommandError::SpawnFailed { message: e }),
        ),
    }
}

fn push_reply(out: &mut Vec<Output>, id: u64, result_json: String)
    ensures
        deep(final(out)@) == deep(old(out)@).push(reply(id, result_json@)),
{
    let mut line = SuccessResponse { id, result_json }.to_json_string();
    line.push('\n');
    out.push(Output::Reply { id: Some(id), line });
}

fn error_output(e: &ErrorResponse) -> (r: Vec<Output>)
    ensures
        deep(r@) == seq![error_reply(e@)],
{
    let mut line = e.to_json_string();
    line.push('\n');
    let mut out: Vec<Output> = Vec::new();
    out.push(Output::Reply { id: e.id, line });
    assert(deep(out@) =~= seq![error_reply(e@)]);
    out
}

fn flag_json(name: &str, value: bool) -> (r: String)
    ensures
        r@ == flag_text(name@, value),
{
    let mut out = cat3("{\"", name, "\":");
    out.append(
        if value {
            "true"
        } else {
            "false"
        },
    );
    out.append("}");
    out
}

fn append_outputs(out: &mut Vec<Output>, more: Vec<Output>)
    ensures
        deep(final(out)@) == deep(old(out)@) + deep(more@),
{
    let ghost a = out@;
    let mut more = more;
    let ghost b = more@;
    out.append(&mut more);
    assert(deep(out@) =~= deep(a) + deep(b));
}

fn chunk_output(call_id: &str, stream: CommandOutputStream, bytes: &[u8], ts: u64) -> (r: Vec<
    Output,
>)
    ensures
        deep(r@) == seq![chunk_notice(call_id@, stream, bytes@, ts)],
{
    let mut out: Vec<Output> = Vec::new();
    out.push(
        Output::Notice {
            method: "event/command_output_chunk",
            record: TranscriptRecord::CommandOutputChunk {
                ts,
                call_id: call_id.to_owned(),
                stream,
                bytes: vstd::slice::slice_to_vec(bytes),
            },
        },
    );
    assert(deep(out@) =~= seq![chunk_notice(call_id@, stream, bytes@, ts)]);
    out
}

impl RpcSession {
    /// A session in which nothing has happened yet.
    pub fn new(model: &str, workspace: &str) -> (r: Self)
        ensures
            r@ == (RpcModel {
                model: model@,
                core: CoreModel { workspace_display: workspace@, ..new_core() },
                stream: None,
                active: None,
                queue: Seq::empty(),
                told: 0,
                asked: None,
                kinds: Seq::empty(),
            }),
    {
        let mut agent = AgentCore::new();
        agent.set_workspace_display(workspace.to_owned());
        RpcSession {
            model: model.to_owned(),
            agent,
            stream: None,
            active: None,
            queue: Vec::new(),
            told: 0,
            asked: None,
            kinds: Vec::new(),
        }
    }

    /// The core.
    pub fn agent(&self) -> (r: &AgentCore)
        ensures
            r@ == self@.core,
    {
        &self.agent
    }

    /// What the client is told when the session starts.
    pub fn session_start(&self, attini_version: &str, workspace: &str, ts: u64) -> (r: Output)
        ensures
            r@ == (OutputModel::Notice {
                method: "event/session_start"@,
                record: TranscriptModel::SessionStart {
                    ts,
                    attini_version: attini_version@,
                    model: self@.model,
                    workspace: workspace@,
                },
            }),
    {
        Output::Notice {
            method: "event/session_start",
            record: TranscriptRecord::SessionStart {
                ts,
                attini_version: attini_version.to_owned(),
                model: self.model.clone(),
                workspace: workspace.to_owned(),
            },
        }
    }

    /// What the client is told when the session ends.
    pub fn session_end(reason: SessionEndReason, ts: u64) -> (r: Output)
        ensures
            r@ == (OutputModel::Notice {
                method: "event/session_end"@,
                record: TranscriptModel::SessionEnd { ts, reason },
            }),
    {
        Output::Notice {
            method: "event/session_end",
            record: TranscriptRecord::SessionEnd { ts, reason },
        }
    }

    fn learn_kinds(&mut self, calls: &Vec<ToolCall>)
        ensures
            final(self)@ == (RpcModel {
                kinds: kinds_with(old(self)@.kinds, deep(calls@)),
                ..old(self)@
            }),
    {
        let ghost start = self@;
        let ghost all = deep(calls@);
        let mut i: usize = 0;
        assert(all.take(0) =~= Seq::empty());
        while i < calls.len()
            invariant
                i <= calls@.len(),
                all == deep(calls@),
                self@ == (RpcModel { kinds: kinds_with(start.kinds, all.take(i as int)), ..start }),
            decreases calls@.len() - i,
        {
            proof {
                assert(all.take(i + 1).drop_last() =~= all.take(i as int));
                assert(all.take(i + 1).last() == calls@[i as int]@);
            }
            let name = calls[i].function_name.as_str();
            if same(name, "patch") {
                self.kinds.push(
                    CallKind { call_id: calls[i].id.clone(), kind: ApprovalKind::Patch },
                );
            } else if same(name, "command") {
                self.kinds.push(
                    CallKind { call_id: calls[i].id.clone(), kind: ApprovalKind::Command },
                );
            }
            i = i + 1;
        }
        assert(all.take(all.len() as int) =~= all);
    }

    fn find_kind(&self, call_id: &str) -> (r: ApprovalKind)
        ensures
            r == kind_of_call(self@.kinds, call_id@),
    {
        let ghost all = self@.kinds;
        let mut i: usize = self.kinds.len();
        assert(all.take(all.len() as int) =~= all);
        while i > 0
            invariant
                i <= self.kinds@.len(),
                all == deep(self.kinds@),
                kind_of_call(all.take(i as int), call_id@) == kind_of_call(all, call_id@),
            decreases i,
        {
            proof {
                assert(all.take(i as int).drop_last() =~= all.take(i - 1));
                assert(all.take(i as int).last() == self.kinds@[i - 1]@);
            }
            if same(self.kinds[i - 1].call_id.as_str(), call_id) {
                return self.kinds[i - 1].kind;
            }
            i = i - 1;
        }
        ApprovalKind::Patch
    }

    /// Tells the client of the messages that it does not know.
    fn emit_conversation_records(&mut self, out: &mut Vec<Output>, ts: u64)
        ensures
            ({
                let (m, outputs) = tell_messages(
                    old(self)@,
                    old(self)@.core.conversation.len(),
                    ts,
                );
                &&& final(self)@ == m
                &&& deep(final(out)@) == deep(old(out)@) + outputs
            }),
    {
        let ghost start = self@;
        let ghost before = deep(out@);
        let n: usize = self.agent.conversation().len();
        assert(start.core.conversation.len() == n);
        assert(before + Seq::<OutputModel>::empty() =~= before);
        if self.told >= n {
            return ;
        }
        while self.told < n
            invariant
                start.told <= self.told <= n,
                n == start.core.conversation.len(),
                self@ == tell_messages(start, self.told as nat, ts).0,
                deep(out@) == before + tell_messages(start, self.told as nat, ts).1,
                self@.core == start.core,
            decreases n - self.told,
        {
            let ghost so_far = tell_messages(start, self.told as nat, ts);
            let message = self.agent.conversation()[self.told].clone();
            assert(message@ == start.core.conversation[self.told as int]);
            if let ChatMessage::Assistant { tool_calls, .. } = &message {
                self.learn_kinds(tool_calls);
            }
            self.told = self.told + 1;
            push_message_notice(out, &message, ts);
            assert(before + so_far.1 + message_notice(message@, ts) =~= before + (so_far.1
                + message_notice(message@, ts)));
        }
    }

    fn knows_asked(&self, current: &Option<String>) -> (r: bool)
        ensures
            r == (self@.asked == maybe(*current)),
    {
        match (&self.asked, current) {
            (Some(a), Some(b)) => same(a.as_str(), b.as_str()),
            (None, None) => true,
            _ => false,
        }
    }

    /// Tells the client which call waits for approval, unless it knows.
    fn emit_pending_approval(&mut self, out: &mut Vec<Output>, ts: u64)
        ensures
            ({
                let (m, outputs) = tell_approval(old(self)@, ts);
                &&& final(self)@ == m
                &&& deep(final(out)@) == deep(old(out)@) + outputs
            }),
    {
        let ghost start = self@;
        let ghost before = deep(out@);
        assert(before + Seq::<OutputModel>::empty() =~= before);
        let current = self.agent.pending_approval_call_id();
        if self.knows_asked(&current) {
            return ;
        }
        self.asked = clone_text(&current);
        if let Some(call_id) = current {
            let tool_kind = self.find_kind(call_id.as_str());
            out.push(
                Output::Notice {
                    method: "event/tool_approval_required",
                    record: TranscriptRecord::ToolApprovalRequired { ts, call_id, tool_kind },
                },
            );
            assert(deep(out@) =~= before + tell_approval(start, ts).1);
        }
    }

    fn drop_queued(&mut self, request: RequestId)
        ensures
            final(self)@ == (RpcModel {
                queue: without_request(old(self)@.queue, request),
                ..old(self)@
            }),
    {
        let mut queue: Vec<PendingCommand> = Vec::new();
        let mut kept: Vec<PendingCommand> = Vec::new();
        let ghost all = self@.queue;
        std::mem::swap(&mut queue, &mut self.queue);
        let n: usize = queue.len();
        let mut i: usize = 0;
        assert(all.take(0) =~= Seq::empty());
        while i < n
            invariant
                i <= n,
                n == queue@.len(),
                all == deep(queue@),
                deep(kept@) == without_request(all.take(i as int), request),
            decreases n - i,
        {
            proof {
                assert(all.take(i + 1).drop_last() =~= all.take(i as int));
                assert(all.take(i + 1).last() == queue@[i as int]@);
            }
            if queue[i].request != request {
                kept.push(
                    PendingCommand {
                        request: queue[i].request,
                        call_id: queue[i].call_id.clone(),
                        invocation: CommandInvocation {
                            argv: clone_texts(&queue[i].invocation.argv),
                        },
                    },
                );
            }
            i = i + 1;
        }
        assert(all.take(all.len() as int) =~= all);
        self.queue = kept;
    }

    fn apply_action(&mut self, out: &mut Vec<Output>, action: Action)
        ensures
            ({
                let (m, outputs) = action_step(old(self)@, action@);
                &&& final(self)@ == m
                &&& deep(final(out)@) == deep(old(out)@) + outputs
            }),
    {
        let ghost start = self@;
        let ghost before = deep(out@);
        assert(before + Seq::<OutputModel>::empty() =~= before);
        match action {
            Action::StartRequest { id, messages } => {
                let mut tools = ReadOnlyTool::definitions();
                tools.push(PatchInvocation::definition());
                tools.push(CommandInvocation::definition());
                assert(deep(tools@) =~= rpc_tools());
                let request = ChatRequest::new(self.model.as_str(), messages).with_tools(tools);
                self.stream = Some(id);
                out.push(Output::StartStream { id, request });
            },
            Action::CancelRequest { .. } => {
                self.stream = None;
                out.push(Output::DropStream);
            },
            Action::ExecuteTool { request, call_id, invocation } => {
                out.push(Output::RunTool { request, call_id, tool: invocation });
            },
            Action::CancelToolExecution { request } => {
                out.push(Output::AbortTools { request });
                if let Some(active) = &self.active {
                    if active.0 == request {
                        out.push(Output::StopCommand);
                    }
                }
                self.drop_queued(request);
            },
            Action::PreviewPatch { request, call_id, invocation } => {
                out.push(Output::PreviewPatch { request, call_id, edits: invocation });
            },
            Action::ApplyPatch { request, call_id, invocation, preview_hashes } => {
                out.push(
                    Output::ApplyPatch {
                        request,
                        call_id,
                        edits: invocation,
                        hashes: preview_hashes,
                    },
                );
            },
            Action::ExecuteCommand { request, call_id, invocation } => {
                if self.active.is_some() {
                    self.queue.push(PendingCommand { request, call_id, invocation });
                } else {
                    self.active = Some((request, call_id.clone()));
                    out.push(Output::StartCommand { request, call_id, command: invocation });
                }
            },
            Action::ReportError { .. } => {},
            Action::Redraw => {},
        }
        assert(deep(out@) =~= before + action_step(start, action@).1);
    }

    fn apply_actions(&mut self, out: &mut Vec<Output>, actions: Vec<Action>)
        ensures
            ({
                let (m, outputs) = actions_step(old(self)@, deep(actions@));
                &&& final(self)@ == m
                &&& deep(final(out)@) == deep(old(out)@) + outputs
            }),
    {
        let ghost start = self@;
        let ghost before = deep(out@);
        let ghost all = deep(actions@);
        let mut rest = actions;
        let ghost total = all.len() as int;
        let ghost mut done = 0int;
        assert(all.take(0) =~= Seq::empty());
        assert(before + Seq::<OutputModel>::empty() =~= before);
        while rest.len() > 0
            invariant
                0 <= done <= total,
                total == all.len(),
                rest@.len() == total - done,
                forall|k: int| 0 <= k < rest@.len() ==> (#[trigger] rest@[k])@ == all[done + k],
                self@ == actions_step(start, all.take(done)).0,
                deep(out@) == before + actions_step(start, all.take(done)).1,
            decreases rest@.len(),
        {
            let ghost so_far = actions_step(start, all.take(done)).1;
            let ghost m = self@;
            let action = rest.remove(0);
            proof {
                assert(action@ == all[done]);
                assert(all.take(done + 1).drop_last() =~= all.take(done));
                assert(all.take(done + 1).last() == all[done]);
            }
            self.apply_action(out, action);
            proof {
                let more = action_step(m, action@).1;
                assert(before + so_far + more =~= before + (so_far + more));
                done = done + 1;
            }
        }
        assert(all.take(total) =~= all);
    }

    /// Hands an event to the core, and does what follows from it.
    pub fn dispatch(&mut self, event: Event, ts: u64) -> (r: Vec<Output>)
        ensures
            (final(self)@, deep(r@)) == dispatch_step(old(self)@, event@, ts),
    {
        let mut out = pre_event_record(&event, ts);
        let actions = self.agent.handle_event(event);
        self.emit_conversation_records(&mut out, ts);
        self.emit_pending_approval(&mut out, ts);
        self.apply_actions(&mut out, actions);
        out
    }

    /// Starts the next command, if the one that ran has ended.
    fn on_command_finished(&mut self, call_id: &str) -> (r: Vec<Output>)
        ensures
            (final(self)@, deep(r@)) == command_ended(old(self)@, call_id@),
    {
        let ghost start = self@;
        let mut out: Vec<Output> = Vec::new();
        let ended = match &self.active {
            Some(a) => same(a.1.as_str(), call_id),
            None => false,
        };
        if !ended {
            return out;
        }
        if self.queue.len() == 0 {
            self.active = None;
            return out;
        }
        let next = self.queue.remove(0);
        assert(next@ == start.queue[0]);
        assert(deep(self.queue@) =~= start.queue.skip(1));
        self.active = Some((next.request, next.call_id.clone()));
        out.push(
            Output::StartCommand {
                request: next.request,
                call_id: next.call_id,
                command: next.invocation,
            },
        );
        assert(deep(out@) =~= command_ended(start, call_id@).1);
        out
    }

    fn on_result(&mut self, request: RequestId, call_id: String, outcome: ToolOutcome, ts: u64) -> (r:
        Vec<Output>)
        ensures
            ({
                let (n, started) = command_ended(old(self)@, call_id@);
                let (o, outputs) = dispatch_step(
                    n,
                    EventModel::ToolResult { request, call_id: call_id@, outcome: outcome@ },
                    ts,
                );
                &&& final(self)@ == o
                &&& deep(r@) == started + outputs
            }),
    {
        let mut out = self.on_command_finished(call_id.as_str());
        let more = self.dispatch(Event::ToolResult { request, call_id, outcome }, ts);
        append_outputs(&mut out, more);
        out
    }

    fn on_output_chunk(
        &mut self,
        request: RequestId,
        call_id: String,
        stream: CommandOutputStream,
        bytes: Vec<u8>,
        ts: u64,
    ) -> (r: Vec<Output>)
        ensures
            ({
                let (o, outputs) = dispatch_step(
                    old(self)@,
                    EventModel::CommandOutputChunk {
                        request,
                        call_id: call_id@,
                        stream,
                        bytes: bytes@,
                    },
                    ts,
                );
                &&& final(self)@ == o
                &&& deep(r@) == seq![chunk_notice(call_id@, stream, bytes@, ts)] + outputs
            }),
    {
        let mut out = chunk_output(call_id.as_str(), stream, bytes.as_slice(), ts);
        let more = self.dispatch(Event::CommandOutputChunk { request, call_id, stream, bytes }, ts);
        append_outputs(&mut out, more);
        out
    }

    /// Takes in what a tool has to report.
    pub fn on_feedback(&mut self, feedback: ToolFeedback, ts: u64) -> (r: Vec<Output>)
        ensures
            (final(self)@, deep(r@)) == feedback_step(old(self)@, feedback@, ts),
    {
        match feedback {
            ToolFeedback::Result { request, call_id, outcome } => self.on_result(
                request,
                call_id,
                outcome,
                ts,
            ),
            ToolFeedback::PatchPreviewReady { request, call_id, preview_hashes, preview } =>
                self.dispatch(
                Event::PatchPreviewReady { request, call_id, preview_hashes, preview },
                ts,
            ),
            ToolFeedback::PatchPreviewFailed { request, call_id, outcome } => self.dispatch(
                Event::ToolResult { request, call_id, outcome },
                ts,
            ),
            ToolFeedback::CommandOutputChunk { request, call_id, stream, bytes } =>
                self.on_output_chunk(request, call_id, stream, bytes, ts),
        }
    }

    /// Takes in an event of the response of the model.
    pub fn on_stream_event(&mut self, event: StreamEvent, ts: u64) -> (r: Vec<Output>)
        ensures
            (final(self)@, deep(r@)) == stream_event_step(old(self)@, event@, ts),
    {
        match self.stream {
            None => Vec::new(),
            Some(request) => match translate_stream_event(event, request) {
                None => Vec::new(),
                Some(e) => self.dispatch(e, ts),
            },
        }
    }

    /// Takes in that the response of the model broke off.
    pub fn on_stream_error(&mut self, error: &TransportError, ts: u64) -> (r: Vec<Output>)
        ensures
            (final(self)@, deep(r@)) == stream_error_step(old(self)@, error@, ts),
    {
        match self.stream {
            None => Vec::new(),
            Some(request) => {
                let out = self.dispatch(
                    Event::TransportError { request, message: error.to_string() },
                    ts,
                );
                self.stream = None;
                out
            },
        }
    }

    /// Takes in that the response of the model has ended.
    pub fn on_stream_closed(&mut self)
        ensures
            final(self)@ == (RpcModel { stream: None, ..old(self)@ }),
    {
        self.stream = None;
    }

    /// Submits a prompt.
    pub fn submit_prompt(&mut self, id: u64, text: Result<String, String>, ts: u64) -> (r: Vec<
        Output,
    >)
        ensures
            (final(self)@, deep(r@)) == submit_step(
                old(self)@,
                id,
                match text {
                    Ok(s) => Ok(s@),
                    Err(e) => Err(e@),
                },
                ts,
            ),
    {
        match text {
            Err(e) => error_output(&ErrorResponse::invalid_params(id, e.as_str())),
            Ok(text) => {
                let was_idle = self.agent.status() == Status::Idle;
                let mut out = self.dispatch(Event::UserMessage(text), ts);
                let accepted = was_idle && self.agent.status() != Status::Idle;
                push_reply(&mut out, id, flag_json("accepted", accepted));
                out
            },
        }
    }

    /// Approves or rejects a call.
    pub fn decide(
        &mut self,
        id: u64,
        call_id: Result<String, String>,
        approve: bool,
        ts: u64,
    ) -> (r: Vec<Output>)
        ensures
            (final(self)@, deep(r@)) == decide_step(
                old(self)@,
                id,
                match call_id {
                    Ok(s) => Ok(s@),
                    Err(e) => Err(e@),
                },
                approve,
                ts,
            ),
    {
        match call_id {
            Err(e) => error_output(&ErrorResponse::invalid_params(id, e.as_str())),
            Ok(call_id) => {
                let applied = match self.agent.pending_approval_call_id() {
                    Some(wanted) => same(wanted.as_str(), call_id.as_str()),
                    None => false,
                };
                let mut out: Vec<Output> = Vec::new();
                if applied {
                    let event = if approve {
                        Event::ApproveToolCall { call_id }
                    } else {
                        Event::RejectToolCall { call_id }
                    };
                    out = self.dispatch(event, ts);
                }
                push_reply(&mut out, id, flag_json("applied", applied));
                assert(!applied ==> deep(out@) =~= seq![reply(id, flag_text("applied"@, false))]);
                out
            },
        }
    }

    fn state_json(&self) -> (r: String)
        ensures
            r@ == state_text(self@),
    {
        let mut out = "{\"phase\":".to_owned();
        out.append(quote(status_str(self.agent.status())).as_str());
        out.append(",\"pending_approval_call_id\":");
        out.append(quote_or_null(&self.agent.pending_approval_call_id()).as_str());
        out.append(",\"conversation_length\":");
        let n: usize = self.agent.conversation().len();
        assert(self@.core.conversation.len() == n);
        out.append(decimal_of(n as u64).as_str());
        out.append(",\"active_command_call_id\":");
        let active = match &self.active {
            Some(a) => Some(a.1.clone()),
            None => None,
        };
        out.append(quote_or_null(&active).as_str());
        out.append("}");
        out
    }

    /// Shows what a terminal would show.
    pub fn rendered_grid(&self, id: u64, size: Result<(usize, usize), String>) -> (r: Vec<Output>)
        ensures
            (self@, deep(r@)) == grid_step(
                self@,
                id,
                match size {
                    Ok(s) => Ok(s),
                    Err(e) => Err(e@),
                },
            ),
    {
        match size {
            Err(e) => error_output(&ErrorResponse::invalid_params(id, e.as_str())),
            Ok(size) => {
                let ui = UiState { model: self.model.clone(), draft: String::new() };
                let state = build_render_state(&ui, &self.agent, None);
                assert(ui.draft@ =~= Seq::empty());
                assert(state@ =~= shown_state(self@));
                let mut out: Vec<Output> = Vec::new();
                out.push(Output::Grid { id, grid: render(&state, size) });
                assert(deep(out@) =~= seq![
                    OutputModel::Grid { id, grid: grid_of(shown_state(self@), size) },
                ]);
                out
            },
        }
    }

    /// Takes in a request of the client.
    pub fn handle_request(&mut self, id: u64, method: &str, params_json: &str, ts: u64) -> (r: Vec<
        Output,
    >)
        ensures
            (final(self)@, deep(r@)) == request_step(old(self)@, id, method@, params_json@, ts),
    {
        if same(method, "submit_prompt") {
            return self.submit_prompt(id, parse_string_field(params_json, "text"), ts);
        }
        if same(method, "approve") {
            return self.decide(id, parse_string_field(params_json, "call_id"), true, ts);
        }
        if same(method, "reject") {
            return self.decide(id, parse_string_field(params_json, "call_id"), false, ts);
        }
        let mut out: Vec<Output> = Vec::new();
        if same(method, "cancel") {
            out = self.dispatch(Event::Cancel, ts);
            push_reply(&mut out, id, "{}".to_owned());
            return out;
        }
        if same(method, "get_state") {
            push_reply(&mut out, id, self.state_json());
            assert(deep(out@) =~= seq![reply(id, state_text(old(self)@))]);
            return out;
        }
        if same(method, "get_metrics") {
            out.push(Output::Metrics { id, metrics: *self.agent.metrics() });
            assert(deep(out@) =~= seq![
                OutputModel::Metrics { id, metrics: old(self)@.core.metrics },
            ]);
            return out;
        }
        if same(method, "get_rendered_grid") {
            return self.rendered_grid(id, parse_rows_cols(params_json));
        }
        if same(method, "quit") {
            push_reply(&mut out, id, "{}".to_owned());
            out.push(Output::Quit);
            assert(deep(out@) =~= seq![reply(id, "{}"@), OutputModel::Quit]);
            return out;
        }
        error_output(&ErrorResponse::method_not_found(id, method))
    }

    /// Takes in a message of the client, once it has been read.
    pub fn handle_incoming(&mut self, incoming: Result<Incoming, LineError>, ts: u64) -> (r: Vec<
        Output,
    >)
        ensures
            (final(self)@, deep(r@)) == incoming_step(
                old(self)@,
                match incoming {
                    Ok(m) => Ok(m@),
                    Err(e) => Err(e@),
                },
                ts,
            ),
    {
        match incoming {
            Err(e) => error_output(&e.to_response()),
            Ok(Incoming::Request { id, method, params_json }) => self.handle_request(
                id,
                method.as_str(),
                params_json.as_str(),
                ts,
            ),
            Ok(Incoming::Notification { .. }) => Vec::new(),
        }
    }

    /// Takes in a line of the client.
    pub fn handle_client_line(&mut self, line: &str, ts: u64) -> (r: Vec<Output>)
        ensures
            (final(self)@, deep(r@)) == incoming_step(old(self)@, incoming_of_line(line@), ts),
    {
        self.handle_incoming(parse_incoming(line), ts)
    }
}

} // verus!
