//! The state machine of the agent.
//!
//! [`AgentCore`] owns the conversation and the request in flight. The shell
//! around it feeds it [`Event`]s and carries out the [`Action`]s that come
//! back. At most one model request is active at a time; events that carry the
//! id of another one are dropped.
use vstd::prelude::*;
use vstd::string::*;

use super::errors::{
    tool_error_json, CommandErrorModel, OutcomeModel, PatchErrorModel, ToolErrorModel,
};
use super::metrics::{zero_metrics, AgentMetrics};
use super::tools::{
    bad_arguments, command_call, patch_call, read_only_call, EditModel, ReadOnlyModel,
};
use super::types::{
    empty_response, empty_tail, ActionModel, ApprovalState, CommandOutputStream,
    CommandPreviewModel, EventModel, PatchPreviewModel, PreviewHashModel, RequestId, ResponseModel,
    Status, TailModel,
};
use super::{ARGUMENTS_MAX_BYTES, COMMAND_TAIL_CHARS, TURN_TOOL_CALL_LIMIT};
use crate::metrics::bumped;
use crate::model::first_some;
use crate::sansio::deepseek::{CallModel, MessageModel};
use crate::text::{byte_len, decimal, last_chars, lossy_text};

verus! {

broadcast use crate::model::group_deep;

/// Where the request in flight stands.
#[derive(Debug, Clone, Copy, PartialEq, Eq, Structural)]
pub enum PendingPhase {
    /// Deltas are coming in from the model.
    Streaming,
    /// The tools that the model asked for are running.
    ToolRunning,
    /// At least one tool call waits for approval.
    AwaitingApproval,
}

/// A tool call that is being put together from fragments.
#[verifier::ext_equal]
pub struct SlotModel {
    pub index: u64,
    pub id: Option<Seq<char>>,
    pub function_name: Option<Seq<char>>,
    pub arguments: Seq<char>,
    pub over_limit: bool,
}

/// A tool call that was dispatched, and what has become of it.
#[verifier::ext_equal]
pub struct ResultModel {
    pub call_id: Seq<char>,
    pub function_name: Seq<char>,
    pub arguments_json: Seq<char>,
    pub approval: ApprovalState,
    pub patch_preview: Option<PatchPreviewModel>,
    pub preview_hashes: Seq<PreviewHashModel>,
    pub command_preview: Option<CommandPreviewModel>,
    pub command_output_tail: Option<TailModel>,
    pub outcome: Option<OutcomeModel>,
}

/// The request in flight.
#[verifier::ext_equal]
pub struct PendingModel {
    pub id: RequestId,
    pub phase: PendingPhase,
    pub response: ResponseModel,
    pub slots: Seq<SlotModel>,
    pub results: Seq<ResultModel>,
}

/// What an [`AgentCore`] holds.
#[verifier::ext_equal]
pub struct CoreModel {
    pub conversation: Seq<MessageModel>,
    pub pending: Option<PendingModel>,
    pub status: Status,
    pub next_id: u64,
    pub tool_calls_this_turn: usize,
    pub workspace_display: Seq<char>,
    pub metrics: AgentMetrics,
}

/// A core that has seen nothing.
pub open spec fn new_core() -> CoreModel {
    CoreModel {
        conversation: Seq::empty(),
        pending: None,
        status: Status::Idle,
        next_id: 0,
        tool_calls_this_turn: 0,
        workspace_display: Seq::empty(),
        metrics: zero_metrics(),
    }
}

/// A request that has just been issued.
pub open spec fn fresh(id: RequestId) -> PendingModel {
    PendingModel {
        id,
        phase: PendingPhase::Streaming,
        response: empty_response(),
        slots: Seq::empty(),
        results: Seq::empty(),
    }
}

/// An event is dropped: nothing changes but a counter.
pub open spec fn dropped(c: CoreModel, metrics: AgentMetrics) -> (CoreModel, Seq<ActionModel>) {
    (CoreModel { metrics, ..c }, Seq::empty())
}

/// The request in flight, if it has that id.
pub open spec fn active(c: CoreModel, request: RequestId) -> Option<PendingModel> {
    match c.pending {
        Some(p) => if p.id == request {
            Some(p)
        } else {
            None
        },
        None => None,
    }
}

/// What cancels a request: its response while it is streamed, its tools
/// behind that.
pub open spec fn cancelled(p: PendingModel) -> ActionModel {
    if p.phase is Streaming {
        ActionModel::CancelRequest { id: p.id }
    } else {
        ActionModel::CancelToolExecution { request: p.id }
    }
}

/// The request in flight, if it has that id and is streaming.
pub open spec fn streaming(c: CoreModel, request: RequestId) -> Option<PendingModel> {
    match c.pending {
        Some(p) => if p.id == request && p.phase is Streaming {
            Some(p)
        } else {
            None
        },
        None => None,
    }
}

/// The request in flight, if it has that id and its tools are running.
pub open spec fn running(c: CoreModel, request: RequestId) -> Option<PendingModel> {
    match c.pending {
        Some(p) => if p.id == request && !(p.phase is Streaming) {
            Some(p)
        } else {
            None
        },
        None => None,
    }
}

/// A new request is issued for the conversation as it stands.
pub open spec fn requested(c: CoreModel) -> (CoreModel, Seq<ActionModel>) {
    let id = RequestId(c.next_id);
    (
        CoreModel {
            pending: Some(fresh(id)),
            status: Status::AwaitingModel,
            next_id: c.next_id.wrapping_add(1),
            ..c
        },
        seq![
            ActionModel::StartRequest { id, messages: c.conversation },
            ActionModel::Redraw,
        ],
    )
}

/// A prompt starts a turn, unless a request is in flight.
pub open spec fn user_message(c: CoreModel, text: Seq<char>) -> (CoreModel, Seq<ActionModel>) {
    if c.pending is Some {
        dropped(
            c,
            AgentMetrics {
                user_messages_rejected_while_active: bumped(
                    c.metrics.user_messages_rejected_while_active,
                ),
                ..c.metrics
            },
        )
    } else {
        requested(
            CoreModel {
                conversation: c.conversation.push(MessageModel::User(text)),
                tool_calls_this_turn: 0,
                metrics: AgentMetrics {
                    user_messages_accepted: bumped(c.metrics.user_messages_accepted),
                    ..c.metrics
                },
                ..c
            },
        )
    }
}

/// The core without a request in flight, at the end of a turn.
pub open spec fn idle(c: CoreModel, metrics: AgentMetrics) -> CoreModel {
    CoreModel { pending: None, status: Status::Idle, tool_calls_this_turn: 0, metrics, ..c }
}

/// A cancel drops the request in flight.
pub open spec fn cancel(c: CoreModel) -> (CoreModel, Seq<ActionModel>) {
    match c.pending {
        None => dropped(
            c,
            AgentMetrics {
                cancels_ignored_when_idle: bumped(c.metrics.cancels_ignored_when_idle),
                ..c.metrics
            },
        ),
        Some(p) => (
            idle(
                c,
                AgentMetrics { cancels_applied: bumped(c.metrics.cancels_applied), ..c.metrics },
            ),
            seq![cancelled(p), ActionModel::Redraw],
        ),
    }
}

/// A piece of content is appended to the response.
pub open spec fn content_delta(c: CoreModel, request: RequestId, text: Seq<char>) -> (
    CoreModel,
    Seq<ActionModel>,
) {
    match streaming(c, request) {
        None => dropped(
            c,
            AgentMetrics {
                content_deltas_dropped_as_stale: bumped(c.metrics.content_deltas_dropped_as_stale),
                ..c.metrics
            },
        ),
        Some(p) => (
            CoreModel {
                pending: Some(
                    PendingModel {
                        response: ResponseModel {
                            content: p.response.content + text,
                            ..p.response
                        },
                        ..p
                    },
                ),
                status: Status::Streaming,
                metrics: AgentMetrics {
                    content_deltas_appended: bumped(c.metrics.content_deltas_appended),
                    ..c.metrics
                },
                ..c
            },
            seq![ActionModel::Redraw],
        ),
    }
}

/// A piece of reasoning is appended to the response.
pub open spec fn reasoning_delta(c: CoreModel, request: RequestId, text: Seq<char>) -> (
    CoreModel,
    Seq<ActionModel>,
) {
    match streaming(c, request) {
        None => dropped(
            c,
            AgentMetrics {
                reasoning_deltas_dropped_as_stale: bumped(
                    c.metrics.reasoning_deltas_dropped_as_stale,
                ),
                ..c.metrics
            },
        ),
        Some(p) => (
            CoreModel {
                pending: Some(
                    PendingModel {
                        response: ResponseModel {
                            reasoning: p.response.reasoning + text,
                            ..p.response
                        },
                        ..p
                    },
                ),
                status: Status::Streaming,
                metrics: AgentMetrics {
                    reasoning_deltas_appended: bumped(c.metrics.reasoning_deltas_appended),
                    ..c.metrics
                },
                ..c
            },
            seq![ActionModel::Redraw],
        ),
    }
}

/// How many of the first slots have a smaller index.
pub open spec fn rank(slots: Seq<SlotModel>, index: u64) -> int
    decreases slots.len(),
{
    if slots.len() == 0 || slots[0].index >= index {
        0
    } else {
        1 + rank(slots.skip(1), index)
    }
}

/// A slot that no fragment has reached yet.
pub open spec fn empty_slot(index: u64) -> SlotModel {
    SlotModel { index, id: None, function_name: None, arguments: Seq::empty(), over_limit: false }
}

/// The slot that fragments with that index go to.
pub open spec fn slot_for(slots: Seq<SlotModel>, index: u64) -> SlotModel {
    let k = rank(slots, index);
    if k < slots.len() && slots[k].index == index {
        slots[k]
    } else {
        empty_slot(index)
    }
}

/// Whether a fragment of arguments is left out because the call has grown, or
/// would grow, past [`ARGUMENTS_MAX_BYTES`].
pub open spec fn too_much(s: SlotModel, fragment: Option<Seq<char>>) -> bool {
    match fragment {
        Some(f) => s.over_limit || byte_len(s.arguments) + byte_len(f) > ARGUMENTS_MAX_BYTES,
        None => false,
    }
}

/// A slot after a fragment: the first id and the first name win, and the
/// arguments are concatenated as long as they are not too much.
pub open spec fn merged(
    s: SlotModel,
    id: Option<Seq<char>>,
    function_name: Option<Seq<char>>,
    fragment: Option<Seq<char>>,
) -> SlotModel {
    SlotModel {
        index: s.index,
        id: if s.id is Some {
            s.id
        } else {
            id
        },
        function_name: if s.function_name is Some {
            s.function_name
        } else {
            function_name
        },
        arguments: match fragment {
            Some(f) => if too_much(s, fragment) {
                s.arguments
            } else {
                s.arguments + f
            },
            None => s.arguments,
        },
        over_limit: s.over_limit || too_much(s, fragment),
    }
}

/// The slots with one of them set, in the order of their indices.
pub open spec fn with_slot(slots: Seq<SlotModel>, s: SlotModel) -> Seq<SlotModel> {
    let k = rank(slots, s.index);
    if k < slots.len() && slots[k].index == s.index {
        slots.update(k, s)
    } else {
        slots.insert(k, s)
    }
}

/// A fragment of a tool call is merged into its slot.
pub open spec fn tool_call_delta(
    c: CoreModel,
    request: RequestId,
    index: u64,
    id: Option<Seq<char>>,
    function_name: Option<Seq<char>>,
    fragment: Option<Seq<char>>,
) -> (CoreModel, Seq<ActionModel>) {
    match streaming(c, request) {
        None => dropped(
            c,
            AgentMetrics {
                tool_call_deltas_dropped_as_stale: bumped(
                    c.metrics.tool_call_deltas_dropped_as_stale,
                ),
                ..c.metrics
            },
        ),
        Some(p) => {
            let s = slot_for(p.slots, index);
            (
                CoreModel {
                    pending: Some(
                        PendingModel {
                            slots: with_slot(p.slots, merged(s, id, function_name, fragment)),
                            ..p
                        },
                    ),
                    status: Status::Streaming,
                    metrics: AgentMetrics {
                        tool_call_deltas_appended: bumped(c.metrics.tool_call_deltas_appended),
                        tool_call_arguments_fragments_dropped_over_limit: if too_much(s, fragment) {
                            bumped(c.metrics.tool_call_arguments_fragments_dropped_over_limit)
                        } else {
                            c.metrics.tool_call_arguments_fragments_dropped_over_limit
                        },
                        ..c.metrics
                    },
                    ..c
                },
                seq![ActionModel::Redraw],
            )
        },
    }
}

/// The tool call that a slot has become.
pub open spec fn call_of(s: SlotModel) -> CallModel {
    CallModel {
        id: match s.id {
            Some(id) => id,
            None => "__missing_id__"@ + decimal(s.index as nat),
        },
        function_name: match s.function_name {
            Some(name) => name,
            None => Seq::empty(),
        },
        arguments_json: s.arguments,
    }
}

/// Whether a slot whose call has that id has grown past the limit.
pub open spec fn over_limit(slots: Seq<SlotModel>, id: Seq<char>) -> bool {
    exists|j: int|
        0 <= j < slots.len() && (#[trigger] slots[j]).over_limit && call_of(slots[j]).id == id
}

/// A tool call of any of the tools that the core dispatches.
#[verifier::ext_equal]
pub enum InvocationModel {
    Patch(Seq<EditModel>),
    Command(Seq<Seq<char>>),
    ReadOnly(ReadOnlyModel),
}

/// What a tool call asks for.
pub open spec fn invocation_of(name: Seq<char>, arguments: Seq<char>) -> Result<
    InvocationModel,
    ToolErrorModel,
> {
    if name == "patch"@ {
        match patch_call(arguments) {
            Ok(edits) => Ok(InvocationModel::Patch(edits)),
            Err(e) => Err(e),
        }
    } else if name == "command"@ {
        match command_call(arguments) {
            Ok(argv) => Ok(InvocationModel::Command(argv)),
            Err(e) => Err(e),
        }
    } else {
        match read_only_call(name, arguments) {
            Ok(tool) => Ok(InvocationModel::ReadOnly(tool)),
            Err(e) => Err(e),
        }
    }
}

/// A call whose outcome is awaited.
pub open spec fn waiting(
    call: CallModel,
    approval: ApprovalState,
    command_preview: Option<CommandPreviewModel>,
) -> ResultModel {
    ResultModel {
        call_id: call.id,
        function_name: call.function_name,
        arguments_json: call.arguments_json,
        approval,
        patch_preview: None,
        preview_hashes: Seq::empty(),
        command_preview,
        command_output_tail: None,
        outcome: None,
    }
}

/// A call that has failed before it was executed.
pub open spec fn refused(call: CallModel, e: ToolErrorModel) -> ResultModel {
    ResultModel {
        outcome: Some(OutcomeModel::Failure(e)),
        ..waiting(call, ApprovalState::NotRequired, None)
    }
}

/// What the dispatch of tool calls has led to so far.
#[verifier::ext_equal]
pub struct DispatchModel {
    pub results: Seq<ResultModel>,
    pub actions: Seq<ActionModel>,
    pub tool_calls_this_turn: usize,
    pub metrics: AgentMetrics,
}

/// One more call is dispatched: refused where its arguments are too large,
/// where the turn has reached its limit, or where it cannot be read; else
/// handed on, to wait for its outcome.
pub open spec fn admitted(
    d: DispatchModel,
    call: CallModel,
    over: bool,
    invocation: Result<InvocationModel, ToolErrorModel>,
    request: RequestId,
    workspace: Seq<char>,
) -> DispatchModel {
    if over {
        DispatchModel {
            results: d.results.push(refused(call, ToolErrorModel::ArgumentsTooLarge)),
            metrics: AgentMetrics {
                tool_calls_rejected_by_arguments_limit: bumped(
                    d.metrics.tool_calls_rejected_by_arguments_limit,
                ),
                ..d.metrics
            },
            ..d
        }
    } else if d.tool_calls_this_turn >= TURN_TOOL_CALL_LIMIT {
        DispatchModel {
            results: d.results.push(refused(call, ToolErrorModel::TurnToolCallLimitExceeded)),
            metrics: AgentMetrics {
                tool_calls_rejected_by_turn_limit: bumped(
                    d.metrics.tool_calls_rejected_by_turn_limit,
                ),
                ..d.metrics
            },
            ..d
        }
    } else {
        match invocation {
            Err(e) => DispatchModel { results: d.results.push(refused(call, e)), ..d },
            Ok(InvocationModel::Patch(edits)) => DispatchModel {
                results: d.results.push(waiting(call, ApprovalState::NotRequired, None)),
                actions: d.actions.push(
                    ActionModel::PreviewPatch { request, call_id: call.id, invocation: edits },
                ),
                tool_calls_this_turn: (d.tool_calls_this_turn + 1) as usize,
                metrics: AgentMetrics {
                    patch_calls_previewed: bumped(d.metrics.patch_calls_previewed),
                    ..d.metrics
                },
            },
            Ok(InvocationModel::Command(argv)) => DispatchModel {
                results: d.results.push(
                    waiting(
                        call,
                        ApprovalState::Pending,
                        Some(CommandPreviewModel { argv, working_directory: workspace }),
                    ),
                ),
                tool_calls_this_turn: (d.tool_calls_this_turn + 1) as usize,
                metrics: AgentMetrics {
                    command_calls_dispatched: bumped(d.metrics.command_calls_dispatched),
                    ..d.metrics
                },
                ..d
            },
            Ok(InvocationModel::ReadOnly(tool)) => DispatchModel {
                results: d.results.push(waiting(call, ApprovalState::NotRequired, None)),
                actions: d.actions.push(
                    ActionModel::ExecuteTool { request, call_id: call.id, invocation: tool },
                ),
                tool_calls_this_turn: (d.tool_calls_this_turn + 1) as usize,
                metrics: AgentMetrics {
                    tool_calls_executed: bumped(d.metrics.tool_calls_executed),
                    ..d.metrics
                },
            },
        }
    }
}

/// Calls are dispatched one after the other.
pub open spec fn dispatched(
    d: DispatchModel,
    calls: Seq<CallModel>,
    slots: Seq<SlotModel>,
    request: RequestId,
    workspace: Seq<char>,
) -> DispatchModel
    decreases calls.len(),
{
    if calls.len() == 0 {
        d
    } else {
        let call = calls.last();
        admitted(
            dispatched(d, calls.drop_last(), slots, request, workspace),
            call,
            over_limit(slots, call.id),
            invocation_of(call.function_name, call.arguments_json),
            request,
            workspace,
        )
    }
}

/// Whether every call has an outcome.
pub open spec fn all_resolved(results: Seq<ResultModel>) -> bool {
    forall|i: int| 0 <= i < results.len() ==> (#[trigger] results[i]).outcome is Some
}

/// What the model is told about an outcome.
pub open spec fn outcome_text(o: OutcomeModel) -> Seq<char> {
    match o {
        OutcomeModel::Success(s) => s,
        OutcomeModel::Failure(e) => tool_error_json(e),
    }
}

/// The message that answers a tool call.
pub open spec fn answer(r: ResultModel) -> MessageModel {
    MessageModel::Tool {
        tool_call_id: r.call_id,
        content: match r.outcome {
            Some(o) => outcome_text(o),
            None => Seq::empty(),
        },
    }
}

/// All calls have their outcomes: they are added to the conversation, in
/// order, and a new request is issued.
pub open spec fn advanced(c: CoreModel, results: Seq<ResultModel>) -> (
    CoreModel,
    Seq<ActionModel>,
) {
    requested(
        CoreModel {
            conversation: c.conversation + results.map_values(|r: ResultModel| answer(r)),
            ..c
        },
    )
}

/// Whether a call waits for the user's approval.
pub open spec fn awaits_approval(results: Seq<ResultModel>) -> bool {
    exists|i: int|
        0 <= i < results.len() && (#[trigger] results[i]).approval is Pending
            && results[i].outcome is None
}

/// The phase of a request whose tools are running.
pub open spec fn tool_phase(results: Seq<ResultModel>) -> PendingPhase {
    if awaits_approval(results) {
        PendingPhase::AwaitingApproval
    } else {
        PendingPhase::ToolRunning
    }
}

/// The core with phase and status brought in line with the calls.
pub open spec fn settled(c: CoreModel) -> CoreModel {
    match c.pending {
        Some(p) => if p.phase is Streaming {
            c
        } else {
            CoreModel {
                pending: Some(PendingModel { phase: tool_phase(p.results), ..p }),
                status: if awaits_approval(p.results) {
                    Status::AwaitingApproval
                } else {
                    Status::ToolRunning
                },
                ..c
            }
        },
        None => c,
    }
}

/// The core goes on to the next request if every call has its outcome.
pub open spec fn proceeded(c: CoreModel) -> (CoreModel, Seq<ActionModel>) {
    match c.pending {
        Some(p) => if all_resolved(p.results) {
            advanced(CoreModel { pending: None, ..c }, p.results)
        } else {
            (c, seq![ActionModel::Redraw])
        },
        None => (c, Seq::empty()),
    }
}

/// The reasoning that goes into the conversation: none where there was none.
pub open spec fn reasoning_of(p: PendingModel) -> Option<Seq<char>> {
    if p.response.reasoning.len() == 0 {
        None
    } else {
        Some(p.response.reasoning)
    }
}

/// A response without tool calls ends the turn.
pub open spec fn finish_turn(c: CoreModel, p: PendingModel) -> (CoreModel, Seq<ActionModel>) {
    (
        idle(
            CoreModel {
                conversation: c.conversation.push(
                    MessageModel::Assistant {
                        content: p.response.content,
                        reasoning_content: reasoning_of(p),
                        tool_calls: Seq::empty(),
                    },
                ),
                ..c
            },
            AgentMetrics { finishes_committed: bumped(c.metrics.finishes_committed), ..c.metrics },
        ),
        seq![ActionModel::Redraw],
    )
}

/// A response with tool calls has them dispatched.
pub open spec fn finish_calls(c: CoreModel, p: PendingModel, reason: Option<Seq<char>>) -> (
    CoreModel,
    Seq<ActionModel>,
) {
    let calls = p.slots.map_values(|s: SlotModel| call_of(s));
    let d = dispatched(
        DispatchModel {
            results: Seq::empty(),
            actions: Seq::empty(),
            tool_calls_this_turn: c.tool_calls_this_turn,
            metrics: AgentMetrics {
                finishes_committed: bumped(c.metrics.finishes_committed),
                ..c.metrics
            },
        },
        calls,
        p.slots,
        p.id,
        c.workspace_display,
    );
    let committed = CoreModel {
        conversation: c.conversation.push(
            MessageModel::Assistant {
                content: p.response.content,
                reasoning_content: reasoning_of(p),
                tool_calls: calls,
            },
        ),
        pending: None,
        tool_calls_this_turn: d.tool_calls_this_turn,
        metrics: d.metrics,
        ..c
    };
    if all_resolved(d.results) {
        let (next, actions) = advanced(committed, d.results);
        (next, d.actions + actions)
    } else {
        (
            settled(
                CoreModel {
                    pending: Some(
                        PendingModel {
                            id: p.id,
                            phase: PendingPhase::ToolRunning,
                            response: ResponseModel { finish_reason: reason, ..empty_response() },
                            slots: Seq::empty(),
                            results: d.results,
                        },
                    ),
                    status: Status::ToolRunning,
                    ..committed
                },
            ),
            d.actions.push(ActionModel::Redraw),
        )
    }
}

/// The response is complete.
pub open spec fn finish(c: CoreModel, request: RequestId, reason: Option<Seq<char>>) -> (
    CoreModel,
    Seq<ActionModel>,
) {
    match streaming(c, request) {
        None => dropped(
            c,
            AgentMetrics {
                finishes_dropped_as_stale: bumped(c.metrics.finishes_dropped_as_stale),
                ..c.metrics
            },
        ),
        Some(p) => if reason == Some("tool_calls"@) && p.slots.len() > 0 {
            finish_calls(c, p, reason)
        } else {
            finish_turn(c, p)
        },
    }
}

/// Which call an event is about, beside its id.
#[derive(Debug, Clone, Copy, PartialEq, Eq, Structural)]
pub enum Want {
    /// A call without an outcome.
    Unresolved,
    /// A patch call whose preview is awaited.
    Preview,
    /// A call whose approval is pending, whether it has an outcome or not.
    Approval,
    /// A command that is running.
    Output,
}

/// Whether a call is one that is wanted.
pub open spec fn wanted(r: ResultModel, want: Want) -> bool {
    match want {
        Want::Unresolved => r.outcome is None,
        Want::Preview => r.approval is NotRequired && r.outcome is None && r.patch_preview is None
            && r.function_name == "patch"@,
        Want::Approval => r.approval is Pending,
        Want::Output => r.approval is Approved && r.outcome is None && r.function_name
            == "command"@,
    }
}

/// The first call with that id that is wanted.
pub open spec fn result_for(results: Seq<ResultModel>, call_id: Seq<char>, want: Want) -> Option<
    int,
> {
    first_some(
        results.len() as int,
        |i: int|
            if results[i].call_id == call_id && wanted(results[i], want) {
                Some(i)
            } else {
                None
            },
    )
}

/// The core with one of its calls changed.
pub open spec fn with_result(
    c: CoreModel,
    p: PendingModel,
    k: int,
    r: ResultModel,
    metrics: AgentMetrics,
) -> CoreModel {
    settled(
        CoreModel {
            pending: Some(PendingModel { results: p.results.update(k, r), ..p }),
            metrics,
            ..c
        },
    )
}

/// A tool has reported its outcome.
pub open spec fn tool_result(
    c: CoreModel,
    request: RequestId,
    call_id: Seq<char>,
    outcome: OutcomeModel,
) -> (CoreModel, Seq<ActionModel>) {
    let stale = dropped(
        c,
        AgentMetrics {
            tool_results_dropped_as_stale: bumped(c.metrics.tool_results_dropped_as_stale),
            ..c.metrics
        },
    );
    match running(c, request) {
        None => stale,
        Some(p) => match result_for(p.results, call_id, Want::Unresolved) {
            None => stale,
            Some(k) => proceeded(
                with_result(
                    c,
                    p,
                    k,
                    ResultModel { outcome: Some(outcome), ..p.results[k] },
                    AgentMetrics {
                        tool_results_committed: bumped(c.metrics.tool_results_committed),
                        ..c.metrics
                    },
                ),
            ),
        },
    }
}

/// The preview of a patch is there: the call waits for approval.
pub open spec fn patch_preview_ready(
    c: CoreModel,
    request: RequestId,
    call_id: Seq<char>,
    preview_hashes: Seq<PreviewHashModel>,
    preview: PatchPreviewModel,
) -> (CoreModel, Seq<ActionModel>) {
    let stale = dropped(
        c,
        AgentMetrics {
            patch_previews_dropped_as_stale: bumped(c.metrics.patch_previews_dropped_as_stale),
            ..c.metrics
        },
    );
    match running(c, request) {
        None => stale,
        Some(p) => match result_for(p.results, call_id, Want::Preview) {
            None => stale,
            Some(k) => (
                with_result(
                    c,
                    p,
                    k,
                    ResultModel {
                        patch_preview: Some(preview),
                        preview_hashes,
                        approval: ApprovalState::Pending,
                        ..p.results[k]
                    },
                    AgentMetrics {
                        patch_previews_committed: bumped(c.metrics.patch_previews_committed),
                        ..c.metrics
                    },
                ),
                seq![ActionModel::Redraw],
            ),
        },
    }
}

/// What an approved call leads to: an action, or an error.
pub open spec fn approval_of(r: ResultModel, request: RequestId) -> Result<
    ActionModel,
    ToolErrorModel,
> {
    if r.function_name == "patch"@ {
        match patch_call(r.arguments_json) {
            Ok(edits) => Ok(
                ActionModel::ApplyPatch {
                    request,
                    call_id: r.call_id,
                    invocation: edits,
                    preview_hashes: r.preview_hashes,
                },
            ),
            Err(e) => Err(e),
        }
    } else if r.function_name == "command"@ {
        match command_call(r.arguments_json) {
            Ok(argv) => Ok(
                ActionModel::ExecuteCommand { request, call_id: r.call_id, invocation: argv },
            ),
            Err(e) => Err(e),
        }
    } else {
        Err(bad_arguments("no approval flow for tool "@ + r.function_name))
    }
}

/// The user approved a call.
pub open spec fn approve(c: CoreModel, call_id: Seq<char>) -> (CoreModel, Seq<ActionModel>) {
    let stale = dropped(
        c,
        AgentMetrics {
            tool_call_approvals_dropped_as_stale: bumped(
                c.metrics.tool_call_approvals_dropped_as_stale,
            ),
            ..c.metrics
        },
    );
    match c.pending {
        None => stale,
        Some(p) => match result_for(p.results, call_id, Want::Approval) {
            None => stale,
            Some(k) => {
                let r = ResultModel { approval: ApprovalState::Approved, ..p.results[k] };
                let metrics = AgentMetrics {
                    tool_call_approvals_committed: bumped(c.metrics.tool_call_approvals_committed),
                    ..c.metrics
                };
                match approval_of(r, p.id) {
                    Ok(action) => (
                        with_result(
                            c,
                            p,
                            k,
                            r,
                            if action is ExecuteCommand {
                                AgentMetrics {
                                    command_executions_started: bumped(
                                        metrics.command_executions_started,
                                    ),
                                    ..metrics
                                }
                            } else {
                                metrics
                            },
                        ),
                        seq![action, ActionModel::Redraw],
                    ),
                    Err(e) => proceeded(
                        with_result(
                            c,
                            p,
                            k,
                            ResultModel { outcome: Some(OutcomeModel::Failure(e)), ..r },
                            metrics,
                        ),
                    ),
                }
            },
        },
    }
}

/// The user rejected a call: that is its outcome.
pub open spec fn reject(c: CoreModel, call_id: Seq<char>) -> (CoreModel, Seq<ActionModel>) {
    let stale = dropped(
        c,
        AgentMetrics {
            tool_call_rejections_dropped_as_stale: bumped(
                c.metrics.tool_call_rejections_dropped_as_stale,
            ),
            ..c.metrics
        },
    );
    match c.pending {
        None => stale,
        Some(p) => match result_for(p.results, call_id, Want::Approval) {
            None => stale,
            Some(k) => proceeded(
                with_result(
                    c,
                    p,
                    k,
                    ResultModel {
                        approval: ApprovalState::Rejected,
                        outcome: Some(
                            OutcomeModel::Failure(
                                if p.results[k].function_name == "command"@ {
                                    ToolErrorModel::Command(CommandErrorModel::Rejected)
                                } else {
                                    ToolErrorModel::Patch(PatchErrorModel::Rejected)
                                },
                            ),
                        ),
                        ..p.results[k]
                    },
                    AgentMetrics {
                        tool_call_rejections_committed: bumped(
                            c.metrics.tool_call_rejections_committed,
                        ),
                        ..c.metrics
                    },
                ),
            ),
        },
    }
}

/// `a + b`, or the greatest number where that is more.
pub open spec fn capped_sum(a: u64, b: int) -> u64 {
    if a + b > u64::MAX {
        u64::MAX
    } else {
        (a + b) as u64
    }
}

/// The end of the output after one more chunk.
pub open spec fn tail_after(t: TailModel, stream: CommandOutputStream, bytes: Seq<u8>) -> TailModel {
    match stream {
        CommandOutputStream::Stdout => TailModel {
            stdout_tail: last_chars(
                t.stdout_tail + lossy_text(bytes),
                COMMAND_TAIL_CHARS as int,
            ),
            stdout_bytes_total: capped_sum(t.stdout_bytes_total, bytes.len() as int),
            ..t
        },
        CommandOutputStream::Stderr => TailModel {
            stderr_tail: last_chars(
                t.stderr_tail + lossy_text(bytes),
                COMMAND_TAIL_CHARS as int,
            ),
            stderr_bytes_total: capped_sum(t.stderr_bytes_total, bytes.len() as int),
            ..t
        },
    }
}

/// A running command wrote something.
pub open spec fn command_output(
    c: CoreModel,
    request: RequestId,
    call_id: Seq<char>,
    stream: CommandOutputStream,
    bytes: Seq<u8>,
) -> (CoreModel, Seq<ActionModel>) {
    let stale = dropped(
        c,
        AgentMetrics {
            command_output_chunks_dropped_as_stale: bumped(
                c.metrics.command_output_chunks_dropped_as_stale,
            ),
            ..c.metrics
        },
    );
    match running(c, request) {
        None => stale,
        Some(p) => match result_for(p.results, call_id, Want::Output) {
            None => stale,
            Some(k) => (
                CoreModel {
                    pending: Some(
                        PendingModel {
                            results: p.results.update(
                                k,
                                ResultModel {
                                    command_output_tail: Some(
                                        tail_after(
                                            match p.results[k].command_output_tail {
                                                Some(t) => t,
                                                None => empty_tail(),
                                            },
                                            stream,
                                            bytes,
                                        ),
                                    ),
                                    ..p.results[k]
                                },
                            ),
                            ..p
                        },
                    ),
                    metrics: AgentMetrics {
                        command_output_chunks_appended: bumped(
                            c.metrics.command_output_chunks_appended,
                        ),
                        ..c.metrics
                    },
                    ..c
                },
                seq![ActionModel::Redraw],
            ),
        },
    }
}

/// The transport reported an error: the turn ends. While tools run, nothing is
/// streamed any more, and the error is dropped.
pub open spec fn transport_error(c: CoreModel, request: RequestId, message: Seq<char>) -> (
    CoreModel,
    Seq<ActionModel>,
) {
    match streaming(c, request) {
        None => dropped(
            c,
            AgentMetrics {
                transport_errors_dropped_as_stale: bumped(
                    c.metrics.transport_errors_dropped_as_stale,
                ),
                ..c.metrics
            },
        ),
        Some(p) => (
            idle(
                c,
                AgentMetrics {
                    transport_errors_recorded: bumped(c.metrics.transport_errors_recorded),
                    ..c.metrics
                },
            ),
            seq![ActionModel::ReportError { message }, ActionModel::Redraw],
        ),
    }
}

/// The request took too long: the turn ends. What is under way for it is
/// cancelled, be it the response or the tools.
pub open spec fn timeout(c: CoreModel, request: RequestId) -> (CoreModel, Seq<ActionModel>) {
    match active(c, request) {
        None => dropped(
            c,
            AgentMetrics {
                timeouts_dropped_as_stale: bumped(c.metrics.timeouts_dropped_as_stale),
                ..c.metrics
            },
        ),
        Some(p) => (
            idle(
                c,
                AgentMetrics { timeouts_applied: bumped(c.metrics.timeouts_applied), ..c.metrics },
            ),
            seq![
                cancelled(p),
                ActionModel::ReportError { message: "request timed out"@ },
                ActionModel::Redraw,
            ],
        ),
    }
}

/// The core after an event, and the actions that it asks for.
pub open spec fn step(c: CoreModel, e: EventModel) -> (CoreModel, Seq<ActionModel>) {
    match e {
        EventModel::UserMessage(text) => user_message(c, text),
        EventModel::Cancel => cancel(c),
        EventModel::ContentDelta { request, text } => content_delta(c, request, text),
        EventModel::ReasoningDelta { request, text } => reasoning_delta(c, request, text),
        EventModel::ToolCallDelta { request, index, id, function_name, arguments_fragment } =>
            tool_call_delta(c, request, index, id, function_name, arguments_fragment),
        EventModel::Finish { request, reason } => finish(c, request, reason),
        EventModel::ToolResult { request, call_id, outcome } => tool_result(
            c,
            request,
            call_id,
            outcome,
        ),
        EventModel::PatchPreviewReady { request, call_id, preview_hashes, preview } =>
            patch_preview_ready(c, request, call_id, preview_hashes, preview),
        EventModel::ApproveToolCall { call_id } => approve(c, call_id),
        EventModel::RejectToolCall { call_id } => reject(c, call_id),
        EventModel::CommandOutputChunk { request, call_id, stream, bytes } => command_output(
            c,
            request,
            call_id,
            stream,
            bytes,
        ),
        EventModel::TransportError { request, message } => transport_error(c, request, message),
        EventModel::Timeout { request } => timeout(c, request),
    }
}

} // verus!
