//! What holds of the agent core as a whole.
use vstd::prelude::*;
use vstd::string::*;
use vstd::utf8::encode_utf8;

use super::engine::approval_wanted;
use super::errors::ToolErrorModel;
use super::metrics::AgentMetrics;
use super::state::{
    all_resolved, answer, awaits_approval, call_of, dispatched, finish_calls, finish_turn, merged,
    new_core, proceeded, rank, result_for, running, slot_for, step, streaming, tail_after,
    tool_phase, wanted, with_result, with_slot, CoreModel, DispatchModel, PendingModel,
    PendingPhase, ResultModel, SlotModel, Want,
};
use super::types::{
    empty_tail, ActionModel, ApprovalState, CommandOutputStream, EventModel, RequestId, Status,
    TailModel,
};
use super::{ARGUMENTS_MAX_BYTES, COMMAND_TAIL_CHARS, TURN_TOOL_CALL_LIMIT};
use crate::metrics::{bumped, Counter};
use crate::model::{first_some, lemma_first_found, lemma_first_none, lemma_none_before};
use crate::sansio::deepseek::{CallModel, MessageModel};
use crate::text::lemma_encode_add;

verus! {

/// Whether slots stand in the order of their indices, and hold no more
/// arguments than a call may have.
pub open spec fn slots_wf(slots: Seq<SlotModel>) -> bool {
    &&& forall|i: int, j: int|
        0 <= i < j < slots.len() ==> (#[trigger] slots[i]).index < (#[trigger] slots[j]).index
    &&& forall|i: int|
        0 <= i < slots.len() ==> encode_utf8((#[trigger] slots[i]).arguments).len()
            <= ARGUMENTS_MAX_BYTES
}

/// Whether the end of an output that is kept is short enough.
pub open spec fn tail_wf(t: TailModel) -> bool {
    t.stdout_tail.len() <= COMMAND_TAIL_CHARS && t.stderr_tail.len() <= COMMAND_TAIL_CHARS
}

/// Whether the kept ends of all outputs are short enough.
pub open spec fn results_wf(results: Seq<ResultModel>) -> bool {
    forall|i: int|
        0 <= i < results.len() ==> ((#[trigger] results[i]).command_output_tail matches Some(t)
            ==> tail_wf(t))
}

/// Whether dispatched calls are the calls of a message, one for one.
pub open spec fn answers_message(results: Seq<ResultModel>, m: MessageModel) -> bool {
    m matches MessageModel::Assistant { tool_calls, .. } && tool_calls.len() == results.len()
        && forall|i: int|
        0 <= i < results.len() ==> (#[trigger] results[i]).call_id == tool_calls[i].id
}

/// Whether a request in flight fits the status and the conversation.
pub open spec fn pending_wf(c: CoreModel, p: PendingModel) -> bool {
    match p.phase {
        PendingPhase::Streaming => {
            &&& c.status is AwaitingModel || c.status is Streaming
            &&& p.results.len() == 0
            &&& slots_wf(p.slots)
        },
        _ => {
            &&& p.phase == tool_phase(p.results)
            &&& c.status == (if p.phase is AwaitingApproval {
                Status::AwaitingApproval
            } else {
                Status::ToolRunning
            })
            &&& !all_resolved(p.results)
            &&& results_wf(p.results)
            &&& p.slots.len() == 0
            &&& c.conversation.len() > 0
            &&& answers_message(p.results, c.conversation.last())
        },
    }
}

/// What holds of a core in every state.
///
/// It is idle exactly when no request is in flight, and has then no calls of
/// a turn to count. While tools run, they are those that the last message
/// asked for, and at least one of them has no outcome yet; the core waits for
/// approval exactly when one of them does.
pub open spec fn core_wf(c: CoreModel) -> bool {
    &&& c.tool_calls_this_turn <= TURN_TOOL_CALL_LIMIT
    &&& match c.pending {
        None => c.status is Idle && c.tool_calls_this_turn == 0,
        Some(p) => !(c.status is Idle) && pending_wf(c, p),
    }
}

/// Whether the texts of an event are as long as a string can be.
pub open spec fn event_fits(e: EventModel) -> bool {
    match e {
        EventModel::ToolCallDelta { arguments_fragment: Some(f), .. } => encode_utf8(f).len()
            <= usize::MAX,
        _ => true,
    }
}

/// A core that has seen nothing is in order.
pub proof fn law_new_core_is_in_order()
    ensures
        core_wf(new_core()),
{
}

/// The place of an index among sorted slots.
pub proof fn lemma_rank(slots: Seq<SlotModel>, index: u64)
    ensures
        0 <= rank(slots, index) <= slots.len(),
        forall|i: int| 0 <= i < rank(slots, index) ==> (#[trigger] slots[i]).index < index,
        rank(slots, index) < slots.len() ==> slots[rank(slots, index)].index >= index,
    decreases slots.len(),
{
    if slots.len() > 0 && slots[0].index < index {
        let rest = slots.skip(1);
        lemma_rank(rest, index);
        assert forall|i: int| 0 <= i < rank(slots, index) implies (#[trigger] slots[i]).index
            < index by {
            if i > 0 {
                assert(rest[i - 1] == slots[i]);
            }
        }
        if rank(slots, index) < slots.len() {
            assert(rest[rank(rest, index)] == slots[rank(slots, index)]);
        }
    }
}

/// Slots stay in order when a fragment is merged.
proof fn lemma_slots_stay_wf(
    slots: Seq<SlotModel>,
    index: u64,
    id: Option<Seq<char>>,
    name: Option<Seq<char>>,
    fragment: Option<Seq<char>>,
)
    requires
        slots_wf(slots),
        fragment matches Some(f) ==> encode_utf8(f).len() <= usize::MAX,
    ensures
        slots_wf(with_slot(slots, merged(slot_for(slots, index), id, name, fragment))),
{
    let k = rank(slots, index);
    let s = slot_for(slots, index);
    let m = merged(s, id, name, fragment);
    let now = with_slot(slots, m);
    lemma_rank(slots, index);
    assert(m.index == index);
    assert(encode_utf8(Seq::<char>::empty()).len() == 0);
    assert(encode_utf8(s.arguments).len() <= ARGUMENTS_MAX_BYTES);
    if let Some(f) = fragment {
        lemma_encode_add(s.arguments, f);
    }
    assert(encode_utf8(m.arguments).len() <= ARGUMENTS_MAX_BYTES);
    if k < slots.len() && slots[k].index == index {
    } else {
        assert forall|i: int, j: int| 0 <= i < j < now.len() implies (#[trigger] now[i]).index < (
        #[trigger] now[j]).index by {
            let a = if i < k {
                i
            } else {
                i - 1
            };
            let b = if j < k {
                j
            } else {
                j - 1
            };
            if i != k {
                assert(now[i] == slots[a]);
            }
            if j != k {
                assert(now[j] == slots[b]);
            }
            if i == k && j > k {
                if b > k {
                    assert(slots[k].index < slots[b].index);
                }
            }
        }
        assert forall|i: int| 0 <= i < now.len() implies encode_utf8(
            (#[trigger] now[i]).arguments,
        ).len() <= ARGUMENTS_MAX_BYTES by {
            if i < k {
                assert(now[i] == slots[i]);
            } else if i > k {
                assert(now[i] == slots[i - 1]);
            }
        }
    }
}

/// What the dispatch of calls leads to: one result for each call, in order,
/// and no more executed calls than a turn may have.
proof fn lemma_dispatched(
    d: DispatchModel,
    calls: Seq<CallModel>,
    slots: Seq<SlotModel>,
    request: RequestId,
    workspace: Seq<char>,
)
    requires
        d.results.len() == 0,
        d.tool_calls_this_turn <= TURN_TOOL_CALL_LIMIT,
        forall|i: int| 0 <= i < d.actions.len() ==> !((#[trigger] d.actions[i]) is StartRequest),
    ensures
        ({
            let e = dispatched(d, calls, slots, request, workspace);
            &&& e.results.len() == calls.len()
            &&& forall|i: int|
                0 <= i < calls.len() ==> (#[trigger] e.results[i]).call_id == calls[i].id
            &&& results_wf(e.results)
            &&& d.tool_calls_this_turn <= e.tool_calls_this_turn <= TURN_TOOL_CALL_LIMIT
            &&& e.metrics.finishes_committed == d.metrics.finishes_committed
            &&& e.metrics.finishes_dropped_as_stale == d.metrics.finishes_dropped_as_stale
            &&& forall|i: int|
                0 <= i < e.actions.len() ==> !((#[trigger] e.actions[i]) is StartRequest)
        }),
    decreases calls.len(),
{
    if calls.len() > 0 {
        lemma_dispatched(d, calls.drop_last(), slots, request, workspace);
        let before = dispatched(d, calls.drop_last(), slots, request, workspace);
        let e = dispatched(d, calls, slots, request, workspace);
        assert forall|i: int| 0 <= i < calls.len() implies (#[trigger] e.results[i]).call_id
            == calls[i].id by {
            if i < calls.len() - 1 {
                assert(e.results[i] == before.results[i]);
                assert(calls.drop_last()[i] == calls[i]);
            }
        }
        assert forall|i: int| 0 <= i < e.results.len() implies ((
        #[trigger] e.results[i]).command_output_tail matches Some(t) ==> tail_wf(t)) by {
            if i < calls.len() - 1 {
                assert(e.results[i] == before.results[i]);
            }
        }
    }
}

/// What is known of a call that was found.
proof fn lemma_result_for(results: Seq<ResultModel>, call_id: Seq<char>, want: Want)
    ensures
        result_for(results, call_id, want) matches Some(k) ==> 0 <= k < results.len()
            && results[k].call_id == call_id && wanted(results[k], want),
{
    let f = |i: int|
        if results[i].call_id == call_id && wanted(results[i], want) {
            Some(i)
        } else {
            None
        };
    if result_for(results, call_id, want) is Some {
        let k = lemma_first_found(results.len() as int, f);
    }
}

/// The core stays in order where one of its calls is changed, unless that
/// gives every call its outcome: then it goes on to the next request.
proof fn lemma_with_result(
    c: CoreModel,
    p: PendingModel,
    k: int,
    r: ResultModel,
    metrics: AgentMetrics,
)
    requires
        core_wf(c),
        c.pending == Some(p),
        !(p.phase is Streaming),
        0 <= k < p.results.len(),
        r.call_id == p.results[k].call_id,
        r.command_output_tail matches Some(t) ==> tail_wf(t),
    ensures
        ({
            let d = with_result(c, p, k, r, metrics);
            let results = p.results.update(k, r);
            &&& d.conversation == c.conversation
            &&& d.tool_calls_this_turn == c.tool_calls_this_turn
            &&& d.next_id == c.next_id
            &&& d.metrics == metrics
            &&& d.pending matches Some(q) && q.results == results
            &&& !all_resolved(results) ==> core_wf(d)
            &&& core_wf(proceeded(d).0)
        }),
{
    let results = p.results.update(k, r);
    assert(answers_message(results, c.conversation.last())) by {
        assert forall|i: int| 0 <= i < results.len() implies (#[trigger] results[i]).call_id
            == c.conversation.last()->Assistant_tool_calls[i].id by {
            assert(p.results[i].call_id == c.conversation.last()->Assistant_tool_calls[i].id);
        }
    }
    assert forall|i: int| 0 <= i < results.len() implies ((
    #[trigger] results[i]).command_output_tail matches Some(t) ==> tail_wf(t)) by {
        if i != k {
            assert(results[i] == p.results[i]);
        }
    }
}

/// Whatever happens, the core stays in order.
#[verifier::rlimit(40)]
pub proof fn law_core_stays_in_order(c: CoreModel, e: EventModel)
    requires
        core_wf(c),
        event_fits(e),
    ensures
        core_wf(step(c, e).0),
{
    match e {
        EventModel::ToolCallDelta { request, index, id, function_name, arguments_fragment } => {
            if let Some(p) = streaming(c, request) {
                lemma_slots_stay_wf(p.slots, index, id, function_name, arguments_fragment);
            }
        },
        EventModel::Finish { request, reason } => {
            if let Some(p) = streaming(c, request) {
                lemma_finish_calls(c, p, reason);
            }
        },
        EventModel::ToolResult { request, call_id, outcome } => {
            if let Some(p) = running(c, request) {
                lemma_result_for(p.results, call_id, Want::Unresolved);
                if let Some(k) = result_for(p.results, call_id, Want::Unresolved) {
                    lemma_with_result(
                        c,
                        p,
                        k,
                        ResultModel { outcome: Some(outcome), ..p.results[k] },
                        AgentMetrics {
                            tool_results_committed: bumped(c.metrics.tool_results_committed),
                            ..c.metrics
                        },
                    );
                }
            }
        },
        EventModel::PatchPreviewReady { request, call_id, preview_hashes, preview } => {
            if let Some(p) = running(c, request) {
                lemma_result_for(p.results, call_id, Want::Preview);
                if let Some(k) = result_for(p.results, call_id, Want::Preview) {
                    let r = ResultModel {
                        patch_preview: Some(preview),
                        preview_hashes,
                        approval: super::types::ApprovalState::Pending,
                        ..p.results[k]
                    };
                    lemma_with_result(
                        c,
                        p,
                        k,
                        r,
                        AgentMetrics {
                            patch_previews_committed: bumped(c.metrics.patch_previews_committed),
                            ..c.metrics
                        },
                    );
                    assert(p.results.update(k, r)[k].outcome is None);
                }
            }
        },
        EventModel::ApproveToolCall { call_id } => {
            lemma_approve(c, call_id);
        },
        EventModel::RejectToolCall { call_id } => {
            if let Some(p) = c.pending {
                lemma_result_for(p.results, call_id, Want::Approval);
                if let Some(k) = result_for(p.results, call_id, Want::Approval) {
                    lemma_with_result(
                        c,
                        p,
                        k,
                        ResultModel {
                            approval: super::types::ApprovalState::Rejected,
                            outcome: Some(
                                super::errors::OutcomeModel::Failure(
                                    if p.results[k].function_name == "command"@ {
                                        ToolErrorModel::Command(
                                            super::errors::CommandErrorModel::Rejected,
                                        )
                                    } else {
                                        ToolErrorModel::Patch(
                                            super::errors::PatchErrorModel::Rejected,
                                        )
                                    },
                                ),
                            ),
                            ..p.results[k]
                        },
                        AgentMetrics {
                            tool_call_rejections_committed: bumped(
                                c.metrics.tool_call_rejections_committed,
                            ),
                            ..c.metrics
                        },
                    );
                }
            }
        },
        EventModel::CommandOutputChunk { request, call_id, stream, bytes } => {
            lemma_output(c, request, call_id, stream, bytes);
        },
        _ => {},
    }
}

/// The core stays in order when a response with calls is complete.
proof fn lemma_finish_calls(c: CoreModel, p: PendingModel, reason: Option<Seq<char>>)
    requires
        core_wf(c),
        c.pending == Some(p),
        p.phase is Streaming,
    ensures
        core_wf(finish_calls(c, p, reason).0),
        core_wf(finish_turn(c, p).0),
{
    let calls = p.slots.map_values(|s: SlotModel| call_of(s));
    let d = DispatchModel {
        results: Seq::empty(),
        actions: Seq::empty(),
        tool_calls_this_turn: c.tool_calls_this_turn,
        metrics: AgentMetrics {
            finishes_committed: bumped(c.metrics.finishes_committed),
            ..c.metrics
        },
    };
    lemma_dispatched(d, calls, p.slots, p.id, c.workspace_display);
}

/// The core stays in order when a call is approved.
proof fn lemma_approve(c: CoreModel, call_id: Seq<char>)
    requires
        core_wf(c),
    ensures
        core_wf(super::state::approve(c, call_id).0),
{
    if let Some(p) = c.pending {
        lemma_result_for(p.results, call_id, Want::Approval);
        if let Some(k) = result_for(p.results, call_id, Want::Approval) {
            let r = ResultModel {
                approval: super::types::ApprovalState::Approved,
                ..p.results[k]
            };
            let metrics = AgentMetrics {
                tool_call_approvals_committed: bumped(c.metrics.tool_call_approvals_committed),
                ..c.metrics
            };
            match super::state::approval_of(r, p.id) {
                Ok(action) => {
                    let m = if action is ExecuteCommand {
                        AgentMetrics {
                            command_executions_started: bumped(metrics.command_executions_started),
                            ..metrics
                        }
                    } else {
                        metrics
                    };
                    lemma_with_result(c, p, k, r, m);
                    let open = choose|i: int|
                        0 <= i < p.results.len() && (#[trigger] p.results[i]).outcome is None;
                    assert(p.results.update(k, r)[open].outcome is None);
                },
                Err(e) => {
                    lemma_with_result(
                        c,
                        p,
                        k,
                        ResultModel {
                            outcome: Some(super::errors::OutcomeModel::Failure(e)),
                            ..r
                        },
                        metrics,
                    );
                },
            }
        }
    }
}

/// The core stays in order when a command writes something.
proof fn lemma_output(
    c: CoreModel,
    request: RequestId,
    call_id: Seq<char>,
    stream: CommandOutputStream,
    bytes: Seq<u8>,
)
    requires
        core_wf(c),
    ensures
        core_wf(super::state::command_output(c, request, call_id, stream, bytes).0),
{
    if let Some(p) = running(c, request) {
        lemma_result_for(p.results, call_id, Want::Output);
        if let Some(k) = result_for(p.results, call_id, Want::Output) {
            let t = match p.results[k].command_output_tail {
                Some(t) => t,
                None => empty_tail(),
            };
            let r = ResultModel {
                command_output_tail: Some(tail_after(t, stream, bytes)),
                ..p.results[k]
            };
            let results = p.results.update(k, r);
            assert(results[k].outcome is None);
            assert(awaits_approval(results) == awaits_approval(p.results)) by {
                if awaits_approval(p.results) {
                    let i = choose|i: int|
                        0 <= i < p.results.len() && (#[trigger] p.results[i]).approval is Pending
                            && p.results[i].outcome is None;
                    assert(results[i].approval is Pending && results[i].outcome is None);
                }
                if awaits_approval(results) {
                    let i = choose|i: int|
                        0 <= i < results.len() && (#[trigger] results[i]).approval is Pending
                            && results[i].outcome is None;
                    assert(p.results[i].approval is Pending && p.results[i].outcome is None);
                }
            }
            assert forall|i: int| 0 <= i < results.len() implies (#[trigger] results[i]).call_id
                == c.conversation.last()->Assistant_tool_calls[i].id by {
                assert(p.results[i].call_id == c.conversation.last()->Assistant_tool_calls[i].id);
            }
            assert forall|i: int| 0 <= i < results.len() implies ((
            #[trigger] results[i]).command_output_tail matches Some(t) ==> tail_wf(t)) by {
                if i != k {
                    assert(results[i] == p.results[i]);
                }
            }
        }
    }
}

/// The request that an event carries the id of.
pub open spec fn request_of(e: EventModel) -> Option<RequestId> {
    match e {
        EventModel::ContentDelta { request, .. } => Some(request),
        EventModel::ReasoningDelta { request, .. } => Some(request),
        EventModel::ToolCallDelta { request, .. } => Some(request),
        EventModel::Finish { request, .. } => Some(request),
        EventModel::ToolResult { request, .. } => Some(request),
        EventModel::PatchPreviewReady { request, .. } => Some(request),
        EventModel::CommandOutputChunk { request, .. } => Some(request),
        EventModel::TransportError { request, .. } => Some(request),
        EventModel::Timeout { request } => Some(request),
        _ => None,
    }
}

/// Whether a request with that id is in flight.
pub open spec fn in_flight(c: CoreModel, request: RequestId) -> bool {
    c.pending matches Some(p) && p.id == request
}

/// An event of a request that is not in flight is dropped: nothing changes
/// but the counters, and nothing is asked for.
pub proof fn law_stale_events_are_dropped(c: CoreModel, e: EventModel)
    requires
        request_of(e) matches Some(request) && !in_flight(c, request),
    ensures
        step(c, e).0 == (CoreModel { metrics: step(c, e).0.metrics, ..c }),
        step(c, e).1.len() == 0,
{
}

/// A prompt is refused while a request is in flight, and starts one
/// otherwise.
pub proof fn law_one_request_at_a_time(c: CoreModel, text: Seq<char>)
    ensures
        ({
            let (d, actions) = step(c, EventModel::UserMessage(text));
            if c.pending is Some {
                d == CoreModel { metrics: d.metrics, ..c } && actions.len() == 0
            } else {
                d.pending is Some && d.conversation == c.conversation.push(
                    MessageModel::User(text),
                )
            }
        }),
{
}

/// Whether one of two counters has gone up by one, and the other has not.
pub open spec fn one_counted(a: Counter, b: Counter, a2: Counter, b2: Counter) -> bool {
    (a2 == bumped(a) && b2 == b) || (a2 == a && b2 == bumped(b))
}

/// Whether an event was counted exactly once, as one that took effect or as
/// one that was dropped.
pub open spec fn counted(e: EventModel, m: AgentMetrics, n: AgentMetrics) -> bool {
    match e {
        EventModel::UserMessage(_) => one_counted(
            m.user_messages_accepted,
            m.user_messages_rejected_while_active,
            n.user_messages_accepted,
            n.user_messages_rejected_while_active,
        ),
        EventModel::Cancel => one_counted(
            m.cancels_applied,
            m.cancels_ignored_when_idle,
            n.cancels_applied,
            n.cancels_ignored_when_idle,
        ),
        EventModel::ContentDelta { .. } => one_counted(
            m.content_deltas_appended,
            m.content_deltas_dropped_as_stale,
            n.content_deltas_appended,
            n.content_deltas_dropped_as_stale,
        ),
        EventModel::ReasoningDelta { .. } => one_counted(
            m.reasoning_deltas_appended,
            m.reasoning_deltas_dropped_as_stale,
            n.reasoning_deltas_appended,
            n.reasoning_deltas_dropped_as_stale,
        ),
        EventModel::ToolCallDelta { .. } => one_counted(
            m.tool_call_deltas_appended,
            m.tool_call_deltas_dropped_as_stale,
            n.tool_call_deltas_appended,
            n.tool_call_deltas_dropped_as_stale,
        ),
        EventModel::Finish { .. } => one_counted(
            m.finishes_committed,
            m.finishes_dropped_as_stale,
            n.finishes_committed,
            n.finishes_dropped_as_stale,
        ),
        EventModel::ToolResult { .. } => one_counted(
            m.tool_results_committed,
            m.tool_results_dropped_as_stale,
            n.tool_results_committed,
            n.tool_results_dropped_as_stale,
        ),
        EventModel::PatchPreviewReady { .. } => one_counted(
            m.patch_previews_committed,
            m.patch_previews_dropped_as_stale,
            n.patch_previews_committed,
            n.patch_previews_dropped_as_stale,
        ),
        EventModel::ApproveToolCall { .. } => one_counted(
            m.tool_call_approvals_committed,
            m.tool_call_approvals_dropped_as_stale,
            n.tool_call_approvals_committed,
            n.tool_call_approvals_dropped_as_stale,
        ),
        EventModel::RejectToolCall { .. } => one_counted(
            m.tool_call_rejections_committed,
            m.tool_call_rejections_dropped_as_stale,
            n.tool_call_rejections_committed,
            n.tool_call_rejections_dropped_as_stale,
        ),
        EventModel::CommandOutputChunk { .. } => one_counted(
            m.command_output_chunks_appended,
            m.command_output_chunks_dropped_as_stale,
            n.command_output_chunks_appended,
            n.command_output_chunks_dropped_as_stale,
        ),
        EventModel::TransportError { .. } => one_counted(
            m.transport_errors_recorded,
            m.transport_errors_dropped_as_stale,
            n.transport_errors_recorded,
            n.transport_errors_dropped_as_stale,
        ),
        EventModel::Timeout { .. } => one_counted(
            m.timeouts_applied,
            m.timeouts_dropped_as_stale,
            n.timeouts_applied,
            n.timeouts_dropped_as_stale,
        ),
    }
}

/// Every event is counted exactly once: of the two counters of its kind, one
/// goes up by one and the other stays.
pub proof fn law_every_event_is_counted_once(c: CoreModel, e: EventModel)
    requires
        core_wf(c),
    ensures
        counted(e, c.metrics, step(c, e).0.metrics),
{
    if let EventModel::Finish { request, reason } = e {
        if let Some(p) = streaming(c, request) {
            let calls = p.slots.map_values(|s: SlotModel| call_of(s));
            let d = DispatchModel {
                results: Seq::empty(),
                actions: Seq::empty(),
                tool_calls_this_turn: c.tool_calls_this_turn,
                metrics: AgentMetrics {
                    finishes_committed: bumped(c.metrics.finishes_committed),
                    ..c.metrics
                },
            };
            lemma_dispatched(d, calls, p.slots, p.id, c.workspace_display);
        }
    }
}

/// Messages that are in the conversation stay there.
pub proof fn law_conversation_only_grows(c: CoreModel, e: EventModel)
    ensures
        c.conversation.is_prefix_of(step(c, e).0.conversation),
{
}

/// Whether every request that is started is the one then in flight, and
/// carries the whole conversation; at most one is started.
pub open spec fn starts_follow(d: CoreModel, actions: Seq<ActionModel>) -> bool {
    &&& forall|i: int|
        0 <= i < actions.len() ==> (#[trigger] actions[i] matches ActionModel::StartRequest {
            id,
            messages,
        } ==> in_flight(d, id) && d.pending->0.phase is Streaming && messages == d.conversation)
    &&& forall|i: int, j: int|
        0 <= i < j < actions.len() ==> !((#[trigger] actions[i]) is StartRequest && (
        #[trigger] actions[j]) is StartRequest)
}

/// An event starts at most one request, which is then the one in flight; the
/// request carries the whole conversation.
pub proof fn law_requests_carry_the_conversation(c: CoreModel, e: EventModel)
    requires
        core_wf(c),
    ensures
        starts_follow(step(c, e).0, step(c, e).1),
{
    if let EventModel::Finish { request, reason } = e {
        if let Some(p) = streaming(c, request) {
            let calls = p.slots.map_values(|s: SlotModel| call_of(s));
            let d = DispatchModel {
                results: Seq::empty(),
                actions: Seq::empty(),
                tool_calls_this_turn: c.tool_calls_this_turn,
                metrics: AgentMetrics {
                    finishes_committed: bumped(c.metrics.finishes_committed),
                    ..c.metrics
                },
            };
            lemma_dispatched(d, calls, p.slots, p.id, c.workspace_display);
            let (next, actions) = step(c, e);
            let done = dispatched(d, calls, p.slots, p.id, c.workspace_display);
            if reason == Some("tool_calls"@) && p.slots.len() > 0 {
                assert forall|i: int| 0 <= i < done.actions.len() implies actions[i]
                    == #[trigger] done.actions[i] by {}
            }
        }
    }
}

/// Whether the calls of the message at `at` are answered by the messages that
/// follow it, one for one and in order.
pub open spec fn answered_at(conversation: Seq<MessageModel>, at: int) -> bool {
    conversation[at] matches MessageModel::Assistant { tool_calls, .. } && at + tool_calls.len()
        < conversation.len() && forall|i: int|
        0 <= i < tool_calls.len() ==> (#[trigger] conversation[at + 1 + i] matches MessageModel::Tool {
            tool_call_id,
            ..
        } && tool_call_id == tool_calls[i].id)
}

/// When the last outcome of a round of tool calls comes in, every call of the
/// message that asked for them is answered, in order, before the next request
/// is issued.
pub proof fn law_every_call_is_answered_in_order(
    c: CoreModel,
    request: RequestId,
    call_id: Seq<char>,
    outcome: super::errors::OutcomeModel,
)
    requires
        core_wf(c),
    ensures
        ({
            let d = step(c, EventModel::ToolResult { request, call_id, outcome }).0;
            d.conversation.len() > c.conversation.len() ==> answered_at(
                d.conversation,
                c.conversation.len() - 1,
            )
        }),
{
    if let Some(p) = running(c, request) {
        lemma_result_for(p.results, call_id, Want::Unresolved);
        if let Some(k) = result_for(p.results, call_id, Want::Unresolved) {
            let r = ResultModel { outcome: Some(outcome), ..p.results[k] };
            let m = AgentMetrics {
                tool_results_committed: bumped(c.metrics.tool_results_committed),
                ..c.metrics
            };
            lemma_with_result(c, p, k, r, m);
            let results = p.results.update(k, r);
            let d = step(c, EventModel::ToolResult { request, call_id, outcome }).0;
            let at = c.conversation.len() - 1;
            if d.conversation.len() > c.conversation.len() {
                assert(d.conversation =~= c.conversation + results.map_values(
                    |r: ResultModel| answer(r),
                ));
                let calls = c.conversation.last()->Assistant_tool_calls;
                assert(d.conversation[at] == c.conversation.last());
                assert forall|i: int| 0 <= i < calls.len() implies (
                #[trigger] d.conversation[at + 1 + i] matches MessageModel::Tool {
                    tool_call_id,
                    ..
                } && tool_call_id == calls[i].id) by {
                    assert(d.conversation[at + 1 + i] == answer(results[i]));
                    assert(p.results[i].call_id == calls[i].id);
                }
            }
        }
    }
}

/// The call that an action lets change something: a patch that is applied or
/// a command that is run.
pub open spec fn acts_for(a: ActionModel) -> Option<Seq<char>> {
    match a {
        ActionModel::ApplyPatch { call_id, .. } => Some(call_id),
        ActionModel::ExecuteCommand { call_id, .. } => Some(call_id),
        _ => None,
    }
}

/// Whether no action changes anything.
pub open spec fn harmless(actions: Seq<ActionModel>) -> bool {
    forall|i: int| 0 <= i < actions.len() ==> acts_for(#[trigger] actions[i]) is None
}

proof fn lemma_dispatched_is_harmless(
    d: DispatchModel,
    calls: Seq<CallModel>,
    slots: Seq<SlotModel>,
    request: RequestId,
    workspace: Seq<char>,
)
    requires
        harmless(d.actions),
    ensures
        harmless(dispatched(d, calls, slots, request, workspace).actions),
    decreases calls.len(),
{
    if calls.len() > 0 {
        lemma_dispatched_is_harmless(d, calls.drop_last(), slots, request, workspace);
    }
}

proof fn lemma_finish_is_harmless(c: CoreModel, p: PendingModel, reason: Option<Seq<char>>)
    ensures
        harmless(finish_calls(c, p, reason).1),
{
    let calls = p.slots.map_values(|s: SlotModel| call_of(s));
    let first = DispatchModel {
        results: Seq::empty(),
        actions: Seq::empty(),
        tool_calls_this_turn: c.tool_calls_this_turn,
        metrics: AgentMetrics {
            finishes_committed: bumped(c.metrics.finishes_committed),
            ..c.metrics
        },
    };
    lemma_dispatched_is_harmless(first, calls, p.slots, p.id, c.workspace_display);
    let d = dispatched(first, calls, p.slots, p.id, c.workspace_display);
    let actions = finish_calls(c, p, reason).1;
    assert forall|i: int| 0 <= i < actions.len() implies acts_for(#[trigger] actions[i]) is None by {
        if i < d.actions.len() {
            assert(actions[i] == d.actions[i]);
        }
    }
}

/// No patch is applied and no command is run but one whose approval was pending
/// and that the user has just approved.
pub proof fn law_only_approved_calls_run(c: CoreModel, e: EventModel, i: int)
    requires
        0 <= i < step(c, e).1.len(),
        acts_for(step(c, e).1[i]) is Some,
    ensures
        ({
            let call_id = acts_for(step(c, e).1[i])->0;
            &&& e == EventModel::ApproveToolCall { call_id }
            &&& c.pending is Some
            &&& result_for(c.pending->0.results, call_id, Want::Approval) is Some
        }),
{
    match e {
        EventModel::Finish { request, reason } => {
            if let Some(p) = streaming(c, request) {
                lemma_finish_is_harmless(c, p, reason);
            }
        },
        EventModel::ApproveToolCall { call_id } => {
            if let Some(p) = c.pending {
                let f = |k: int|
                    if p.results[k].call_id == call_id && wanted(p.results[k], Want::Approval) {
                        Some(k)
                    } else {
                        None
                    };
                if first_some(p.results.len() as int, f) is Some {
                    let k = lemma_first_found(p.results.len() as int, f);
                }
            }
        },
        _ => {},
    }
}

/// Whether a call waits for approval: one that has an outcome waits no more.
pub open spec fn waits(r: ResultModel) -> bool {
    r.approval is Pending && r.outcome is None
}

/// The core names a call that waits for approval exactly while its status says
/// that one does, and the call that it names is the first of them.
pub proof fn law_named_call_awaits_approval(c: CoreModel)
    requires
        core_wf(c),
    ensures
        approval_wanted(c) is Some <==> c.status is AwaitingApproval,
        approval_wanted(c) matches Some(id) ==> exists|k: int|
            0 <= k < c.pending->0.results.len() && {
                &&& (#[trigger] c.pending->0.results[k]).call_id == id
                &&& waits(c.pending->0.results[k])
                &&& forall|j: int| 0 <= j < k ==> !waits(#[trigger] c.pending->0.results[j])
            },
{
    if let Some(p) = c.pending {
        let n = p.results.len() as int;
        let f = |i: int|
            if p.results[i].approval is Pending && p.results[i].outcome is None {
                Some(p.results[i].call_id)
            } else {
                None
            };
        if first_some(n, f) is Some {
            let k = lemma_first_found(n, f);
            assert(waits(p.results[k]));
            assert forall|j: int| 0 <= j < k implies !waits(#[trigger] p.results[j]) by {
                assert(f(j) is None);
            }
        } else if awaits_approval(p.results) {
            let i = choose|i: int|
                0 <= i < p.results.len() && (#[trigger] p.results[i]).approval is Pending
                    && p.results[i].outcome is None;
            lemma_none_before(n, f, i);
            assert(f(i) is Some);
        }
    }
}

/// A timeout of the request in flight ends it, whatever it is doing: the
/// response or the tools are cancelled, and the user is told.
pub proof fn law_timeouts_end_the_request(c: CoreModel)
    requires
        c.pending is Some,
    ensures
        ({
            let p = c.pending->0;
            let (d, actions) = step(c, EventModel::Timeout { request: p.id });
            &&& d.pending is None
            &&& d.status is Idle
            &&& actions == seq![
                if p.phase is Streaming {
                    ActionModel::CancelRequest { id: p.id }
                } else {
                    ActionModel::CancelToolExecution { request: p.id }
                },
                ActionModel::ReportError { message: "request timed out"@ },
                ActionModel::Redraw,
            ]
        }),
{
}

/// Whether no two calls have the same id.
pub open spec fn ids_distinct(results: Seq<ResultModel>) -> bool {
    forall|i: int, j: int|
        0 <= i < j < results.len() ==> (#[trigger] results[i]).call_id != (
        #[trigger] results[j]).call_id
}

/// A call that the user has approved is not started again by another
/// approval, provided that its id is its own.
pub proof fn law_approved_calls_run_once(c: CoreModel, call_id: Seq<char>)
    requires
        c.pending is Some,
        ids_distinct(c.pending->0.results),
    ensures
        ({
            let e = EventModel::ApproveToolCall { call_id };
            let (d, actions) = step(c, e);
            !harmless(actions) ==> step(d, e).1.len() == 0
        }),
{
    let e = EventModel::ApproveToolCall { call_id };
    let p = c.pending->0;
    let n = p.results.len() as int;
    let (d, actions) = step(c, e);
    let f = |i: int|
        if p.results[i].call_id == call_id && wanted(p.results[i], Want::Approval) {
            Some(i)
        } else {
            None
        };
    if !harmless(actions) {
        let i = choose|i: int|
            0 <= i < actions.len() && acts_for(#[trigger] actions[i]) is Some;
        assert(first_some(n, f) is Some);
        let k = lemma_first_found(n, f);
        let r = ResultModel { approval: ApprovalState::Approved, ..p.results[k] };
        let after = p.results.update(k, r);
        assert(d.pending is Some && d.pending->0.results == after);
        let g = |i: int|
            if after[i].call_id == call_id && wanted(after[i], Want::Approval) {
                Some(i)
            } else {
                None
            };
        assert forall|i: int| 0 <= i < n implies #[trigger] g(i) is None by {
            if i < k {
                assert(p.results[i].call_id != p.results[k].call_id);
            } else if k < i {
                assert(p.results[k].call_id != p.results[i].call_id);
            }
        }
        lemma_first_none(n, g);
    }
}

} // verus!
