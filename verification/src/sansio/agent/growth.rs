//! The counters of the agent core never go down.
use vstd::prelude::*;
use vstd::string::*;

use super::errors::OutcomeModel;
use super::metrics::AgentMetrics;
use super::runs::{lemma_run_last, run};
use super::state::{call_of, dispatched, step, streaming, CoreModel, DispatchModel, SlotModel};
use super::types::{EventModel, RequestId};
use crate::metrics::{bumped, Counter};
use crate::sansio::deepseek::CallModel;

verus! {

/// Whether a counter has not gone down, and has gone up by no more than `most`,
/// short of wrapping: unless so much would have taken it past its end.
pub open spec fn grown(a: Counter, b: Counter, most: nat) -> bool {
    (a.0 <= b.0 && b.0 <= a.0 + most) || a.0 + most > u64::MAX
}

/// Whether no counter has gone down, and none has gone up by more than `most`,
/// short of wrapping.
pub open spec fn all_grown(a: AgentMetrics, b: AgentMetrics, most: nat) -> bool {
    &&& grown(a.user_messages_accepted, b.user_messages_accepted, most)
    &&& grown(a.user_messages_rejected_while_active, b.user_messages_rejected_while_active, most)
    &&& grown(a.cancels_applied, b.cancels_applied, most)
    &&& grown(a.cancels_ignored_when_idle, b.cancels_ignored_when_idle, most)
    &&& grown(a.content_deltas_appended, b.content_deltas_appended, most)
    &&& grown(a.content_deltas_dropped_as_stale, b.content_deltas_dropped_as_stale, most)
    &&& grown(a.reasoning_deltas_appended, b.reasoning_deltas_appended, most)
    &&& grown(a.reasoning_deltas_dropped_as_stale, b.reasoning_deltas_dropped_as_stale, most)
    &&& grown(a.finishes_committed, b.finishes_committed, most)
    &&& grown(a.finishes_dropped_as_stale, b.finishes_dropped_as_stale, most)
    &&& grown(a.transport_errors_recorded, b.transport_errors_recorded, most)
    &&& grown(a.transport_errors_dropped_as_stale, b.transport_errors_dropped_as_stale, most)
    &&& grown(a.timeouts_applied, b.timeouts_applied, most)
    &&& grown(a.timeouts_dropped_as_stale, b.timeouts_dropped_as_stale, most)
    &&& grown(a.tool_call_deltas_appended, b.tool_call_deltas_appended, most)
    &&& grown(a.tool_call_deltas_dropped_as_stale, b.tool_call_deltas_dropped_as_stale, most)
    &&& grown(
        a.tool_call_arguments_fragments_dropped_over_limit,
        b.tool_call_arguments_fragments_dropped_over_limit,
        most,
    )
    &&& grown(a.tool_results_committed, b.tool_results_committed, most)
    &&& grown(a.tool_results_dropped_as_stale, b.tool_results_dropped_as_stale, most)
    &&& grown(a.tool_calls_executed, b.tool_calls_executed, most)
    &&& grown(a.tool_calls_rejected_by_turn_limit, b.tool_calls_rejected_by_turn_limit, most)
    &&& grown(
        a.tool_calls_rejected_by_arguments_limit,
        b.tool_calls_rejected_by_arguments_limit,
        most,
    )
    &&& grown(a.patch_calls_previewed, b.patch_calls_previewed, most)
    &&& grown(a.patch_previews_committed, b.patch_previews_committed, most)
    &&& grown(a.patch_previews_dropped_as_stale, b.patch_previews_dropped_as_stale, most)
    &&& grown(a.tool_call_approvals_committed, b.tool_call_approvals_committed, most)
    &&& grown(a.tool_call_approvals_dropped_as_stale, b.tool_call_approvals_dropped_as_stale, most)
    &&& grown(a.tool_call_rejections_committed, b.tool_call_rejections_committed, most)
    &&& grown(
        a.tool_call_rejections_dropped_as_stale,
        b.tool_call_rejections_dropped_as_stale,
        most,
    )
    &&& grown(a.command_calls_dispatched, b.command_calls_dispatched, most)
    &&& grown(a.command_executions_started, b.command_executions_started, most)
    &&& grown(a.command_output_chunks_appended, b.command_output_chunks_appended, most)
    &&& grown(
        a.command_output_chunks_dropped_as_stale,
        b.command_output_chunks_dropped_as_stale,
        most,
    )
}

/// How many calls the response in flight asks for.
pub open spec fn calls_asked(c: CoreModel) -> nat {
    match c.pending {
        Some(p) => p.slots.len(),
        None => 0,
    }
}

/// By how much an event can take a counter up: by one for the event, and by
/// one for each call that the response asks for.
pub open spec fn most_counted(c: CoreModel) -> nat {
    1 + calls_asked(c)
}

/// By how much a run of events can take a counter up.
pub open spec fn most_counted_in(c: CoreModel, events: Seq<EventModel>) -> nat
    decreases events.len(),
{
    if events.len() == 0 {
        0
    } else {
        let before = events.drop_last();
        most_counted_in(c, before) + most_counted(run(c, before))
    }
}

proof fn lemma_grown_twice(a: AgentMetrics, b: AgentMetrics, c: AgentMetrics, m: nat, n: nat)
    requires
        all_grown(a, b, m),
        all_grown(b, c, n),
    ensures
        all_grown(a, c, m + n),
{
}

proof fn lemma_grown_more(a: AgentMetrics, b: AgentMetrics, m: nat, n: nat)
    requires
        all_grown(a, b, m),
        m <= n,
    ensures
        all_grown(a, b, n),
{
}

proof fn lemma_dispatch_grows(
    d: DispatchModel,
    calls: Seq<CallModel>,
    slots: Seq<SlotModel>,
    request: RequestId,
    workspace: Seq<char>,
)
    ensures
        all_grown(
            d.metrics,
            dispatched(d, calls, slots, request, workspace).metrics,
            calls.len(),
        ),
    decreases calls.len(),
{
    if calls.len() > 0 {
        let before = calls.drop_last();
        lemma_dispatch_grows(d, before, slots, request, workspace);
        let now = dispatched(d, calls, slots, request, workspace).metrics;
        let early = dispatched(d, before, slots, request, workspace).metrics;
        assert(all_grown(early, now, 1));
        lemma_grown_twice(d.metrics, early, now, before.len(), 1);
    }
}

/// Whether an event takes no counter up by more than one, and none down.
pub open spec fn counts_up(c: CoreModel, e: EventModel) -> bool {
    all_grown(c.metrics, step(c, e).0.metrics, 1)
}

proof fn lemma_user_message_grows(c: CoreModel, text: Seq<char>)
    ensures
        counts_up(c, EventModel::UserMessage(text)),
{
}

proof fn lemma_cancel_grows(c: CoreModel)
    ensures
        counts_up(c, EventModel::Cancel),
{
}

proof fn lemma_content_grows(c: CoreModel, request: RequestId, text: Seq<char>)
    ensures
        counts_up(c, EventModel::ContentDelta { request, text }),
{
}

proof fn lemma_reasoning_grows(c: CoreModel, request: RequestId, text: Seq<char>)
    ensures
        counts_up(c, EventModel::ReasoningDelta { request, text }),
{
}

proof fn lemma_result_grows(
    c: CoreModel,
    request: RequestId,
    call_id: Seq<char>,
    outcome: OutcomeModel,
)
    ensures
        counts_up(c, EventModel::ToolResult { request, call_id, outcome }),
{
}

proof fn lemma_approval_grows(c: CoreModel, call_id: Seq<char>)
    ensures
        counts_up(c, EventModel::ApproveToolCall { call_id }),
{
}

proof fn lemma_rejection_grows(c: CoreModel, call_id: Seq<char>)
    ensures
        counts_up(c, EventModel::RejectToolCall { call_id }),
{
}

proof fn lemma_transport_grows(c: CoreModel, request: RequestId, message: Seq<char>)
    ensures
        counts_up(c, EventModel::TransportError { request, message }),
{
}

proof fn lemma_timeout_grows(c: CoreModel, request: RequestId)
    ensures
        counts_up(c, EventModel::Timeout { request }),
{
}

proof fn lemma_other_grows(c: CoreModel, e: EventModel)
    requires
        e is ToolCallDelta || e is PatchPreviewReady || e is CommandOutputChunk,
    ensures
        counts_up(c, e),
{
}

proof fn lemma_finish_grows(c: CoreModel, request: RequestId, reason: Option<Seq<char>>)
    ensures
        all_grown(
            c.metrics,
            step(c, EventModel::Finish { request, reason }).0.metrics,
            most_counted(c),
        ),
{
    if let Some(p) = streaming(c, request) {
        let calls = p.slots.map_values(|s: SlotModel| call_of(s));
        let d = DispatchModel {
            results: Seq::empty(),
            actions: Seq::empty(),
            tool_calls_this_turn: c.tool_calls_this_turn,
            metrics: AgentMetrics {
                finishes_committed: bumped(c.metrics.finishes_committed),
                ..c.metrics
            },
        };
        lemma_dispatch_grows(d, calls, p.slots, p.id, c.workspace_display);
        lemma_grown_twice(
            c.metrics,
            d.metrics,
            dispatched(d, calls, p.slots, p.id, c.workspace_display).metrics,
            1,
            calls.len(),
        );
    }
}

/// No counter goes down at an event, unless it wraps.
pub proof fn law_counters_never_go_down(c: CoreModel, e: EventModel)
    ensures
        all_grown(c.metrics, step(c, e).0.metrics, most_counted(c)),
{
    match e {
        EventModel::UserMessage(text) => lemma_user_message_grows(c, text),
        EventModel::Cancel => lemma_cancel_grows(c),
        EventModel::ContentDelta { request, text } => lemma_content_grows(c, request, text),
        EventModel::ReasoningDelta { request, text } => lemma_reasoning_grows(c, request, text),
        EventModel::Finish { request, reason } => lemma_finish_grows(c, request, reason),
        EventModel::ToolResult { request, call_id, outcome } => lemma_result_grows(
            c,
            request,
            call_id,
            outcome,
        ),
        EventModel::ApproveToolCall { call_id } => lemma_approval_grows(c, call_id),
        EventModel::RejectToolCall { call_id } => lemma_rejection_grows(c, call_id),
        EventModel::TransportError { request, message } => lemma_transport_grows(
            c,
            request,
            message,
        ),
        EventModel::Timeout { request } => lemma_timeout_grows(c, request),
        _ => lemma_other_grows(c, e),
    }
    if !(e is Finish) {
        lemma_grown_more(c.metrics, step(c, e).0.metrics, 1, most_counted(c));
    }
}

/// No counter goes down over a run of events, unless it wraps.
pub proof fn law_counters_never_go_down_in_a_run(c: CoreModel, events: Seq<EventModel>)
    ensures
        all_grown(c.metrics, run(c, events).metrics, most_counted_in(c, events)),
    decreases events.len(),
{
    lemma_run_last(c, events);
    if events.len() > 0 {
        let before = events.drop_last();
        law_counters_never_go_down_in_a_run(c, before);
        law_counters_never_go_down(run(c, before), events.last());
        lemma_grown_twice(
            c.metrics,
            run(c, before).metrics,
            run(c, events).metrics,
            most_counted_in(c, before),
            most_counted(run(c, before)),
        );
    }
}

} // verus!
