//! What holds of the agent core over a run of events.
use vstd::prelude::*;
use vstd::string::*;
use vstd::utf8::encode_utf8;

use super::laws::{core_wf, event_fits, law_core_stays_in_order, lemma_rank, one_counted, slots_wf};
use super::errors::OutcomeModel;
use super::metrics::AgentMetrics;
use super::state::{
    call_of, dispatched, empty_slot, finish_calls, merged, rank, slot_for, step, streaming,
    with_slot, CoreModel, DispatchModel, PendingModel, SlotModel,
};
use super::types::{ActionModel, EventModel, RequestId, ResponseModel};
use super::ARGUMENTS_MAX_BYTES;
use crate::metrics::{bumped, Counter};
use crate::sansio::deepseek::CallModel;
use crate::text::lemma_encode_add;

verus! {

/// The core after events, one behind the other.
#[verifier::opaque]
pub open spec fn run(c: CoreModel, events: Seq<EventModel>) -> CoreModel
    decreases events.len(),
{
    if events.len() == 0 {
        c
    } else {
        step(run(c, events.drop_last()), events.last()).0
    }
}

/// The actions that the last event of a run asks for.
#[verifier::opaque]
pub open spec fn last_actions(c: CoreModel, events: Seq<EventModel>) -> Seq<ActionModel> {
    step(run(c, events.drop_last()), events.last()).1
}

/// A run ends with its last event.
pub proof fn lemma_run_last(c: CoreModel, events: Seq<EventModel>)
    ensures
        events.len() == 0 ==> run(c, events) == c,
        events.len() > 0 ==> run(c, events) == step(
            run(c, events.drop_last()),
            events.last(),
        ).0 && last_actions(c, events) == step(run(c, events.drop_last()), events.last()).1,
{
    reveal(run);
    reveal(last_actions);
}

/// The requests that actions start, in order.
pub open spec fn started(actions: Seq<ActionModel>) -> Seq<RequestId>
    decreases actions.len(),
{
    if actions.len() == 0 {
        Seq::empty()
    } else {
        match actions.last() {
            ActionModel::StartRequest { id, .. } => started(actions.drop_last()).push(id),
            _ => started(actions.drop_last()),
        }
    }
}

/// The requests that are started in a run, in order.
pub open spec fn started_in(c: CoreModel, events: Seq<EventModel>) -> Seq<RequestId>
    decreases events.len(),
{
    if events.len() == 0 {
        Seq::empty()
    } else {
        started_in(c, events.drop_last()) + started(last_actions(c, events))
    }
}

proof fn lemma_started_push(actions: Seq<ActionModel>, a: ActionModel)
    ensures
        started(actions.push(a)) == (match a {
            ActionModel::StartRequest { id, .. } => started(actions).push(id),
            _ => started(actions),
        }),
{
    assert(actions.push(a).drop_last() =~= actions);
}

proof fn lemma_started_add(a: Seq<ActionModel>, b: Seq<ActionModel>)
    ensures
        started(a + b) == started(a) + started(b),
    decreases b.len(),
{
    if b.len() == 0 {
        assert(a + b =~= a);
        assert(started(a) + started(b) =~= started(a));
    } else {
        assert((a + b).drop_last() =~= a + b.drop_last());
        assert((a + b).last() == b.last());
        lemma_started_add(a, b.drop_last());
        assert(started(a + b) =~= started(a) + started(b));
    }
}

/// Actions of which none starts a request.
proof fn lemma_nothing_started(actions: Seq<ActionModel>)
    requires
        forall|i: int| 0 <= i < actions.len() ==> !((#[trigger] actions[i]) is StartRequest),
    ensures
        started(actions) == Seq::<RequestId>::empty(),
    decreases actions.len(),
{
    if actions.len() > 0 {
        let before = actions.drop_last();
        assert forall|i: int| 0 <= i < before.len() implies !((
        #[trigger] before[i]) is StartRequest) by {
            assert(before[i] == actions[i]);
        }
        lemma_nothing_started(before);
        assert(!(actions[actions.len() - 1] is StartRequest));
    }
}

/// Whether the core goes on with the next id exactly where it starts a
/// request under the id that was next.
spec fn mints(c: CoreModel, next: CoreModel, actions: Seq<ActionModel>) -> bool {
    ||| started(actions) == Seq::<RequestId>::empty() && next.next_id == c.next_id
    ||| started(actions) == seq![RequestId(c.next_id)] && next.next_id == c.next_id.wrapping_add(1)
}

proof fn lemma_request_mints(c: CoreModel, id: RequestId, a: ActionModel, b: ActionModel)
    requires
        a is StartRequest,
        a->StartRequest_id == id,
        !(b is StartRequest),
    ensures
        started(seq![a, b]) == seq![id],
{
    let none = Seq::<ActionModel>::empty();
    assert(seq![a, b] =~= none.push(a).push(b));
    lemma_started_push(none, a);
    lemma_started_push(none.push(a), b);
    assert(started(none) =~= Seq::empty());
    assert(started(seq![a, b]) =~= seq![id]);
}

proof fn lemma_dispatch_starts_nothing(
    d: DispatchModel,
    calls: Seq<CallModel>,
    slots: Seq<SlotModel>,
    request: RequestId,
    workspace: Seq<char>,
)
    requires
        started(d.actions) == Seq::<RequestId>::empty(),
    ensures
        started(dispatched(d, calls, slots, request, workspace).actions) == Seq::<
            RequestId,
        >::empty(),
    decreases calls.len(),
{
    if calls.len() > 0 {
        lemma_dispatch_starts_nothing(d, calls.drop_last(), slots, request, workspace);
        let before = dispatched(d, calls.drop_last(), slots, request, workspace);
        let after = dispatched(d, calls, slots, request, workspace);
        if after.actions.len() > before.actions.len() {
            lemma_started_push(before.actions, after.actions.last());
            assert(after.actions =~= before.actions.push(after.actions.last()));
        }
    }
}

proof fn lemma_finish_mints(c: CoreModel, p: PendingModel, reason: Option<Seq<char>>)
    ensures
        mints(c, finish_calls(c, p, reason).0, finish_calls(c, p, reason).1),
{
    let calls = p.slots.map_values(|s: SlotModel| call_of(s));
    let first = DispatchModel {
        results: Seq::empty(),
        actions: Seq::empty(),
        tool_calls_this_turn: c.tool_calls_this_turn,
        metrics: AgentMetrics {
            finishes_committed: bumped(c.metrics.finishes_committed),
            ..c.metrics
        },
    };
    assert(started(first.actions) =~= Seq::empty());
    lemma_dispatch_starts_nothing(first, calls, p.slots, p.id, c.workspace_display);
    let d = dispatched(first, calls, p.slots, p.id, c.workspace_display);
    let (next, actions) = finish_calls(c, p, reason);
    if super::state::all_resolved(d.results) {
        let more = actions.skip(d.actions.len() as int);
        assert(actions =~= d.actions + more);
        assert(more.len() == 2);
        lemma_request_mints(c, RequestId(c.next_id), more[0], more[1]);
        assert(more =~= seq![more[0], more[1]]);
        lemma_started_add(d.actions, more);
        assert(started(actions) =~= seq![RequestId(c.next_id)]);
    } else {
        lemma_started_push(d.actions, ActionModel::Redraw);
    }
}

/// A request is started under the next id, and under no other.
proof fn lemma_step_mints(c: CoreModel, e: EventModel)
    ensures
        mints(c, step(c, e).0, step(c, e).1),
{
    let (next, actions) = step(c, e);
    match e {
        EventModel::UserMessage(_) => {
            if c.pending is None {
                lemma_request_mints(c, RequestId(c.next_id), actions[0], actions[1]);
                assert(actions =~= seq![actions[0], actions[1]]);
            } else {
                lemma_nothing_started(actions);
            }
        },
        EventModel::Finish { request, reason } => {
            if let Some(p) = streaming(c, request) {
                if reason == Some("tool_calls"@) && p.slots.len() > 0 {
                    lemma_finish_mints(c, p, reason);
                } else {
                    lemma_nothing_started(actions);
                }
            } else {
                lemma_nothing_started(actions);
            }
        },
        EventModel::ToolResult { request, call_id, outcome } => {
            if next.next_id == c.next_id && actions.len() <= 1 {
                lemma_nothing_started(actions);
            } else {
                lemma_request_mints(c, RequestId(c.next_id), actions[0], actions[1]);
                assert(actions =~= seq![actions[0], actions[1]]);
            }
        },
        EventModel::ApproveToolCall { .. } | EventModel::RejectToolCall { .. } => {
            if actions.len() == 2 && actions[0] is StartRequest {
                lemma_request_mints(c, RequestId(c.next_id), actions[0], actions[1]);
                assert(actions =~= seq![actions[0], actions[1]]);
            } else {
                lemma_nothing_started(actions);
            }
        },
        _ => {
            lemma_nothing_started(actions);
        },
    }
}

proof fn lemma_run_mints(c: CoreModel, events: Seq<EventModel>)
    requires
        events.len() > 0,
    ensures
        mints(run(c, events.drop_last()), run(c, events), last_actions(c, events)),
{
    lemma_run_last(c, events);
    lemma_step_mints(run(c, events.drop_last()), events.last());
}

proof fn lemma_empty_run(c: CoreModel)
    ensures
        run(c, Seq::empty()) == c,
{
    reveal(run);
}

proof fn lemma_ids_count_up(c: CoreModel, events: Seq<EventModel>)
    requires
        c.next_id == 0,
        events.len() <= u64::MAX,
    ensures
        ({
            let ids = started_in(c, events);
            &&& ids.len() <= events.len()
            &&& run(c, events).next_id == ids.len()
            &&& forall|i: int| 0 <= i < ids.len() ==> #[trigger] ids[i] == RequestId(i as u64)
        }),
    decreases events.len(),
{
    if events.len() > 0 {
        lemma_ids_count_up(c, events.drop_last());
        lemma_run_mints(c, events);
    } else {
        lemma_empty_run(c);
        assert(events =~= Seq::empty());
    }
}

/// No two requests of a run carry the same id: they are numbered in the order
/// in which they are started. (A run of as many events as there are ids.)
pub proof fn law_request_ids_are_unique(c: CoreModel, events: Seq<EventModel>, i: int, j: int)
    requires
        c.next_id == 0,
        events.len() <= u64::MAX,
        0 <= i < j < started_in(c, events).len(),
    ensures
        started_in(c, events)[i] == RequestId(i as u64),
        started_in(c, events)[i] != started_in(c, events)[j],
{
    lemma_ids_count_up(c, events);
    assert(started_in(c, events)[j] == RequestId(j as u64));
}

/// Whether an event leaves the response to a request under way: it is neither
/// a cancellation nor the end of that response.
pub open spec fn goes_on(e: EventModel, id: RequestId) -> bool {
    match e {
        EventModel::Cancel => false,
        EventModel::Finish { request, .. } => request != id,
        EventModel::TransportError { request, .. } => request != id,
        EventModel::Timeout { request } => request != id,
        _ => true,
    }
}

/// The pieces of content for a request, one behind the other.
pub open spec fn content_in(events: Seq<EventModel>, id: RequestId) -> Seq<char>
    decreases events.len(),
{
    if events.len() == 0 {
        Seq::empty()
    } else {
        let before = content_in(events.drop_last(), id);
        match events.last() {
            EventModel::ContentDelta { request, text } => if request == id {
                before + text
            } else {
                before
            },
            _ => before,
        }
    }
}

/// The pieces of reasoning for a request, one behind the other.
pub open spec fn reasoning_in(events: Seq<EventModel>, id: RequestId) -> Seq<char>
    decreases events.len(),
{
    if events.len() == 0 {
        Seq::empty()
    } else {
        let before = reasoning_in(events.drop_last(), id);
        match events.last() {
            EventModel::ReasoningDelta { request, text } => if request == id {
                before + text
            } else {
                before
            },
            _ => before,
        }
    }
}

/// The fragments of arguments for one call of a request, one behind the other.
pub open spec fn arguments_in(events: Seq<EventModel>, id: RequestId, at: u64) -> Seq<char>
    decreases events.len(),
{
    if events.len() == 0 {
        Seq::empty()
    } else {
        let before = arguments_in(events.drop_last(), id, at);
        match events.last() {
            EventModel::ToolCallDelta { request, index, arguments_fragment: Some(f), .. } =>
                if request == id && index == at {
                before + f
            } else {
                before
            },
            _ => before,
        }
    }
}

/// What an event that lets the response go on does to the response.
pub open spec fn response_after(r: ResponseModel, e: EventModel, id: RequestId) -> ResponseModel {
    match e {
        EventModel::ContentDelta { request, text } => if request == id {
            ResponseModel { content: r.content + text, ..r }
        } else {
            r
        },
        EventModel::ReasoningDelta { request, text } => if request == id {
            ResponseModel { reasoning: r.reasoning + text, ..r }
        } else {
            r
        },
        _ => r,
    }
}

proof fn lemma_response_step(d: CoreModel, e: EventModel, id: RequestId)
    requires
        streaming(d, id) is Some,
        d.pending->0.results.len() == 0,
        goes_on(e, id),
    ensures
        streaming(step(d, e).0, id) is Some,
        step(d, e).0.pending->0.results.len() == 0,
        step(d, e).0.pending->0.response == response_after(d.pending->0.response, e, id),
{
}

proof fn lemma_response_run(c: CoreModel, events: Seq<EventModel>, id: RequestId)
    requires
        events.len() > 0,
        streaming(run(c, events.drop_last()), id) is Some,
        run(c, events.drop_last()).pending->0.results.len() == 0,
        goes_on(events.last(), id),
    ensures
        streaming(run(c, events), id) is Some,
        run(c, events).pending->0.results.len() == 0,
        run(c, events).pending->0.response == response_after(
            run(c, events.drop_last()).pending->0.response,
            events.last(),
            id,
        ),
{
    lemma_run_last(c, events);
    lemma_response_step(run(c, events.drop_last()), events.last(), id);
}

/// While a response comes in, and no tool has run for it, the pieces of content
/// and of reasoning add up to what is pending, whatever else happens in between.
pub proof fn law_deltas_add_up(c: CoreModel, p: PendingModel, events: Seq<EventModel>)
    requires
        c.pending == Some(p),
        p.phase is Streaming,
        p.results.len() == 0,
        forall|i: int| 0 <= i < events.len() ==> goes_on(#[trigger] events[i], p.id),
    ensures
        streaming(run(c, events), p.id) is Some,
        run(c, events).pending->0.results.len() == 0,
        run(c, events).pending->0.response == (ResponseModel {
            content: p.response.content + content_in(events, p.id),
            reasoning: p.response.reasoning + reasoning_in(events, p.id),
            ..p.response
        }),
    decreases events.len(),
{
    if events.len() == 0 {
        lemma_empty_run(c);
        assert(events =~= Seq::empty());
        assert(p.response.content + Seq::<char>::empty() =~= p.response.content);
        assert(p.response.reasoning + Seq::<char>::empty() =~= p.response.reasoning);
    } else {
        let before = events.drop_last();
        let e = events.last();
        assert forall|i: int| 0 <= i < before.len() implies goes_on(#[trigger] before[i], p.id) by {
            assert(before[i] == events[i]);
        }
        law_deltas_add_up(c, p, before);
        assert(goes_on(events[events.len() - 1], p.id));
        lemma_response_run(c, events, p.id);
        let content = content_in(before, p.id);
        let reasoning = reasoning_in(before, p.id);
        match e {
            EventModel::ContentDelta { text, .. } => {
                assert(p.response.content + content + text =~= p.response.content + (content
                    + text));
            },
            EventModel::ReasoningDelta { text, .. } => {
                assert(p.response.reasoning + reasoning + text =~= p.response.reasoning + (reasoning
                    + text));
            },
            _ => {},
        }
    }
}

proof fn lemma_slot_at(slots: Seq<SlotModel>, k: int)
    requires
        slots_wf(slots),
        0 <= k < slots.len(),
    ensures
        slot_for(slots, slots[k].index) == slots[k],
{
    let index = slots[k].index;
    lemma_rank(slots, index);
    let r = rank(slots, index);
    if r < k {
        assert(slots[r].index < slots[k].index);
    } else if k < r {
        assert(slots[k].index < index);
    }
}

proof fn lemma_slot_absent(slots: Seq<SlotModel>, index: u64)
    requires
        forall|i: int| 0 <= i < slots.len() ==> (#[trigger] slots[i]).index != index,
    ensures
        slot_for(slots, index) == empty_slot(index),
{
    lemma_rank(slots, index);
}

/// Setting a slot leaves the others as they are.
proof fn lemma_with_slot(slots: Seq<SlotModel>, s: SlotModel, at: u64)
    requires
        slots_wf(slots),
        slots_wf(with_slot(slots, s)),
    ensures
        slot_for(with_slot(slots, s), at) == if at == s.index {
            s
        } else {
            slot_for(slots, at)
        },
{
    let k = rank(slots, s.index);
    let now = with_slot(slots, s);
    lemma_rank(slots, s.index);
    assert(now[k] == s);
    if at == s.index {
        lemma_slot_at(now, k);
    } else if exists|i: int| 0 <= i < slots.len() && (#[trigger] slots[i]).index == at {
        let i = choose|i: int| 0 <= i < slots.len() && (#[trigger] slots[i]).index == at;
        lemma_slot_at(slots, i);
        if now.len() == slots.len() || i < k {
            assert(now[i] == slots[i]);
            lemma_slot_at(now, i);
        } else {
            assert(now[i + 1] == slots[i]);
            lemma_slot_at(now, i + 1);
        }
    } else {
        lemma_slot_absent(slots, at);
        assert forall|i: int| 0 <= i < now.len() implies (#[trigger] now[i]).index != at by {
            if i < k {
                assert(now[i] == slots[i]);
            } else if i > k {
                if now.len() == slots.len() {
                    assert(now[i] == slots[i]);
                } else {
                    assert(now[i] == slots[i - 1]);
                }
            }
        }
        lemma_slot_absent(now, at);
    }
}

/// What an event that lets the response go on does to the slot of a call.
pub open spec fn slot_after(s: SlotModel, e: EventModel, request: RequestId) -> SlotModel {
    match e {
        EventModel::ToolCallDelta { request: r, index, id, function_name, arguments_fragment } =>
            if r == request && index == s.index {
            merged(s, id, function_name, arguments_fragment)
        } else {
            s
        },
        _ => s,
    }
}

proof fn lemma_fragment_step(d: CoreModel, e: EventModel, request: RequestId, at: u64)
    requires
        core_wf(d),
        event_fits(e),
        goes_on(e, request),
        streaming(d, request) is Some,
        d.pending->0.results.len() == 0,
    ensures
        core_wf(step(d, e).0),
        slot_for(step(d, e).0.pending->0.slots, at) == slot_after(
            slot_for(d.pending->0.slots, at),
            e,
            request,
        ),
        slot_for(d.pending->0.slots, at).index == at,
{
    law_core_stays_in_order(d, e);
    let q = d.pending->0;
    lemma_rank(q.slots, at);
    if let EventModel::ToolCallDelta { request: r, index, id, function_name, arguments_fragment }
        = e {
        if r == request {
            let s = merged(slot_for(q.slots, index), id, function_name, arguments_fragment);
            lemma_rank(q.slots, index);
            assert(s.index == index);
            assert(step(d, e).0.pending->0.slots == with_slot(q.slots, s));
            lemma_with_slot(q.slots, s, at);
        }
    }
}

proof fn lemma_fragment_run(c: CoreModel, events: Seq<EventModel>, request: RequestId, at: u64)
    requires
        events.len() > 0,
        core_wf(run(c, events.drop_last())),
        event_fits(events.last()),
        goes_on(events.last(), request),
        streaming(run(c, events.drop_last()), request) is Some,
        run(c, events.drop_last()).pending->0.results.len() == 0,
    ensures
        core_wf(run(c, events)),
        slot_for(run(c, events).pending->0.slots, at) == slot_after(
            slot_for(run(c, events.drop_last()).pending->0.slots, at),
            events.last(),
            request,
        ),
        slot_for(run(c, events.drop_last()).pending->0.slots, at).index == at,
{
    lemma_run_last(c, events);
    lemma_fragment_step(run(c, events.drop_last()), events.last(), request, at);
}

/// While a response comes in, the fragments of the arguments of a call add up
/// to what its slot holds, as long as they are not too much; and each call has
/// a slot of its own.
pub proof fn law_fragments_add_up(
    c: CoreModel,
    p: PendingModel,
    events: Seq<EventModel>,
    at: u64,
)
    requires
        core_wf(c),
        c.pending == Some(p),
        p.phase is Streaming,
        forall|i: int| 0 <= i < events.len() ==> goes_on(#[trigger] events[i], p.id),
        forall|i: int| 0 <= i < events.len() ==> event_fits(#[trigger] events[i]),
        !slot_for(p.slots, at).over_limit,
        encode_utf8(slot_for(p.slots, at).arguments + arguments_in(events, p.id, at)).len()
            <= ARGUMENTS_MAX_BYTES,
    ensures
        core_wf(run(c, events)),
        ({
            let s = slot_for(run(c, events).pending->0.slots, at);
            &&& s.arguments == slot_for(p.slots, at).arguments + arguments_in(events, p.id, at)
            &&& !s.over_limit
        }),
    decreases events.len(),
{
    let start = slot_for(p.slots, at).arguments;
    if events.len() == 0 {
        lemma_empty_run(c);
        assert(events =~= Seq::empty());
        assert(start + Seq::<char>::empty() =~= start);
    } else {
        let before = events.drop_last();
        let e = events.last();
        assert forall|i: int| 0 <= i < before.len() implies goes_on(#[trigger] before[i], p.id) by {
            assert(before[i] == events[i]);
        }
        assert forall|i: int| 0 <= i < before.len() implies event_fits(#[trigger] before[i]) by {
            assert(before[i] == events[i]);
        }
        assert(goes_on(events[events.len() - 1], p.id));
        assert(event_fits(events[events.len() - 1]));
        let held = start + arguments_in(before, p.id, at);
        let now = start + arguments_in(events, p.id, at);
        let f = match e {
            EventModel::ToolCallDelta { request, index, arguments_fragment: Some(f), .. } =>
                if request == p.id && index == at {
                f
            } else {
                Seq::empty()
            },
            _ => Seq::empty(),
        };
        assert(now =~= held + f);
        lemma_encode_add(held, f);
        law_fragments_add_up(c, p, before, at);
        law_deltas_add_up(c, p, before);
        lemma_fragment_run(c, events, p.id, at);
    }
}

/// A core that is in order stays in order, whatever happens.
pub proof fn law_runs_stay_in_order(c: CoreModel, events: Seq<EventModel>)
    requires
        core_wf(c),
        forall|i: int| 0 <= i < events.len() ==> event_fits(#[trigger] events[i]),
    ensures
        core_wf(run(c, events)),
    decreases events.len(),
{
    lemma_run_last(c, events);
    if events.len() > 0 {
        let before = events.drop_last();
        assert forall|i: int| 0 <= i < before.len() implies event_fits(#[trigger] before[i]) by {
            assert(before[i] == events[i]);
        }
        law_runs_stay_in_order(c, before);
        assert(event_fits(events[events.len() - 1]));
        law_core_stays_in_order(run(c, before), events.last());
    }
}

/// The kinds of events, for each of which there is a pair of counters.
pub enum EventKind {
    UserMessage,
    Cancel,
    ContentDelta,
    ReasoningDelta,
    ToolCallDelta,
    Finish,
    ToolResult,
    PatchPreviewReady,
    ApproveToolCall,
    RejectToolCall,
    CommandOutputChunk,
    TransportError,
    Timeout,
}

/// The kind of an event.
pub open spec fn kind_of(e: EventModel) -> EventKind {
    match e {
        EventModel::UserMessage(_) => EventKind::UserMessage,
        EventModel::Cancel => EventKind::Cancel,
        EventModel::ContentDelta { .. } => EventKind::ContentDelta,
        EventModel::ReasoningDelta { .. } => EventKind::ReasoningDelta,
        EventModel::ToolCallDelta { .. } => EventKind::ToolCallDelta,
        EventModel::Finish { .. } => EventKind::Finish,
        EventModel::ToolResult { .. } => EventKind::ToolResult,
        EventModel::PatchPreviewReady { .. } => EventKind::PatchPreviewReady,
        EventModel::ApproveToolCall { .. } => EventKind::ApproveToolCall,
        EventModel::RejectToolCall { .. } => EventKind::RejectToolCall,
        EventModel::CommandOutputChunk { .. } => EventKind::CommandOutputChunk,
        EventModel::TransportError { .. } => EventKind::TransportError,
        EventModel::Timeout { .. } => EventKind::Timeout,
    }
}

/// The counters of a kind: of the events that took effect, and of those that
/// were dropped.
pub open spec fn pair_of(m: AgentMetrics, k: EventKind) -> (Counter, Counter) {
    match k {
        EventKind::UserMessage => (
            m.user_messages_accepted,
            m.user_messages_rejected_while_active,
        ),
        EventKind::Cancel => (m.cancels_applied, m.cancels_ignored_when_idle),
        EventKind::ContentDelta => (m.content_deltas_appended, m.content_deltas_dropped_as_stale),
        EventKind::ReasoningDelta => (
            m.reasoning_deltas_appended,
            m.reasoning_deltas_dropped_as_stale,
        ),
        EventKind::ToolCallDelta => (
            m.tool_call_deltas_appended,
            m.tool_call_deltas_dropped_as_stale,
        ),
        EventKind::Finish => (m.finishes_committed, m.finishes_dropped_as_stale),
        EventKind::ToolResult => (m.tool_results_committed, m.tool_results_dropped_as_stale),
        EventKind::PatchPreviewReady => (
            m.patch_previews_committed,
            m.patch_previews_dropped_as_stale,
        ),
        EventKind::ApproveToolCall => (
            m.tool_call_approvals_committed,
            m.tool_call_approvals_dropped_as_stale,
        ),
        EventKind::RejectToolCall => (
            m.tool_call_rejections_committed,
            m.tool_call_rejections_dropped_as_stale,
        ),
        EventKind::CommandOutputChunk => (
            m.command_output_chunks_appended,
            m.command_output_chunks_dropped_as_stale,
        ),
        EventKind::TransportError => (
            m.transport_errors_recorded,
            m.transport_errors_dropped_as_stale,
        ),
        EventKind::Timeout => (m.timeouts_applied, m.timeouts_dropped_as_stale),
    }
}

/// How many of the events are of that kind.
pub open spec fn count_of(events: Seq<EventModel>, k: EventKind) -> nat
    decreases events.len(),
{
    if events.len() == 0 {
        0
    } else {
        count_of(events.drop_last(), k) + (if kind_of(events.last()) == k {
            1nat
        } else {
            0nat
        })
    }
}

pub proof fn lemma_dispatch_counts(
    d: DispatchModel,
    calls: Seq<CallModel>,
    slots: Seq<SlotModel>,
    request: RequestId,
    workspace: Seq<char>,
    k: EventKind,
)
    ensures
        pair_of(dispatched(d, calls, slots, request, workspace).metrics, k) == pair_of(
            d.metrics,
            k,
        ),
    decreases calls.len(),
{
    if calls.len() > 0 {
        lemma_dispatch_counts(d, calls.drop_last(), slots, request, workspace, k);
    }
}

/// Whether an event is counted once, in the pair of its kind.
pub open spec fn counts_right(c: CoreModel, e: EventModel, k: EventKind) -> bool {
    let m = pair_of(c.metrics, k);
    let n = pair_of(step(c, e).0.metrics, k);
    if k == kind_of(e) {
        one_counted(m.0, m.1, n.0, n.1)
    } else {
        n == m
    }
}

proof fn lemma_user_message_counts(c: CoreModel, text: Seq<char>, k: EventKind)
    ensures
        counts_right(c, EventModel::UserMessage(text), k),
{
}

proof fn lemma_cancel_counts(c: CoreModel, k: EventKind)
    ensures
        counts_right(c, EventModel::Cancel, k),
{
}

proof fn lemma_content_counts(c: CoreModel, request: RequestId, text: Seq<char>, k: EventKind)
    ensures
        counts_right(c, EventModel::ContentDelta { request, text }, k),
{
}

proof fn lemma_reasoning_counts(c: CoreModel, request: RequestId, text: Seq<char>, k: EventKind)
    ensures
        counts_right(c, EventModel::ReasoningDelta { request, text }, k),
{
}

proof fn lemma_result_counts(c: CoreModel, request: RequestId, call_id: Seq<char>, outcome: OutcomeModel, k: EventKind)
    ensures
        counts_right(c, EventModel::ToolResult { request, call_id, outcome }, k),
{
}

proof fn lemma_approval_counts(c: CoreModel, call_id: Seq<char>, k: EventKind)
    ensures
        counts_right(c, EventModel::ApproveToolCall { call_id }, k),
{
}

proof fn lemma_rejection_counts(c: CoreModel, call_id: Seq<char>, k: EventKind)
    ensures
        counts_right(c, EventModel::RejectToolCall { call_id }, k),
{
}

proof fn lemma_transport_counts(c: CoreModel, request: RequestId, message: Seq<char>, k: EventKind)
    ensures
        counts_right(c, EventModel::TransportError { request, message }, k),
{
}

proof fn lemma_timeout_counts(c: CoreModel, request: RequestId, k: EventKind)
    ensures
        counts_right(c, EventModel::Timeout { request }, k),
{
}

proof fn lemma_finish_counts(
    c: CoreModel,
    request: RequestId,
    reason: Option<Seq<char>>,
    k: EventKind,
)
    ensures
        counts_right(c, EventModel::Finish { request, reason }, k),
{
    if let Some(p) = streaming(c, request) {
        let calls = p.slots.map_values(|s: SlotModel| call_of(s));
        let d = DispatchModel {
            results: Seq::empty(),
            actions: Seq::empty(),
            tool_calls_this_turn: c.tool_calls_this_turn,
            metrics: AgentMetrics {
                finishes_committed: bumped(c.metrics.finishes_committed),
                ..c.metrics
            },
        };
        lemma_dispatch_counts(d, calls, p.slots, p.id, c.workspace_display, k);
    }
}

/// An event is counted once, in one counter of the pair of its kind; all other
/// pairs stay.
pub proof fn law_other_pairs_stay(c: CoreModel, e: EventModel, k: EventKind)
    ensures
        counts_right(c, e, k),
{
    match e {
        EventModel::UserMessage(text) => lemma_user_message_counts(c, text, k),
        EventModel::Cancel => lemma_cancel_counts(c, k),
        EventModel::ContentDelta { request, text } => lemma_content_counts(c, request, text, k),
        EventModel::ReasoningDelta { request, text } => lemma_reasoning_counts(
            c,
            request,
            text,
            k,
        ),
        EventModel::Finish { request, reason } => lemma_finish_counts(c, request, reason, k),
        EventModel::ToolResult { request, call_id, outcome } => lemma_result_counts(
            c,
            request,
            call_id,
            outcome,
            k,
        ),
        EventModel::ApproveToolCall { call_id } => lemma_approval_counts(c, call_id, k),
        EventModel::RejectToolCall { call_id } => lemma_rejection_counts(c, call_id, k),
        EventModel::TransportError { request, message } => lemma_transport_counts(
            c,
            request,
            message,
            k,
        ),
        EventModel::Timeout { request } => lemma_timeout_counts(c, request, k),
        _ => lemma_other_counts(c, e, k),
    }
}

proof fn lemma_other_counts(c: CoreModel, e: EventModel, k: EventKind)
    requires
        e is ToolCallDelta || e is PatchPreviewReady || e is CommandOutputChunk,
    ensures
        counts_right(c, e, k),
{
}

proof fn lemma_run_counts(c: CoreModel, events: Seq<EventModel>, k: EventKind)
    requires
        events.len() > 0,
    ensures
        ({
            let m = pair_of(run(c, events.drop_last()).metrics, k);
            let n = pair_of(run(c, events).metrics, k);
            if k == kind_of(events.last()) {
                one_counted(m.0, m.1, n.0, n.1)
            } else {
                n == m
            }
        }),
{
    lemma_run_last(c, events);
    law_other_pairs_stay(run(c, events.drop_last()), events.last(), k);
}

/// Over a run, the counters of a kind grow by the number of events of that
/// kind, and neither of them decreases. (They do not reach their end.)
pub proof fn law_counters_sum_up(c: CoreModel, events: Seq<EventModel>, k: EventKind)
    requires
        pair_of(c.metrics, k).0.0 + pair_of(c.metrics, k).1.0 + events.len() <= u64::MAX,
    ensures
        ({
            let m = pair_of(c.metrics, k);
            let n = pair_of(run(c, events).metrics, k);
            &&& n.0.0 + n.1.0 == m.0.0 + m.1.0 + count_of(events, k)
            &&& n.0.0 >= m.0.0
            &&& n.1.0 >= m.1.0
            &&& count_of(events, k) <= events.len()
        }),
    decreases events.len(),
{
    if events.len() > 0 {
        let before = events.drop_last();
        law_counters_sum_up(c, before, k);
        lemma_run_counts(c, events, k);
    } else {
        lemma_empty_run(c);
        assert(events =~= Seq::empty());
    }
}

} // verus!
