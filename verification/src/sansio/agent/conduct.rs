//! What each event does to the agent core.
use vstd::prelude::*;
use vstd::string::*;

use super::engine::AgentCore;
use super::errors::{CommandErrorModel, OutcomeModel, PatchErrorModel, ToolErrorModel};
use super::laws::{core_wf, lemma_rank, slots_wf};
use super::metrics::AgentMetrics;
use super::runs::{
    content_in, goes_on, kind_of, law_deltas_add_up, lemma_dispatch_counts, pair_of, reasoning_in,
    run, EventKind,
};
use super::state::{
    admitted, call_of, dispatched, invocation_of, rank, result_for, step, streaming, wanted,
    CoreModel, DispatchModel, InvocationModel, PendingModel, ResultModel, SlotModel, Want,
};
use super::tools::{command_call, patch_call, read_only_call};
use super::types::{
    Action, ActionModel, ActiveToolCall, ApprovalState, CommandOutputStream, Event, EventModel,
    PatchPreviewModel, PendingResponse, PreviewHashModel, RequestId, Status,
};
use crate::metrics::bumped;
use crate::model::{deep, lemma_first_at, maybe};
use crate::sansio::deepseek::{CallModel, ChatMessage, MessageModel};
use crate::text::{byte_len, lossy_text};

verus! {

/// A prompt to an idle core is added to the conversation, and all of it goes to
/// the model under a new id; the response starts out empty.
pub proof fn law_prompts_start_requests(c: CoreModel, text: Seq<char>)
    requires
        c.pending is None,
    ensures
        ({
            let (d, actions) = step(c, EventModel::UserMessage(text));
            let id = RequestId(c.next_id);
            &&& d.conversation.len() == c.conversation.len() + 1
            &&& d.conversation.take(c.conversation.len() as int) == c.conversation
            &&& d.conversation.last() == MessageModel::User(text)
            &&& actions == seq![
                ActionModel::StartRequest { id, messages: d.conversation },
                ActionModel::Redraw,
            ]
            &&& starts_empty(d, id)
            &&& d.tool_calls_this_turn == 0
        }),
{
    let d = step(c, EventModel::UserMessage(text)).0;
    assert(d.conversation.take(c.conversation.len() as int) =~= c.conversation);
}

/// Whether a request with that id is in flight of which nothing has come yet.
pub open spec fn starts_empty(d: CoreModel, id: RequestId) -> bool {
    &&& d.pending is Some
    &&& d.pending->0.id == id
    &&& d.pending->0.phase is Streaming
    &&& d.pending->0.response.content.len() == 0
    &&& d.pending->0.response.reasoning.len() == 0
    &&& d.pending->0.response.finish_reason is None
    &&& d.pending->0.slots.len() == 0
    &&& d.pending->0.results.len() == 0
    &&& d.status is AwaitingModel
}

/// A piece of content or of reasoning is put behind what has come of it so far,
/// whole; nothing else of the response changes, nor does the conversation.
pub proof fn law_pieces_are_put_behind(c: CoreModel, p: PendingModel, text: Seq<char>)
    requires
        c.pending == Some(p),
        p.phase is Streaming,
    ensures
        ({
            let (d, actions) = step(c, EventModel::ContentDelta { request: p.id, text });
            let q = d.pending->0;
            &&& d.pending is Some
            &&& q.response.content == p.response.content + text
            &&& q.response.reasoning == p.response.reasoning
            &&& q.response.finish_reason == p.response.finish_reason
            &&& q.id == p.id && q.phase == p.phase && q.slots == p.slots && q.results == p.results
            &&& d.conversation == c.conversation
            &&& d.status is Streaming
            &&& actions == seq![ActionModel::Redraw]
        }),
        ({
            let (d, actions) = step(c, EventModel::ReasoningDelta { request: p.id, text });
            let q = d.pending->0;
            &&& d.pending is Some
            &&& q.response.reasoning == p.response.reasoning + text
            &&& q.response.content == p.response.content
            &&& q.response.finish_reason == p.response.finish_reason
            &&& q.id == p.id && q.phase == p.phase && q.slots == p.slots && q.results == p.results
            &&& d.conversation == c.conversation
            &&& d.status is Streaming
            &&& actions == seq![ActionModel::Redraw]
        }),
{
}

/// Whether that message is what a response amounts to: its content, its
/// reasoning where there is any, and its calls.
pub open spec fn says(m: MessageModel, content: Seq<char>, reasoning: Seq<char>) -> bool {
    &&& m is Assistant
    &&& m->Assistant_content == content
    &&& reasoning.len() == 0 ==> m->Assistant_reasoning_content is None
    &&& reasoning.len() > 0 ==> m->Assistant_reasoning_content == Some(reasoning)
}

/// A response that is complete is added to the conversation with all its
/// content and all its reasoning, be there tool calls or not. Its calls are
/// those that its fragments made up, in the order of their indices; where it
/// stops for another reason, or none was made up, it has no calls.
pub proof fn law_complete_responses_are_kept(
    c: CoreModel,
    p: PendingModel,
    reason: Option<Seq<char>>,
)
    requires
        c.pending == Some(p),
        p.phase is Streaming,
    ensures
        ({
            let d = step(c, EventModel::Finish { request: p.id, reason }).0;
            let n = c.conversation.len() as int;
            let m = d.conversation[n];
            &&& d.conversation.len() > n
            &&& d.conversation.take(n) == c.conversation
            &&& says(m, p.response.content, p.response.reasoning)
            &&& if reason == Some("tool_calls"@) && p.slots.len() > 0 {
                &&& m->Assistant_tool_calls.len() == p.slots.len()
                &&& forall|i: int|
                    0 <= i < p.slots.len() ==> calls_up(
                        #[trigger] p.slots[i],
                        m->Assistant_tool_calls[i],
                    )
            } else {
                m->Assistant_tool_calls.len() == 0
            }
        }),
{
    let d = step(c, EventModel::Finish { request: p.id, reason }).0;
    let n = c.conversation.len() as int;
    assert(d.conversation.take(n) =~= c.conversation);
    if reason == Some("tool_calls"@) && p.slots.len() > 0 {
        let calls = p.slots.map_values(|s: SlotModel| call_of(s));
        assert(d.conversation[n]->Assistant_tool_calls == calls);
        assert forall|i: int| 0 <= i < p.slots.len() implies calls_up(
            #[trigger] p.slots[i],
            calls[i],
        ) by {}
    }
}

/// Whether a call holds what the fragments of a slot were put together to.
pub open spec fn calls_up(s: SlotModel, call: CallModel) -> bool {
    &&& call.arguments_json == s.arguments
    &&& s.id matches Some(id) ==> call.id == id
    &&& s.function_name matches Some(name) ==> call.function_name == name
    &&& s.function_name is None ==> call.function_name.len() == 0
}

/// From the start of a request to the end of its response: the message that is
/// then added to the conversation holds, one behind the other and nothing left
/// out, the pieces of content that came for it, and the pieces of reasoning.
pub proof fn law_responses_hold_what_came(
    c: CoreModel,
    p: PendingModel,
    events: Seq<EventModel>,
    reason: Option<Seq<char>>,
)
    requires
        c.pending == Some(p),
        starts_empty(c, p.id),
        forall|i: int| 0 <= i < events.len() ==> goes_on(#[trigger] events[i], p.id),
    ensures
        ({
            let b = run(c, events);
            let d = step(b, EventModel::Finish { request: p.id, reason }).0;
            let n = b.conversation.len() as int;
            &&& d.conversation.len() > n
            &&& d.conversation.take(n) == b.conversation
            &&& says(
                d.conversation[n],
                content_in(events, p.id),
                reasoning_in(events, p.id),
            )
        }),
{
    law_deltas_add_up(c, p, events);
    let b = run(c, events);
    law_complete_responses_are_kept(b, b.pending->0, reason);
    assert(p.response.content + content_in(events, p.id) =~= content_in(events, p.id));
    assert(p.response.reasoning + reasoning_in(events, p.id) =~= reasoning_in(events, p.id));
}

/// What comes of a request in one more event: the text of a piece for it, whole
/// and at the end, and nothing otherwise.
pub proof fn law_pieces_come_whole(events: Seq<EventModel>, e: EventModel, id: RequestId)
    ensures
        e matches EventModel::ContentDelta { request, text } ==> (request == id ==> content_in(
            events.push(e),
            id,
        ) == content_in(events, id) + text),
        e matches EventModel::ReasoningDelta { request, text } ==> (request == id ==> reasoning_in(
            events.push(e),
            id,
        ) == reasoning_in(events, id) + text),
        !(e is ContentDelta) ==> content_in(events.push(e), id) == content_in(events, id),
        !(e is ReasoningDelta) ==> reasoning_in(events.push(e), id) == reasoning_in(events, id),
{
    assert(events.push(e).drop_last() =~= events);
}

/// A response without calls ends the turn: the core is idle, and asks for
/// nothing but to be drawn.
pub proof fn law_plain_responses_end_the_turn(
    c: CoreModel,
    p: PendingModel,
    reason: Option<Seq<char>>,
)
    requires
        c.pending == Some(p),
        p.phase is Streaming,
        reason != Some("tool_calls"@) || p.slots.len() == 0,
    ensures
        ({
            let (d, actions) = step(c, EventModel::Finish { request: p.id, reason });
            &&& d.pending is None
            &&& d.status is Idle
            &&& d.tool_calls_this_turn == 0
            &&& d.conversation.len() == c.conversation.len() + 1
            &&& actions == seq![ActionModel::Redraw]
        }),
{
}

/// A fragment of a tool call that has begun is put behind the arguments that
/// have come for it; the id and the name that came first stay. What would make
/// the arguments too long is left out, and so is all that follows. No other
/// call changes.
pub proof fn law_fragments_are_put_behind(
    c: CoreModel,
    p: PendingModel,
    k: int,
    id: Option<Seq<char>>,
    name: Option<Seq<char>>,
    fragment: Option<Seq<char>>,
)
    requires
        c.pending == Some(p),
        p.phase is Streaming,
        slots_wf(p.slots),
        0 <= k < p.slots.len(),
    ensures
        ({
            let s = p.slots[k];
            let e = EventModel::ToolCallDelta {
                request: p.id,
                index: s.index,
                id,
                function_name: name,
                arguments_fragment: fragment,
            };
            let q = step(c, e).0.pending->0;
            let t = q.slots[k];
            &&& q.slots.len() == p.slots.len()
            &&& forall|j: int|
                0 <= j < p.slots.len() && j != k ==> #[trigger] q.slots[j] == p.slots[j]
            &&& t.index == s.index
            &&& s.id is Some ==> t.id == s.id
            &&& s.id is None ==> t.id == id
            &&& s.function_name is Some ==> t.function_name == s.function_name
            &&& s.function_name is None ==> t.function_name == name
            &&& fragment is None ==> t.arguments == s.arguments && t.over_limit == s.over_limit
            &&& fragment matches Some(f) ==> if !s.over_limit && byte_len(s.arguments) + byte_len(f)
                <= 65_536 {
                t.arguments == s.arguments + f && !t.over_limit
            } else {
                t.arguments == s.arguments && t.over_limit
            }
            &&& q.response == p.response
        }),
{
    lemma_rank(p.slots, p.slots[k].index);
    let r = rank(p.slots, p.slots[k].index);
    if r < k {
        assert(p.slots[r].index < p.slots[k].index);
    }
}

/// The first fragment of a tool call begins a call of its own, in its place
/// among the others, which stay as they are.
pub proof fn law_first_fragments_begin_a_call(
    c: CoreModel,
    p: PendingModel,
    index: u64,
    id: Option<Seq<char>>,
    name: Option<Seq<char>>,
    f: Seq<char>,
) -> (k: int)
    requires
        c.pending == Some(p),
        p.phase is Streaming,
        slots_wf(p.slots),
        forall|j: int| 0 <= j < p.slots.len() ==> (#[trigger] p.slots[j]).index != index,
        byte_len(f) <= 65_536,
    ensures
        ({
            let e = EventModel::ToolCallDelta {
                request: p.id,
                index,
                id,
                function_name: name,
                arguments_fragment: Some(f),
            };
            let q = step(c, e).0.pending->0;
            &&& 0 <= k < q.slots.len()
            &&& q.slots.len() == p.slots.len() + 1
            &&& q.slots.remove(k) == p.slots
            &&& q.slots[k].index == index
            &&& q.slots[k].id == id
            &&& q.slots[k].function_name == name
            &&& q.slots[k].arguments == f
            &&& !q.slots[k].over_limit
            &&& forall|i: int, j: int|
                0 <= i < j < q.slots.len() ==> (#[trigger] q.slots[i]).index < (
                #[trigger] q.slots[j]).index
        }),
{
    lemma_rank(p.slots, index);
    let k = rank(p.slots, index);
    let e = EventModel::ToolCallDelta {
        request: p.id,
        index,
        id,
        function_name: name,
        arguments_fragment: Some(f),
    };
    let q = step(c, e).0.pending->0;
    let none = Seq::<char>::empty();
    assert(vstd::utf8::encode_utf8(none).len() == 0);
    assert(none + f =~= f);
    assert(q.slots.remove(k) =~= p.slots);
    assert forall|i: int, j: int| 0 <= i < j < q.slots.len() implies (
    #[trigger] q.slots[i]).index < (#[trigger] q.slots[j]).index by {
        let a = if i < k {
            i
        } else {
            i - 1
        };
        let b = if j < k {
            j
        } else {
            j - 1
        };
        if i == k {
            assert(p.slots[b].index > index) by {
                if k < b {
                    assert(p.slots[k].index < p.slots[b].index);
                }
            }
        } else if j == k {
        } else {
            assert(p.slots[a].index < p.slots[b].index);
        }
    }
    k
}

/// A name leads to its own kind of invocation, with the arguments as they read.
pub proof fn law_names_choose_the_tool(name: Seq<char>, arguments: Seq<char>)
    ensures
        ({
            let r = invocation_of(name, arguments);
            &&& name == "patch"@ ==> match patch_call(arguments) {
                Ok(edits) => r == Ok::<InvocationModel, ToolErrorModel>(
                    InvocationModel::Patch(edits),
                ),
                Err(e) => r == Err::<InvocationModel, ToolErrorModel>(e),
            }
            &&& name == "command"@ ==> match command_call(arguments) {
                Ok(argv) => r == Ok::<InvocationModel, ToolErrorModel>(
                    InvocationModel::Command(argv),
                ),
                Err(e) => r == Err::<InvocationModel, ToolErrorModel>(e),
            }
            &&& name != "patch"@ && name != "command"@ ==> match read_only_call(name, arguments) {
                Ok(tool) => r == Ok::<InvocationModel, ToolErrorModel>(
                    InvocationModel::ReadOnly(tool),
                ),
                Err(e) => r == Err::<InvocationModel, ToolErrorModel>(e),
            }
        }),
{
    reveal_strlit("patch");
    reveal_strlit("command");
    assert("patch"@.len() != "command"@.len());
}

/// A call is dispatched in its turn: one that is too long is refused, then one
/// past the limit of the turn, then one that cannot be read. A patch is looked
/// at, a tool that reads is run, and a command waits for approval; only these
/// count towards the limit.
pub proof fn law_calls_are_dispatched_one_by_one(
    d: DispatchModel,
    call: CallModel,
    over: bool,
    invocation: Result<InvocationModel, ToolErrorModel>,
    request: RequestId,
    workspace: Seq<char>,
)
    requires
        d.tool_calls_this_turn <= 20,
    ensures
        ({
            let e = admitted(d, call, over, invocation, request, workspace);
            let r = e.results.last();
            let refused = |why: ToolErrorModel|
                r.outcome == Some(OutcomeModel::Failure(why)) && e.actions == d.actions
                    && e.tool_calls_this_turn == d.tool_calls_this_turn && r.approval is NotRequired;
            let counts = r.outcome is None && e.tool_calls_this_turn == d.tool_calls_this_turn + 1;
            &&& e.results.len() == d.results.len() + 1
            &&& e.results.take(d.results.len() as int) == d.results
            &&& r.call_id == call.id
            &&& r.function_name == call.function_name
            &&& r.arguments_json == call.arguments_json
            &&& r.patch_preview is None && r.preview_hashes.len() == 0
                && r.command_output_tail is None
            &&& if over {
                refused(ToolErrorModel::ArgumentsTooLarge)
            } else if d.tool_calls_this_turn == 20 {
                refused(ToolErrorModel::TurnToolCallLimitExceeded)
            } else {
                match invocation {
                    Err(why) => refused(why),
                    Ok(InvocationModel::Patch(edits)) => counts && r.approval is NotRequired
                        && r.command_preview is None && e.actions == d.actions.push(
                        ActionModel::PreviewPatch { request, call_id: call.id, invocation: edits },
                    ),
                    Ok(InvocationModel::Command(argv)) => counts && r.approval is Pending
                        && e.actions == d.actions && r.command_preview is Some
                        && r.command_preview->0.argv == argv
                        && r.command_preview->0.working_directory == workspace,
                    Ok(InvocationModel::ReadOnly(tool)) => counts && r.approval is NotRequired
                        && r.command_preview is None && e.actions == d.actions.push(
                        ActionModel::ExecuteTool { request, call_id: call.id, invocation: tool },
                    ),
                }
            }
        }),
{
    let e = admitted(d, call, over, invocation, request, workspace);
    assert(e.results.take(d.results.len() as int) =~= d.results);
}

/// What the dispatch of a call counts: the calls that are refused for their
/// length or for the limit, those that are looked at, that are run and that
/// wait, each under its own name and no other.
pub proof fn law_dispatches_are_counted(
    d: DispatchModel,
    call: CallModel,
    over: bool,
    invocation: Result<InvocationModel, ToolErrorModel>,
    request: RequestId,
    workspace: Seq<char>,
)
    ensures
        ({
            let a = d.metrics;
            let b = admitted(d, call, over, invocation, request, workspace).metrics;
            let full = d.tool_calls_this_turn >= 20;
            let open = !over && !full;
            let up = |x: crate::metrics::Counter, y: crate::metrics::Counter, yes: bool|
                y == (if yes {
                    bumped(x)
                } else {
                    x
                });
            &&& up(
                a.tool_calls_rejected_by_arguments_limit,
                b.tool_calls_rejected_by_arguments_limit,
                over,
            )
            &&& up(
                a.tool_calls_rejected_by_turn_limit,
                b.tool_calls_rejected_by_turn_limit,
                !over && full,
            )
            &&& up(
                a.patch_calls_previewed,
                b.patch_calls_previewed,
                open && invocation is Ok && invocation->Ok_0 is Patch,
            )
            &&& up(
                a.command_calls_dispatched,
                b.command_calls_dispatched,
                open && invocation is Ok && invocation->Ok_0 is Command,
            )
            &&& up(
                a.tool_calls_executed,
                b.tool_calls_executed,
                open && invocation is Ok && invocation->Ok_0 is ReadOnly,
            )
        }),
{
}

/// Whether the arguments of a call with that id grew too long.
pub open spec fn grew_too_long(slots: Seq<SlotModel>, id: Seq<char>) -> bool {
    exists|j: int|
        0 <= j < slots.len() && (#[trigger] slots[j]).over_limit && call_of(slots[j]).id == id
}

/// Calls are dispatched one for one and in order. Those that grew too long are
/// refused for it; of the others, those that cannot be read are refused as well,
/// and as long as the turn has room for all of them no other is.
pub proof fn law_every_call_is_dispatched(
    d: DispatchModel,
    calls: Seq<CallModel>,
    slots: Seq<SlotModel>,
    request: RequestId,
    workspace: Seq<char>,
)
    requires
        d.tool_calls_this_turn <= 20,
    ensures
        ({
            let e = dispatched(d, calls, slots, request, workspace);
            let n = d.results.len() as int;
            &&& d.tool_calls_this_turn <= e.tool_calls_this_turn <= 20
            &&& e.tool_calls_this_turn <= d.tool_calls_this_turn + calls.len()
            &&& e.results.len() == n + calls.len()
            &&& e.results.take(n) == d.results
            &&& forall|i: int|
                0 <= i < calls.len() ==> ({
                    let r = e.results[n + i];
                    let c = #[trigger] calls[i];
                    let asked = invocation_of(c.function_name, c.arguments_json);
                    &&& r.call_id == c.id
                    &&& r.function_name == c.function_name
                    &&& r.arguments_json == c.arguments_json
                    &&& if grew_too_long(slots, c.id) {
                        r.outcome == Some(OutcomeModel::Failure(ToolErrorModel::ArgumentsTooLarge))
                    } else if d.tool_calls_this_turn + calls.len() <= 20 {
                        match asked {
                            Ok(_) => r.outcome is None,
                            Err(why) => r.outcome == Some(OutcomeModel::Failure(why)),
                        }
                    } else {
                        asked is Err ==> r.outcome is Some
                    }
                })
        }),
    decreases calls.len(),
{
    let e = dispatched(d, calls, slots, request, workspace);
    let n = d.results.len() as int;
    if calls.len() == 0 {
        assert(e.results.take(n) =~= d.results);
    } else {
        let before = calls.drop_last();
        let m = dispatched(d, before, slots, request, workspace);
        law_every_call_is_dispatched(d, before, slots, request, workspace);
        let last = calls.last();
        law_calls_are_dispatched_one_by_one(
            m,
            last,
            grew_too_long(slots, last.id),
            invocation_of(last.function_name, last.arguments_json),
            request,
            workspace,
        );
        assert(e.results.take(n) =~= m.results.take(n));
        assert forall|i: int| 0 <= i < calls.len() - 1 implies e.results[n + i] == m.results[n + i]
            && #[trigger] calls[i] == before[i] by {
            assert(e.results.take(m.results.len() as int)[n + i] == m.results[n + i]);
        }
    }
}

proof fn lemma_first_wanted(results: Seq<ResultModel>, call_id: Seq<char>, want: Want, k: int)
    requires
        0 <= k < results.len(),
        results[k].call_id == call_id,
        wanted(results[k], want),
        forall|j: int|
            0 <= j < k ==> !((#[trigger] results[j]).call_id == call_id && wanted(
                results[j],
                want,
            )),
    ensures
        result_for(results, call_id, want) == Some(k),
{
    let f = |i: int|
        if results[i].call_id == call_id && wanted(results[i], want) {
            Some(i)
        } else {
            None
        };
    assert forall|i: int| 0 <= i < k implies #[trigger] f(i) is None by {
        assert(!(results[i].call_id == call_id && wanted(results[i], want)));
    }
    lemma_first_at(results.len() as int, f, k);
}

/// What the model is told of a call that has an outcome: what it brought, as it
/// is, or the error.
pub open spec fn tells(m: MessageModel, r: ResultModel) -> bool {
    &&& m is Tool
    &&& m->tool_call_id == r.call_id
    &&& r.outcome matches Some(OutcomeModel::Success(s)) ==> m->Tool_content == s
    &&& r.outcome matches Some(OutcomeModel::Failure(e)) ==> m->Tool_content
        == super::errors::tool_error_json(e)
}

/// Whether the core has gone on: each call is answered, in order, by what has
/// become of it, and the whole conversation goes to the model under a new id.
pub open spec fn went_on(
    c: CoreModel,
    results: Seq<ResultModel>,
    d: CoreModel,
    actions: Seq<ActionModel>,
) -> bool {
    let n = c.conversation.len() as int;
    let id = RequestId(c.next_id);
    &&& d.conversation.len() == n + results.len()
    &&& d.conversation.take(n) == c.conversation
    &&& forall|i: int|
        0 <= i < results.len() ==> tells(d.conversation[n + i], #[trigger] results[i])
    &&& starts_empty(d, id)
    &&& actions == seq![
        ActionModel::StartRequest { id, messages: d.conversation },
        ActionModel::Redraw,
    ]
}

/// The outcome of a call is kept as it came, for the first call of that id that
/// has none. Where it was the last one missing, every call is answered and the
/// model is asked again; where others are missing, the core goes on waiting.
pub proof fn law_outcomes_are_kept(
    c: CoreModel,
    p: PendingModel,
    k: int,
    outcome: OutcomeModel,
)
    requires
        c.pending == Some(p),
        !(p.phase is Streaming),
        0 <= k < p.results.len(),
        p.results[k].outcome is None,
        forall|j: int|
            0 <= j < k ==> !((#[trigger] p.results[j]).call_id == p.results[k].call_id
                && p.results[j].outcome is None),
    ensures
        ({
            let call_id = p.results[k].call_id;
            let (d, actions) = step(c, EventModel::ToolResult { request: p.id, call_id, outcome });
            let results = p.results.update(
                k,
                ResultModel { outcome: Some(outcome), ..p.results[k] },
            );
            if forall|j: int|
                0 <= j < p.results.len() && j != k ==> (#[trigger] p.results[j]).outcome is Some {
                went_on(c, results, d, actions)
            } else {
                &&& d.conversation == c.conversation
                &&& d.pending is Some
                &&& d.pending->0.id == p.id
                &&& d.pending->0.results == results
                &&& !(d.pending->0.phase is Streaming)
                &&& actions == seq![ActionModel::Redraw]
            }
        }),
{
    let call_id = p.results[k].call_id;
    lemma_first_wanted(p.results, call_id, Want::Unresolved, k);
    let (d, actions) = step(c, EventModel::ToolResult { request: p.id, call_id, outcome });
    let r = ResultModel { outcome: Some(outcome), ..p.results[k] };
    let results = p.results.update(k, r);
    if forall|j: int|
        0 <= j < p.results.len() && j != k ==> (#[trigger] p.results[j]).outcome is Some {
        assert forall|j: int| 0 <= j < results.len() implies (
        #[trigger] results[j]).outcome is Some by {
            if j != k {
                assert(p.results[j].outcome is Some);
            }
        }
        let n = c.conversation.len() as int;
        assert(d.conversation.take(n) =~= c.conversation);
        assert forall|i: int| 0 <= i < results.len() implies tells(
            d.conversation[n + i],
            #[trigger] results[i],
        ) by {}
    } else {
        let j = choose|j: int|
            0 <= j < p.results.len() && j != k && !((#[trigger] p.results[j]).outcome is Some);
        assert(results[j].outcome is None);
    }
}

/// A preview that is ready is kept with its call, the first patch of that id
/// that waits for one, and the call then waits for approval.
pub proof fn law_previews_are_kept(
    c: CoreModel,
    p: PendingModel,
    k: int,
    preview_hashes: Seq<PreviewHashModel>,
    preview: PatchPreviewModel,
)
    requires
        c.pending == Some(p),
        !(p.phase is Streaming),
        0 <= k < p.results.len(),
        awaits_preview(p.results[k]),
        forall|j: int|
            0 <= j < k ==> !((#[trigger] p.results[j]).call_id == p.results[k].call_id
                && awaits_preview(p.results[j])),
    ensures
        ({
            let call_id = p.results[k].call_id;
            let (d, actions) = step(
                c,
                EventModel::PatchPreviewReady { request: p.id, call_id, preview_hashes, preview },
            );
            &&& d.pending is Some
            &&& d.pending->0.results == p.results.update(
                k,
                ResultModel {
                    patch_preview: Some(preview),
                    preview_hashes,
                    approval: ApprovalState::Pending,
                    ..p.results[k]
                },
            )
            &&& d.status is AwaitingApproval
            &&& d.conversation == c.conversation
            &&& actions == seq![ActionModel::Redraw]
        }),
{
    let call_id = p.results[k].call_id;
    assert forall|j: int| 0 <= j < k implies !((#[trigger] p.results[j]).call_id == call_id
        && wanted(p.results[j], Want::Preview)) by {
        assert(!(p.results[j].call_id == call_id && awaits_preview(p.results[j])));
    }
    lemma_first_wanted(p.results, call_id, Want::Preview, k);
    let d = step(
        c,
        EventModel::PatchPreviewReady { request: p.id, call_id, preview_hashes, preview },
    ).0;
    assert(d.pending->0.results[k].approval is Pending);
    assert(d.pending->0.results[k].outcome is None);
}

/// Whether a call is a patch that nobody has looked at.
pub open spec fn awaits_preview(r: ResultModel) -> bool {
    &&& r.function_name == "patch"@
    &&& r.approval is NotRequired
    &&& r.patch_preview is None
    &&& r.outcome is None
}

/// A call that the user approves is let go as it was asked for: a patch with
/// the hashes that its preview brought, a command as it reads. No other call
/// changes, and the call is approved from then on.
pub proof fn law_approvals_let_go(c: CoreModel, p: PendingModel, k: int)
    requires
        c.pending == Some(p),
        0 <= k < p.results.len(),
        p.results[k].approval is Pending,
        forall|j: int|
            0 <= j < k ==> !((#[trigger] p.results[j]).call_id == p.results[k].call_id
                && p.results[j].approval is Pending),
    ensures
        ({
            let r = p.results[k];
            let call_id = r.call_id;
            let (d, actions) = step(c, EventModel::ApproveToolCall { call_id });
            let approved = d.pending is Some && d.pending->0.id == p.id && d.pending->0.results
                == p.results.update(
                k,
                ResultModel { approval: ApprovalState::Approved, ..r },
            );
            &&& r.function_name == "patch"@ && patch_call(r.arguments_json) is Ok ==> approved
                && actions == seq![
                ActionModel::ApplyPatch {
                    request: p.id,
                    call_id,
                    invocation: patch_call(r.arguments_json)->Ok_0,
                    preview_hashes: r.preview_hashes,
                },
                ActionModel::Redraw,
            ]
            &&& r.function_name == "command"@ && command_call(r.arguments_json) is Ok ==> approved
                && actions == seq![
                ActionModel::ExecuteCommand {
                    request: p.id,
                    call_id,
                    invocation: command_call(r.arguments_json)->Ok_0,
                },
                ActionModel::Redraw,
            ] && d.metrics.command_executions_started == bumped(
                c.metrics.command_executions_started,
            )
        }),
{
    reveal_strlit("patch");
    reveal_strlit("command");
    assert("patch"@.len() != "command"@.len());
    lemma_first_wanted(p.results, p.results[k].call_id, Want::Approval, k);
}

/// A call that the user rejects has that as its outcome: where it was the last
/// one missing, every call is answered and the model is asked again. Nothing is
/// run.
pub proof fn law_rejections_are_outcomes(c: CoreModel, p: PendingModel, k: int)
    requires
        c.pending == Some(p),
        !(p.phase is Streaming),
        0 <= k < p.results.len(),
        p.results[k].approval is Pending,
        forall|j: int|
            0 <= j < k ==> !((#[trigger] p.results[j]).call_id == p.results[k].call_id
                && p.results[j].approval is Pending),
    ensures
        ({
            let r = p.results[k];
            let (d, actions) = step(c, EventModel::RejectToolCall { call_id: r.call_id });
            let why = if r.function_name == "command"@ {
                ToolErrorModel::Command(CommandErrorModel::Rejected)
            } else {
                ToolErrorModel::Patch(PatchErrorModel::Rejected)
            };
            let results = p.results.update(
                k,
                ResultModel {
                    approval: ApprovalState::Rejected,
                    outcome: Some(OutcomeModel::Failure(why)),
                    ..r
                },
            );
            if forall|j: int|
                0 <= j < p.results.len() && j != k ==> (#[trigger] p.results[j]).outcome is Some {
                went_on(c, results, d, actions)
            } else {
                &&& d.conversation == c.conversation
                &&& d.pending is Some
                &&& d.pending->0.results == results
                &&& actions == seq![ActionModel::Redraw]
            }
        }),
{
    let r = p.results[k];
    lemma_first_wanted(p.results, r.call_id, Want::Approval, k);
    let (d, actions) = step(c, EventModel::RejectToolCall { call_id: r.call_id });
    let why = if r.function_name == "command"@ {
        ToolErrorModel::Command(CommandErrorModel::Rejected)
    } else {
        ToolErrorModel::Patch(PatchErrorModel::Rejected)
    };
    let s = ResultModel {
        approval: ApprovalState::Rejected,
        outcome: Some(OutcomeModel::Failure(why)),
        ..r
    };
    let results = p.results.update(k, s);
    if forall|j: int|
        0 <= j < p.results.len() && j != k ==> (#[trigger] p.results[j]).outcome is Some {
        assert forall|j: int| 0 <= j < results.len() implies (
        #[trigger] results[j]).outcome is Some by {
            if j != k {
                assert(p.results[j].outcome is Some);
            }
        }
        let n = c.conversation.len() as int;
        assert(d.conversation.take(n) =~= c.conversation);
        assert forall|i: int| 0 <= i < results.len() implies tells(
            d.conversation[n + i],
            #[trigger] results[i],
        ) by {}
    } else {
        let j = choose|j: int|
            0 <= j < p.results.len() && j != k && !((#[trigger] p.results[j]).outcome is Some);
        assert(results[j].outcome is None);
    }
}

/// What a running command prints is put behind what it has printed on that
/// stream, of which the end is kept; its bytes are added up. The other stream
/// and all other calls stay.
pub proof fn law_output_is_put_behind(
    c: CoreModel,
    p: PendingModel,
    k: int,
    stream: CommandOutputStream,
    bytes: Seq<u8>,
)
    requires
        c.pending == Some(p),
        !(p.phase is Streaming),
        0 <= k < p.results.len(),
        prints(p.results[k]),
        forall|j: int|
            0 <= j < k ==> !((#[trigger] p.results[j]).call_id == p.results[k].call_id && prints(
                p.results[j],
            )),
    ensures
        ({
            let r = p.results[k];
            let (d, actions) = step(
                c,
                EventModel::CommandOutputChunk {
                    request: p.id,
                    call_id: r.call_id,
                    stream,
                    bytes,
                },
            );
            let s = d.pending->0.results[k];
            let t = s.command_output_tail->0;
            let out0 = if r.command_output_tail is Some {
                r.command_output_tail->0.stdout_tail
            } else {
                Seq::empty()
            };
            let err0 = if r.command_output_tail is Some {
                r.command_output_tail->0.stderr_tail
            } else {
                Seq::empty()
            };
            let outs = if r.command_output_tail is Some {
                r.command_output_tail->0.stdout_bytes_total
            } else {
                0
            };
            let errs = if r.command_output_tail is Some {
                r.command_output_tail->0.stderr_bytes_total
            } else {
                0
            };
            &&& d.pending is Some
            &&& d.pending->0.results.len() == p.results.len()
            &&& forall|j: int|
                0 <= j < p.results.len() && j != k ==> #[trigger] d.pending->0.results[j]
                    == p.results[j]
            &&& s.outcome is None && s.approval is Approved
            &&& s.command_output_tail is Some
            &&& stream is Stdout ==> {
                &&& is_end(t.stdout_tail, out0 + lossy_text(bytes))
                &&& adds_up(outs, bytes.len() as int, t.stdout_bytes_total)
                &&& t.stderr_tail == err0 && t.stderr_bytes_total == errs
            }
            &&& stream is Stderr ==> {
                &&& is_end(t.stderr_tail, err0 + lossy_text(bytes))
                &&& adds_up(errs, bytes.len() as int, t.stderr_bytes_total)
                &&& t.stdout_tail == out0 && t.stdout_bytes_total == outs
            }
            &&& actions == seq![ActionModel::Redraw]
        }),
{
    let call_id = p.results[k].call_id;
    assert forall|j: int| 0 <= j < k implies !((#[trigger] p.results[j]).call_id == call_id
        && wanted(p.results[j], Want::Output)) by {
        assert(!(p.results[j].call_id == call_id && prints(p.results[j])));
    }
    lemma_first_wanted(p.results, call_id, Want::Output, k);
}

/// Whether a call is a command that is running.
pub open spec fn prints(r: ResultModel) -> bool {
    &&& r.function_name == "command"@
    &&& r.approval is Approved
    &&& r.outcome is None
}

/// Whether that is all of a text, or as much of its end as is kept.
pub open spec fn is_end(tail: Seq<char>, all: Seq<char>) -> bool {
    if all.len() <= 4096 {
        tail == all
    } else {
        tail.len() == 4096 && tail == all.subrange(
            all.len() - 4096,
            all.len() as int,
        )
    }
}

/// Whether a count has been added to, or has stopped at its end.
pub open spec fn adds_up(a: u64, n: int, b: u64) -> bool {
    b == a + n || (a + n > u64::MAX && b == u64::MAX)
}

/// A cancellation ends the turn, whatever is under way: the conversation stays
/// as it is, and the response or the tools are called off.
pub proof fn law_cancellations_end_the_turn(c: CoreModel, p: PendingModel)
    requires
        c.pending == Some(p),
    ensures
        ({
            let (d, actions) = step(c, EventModel::Cancel);
            &&& d.pending is None
            &&& d.status is Idle
            &&& d.tool_calls_this_turn == 0
            &&& d.conversation == c.conversation
            &&& p.phase is Streaming ==> actions == seq![
                ActionModel::CancelRequest { id: p.id },
                ActionModel::Redraw,
            ]
            &&& !(p.phase is Streaming) ==> actions == seq![
                ActionModel::CancelToolExecution { request: p.id },
                ActionModel::Redraw,
            ]
        }),
{
}

/// An error of the transport ends the turn, and the user is told what it says.
pub proof fn law_transport_errors_end_the_turn(c: CoreModel, p: PendingModel, message: Seq<char>)
    requires
        c.pending == Some(p),
        p.phase is Streaming,
    ensures
        ({
            let (d, actions) = step(c, EventModel::TransportError { request: p.id, message });
            &&& d.pending is None
            &&& d.status is Idle
            &&& d.tool_calls_this_turn == 0
            &&& d.conversation == c.conversation
            &&& actions == seq![ActionModel::ReportError { message }, ActionModel::Redraw]
        }),
{
}

/// Whether an event counts as one that took effect where something is asked
/// for, and as dropped where nothing is.
pub open spec fn shows(c: CoreModel, e: EventModel) -> bool {
    let (d, actions) = step(c, e);
    let before = pair_of(c.metrics, kind_of(e));
    let after = pair_of(d.metrics, kind_of(e));
    if actions.len() > 0 {
        after == (bumped(before.0), before.1)
    } else {
        after == (before.0, bumped(before.1))
    }
}

proof fn lemma_user_message_shows(c: CoreModel, text: Seq<char>)
    ensures
        shows(c, EventModel::UserMessage(text)),
{
}

proof fn lemma_cancel_shows(c: CoreModel)
    ensures
        shows(c, EventModel::Cancel),
{
}

proof fn lemma_content_shows(c: CoreModel, request: RequestId, text: Seq<char>)
    ensures
        shows(c, EventModel::ContentDelta { request, text }),
{
}

proof fn lemma_reasoning_shows(c: CoreModel, request: RequestId, text: Seq<char>)
    ensures
        shows(c, EventModel::ReasoningDelta { request, text }),
{
}

proof fn lemma_result_shows(
    c: CoreModel,
    request: RequestId,
    call_id: Seq<char>,
    outcome: OutcomeModel,
)
    ensures
        shows(c, EventModel::ToolResult { request, call_id, outcome }),
{
}

proof fn lemma_approval_shows(c: CoreModel, call_id: Seq<char>)
    ensures
        shows(c, EventModel::ApproveToolCall { call_id }),
{
}

proof fn lemma_rejection_shows(c: CoreModel, call_id: Seq<char>)
    ensures
        shows(c, EventModel::RejectToolCall { call_id }),
{
}

proof fn lemma_transport_shows(c: CoreModel, request: RequestId, message: Seq<char>)
    ensures
        shows(c, EventModel::TransportError { request, message }),
{
}

proof fn lemma_timeout_shows(c: CoreModel, request: RequestId)
    ensures
        shows(c, EventModel::Timeout { request }),
{
}

proof fn lemma_other_shows(c: CoreModel, e: EventModel)
    requires
        e is ToolCallDelta || e is PatchPreviewReady || e is CommandOutputChunk,
    ensures
        shows(c, e),
{
}

proof fn lemma_finish_shows(c: CoreModel, request: RequestId, reason: Option<Seq<char>>)
    ensures
        shows(c, EventModel::Finish { request, reason }),
{
    if let Some(p) = streaming(c, request) {
        let calls = p.slots.map_values(|s: SlotModel| call_of(s));
        let d = DispatchModel {
            results: Seq::empty(),
            actions: Seq::empty(),
            tool_calls_this_turn: c.tool_calls_this_turn,
            metrics: AgentMetrics {
                finishes_committed: bumped(c.metrics.finishes_committed),
                ..c.metrics
            },
        };
        lemma_dispatch_counts(d, calls, p.slots, p.id, c.workspace_display, EventKind::Finish);
    }
}

/// An event that takes effect asks for something, if only to be drawn, and
/// counts as one that took effect; one that is dropped asks for nothing, and
/// counts as dropped.
pub proof fn law_effects_show_in_the_counters(c: CoreModel, e: EventModel)
    ensures
        ({
            let (d, actions) = step(c, e);
            let before = pair_of(c.metrics, kind_of(e));
            let after = pair_of(d.metrics, kind_of(e));
            if actions.len() > 0 {
                after == (bumped(before.0), before.1)
            } else {
                after == (before.0, bumped(before.1))
            }
        }),
{
    match e {
        EventModel::UserMessage(text) => lemma_user_message_shows(c, text),
        EventModel::Cancel => lemma_cancel_shows(c),
        EventModel::ContentDelta { request, text } => lemma_content_shows(c, request, text),
        EventModel::ReasoningDelta { request, text } => lemma_reasoning_shows(c, request, text),
        EventModel::Finish { request, reason } => lemma_finish_shows(c, request, reason),
        EventModel::ToolResult { request, call_id, outcome } => lemma_result_shows(
            c,
            request,
            call_id,
            outcome,
        ),
        EventModel::ApproveToolCall { call_id } => lemma_approval_shows(c, call_id),
        EventModel::RejectToolCall { call_id } => lemma_rejection_shows(c, call_id),
        EventModel::TransportError { request, message } => lemma_transport_shows(
            c,
            request,
            message,
        ),
        EventModel::Timeout { request } => lemma_timeout_shows(c, request),
        _ => lemma_other_shows(c, e),
    }
}

/// To handle an event is to take one step, with the actions that it asks for.
pub proof fn law_handling_an_event(core: &mut AgentCore, event: Event, r: Vec<Action>)
    requires
        call_ensures(AgentCore::handle_event, (core, event), r),
    ensures
        final(core)@ == step(old(core)@, event@).0,
        deep(r@) == step(old(core)@, event@).1,
        old(core)@.conversation.is_prefix_of(final(core)@.conversation),
{
    super::laws::law_conversation_only_grows(old(core)@, event@);
}

/// Once the response in flight is finished, the conversation holds it behind
/// what it held before: all its content, all its reasoning, and its calls.
pub proof fn law_finishing_a_response(
    core: &mut AgentCore,
    request: RequestId,
    reason: Option<String>,
    r: Vec<Action>,
)
    requires
        call_ensures(AgentCore::handle_event, (core, Event::Finish { request, reason }), r),
        old(core)@.pending is Some,
        old(core)@.pending->0.id == request,
        old(core)@.pending->0.phase is Streaming,
    ensures
        ({
            let p = old(core)@.pending->0;
            let before = old(core)@.conversation;
            let after = final(core)@.conversation;
            &&& after.len() > before.len()
            &&& after.take(before.len() as int) == before
            &&& says(after[before.len() as int], p.response.content, p.response.reasoning)
            &&& maybe(reason) == Some("tool_calls"@) ==> after[before.len()
                as int]->Assistant_tool_calls.len() == p.slots.len()
        }),
{
    let c = old(core)@;
    law_complete_responses_are_kept(c, c.pending->0, maybe(reason));
}

/// What the core shows of itself is what it holds.
pub proof fn law_the_core_shows_what_it_holds(
    core: &AgentCore,
    conversation: &Vec<ChatMessage>,
    response: Option<&PendingResponse>,
    request: Option<RequestId>,
    status: Status,
    metrics: &AgentMetrics,
    waits: Option<String>,
)
    ensures
        call_ensures(AgentCore::conversation, (core,), conversation) ==> deep(conversation@)
            == core@.conversation,
        call_ensures(AgentCore::pending_response, (core,), response) ==> (response is Some
            <==> core@.pending is Some) && (response is Some ==> response->0@
            == core@.pending->0.response),
        call_ensures(AgentCore::active_request, (core,), request) ==> (request is Some
            <==> core@.pending is Some) && (request is Some ==> request->0 == core@.pending->0.id),
        call_ensures(AgentCore::status, (core,), status) ==> status == core@.status,
        call_ensures(AgentCore::metrics, (core,), metrics) ==> *metrics == core@.metrics,
        core_wf(core@) && call_ensures(AgentCore::pending_approval_call_id, (core,), waits) ==> (
        waits is Some <==> core@.status is AwaitingApproval),
{
    if core_wf(core@) {
        super::laws::law_named_call_awaits_approval(core@);
    }
}

/// The calls that are shown are those of the request in flight, in order: while
/// it is streamed, as far as their fragments have come; behind that, with what
/// has become of them.
pub proof fn law_active_calls_are_shown(core: &AgentCore, r: Vec<ActiveToolCall>)
    requires
        call_ensures(AgentCore::active_tool_calls, (core,), r),
    ensures
        core@.pending is None ==> r@.len() == 0,
        core@.pending matches Some(p) ==> if p.phase is Streaming {
            &&& r@.len() == p.slots.len()
            &&& forall|i: int|
                0 <= i < r@.len() ==> {
                    let a = (#[trigger] r@[i])@;
                    let s = p.slots[i];
                    &&& a.is_streaming && a.outcome is None
                    &&& a.arguments_json == s.arguments
                    &&& s.id is Some ==> a.call_id == s.id->0
                    &&& s.function_name is Some ==> a.function_name == s.function_name->0
                }
        } else {
            &&& r@.len() == p.results.len()
            &&& forall|i: int|
                0 <= i < r@.len() ==> {
                    let a = (#[trigger] r@[i])@;
                    let s = p.results[i];
                    &&& !a.is_streaming
                    &&& a.call_id == s.call_id && a.function_name == s.function_name
                    &&& a.arguments_json == s.arguments_json
                    &&& a.outcome == s.outcome && a.approval == s.approval
                    &&& a.patch_preview == s.patch_preview
                    &&& a.preview_hashes == s.preview_hashes
                    &&& a.command_preview == s.command_preview
                    &&& a.command_output_tail == s.command_output_tail
                }
        },
{
    assert(deep(r@).len() == r@.len());
    assert forall|i: int| 0 <= i < r@.len() implies (#[trigger] r@[i])@ == deep(r@)[i] by {}
}

/// A request that takes too long ends the turn: it is cancelled, the user is
/// told, and the conversation stays as it is.
pub proof fn law_timeouts_end_the_turn(c: CoreModel, p: PendingModel)
    requires
        c.pending == Some(p),
    ensures
        ({
            let (d, actions) = step(c, EventModel::Timeout { request: p.id });
            &&& d.pending is None
            &&& d.status is Idle
            &&& d.tool_calls_this_turn == 0
            &&& d.conversation == c.conversation
            &&& actions.len() == 3
            &&& p.phase is Streaming ==> actions[0] == (ActionModel::CancelRequest { id: p.id })
            &&& !(p.phase is Streaming) ==> actions[0] == (ActionModel::CancelToolExecution {
                request: p.id,
            })
            &&& actions[1] is ReportError
            &&& actions[2] is Redraw
        }),
{
}

} // verus!
