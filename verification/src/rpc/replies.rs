//! What holds of the answers to a client, and of what it is told.
use vstd::prelude::*;
use vstd::string::*;

use super::server::{
    action_step, actions_step, command_ended, dispatch_step, kind_of_call, pre_event_record,
    tell_approval, tell_messages, translate_stream_event, without_request, KindModel, Output,
    OutputModel, QueuedModel, RpcModel, RpcSession, ToolFeedback,
};
use super::transcript::TranscriptModel;
use super::wire::{ErrorResponse, Incoming, IncomingModel, LineError, SuccessResponse};
use crate::agent_cli::telling::holds_text;
use crate::deepseek::{StreamEvent, StreamEventModel};
use crate::json::{member, quoted, unsigned, JsonDoc, NodeModel};
use crate::model::{deep, maybe};
use crate::sansio::agent::arguments::has_text;
use crate::sansio::agent::engine::approval_wanted;
use crate::sansio::agent::state::step;
use crate::sansio::agent::types::{ActionModel, Event, EventModel, RequestId, Status};
use crate::sansio::deepseek::MessageModel;
use crate::session::ApprovalDecision;
use crate::text::{decimal, signed_decimal};

verus! {

proof fn lemma_core_after_telling(m: RpcModel, n: nat, ts: u64)
    ensures
        tell_messages(m, n, ts).0.core == m.core,
        tell_messages(m, n, ts).0.stream == m.stream,
        tell_messages(m, n, ts).0.model == m.model,
        tell_messages(m, n, ts).0.active == m.active,
        tell_messages(m, n, ts).0.queue == m.queue,
    decreases n,
{
    if n > m.told {
        lemma_core_after_telling(m, (n - 1) as nat, ts);
    }
}

proof fn lemma_core_after_actions(m: RpcModel, actions: Seq<ActionModel>)
    ensures
        actions_step(m, actions).0.core == m.core,
        actions_step(m, actions).0.model == m.model,
    decreases actions.len(),
{
    if actions.len() > 0 {
        lemma_core_after_actions(m, actions.drop_last());
    }
}

proof fn lemma_core_after(m: RpcModel, event: EventModel, ts: u64)
    ensures
        dispatch_step(m, event, ts).0.core == step(m.core, event).0,
        dispatch_step(m, event, ts).0.model == m.model,
{
    let (core, actions) = step(m.core, event);
    let n = RpcModel { core, ..m };
    lemma_core_after_telling(n, core.conversation.len(), ts);
    let o = tell_messages(n, core.conversation.len(), ts).0;
    lemma_core_after_actions(tell_approval(o, ts).0, actions);
}

/// An event reaches the core as it is.
pub proof fn law_events_reach_the_core(
    session: &mut RpcSession,
    event: Event,
    ts: u64,
    r: Vec<Output>,
)
    requires
        call_ensures(RpcSession::dispatch, (session, event, ts), r),
    ensures
        final(session)@.core == step(old(session)@.core, event@).0,
        final(session)@.model == old(session)@.model,
{
    lemma_core_after(old(session)@, event@, ts);
}

/// What the client is told of a message, but for one of the system.
pub open spec fn notice_of(m: MessageModel, ts: u64) -> OutputModel {
    match m {
        MessageModel::User(text) => OutputModel::Notice {
            method: "event/user_message"@,
            record: TranscriptModel::UserMessage { ts, text },
        },
        MessageModel::Assistant { content, reasoning_content, tool_calls } => OutputModel::Notice {
            method: "event/assistant_message"@,
            record: TranscriptModel::AssistantMessage {
                ts,
                content,
                reasoning: reasoning_content,
                tool_calls,
            },
        },
        MessageModel::Tool { tool_call_id, content } => OutputModel::Notice {
            method: "event/tool_result"@,
            record: TranscriptModel::ToolResult { ts, call_id: tool_call_id, content },
        },
        MessageModel::System(_) => OutputModel::DropStream,
    }
}

proof fn lemma_told(m: RpcModel, n: nat, ts: u64, k: int)
    requires
        m.told <= k < n,
        !(m.core.conversation[k] is System),
    ensures
        tell_messages(m, n, ts).1.contains(notice_of(m.core.conversation[k], ts)),
    decreases n,
{
    let (before, outputs) = tell_messages(m, (n - 1) as nat, ts);
    let all = tell_messages(m, n, ts).1;
    let want = notice_of(m.core.conversation[k], ts);
    if k < n - 1 {
        lemma_told(m, (n - 1) as nat, ts, k);
        let i = choose|i: int| 0 <= i < outputs.len() && outputs[i] == want;
        assert(all[i] == want);
    } else {
        assert(all.last() == want);
        assert(all[all.len() - 1] == want);
    }
}

/// The client is told of each message that an event brings, as it is.
pub proof fn law_messages_are_told_as_they_are(
    session: &mut RpcSession,
    event: Event,
    ts: u64,
    r: Vec<Output>,
    k: int,
)
    requires
        call_ensures(RpcSession::dispatch, (session, event, ts), r),
        old(session)@.told <= k < step(old(session)@.core, event@).0.conversation.len(),
        !(step(old(session)@.core, event@).0.conversation[k] is System),
    ensures
        deep(r@).contains(
            notice_of(step(old(session)@.core, event@).0.conversation[k], ts),
        ),
{
    let m = old(session)@;
    let (core, actions) = step(m.core, event@);
    let n = RpcModel { core, ..m };
    lemma_told(n, core.conversation.len(), ts, k);
    let first = super::server::event_notice(event@, ts);
    let (o, messages) = tell_messages(n, core.conversation.len(), ts);
    let (p, approval) = tell_approval(o, ts);
    let (q, outputs) = actions_step(p, actions);
    let want = notice_of(core.conversation[k], ts);
    let i = choose|i: int| 0 <= i < messages.len() && messages[i] == want;
    assert(deep(r@) == first + messages + approval + outputs);
    assert((first + messages + approval + outputs)[first.len() + i] == want);
}

/// A prompt whose text could be read goes to the core, and the answer says
/// whether the core took it up. Otherwise nothing changes, and the answer says
/// that the parameters do not fit.
pub proof fn law_submitting_a_prompt(
    session: &mut RpcSession,
    id: u64,
    text: Result<String, String>,
    ts: u64,
    r: Vec<Output>,
)
    requires
        call_ensures(RpcSession::submit_prompt, (session, id, text, ts), r),
    ensures
        text matches Ok(s) ==> {
            &&& final(session)@.core == step(old(session)@.core, EventModel::UserMessage(s@)).0
            &&& r@.len() > 0
            &&& answers_with(
                r@[r@.len() - 1]@,
                id,
                if old(session)@.core.status is Idle && !(final(session)@.core.status is Idle) {
                    "{\"accepted\":true}"@
                } else {
                    "{\"accepted\":false}"@
                },
            )
        },
        text matches Err(e) ==> final(session)@ == old(session)@ && r@.len() == 1 && answers_error(
            r@[0]@,
            Some(id),
            -32602,
            e@,
        ),
{
    assert(deep(r@).len() == r@.len());
    lemma_flags();
    match text {
        Ok(s) => {
            lemma_core_after(old(session)@, EventModel::UserMessage(s@), ts);
            assert(deep(r@)[r@.len() - 1] == r@[r@.len() - 1]@);
        },
        Err(e) => {
            assert(deep(r@)[0] == r@[0]@);
        },
    }
}

proof fn lemma_flags()
    ensures
        super::server::flag_text("accepted"@, true) == "{\"accepted\":true}"@,
        super::server::flag_text("accepted"@, false) == "{\"accepted\":false}"@,
        super::server::flag_text("applied"@, true) == "{\"applied\":true}"@,
        super::server::flag_text("applied"@, false) == "{\"applied\":false}"@,
{
    reveal_strlit("{\"");
    reveal_strlit("\":");
    reveal_strlit("}");
    reveal_strlit("true");
    reveal_strlit("false");
    reveal_strlit("accepted");
    reveal_strlit("applied");
    reveal_strlit("{\"accepted\":true}");
    reveal_strlit("{\"accepted\":false}");
    reveal_strlit("{\"applied\":true}");
    reveal_strlit("{\"applied\":false}");
    assert(super::server::flag_text("accepted"@, true) =~= "{\"accepted\":true}"@);
    assert(super::server::flag_text("accepted"@, false) =~= "{\"accepted\":false}"@);
    assert(super::server::flag_text("applied"@, true) =~= "{\"applied\":true}"@);
    assert(super::server::flag_text("applied"@, false) =~= "{\"applied\":false}"@);
}

/// Whether an output is the answer to that request, with that result.
pub open spec fn answers_with(o: OutputModel, id: u64, result: Seq<char>) -> bool {
    &&& o matches OutputModel::Reply { id: i, line } && i == Some(id) && line
        == ("{\"jsonrpc\":\"2.0\",\"id\":"@ + decimal(id as nat) + ",\"result\":"@ + result + "}"@).push(
        '\n',
    )
}

/// Whether an output is an answer with that error.
pub open spec fn answers_error(o: OutputModel, id: Option<u64>, code: int, message: Seq<char>) -> bool {
    &&& o matches OutputModel::Reply { id: i, line } && i == id && line
        == ("{\"jsonrpc\":\"2.0\",\"id\":"@ + (match id {
        Some(i) => decimal(i as nat),
        None => "null"@,
    }) + ",\"error\":{\"code\":"@ + signed_decimal(code) + ",\"message\":"@ + quoted(message)
        + "}}"@).push('\n')
}

/// A call is approved or rejected exactly if it is the one that waits, and
/// the answer says whether it was. Otherwise nothing changes.
pub proof fn law_deciding_about_a_call(
    session: &mut RpcSession,
    id: u64,
    call_id: Result<String, String>,
    approve: bool,
    ts: u64,
    r: Vec<Output>,
)
    requires
        call_ensures(RpcSession::decide, (session, id, call_id, approve, ts), r),
    ensures
        call_id matches Ok(c) ==> {
            &&& r@.len() > 0
            &&& if approval_wanted(old(session)@.core) == Some(c@) {
                &&& final(session)@.core == step(
                    old(session)@.core,
                    if approve {
                        EventModel::ApproveToolCall { call_id: c@ }
                    } else {
                        EventModel::RejectToolCall { call_id: c@ }
                    },
                ).0
                &&& answers_with(r@[r@.len() - 1]@, id, "{\"applied\":true}"@)
            } else {
                &&& final(session)@ == old(session)@
                &&& r@.len() == 1
                &&& answers_with(r@[0]@, id, "{\"applied\":false}"@)
            }
        },
        call_id matches Err(e) ==> final(session)@ == old(session)@ && r@.len() == 1
            && answers_error(r@[0]@, Some(id), -32602, e@),
{
    assert(deep(r@).len() == r@.len());
    lemma_flags();
    match call_id {
        Ok(c) => {
            lemma_core_after(
                old(session)@,
                if approve {
                    EventModel::ApproveToolCall { call_id: c@ }
                } else {
                    EventModel::RejectToolCall { call_id: c@ }
                },
                ts,
            );
            assert(deep(r@)[r@.len() - 1] == r@[r@.len() - 1]@);
        },
        Err(e) => {
            assert(deep(r@)[0] == r@[0]@);
        },
    }
}

proof fn lemma_methods()
    ensures
        "cancel"@.len() == 6,
        "quit"@.len() == 4,
        "approve"@.len() == 7,
        "reject"@.len() == 6,
        "reject"@[0] == 'r',
        "cancel"@[0] == 'c',
        "submit_prompt"@.len() == 13,
        "get_state"@.len() == 9,
        "get_metrics"@.len() == 11,
        "get_rendered_grid"@.len() == 17,
{
    reveal_strlit("cancel");
    reveal_strlit("quit");
    reveal_strlit("approve");
    reveal_strlit("reject");
    reveal_strlit("submit_prompt");
    reveal_strlit("get_state");
    reveal_strlit("get_metrics");
    reveal_strlit("get_rendered_grid");
}

/// Each method does what it is called: to cancel reaches the core, to ask for
/// the state or the counts changes nothing, to quit ends the session, and a
/// method that is not known changes nothing and is answered with an error.
pub proof fn law_methods_do_what_they_are_called(
    session: &mut RpcSession,
    id: u64,
    method: &str,
    params: &str,
    ts: u64,
    r: Vec<Output>,
)
    requires
        call_ensures(RpcSession::handle_request, (session, id, method, params, ts), r),
    ensures
        method@ == "cancel"@ ==> final(session)@.core == step(
            old(session)@.core,
            EventModel::Cancel,
        ).0 && r@.len() > 0 && answers_with(r@[r@.len() - 1]@, id, "{}"@),
        method@ == "get_state"@ ==> final(session)@ == old(session)@ && r@.len() == 1,
        method@ == "get_metrics"@ ==> final(session)@ == old(session)@ && r@.len() == 1 && r@[0]@
            == (OutputModel::Metrics { id, metrics: old(session)@.core.metrics }),
        method@ == "get_rendered_grid"@ ==> final(session)@ == old(session)@ && r@.len() == 1,
        method@ == "quit"@ ==> final(session)@ == old(session)@ && r@.len() == 2 && answers_with(
            r@[0]@,
            id,
            "{}"@,
        ) && r@[1]@ is Quit,
        method@ != "submit_prompt"@ && method@ != "approve"@ && method@ != "reject"@ && method@
            != "cancel"@ && method@ != "get_state"@ && method@ != "get_metrics"@ && method@
            != "get_rendered_grid"@ && method@ != "quit"@ ==> final(session)@ == old(session)@
            && r@.len() == 1 && answers_error(
            r@[0]@,
            Some(id),
            -32601,
            "method not found: "@ + method@,
        ),
{
    lemma_methods();
    assert(deep(r@).len() == r@.len());
    assert forall|i: int| 0 <= i < r@.len() implies deep(r@)[i] == (#[trigger] r@[i])@ by {}
    if method@ == "cancel"@ {
        lemma_core_after(old(session)@, EventModel::Cancel, ts);
        assert(deep(r@)[r@.len() - 1] == r@[r@.len() - 1]@);
    }
    if r@.len() > 0 {
        assert(deep(r@)[0] == r@[0]@);
    }
    if r@.len() > 1 {
        assert(deep(r@)[1] == r@[1]@);
    }
}

spec fn no_quit(outputs: Seq<OutputModel>) -> bool {
    forall|i: int| 0 <= i < outputs.len() ==> !((#[trigger] outputs[i]) is Quit)
}

proof fn lemma_no_quit_dispatch(m: RpcModel, event: EventModel, ts: u64)
    ensures
        no_quit(dispatch_step(m, event, ts).1),
{
    let (core, actions) = step(m.core, event);
    let n = RpcModel { core, ..m };
    lemma_no_quit_telling(n, core.conversation.len(), ts);
    let (o, messages) = tell_messages(n, core.conversation.len(), ts);
    let (p, approval) = tell_approval(o, ts);
    lemma_no_quit_actions(p, actions);
}

proof fn lemma_no_quit_telling(m: RpcModel, n: nat, ts: u64)
    ensures
        no_quit(tell_messages(m, n, ts).1),
    decreases n,
{
    if n > m.told {
        lemma_no_quit_telling(m, (n - 1) as nat, ts);
    }
}

proof fn lemma_no_quit_actions(m: RpcModel, actions: Seq<ActionModel>)
    ensures
        no_quit(actions_step(m, actions).1),
    decreases actions.len(),
{
    if actions.len() > 0 {
        lemma_no_quit_actions(m, actions.drop_last());
    }
}

/// No event ends the session: only the client does.
pub proof fn law_events_do_not_end_the_session(
    session: &mut RpcSession,
    event: Event,
    ts: u64,
    r: Vec<Output>,
)
    requires
        call_ensures(RpcSession::dispatch, (session, event, ts), r),
    ensures
        forall|i: int| 0 <= i < r@.len() ==> !((#[trigger] r@[i])@ is Quit),
{
    lemma_no_quit_dispatch(old(session)@, event@, ts);
    assert forall|i: int| 0 <= i < r@.len() implies !((#[trigger] r@[i])@ is Quit) by {
        assert(deep(r@)[i] == r@[i]@);
    }
}

/// A line that is no message is answered without an id: with one code where
/// it cannot be read, with another where only its id cannot. A notification
/// changes nothing and is not answered.
pub proof fn law_lines_that_are_no_requests(
    session: &mut RpcSession,
    incoming: Result<Incoming, LineError>,
    ts: u64,
    r: Vec<Output>,
)
    requires
        call_ensures(RpcSession::handle_incoming, (session, incoming, ts), r),
    ensures
        incoming matches Err(LineError::NoMessage(e)) ==> final(session)@ == old(session)@
            && r@.len() == 1 && answers_error(r@[0]@, None, -32700, e@),
        incoming matches Err(LineError::BadId(e)) ==> final(session)@ == old(session)@ && r@.len()
            == 1 && answers_error(r@[0]@, None, -32600, e@),
        incoming is Ok && incoming->Ok_0 is Notification ==> final(session)@ == old(session)@
            && r@.len() == 0,
{
    assert(deep(r@).len() == r@.len());
    if r@.len() > 0 {
        assert(deep(r@)[0] == r@[0]@);
    }
}

/// A message is a request where it has an id, which is a number, and a
/// notification where it has none. Its method and its parameters are what
/// stands in it, and it must say that it is of version 2.0.
pub proof fn law_messages_are_read(doc: &JsonDoc, r: Result<Incoming, LineError>)
    requires
        doc.wf(),
        call_ensures(Incoming::from_json, (doc,), r),
    ensures
        r matches Ok(m) ==> has_text(doc@, 0, "jsonrpc"@, "2.0"@) && match m@ {
            IncomingModel::Request { id, method, params_json } => {
                &&& has_text(doc@, 0, "method"@, method)
                &&& member(doc@, 0, "id"@) matches Ok(Some(j)) && unsigned(
                    doc@,
                    j,
                    u64::MAX as int,
                ) == Ok::<int, Seq<char>>(id as int)
                &&& params_stand(doc@, params_json)
            },
            IncomingModel::Notification { method, params_json } => {
                &&& has_text(doc@, 0, "method"@, method)
                &&& member(doc@, 0, "id"@) == Ok::<Option<int>, Seq<char>>(None)
                &&& params_stand(doc@, params_json)
            },
        },
        r matches Err(LineError::BadId(_)) ==> member(doc@, 0, "id"@) is Ok && member(
            doc@,
            0,
            "id"@,
        )->Ok_0 is Some,
        !has_text(doc@, 0, "jsonrpc"@, "2.0"@) ==> r is Err && r->Err_0 is NoMessage,
{
    crate::sansio::agent::arguments::lemma_numbers(doc@, u64::MAX as int);
}

/// Whether the parameters are what stands under their name, or `null` where
/// nothing does.
pub open spec fn params_stand(doc: Seq<NodeModel>, params: Seq<char>) -> bool {
    match member(doc, 0, "params"@) {
        Ok(Some(j)) => params == doc[j].raw,
        Ok(None) => params == "null"@,
        Err(_) => false,
    }
}

/// What the response of the model brings reaches the core as it is, for the
/// request whose response it is; without such a request nothing happens.
pub proof fn law_responses_reach_the_core(
    session: &mut RpcSession,
    event: StreamEvent,
    ts: u64,
    r: Vec<Output>,
)
    requires
        call_ensures(RpcSession::on_stream_event, (session, event, ts), r),
    ensures
        old(session)@.stream is None ==> final(session)@ == old(session)@ && r@.len() == 0,
        old(session)@.stream is Some && event is ContentDelta ==> final(session)@.core == step(
            old(session)@.core,
            EventModel::ContentDelta {
                request: old(session)@.stream->0,
                text: event->ContentDelta_0@,
            },
        ).0,
        old(session)@.stream is Some && event is ReasoningDelta ==> final(session)@.core == step(
            old(session)@.core,
            EventModel::ReasoningDelta {
                request: old(session)@.stream->0,
                text: event->ReasoningDelta_0@,
            },
        ).0,
        old(session)@.stream is Some && event is Comment ==> final(session)@ == old(session)@
            && r@.len() == 0,
{
    assert(deep(r@).len() == r@.len());
    if old(session)@.stream is Some {
        let request = old(session)@.stream->0;
        if event is ContentDelta {
            lemma_core_after(
                old(session)@,
                EventModel::ContentDelta { request, text: event->ContentDelta_0@ },
                ts,
            );
        }
        if event is ReasoningDelta {
            lemma_core_after(
                old(session)@,
                EventModel::ReasoningDelta { request, text: event->ReasoningDelta_0@ },
                ts,
            );
        }
    }
}

/// What came of a tool reaches the core under its request and its call.
pub proof fn law_results_reach_the_core(
    session: &mut RpcSession,
    feedback: ToolFeedback,
    ts: u64,
    r: Vec<Output>,
)
    requires
        call_ensures(RpcSession::on_feedback, (session, feedback, ts), r),
    ensures
        feedback matches ToolFeedback::Result { request, call_id, outcome } ==> final(session)@.core
            == step(
            old(session)@.core,
            EventModel::ToolResult { request, call_id: call_id@, outcome: outcome@ },
        ).0,
        feedback matches ToolFeedback::PatchPreviewReady {
            request,
            call_id,
            preview_hashes,
            preview,
        } ==> final(session)@.core == step(
            old(session)@.core,
            EventModel::PatchPreviewReady {
                request,
                call_id: call_id@,
                preview_hashes: deep(preview_hashes@),
                preview: preview@,
            },
        ).0,
        feedback matches ToolFeedback::PatchPreviewFailed { request, call_id, outcome }
            ==> final(session)@.core == step(
            old(session)@.core,
            EventModel::ToolResult { request, call_id: call_id@, outcome: outcome@ },
        ).0,
        feedback matches ToolFeedback::CommandOutputChunk { request, call_id, stream, bytes }
            ==> final(session)@.core == step(
            old(session)@.core,
            EventModel::CommandOutputChunk {
                request,
                call_id: call_id@,
                stream,
                bytes: bytes@,
            },
        ).0,
{
    match feedback {
        ToolFeedback::Result { request, call_id, outcome } => {
            lemma_core_after(
                command_ended(old(session)@, call_id@).0,
                EventModel::ToolResult { request, call_id: call_id@, outcome: outcome@ },
                ts,
            );
        },
        ToolFeedback::PatchPreviewReady { request, call_id, preview_hashes, preview } => {
            lemma_core_after(
                old(session)@,
                EventModel::PatchPreviewReady {
                    request,
                    call_id: call_id@,
                    preview_hashes: deep(preview_hashes@),
                    preview: preview@,
                },
                ts,
            );
        },
        ToolFeedback::PatchPreviewFailed { request, call_id, outcome } => {
            lemma_core_after(
                old(session)@,
                EventModel::ToolResult { request, call_id: call_id@, outcome: outcome@ },
                ts,
            );
        },
        ToolFeedback::CommandOutputChunk { request, call_id, stream, bytes } => {
            lemma_core_after(
                old(session)@,
                EventModel::CommandOutputChunk {
                    request,
                    call_id: call_id@,
                    stream,
                    bytes: bytes@,
                },
                ts,
            );
        },
    }
}

/// A request of the core goes to the model with the conversation as the core
/// has it, and with the model that the session was made for; a tool runs, and
/// a patch is applied, as the core asks for it.
pub proof fn law_actions_are_done_as_asked(m: RpcModel, a: ActionModel)
    ensures
        a matches ActionModel::StartRequest { id, messages } ==> ({
            let (n, out) = action_step(m, a);
            &&& n.stream == Some(id)
            &&& out.len() == 1
            &&& out[0] is StartStream
            &&& out[0]->StartStream_id == id
            &&& out[0]->StartStream_request.messages == messages
            &&& out[0]->StartStream_request.model == m.model
        }),
        a is CancelRequest ==> action_step(m, a).0.stream is None && action_step(m, a).1 == seq![
            OutputModel::DropStream,
        ],
        a matches ActionModel::ExecuteTool { request, call_id, invocation } ==> action_step(m, a)
            == (m, seq![OutputModel::RunTool { request, call_id, tool: invocation }]),
        a matches ActionModel::PreviewPatch { request, call_id, invocation } ==> action_step(m, a)
            == (m, seq![OutputModel::PreviewPatch { request, call_id, edits: invocation }]),
        a matches ActionModel::ApplyPatch { request, call_id, invocation, preview_hashes }
            ==> action_step(m, a) == (
            m,
            seq![
                OutputModel::ApplyPatch {
                    request,
                    call_id,
                    edits: invocation,
                    hashes: preview_hashes,
                },
            ],
        ),
        a matches ActionModel::ExecuteCommand { request, call_id, invocation } ==> {
            &&& m.active is None ==> action_step(m, a).1 == seq![
                OutputModel::StartCommand { request, call_id, command: invocation },
            ]
            &&& m.active is Some ==> action_step(m, a).1.len() == 0 && action_step(m, a).0.queue
                == m.queue.push(QueuedModel { request, call_id, command: invocation })
        },
{
}

/// When the command that runs has ended, the one that has waited longest
/// starts, and the others keep their places.
pub proof fn law_commands_start_in_order(m: RpcModel, request: RequestId, call_id: Seq<char>)
    requires
        m.active == Some((request, call_id)),
    ensures
        m.queue.len() == 0 ==> command_ended(m, call_id).0.active is None && command_ended(
            m,
            call_id,
        ).1.len() == 0,
        m.queue.len() > 0 ==> command_ended(m, call_id).1 == seq![
            OutputModel::StartCommand {
                request: m.queue[0].request,
                call_id: m.queue[0].call_id,
                command: m.queue[0].command,
            },
        ] && command_ended(m, call_id).0.queue == m.queue.skip(1),
{
}

/// Cancelling a request drops its commands from the queue, and keeps those of
/// other requests in order.
pub proof fn law_other_commands_keep_waiting(queue: Seq<QueuedModel>, q: QueuedModel, request: RequestId)
    ensures
        without_request(Seq::empty(), request) == Seq::<QueuedModel>::empty(),
        q.request == request ==> without_request(queue.push(q), request) == without_request(
            queue,
            request,
        ),
        q.request != request ==> without_request(queue.push(q), request) == without_request(
            queue,
            request,
        ).push(q),
{
    assert(queue.push(q).drop_last() =~= queue);
}

/// An answer is written with its id and its result, an error with its id, its
/// code and its message.
pub proof fn law_answers_are_written(s: &SuccessResponse, line: String, e: &ErrorResponse, error: String)
    requires
        call_ensures(SuccessResponse::to_json_string, (s,), line),
        call_ensures(ErrorResponse::to_json_string, (e,), error),
    ensures
        holds_text(line@, "\"id\":"@ + decimal(s.id as nat) + ",\"result\":"@ + s.result_json@),
        holds_text(error@, "\"code\":"@ + signed_decimal(e.error.code as int)),
        holds_text(error@, "\"message\":"@ + quoted(e.error.message@)),
        e.id is Some ==> holds_text(error@, "\"id\":"@ + decimal(e.id->0 as nat)),
        e.id is None ==> holds_text(error@, "\"id\":null"@),
{
    reveal_strlit("{\"jsonrpc\":\"2.0\",\"id\":");
    reveal_strlit("{\"jsonrpc\":\"2.0\",");
    reveal_strlit("\"id\":");
    reveal_strlit("\"id\":null");
    reveal_strlit("null");
    reveal_strlit(",\"error\":{\"code\":");
    reveal_strlit(",\"error\":{");
    reveal_strlit("\"code\":");
    reveal_strlit(",\"message\":");
    reveal_strlit(",");
    reveal_strlit("\"message\":");
    let head = "{\"jsonrpc\":\"2.0\","@;
    assert("{\"jsonrpc\":\"2.0\",\"id\":"@ =~= head + "\"id\":"@);
    assert(",\"error\":{\"code\":"@ =~= ",\"error\":{"@ + "\"code\":"@);
    assert(",\"message\":"@ =~= ","@ + "\"message\":"@);
    assert("\"id\":null"@ =~= "\"id\":"@ + "null"@);
    let result = "\"id\":"@ + decimal(s.id as nat) + ",\"result\":"@ + s.result_json@;
    assert(line@ =~= (head + result) + "}"@);
    let id = match e.id {
        Some(id) => decimal(id as nat),
        None => "null"@,
    };
    let who = "\"id\":"@ + id;
    let code = "\"code\":"@ + signed_decimal(e.error.code as int);
    let why = "\"message\":"@ + quoted(e.error.message@);
    let a = ",\"error\":{"@;
    assert(error@ =~= (head + who) + (a + code + ","@ + why + "}}"@));
    assert(error@ =~= ((head + who + a) + code) + (","@ + why + "}}"@));
    assert(error@ =~= ((head + who + a + code + ","@) + why) + "}}"@);
}

/// The state that a client asks for holds the phase, the call that waits for
/// approval, the length of the conversation and the command that runs.
pub proof fn law_the_state_is_told(
    session: &mut RpcSession,
    id: u64,
    method: &str,
    params: &str,
    ts: u64,
    r: Vec<Output>,
)
    requires
        call_ensures(RpcSession::handle_request, (session, id, method, params, ts), r),
        method@ == "get_state"@,
    ensures
        r@.len() == 1,
        r@[0]@ is Reply,
        holds_text(
            r@[0]@->line,
            "{\"phase\":"@ + quoted(
                match old(session)@.core.status {
                    Status::Idle => "idle"@,
                    Status::AwaitingModel => "awaiting_model"@,
                    Status::Streaming => "streaming"@,
                    Status::ToolRunning => "tool_running"@,
                    Status::AwaitingApproval => "awaiting_approval"@,
                },
            ) + ",\"pending_approval_call_id\":"@ + (match approval_wanted(old(session)@.core) {
                Some(c) => quoted(c),
                None => "null"@,
            }) + ",\"conversation_length\":"@ + decimal(old(session)@.core.conversation.len())
                + ",\"active_command_call_id\":"@ + (if old(session)@.active is Some {
                quoted((old(session)@.active->0).1)
            } else {
                "null"@
            }) + "}"@,
        ),
{
    lemma_methods();
    let m = old(session)@;
    assert(deep(r@).len() == r@.len());
    assert(deep(r@)[0] == r@[0]@);
    let text = super::server::state_text(m);
    let head = "{\"jsonrpc\":\"2.0\",\"id\":"@ + decimal(id as nat) + ",\"result\":"@;
    assert(r@[0]@->line =~= (head + text) + ("}"@.push('\n')));
}

/// Before an event is taken in, the client is told that it comes: that the
/// turn is cancelled, broke off or has ended, that a patch can be looked at,
/// and what the user decided.
pub proof fn law_events_are_announced(event: &Event, ts: u64, r: Vec<Output>)
    requires
        call_ensures(pre_event_record, (event, ts), r),
    ensures
        event@ is Cancel ==> r@.len() == 1 && r@[0]@ == (OutputModel::Notice {
            method: "event/cancel"@,
            record: TranscriptModel::Cancel { ts },
        }),
        event@ matches EventModel::TransportError { message, .. } ==> r@.len() == 1 && r@[0]@ == (
        OutputModel::Notice {
            method: "event/transport_error"@,
            record: TranscriptModel::TransportError { ts, message },
        }),
        event@ matches EventModel::Finish { reason, .. } ==> r@.len() == 1 && r@[0]@ == (
        OutputModel::Notice {
            method: "event/finish"@,
            record: TranscriptModel::Finish { ts, reason },
        }),
        event@ matches EventModel::ApproveToolCall { call_id } ==> r@.len() == 1 && r@[0]@ == (
        OutputModel::Notice {
            method: "event/tool_approval"@,
            record: TranscriptModel::ToolApproval {
                ts,
                call_id,
                decision: ApprovalDecision::Approve,
            },
        }),
        event@ matches EventModel::RejectToolCall { call_id } ==> r@.len() == 1 && r@[0]@ == (
        OutputModel::Notice {
            method: "event/tool_approval"@,
            record: TranscriptModel::ToolApproval {
                ts,
                call_id,
                decision: ApprovalDecision::Reject,
            },
        }),
        event@ is UserMessage || event@ is ContentDelta || event@ is ReasoningDelta
            || event@ is ToolCallDelta || event@ is ToolResult ==> r@.len() == 0,
{
    assert(deep(r@).len() == r@.len());
    if r@.len() > 0 {
        assert(deep(r@)[0] == r@[0]@);
    }
}

/// The client is told of a call that waits for approval once, and of its kind:
/// that of the newest call with its id.
pub proof fn law_waiting_calls_are_told_once(m: RpcModel, ts: u64)
    ensures
        ({
            let (n, out) = tell_approval(m, ts);
            let now = approval_wanted(m.core);
            &&& n.asked == now
            &&& m.asked == now ==> out.len() == 0
            &&& m.asked != now && now is Some ==> out.len() == 1 && out[0] is Notice
                && out[0]->method == "event/tool_approval_required"@
                && out[0]->record is ToolApprovalRequired
                && out[0]->record->ToolApprovalRequired_call_id == now->0
                && out[0]->record->ToolApprovalRequired_tool_kind == kind_of_call(m.kinds, now->0)
            &&& now is None ==> out.len() == 0
        }),
{
}

/// The kind of a call is the newest that is known of its id; a call of which
/// none is known counts as a patch.
pub proof fn law_the_newest_kind_counts(kinds: Seq<KindModel>, k: KindModel, id: Seq<char>)
    ensures
        kind_of_call(kinds.push(k), k.call_id) == k.kind,
        k.call_id != id ==> kind_of_call(kinds.push(k), id) == kind_of_call(kinds, id),
        kind_of_call(Seq::empty(), id) is Patch,
{
    assert(kinds.push(k).drop_last() =~= kinds);
}

/// A fragment of a call and the end of a response stand for the events of the
/// core that hold the same, for their request.
pub proof fn law_stream_events_stand_for_events(
    event: StreamEvent,
    request: RequestId,
    r: Option<Event>,
)
    requires
        call_ensures(translate_stream_event, (event, request), r),
    ensures
        event@ matches StreamEventModel::ToolCallDelta(d) ==> r is Some && r->0@ == (
        EventModel::ToolCallDelta {
            request,
            index: d.index,
            id: d.id,
            function_name: d.function_name,
            arguments_fragment: d.arguments_fragment,
        }),
        event@ matches StreamEventModel::Finish { reason } ==> r is Some && r->0@ == (
        EventModel::Finish { request, reason }),
        event@ matches StreamEventModel::ContentDelta(text) ==> r is Some && r->0@ == (
        EventModel::ContentDelta { request, text }),
        event@ matches StreamEventModel::ReasoningDelta(text) ==> r is Some && r->0@ == (
        EventModel::ReasoningDelta { request, text }),
        event@ is Comment ==> r is None,
{
    assert(maybe(r) is Some <==> r is Some);
}

} // verus!
