//! What holds of a session as a whole.
use vstd::prelude::*;
use vstd::string::*;

use super::server::{
    action_step, actions_step, bad_params, command_ended, decide_step, dispatch_step, error_reply,
    event_notice, feedback_step, flag_text, incoming_step, message_notice, reply, request_step,
    runs_call, size_param, state_text, status_text, string_param, submit_step, tell_approval,
    tell_messages, without_request, FeedbackModel, OutputModel, QueuedModel, RpcModel,
};
use super::wire::{
    error_text, refusal_of, success_text, ErrorModel, IncomingModel, LineErrorModel,
    CODE_INVALID_PARAMS, CODE_METHOD_NOT_FOUND,
};
use crate::json::value::{flat, lemma_flat_add, lemma_flat_decimal, lemma_quoted_is_one_line};
use crate::json::{quoted, quoted_or_null};
use crate::text::{decimal, signed_decimal};
use crate::sansio::agent::laws::{acts_for, law_conversation_only_grows};
use crate::sansio::agent::state::step;
use crate::sansio::agent::types::{ActionModel, EventModel, RequestId};

verus! {

/// The id that an answer carries; none where this is no answer.
pub open spec fn answers(o: OutputModel) -> Seq<Option<u64>> {
    match o {
        OutputModel::Reply { id, .. } => seq![id],
        OutputModel::Grid { id, .. } => seq![Some(id)],
        OutputModel::Metrics { id, .. } => seq![Some(id)],
        _ => Seq::empty(),
    }
}

/// The ids of all answers, in order.
pub open spec fn answers_in(s: Seq<OutputModel>) -> Seq<Option<u64>>
    decreases s.len(),
{
    if s.len() == 0 {
        Seq::empty()
    } else {
        answers_in(s.drop_last()) + answers(s.last())
    }
}

/// How many commands are started.
pub open spec fn starts_in(s: Seq<OutputModel>) -> nat
    decreases s.len(),
{
    if s.len() == 0 {
        0
    } else {
        starts_in(s.drop_last()) + (if s.last() is StartCommand {
            1nat
        } else {
            0nat
        })
    }
}

proof fn lemma_in_add(a: Seq<OutputModel>, b: Seq<OutputModel>)
    ensures
        answers_in(a + b) == answers_in(a) + answers_in(b),
        starts_in(a + b) == starts_in(a) + starts_in(b),
    decreases b.len(),
{
    if b.len() == 0 {
        assert(a + b =~= a);
        assert(answers_in(a) + Seq::<Option<u64>>::empty() =~= answers_in(a));
    } else {
        lemma_in_add(a, b.drop_last());
        assert((a + b).drop_last() =~= a + b.drop_last());
        assert((a + b).last() == b.last());
        assert(answers_in(a) + (answers_in(b.drop_last()) + answers(b.last())) =~= (answers_in(a)
            + answers_in(b.drop_last())) + answers(b.last()));
    }
}

proof fn lemma_in_one(o: OutputModel)
    ensures
        answers_in(seq![o]) == answers(o),
        starts_in(seq![o]) == if o is StartCommand {
            1nat
        } else {
            0nat
        },
{
    let s = seq![o];
    assert(s.drop_last() =~= Seq::empty());
    assert(s.last() == o);
    assert(answers_in(s.drop_last()) =~= Seq::empty());
    assert(Seq::<Option<u64>>::empty() + answers(o) =~= answers(o));
    assert(answers_in(s) == answers_in(s.drop_last()) + answers(s.last()));
    assert(starts_in(s.drop_last()) == 0);
}

/// Neither answers nor commands.
spec fn quiet(s: Seq<OutputModel>) -> bool {
    answers_in(s) == Seq::<Option<u64>>::empty() && starts_in(s) == 0
}

proof fn lemma_quiet_empty()
    ensures
        quiet(Seq::empty()),
{
    assert(answers_in(Seq::<OutputModel>::empty()) =~= Seq::empty());
}

proof fn lemma_quiet_one(o: OutputModel)
    requires
        answers(o) == Seq::<Option<u64>>::empty(),
        !(o is StartCommand),
    ensures
        quiet(seq![o]),
{
    lemma_in_one(o);
}

proof fn lemma_quiet_add(a: Seq<OutputModel>, b: Seq<OutputModel>)
    requires
        quiet(a),
        quiet(b),
    ensures
        quiet(a + b),
{
    lemma_in_add(a, b);
    assert(Seq::<Option<u64>>::empty() + Seq::<Option<u64>>::empty() =~= Seq::<
        Option<u64>,
    >::empty());
}

proof fn lemma_notices_are_quiet(event: EventModel, ts: u64)
    ensures
        quiet(event_notice(event, ts)),
{
    let s = event_notice(event, ts);
    if s.len() == 0 {
        assert(s =~= Seq::empty());
        lemma_quiet_empty();
    } else {
        lemma_quiet_one(s[0]);
        assert(s =~= seq![s[0]]);
    }
}

proof fn lemma_messages_are_quiet(m: RpcModel, n: nat, ts: u64)
    ensures
        quiet(tell_messages(m, n, ts).1),
        tell_messages(m, n, ts).0.active == m.active,
        tell_messages(m, n, ts).0.queue == m.queue,
        tell_messages(m, n, ts).0.core == m.core,
        tell_messages(m, n, ts).0.told == if n <= m.told {
            m.told
        } else {
            n
        },
    decreases n,
{
    if n <= m.told {
        lemma_quiet_empty();
    } else {
        lemma_messages_are_quiet(m, (n - 1) as nat, ts);
        let notice = message_notice(m.core.conversation[n - 1], ts);
        if notice.len() == 0 {
            assert(notice =~= Seq::empty());
            lemma_quiet_empty();
        } else {
            lemma_quiet_one(notice[0]);
            assert(notice =~= seq![notice[0]]);
        }
        lemma_quiet_add(tell_messages(m, (n - 1) as nat, ts).1, notice);
    }
}

proof fn lemma_approval_is_quiet(m: RpcModel, ts: u64)
    ensures
        quiet(tell_approval(m, ts).1),
        tell_approval(m, ts).0.active == m.active,
        tell_approval(m, ts).0.queue == m.queue,
        tell_approval(m, ts).0.core == m.core,
        tell_approval(m, ts).0.told == m.told,
{
    let s = tell_approval(m, ts).1;
    if s.len() == 0 {
        assert(s =~= Seq::empty());
        lemma_quiet_empty();
    } else {
        lemma_quiet_one(s[0]);
        assert(s =~= seq![s[0]]);
    }
}

proof fn lemma_action(m: RpcModel, a: ActionModel)
    ensures
        answers_in(action_step(m, a).1) == Seq::<Option<u64>>::empty(),
        m.active is Some ==> starts_in(action_step(m, a).1) == 0 && action_step(m, a).0.active
            == m.active,
        starts_in(action_step(m, a).1) <= 1,
        starts_in(action_step(m, a).1) == 1 ==> action_step(m, a).0.active is Some,
        action_step(m, a).0.told == m.told,
        action_step(m, a).0.core == m.core,
{
    let s = action_step(m, a).1;
    if s.len() == 0 {
        assert(s =~= Seq::empty());
        lemma_quiet_empty();
    } else if s.len() == 1 {
        assert(s =~= seq![s[0]]);
        lemma_in_one(s[0]);
    } else {
        assert(s =~= seq![s[0]] + seq![s[1]]);
        lemma_in_one(s[0]);
        lemma_in_one(s[1]);
        lemma_in_add(seq![s[0]], seq![s[1]]);
        assert(Seq::<Option<u64>>::empty() + Seq::<Option<u64>>::empty() =~= Seq::<
            Option<u64>,
        >::empty());
    }
}

proof fn lemma_actions(m: RpcModel, actions: Seq<ActionModel>)
    ensures
        answers_in(actions_step(m, actions).1) == Seq::<Option<u64>>::empty(),
        m.active is Some ==> starts_in(actions_step(m, actions).1) == 0 && actions_step(
            m,
            actions,
        ).0.active == m.active,
        starts_in(actions_step(m, actions).1) <= 1,
        starts_in(actions_step(m, actions).1) == 1 ==> actions_step(m, actions).0.active is Some,
        actions_step(m, actions).0.told == m.told,
        actions_step(m, actions).0.core == m.core,
    decreases actions.len(),
{
    if actions.len() == 0 {
        lemma_quiet_empty();
    } else {
        lemma_actions(m, actions.drop_last());
        let (before, outputs) = actions_step(m, actions.drop_last());
        lemma_action(before, actions.last());
        let more = action_step(before, actions.last()).1;
        lemma_in_add(outputs, more);
        assert(Seq::<Option<u64>>::empty() + Seq::<Option<u64>>::empty() =~= Seq::<
            Option<u64>,
        >::empty());
    }
}

proof fn lemma_dispatch(m: RpcModel, event: EventModel, ts: u64)
    ensures
        ({
            let (n, outputs) = dispatch_step(m, event, ts);
            &&& answers_in(outputs) == Seq::<Option<u64>>::empty()
            &&& m.active is Some ==> starts_in(outputs) == 0 && n.active == m.active
            &&& starts_in(outputs) <= 1
            &&& starts_in(outputs) == 1 ==> n.active is Some
            &&& n.core == step(m.core, event).0
            &&& n.told == if n.core.conversation.len() <= m.told {
                m.told
            } else {
                n.core.conversation.len()
            }
        }),
{
    let (core, actions) = step(m.core, event);
    let n = RpcModel { core, ..m };
    lemma_notices_are_quiet(event, ts);
    lemma_messages_are_quiet(n, core.conversation.len(), ts);
    let (o, messages) = tell_messages(n, core.conversation.len(), ts);
    lemma_approval_is_quiet(o, ts);
    let (p, approval) = tell_approval(o, ts);
    lemma_actions(p, actions);
    let outputs = actions_step(p, actions).1;
    let first = event_notice(event, ts);
    lemma_quiet_add(first, messages);
    lemma_quiet_add(first + messages, approval);
    lemma_in_add(first + messages + approval, outputs);
    assert(Seq::<Option<u64>>::empty() + Seq::<Option<u64>>::empty() =~= Seq::<
        Option<u64>,
    >::empty());
}

proof fn lemma_answer_behind(s: Seq<OutputModel>, o: OutputModel)
    requires
        answers_in(s) == Seq::<Option<u64>>::empty(),
    ensures
        answers_in(s.push(o)) == answers(o),
{
    assert(s.push(o).drop_last() =~= s);
    assert(Seq::<Option<u64>>::empty() + answers(o) =~= answers(o));
}

/// Every request is answered once, under its id, whatever it asks for.
pub proof fn law_each_request_is_answered_once(
    m: RpcModel,
    id: u64,
    method: Seq<char>,
    params: Seq<char>,
    ts: u64,
)
    ensures
        answers_in(request_step(m, id, method, params, ts).1) == seq![Some(id)],
{
    let s = request_step(m, id, method, params, ts).1;
    if method == "submit_prompt"@ {
        match string_param(params, "text"@) {
            Err(e) => {
                assert(s =~= seq![s[0]]);
                lemma_in_one(s[0]);
            },
            Ok(text) => {
                lemma_dispatch(m, EventModel::UserMessage(text), ts);
                lemma_answer_behind(
                    dispatch_step(m, EventModel::UserMessage(text), ts).1,
                    s.last(),
                );
            },
        }
    } else if method == "approve"@ || method == "reject"@ {
        match string_param(params, "call_id"@) {
            Err(e) => {
                assert(s =~= seq![s[0]]);
                lemma_in_one(s[0]);
            },
            Ok(call_id) => {
                let event = if method == "approve"@ {
                    EventModel::ApproveToolCall { call_id }
                } else {
                    EventModel::RejectToolCall { call_id }
                };
                lemma_dispatch(m, event, ts);
                if crate::sansio::agent::engine::approval_wanted(m.core) == Some(call_id) {
                    lemma_answer_behind(dispatch_step(m, event, ts).1, s.last());
                } else {
                    assert(s =~= seq![s[0]]);
                    lemma_in_one(s[0]);
                }
            },
        }
    } else if method == "cancel"@ {
        lemma_dispatch(m, EventModel::Cancel, ts);
        lemma_answer_behind(dispatch_step(m, EventModel::Cancel, ts).1, s.last());
    } else if s.len() == 2 {
        assert(s =~= seq![s[0]] + seq![s[1]]);
        lemma_in_one(s[0]);
        lemma_in_one(s[1]);
        lemma_in_add(seq![s[0]], seq![s[1]]);
        assert(seq![Some(id)] + Seq::<Option<u64>>::empty() =~= seq![Some(id)]);
    } else {
        assert(s =~= seq![s[0]]);
        lemma_in_one(s[0]);
    }
}

/// A notification is never answered, and a line that cannot be read is
/// answered once, without an id.
pub proof fn law_other_lines_are_answered_at_most_once(
    m: RpcModel,
    incoming: Result<IncomingModel, LineErrorModel>,
    ts: u64,
)
    ensures
        incoming is Err ==> answers_in(incoming_step(m, incoming, ts).1) == seq![None::<u64>],
        incoming is Ok && incoming->Ok_0 is Notification ==> answers_in(
            incoming_step(m, incoming, ts).1,
        ) == Seq::<Option<u64>>::empty() && incoming_step(m, incoming, ts).0 == m,
{
    let s = incoming_step(m, incoming, ts).1;
    if incoming is Err {
        assert(s =~= seq![s[0]]);
        lemma_in_one(s[0]);
    } else if incoming->Ok_0 is Notification {
        lemma_quiet_empty();
    }
}

/// Whether a tool reports the end of the command that runs.
pub open spec fn reports_end(f: FeedbackModel, m: RpcModel) -> bool {
    match f {
        FeedbackModel::Result { call_id, .. } => runs_call(m.active, call_id),
        _ => false,
    }
}

/// Commands run one at a time. While one runs, none is started; and when it
/// has ended, one is started at most.
pub proof fn law_commands_run_one_at_a_time(
    m: RpcModel,
    event: EventModel,
    f: FeedbackModel,
    ts: u64,
)
    ensures
        m.active is Some ==> starts_in(dispatch_step(m, event, ts).1) == 0,
        starts_in(dispatch_step(m, event, ts).1) <= 1,
        starts_in(feedback_step(m, f, ts).1) <= 1,
        m.active is Some && starts_in(feedback_step(m, f, ts).1) == 1 ==> reports_end(f, m),
        starts_in(feedback_step(m, f, ts).1) == 1 ==> feedback_step(m, f, ts).0.active is Some,
{
    lemma_dispatch(m, event, ts);
    match f {
        FeedbackModel::Result { request, call_id, outcome } => {
            let (n, started) = command_ended(m, call_id);
            let result = EventModel::ToolResult { request, call_id, outcome };
            lemma_dispatch(n, result, ts);
            lemma_in_add(started, dispatch_step(n, result, ts).1);
            if started.len() == 0 {
                assert(started =~= Seq::empty());
                lemma_quiet_empty();
            } else {
                assert(started =~= seq![started[0]]);
                lemma_in_one(started[0]);
            }
        },
        FeedbackModel::PatchPreviewReady { request, call_id, preview_hashes, preview } => {
            lemma_dispatch(
                m,
                EventModel::PatchPreviewReady { request, call_id, preview_hashes, preview },
                ts,
            );
        },
        FeedbackModel::PatchPreviewFailed { request, call_id, outcome } => {
            lemma_dispatch(m, EventModel::ToolResult { request, call_id, outcome }, ts);
        },
        FeedbackModel::CommandOutputChunk { request, call_id, stream, bytes } => {
            let chunk = EventModel::CommandOutputChunk { request, call_id, stream, bytes };
            lemma_dispatch(m, chunk, ts);
            let notice = super::server::chunk_notice(call_id, stream, bytes, ts);
            lemma_in_one(notice);
            lemma_in_add(seq![notice], dispatch_step(m, chunk, ts).1);
        },
    }
}

/// After an event the client has been told of the whole conversation.
pub proof fn law_the_client_is_told_everything(m: RpcModel, event: EventModel, ts: u64)
    requires
        m.told <= m.core.conversation.len(),
    ensures
        dispatch_step(m, event, ts).0.told == dispatch_step(
            m,
            event,
            ts,
        ).0.core.conversation.len(),
{
    law_conversation_only_grows(m.core, event);
    lemma_dispatch(m, event, ts);
}

/// Whether an answer is one line, its end included.
pub open spec fn one_line_answer(o: OutputModel) -> bool {
    match o {
        OutputModel::Reply { line, .. } => line.len() > 0 && line.last() == '\n' && flat(
            line.drop_last(),
        ),
        _ => true,
    }
}

proof fn lemma_no_answers(s: Seq<OutputModel>, i: int)
    requires
        answers_in(s) == Seq::<Option<u64>>::empty(),
        0 <= i < s.len(),
    ensures
        !(s[i] is Reply),
    decreases s.len(),
{
    assert((answers_in(s.drop_last()) + answers(s.last())).len() == 0);
    assert(answers_in(s.drop_last()) =~= Seq::empty());
    assert(answers(s.last()).len() == 0);
    if i < s.len() - 1 {
        lemma_no_answers(s.drop_last(), i);
        assert(s.drop_last()[i] == s[i]);
    }
}

proof fn lemma_reply_is_one_line(id: u64, result: Seq<char>)
    requires
        flat(result),
    ensures
        one_line_answer(reply(id, result)),
{
    reveal_strlit("{\"jsonrpc\":\"2.0\",\"id\":");
    reveal_strlit(",\"result\":");
    reveal_strlit("}");
    lemma_flat_decimal(id as nat);
    let a = "{\"jsonrpc\":\"2.0\",\"id\":"@;
    let b = ",\"result\":"@;
    lemma_flat_add(a, decimal(id as nat));
    lemma_flat_add(a + decimal(id as nat), b);
    lemma_flat_add(a + decimal(id as nat) + b, result);
    lemma_flat_add(a + decimal(id as nat) + b + result, "}"@);
    let text = success_text(id, result);
    assert(text.push('\n').drop_last() =~= text);
}

proof fn lemma_signed_is_flat(n: int)
    ensures
        flat(signed_decimal(n)),
{
    if n < 0 {
        lemma_flat_decimal((-n) as nat);
        lemma_flat_add(seq!['-'], decimal((-n) as nat));
    } else {
        lemma_flat_decimal(n as nat);
    }
}

proof fn lemma_error_is_one_line(e: ErrorModel)
    ensures
        one_line_answer(error_reply(e)),
{
    reveal_strlit("{\"jsonrpc\":\"2.0\",\"id\":");
    reveal_strlit("null");
    reveal_strlit(",\"error\":{\"code\":");
    reveal_strlit(",\"message\":");
    reveal_strlit("}}");
    let a = "{\"jsonrpc\":\"2.0\",\"id\":"@;
    let id = match e.id {
        Some(id) => decimal(id as nat),
        None => "null"@,
    };
    if e.id is Some {
        lemma_flat_decimal(e.id->0 as nat);
    }
    let b = ",\"error\":{\"code\":"@;
    let code = signed_decimal(e.code as int);
    let c = ",\"message\":"@;
    lemma_signed_is_flat(e.code as int);
    lemma_quoted_is_one_line(e.message);
    lemma_flat_add(a, id);
    lemma_flat_add(a + id, b);
    lemma_flat_add(a + id + b, code);
    lemma_flat_add(a + id + b + code, c);
    lemma_flat_add(a + id + b + code + c, quoted(e.message));
    lemma_flat_add(a + id + b + code + c + quoted(e.message), "}}"@);
    let text = error_text(e);
    assert(text.push('\n').drop_last() =~= text);
}

proof fn lemma_flag_is_flat(value: bool)
    ensures
        flat(flag_text("accepted"@, value)),
        flat(flag_text("applied"@, value)),
{
    reveal_strlit("{\"");
    reveal_strlit("\":");
    reveal_strlit("}");
    reveal_strlit("true");
    reveal_strlit("false");
    reveal_strlit("accepted");
    reveal_strlit("applied");
}

proof fn lemma_name_is_flat(s: Option<Seq<char>>)
    ensures
        flat(quoted_or_null(s)),
{
    reveal_strlit("null");
    if s is Some {
        lemma_quoted_is_one_line(s->0);
    }
}

proof fn lemma_state_is_flat(m: RpcModel)
    ensures
        flat(state_text(m)),
{
    reveal_strlit("{\"phase\":");
    reveal_strlit(",\"pending_approval_call_id\":");
    reveal_strlit(",\"conversation_length\":");
    reveal_strlit(",\"active_command_call_id\":");
    reveal_strlit("}");
    let a = "{\"phase\":"@;
    let phase = quoted(status_text(m.core.status));
    let b = ",\"pending_approval_call_id\":"@;
    let waits = quoted_or_null(crate::sansio::agent::engine::approval_wanted(m.core));
    let c = ",\"conversation_length\":"@;
    let count = decimal(m.core.conversation.len());
    let d = ",\"active_command_call_id\":"@;
    let active = match m.active {
        Some(a) => Some(a.1),
        None => None,
    };
    lemma_quoted_is_one_line(status_text(m.core.status));
    lemma_name_is_flat(crate::sansio::agent::engine::approval_wanted(m.core));
    lemma_name_is_flat(active);
    lemma_flat_decimal(m.core.conversation.len());
    lemma_flat_add(a, phase);
    lemma_flat_add(a + phase, b);
    lemma_flat_add(a + phase + b, waits);
    lemma_flat_add(a + phase + b + waits, c);
    lemma_flat_add(a + phase + b + waits + c, count);
    lemma_flat_add(a + phase + b + waits + c + count, d);
    lemma_flat_add(a + phase + b + waits + c + count + d, quoted_or_null(active));
    lemma_flat_add(a + phase + b + waits + c + count + d + quoted_or_null(active), "}"@);
}

/// Each answer that is sent is one line: nothing in it is taken for the end
/// of the message but its end.
pub proof fn law_answers_are_one_line(
    m: RpcModel,
    incoming: Result<IncomingModel, LineErrorModel>,
    ts: u64,
    i: int,
)
    requires
        0 <= i < incoming_step(m, incoming, ts).1.len(),
    ensures
        one_line_answer(incoming_step(m, incoming, ts).1[i]),
{
    let s = incoming_step(m, incoming, ts).1;
    match incoming {
        Err(e) => lemma_error_is_one_line(refusal_of(e)),
        Ok(IncomingModel::Notification { .. }) => {},
        Ok(IncomingModel::Request { id, method, params_json }) => {
            lemma_request_is_one_line(m, id, method, params_json, ts, i);
        },
    }
}

proof fn lemma_answer_behind_is_one_line(
    m: RpcModel,
    event: EventModel,
    ts: u64,
    o: OutputModel,
    i: int,
)
    requires
        one_line_answer(o),
        0 <= i < dispatch_step(m, event, ts).1.push(o).len(),
    ensures
        one_line_answer(dispatch_step(m, event, ts).1.push(o)[i]),
{
    lemma_dispatch(m, event, ts);
    let outputs = dispatch_step(m, event, ts).1;
    if i < outputs.len() {
        lemma_no_answers(outputs, i);
    }
}

proof fn lemma_bad_params_is_one_line(m: RpcModel, id: u64, message: Seq<char>)
    ensures
        bad_params(m, id, message).1.len() == 1,
        one_line_answer(bad_params(m, id, message).1[0]),
{
    lemma_error_is_one_line(ErrorModel { id: Some(id), code: CODE_INVALID_PARAMS, message });
}

proof fn lemma_submit_is_one_line(
    m: RpcModel,
    id: u64,
    text: Result<Seq<char>, Seq<char>>,
    ts: u64,
    i: int,
)
    requires
        0 <= i < submit_step(m, id, text, ts).1.len(),
    ensures
        one_line_answer(submit_step(m, id, text, ts).1[i]),
{
    match text {
        Err(e) => lemma_bad_params_is_one_line(m, id, e),
        Ok(text) => {
            let event = EventModel::UserMessage(text);
            let n = dispatch_step(m, event, ts).0;
            let accepted = m.core.status is Idle && !(n.core.status is Idle);
            lemma_flag_is_flat(accepted);
            lemma_reply_is_one_line(id, flag_text("accepted"@, accepted));
            lemma_answer_behind_is_one_line(
                m,
                event,
                ts,
                reply(id, flag_text("accepted"@, accepted)),
                i,
            );
        },
    }
}

proof fn lemma_decide_is_one_line(
    m: RpcModel,
    id: u64,
    call: Result<Seq<char>, Seq<char>>,
    approve: bool,
    ts: u64,
    i: int,
)
    requires
        0 <= i < decide_step(m, id, call, approve, ts).1.len(),
    ensures
        one_line_answer(decide_step(m, id, call, approve, ts).1[i]),
{
    match call {
        Err(e) => lemma_bad_params_is_one_line(m, id, e),
        Ok(call_id) => {
            let applied = crate::sansio::agent::engine::approval_wanted(m.core) == Some(call_id);
            lemma_flag_is_flat(applied);
            lemma_reply_is_one_line(id, flag_text("applied"@, applied));
            if applied {
                let event = if approve {
                    EventModel::ApproveToolCall { call_id }
                } else {
                    EventModel::RejectToolCall { call_id }
                };
                lemma_answer_behind_is_one_line(
                    m,
                    event,
                    ts,
                    reply(id, flag_text("applied"@, true)),
                    i,
                );
            }
        },
    }
}

proof fn lemma_request_is_one_line(
    m: RpcModel,
    id: u64,
    method: Seq<char>,
    params: Seq<char>,
    ts: u64,
    i: int,
)
    requires
        0 <= i < request_step(m, id, method, params, ts).1.len(),
    ensures
        one_line_answer(request_step(m, id, method, params, ts).1[i]),
{
    if method == "submit_prompt"@ {
        lemma_submit_is_one_line(m, id, string_param(params, "text"@), ts, i);
    } else if method == "approve"@ {
        lemma_decide_is_one_line(m, id, string_param(params, "call_id"@), true, ts, i);
    } else if method == "reject"@ {
        lemma_decide_is_one_line(m, id, string_param(params, "call_id"@), false, ts, i);
    } else if method == "cancel"@ {
        reveal_strlit("{}");
        lemma_reply_is_one_line(id, "{}"@);
        lemma_answer_behind_is_one_line(m, EventModel::Cancel, ts, reply(id, "{}"@), i);
    } else if method == "get_state"@ {
        lemma_state_is_flat(m);
        lemma_reply_is_one_line(id, state_text(m));
    } else if method == "get_metrics"@ {
    } else if method == "get_rendered_grid"@ {
        if size_param(params) is Err {
            lemma_bad_params_is_one_line(m, id, size_param(params)->Err_0);
        }
    } else if method == "quit"@ {
        reveal_strlit("{}");
        lemma_reply_is_one_line(id, "{}"@);
    } else {
        lemma_error_is_one_line(
            ErrorModel {
                id: Some(id),
                code: CODE_METHOD_NOT_FOUND,
                message: "method not found: "@ + method,
            },
        );
    }
}

/// The call that an output lets change something: a patch that is applied or
/// a command that is started.
pub open spec fn output_acts_for(o: OutputModel) -> Option<Seq<char>> {
    match o {
        OutputModel::ApplyPatch { call_id, .. } => Some(call_id),
        OutputModel::StartCommand { call_id, .. } => Some(call_id),
        _ => None,
    }
}

/// What is done or put in the queue for actions is done for one of them.
proof fn lemma_acts_for_actions(m: RpcModel, actions: Seq<ActionModel>)
    ensures
        forall|i: int|
            0 <= i < actions_step(m, actions).1.len() ==> (output_acts_for(
                #[trigger] actions_step(m, actions).1[i],
            ) matches Some(id) ==> exists|j: int|
                0 <= j < actions.len() && acts_for(#[trigger] actions[j]) == Some(id)),
        forall|k: int|
            0 <= k < actions_step(m, actions).0.queue.len() ==> m.queue.contains(
                #[trigger] actions_step(m, actions).0.queue[k],
            ) || exists|j: int|
                0 <= j < actions.len() && acts_for(#[trigger] actions[j]) == Some(
                    actions_step(m, actions).0.queue[k].call_id,
                ),
    decreases actions.len(),
{
    if actions.len() > 0 {
        let short = actions.drop_last();
        let last = actions.last();
        lemma_acts_for_actions(m, short);
        let (before, outputs) = actions_step(m, short);
        let (after, more) = action_step(before, last);
        assert(actions[actions.len() - 1] == last);
        assert forall|i: int| 0 <= i < (outputs + more).len() implies (output_acts_for(
            #[trigger] (outputs + more)[i],
        ) matches Some(id) ==> exists|j: int|
            0 <= j < actions.len() && acts_for(#[trigger] actions[j]) == Some(id)) by {
            let o = (outputs + more)[i];
            if let Some(id) = output_acts_for(o) {
                if i < outputs.len() {
                    assert(o == outputs[i]);
                    let j = choose|j: int|
                        0 <= j < short.len() && acts_for(#[trigger] short[j]) == Some(id);
                    assert(actions[j] == short[j]);
                } else {
                    assert(o == more[i - outputs.len()]);
                    assert(acts_for(actions[actions.len() - 1]) == Some(id));
                }
            }
        }
        assert forall|k: int| 0 <= k < after.queue.len() implies m.queue.contains(
            #[trigger] after.queue[k],
        ) || exists|j: int|
            0 <= j < actions.len() && acts_for(#[trigger] actions[j]) == Some(
                after.queue[k].call_id,
            ) by {
            let q = after.queue[k];
            lemma_queue_after(before, last, k);
            if acts_for(last) == Some(q.call_id) {
                assert(acts_for(actions[actions.len() - 1]) == Some(q.call_id));
            } else {
                let at = choose|at: int| 0 <= at < before.queue.len() && before.queue[at] == q;
                assert(before.queue[at] == q);
                if !m.queue.contains(q) {
                    let j = choose|j: int|
                        0 <= j < short.len() && acts_for(#[trigger] short[j]) == Some(q.call_id);
                    assert(actions[j] == short[j]);
                }
            }
        }
    }
}

/// A command stands in the queue that stood there before, or that an action
/// has just put there.
proof fn lemma_queue_after(m: RpcModel, a: ActionModel, k: int)
    requires
        0 <= k < action_step(m, a).0.queue.len(),
    ensures
        ({
            let q = action_step(m, a).0.queue[k];
            acts_for(a) == Some(q.call_id) || m.queue.contains(q)
        }),
{
    let after = action_step(m, a).0.queue;
    match a {
        ActionModel::CancelToolExecution { request } => {
            lemma_without_request(m.queue, request);
            assert(m.queue.contains(after[k]));
        },
        ActionModel::ExecuteCommand { .. } => {
            if m.active is Some && k < m.queue.len() {
                assert(after[k] == m.queue[k]);
            } else if m.active is None {
                assert(m.queue[k] == after[k]);
            }
        },
        _ => {
            assert(m.queue[k] == after[k]);
        },
    }
}

proof fn lemma_without_request(queue: Seq<QueuedModel>, request: RequestId)
    ensures
        forall|k: int|
            0 <= k < without_request(queue, request).len() ==> queue.contains(
                #[trigger] without_request(queue, request)[k],
            ),
    decreases queue.len(),
{
    if queue.len() > 0 {
        let short = queue.drop_last();
        lemma_without_request(short, request);
        let kept = without_request(queue, request);
        assert forall|k: int| 0 <= k < kept.len() implies queue.contains(#[trigger] kept[k]) by {
            let before = without_request(short, request);
            if k < before.len() {
                assert(kept[k] == before[k]);
                let j = choose|j: int| 0 <= j < short.len() && short[j] == kept[k];
                assert(queue[j] == kept[k]);
            } else {
                assert(queue[queue.len() - 1] == kept[k]);
            }
        }
    }
}

/// No patch is applied and no command is started or put in the queue but one
/// that the client has just approved.
pub proof fn law_only_approved_calls_run(m: RpcModel, event: EventModel, ts: u64)
    ensures
        forall|i: int|
            0 <= i < dispatch_step(m, event, ts).1.len() ==> (output_acts_for(
                #[trigger] dispatch_step(m, event, ts).1[i],
            ) matches Some(id) ==> event == EventModel::ApproveToolCall { call_id: id }),
        forall|k: int|
            0 <= k < dispatch_step(m, event, ts).0.queue.len() ==> m.queue.contains(
                #[trigger] dispatch_step(m, event, ts).0.queue[k],
            ) || event == (EventModel::ApproveToolCall {
                call_id: dispatch_step(m, event, ts).0.queue[k].call_id,
            }),
{
    let (core, actions) = step(m.core, event);
    let n = RpcModel { core, ..m };
    let (o, messages) = tell_messages(n, core.conversation.len(), ts);
    let (p, approval) = tell_approval(o, ts);
    let (q, outputs) = actions_step(p, actions);
    lemma_messages_are_quiet(n, core.conversation.len(), ts);
    lemma_approval_is_quiet(o, ts);
    lemma_acts_for_actions(p, actions);
    let first = event_notice(event, ts);
    let all = first + messages + approval + outputs;
    assert(dispatch_step(m, event, ts) == (q, all));
    assert forall|i: int| 0 <= i < all.len() implies (output_acts_for(#[trigger] all[i]) matches Some(
        id,
    ) ==> event == EventModel::ApproveToolCall { call_id: id }) by {
        if let Some(id) = output_acts_for(all[i]) {
            let told = first + messages + approval;
            if i < told.len() {
                lemma_told(n, event, ts, i);
                assert(all[i] == told[i]);
            } else {
                assert(all[i] == outputs[i - told.len()]);
                let j = choose|j: int|
                    0 <= j < actions.len() && acts_for(#[trigger] actions[j]) == Some(id);
                crate::sansio::agent::laws::law_only_approved_calls_run(m.core, event, j);
            }
        }
    }
    assert forall|k: int| 0 <= k < q.queue.len() implies m.queue.contains(#[trigger] q.queue[k])
        || event == (EventModel::ApproveToolCall { call_id: q.queue[k].call_id }) by {
        if !m.queue.contains(q.queue[k]) {
            let j = choose|j: int|
                0 <= j < actions.len() && acts_for(#[trigger] actions[j]) == Some(
                    q.queue[k].call_id,
                );
            crate::sansio::agent::laws::law_only_approved_calls_run(m.core, event, j);
        }
    }
}

/// What the client is told of an event is a notice.
proof fn lemma_told(n: RpcModel, event: EventModel, ts: u64, i: int)
    requires
        ({
            let (o, messages) = tell_messages(n, n.core.conversation.len(), ts);
            0 <= i < (event_notice(event, ts) + messages + tell_approval(o, ts).1).len()
        }),
    ensures
        ({
            let (o, messages) = tell_messages(n, n.core.conversation.len(), ts);
            (event_notice(event, ts) + messages + tell_approval(o, ts).1)[i] is Notice
        }),
{
    let (o, messages) = tell_messages(n, n.core.conversation.len(), ts);
    let first = event_notice(event, ts);
    lemma_messages_are_notices(n, n.core.conversation.len(), ts);
    if i < first.len() {
        assert((first + messages + tell_approval(o, ts).1)[i] == first[i]);
    } else if i < first.len() + messages.len() {
        assert((first + messages + tell_approval(o, ts).1)[i] == messages[i - first.len()]);
    }
}

proof fn lemma_messages_are_notices(m: RpcModel, n: nat, ts: u64)
    ensures
        forall|i: int|
            0 <= i < tell_messages(m, n, ts).1.len() ==> (#[trigger] tell_messages(
                m,
                n,
                ts,
            ).1[i]) is Notice,
    decreases n,
{
    if n > m.told {
        lemma_messages_are_notices(m, (n - 1) as nat, ts);
        let before = tell_messages(m, (n - 1) as nat, ts).1;
        let notice = message_notice(m.core.conversation[n - 1], ts);
        let all = tell_messages(m, n, ts).1;
        assert forall|i: int| 0 <= i < all.len() implies (#[trigger] all[i]) is Notice by {
            if i < before.len() {
                assert(all[i] == before[i]);
            } else {
                assert(all[i] == notice[i - before.len()]);
            }
        }
    }
}

} // verus!
