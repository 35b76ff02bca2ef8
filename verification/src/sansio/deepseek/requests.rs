//! What holds of requests as they are written.
use vstd::prelude::*;
use vstd::string::*;

use super::{
    call_json, message_json, tool_def_json, CallModel, ChatMessage, ChatRequest, MessageModel,
    ToolCall, ToolDef, ToolDefModel,
};
use crate::agent_cli::telling::{
    holds_text, lemma_holds_inner, lemma_holds_part, lemma_joined_holds,
};
use crate::json::{array_text, quoted};
use crate::model::deep;
use crate::text::{decimal, joined};

verus! {

proof fn lemma_array_holds(items: Seq<Seq<char>>, i: int)
    requires
        0 <= i < items.len(),
    ensures
        holds_text(array_text(items), items[i]),
{
    lemma_joined_holds(items, ","@, i);
    lemma_holds_part("["@, joined(items, ","@), "]"@, items[i]);
}

/// A message says whose it is, and holds its text whole. Only the text of an
/// assistant message that makes calls and says nothing is `null`.
pub proof fn law_messages_are_written_whole(m: &ChatMessage, r: String)
    requires
        call_ensures(ChatMessage::to_json_string, (m,), r),
    ensures
        match m@ {
            MessageModel::System(s) => r@ == "{\"role\":\"system\",\"content\":"@ + quoted(s)
                + "}"@,
            MessageModel::User(s) => r@ == "{\"role\":\"user\",\"content\":"@ + quoted(s) + "}"@,
            MessageModel::Assistant { content, reasoning_content, tool_calls } => {
                &&& content.len() > 0 || tool_calls.len() == 0 ==> holds_text(
                    r@,
                    "{\"role\":\"assistant\",\"content\":"@ + quoted(content),
                )
                &&& content.len() == 0 && tool_calls.len() > 0 ==> holds_text(
                    r@,
                    "{\"role\":\"assistant\",\"content\":"@ + "null"@,
                )
                &&& reasoning_content is Some ==> holds_text(
                    r@,
                    ",\"reasoning_content\":"@ + quoted(reasoning_content->0),
                )
            },
            MessageModel::Tool { tool_call_id, content } => holds_text(
                r@,
                "{\"role\":\"tool\",\"tool_call_id\":"@ + quoted(tool_call_id),
            ) && holds_text(r@, ",\"content\":"@ + quoted(content)),
        },
{
    let none = Seq::<char>::empty();
    match m@ {
        MessageModel::Assistant { content, reasoning_content, tool_calls } => {
            let says = "{\"role\":\"assistant\",\"content\":"@ + (if tool_calls.len() > 0
                && content.len() == 0 {
                "null"@
            } else {
                quoted(content)
            });
            let calls = if tool_calls.len() > 0 {
                ",\"tool_calls\":"@ + array_text(
                    tool_calls.map_values(|c: CallModel| call_json(c)),
                )
            } else {
                none
            };
            let thinks = match reasoning_content {
                Some(t) => ",\"reasoning_content\":"@ + quoted(t),
                None => none,
            };
            assert(r@ =~= (none + says) + (calls + thinks + "}"@));
            assert(r@ =~= ((says + calls) + thinks) + "}"@);
        },
        MessageModel::Tool { tool_call_id, content } => {
            let a = "{\"role\":\"tool\",\"tool_call_id\":"@ + quoted(tool_call_id);
            let b = ",\"content\":"@ + quoted(content);
            assert(r@ =~= (none + a) + (b + "}"@));
            assert(r@ =~= (a + b) + "}"@);
        },
        _ => {},
    }
}

/// A message that makes calls holds each of them.
pub proof fn law_calls_are_written_with_their_message(
    m: &ChatMessage,
    r: String,
    calls: Seq<CallModel>,
    i: int,
)
    requires
        call_ensures(ChatMessage::to_json_string, (m,), r),
        m@ is Assistant,
        m@->tool_calls == calls,
        0 <= i < calls.len(),
    ensures
        holds_text(r@, call_json(calls[i])),
{
    if let MessageModel::Assistant { content, reasoning_content, tool_calls } = m@ {
        let none = Seq::<char>::empty();
        let texts = calls.map_values(|c: CallModel| call_json(c));
        lemma_array_holds(texts, i);
        assert(texts[i] == call_json(calls[i]));
        let says = "{\"role\":\"assistant\",\"content\":"@ + (if content.len() == 0 {
            "null"@
        } else {
            quoted(content)
        });
        let thinks = match reasoning_content {
            Some(t) => ",\"reasoning_content\":"@ + quoted(t),
            None => none,
        };
        let list = array_text(texts);
        assert(r@ =~= ((says + ",\"tool_calls\":"@) + list) + (thinks + "}"@));
        lemma_holds_part(says + ",\"tool_calls\":"@, list, thinks + "}"@, call_json(calls[i]));
    }
}

/// A call is written with its id, its name and its arguments, each as a JSON
/// string.
pub proof fn law_calls_are_written(c: &ToolCall, r: String)
    requires
        call_ensures(ToolCall::to_json_string, (c,), r),
    ensures
        holds_text(r@, "{\"id\":"@ + quoted(c.id@)),
        holds_text(
            r@,
            "{\"name\":"@ + quoted(c.function_name@) + ",\"arguments\":"@ + quoted(
                c.arguments_json@,
            ) + "}}"@,
        ),
{
    let none = Seq::<char>::empty();
    reveal_strlit(",\"type\":\"function\",\"function\":{\"name\":");
    reveal_strlit(",\"type\":\"function\",\"function\":");
    reveal_strlit("{\"name\":");
    let mid = ",\"type\":\"function\",\"function\":"@;
    assert(",\"type\":\"function\",\"function\":{\"name\":"@ =~= mid + "{\"name\":"@);
    let id = "{\"id\":"@ + quoted(c.id@);
    let f = "{\"name\":"@ + quoted(c.function_name@) + ",\"arguments\":"@ + quoted(
        c.arguments_json@,
    ) + "}}"@;
    assert(r@ =~= (none + id) + (mid + f));
    assert(r@ =~= ((id + mid) + f) + none);
}

/// A tool is offered with its name, what it is for, and its parameters.
pub proof fn law_tools_are_written(d: &ToolDef, r: String)
    requires
        call_ensures(ToolDef::to_json_string, (d,), r),
    ensures
        holds_text(r@, quoted(d.name@)),
        holds_text(r@, quoted(d.description@)),
        holds_text(r@, d.parameters_json@),
{
    let a = "{\"type\":\"function\",\"function\":{\"name\":"@;
    let b = ",\"description\":"@;
    let c = ",\"parameters\":"@;
    let n = quoted(d.name@);
    let t = quoted(d.description@);
    let p = d.parameters_json@;
    assert(r@ =~= (a + n) + (b + t + c + p + "}}"@));
    assert(r@ =~= ((a + n + b) + t) + (c + p + "}}"@));
    assert(r@ =~= ((a + n + b + t + c) + p) + "}}"@);
}

/// A request holds the model, every message and every tool, and the cap on
/// the completion where there is one; it asks for a stream, and for what is
/// used.
pub proof fn law_requests_are_written_whole(q: &ChatRequest, r: String, i: int)
    requires
        call_ensures(ChatRequest::to_json_string, (q,), r),
    ensures
        holds_text(r@, "{\"model\":"@ + quoted(q.model@)),
        holds_text(r@, ",\"stream\":true,\"stream_options\":{\"include_usage\":true}"@),
        0 <= i < q.messages@.len() ==> holds_text(r@, message_json(q.messages@[i]@)),
        0 <= i < q.tools@.len() ==> holds_text(r@, tool_def_json(q.tools@[i]@)),
        q.max_tokens is Some ==> holds_text(
            r@,
            ",\"max_tokens\":"@ + decimal(q.max_tokens->0 as nat),
        ),
{
    let none = Seq::<char>::empty();
    let m = "{\"model\":"@ + quoted(q.model@);
    let messages = q@.messages.map_values(|m: MessageModel| message_json(m));
    let tools = q@.tools.map_values(|d: ToolDefModel| tool_def_json(d));
    let list = array_text(messages);
    let s = ",\"stream\":true,\"stream_options\":{\"include_usage\":true}"@;
    let t = if q@.tools.len() > 0 {
        ",\"tools\":"@ + array_text(tools)
    } else {
        none
    };
    let x = match q.max_tokens {
        Some(n) => ",\"max_tokens\":"@ + decimal(n as nat),
        None => none,
    };
    let k = ",\"messages\":"@;
    assert(r@ == m + k + list + s + t + x + "}"@);
    assert(r@ =~= (none + m) + (k + list + s + t + x + "}"@));
    assert(r@ =~= ((m + k) + list) + (s + t + x + "}"@));
    assert(r@ =~= ((m + k + list) + s) + (t + x + "}"@));
    assert(r@ =~= ((m + k + list + s) + t) + (x + "}"@));
    assert(r@ =~= ((m + k + list + s + t) + x) + "}"@);
    assert(q@.messages.len() == q.messages@.len());
    assert(q@.tools.len() == q.tools@.len());
    if 0 <= i < q.messages@.len() {
        lemma_array_holds(messages, i);
        assert(messages[i] == message_json(q.messages@[i]@));
        lemma_holds_part(m + k, list, s + t + x + "}"@, messages[i]);
    }
    if 0 <= i < q.tools@.len() {
        lemma_array_holds(tools, i);
        assert(tools[i] == tool_def_json(q.tools@[i]@));
        assert((",\"tools\":"@ + array_text(tools)) + none =~= t);
        lemma_holds_part(",\"tools\":"@, array_text(tools), none, tools[i]);
        lemma_holds_inner(r@, t, tools[i]);
    }
}

/// A request is made without tools and without a cap; each is added without
/// touching anything else.
pub proof fn law_requests_are_put_together(
    model: &str,
    messages: Vec<ChatMessage>,
    plain: ChatRequest,
    tools: Vec<ToolDef>,
    with_tools: ChatRequest,
    cap: Option<u64>,
    capped: ChatRequest,
)
    requires
        call_ensures(ChatRequest::new, (model, messages), plain),
        call_ensures(ChatRequest::with_tools, (plain, tools), with_tools),
        call_ensures(ChatRequest::with_max_tokens, (with_tools, cap), capped),
    ensures
        plain@.tools.len() == 0 && plain@.max_tokens is None,
        capped@.model == model@,
        capped@.messages == deep(messages@),
        capped@.tools == deep(tools@),
        capped@.max_tokens == cap,
{
}

} // verus!
