//! What a response amounts to once its chunks are put together.
use vstd::prelude::*;
use vstd::string::*;

use super::{
    absorbed, api_error_message, assembled, chat_completions_url, check_api_key, curl_args,
    curl_arguments, curl_failure, empty_assembly, endpoint, find_error_message, finished,
    format_curl_failure, shown, slots_with, slots_with_all, Assembly, AssemblyModel, CallError,
    CallErrorModel, CallResult, CurlStream, Shown, ShownModel, SlotModel, DEFAULT_BASE_URL,
};
use crate::json::{member, JsonDoc};
use crate::model::{deep, lemma_first_at, lemma_first_none, maybe};
use crate::sansio::agent::arguments::has_text;
use crate::sansio::deepseek::{
    payload_of, ChatMessage, ChunkModel, DeltaModel, MessageModel, PayloadModel, StreamChunk,
};
use crate::sansio::sse::{fed, lemma_events_shrink, next_event_of, DecoderModel, EventModel};
use crate::text::{lossy_text, trimmed, trimmed_end_of, views};

verus! {

/// Chunks, taken in one behind the other.
pub open spec fn all_absorbed(a: AssemblyModel, chunks: Seq<ChunkModel>) -> AssemblyModel
    decreases chunks.len(),
{
    if chunks.len() == 0 {
        a
    } else {
        absorbed(all_absorbed(a, chunks.drop_last()), chunks.last())
    }
}

/// The texts of deltas, one behind the other.
pub open spec fn put_together(deltas: Seq<Option<Seq<char>>>) -> Seq<char>
    decreases deltas.len(),
{
    if deltas.len() == 0 {
        Seq::empty()
    } else if deltas.last() is Some {
        put_together(deltas.drop_last()) + deltas.last()->0
    } else {
        put_together(deltas.drop_last())
    }
}

/// The deltas of content of chunks.
pub open spec fn content_deltas(chunks: Seq<ChunkModel>) -> Seq<Option<Seq<char>>> {
    chunks.map_values(|c: ChunkModel| c.content_delta)
}

/// The deltas of reasoning of chunks.
pub open spec fn reasoning_deltas(chunks: Seq<ChunkModel>) -> Seq<Option<Seq<char>>> {
    chunks.map_values(|c: ChunkModel| c.reasoning_delta)
}

/// A chunk puts its content behind the content and its reasoning behind the
/// reasoning, whole, be it only white space; its reason to stop and its usage
/// replace those that came before, where it has any.
pub proof fn law_chunks_are_taken_in_whole(a: AssemblyModel, c: ChunkModel)
    ensures
        ({
            let b = absorbed(a, c);
            &&& c.content_delta is Some ==> b.content == a.content + c.content_delta->0
            &&& c.content_delta is None ==> b.content == a.content
            &&& c.reasoning_delta is Some ==> b.reasoning == a.reasoning + c.reasoning_delta->0
            &&& c.reasoning_delta is None ==> b.reasoning == a.reasoning
            &&& c.finish_reason is Some ==> b.finish_reason == c.finish_reason
            &&& c.finish_reason is None ==> b.finish_reason == a.finish_reason
            &&& c.usage is Some ==> b.usage == c.usage
            &&& c.usage is None ==> b.usage == a.usage
            &&& c.tool_call_deltas.len() == 0 ==> b.slots == a.slots
        }),
{
}

/// The content of a response is that of all its chunks, in order and with
/// nothing left out, and so is its reasoning; a response without reasoning has
/// none.
pub proof fn law_responses_are_all_their_chunks(chunks: Seq<ChunkModel>)
    ensures
        ({
            let r = finished(all_absorbed(empty_assembly(), chunks));
            let thought = put_together(reasoning_deltas(chunks));
            &&& r.content == put_together(content_deltas(chunks))
            &&& thought.len() > 0 ==> r.reasoning_content == Some(thought)
            &&& thought.len() == 0 ==> r.reasoning_content is None
        }),
{
    lemma_all_absorbed(chunks);
}

proof fn lemma_all_absorbed(chunks: Seq<ChunkModel>)
    ensures
        all_absorbed(empty_assembly(), chunks).content == put_together(content_deltas(chunks)),
        all_absorbed(empty_assembly(), chunks).reasoning == put_together(reasoning_deltas(chunks)),
    decreases chunks.len(),
{
    if chunks.len() > 0 {
        let before = chunks.drop_last();
        lemma_all_absorbed(before);
        law_chunks_are_taken_in_whole(all_absorbed(empty_assembly(), before), chunks.last());
        assert(content_deltas(chunks).drop_last() =~= content_deltas(before));
        assert(reasoning_deltas(chunks).drop_last() =~= reasoning_deltas(before));
    }
}

/// The result of a response holds its content, its calls in the order in which
/// they began, why it stopped and what it used, as they came.
pub proof fn law_results_hold_the_response(a: AssemblyModel)
    ensures
        finished(a).content == a.content,
        finished(a).finish_reason == a.finish_reason,
        finished(a).usage == a.usage,
        finished(a).tool_calls.len() == a.slots.len(),
        forall|i: int|
            0 <= i < a.slots.len() ==> #[trigger] finished(a).tool_calls[i] == a.slots[i].call,
        a.reasoning.len() == 0 <==> finished(a).reasoning_content is None,
        a.reasoning.len() > 0 ==> finished(a).reasoning_content == Some(a.reasoning),
{
}

/// A fragment of a call that has begun is put behind the arguments that came
/// before; the first id and the first name that are not empty stay. All other
/// calls stay as they are.
pub proof fn law_fragments_go_to_their_call(slots: Seq<SlotModel>, d: DeltaModel, k: int)
    requires
        0 <= k < slots.len(),
        slots[k].index == d.index,
        forall|j: int| 0 <= j < k ==> (#[trigger] slots[j]).index != d.index,
    ensures
        ({
            let after = slots_with(slots, d);
            let c = slots[k].call;
            let e = after[k].call;
            &&& after.len() == slots.len()
            &&& forall|j: int| 0 <= j < slots.len() && j != k ==> #[trigger] after[j] == slots[j]
            &&& after[k].index == d.index
            &&& d.arguments_fragment is Some ==> e.arguments_json == c.arguments_json
                + d.arguments_fragment->0
            &&& d.arguments_fragment is None ==> e.arguments_json == c.arguments_json
            &&& e.id == (if c.id.len() == 0 && d.id is Some {
                d.id->0
            } else {
                c.id
            })
            &&& e.function_name == (if c.function_name.len() == 0 && d.function_name is Some {
                d.function_name->0
            } else {
                c.function_name
            })
        }),
{
    let f = |i: int|
        if slots[i].index == d.index {
            Some(i)
        } else {
            None
        };
    assert forall|i: int| 0 <= i < k implies #[trigger] f(i) is None by {
        assert(slots[i].index != d.index);
    }
    lemma_first_at(slots.len() as int, f, k);
}

/// A fragment with a new index begins a call, behind the others.
pub proof fn law_new_indices_begin_calls(slots: Seq<SlotModel>, d: DeltaModel)
    requires
        forall|j: int| 0 <= j < slots.len() ==> (#[trigger] slots[j]).index != d.index,
    ensures
        ({
            let after = slots_with(slots, d);
            let c = after.last().call;
            let or_empty = |s: Option<Seq<char>>| if s is Some {
                s->0
            } else {
                Seq::<char>::empty()
            };
            &&& after.len() == slots.len() + 1
            &&& after.drop_last() == slots
            &&& after.last().index == d.index
            &&& c.id == or_empty(d.id)
            &&& c.function_name == or_empty(d.function_name)
            &&& c.arguments_json == or_empty(d.arguments_fragment)
        }),
{
    let f = |i: int|
        if slots[i].index == d.index {
            Some(i)
        } else {
            None
        };
    assert forall|i: int| 0 <= i < slots.len() implies #[trigger] f(i) is None by {
        assert(slots[i].index != d.index);
    }
    lemma_first_none(slots.len() as int, f);
    let after = slots_with(slots, d);
    assert(after.drop_last() =~= slots);
    if d.arguments_fragment is Some {
        assert(after.last().call.arguments_json =~= d.arguments_fragment->0);
    }
}

/// The fragments of a chunk are taken in one after the other.
pub proof fn law_fragments_come_in_order(slots: Seq<SlotModel>, deltas: Seq<DeltaModel>, d: DeltaModel)
    ensures
        slots_with_all(slots, Seq::<DeltaModel>::empty()) == slots,
        slots_with_all(slots, deltas.push(d)) == slots_with(slots_with_all(slots, deltas), d),
{
    assert(deltas.push(d).drop_last() =~= deltas);
}

/// The user is shown the content of a chunk and then its reasoning, as they
/// are.
pub proof fn law_chunks_are_shown(c: ChunkModel)
    ensures
        c.content_delta is Some && c.reasoning_delta is Some ==> shown(c) == seq![
            ShownModel::Content(c.content_delta->0),
            ShownModel::Reasoning(c.reasoning_delta->0),
        ],
        c.content_delta is Some && c.reasoning_delta is None ==> shown(c) == seq![
            ShownModel::Content(c.content_delta->0),
        ],
        c.content_delta is None && c.reasoning_delta is Some ==> shown(c) == seq![
            ShownModel::Reasoning(c.reasoning_delta->0),
        ],
        c.content_delta is None && c.reasoning_delta is None ==> shown(c).len() == 0,
{
    if c.content_delta is Some && c.reasoning_delta is Some {
        assert(shown(c) =~= seq![
            ShownModel::Content(c.content_delta->0),
            ShownModel::Reasoning(c.reasoning_delta->0),
        ]);
    } else if c.content_delta is Some {
        assert(shown(c) =~= seq![ShownModel::Content(c.content_delta->0)]);
    } else if c.reasoning_delta is Some {
        assert(shown(c) =~= seq![ShownModel::Reasoning(c.reasoning_delta->0)]);
    }
}

/// Each event of a stream has its effect, in order: a chunk is taken in and
/// shown before what follows, a comment changes nothing, and the end of the
/// stream or an error stops it there, with what has come in so far.
pub proof fn law_events_take_effect_in_order(sse: DecoderModel, a: AssemblyModel)
    ensures
        ({
            let (after, next) = next_event_of(sse);
            let (end, b, out, r) = assembled(sse, a);
            match next {
                Err(_) => b == a && out.len() == 0 && r is Err,
                Ok(None) => b == a && out.len() == 0 && r == Ok::<bool, Seq<char>>(false),
                Ok(Some(EventModel::Comment(_))) => (end, b, out, r) == assembled(after, a),
                Ok(Some(EventModel::Message { data })) => match payload_of(data) {
                    Err(_) => b == a && out.len() == 0 && r is Err,
                    Ok(PayloadModel::Done) => b == a && out.len() == 0 && r == Ok::<
                        bool,
                        Seq<char>,
                    >(true),
                    Ok(PayloadModel::Chunk(c)) => {
                        let rest = assembled(after, absorbed(a, c));
                        end == rest.0 && b == rest.1 && out == shown(c) + rest.2 && r == rest.3
                    },
                },
            }
        }),
{
    lemma_events_shrink(sse);
    let (after, next) = next_event_of(sse);
    if next matches Ok(Some(EventModel::Comment(_))) {
        let rest = assembled(after, a);
        assert(Seq::<ShownModel>::empty() + rest.2 =~= rest.2);
    }
}

/// A request goes to the path for chats below its base, however many slashes
/// end the base; without a base it goes to the usual server, and an empty base
/// is refused.
pub proof fn law_endpoints_lie_below_the_base(base: Seq<char>)
    requires
        base.len() > 0,
    ensures
        endpoint(Some(base + seq!['/'])) == endpoint(Some(base)),
        base.last() != '/' ==> endpoint(Some(base)) == Ok::<Seq<char>, CallErrorModel>(
            base + "/chat/completions"@,
        ),
        endpoint(None) == Ok::<Seq<char>, CallErrorModel>(
            "https://api.deepseek.com"@ + "/chat/completions"@,
        ),
        endpoint(Some(Seq::empty())) is Err,
{
    reveal_strlit("https://api.deepseek.com");
    let more = base + seq!['/'];
    assert(more.drop_last() =~= base);
    assert(trimmed_end_of(more, '/') == trimmed_end_of(base, '/'));
}

/// The child process is given the key and the endpoint as they are, each once.
pub proof fn law_child_processes_get_key_and_endpoint(key: Seq<char>, url: Seq<char>)
    ensures
        ({
            let v = curl_arguments(key, url);
            &&& v.last() == url
            &&& exists|i: int|
                0 < i < v.len() - 1 && #[trigger] v[i] == "Authorization: Bearer "@ + key && v[i
                    - 1] == "-H"@
            &&& v.contains("--fail-with-body"@)
            &&& v[v.len() - 3] == "--data-binary"@ && v[v.len() - 2] == "@-"@
        }),
{
    let v = curl_arguments(key, url);
    assert(v[4] == "Authorization: Bearer "@ + key && v[3] == "-H"@);
    assert(v[2] == "--fail-with-body"@);
}

/// A call that fails is told apart by what the server says of it; where it says
/// nothing, by what it sent; where it sent nothing, by what the child process
/// says.
pub proof fn law_failures_tell_the_best_reason(status: Seq<char>, body: Seq<u8>, stderr: Seq<char>)
    ensures
        ({
            let text = lossy_text(body);
            let said = api_error_message(text);
            let why = curl_failure(status, body, stderr);
            &&& said is Some ==> why == "API request failed: "@ + said->0
            &&& said is None && trimmed(text).len() > 0 ==> why == "curl exited with "@ + status
                + ": "@ + trimmed(text)
            &&& said is None && trimmed(text).len() == 0 && stderr.len() > 0 ==> why
                == "curl exited with "@ + status + ": "@ + stderr
            &&& said is None && trimmed(text).len() == 0 && stderr.len() == 0 ==> why
                == "curl exited with "@ + status
        }),
{
}

/// To take in a chunk is to put its content and its reasoning behind what came
/// before, whole, and to show them.
pub proof fn law_taking_in_a_chunk(
    assembly: &mut Assembly,
    chunk: StreamChunk,
    out: &mut Vec<Shown>,
)
    requires
        call_ensures(Assembly::absorb_chunk, (assembly, chunk, out), ()),
    ensures
        final(assembly)@.content == (if chunk.content_delta is Some {
            old(assembly)@.content + chunk.content_delta->0@
        } else {
            old(assembly)@.content
        }),
        final(assembly)@.reasoning == (if chunk.reasoning_delta is Some {
            old(assembly)@.reasoning + chunk.reasoning_delta->0@
        } else {
            old(assembly)@.reasoning
        }),
        chunk.tool_call_deltas@.len() == 0 ==> final(assembly)@.slots == old(assembly)@.slots,
        deep(final(out)@) == deep(old(out)@) + shown(chunk@),
{
    law_chunks_are_taken_in_whole(old(assembly)@, chunk@);
    if chunk.tool_call_deltas@.len() == 0 {
        assert(deep(chunk.tool_call_deltas@).len() == 0);
    }
}

/// The result of a stream holds all that was taken in: its content is that of
/// the assembly, and so is each of its calls.
pub proof fn law_finishing_a_stream(stream: CurlStream, r: CallResult)
    requires
        call_ensures(CurlStream::finish, (stream,), r),
    ensures
        r.content@ == stream@.assembly.content,
        r.reasoning_content is None <==> stream@.assembly.reasoning.len() == 0,
        r.reasoning_content is Some ==> r.reasoning_content->0@ == stream@.assembly.reasoning,
        r.tool_calls@.len() == stream@.assembly.slots.len(),
        forall|i: int|
            0 <= i < r.tool_calls@.len() ==> (#[trigger] r.tool_calls@[i])@
                == stream@.assembly.slots[i].call,
        r.usage == stream@.assembly.usage,
{
    law_results_hold_the_response(stream@.assembly);
    assert(r@.tool_calls.len() == r.tool_calls@.len());
    assert forall|i: int| 0 <= i < r.tool_calls@.len() implies (#[trigger] r.tool_calls@[i])@
        == stream@.assembly.slots[i].call by {
        assert(r@.tool_calls[i] == r.tool_calls@[i]@);
    }
}

/// Bytes that are received are kept, and have the effect of the events in them,
/// behind those that came before.
pub proof fn law_receiving_bytes(
    stream: &mut CurlStream,
    bytes: &[u8],
    r: (Vec<Shown>, Result<bool, String>),
)
    requires
        call_ensures(CurlStream::receive, (stream, bytes), r),
    ensures
        ({
            let (sse, a, out, end) = assembled(
                fed(old(stream)@.sse, bytes@),
                old(stream)@.assembly,
            );
            &&& final(stream)@.raw_body == old(stream)@.raw_body + bytes@
            &&& final(stream)@.assembly == a
            &&& final(stream)@.sse == sse
            &&& deep(r.0@) == out
            &&& r.1 is Err <==> end is Err
            &&& r.1 is Ok ==> end == Ok::<bool, Seq<char>>(r.1->Ok_0)
        }),
{
}

/// A stream starts with nothing.
pub proof fn law_streams_start_empty(stream: CurlStream)
    requires
        call_ensures(CurlStream::new, (), stream),
    ensures
        stream@.raw_body.len() == 0,
        stream@.assembly.content.len() == 0,
        stream@.assembly.reasoning.len() == 0,
        stream@.assembly.slots.len() == 0,
        stream@.assembly.usage is None,
        stream@.sse.buf.len() == 0,
        stream@.sse.limit == 1024 * 1024,
        stream@.sse.error is None,
{
}

/// Without a base the usual one is taken, and an empty one is refused. The
/// endpoint is the base without slashes at its end, with the path behind it.
pub proof fn law_finding_the_endpoint(base: Option<&str>, r: Result<String, CallError>, b: Seq<char>)
    requires
        call_ensures(chat_completions_url, (base,), r),
    ensures
        base is Some && base->0@.len() == 0 ==> r is Err,
        base is None ==> r is Ok,
        base is Some && base->0@.len() > 0 ==> r is Ok,
        base is Some && base->0@ == b && b.len() > 0 && b.last() != '/' ==> r->Ok_0@ == b
            + "/chat/completions"@,
        base is Some && base->0@ == b.push('/') && b.len() > 0 && b.last() != '/' ==> r->Ok_0@ == b
            + "/chat/completions"@,
{
    if base is Some && base->0@ == b.push('/') {
        assert(b.push('/').drop_last() =~= b);
        assert(b.push('/').last() == '/');
        reveal_with_fuel(crate::text::trimmed_end_of, 2);
    }
    reveal_strlit("https://api.deepseek.com");
    assert(DEFAULT_BASE_URL@.len() > 0);
}

/// A key is needed, and it must not be empty.
pub proof fn law_keys_are_needed(key: Option<&str>, r: Result<(), CallError>)
    requires
        call_ensures(check_api_key, (key,), r),
    ensures
        r is Ok <==> key is Some && key->0@.len() > 0,
{
}

/// The child process is handed the key and the endpoint, reads the body from
/// its standard input, and fails on an error status.
pub proof fn law_child_processes_are_started(key: &str, url: &str, r: Vec<String>)
    requires
        call_ensures(curl_args, (key, url), r),
    ensures
        r@.len() > 0 && r@[r@.len() - 1]@ == url@,
        views(r@).contains("Authorization: Bearer "@ + key@),
        views(r@).contains("--fail-with-body"@),
        views(r@).contains("@-"@),
{
    let v = views(r@);
    assert(v.len() == r@.len());
    assert(v[r@.len() - 1] == r@[r@.len() - 1]@);
    assert(v[2] == "--fail-with-body"@);
    assert(v[4] == "Authorization: Bearer "@ + key@);
    assert(v[10] == "@-"@);
}

/// The message of an error document is what stands there, unless it is
/// empty or no text.
pub proof fn law_error_messages_are_found(doc: &JsonDoc, r: Option<String>)
    requires
        doc.wf(),
        call_ensures(find_error_message, (doc,), r),
    ensures
        r matches Some(s) ==> s@.len() > 0 && (member(doc@, 0, "error"@) matches Ok(Some(e))
            && has_text(doc@, e, "message"@, s@)),
        member(doc@, 0, "error"@) matches Ok(Some(e)) ==> (member(doc@, e, "message"@) matches Ok(
            Some(m),
        ) ==> (doc@[m].kind is String && doc@[m].text.len() > 0 ==> r is Some)),
{
    assert(maybe(r) is Some <==> r is Some);
}

/// A failure is told by what the server said, else by what it sent, else by
/// what the child process said.
pub proof fn law_telling_a_failure(status: &str, body: &[u8], stderr: &str, r: String)
    requires
        call_ensures(format_curl_failure, (status, body, stderr), r),
    ensures
        ({
            let text = lossy_text(body@);
            let said = api_error_message(text);
            &&& said is Some ==> r@ == "API request failed: "@ + said->0
            &&& said is None && trimmed(text).len() > 0 ==> r@ == "curl exited with "@ + status@
                + ": "@ + trimmed(text)
            &&& said is None && trimmed(text).len() == 0 && stderr@.len() > 0 ==> r@
                == "curl exited with "@ + status@ + ": "@ + stderr@
            &&& said is None && trimmed(text).len() == 0 && stderr@.len() == 0 ==> r@
                == "curl exited with "@ + status@
        }),
{
}

/// A result becomes an assistant message with all that it says, reasons and
/// calls.
pub proof fn law_results_become_messages(result: CallResult, r: ChatMessage)
    requires
        call_ensures(CallResult::into_assistant, (result,), r),
    ensures
        r@ == (MessageModel::Assistant {
            content: result.content@,
            reasoning_content: maybe(result.reasoning_content),
            tool_calls: deep(result.tool_calls@),
        }),
{
}

} // verus!
