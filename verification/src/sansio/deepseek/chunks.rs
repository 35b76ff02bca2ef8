//! Where the parts of a chunk come from.
use vstd::prelude::*;
use vstd::string::*;

use super::{
    chunk_of, decode_stream_payload, delta_of, deltas_of, payload_of, DeltaModel, PayloadModel,
    StreamChunk, StreamPayload,
};
use crate::json::{
    elements, member, nullable_string, parsed, read_list, required, unsigned, JsonDoc, JsonError,
    NodeModel,
};
use crate::text::trimmed;

verus! {

/// A member that is absent, or a string or null.
pub open spec fn text_at(doc: Seq<NodeModel>, i: int, name: Seq<char>) -> Option<Seq<char>> {
    match member(doc, i, name) {
        Ok(Some(j)) => match nullable_string(doc, j) {
            Ok(s) => s,
            Err(_) => None,
        },
        _ => None,
    }
}

/// The content of a chunk, its reasoning and its fragments are those of the
/// delta of its first choice, and its reason to stop is that of the choice.
pub proof fn law_chunks_come_from_the_first_choice(
    doc: Seq<NodeModel>,
    choices: int,
    at: Seq<int>,
    delta: int,
)
    requires
        member(doc, 0, "choices"@) == Ok::<Option<int>, Seq<char>>(Some(choices)),
        elements(doc, choices) == Ok::<Seq<int>, Seq<char>>(at),
        at.len() > 0,
        member(doc, at[0], "delta"@) == Ok::<Option<int>, Seq<char>>(Some(delta)),
    ensures
        chunk_of(doc) matches Ok(c) ==> {
            &&& c.content_delta == text_at(doc, delta, "content"@)
            &&& c.reasoning_delta == text_at(doc, delta, "reasoning_content"@)
            &&& c.finish_reason == text_at(doc, at[0], "finish_reason"@)
            &&& deltas_of(doc, delta) == Ok::<Seq<DeltaModel>, Seq<char>>(c.tool_call_deltas)
        },
{
}

/// A chunk without a choice holds nothing but what was used.
pub proof fn law_chunks_without_a_choice_hold_usage(doc: Seq<NodeModel>)
    requires
        member(doc, 0, "choices"@) == Ok::<Option<int>, Seq<char>>(None),
    ensures
        chunk_of(doc) matches Ok(c) ==> c.content_delta is None && c.reasoning_delta is None
            && c.tool_call_deltas.len() == 0 && c.finish_reason is None,
{
}

/// A fragment holds the index, the id, the name and the arguments that stand in
/// it.
pub proof fn law_fragments_hold_what_stands_in_them(doc: Seq<NodeModel>, i: int, f: int)
    requires
        member(doc, i, "function"@) == Ok::<Option<int>, Seq<char>>(Some(f)),
    ensures
        delta_of(doc, i) matches Ok(d) ==> {
            &&& required(doc, i, "index"@) is Ok
            &&& unsigned(doc, required(doc, i, "index"@)->Ok_0, u64::MAX as int) is Ok
            &&& d.index == unsigned(doc, required(doc, i, "index"@)->Ok_0, u64::MAX as int)->Ok_0
                as u64
            &&& d.id == text_at(doc, i, "id"@)
            &&& d.function_name == text_at(doc, f, "name"@)
            &&& d.arguments_fragment == text_at(doc, f, "arguments"@)
        },
{
}

/// The stream ends with `[DONE]`, whatever white space stands around it, and
/// with nothing else.
pub proof fn law_streams_end_with_done(data: Seq<char>)
    ensures
        payload_of(data) == Ok::<PayloadModel, Seq<char>>(PayloadModel::Done) <==> trimmed(data)
            == "[DONE]"@,
        trimmed(data) != "[DONE]"@ && parsed(data) is Err ==> payload_of(data) is Err,
        trimmed(data) != "[DONE]"@ && parsed(data) is Ok && chunk_of(parsed(data)->Ok_0) is Ok
            ==> payload_of(data) == Ok::<PayloadModel, Seq<char>>(
            PayloadModel::Chunk(chunk_of(parsed(data)->Ok_0)->Ok_0),
        ),
{
}

/// A chunk is read out of its document: the content, the reasoning and the
/// reason to stop are those of its first choice.
pub proof fn law_reading_a_chunk(
    doc: &JsonDoc,
    r: Result<StreamChunk, JsonError>,
    choices: int,
    delta: int,
)
    requires
        doc.wf(),
        call_ensures(StreamChunk::from_json, (doc,), r),
        member(doc@, 0, "choices"@) == Ok::<Option<int>, Seq<char>>(Some(choices)),
        doc@[choices].kind is Array,
        doc@[choices].elements.len() > 0,
        member(doc@, doc@[choices].elements[0], "delta"@) == Ok::<Option<int>, Seq<char>>(
            Some(delta),
        ),
    ensures
        r matches Ok(c) ==> {
            &&& c@.content_delta == text_at(doc@, delta, "content"@)
            &&& c@.reasoning_delta == text_at(doc@, delta, "reasoning_content"@)
            &&& c@.finish_reason == text_at(doc@, doc@[choices].elements[0], "finish_reason"@)
            &&& member(doc@, delta, "tool_calls"@) == Ok::<Option<int>, Seq<char>>(None)
                ==> c@.tool_call_deltas.len() == 0
            &&& member(doc@, delta, "tool_calls"@) matches Ok(Some(j))
                ==> c@.tool_call_deltas.len() == doc@[j].elements.len() && forall|k: int|
                0 <= k < doc@[j].elements.len() ==> delta_of(
                    doc@,
                    #[trigger] doc@[j].elements[k],
                ) == Ok::<DeltaModel, Seq<char>>(c@.tool_call_deltas[k])
        },
{
    law_chunks_come_from_the_first_choice(doc@, choices, doc@[choices].elements, delta);
    if let Ok(c) = r {
        if let Ok(Some(j)) = member(doc@, delta, "tool_calls"@) {
            let read = |k: int| delta_of(doc@, k);
            lemma_each(doc@[j].elements, read);
            assert(read_list(doc@[j].elements, read) == Ok::<Seq<DeltaModel>, Seq<char>>(
                c@.tool_call_deltas,
            ));
            assert forall|k: int| 0 <= k < doc@[j].elements.len() implies delta_of(
                doc@,
                #[trigger] doc@[j].elements[k],
            ) == Ok::<DeltaModel, Seq<char>>(c@.tool_call_deltas[k]) by {
                assert(read(doc@[j].elements[k]) == Ok::<DeltaModel, Seq<char>>(
                    c@.tool_call_deltas[k],
                ));
            }
        }
    }
}

proof fn lemma_each<T>(at: Seq<int>, read: spec_fn(int) -> Result<T, Seq<char>>)
    ensures
        read_list(at, read) matches Ok(v) ==> {
            &&& v.len() == at.len()
            &&& forall|k: int|
                0 <= k < at.len() ==> read(#[trigger] at[k]) == Ok::<T, Seq<char>>(v[k])
        },
    decreases at.len(),
{
    if at.len() > 0 {
        let front = at.drop_last();
        lemma_each(front, read);
        if let Ok(v) = read_list(at, read) {
            let earlier = read_list(front, read)->Ok_0;
            assert(v == earlier.push(v.last()));
            assert forall|k: int| 0 <= k < at.len() implies read(#[trigger] at[k]) == Ok::<
                T,
                Seq<char>,
            >(v[k]) by {
                if k < front.len() {
                    assert(front[k] == at[k]);
                    assert(earlier[k] == v[k]);
                }
            }
        }
    }
}

/// The count that a member writes; none where it is absent or null.
pub open spec fn count_at(doc: Seq<NodeModel>, i: int, name: Seq<char>) -> Option<u64> {
    match member(doc, i, name) {
        Ok(Some(j)) => if trimmed(doc[j].raw) == "null"@ {
            None
        } else {
            match unsigned(doc, j, u64::MAX as int) {
                Ok(n) => Some(n as u64),
                Err(_) => None,
            }
        },
        _ => None,
    }
}

/// What was used is read from the member of that name, each count from its
/// own.
pub proof fn law_usage_is_read(doc: &JsonDoc, r: Result<StreamChunk, JsonError>, u: int)
    requires
        doc.wf(),
        call_ensures(StreamChunk::from_json, (doc,), r),
        member(doc@, 0, "usage"@) == Ok::<Option<int>, Seq<char>>(Some(u)),
    ensures
        r matches Ok(c) ==> (trimmed(doc@[u].raw) == "null"@ ==> c@.usage is None) && (trimmed(
            doc@[u].raw,
        ) != "null"@ ==> c@.usage is Some && c@.usage->0.prompt_tokens == count_at(
            doc@,
            u,
            "prompt_tokens"@,
        ) && c@.usage->0.completion_tokens == count_at(doc@, u, "completion_tokens"@)
            && c@.usage->0.total_tokens == count_at(doc@, u, "total_tokens"@)
            && c@.usage->0.prompt_cache_hit_tokens == count_at(doc@, u, "prompt_cache_hit_tokens"@)
            && c@.usage->0.prompt_cache_miss_tokens == count_at(
            doc@,
            u,
            "prompt_cache_miss_tokens"@,
        )),
{
}

/// A payload is the end of the stream or a chunk, as it stands.
pub proof fn law_decoding_a_payload(data: &str, r: Result<StreamPayload, JsonError>)
    requires
        call_ensures(decode_stream_payload, (data,), r),
    ensures
        r is Ok && r->Ok_0@ is Done <==> trimmed(data@) == "[DONE]"@,
        trimmed(data@) != "[DONE]"@ && parsed(data@) is Err ==> r is Err && r->Err_0@ == parsed(
            data@,
        )->Err_0,
        r is Ok && trimmed(data@) != "[DONE]"@ ==> parsed(data@) is Ok && r->Ok_0@
            == PayloadModel::Chunk(chunk_of(parsed(data@)->Ok_0)->Ok_0),
{
    law_streams_end_with_done(data@);
}

} // verus!
