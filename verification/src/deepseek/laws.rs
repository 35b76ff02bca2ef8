//! What comes of a response as it is received.
use vstd::prelude::*;
use vstd::string::*;

use super::http::{decoded_head, held_bytes, HttpStep};
use super::{
    chat_post, chunk_events, encode_chat_request, events_in, received, translate_payload,
    translate_sse_event, translated, ReadNext, SecretString, StreamEvent, StreamEventModel,
    StreamModel, TransportError, TransportErrorModel, TransportMetrics,
};
use crate::agent_cli::telling::holds_text;
use crate::model::deep;
use crate::sansio::deepseek::{payload_of, ChunkModel, PayloadModel, StreamPayload};
use crate::sansio::sse::{lemma_events_shrink, next_event_of, DecoderModel, EventModel, SseEvent};
use crate::text::decimal;

verus! {

/// A chunk comes out as its content, its reasoning, its fragments in order, and
/// its end: all that it holds, and nothing else. What is empty makes no event.
pub proof fn law_chunks_come_out_whole(c: ChunkModel)
    ensures
        ({
            let out = chunk_events(c);
            let a: int = if c.content_delta is Some && c.content_delta->0.len() > 0 {
                1
            } else {
                0
            };
            let b: int = if c.reasoning_delta is Some && c.reasoning_delta->0.len() > 0 {
                1
            } else {
                0
            };
            let n = c.tool_call_deltas.len() as int;
            let e: int = if c.finish_reason is Some {
                1
            } else {
                0
            };
            &&& out.len() == a + b + n + e
            &&& a == 1 ==> out[0] == StreamEventModel::ContentDelta(c.content_delta->0)
            &&& b == 1 ==> out[a] == StreamEventModel::ReasoningDelta(c.reasoning_delta->0)
            &&& forall|i: int|
                0 <= i < n ==> out[a + b + i] == StreamEventModel::ToolCallDelta(
                    #[trigger] c.tool_call_deltas[i],
                )
            &&& e == 1 ==> out.last() == StreamEventModel::Finish { reason: c.finish_reason }
        }),
{
}

/// A comment comes out as one; the end of the stream makes no event and ends
/// it; a chunk does not end it; and what cannot be read is an error.
pub proof fn law_events_are_translated(text: Seq<char>, data: Seq<char>)
    ensures
        translated(EventModel::Comment(text)) == Ok::<
            (Seq<StreamEventModel>, bool),
            TransportErrorModel,
        >((seq![StreamEventModel::Comment(text)], false)),
        match payload_of(data) {
            Err(e) => translated(EventModel::Message { data }) == Err::<
                (Seq<StreamEventModel>, bool),
                TransportErrorModel,
            >(TransportErrorModel::Payload(e)),
            Ok(PayloadModel::Done) => translated(EventModel::Message { data }) is Ok
                && translated(EventModel::Message { data })->Ok_0.0.len() == 0 && translated(
                EventModel::Message { data },
            )->Ok_0.1,
            Ok(PayloadModel::Chunk(c)) => translated(EventModel::Message { data }) is Ok
                && translated(EventModel::Message { data })->Ok_0.0 == chunk_events(c)
                && !translated(EventModel::Message { data })->Ok_0.1,
        },
{
}

/// The events of a stream come out in order up to its end or the first error,
/// and none behind that.
pub proof fn law_events_come_out_in_order(sse: DecoderModel)
    ensures
        ({
            let (after, next) = next_event_of(sse);
            let (end, out, r) = events_in(sse);
            match next {
                Err(e) => out.len() == 0 && r == Err::<bool, TransportErrorModel>(
                    TransportErrorModel::Sse(e),
                ),
                Ok(None) => out.len() == 0 && r == Ok::<bool, TransportErrorModel>(false),
                Ok(Some(event)) => match translated(event) {
                    Err(e) => out.len() == 0 && r == Err::<bool, TransportErrorModel>(e),
                    Ok((events, true)) => out == events && r == Ok::<bool, TransportErrorModel>(
                        true,
                    ),
                    Ok((events, false)) => (end, out, r) == (
                        events_in(after).0,
                        events + events_in(after).1,
                        events_in(after).2,
                    ),
                },
            }
        }),
{
    lemma_events_shrink(sse);
}

/// A server that closes the connection before the body is complete is an error,
/// and a status other than 200 is one, which is told; nothing comes out of
/// either.
pub proof fn law_failed_responses_are_errors(m: StreamModel, bytes: Seq<u8>)
    ensures
        bytes.len() == 0 && !m.body_complete ==> received(m, bytes).2 == Err::<
            ReadNext,
            TransportErrorModel,
        >(TransportErrorModel::ServerClosedBeforeDone),
        bytes.len() == 0 && m.body_complete ==> received(m, bytes).2 == Ok::<
            ReadNext,
            TransportErrorModel,
        >(ReadNext::Finished),
        bytes.len() == 0 ==> received(m, bytes).1.len() == 0,
        ({
            let fed = m.http.push(HttpStep::Fed(bytes));
            bytes.len() > 0 && !m.headers_parsed && held_bytes(m.http).len() + bytes.len()
                <= super::http::BUFFER_MAX ==> match decoded_head(fed) {
                Ok(Some(status)) => status != 200 ==> received(m, bytes).1.len() == 0 && received(
                    m,
                    bytes,
                ).2 == Err::<ReadNext, TransportErrorModel>(
                    TransportErrorModel::UnexpectedStatus { status },
                ),
                Ok(None) => received(m, bytes).1.len() == 0 && received(m, bytes).2 == Ok::<
                    ReadNext,
                    TransportErrorModel,
                >(ReadNext::More),
                Err(e) => received(m, bytes).1.len() == 0 && received(m, bytes).2 == Err::<
                    ReadNext,
                    TransportErrorModel,
                >(TransportErrorModel::HttpDecode(e)),
            }
        }),
{
}

/// A stream is finished exactly once its end has been read; a body that is
/// complete before that is an error, and nothing else stops the reading.
pub proof fn law_streams_finish_at_their_end(m: StreamModel, bytes: Seq<u8>)
    requires
        bytes.len() > 0,
    ensures
        ({
            let (n, out, r) = received(m, bytes);
            &&& r == Ok::<ReadNext, TransportErrorModel>(ReadNext::Finished) ==> n.stream_done
            &&& r == Ok::<ReadNext, TransportErrorModel>(ReadNext::More) ==> (n.stream_done
                ==> !n.headers_parsed)
            &&& r == Ok::<ReadNext, TransportErrorModel>(ReadNext::More) && n.headers_parsed
                ==> !n.body_complete
            &&& r == Err::<ReadNext, TransportErrorModel>(
                TransportErrorModel::ServerClosedBeforeDone,
            ) ==> n.body_complete && !n.stream_done
        }),
{
    let fed = m.http.push(HttpStep::Fed(bytes));
    let n = if m.headers_parsed {
        fed
    } else {
        fed.push(HttpStep::Headers)
    };
    lemma_events_errors(super::drained(n, m.sse, (super::http::BUFFER_MAX + 1) as nat).1);
}

proof fn lemma_events_errors(sse: DecoderModel)
    ensures
        events_in(sse).2 matches Err(e) ==> e is Sse || e is Payload,
    decreases sse.buf.len(),
{
    lemma_events_shrink(sse);
    let (after, next) = next_event_of(sse);
    if next matches Ok(Some(event)) {
        if after.buf.len() < sse.buf.len() {
            lemma_events_errors(after);
        }
    }
}

/// The request goes to the path with the body as it is, is authorised by the
/// key, and names the host.
pub proof fn law_requests_carry_key_and_body(
    path: Seq<char>,
    host: Seq<char>,
    port: u16,
    key: Seq<char>,
    body: Seq<char>,
)
    ensures
        ({
            let p = chat_post(path, host, port, key, body);
            &&& p.target == path
            &&& p.body == Some(vstd::utf8::encode_utf8(body))
            &&& p.headers.contains(("Authorization"@, "Bearer "@ + key))
            &&& p.headers.contains(("Connection"@, "close"@))
            &&& p.headers.contains(("Accept"@, "text/event-stream"@))
            &&& p.headers.contains(("Content-Type"@, "application/json"@))
            &&& port == 443 ==> p.headers.contains(("Host"@, host))
            &&& port != 443 ==> p.headers.contains(("Host"@, host + ":"@ + decimal(port as nat)))
        }),
{
    let h = chat_post(path, host, port, key, body).headers;
    assert(h[0].0 == "Host"@);
    assert(h[1] == ("Authorization"@, "Bearer "@ + key));
    assert(h[2] == ("Accept"@, "text/event-stream"@));
    assert(h[3] == ("Content-Type"@, "application/json"@));
    assert(h[4] == ("Connection"@, "close"@));
}

/// A payload comes out as its events, and only the end of the stream ends it.
pub proof fn law_translating_a_payload(
    payload: StreamPayload,
    done: &mut bool,
    r: Vec<StreamEvent>,
)
    requires
        call_ensures(translate_payload, (payload, done), r),
    ensures
        payload@ is Done ==> r@.len() == 0 && *final(done),
        payload@ matches PayloadModel::Chunk(c) ==> *final(done) == *old(done) && deep(r@)
            == chunk_events(c),
{
    assert(deep(r@).len() == r@.len());
}

/// A comment comes out as it is and a message as its events; a message that
/// cannot be read is an error and does not end the stream.
pub proof fn law_translating_an_event(
    event: SseEvent,
    done: &mut bool,
    r: Result<Vec<StreamEvent>, TransportError>,
)
    requires
        call_ensures(translate_sse_event, (event, done), r),
    ensures
        event@ matches EventModel::Comment(s) ==> r is Ok && r->Ok_0@.len() == 1 && r->Ok_0@[0]@
            == StreamEventModel::Comment(s) && *final(done) == *old(done),
        event@ matches EventModel::Message { data } ==> match payload_of(data) {
            Err(e) => r is Err && r->Err_0@ == TransportErrorModel::Payload(e) && *final(done)
                == *old(done),
            Ok(PayloadModel::Done) => r is Ok && r->Ok_0@.len() == 0 && *final(done),
            Ok(PayloadModel::Chunk(c)) => r is Ok && deep(r->Ok_0@) == chunk_events(c)
                && *final(done) == *old(done),
        },
{
    if r is Ok {
        assert(deep(r->Ok_0@).len() == r->Ok_0@.len());
        if r->Ok_0@.len() > 0 {
            assert(deep(r->Ok_0@)[0] == r->Ok_0@[0]@);
        }
    }
}

/// A request that ended well is counted as such, and one that did not under
/// its error, once and nowhere else; errors from before a request are not
/// counted.
pub proof fn law_ends_are_counted(
    metrics: &mut TransportMetrics,
    outcome: &Result<(), TransportError>,
)
    requires
        call_ensures(TransportMetrics::record_outcome, (metrics, outcome), ()),
    ensures
        final(metrics).requests_completed_ok@ == if *outcome is Ok {
            old(metrics).requests_completed_ok@.wrapping_add(1)
        } else {
            old(metrics).requests_completed_ok@
        },
        final(metrics).errors_io@ == if *outcome is Err && outcome->Err_0 is Io {
            old(metrics).errors_io@.wrapping_add(1)
        } else {
            old(metrics).errors_io@
        },
        final(metrics).errors_tls@ == if *outcome is Err && outcome->Err_0 is Tls {
            old(metrics).errors_tls@.wrapping_add(1)
        } else {
            old(metrics).errors_tls@
        },
        final(metrics).errors_http_encode@ == if *outcome is Err && outcome->Err_0 is HttpEncode {
            old(metrics).errors_http_encode@.wrapping_add(1)
        } else {
            old(metrics).errors_http_encode@
        },
        final(metrics).errors_http_decode@ == if *outcome is Err && outcome->Err_0 is HttpDecode {
            old(metrics).errors_http_decode@.wrapping_add(1)
        } else {
            old(metrics).errors_http_decode@
        },
        final(metrics).errors_http_status@ == if *outcome is Err
            && outcome->Err_0 is UnexpectedStatus {
            old(metrics).errors_http_status@.wrapping_add(1)
        } else {
            old(metrics).errors_http_status@
        },
        final(metrics).errors_sse@ == if *outcome is Err && outcome->Err_0 is Sse {
            old(metrics).errors_sse@.wrapping_add(1)
        } else {
            old(metrics).errors_sse@
        },
        final(metrics).errors_payload@ == if *outcome is Err && outcome->Err_0 is Payload {
            old(metrics).errors_payload@.wrapping_add(1)
        } else {
            old(metrics).errors_payload@
        },
        final(metrics).errors_server_closed_before_done@ == if *outcome is Err
            && outcome->Err_0 is ServerClosedBeforeDone {
            old(metrics).errors_server_closed_before_done@.wrapping_add(1)
        } else {
            old(metrics).errors_server_closed_before_done@
        },
{
}

/// A request is written for the path, the host, the key and the body that it
/// is given, or refused with what is said against it.
pub proof fn law_writing_a_request(
    path: &str,
    host: &str,
    port: u16,
    key: &str,
    body: &str,
    r: Result<Vec<u8>, TransportError>,
)
    requires
        call_ensures(encode_chat_request, (path, host, port, key, body), r),
    ensures
        r is Err ==> r->Err_0 is HttpEncode,
        r is Ok ==> exists|p: super::http::PostModel| #[trigger]
            super::http::encoded_request(p) == Ok::<Seq<u8>, Seq<char>>(r->Ok_0@) && p.target
                == path@ && p.body == Some(vstd::utf8::encode_utf8(body@)) && p.headers.contains(
                ("Authorization"@, "Bearer "@ + key@),
            ),
{
    law_requests_carry_key_and_body(path@, host@, port, key@, body@);
    let p = chat_post(path@, host@, port, key@, body@);
    if r is Ok {
        assert(super::http::encoded_request(p) == Ok::<Seq<u8>, Seq<char>>(r->Ok_0@));
    }
}

/// A secret is not shown, and is given out only as it is.
pub proof fn law_secrets_are_not_shown(s: &SecretString, shown: &'static str, given: &str)
    requires
        call_ensures(SecretString::debug_text, (s,), shown),
        call_ensures(SecretString::expose, (s,), given),
    ensures
        shown@ == "<redacted>"@,
        given@ == s@,
{
}

/// What an error says holds what is known of it: the message that came with
/// it, or the status of the response.
pub proof fn law_errors_say_what_went_wrong(e: &TransportError, r: String)
    requires
        call_ensures(TransportError::to_string, (e,), r),
    ensures
        e@ matches TransportErrorModel::Io(m) ==> holds_text(r@, m),
        e@ matches TransportErrorModel::Tls(m) ==> holds_text(r@, m),
        e@ matches TransportErrorModel::Config(m) ==> holds_text(r@, m),
        e@ matches TransportErrorModel::InvalidHost(m) ==> holds_text(r@, m),
        e@ matches TransportErrorModel::HttpEncode(m) ==> holds_text(r@, m),
        e@ matches TransportErrorModel::HttpDecode(m) ==> holds_text(r@, m),
        e@ matches TransportErrorModel::Payload(m) ==> holds_text(r@, m),
        e@ matches TransportErrorModel::UnexpectedStatus { status } ==> holds_text(
            r@,
            decimal(status as nat),
        ),
{
    let none = Seq::<char>::empty();
    match e@ {
        TransportErrorModel::Io(m) => {
            assert(r@ =~= ("I/O error: "@ + m) + none);
        },
        TransportErrorModel::Tls(m) => {
            assert(r@ =~= ("TLS handshake failed: "@ + m) + none);
        },
        TransportErrorModel::Config(m) => {
            assert(r@ =~= ("TLS configuration failed: "@ + m) + none);
        },
        TransportErrorModel::InvalidHost(m) => {
            assert(r@ =~= ("invalid host: "@ + m) + none);
        },
        TransportErrorModel::HttpEncode(m) => {
            assert(r@ =~= ("failed to encode HTTP request: "@ + m) + none);
        },
        TransportErrorModel::HttpDecode(m) => {
            assert(r@ =~= ("failed to decode HTTP response: "@ + m) + none);
        },
        TransportErrorModel::Payload(m) => {
            assert(r@ =~= ("streaming payload decode error: "@ + m) + none);
        },
        TransportErrorModel::UnexpectedStatus { status } => {
            assert(r@ =~= ("server returned unexpected HTTP status "@ + decimal(status as nat))
                + none);
        },
        _ => {},
    }
}

} // verus!
