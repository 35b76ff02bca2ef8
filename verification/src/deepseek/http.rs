//! HTTP messages: requests are written, and responses are read piece by piece,
//! by `shiguredo_http11`.
use vstd::prelude::*;
use vstd::string::*;

use crate::text::decimal;

verus! {

/// An HTTP request under construction.
#[verifier::external_type_specification]
#[verifier::external_body]
pub struct ExHttpRequest(shiguredo_http11::Request);

/// The decoder of an HTTP response, `shiguredo_http11::ResponseDecoder`.
#[verifier::external_body]
pub struct HttpDecoder {
    inner: shiguredo_http11::ResponseDecoder,
}

/// What a POST request holds.
#[verifier::ext_equal]
pub struct PostModel {
    pub target: Seq<char>,
    /// The header fields, in order.
    pub headers: Seq<(Seq<char>, Seq<char>)>,
    pub body: Option<Seq<u8>>,
}

/// What a request holds.
pub uninterp spec fn request_parts(r: shiguredo_http11::Request) -> PostModel;

/// Why `shiguredo_http11::Request::new` refuses a request target, if it does.
pub uninterp spec fn target_error(target: Seq<char>) -> Option<Seq<char>>;

/// Why `shiguredo_http11::Request::header` refuses a header field, if it does.
pub uninterp spec fn header_error(name: Seq<char>, value: Seq<char>) -> Option<Seq<char>>;

/// What `shiguredo_http11::Request::encode` writes for a POST request, or why
/// it refuses to.
pub uninterp spec fn encoded_request(parts: PostModel) -> Result<Seq<u8>, Seq<char>>;

/// `shiguredo_http11::Request::new` with the method POST makes a request
/// without header fields and without a body, unless it refuses the target.
#[verifier::external_body]
pub(crate) fn new_post(target: &str) -> (r: Result<shiguredo_http11::Request, String>)
    ensures
        match r {
            Ok(request) => target_error(target@) is None && request_parts(request) == (PostModel {
                target: target@,
                headers: Seq::empty(),
                body: None,
            }),
            Err(e) => target_error(target@) == Some(e@),
        },
{
    shiguredo_http11::Request::new(shiguredo_http11::Method::POST, target).map_err(
        |e| e.to_string(),
    )
}

/// `shiguredo_http11::Request::header` puts one more header field behind the
/// others, unless it refuses the name or the value.
#[verifier::external_body]
pub(crate) fn add_header(
    request: shiguredo_http11::Request,
    name: &'static str,
    value: String,
) -> (r: Result<shiguredo_http11::Request, String>)
    ensures
        match r {
            Ok(after) => header_error(name@, value@) is None && request_parts(after) == (PostModel {
                headers: request_parts(request).headers.push((name@, value@)),
                ..request_parts(request)
            }),
            Err(e) => header_error(name@, value@) == Some(e@),
        },
{
    request.header(name, value).map_err(|e| e.to_string())
}

/// `shiguredo_http11::Request::body` gives a request that body.
#[verifier::external_body]
pub(crate) fn set_body(request: shiguredo_http11::Request, body: Vec<u8>) -> (r:
    shiguredo_http11::Request)
    ensures
        request_parts(r) == (PostModel { body: Some(body@), ..request_parts(request) }),
{
    request.body(body)
}

/// `shiguredo_http11::Request::encode` writes a request as the bytes that go
/// over the wire, or says why it does not.
#[verifier::external_body]
pub(crate) fn encode(request: &shiguredo_http11::Request) -> (r: Result<Vec<u8>, String>)
    ensures
        match r {
            Ok(bytes) => encoded_request(request_parts(*request)) == Ok::<Seq<u8>, Seq<char>>(
                bytes@,
            ),
            Err(e) => encoded_request(request_parts(*request)) == Err::<Seq<u8>, Seq<char>>(e@),
        },
{
    request.encode().map_err(|e| e.to_string())
}

/// One thing that was done with a response decoder.
pub enum HttpStep {
    /// It was handed these bytes.
    Fed(Seq<u8>),
    /// It was asked for the head of the response.
    Headers,
    /// That many bytes of the body were taken off it.
    Consumed(nat),
    /// It was asked to go on.
    Progressed,
}

/// How far a response decoder has got with the body.
#[derive(Debug, Clone, Copy, PartialEq, Eq, Structural)]
pub enum Progress {
    Advanced,
    NeedData,
    Complete,
}

/// The size of the buffer of a decoder that `ResponseDecoder::new` makes.
pub const BUFFER_MAX: usize = 64 * 1024;

/// What was done with a response decoder, in order. It is deterministic: what
/// it returns depends on that alone.
pub uninterp spec fn decoder_steps(d: HttpDecoder) -> Seq<HttpStep>;

/// The bytes that a response decoder holds and has not decoded yet, once that
/// was done with it.
pub uninterp spec fn held_bytes(steps: Seq<HttpStep>) -> Seq<u8>;

/// What `ResponseDecoder::feed` says when it would come to hold that many
/// bytes, which do not fit.
pub open spec fn overflow_text(size: nat) -> Seq<char> {
    "buffer overflow: "@ + decimal(size) + " > "@ + decimal(BUFFER_MAX as nat)
}

/// What `ResponseDecoder::decode_headers` returns, the head taken by its
/// status code.
pub uninterp spec fn decoded_head(steps: Seq<HttpStep>) -> Result<Option<u16>, Seq<char>>;

/// What `ResponseDecoder::peek_body` returns.
pub uninterp spec fn peeked_body(steps: Seq<HttpStep>) -> Option<Seq<u8>>;

/// Why `ResponseDecoder::consume_body` fails, if it does.
pub uninterp spec fn consume_error(steps: Seq<HttpStep>, len: nat) -> Option<Seq<char>>;

/// What `ResponseDecoder::progress` returns.
pub uninterp spec fn progressed(steps: Seq<HttpStep>) -> Result<Progress, Seq<char>>;

/// `shiguredo_http11::ResponseDecoder::new` makes a decoder that holds
/// nothing.
#[verifier::external_body]
pub(crate) fn new_decoder() -> (r: HttpDecoder)
    ensures
        decoder_steps(r) == Seq::<HttpStep>::empty(),
        held_bytes(decoder_steps(r)) == Seq::<u8>::empty(),
{
    HttpDecoder { inner: shiguredo_http11::ResponseDecoder::new() }
}

/// `shiguredo_http11::ResponseDecoder::feed` puts the bytes behind those that
/// the decoder holds, provided that all of them fit its buffer. Else it says
/// how many there would be, and takes none.
#[verifier::external_body]
pub(crate) fn feed(d: &mut HttpDecoder, bytes: &[u8]) -> (r: Result<(), String>)
    ensures
        decoder_steps(*final(d)) == decoder_steps(*old(d)).push(HttpStep::Fed(bytes@)),
        ({
            let before = held_bytes(decoder_steps(*old(d)));
            let after = held_bytes(decoder_steps(*final(d)));
            let size = before.len() + bytes@.len();
            match r {
                Ok(_) => size <= BUFFER_MAX && after == before + bytes@,
                Err(e) => size > BUFFER_MAX && after == before && e@ == overflow_text(size),
            }
        }),
{
    d.inner.feed(bytes).map_err(|e| e.to_string())
}

/// `shiguredo_http11::ResponseDecoder::decode_headers` returns the head of the
/// response once it is complete. It takes bytes off the decoder and adds none.
#[verifier::external_body]
pub(crate) fn decode_headers(d: &mut HttpDecoder) -> (r: Result<Option<u16>, String>)
    ensures
        decoder_steps(*final(d)) == decoder_steps(*old(d)).push(HttpStep::Headers),
        held_bytes(decoder_steps(*final(d))).len() <= held_bytes(decoder_steps(*old(d))).len(),
        match r {
            Ok(status) => decoded_head(decoder_steps(*old(d))) == Ok::<Option<u16>, Seq<char>>(
                status,
            ),
            Err(e) => decoded_head(decoder_steps(*old(d))) == Err::<Option<u16>, Seq<char>>(e@),
        },
{
    match d.inner.decode_headers() {
        Ok(head) => Ok(head.map(|(head, _)| head.status_code())),
        Err(e) => Err(e.to_string()),
    }
}

/// `shiguredo_http11::ResponseDecoder::peek_body` returns bytes of the body
/// that stand at the front of what the decoder holds, if there are any.
#[verifier::external_body]
pub(crate) fn peek_body(d: &HttpDecoder) -> (r: Option<Vec<u8>>)
    ensures
        match r {
            Some(chunk) => peeked_body(decoder_steps(*d)) == Some(chunk@) && chunk@.len() > 0
                && chunk@.is_prefix_of(held_bytes(decoder_steps(*d))),
            None => peeked_body(decoder_steps(*d)) is None,
        },
{
    d.inner.peek_body().map(|chunk| chunk.to_vec())
}

/// `shiguredo_http11::ResponseDecoder::consume_body` takes bytes of the body
/// off the decoder that were peeked at, and with them the end of a chunk.
#[verifier::external_body]
pub(crate) fn consume_body(d: &mut HttpDecoder, len: usize) -> (r: Result<(), String>)
    requires
        peeked_body(decoder_steps(*old(d))) is Some,
        0 < len <= peeked_body(decoder_steps(*old(d)))->0.len(),
    ensures
        decoder_steps(*final(d)) == decoder_steps(*old(d)).push(HttpStep::Consumed(len as nat)),
        ({
            let before = held_bytes(decoder_steps(*old(d)));
            let after = held_bytes(decoder_steps(*final(d)));
            let error = consume_error(decoder_steps(*old(d)), len as nat);
            match r {
                Ok(_) => error is None && after.len() + len <= before.len(),
                Err(e) => error == Some(e@),
            }
        }),
{
    d.inner.consume_body(len).map(|_| ()).map_err(|e| e.to_string())
}

/// `shiguredo_http11::ResponseDecoder::progress` decodes what stands between
/// the bytes of the body. It says that it advanced only if it took bytes off
/// the decoder.
#[verifier::external_body]
pub(crate) fn progress(d: &mut HttpDecoder) -> (r: Result<Progress, String>)
    ensures
        decoder_steps(*final(d)) == decoder_steps(*old(d)).push(HttpStep::Progressed),
        ({
            let before = held_bytes(decoder_steps(*old(d)));
            let after = held_bytes(decoder_steps(*final(d)));
            match r {
                Ok(p) => progressed(decoder_steps(*old(d))) == Ok::<Progress, Seq<char>>(p) && (
                p is Advanced ==> after.len() < before.len()),
                Err(e) => progressed(decoder_steps(*old(d))) == Err::<Progress, Seq<char>>(e@),
            }
        }),
{
    match d.inner.progress() {
        Ok(shiguredo_http11::BodyProgress::Advanced) => Ok(Progress::Advanced),
        Ok(shiguredo_http11::BodyProgress::NeedData) => Ok(Progress::NeedData),
        Ok(shiguredo_http11::BodyProgress::Complete { .. }) => Ok(Progress::Complete),
        Err(e) => Err(e.to_string()),
    }
}

} // verus!
