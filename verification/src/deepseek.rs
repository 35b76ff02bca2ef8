//! The transport of the streaming chat API: the request that goes over the
//! wire, and the events that come out of the bytes of the response.
//!
//! A connection serves one request and is closed.
use vstd::prelude::*;
use vstd::string::*;

pub mod http;
pub mod laws;

use crate::metrics::{bumped, Counter};
use crate::model::{deep, maybe};
use crate::sansio::deepseek::{
    decode_stream_payload, payload_of, ChunkModel, DeltaModel, PayloadModel, StreamPayload,
    StreamToolCallDelta,
};
use crate::sansio::sse::{
    empty_decoder, fed, lemma_events_shrink, next_event_of, sse_error_text, DecoderModel,
    EventModel, SseDecoder, SseError, SseEvent,
};
use crate::text::{cat, cat3, decimal, decimal_of};
use http::{
    add_header, consume_body, consume_error, decode_headers, decoded_head, decoder_steps, encode,
    encoded_request, feed, header_error, held_bytes, new_decoder, new_post, overflow_text,
    peek_body, peeked_body, progress, progressed, request_parts, set_body, target_error,
    HttpDecoder, HttpStep, PostModel, Progress, BUFFER_MAX,
};

verus! {

broadcast use crate::model::group_deep;

pub const DEEPSEEK_HOST: &'static str = "api.deepseek.com";

pub const DEEPSEEK_PORT: u16 = 443;

pub const DEEPSEEK_PATH: &'static str = "/chat/completions";

pub const API_KEY_ENV: &'static str = "DEEPSEEK_API_KEY";

/// How many events may wait for the receiver.
pub const CHANNEL_CAPACITY: usize = 32;

/// How many bytes are read at once.
pub const READ_CHUNK_SIZE: usize = 8192;

/// A secret, which is never shown.
#[derive(Clone)]
pub struct SecretString {
    value: String,
}

impl View for SecretString {
    type V = Seq<char>;

    closed spec fn view(&self) -> Seq<char> {
        self.value@
    }
}

impl SecretString {
    /// Keeps a secret.
    pub fn new(value: String) -> (r: Self)
        ensures
            r@ == value@,
    {
        SecretString { value }
    }

    /// The secret itself.
    pub fn expose(&self) -> (r: &str)
        ensures
            r@ == self@,
    {
        self.value.as_str()
    }

    /// What is shown in place of the secret, whatever it is.
    pub fn debug_text(&self) -> (r: &'static str)
        ensures
            r@ == "<redacted>"@,
    {
        "<redacted>"
    }
}

/// A discrete event of a streamed response.
#[derive(Debug, Clone, PartialEq, Eq)]
pub enum StreamEvent {
    ContentDelta(String),
    ReasoningDelta(String),
    /// A fragment of a tool call. Fragments with the same `index` belong
    /// together.
    ToolCallDelta {
        index: u64,
        id: Option<String>,
        function_name: Option<String>,
        arguments_fragment: Option<String>,
    },
    Comment(String),
    Finish { reason: Option<String> },
}

/// A [`StreamEvent`] as a mathematical value.
#[verifier::ext_equal]
pub enum StreamEventModel {
    ContentDelta(Seq<char>),
    ReasoningDelta(Seq<char>),
    ToolCallDelta(DeltaModel),
    Comment(Seq<char>),
    Finish { reason: Option<Seq<char>> },
}

impl View for StreamEvent {
    type V = StreamEventModel;

    open spec fn view(&self) -> StreamEventModel {
        match self {
            StreamEvent::ContentDelta(s) => StreamEventModel::ContentDelta(s@),
            StreamEvent::ReasoningDelta(s) => StreamEventModel::ReasoningDelta(s@),
            StreamEvent::ToolCallDelta { index, id, function_name, arguments_fragment } => {
                StreamEventModel::ToolCallDelta(
                    DeltaModel {
                        index: *index,
                        id: maybe(*id),
                        function_name: maybe(*function_name),
                        arguments_fragment: maybe(*arguments_fragment),
                    },
                )
            },
            StreamEvent::Comment(s) => StreamEventModel::Comment(s@),
            StreamEvent::Finish { reason } => StreamEventModel::Finish { reason: maybe(*reason) },
        }
    }
}

/// What goes wrong with a request.
#[derive(Debug, PartialEq, Eq)]
pub enum TransportError {
    MissingApiKey,
    Config(String),
    Io(String),
    Tls(String),
    InvalidHost(String),
    HttpEncode(String),
    HttpDecode(String),
    UnexpectedStatus { status: u16 },
    Sse(SseError),
    Payload(String),
    ChannelClosed,
    ServerClosedBeforeDone,
}

/// A [`TransportError`] as a mathematical value.
#[verifier::ext_equal]
pub enum TransportErrorModel {
    MissingApiKey,
    Config(Seq<char>),
    Io(Seq<char>),
    Tls(Seq<char>),
    InvalidHost(Seq<char>),
    HttpEncode(Seq<char>),
    HttpDecode(Seq<char>),
    UnexpectedStatus { status: u16 },
    Sse(SseError),
    Payload(Seq<char>),
    ChannelClosed,
    ServerClosedBeforeDone,
}

impl View for TransportError {
    type V = TransportErrorModel;

    open spec fn view(&self) -> TransportErrorModel {
        match self {
            TransportError::MissingApiKey => TransportErrorModel::MissingApiKey,
            TransportError::Config(s) => TransportErrorModel::Config(s@),
            TransportError::Io(s) => TransportErrorModel::Io(s@),
            TransportError::Tls(s) => TransportErrorModel::Tls(s@),
            TransportError::InvalidHost(s) => TransportErrorModel::InvalidHost(s@),
            TransportError::HttpEncode(s) => TransportErrorModel::HttpEncode(s@),
            TransportError::HttpDecode(s) => TransportErrorModel::HttpDecode(s@),
            TransportError::UnexpectedStatus { status } => TransportErrorModel::UnexpectedStatus {
                status: *status,
            },
            TransportError::Sse(e) => TransportErrorModel::Sse(*e),
            TransportError::Payload(s) => TransportErrorModel::Payload(s@),
            TransportError::ChannelClosed => TransportErrorModel::ChannelClosed,
            TransportError::ServerClosedBeforeDone => TransportErrorModel::ServerClosedBeforeDone,
        }
    }
}

/// What an error says in words.
pub open spec fn transport_error_text(e: TransportErrorModel) -> Seq<char> {
    match e {
        TransportErrorModel::MissingApiKey => "environment variable "@ + API_KEY_ENV@
            + " is not set or is empty"@,
        TransportErrorModel::Config(msg) => "TLS configuration failed: "@ + msg,
        TransportErrorModel::Io(msg) => "I/O error: "@ + msg,
        TransportErrorModel::Tls(msg) => "TLS handshake failed: "@ + msg,
        TransportErrorModel::InvalidHost(msg) => "invalid host: "@ + msg,
        TransportErrorModel::HttpEncode(msg) => "failed to encode HTTP request: "@ + msg,
        TransportErrorModel::HttpDecode(msg) => "failed to decode HTTP response: "@ + msg,
        TransportErrorModel::UnexpectedStatus { status } =>
            "server returned unexpected HTTP status "@ + decimal(status as nat),
        TransportErrorModel::Sse(e) => "SSE decode error: "@ + sse_error_text(e),
        TransportErrorModel::Payload(msg) => "streaming payload decode error: "@ + msg,
        TransportErrorModel::ChannelClosed => "the receiver dropped the stream channel"@,
        TransportErrorModel::ServerClosedBeforeDone =>
            "the server closed the connection before the stream completed"@,
    }
}

impl TransportError {
    /// What the error says in words.
    pub fn to_string(&self) -> (r: String)
        ensures
            r@ == transport_error_text(self@),
    {
        match self {
            TransportError::MissingApiKey => cat3(
                "environment variable ",
                API_KEY_ENV,
                " is not set or is empty",
            ),
            TransportError::Config(msg) => cat("TLS configuration failed: ", msg.as_str()),
            TransportError::Io(msg) => cat("I/O error: ", msg.as_str()),
            TransportError::Tls(msg) => cat("TLS handshake failed: ", msg.as_str()),
            TransportError::InvalidHost(msg) => cat("invalid host: ", msg.as_str()),
            TransportError::HttpEncode(msg) => cat("failed to encode HTTP request: ", msg.as_str()),
            TransportError::HttpDecode(msg) => cat(
                "failed to decode HTTP response: ",
                msg.as_str(),
            ),
            TransportError::UnexpectedStatus { status } => cat(
                "server returned unexpected HTTP status ",
                decimal_of(*status as u64).as_str(),
            ),
            TransportError::Sse(e) => cat("SSE decode error: ", e.to_string().as_str()),
            TransportError::Payload(msg) => cat("streaming payload decode error: ", msg.as_str()),
            TransportError::ChannelClosed => "the receiver dropped the stream channel".to_owned(),
            TransportError::ServerClosedBeforeDone =>
                "the server closed the connection before the stream completed".to_owned(),
        }
    }
}

/// Counts of requests, of how they ended, and of bytes.
#[derive(Debug, Clone, Copy, PartialEq, Eq, Structural)]
pub struct TransportMetrics {
    pub requests_started: Counter,
    pub requests_completed_ok: Counter,
    pub errors_io: Counter,
    pub errors_tls: Counter,
    pub errors_http_encode: Counter,
    pub errors_http_decode: Counter,
    pub errors_http_status: Counter,
    pub errors_sse: Counter,
    pub errors_payload: Counter,
    pub errors_channel_closed: Counter,
    pub errors_server_closed_before_done: Counter,
    pub bytes_written: Counter,
    pub bytes_read: Counter,
}

impl Default for TransportMetrics {
    /// All counts at zero.
    fn default() -> (r: Self)
        ensures
            r == no_counts(),
    {
        TransportMetrics {
            requests_started: Counter(0),
            requests_completed_ok: Counter(0),
            errors_io: Counter(0),
            errors_tls: Counter(0),
            errors_http_encode: Counter(0),
            errors_http_decode: Counter(0),
            errors_http_status: Counter(0),
            errors_sse: Counter(0),
            errors_payload: Counter(0),
            errors_channel_closed: Counter(0),
            errors_server_closed_before_done: Counter(0),
            bytes_written: Counter(0),
            bytes_read: Counter(0),
        }
    }
}

/// All counts at zero.
pub open spec fn no_counts() -> TransportMetrics {
    TransportMetrics {
        requests_started: Counter(0),
        requests_completed_ok: Counter(0),
        errors_io: Counter(0),
        errors_tls: Counter(0),
        errors_http_encode: Counter(0),
        errors_http_decode: Counter(0),
        errors_http_status: Counter(0),
        errors_sse: Counter(0),
        errors_payload: Counter(0),
        errors_channel_closed: Counter(0),
        errors_server_closed_before_done: Counter(0),
        bytes_written: Counter(0),
        bytes_read: Counter(0),
    }
}

/// The counts after an error. Errors from before a request are not counted.
pub open spec fn error_counted(m: TransportMetrics, e: TransportErrorModel) -> TransportMetrics {
    match e {
        TransportErrorModel::Io(_) => TransportMetrics { errors_io: bumped(m.errors_io), ..m },
        TransportErrorModel::Tls(_) => TransportMetrics { errors_tls: bumped(m.errors_tls), ..m },
        TransportErrorModel::HttpEncode(_) => TransportMetrics {
            errors_http_encode: bumped(m.errors_http_encode),
            ..m
        },
        TransportErrorModel::HttpDecode(_) => TransportMetrics {
            errors_http_decode: bumped(m.errors_http_decode),
            ..m
        },
        TransportErrorModel::UnexpectedStatus { .. } => TransportMetrics {
            errors_http_status: bumped(m.errors_http_status),
            ..m
        },
        TransportErrorModel::Sse(_) => TransportMetrics { errors_sse: bumped(m.errors_sse), ..m },
        TransportErrorModel::Payload(_) => TransportMetrics {
            errors_payload: bumped(m.errors_payload),
            ..m
        },
        TransportErrorModel::ChannelClosed => TransportMetrics {
            errors_channel_closed: bumped(m.errors_channel_closed),
            ..m
        },
        TransportErrorModel::ServerClosedBeforeDone => TransportMetrics {
            errors_server_closed_before_done: bumped(m.errors_server_closed_before_done),
            ..m
        },
        _ => m,
    }
}

/// The counts after a request has ended.
pub open spec fn outcome_counted(
    m: TransportMetrics,
    outcome: Option<TransportErrorModel>,
) -> TransportMetrics {
    match outcome {
        None => TransportMetrics { requests_completed_ok: bumped(m.requests_completed_ok), ..m },
        Some(e) => error_counted(m, e),
    }
}

impl TransportMetrics {
    /// Counts an error. Errors from before a request are not counted.
    pub fn record_error(&mut self, err: &TransportError)
        ensures
            *final(self) == error_counted(*old(self), err@),
    {
        match err {
            TransportError::Io(_) => self.errors_io.inc(),
            TransportError::Tls(_) => self.errors_tls.inc(),
            TransportError::HttpEncode(_) => self.errors_http_encode.inc(),
            TransportError::HttpDecode(_) => self.errors_http_decode.inc(),
            TransportError::UnexpectedStatus { .. } => self.errors_http_status.inc(),
            TransportError::Sse(_) => self.errors_sse.inc(),
            TransportError::Payload(_) => self.errors_payload.inc(),
            TransportError::ChannelClosed => self.errors_channel_closed.inc(),
            TransportError::ServerClosedBeforeDone => self.errors_server_closed_before_done.inc(),
            TransportError::MissingApiKey => {},
            TransportError::Config(_) => {},
            TransportError::InvalidHost(_) => {},
        }
    }

    /// Counts the end of a request.
    pub fn record_outcome(&mut self, outcome: &Result<(), TransportError>)
        ensures
            *final(self) == outcome_counted(
                *old(self),
                match *outcome {
                    Ok(_) => None,
                    Err(e) => Some(e@),
                },
            ),
    {
        match outcome {
            Ok(_) => self.requests_completed_ok.inc(),
            Err(e) => self.record_error(e),
        }
    }
}

/// How many requests have ended, of those that were started.
pub open spec fn ended(m: TransportMetrics) -> int {
    m.requests_completed_ok@ + m.errors_io@ + m.errors_tls@ + m.errors_http_encode@
        + m.errors_http_decode@ + m.errors_http_status@ + m.errors_sse@ + m.errors_payload@
        + m.errors_channel_closed@ + m.errors_server_closed_before_done@
}

/// Whether an error comes from before a request.
pub open spec fn before_request(e: TransportErrorModel) -> bool {
    e is MissingApiKey || e is Config || e is InvalidHost
}

/// A request that ends is counted once, whatever it ends in. (No count is at
/// its limit.)
pub proof fn law_each_end_is_counted_once(m: TransportMetrics, outcome: Option<TransportErrorModel>)
    requires
        outcome is Some ==> !before_request(outcome->0),
        ended(m) < u64::MAX,
    ensures
        ended(outcome_counted(m, outcome)) == ended(m) + 1,
        outcome_counted(m, outcome).requests_started == m.requests_started,
        outcome_counted(m, outcome).bytes_read == m.bytes_read,
        outcome_counted(m, outcome).bytes_written == m.bytes_written,
{
}

/// The `Host` field: the port stands there unless it is the usual one.
pub open spec fn host_field(host: Seq<char>, port: u16) -> Seq<char> {
    if port == 443 {
        host
    } else {
        host + ":"@ + decimal(port as nat)
    }
}

/// The request that carries a body to the server.
pub open spec fn chat_post(
    path: Seq<char>,
    host: Seq<char>,
    port: u16,
    api_key: Seq<char>,
    body: Seq<char>,
) -> PostModel {
    PostModel {
        target: path,
        headers: seq![
            ("Host"@, host_field(host, port)),
            ("Authorization"@, "Bearer "@ + api_key),
            ("Accept"@, "text/event-stream"@),
            ("Content-Type"@, "application/json"@),
            ("Connection"@, "close"@),
        ],
        body: Some(vstd::utf8::encode_utf8(body)),
    }
}

/// Why one of the first `n` fields is refused, if one is.
pub open spec fn field_error(headers: Seq<(Seq<char>, Seq<char>)>, n: int) -> Option<Seq<char>>
    decreases n,
{
    if n <= 0 {
        None
    } else {
        match field_error(headers, n - 1) {
            Some(e) => Some(e),
            None => header_error(headers[n - 1].0, headers[n - 1].1),
        }
    }
}

/// The bytes of a request, or why there are none.
pub open spec fn request_bytes(p: PostModel) -> Result<Seq<u8>, Seq<char>> {
    match target_error(p.target) {
        Some(e) => Err(e),
        None => match field_error(p.headers, p.headers.len() as int) {
            Some(e) => Err(e),
            None => encoded_request(p),
        },
    }
}

fn host_of(host: &str, port: u16) -> (r: String)
    ensures
        r@ == host_field(host@, port),
{
    if port == 443 {
        host.to_owned()
    } else {
        cat3(host, ":", decimal_of(port as u64).as_str())
    }
}

/// Writes the request that carries a body to the server.
pub fn encode_chat_request(path: &str, host: &str, port: u16, api_key: &str, body: &str) -> (r:
    Result<Vec<u8>, TransportError>)
    ensures
        match r {
            Ok(bytes) => request_bytes(chat_post(path@, host@, port, api_key@, body@)) == Ok::<
                Seq<u8>,
                Seq<char>,
            >(bytes@),
            Err(e) => e is HttpEncode && request_bytes(
                chat_post(path@, host@, port, api_key@, body@),
            ) == Err::<Seq<u8>, Seq<char>>(e->HttpEncode_0@),
        },
{
    let ghost p = chat_post(path@, host@, port, api_key@, body@);
    proof {
        reveal_with_fuel(field_error, 6);
    }
    let r = match new_post(path) {
        Ok(r) => r,
        Err(e) => return Err(TransportError::HttpEncode(e)),
    };
    let r = match add_header(r, "Host", host_of(host, port)) {
        Ok(r) => r,
        Err(e) => return Err(TransportError::HttpEncode(e)),
    };
    let r = match add_header(r, "Authorization", cat("Bearer ", api_key)) {
        Ok(r) => r,
        Err(e) => return Err(TransportError::HttpEncode(e)),
    };
    let r = match add_header(r, "Accept", "text/event-stream".to_owned()) {
        Ok(r) => r,
        Err(e) => return Err(TransportError::HttpEncode(e)),
    };
    let r = match add_header(r, "Content-Type", "application/json".to_owned()) {
        Ok(r) => r,
        Err(e) => return Err(TransportError::HttpEncode(e)),
    };
    let r = match add_header(r, "Connection", "close".to_owned()) {
        Ok(r) => r,
        Err(e) => return Err(TransportError::HttpEncode(e)),
    };
    let r = set_body(r, vstd::slice::slice_to_vec(body.as_bytes()));
    assert(request_parts(r) =~= p);
    match encode(&r) {
        Ok(bytes) => Ok(bytes),
        Err(e) => Err(TransportError::HttpEncode(e)),
    }
}

/// A text that is there and not empty.
pub open spec fn non_empty(s: Option<Seq<char>>) -> Option<Seq<char>> {
    match s {
        Some(t) => if t.len() > 0 {
            Some(t)
        } else {
            None
        },
        None => None,
    }
}

/// The events of a chunk: its content, its reasoning, its fragments of tool
/// calls, and its end. Empty texts make no event.
pub open spec fn chunk_events(c: ChunkModel) -> Seq<StreamEventModel> {
    (match non_empty(c.content_delta) {
        Some(s) => seq![StreamEventModel::ContentDelta(s)],
        None => Seq::empty(),
    }) + (match non_empty(c.reasoning_delta) {
        Some(s) => seq![StreamEventModel::ReasoningDelta(s)],
        None => Seq::empty(),
    }) + c.tool_call_deltas.map_values(|d: DeltaModel| StreamEventModel::ToolCallDelta(d)) + (
    if c.finish_reason is Some {
        seq![StreamEventModel::Finish { reason: c.finish_reason }]
    } else {
        Seq::empty()
    })
}

/// The events of a payload. `[DONE]` makes none.
pub open spec fn payload_events(p: PayloadModel) -> Seq<StreamEventModel> {
    match p {
        PayloadModel::Done => Seq::empty(),
        PayloadModel::Chunk(c) => chunk_events(c),
    }
}

/// The events that an event of the stream stands for, and whether it ends the
/// stream.
pub open spec fn translated(event: EventModel) -> Result<
    (Seq<StreamEventModel>, bool),
    TransportErrorModel,
> {
    match event {
        EventModel::Comment(s) => Ok((seq![StreamEventModel::Comment(s)], false)),
        EventModel::Message { data } => match payload_of(data) {
            Err(e) => Err(TransportErrorModel::Payload(e)),
            Ok(p) => Ok((payload_events(p), p is Done)),
        },
    }
}

fn delta_event(d: &StreamToolCallDelta) -> (r: StreamEvent)
    ensures
        r@ == StreamEventModel::ToolCallDelta(d@),
{
    StreamEvent::ToolCallDelta {
        index: d.index,
        id: crate::sansio::deepseek::clone_text(&d.id),
        function_name: crate::sansio::deepseek::clone_text(&d.function_name),
        arguments_fragment: crate::sansio::deepseek::clone_text(&d.arguments_fragment),
    }
}

/// Turns a payload into events, and notes whether it ends the stream.
pub fn translate_payload(payload: StreamPayload, stream_done: &mut bool) -> (r: Vec<StreamEvent>)
    ensures
        deep(r@) == payload_events(payload@),
        *final(stream_done) == (*old(stream_done) || payload@ is Done),
{
    let mut out: Vec<StreamEvent> = Vec::new();
    match payload {
        StreamPayload::Done => {
            *stream_done = true;
        },
        StreamPayload::Chunk(chunk) => {
            let ghost c = chunk@;
            let ghost head = (match non_empty(c.content_delta) {
                Some(s) => seq![StreamEventModel::ContentDelta(s)],
                None => Seq::empty(),
            }) + (match non_empty(c.reasoning_delta) {
                Some(s) => seq![StreamEventModel::ReasoningDelta(s)],
                None => Seq::empty(),
            });
            if let Some(content) = chunk.content_delta {
                if !content.as_str().is_empty() {
                    out.push(StreamEvent::ContentDelta(content));
                }
            }
            if let Some(reasoning) = chunk.reasoning_delta {
                if !reasoning.as_str().is_empty() {
                    out.push(StreamEvent::ReasoningDelta(reasoning));
                }
            }
            assert(deep(out@) =~= head);
            let deltas = chunk.tool_call_deltas;
            let ghost all = deep(deltas@).map_values(
                |d: DeltaModel| StreamEventModel::ToolCallDelta(d),
            );
            let mut i: usize = 0;
            assert(head + all.take(0) =~= head);
            while i < deltas.len()
                invariant
                    i <= deltas@.len(),
                    all == deep(deltas@).map_values(
                        |d: DeltaModel| StreamEventModel::ToolCallDelta(d),
                    ),
                    deep(out@) == head + all.take(i as int),
                decreases deltas@.len() - i,
            {
                let ghost before = deep(out@);
                out.push(delta_event(&deltas[i]));
                assert(head + all.take(i + 1) =~= before.push(all[i as int]));
                i = i + 1;
            }
            assert(all.take(all.len() as int) =~= all);
            if chunk.finish_reason.is_some() {
                out.push(StreamEvent::Finish { reason: chunk.finish_reason });
            }
            assert(deep(out@) =~= chunk_events(c));
        },
    }
    out
}

/// Turns an event of the stream into events, and notes whether it ends the
/// stream.
pub fn translate_sse_event(event: SseEvent, stream_done: &mut bool) -> (r: Result<
    Vec<StreamEvent>,
    TransportError,
>)
    ensures
        match r {
            Ok(v) => translated(event@) is Ok && deep(v@) == translated(event@)->Ok_0.0
                && *final(stream_done) == (*old(stream_done) || translated(event@)->Ok_0.1),
            Err(e) => translated(event@) == Err::<
                (Seq<StreamEventModel>, bool),
                TransportErrorModel,
            >(e@) && *final(stream_done) == *old(stream_done),
        },
{
    match event {
        SseEvent::Comment(content) => {
            let mut out: Vec<StreamEvent> = Vec::new();
            out.push(StreamEvent::Comment(content));
            assert(deep(out@) =~= seq![StreamEventModel::Comment(content@)]);
            Ok(out)
        },
        SseEvent::Message { data } => match decode_stream_payload(data.as_str()) {
            Err(e) => Err(TransportError::Payload(e.message)),
            Ok(payload) => Ok(translate_payload(payload, stream_done)),
        },
    }
}

/// What is to be done after bytes of the response have been taken in.
#[derive(Debug, Clone, Copy, PartialEq, Eq, Structural)]
pub enum ReadNext {
    /// Read more bytes.
    More,
    /// The stream is complete.
    Finished,
}

/// A [`ResponseStream`] as a mathematical value.
#[verifier::ext_equal]
pub struct StreamModel {
    /// What was done with the HTTP decoder.
    pub http: Seq<HttpStep>,
    pub sse: DecoderModel,
    pub headers_parsed: bool,
    pub body_complete: bool,
    pub stream_done: bool,
}

/// The response to a request, as far as it has come in.
pub struct ResponseStream {
    http: HttpDecoder,
    sse: SseDecoder,
    headers_parsed: bool,
    body_complete: bool,
    stream_done: bool,
}

impl View for ResponseStream {
    type V = StreamModel;

    closed spec fn view(&self) -> StreamModel {
        StreamModel {
            http: decoder_steps(self.http),
            sse: self.sse@,
            headers_parsed: self.headers_parsed,
            body_complete: self.body_complete,
            stream_done: self.stream_done,
        }
    }
}

/// A response of which nothing has come in yet.
pub open spec fn new_stream() -> StreamModel {
    StreamModel {
        http: Seq::empty(),
        sse: empty_decoder(SseDecoder::DEFAULT_MAX_LINE_BYTES),
        headers_parsed: false,
        body_complete: false,
        stream_done: false,
    }
}

/// Moves the bytes of the body into the event decoder, as far as they are
/// there. Each step takes bytes off the HTTP decoder but the last, so that
/// the size of its buffer bounds their number. Says whether the body is
/// complete.
pub open spec fn drained(steps: Seq<HttpStep>, sse: DecoderModel, fuel: nat) -> (
    Seq<HttpStep>,
    DecoderModel,
    Result<bool, Seq<char>>,
)
    decreases fuel,
{
    if fuel == 0 {
        (steps, sse, Ok(false))
    } else {
        match peeked_body(steps) {
            Some(chunk) => {
                let after = steps.push(HttpStep::Consumed(chunk.len()));
                match consume_error(steps, chunk.len()) {
                    Some(e) => (after, fed(sse, chunk), Err(e)),
                    None => drained(after, fed(sse, chunk), (fuel - 1) as nat),
                }
            },
            None => {
                let after = steps.push(HttpStep::Progressed);
                match progressed(steps) {
                    Err(e) => (after, sse, Err(e)),
                    Ok(Progress::Complete) => (after, sse, Ok(true)),
                    Ok(Progress::NeedData) => (after, sse, Ok(false)),
                    Ok(Progress::Advanced) => drained(after, sse, (fuel - 1) as nat),
                }
            },
        }
    }
}

/// The events that are in the bytes of the body, up to the end of the stream
/// or the first error. Says whether the stream has ended.
pub open spec fn events_in(sse: DecoderModel) -> (
    DecoderModel,
    Seq<StreamEventModel>,
    Result<bool, TransportErrorModel>,
)
    decreases sse.buf.len(),
{
    let (after, next) = next_event_of(sse);
    match next {
        Err(e) => (after, Seq::empty(), Err(TransportErrorModel::Sse(e))),
        Ok(None) => (after, Seq::empty(), Ok(false)),
        Ok(Some(event)) => match translated(event) {
            Err(e) => (after, Seq::empty(), Err(e)),
            Ok((out, done)) => if done {
                (after, out, Ok(true))
            } else if after.buf.len() < sse.buf.len() {
                let (end, rest, r) = events_in(after);
                (end, out + rest, r)
            } else {
                (after, out, Ok(false))
            },
        },
    }
}

/// What comes of the body once the head has been read.
pub open spec fn body_received(m: StreamModel) -> (
    StreamModel,
    Seq<StreamEventModel>,
    Result<ReadNext, TransportErrorModel>,
) {
    let (steps, sse, body) = drained(m.http, m.sse, (BUFFER_MAX + 1) as nat);
    let n = StreamModel { http: steps, sse, ..m };
    match body {
        Err(e) => (n, Seq::empty(), Err(TransportErrorModel::HttpDecode(e))),
        Ok(complete) => {
            let (after, out, end) = events_in(sse);
            let o = StreamModel { sse: after, body_complete: m.body_complete || complete, ..n };
            match end {
                Err(e) => (o, out, Err(e)),
                Ok(done) => {
                    let p = StreamModel { stream_done: m.stream_done || done, ..o };
                    if p.stream_done {
                        (p, out, Ok(ReadNext::Finished))
                    } else if p.body_complete {
                        (p, out, Err(TransportErrorModel::ServerClosedBeforeDone))
                    } else {
                        (p, out, Ok(ReadNext::More))
                    }
                },
            }
        },
    }
}

/// What comes of bytes that were read; no bytes mean that the server has
/// closed the connection.
pub open spec fn received(m: StreamModel, bytes: Seq<u8>) -> (
    StreamModel,
    Seq<StreamEventModel>,
    Result<ReadNext, TransportErrorModel>,
) {
    if bytes.len() == 0 {
        if m.body_complete {
            (m, Seq::empty(), Ok(ReadNext::Finished))
        } else {
            (m, Seq::empty(), Err(TransportErrorModel::ServerClosedBeforeDone))
        }
    } else {
        let n = StreamModel { http: m.http.push(HttpStep::Fed(bytes)), ..m };
        if held_bytes(m.http).len() + bytes.len() > BUFFER_MAX {
            (
                n,
                Seq::empty(),
                Err(
                    TransportErrorModel::HttpDecode(
                        overflow_text(held_bytes(m.http).len() + bytes.len()),
                    ),
                ),
            )
        } else if n.headers_parsed {
            body_received(n)
        } else {
            let h = StreamModel { http: n.http.push(HttpStep::Headers), ..n };
            match decoded_head(n.http) {
                Err(e) => (h, Seq::empty(), Err(TransportErrorModel::HttpDecode(e))),
                Ok(None) => (h, Seq::empty(), Ok(ReadNext::More)),
                Ok(Some(status)) => if status != 200 {
                    (h, Seq::empty(), Err(TransportErrorModel::UnexpectedStatus { status }))
                } else {
                    body_received(StreamModel { headers_parsed: true, ..h })
                },
            }
        }
    }
}

/// Takes the events out of the bytes of the body. Appends them to `out`,
/// and returns whether the stream has ended.
pub fn take_events(sse: &mut SseDecoder, out: &mut Vec<StreamEvent>) -> (r: Result<bool, TransportError>)
    ensures
        ({
            let (after, events, end) = events_in(old(sse)@);
            &&& final(sse)@ == after
            &&& deep(final(out)@) == deep(old(out)@) + events
            &&& match r {
                Ok(done) => end == Ok::<bool, TransportErrorModel>(done),
                Err(e) => end == Err::<bool, TransportErrorModel>(e@),
            }
        }),
{
    let ghost start = sse@;
    let ghost head = deep(out@);
    let ghost mut sent = Seq::<StreamEventModel>::empty();
    assert(head + sent =~= head);
    assert(sent + events_in(start).1 =~= events_in(start).1);
    loop
        invariant
            deep(out@) == head + sent,
            events_in(start) == (
                events_in(sse@).0,
                sent + events_in(sse@).1,
                events_in(sse@).2,
            ),
            start == old(sse)@,
            head == deep(old(out)@),
        decreases sse@.buf.len(),
    {
        let ghost now = sse@;
        proof {
            lemma_events_shrink(now);
            assert(sent + Seq::<StreamEventModel>::empty() =~= sent);
        }
        let event = match sse.next_event() {
            Err(e) => return Err(TransportError::Sse(e)),
            Ok(None) => return Ok(false),
            Ok(Some(event)) => event,
        };
        let mut done = false;
        let mut events = match translate_sse_event(event, &mut done) {
            Err(e) => return Err(e),
            Ok(events) => events,
        };
        let ghost more = deep(events@);
        let ghost before = out@;
        out.append(&mut events);
        proof {
            assert(deep(out@) =~= deep(before) + more);
            assert(head + sent + more =~= head + (sent + more));
            if !done {
                assert(sent + (more + events_in(sse@).1) =~= (sent + more) + events_in(sse@).1);
            }
            sent = sent + more;
        }
        if done {
            return Ok(true);
        }
    }
}

impl ResponseStream {
    /// A response of which nothing has come in yet.
    pub fn new() -> (r: Self)
        ensures
            r@ == new_stream(),
    {
        ResponseStream {
            http: new_decoder(),
            sse: SseDecoder::new(),
            headers_parsed: false,
            body_complete: false,
            stream_done: false,
        }
    }

    /// Moves the bytes of the body into the event decoder. Returns whether
    /// the body is complete.
    fn drain_body(&mut self) -> (r: Result<bool, String>)
        requires
            held_bytes(old(self)@.http).len() <= BUFFER_MAX,
        ensures
            ({
                let (steps, sse, body) = drained(
                    old(self)@.http,
                    old(self)@.sse,
                    (BUFFER_MAX + 1) as nat,
                );
                &&& final(self)@ == (StreamModel { http: steps, sse, ..old(self)@ })
                &&& match r {
                    Ok(complete) => body == Ok::<bool, Seq<char>>(complete),
                    Err(e) => body == Err::<bool, Seq<char>>(e@),
                }
            }),
    {
        let ghost start = self@;
        let ghost full = (BUFFER_MAX + 1) as nat;
        let ghost mut fuel = full;
        loop
            invariant
                fuel > held_bytes(self@.http).len(),
                drained(self@.http, self@.sse, fuel) == drained(start.http, start.sse, full),
                self@ == (StreamModel { http: self@.http, sse: self@.sse, ..start }),
                full == (BUFFER_MAX + 1) as nat,
                start == old(self)@,
            decreases fuel,
        {
            match peek_body(&self.http) {
                Some(chunk) => {
                    self.sse.feed(chunk.as_slice());
                    let len: usize = chunk.len();
                    match consume_body(&mut self.http, len) {
                        Ok(_) => {},
                        Err(e) => return Err(e),
                    }
                },
                None => match progress(&mut self.http) {
                    Err(e) => return Err(e),
                    Ok(Progress::Complete) => return Ok(true),
                    Ok(Progress::NeedData) => return Ok(false),
                    Ok(Progress::Advanced) => {},
                },
            }
            proof {
                fuel = (fuel - 1) as nat;
            }
        }
    }

    /// Takes in the body once the head has been read.
    fn receive_body(&mut self, out: &mut Vec<StreamEvent>) -> (r: Result<ReadNext, TransportError>)
        requires
            held_bytes(old(self)@.http).len() <= BUFFER_MAX,
            old(out)@.len() == 0,
        ensures
            final(self)@ == body_received(old(self)@).0,
            deep(final(out)@) == body_received(old(self)@).1,
            match r {
                Ok(n) => body_received(old(self)@).2 == Ok::<ReadNext, TransportErrorModel>(n),
                Err(e) => body_received(old(self)@).2 == Err::<ReadNext, TransportErrorModel>(e@),
            },
    {
        proof {
            assert(old(out)@ =~= Seq::empty());
        }
        match self.drain_body() {
            Err(e) => return Err(TransportError::HttpDecode(e)),
            Ok(complete) => {
                if complete {
                    self.body_complete = true;
                }
            },
        }
        match take_events(&mut self.sse, out) {
            Err(e) => {
                assert(deep(out@) =~= body_received(old(self)@).1);
                return Err(e);
            },
            Ok(done) => {
                if done {
                    self.stream_done = true;
                }
            },
        }
        assert(deep(out@) =~= body_received(old(self)@).1);
        if self.stream_done {
            Ok(ReadNext::Finished)
        } else if self.body_complete {
            Err(TransportError::ServerClosedBeforeDone)
        } else {
            Ok(ReadNext::More)
        }
    }

    /// Takes in bytes that were read; no bytes mean that the server has
    /// closed the connection. Returns the events that are to be handed on,
    /// and what is to be done then.
    pub fn receive(&mut self, bytes: &[u8]) -> (r: (
        Vec<StreamEvent>,
        Result<ReadNext, TransportError>,
    ))
        ensures
            ({
                let (m, events, next) = received(old(self)@, bytes@);
                &&& final(self)@ == m
                &&& deep(r.0@) == events
                &&& match r.1 {
                    Ok(n) => next == Ok::<ReadNext, TransportErrorModel>(n),
                    Err(e) => next == Err::<ReadNext, TransportErrorModel>(e@),
                }
            }),
    {
        let mut out: Vec<StreamEvent> = Vec::new();
        if bytes.len() == 0 {
            if self.body_complete {
                return (out, Ok(ReadNext::Finished));
            }
            return (out, Err(TransportError::ServerClosedBeforeDone));
        }
        match feed(&mut self.http, bytes) {
            Err(e) => return (out, Err(TransportError::HttpDecode(e))),
            Ok(_) => {},
        }
        if !self.headers_parsed {
            match decode_headers(&mut self.http) {
                Err(e) => return (out, Err(TransportError::HttpDecode(e))),
                Ok(None) => return (out, Ok(ReadNext::More)),
                Ok(Some(status)) => {
                    if status != 200 {
                        return (out, Err(TransportError::UnexpectedStatus { status }));
                    }
                    self.headers_parsed = true;
                },
            }
        }
        let next = self.receive_body(&mut out);
        (out, next)
    }
}

} // verus!
