//! The response to a chat request as a `curl` child process delivers it.
//!
//! Endpoint and credentials come from the environment: `DEEPSEEK_API_KEY`,
//! and `DEEPSEEK_BASE_URL` for an endpoint other than the default one.
use vstd::prelude::*;
use vstd::string::*;

use crate::json::{parsed, required, string, JsonDoc, NodeModel};
use crate::model::{deep, first_some, lemma_first_at, lemma_first_none, maybe};
use crate::sansio::deepseek::{
    clone_calls, clone_text, decode_stream_payload, payload_of, CallModel, ChatMessage, ChunkModel,
    DeltaModel, MessageModel, PayloadModel, StreamChunk, StreamPayload, StreamToolCallDelta,
    ToolCall, Usage,
};
use crate::sansio::sse::{
    empty_decoder, fed, lemma_events_shrink, next_event_of, sse_error_text, DecoderModel,
    EventModel, SseDecoder, SseEvent,
};
use crate::text::{cat, cat3, lossy, lossy_text, trim, trim_end_of, trimmed, trimmed_end_of, views};

pub mod laws;

verus! {

broadcast use crate::model::group_deep;

/// The endpoint that is asked where no other is given.
pub const DEFAULT_BASE_URL: &'static str = "https://api.deepseek.com";

pub const BASE_URL_ENV: &'static str = "DEEPSEEK_BASE_URL";

pub const API_KEY_ENV: &'static str = "DEEPSEEK_API_KEY";

pub const CHAT_COMPLETIONS_PATH: &'static str = "/chat/completions";

/// The kinds of errors of a call.
#[derive(Debug, Clone, Copy, PartialEq, Eq, Structural)]
pub enum ErrorKind {
    NotFound,
    InvalidInput,
    Other,
}

/// What goes wrong with a call.
#[derive(Debug, PartialEq, Eq)]
pub struct CallError {
    pub kind: ErrorKind,
    pub message: String,
}

/// A [`CallError`] as a mathematical value.
#[verifier::ext_equal]
pub struct CallErrorModel {
    pub kind: ErrorKind,
    pub message: Seq<char>,
}

impl View for CallError {
    type V = CallErrorModel;

    open spec fn view(&self) -> CallErrorModel {
        CallErrorModel { kind: self.kind, message: self.message@ }
    }
}

impl CallError {
    /// The kind of the error.
    pub fn kind(&self) -> (r: ErrorKind)
        ensures
            r == self.kind,
    {
        self.kind
    }

    /// What the error says in words.
    pub fn to_string(&self) -> (r: String)
        ensures
            r@ == self.message@,
    {
        self.message.clone()
    }
}

/// The endpoint below a base, or the error where the base is empty.
pub open spec fn endpoint(base: Option<Seq<char>>) -> Result<Seq<char>, CallErrorModel> {
    let raw = match base {
        None => DEFAULT_BASE_URL@,
        Some(s) => s,
    };
    if raw.len() == 0 {
        Err(
            CallErrorModel {
                kind: ErrorKind::InvalidInput,
                message: BASE_URL_ENV@ + " is empty"@,
            },
        )
    } else {
        Ok(trimmed_end_of(raw, '/') + CHAT_COMPLETIONS_PATH@)
    }
}

/// The endpoint below a base such as `http://host:8888/v1`. Slashes at the
/// end of the base do not matter.
pub fn chat_completions_url(base: Option<&str>) -> (r: Result<String, CallError>)
    ensures
        ({
            let b = match base {
                None => None::<Seq<char>>,
                Some(s) => Some(s@),
            };
            match r {
                Ok(url) => endpoint(b) == Ok::<Seq<char>, CallErrorModel>(url@),
                Err(e) => endpoint(b) == Err::<Seq<char>, CallErrorModel>(e@),
            }
        }),
{
    proof {
        reveal_strlit("https://api.deepseek.com");
    }
    let raw = match base {
        None => DEFAULT_BASE_URL,
        Some(s) => s,
    };
    if raw.is_empty() {
        return Err(
            CallError { kind: ErrorKind::InvalidInput, message: cat(BASE_URL_ENV, " is empty") },
        );
    }
    Ok(cat(trim_end_of(raw, '/').as_str(), CHAT_COMPLETIONS_PATH))
}

/// The error of a base that is not text.
pub fn base_url_not_unicode() -> (r: CallError)
    ensures
        r@ == (CallErrorModel {
            kind: ErrorKind::InvalidInput,
            message: BASE_URL_ENV@ + " is not valid Unicode"@,
        }),
{
    CallError { kind: ErrorKind::InvalidInput, message: cat(BASE_URL_ENV, " is not valid Unicode") }
}

/// Checks that there is a key.
pub fn check_api_key(key: Option<&str>) -> (r: Result<(), CallError>)
    ensures
        match r {
            Ok(_) => key is Some && key->0@.len() > 0,
            Err(e) => match key {
                None => e@ == (CallErrorModel {
                    kind: ErrorKind::NotFound,
                    message: API_KEY_ENV@ + " is not set"@,
                }),
                Some(k) => k@.len() == 0 && e@ == (CallErrorModel {
                    kind: ErrorKind::InvalidInput,
                    message: API_KEY_ENV@ + " is empty"@,
                }),
            },
        },
{
    match key {
        None => Err(
            CallError { kind: ErrorKind::NotFound, message: cat(API_KEY_ENV, " is not set") },
        ),
        Some(k) => if k.is_empty() {
            Err(
                CallError { kind: ErrorKind::InvalidInput, message: cat(API_KEY_ENV, " is empty") },
            )
        } else {
            Ok(())
        },
    }
}

/// The arguments of the child process. The body goes to its standard input;
/// an error status makes it fail, with the body of the response all the same.
pub open spec fn curl_arguments(api_key: Seq<char>, url: Seq<char>) -> Seq<Seq<char>> {
    seq![
        "-sS"@,
        "-N"@,
        "--fail-with-body"@,
        "-H"@,
        "Authorization: Bearer "@ + api_key,
        "-H"@,
        "Content-Type: application/json"@,
        "-H"@,
        "Accept: text/event-stream"@,
        "--data-binary"@,
        "@-"@,
        url,
    ]
}

/// The arguments of the child process.
pub fn curl_args(api_key: &str, url: &str) -> (r: Vec<String>)
    ensures
        views(r@) == curl_arguments(api_key@, url@),
{
    let mut out: Vec<String> = Vec::new();
    out.push("-sS".to_owned());
    out.push("-N".to_owned());
    out.push("--fail-with-body".to_owned());
    out.push("-H".to_owned());
    out.push(cat("Authorization: Bearer ", api_key));
    out.push("-H".to_owned());
    out.push("Content-Type: application/json".to_owned());
    out.push("-H".to_owned());
    out.push("Accept: text/event-stream".to_owned());
    out.push("--data-binary".to_owned());
    out.push("@-".to_owned());
    out.push(url.to_owned());
    assert(views(out@) =~= curl_arguments(api_key@, url@));
    out
}

/// The message of an error document: `error.message`, unless it is empty.
pub open spec fn error_message_in(doc: Seq<NodeModel>) -> Option<Seq<char>> {
    match required(doc, 0, "error"@) {
        Err(_) => None,
        Ok(error) => match required(doc, error, "message"@) {
            Err(_) => None,
            Ok(message) => match string(doc, message) {
                Err(_) => None,
                Ok(text) => if text.len() == 0 {
                    None
                } else {
                    Some(text)
                },
            },
        },
    }
}

/// The message of an error response.
pub open spec fn api_error_message(body: Seq<char>) -> Option<Seq<char>> {
    match parsed(trimmed(body)) {
        Err(_) => None,
        Ok(doc) => error_message_in(doc),
    }
}

/// Finds the message of an error document.
pub fn find_error_message(doc: &JsonDoc) -> (r: Option<String>)
    requires
        doc.wf(),
    ensures
        maybe(r) == error_message_in(doc@),
{
    let error: usize = match doc.required(0, "error") {
        Err(_) => return None,
        Ok(error) => error,
    };
    let message: usize = match doc.required(error, "message") {
        Err(_) => return None,
        Ok(message) => message,
    };
    match doc.string(message) {
        Err(_) => None,
        Ok(text) => if text.as_str().is_empty() {
            None
        } else {
            Some(text)
        },
    }
}

/// Finds the message of an error response.
pub fn extract_api_error_message(body: &str) -> (r: Option<String>)
    ensures
        maybe(r) == api_error_message(body@),
{
    match JsonDoc::parse(trim(body).as_str()) {
        Err(_) => None,
        Ok(doc) => find_error_message(&doc),
    }
}

/// Why the child process failed: what the server said, or else what it sent,
/// or else what the child process said.
pub open spec fn curl_failure(status: Seq<char>, body: Seq<u8>, stderr: Seq<char>) -> Seq<char> {
    let text = lossy_text(body);
    let head = "curl exited with "@ + status;
    match api_error_message(text) {
        Some(message) => "API request failed: "@ + message,
        None => if trimmed(text).len() > 0 {
            head + ": "@ + trimmed(text)
        } else if stderr.len() > 0 {
            head + ": "@ + stderr
        } else {
            head
        },
    }
}

/// Says why the child process failed.
pub fn format_curl_failure(status: &str, body: &[u8], stderr: &str) -> (r: String)
    ensures
        r@ == curl_failure(status@, body@, stderr@),
{
    let text = lossy(body);
    if let Some(message) = extract_api_error_message(text.as_str()) {
        return cat("API request failed: ", message.as_str());
    }
    let head = cat("curl exited with ", status);
    let text = trim(text.as_str());
    if !text.as_str().is_empty() {
        return cat3(head.as_str(), ": ", text.as_str());
    }
    if !stderr.is_empty() {
        return cat3(head.as_str(), ": ", stderr);
    }
    head
}

/// What a call to the model returns.
#[derive(Debug, PartialEq, Eq)]
pub struct CallResult {
    pub content: String,
    pub reasoning_content: Option<String>,
    pub tool_calls: Vec<ToolCall>,
    pub finish_reason: Option<String>,
    /// Token counters, where the server sent them.
    pub usage: Option<Usage>,
}

/// A [`CallResult`] as a mathematical value.
#[verifier::ext_equal]
pub struct CallResultModel {
    pub content: Seq<char>,
    pub reasoning_content: Option<Seq<char>>,
    pub tool_calls: Seq<CallModel>,
    pub finish_reason: Option<Seq<char>>,
    pub usage: Option<Usage>,
}

impl View for CallResult {
    type V = CallResultModel;

    open spec fn view(&self) -> CallResultModel {
        CallResultModel {
            content: self.content@,
            reasoning_content: maybe(self.reasoning_content),
            tool_calls: deep(self.tool_calls@),
            finish_reason: maybe(self.finish_reason),
            usage: self.usage,
        }
    }
}

impl Clone for CallResult {
    fn clone(&self) -> (r: Self)
        ensures
            r@ == self@,
    {
        CallResult {
            content: self.content.clone(),
            reasoning_content: clone_text(&self.reasoning_content),
            tool_calls: clone_calls(&self.tool_calls),
            finish_reason: clone_text(&self.finish_reason),
            usage: self.usage,
        }
    }
}

/// The assistant message that a result holds.
pub open spec fn assistant_of(r: CallResultModel) -> MessageModel {
    MessageModel::Assistant {
        content: r.content,
        reasoning_content: r.reasoning_content,
        tool_calls: r.tool_calls,
    }
}

impl CallResult {
    /// The assistant message that the result holds.
    pub fn into_assistant(self) -> (r: ChatMessage)
        ensures
            r@ == assistant_of(self@),
    {
        ChatMessage::Assistant {
            content: self.content,
            reasoning_content: self.reasoning_content,
            tool_calls: self.tool_calls,
        }
    }
}

/// A tool call as far as it has come in.
#[verifier::ext_equal]
pub struct SlotModel {
    pub index: u64,
    pub call: CallModel,
}

struct ToolSlot {
    index: u64,
    call: ToolCall,
}

impl View for ToolSlot {
    type V = SlotModel;

    closed spec fn view(&self) -> SlotModel {
        SlotModel { index: self.index, call: self.call@ }
    }
}

/// A call of which nothing has come in yet.
pub open spec fn empty_slot(index: u64) -> SlotModel {
    SlotModel {
        index,
        call: CallModel {
            id: Seq::empty(),
            function_name: Seq::empty(),
            arguments_json: Seq::empty(),
        },
    }
}

/// The first text that is not empty stays.
pub open spec fn filled(old: Seq<char>, new: Option<Seq<char>>) -> Seq<char> {
    if old.len() == 0 && new is Some {
        new->0
    } else {
        old
    }
}

/// A call with one more fragment.
pub open spec fn slot_with(s: SlotModel, d: DeltaModel) -> SlotModel {
    SlotModel {
        index: s.index,
        call: CallModel {
            id: filled(s.call.id, d.id),
            function_name: filled(s.call.function_name, d.function_name),
            arguments_json: match d.arguments_fragment {
                Some(f) => s.call.arguments_json + f,
                None => s.call.arguments_json,
            },
        },
    }
}

/// Where the call with that index stands.
pub open spec fn slot_at(slots: Seq<SlotModel>, index: u64) -> Option<int> {
    first_some(
        slots.len() as int,
        |i: int|
            if slots[i].index == index {
                Some(i)
            } else {
                None
            },
    )
}

/// The calls with one more fragment. A new index makes a new call, behind the
/// others.
pub open spec fn slots_with(slots: Seq<SlotModel>, d: DeltaModel) -> Seq<SlotModel> {
    match slot_at(slots, d.index) {
        Some(i) => slots.update(i, slot_with(slots[i], d)),
        None => slots.push(slot_with(empty_slot(d.index), d)),
    }
}

/// The calls with more fragments.
pub open spec fn slots_with_all(slots: Seq<SlotModel>, deltas: Seq<DeltaModel>) -> Seq<SlotModel>
    decreases deltas.len(),
{
    if deltas.len() == 0 {
        slots
    } else {
        slots_with(slots_with_all(slots, deltas.drop_last()), deltas.last())
    }
}

/// A response as far as it has come in.
#[verifier::ext_equal]
pub struct AssemblyModel {
    pub content: Seq<char>,
    pub reasoning: Seq<char>,
    pub slots: Seq<SlotModel>,
    pub finish_reason: Option<Seq<char>>,
    pub usage: Option<Usage>,
}

/// A text with what came behind it.
pub open spec fn extended(s: Seq<char>, more: Option<Seq<char>>) -> Seq<char> {
    match more {
        Some(m) => s + m,
        None => s,
    }
}

/// A response with one more chunk.
pub open spec fn absorbed(a: AssemblyModel, c: ChunkModel) -> AssemblyModel {
    AssemblyModel {
        content: extended(a.content, c.content_delta),
        reasoning: extended(a.reasoning, c.reasoning_delta),
        slots: slots_with_all(a.slots, c.tool_call_deltas),
        finish_reason: if c.finish_reason is Some {
            c.finish_reason
        } else {
            a.finish_reason
        },
        usage: if c.usage is Some {
            c.usage
        } else {
            a.usage
        },
    }
}

/// A response of which nothing has come in yet.
pub open spec fn empty_assembly() -> AssemblyModel {
    AssemblyModel {
        content: Seq::empty(),
        reasoning: Seq::empty(),
        slots: Seq::empty(),
        finish_reason: None,
        usage: None,
    }
}

/// The result once the response has come in.
pub open spec fn finished(a: AssemblyModel) -> CallResultModel {
    CallResultModel {
        content: a.content,
        reasoning_content: if a.reasoning.len() == 0 {
            None
        } else {
            Some(a.reasoning)
        },
        tool_calls: a.slots.map_values(|s: SlotModel| s.call),
        finish_reason: a.finish_reason,
        usage: a.usage,
    }
}

/// What the user is shown of a response while it comes in.
#[derive(Debug, PartialEq, Eq)]
pub enum Shown {
    Content(String),
    Reasoning(String),
}

/// A [`Shown`] as a mathematical value.
#[verifier::ext_equal]
pub enum ShownModel {
    Content(Seq<char>),
    Reasoning(Seq<char>),
}

impl View for Shown {
    type V = ShownModel;

    open spec fn view(&self) -> ShownModel {
        match self {
            Shown::Content(s) => ShownModel::Content(s@),
            Shown::Reasoning(s) => ShownModel::Reasoning(s@),
        }
    }
}

/// What the user is shown of a chunk.
pub open spec fn shown(c: ChunkModel) -> Seq<ShownModel> {
    (match c.content_delta {
        Some(s) => seq![ShownModel::Content(s)],
        None => Seq::empty(),
    }) + (match c.reasoning_delta {
        Some(s) => seq![ShownModel::Reasoning(s)],
        None => Seq::empty(),
    })
}

/// Puts a response together from its chunks.
pub struct Assembly {
    content: String,
    reasoning: String,
    tool_slots: Vec<ToolSlot>,
    finish_reason: Option<String>,
    usage: Option<Usage>,
}

impl View for Assembly {
    type V = AssemblyModel;

    closed spec fn view(&self) -> AssemblyModel {
        AssemblyModel {
            content: self.content@,
            reasoning: self.reasoning@,
            slots: deep(self.tool_slots@),
            finish_reason: maybe(self.finish_reason),
            usage: self.usage,
        }
    }
}

fn fill(old: String, new: Option<String>) -> (r: String)
    ensures
        r@ == filled(old@, maybe(new)),
{
    if old.as_str().is_empty() {
        match new {
            Some(s) => s,
            None => old,
        }
    } else {
        old
    }
}

impl ToolSlot {
    fn take_in(self, delta: StreamToolCallDelta) -> (r: ToolSlot)
        ensures
            r@ == slot_with(self@, delta@),
    {
        let mut arguments_json = self.call.arguments_json;
        if let Some(fragment) = delta.arguments_fragment {
            arguments_json.append(fragment.as_str());
        }
        ToolSlot {
            index: self.index,
            call: ToolCall {
                id: fill(self.call.id, delta.id),
                function_name: fill(self.call.function_name, delta.function_name),
                arguments_json,
            },
        }
    }
}

impl Assembly {
    /// A response of which nothing has come in yet.
    pub fn new() -> (r: Self)
        ensures
            r@ == empty_assembly(),
    {
        Assembly {
            content: String::new(),
            reasoning: String::new(),
            tool_slots: Vec::new(),
            finish_reason: None,
            usage: None,
        }
    }

    fn find_slot(&self, index: u64) -> (r: Option<usize>)
        ensures
            match r {
                Some(i) => i < self.tool_slots@.len() && slot_at(self@.slots, index) == Some(
                    i as int,
                ),
                None => slot_at(self@.slots, index) is None,
            },
    {
        let ghost all = self@.slots;
        let ghost f = |i: int|
            if all[i].index == index {
                Some(i)
            } else {
                None
            };
        let mut i: usize = 0;
        while i < self.tool_slots.len()
            invariant
                i <= self.tool_slots@.len(),
                all == deep(self.tool_slots@),
                f == (|i: int|
                    if all[i].index == index {
                        Some(i)
                    } else {
                        None
                    }),
                forall|j: int| 0 <= j < i ==> #[trigger] f(j) is None,
            decreases self.tool_slots@.len() - i,
        {
            assert(all[i as int] == self.tool_slots@[i as int]@);
            if self.tool_slots[i].index == index {
                proof {
                    lemma_first_at(all.len() as int, f, i as int);
                }
                return Some(i);
            }
            i = i + 1;
        }
        proof {
            lemma_first_none(all.len() as int, f);
        }
        None
    }

    fn absorb_tool_call(&mut self, delta: StreamToolCallDelta)
        ensures
            final(self)@ == (AssemblyModel {
                slots: slots_with(old(self)@.slots, delta@),
                ..old(self)@
            }),
    {
        let ghost before = self@;
        match self.find_slot(delta.index) {
            Some(i) => {
                let slot = self.tool_slots.remove(i);
                let ghost rest = self.tool_slots@;
                let slot = slot.take_in(delta);
                self.tool_slots.insert(i, slot);
                assert(deep(self.tool_slots@) =~= before.slots.update(i as int, slot@));
            },
            None => {
                let slot = ToolSlot {
                    index: delta.index,
                    call: ToolCall {
                        id: String::new(),
                        function_name: String::new(),
                        arguments_json: String::new(),
                    },
                };
                assert(slot@ =~= empty_slot(delta.index));
                self.tool_slots.push(slot.take_in(delta));
            },
        }
    }

    fn absorb_tool_calls(&mut self, deltas: Vec<StreamToolCallDelta>)
        ensures
            final(self)@ == (AssemblyModel {
                slots: slots_with_all(old(self)@.slots, deep(deltas@)),
                ..old(self)@
            }),
    {
        let ghost start = self@;
        let ghost all = deep(deltas@);
        let n: usize = deltas.len();
        let mut i: usize = 0;
        assert(all.take(0) =~= Seq::empty());
        while i < n
            invariant
                i <= n,
                n == deltas@.len(),
                all == deep(deltas@),
                self@ == (AssemblyModel {
                    slots: slots_with_all(start.slots, all.take(i as int)),
                    ..start
                }),
            decreases n - i,
        {
            proof {
                assert(all.take(i + 1).drop_last() =~= all.take(i as int));
                assert(all.take(i + 1).last() == deltas@[i as int]@);
            }
            self.absorb_tool_call(
                StreamToolCallDelta {
                    index: deltas[i].index,
                    id: clone_text(&deltas[i].id),
                    function_name: clone_text(&deltas[i].function_name),
                    arguments_fragment: clone_text(&deltas[i].arguments_fragment),
                },
            );
            i = i + 1;
        }
        assert(all.take(all.len() as int) =~= all);
    }

    /// Takes in a chunk. Appends what the user is shown of it to `out`.
    pub fn absorb_chunk(&mut self, chunk: StreamChunk, out: &mut Vec<Shown>)
        ensures
            final(self)@ == absorbed(old(self)@, chunk@),
            deep(final(out)@) == deep(old(out)@) + shown(chunk@),
    {
        let ghost c = chunk@;
        let ghost head = deep(out@);
        if let Some(delta) = chunk.content_delta {
            self.content.append(delta.as_str());
            out.push(Shown::Content(delta));
        }
        if let Some(delta) = chunk.reasoning_delta {
            self.reasoning.append(delta.as_str());
            out.push(Shown::Reasoning(delta));
        }
        assert(deep(out@) =~= head + shown(c));
        self.absorb_tool_calls(chunk.tool_call_deltas);
        if chunk.finish_reason.is_some() {
            self.finish_reason = chunk.finish_reason;
        }
        if chunk.usage.is_some() {
            self.usage = chunk.usage;
        }
    }

    /// The result once the response has come in.
    pub fn finish(self) -> (r: CallResult)
        ensures
            r@ == finished(self@),
    {
        let slots = self.tool_slots;
        let mut tool_calls: Vec<ToolCall> = Vec::new();
        let mut i: usize = 0;
        while i < slots.len()
            invariant
                i <= slots@.len(),
                tool_calls@.len() == i,
                forall|k: int| 0 <= k < i ==> (#[trigger] tool_calls@[k])@ == slots@[k]@.call,
            decreases slots@.len() - i,
        {
            tool_calls.push(slots[i].call.clone());
            i = i + 1;
        }
        assert(deep(tool_calls@) =~= deep(slots@).map_values(|s: SlotModel| s.call));
        CallResult {
            content: self.content,
            reasoning_content: if self.reasoning.as_str().is_empty() {
                None
            } else {
                Some(self.reasoning)
            },
            tool_calls,
            finish_reason: self.finish_reason,
            usage: self.usage,
        }
    }
}

/// A [`CurlStream`] as a mathematical value.
#[verifier::ext_equal]
pub struct CurlModel {
    pub sse: DecoderModel,
    pub assembly: AssemblyModel,
    /// All bytes that came in.
    pub raw_body: Seq<u8>,
}

/// The output of the child process, as far as it has come in.
pub struct CurlStream {
    sse: SseDecoder,
    assembly: Assembly,
    raw_body: Vec<u8>,
}

impl View for CurlStream {
    type V = CurlModel;

    closed spec fn view(&self) -> CurlModel {
        CurlModel {
            sse: self.sse@,
            assembly: self.assembly@,
            raw_body: self.raw_body@,
        }
    }
}

/// The events of the stream, one after the other, up to `[DONE]` or the first
/// error. Says whether `[DONE]` came.
pub open spec fn assembled(sse: DecoderModel, a: AssemblyModel) -> (
    DecoderModel,
    AssemblyModel,
    Seq<ShownModel>,
    Result<bool, Seq<char>>,
)
    decreases sse.buf.len(),
{
    let (after, next) = next_event_of(sse);
    match next {
        Err(e) => (after, a, Seq::empty(), Err("sse decode: "@ + sse_error_text(e))),
        Ok(None) => (after, a, Seq::empty(), Ok(false)),
        Ok(Some(event)) => {
            let (b, out) = match event {
                EventModel::Message { data } => match payload_of(data) {
                    Ok(PayloadModel::Chunk(c)) => (absorbed(a, c), shown(c)),
                    _ => (a, Seq::empty()),
                },
                EventModel::Comment(_) => (a, Seq::empty()),
            };
            let stop = match event {
                EventModel::Message { data } => match payload_of(data) {
                    Err(e) => Some(Err::<bool, Seq<char>>("stream payload: "@ + e)),
                    Ok(PayloadModel::Done) => Some(Ok::<bool, Seq<char>>(true)),
                    Ok(PayloadModel::Chunk(_)) => None,
                },
                EventModel::Comment(_) => None,
            };
            match stop {
                Some(r) => (after, a, Seq::empty(), r),
                None => if after.buf.len() < sse.buf.len() {
                    let (s, z, rest, r) = assembled(after, b);
                    (s, z, out + rest, r)
                } else {
                    (after, b, out, Ok(false))
                },
            }
        },
    }
}

impl CurlStream {
    /// A child process that has said nothing yet.
    pub fn new() -> (r: Self)
        ensures
            r@ == (CurlModel {
                sse: empty_decoder(SseDecoder::DEFAULT_MAX_LINE_BYTES),
                assembly: empty_assembly(),
                raw_body: Seq::empty(),
            }),
    {
        CurlStream { sse: SseDecoder::new(), assembly: Assembly::new(), raw_body: Vec::new() }
    }

    /// All bytes that came in.
    pub fn raw_body(&self) -> (r: &Vec<u8>)
        ensures
            r@ == self@.raw_body,
    {
        &self.raw_body
    }

    /// The result of the call.
    pub fn finish(self) -> (r: CallResult)
        ensures
            r@ == finished(self@.assembly),
    {
        self.assembly.finish()
    }

    /// Takes in bytes of the output. Returns what the user is shown of them,
    /// and whether the response is complete.
    pub fn receive(&mut self, bytes: &[u8]) -> (r: (Vec<Shown>, Result<bool, String>))
        ensures
            ({
                let (sse, assembly, out, end) = assembled(
                    fed(old(self)@.sse, bytes@),
                    old(self)@.assembly,
                );
                &&& final(self)@ == (CurlModel {
                    sse,
                    assembly,
                    raw_body: old(self)@.raw_body + bytes@,
                })
                &&& deep(r.0@) == out
                &&& match r.1 {
                    Ok(done) => end == Ok::<bool, Seq<char>>(done),
                    Err(e) => end == Err::<bool, Seq<char>>(e@),
                }
            }),
    {
        self.raw_body.extend_from_slice(bytes);
        self.sse.feed(bytes);
        let ghost raw = old(self)@.raw_body + bytes@;
        assert(self.raw_body@ =~= raw);
        let ghost start = assembled(fed(old(self)@.sse, bytes@), old(self)@.assembly);
        let mut out: Vec<Shown> = Vec::new();
        assert(deep(out@) + start.2 =~= start.2);
        loop
            invariant
                self@.raw_body == raw,
                start == ({
                    let (s, a, rest, r) = assembled(self@.sse, self@.assembly);
                    (s, a, deep(out@) + rest, r)
                }),
                start == assembled(fed(old(self)@.sse, bytes@), old(self)@.assembly),
                raw == old(self)@.raw_body + bytes@,
            decreases self@.sse.buf.len(),
        {
            let ghost now = self@;
            let ghost so_far = deep(out@);
            proof {
                lemma_events_shrink(now.sse);
                assert(so_far + Seq::<ShownModel>::empty() =~= so_far);
            }
            let event = match self.sse.next_event() {
                Err(e) => {
                    return (out, Err(cat("sse decode: ", e.to_string().as_str())));
                },
                Ok(None) => return (out, Ok(false)),
                Ok(Some(event)) => event,
            };
            match event {
                SseEvent::Message { data } => match decode_stream_payload(data.as_str()) {
                    Err(e) => {
                        return (out, Err(cat("stream payload: ", e.message.as_str())));
                    },
                    Ok(StreamPayload::Done) => return (out, Ok(true)),
                    Ok(StreamPayload::Chunk(chunk)) => {
                        let ghost c = chunk@;
                        self.assembly.absorb_chunk(chunk, &mut out);
                        proof {
                            let rest = assembled(self@.sse, self@.assembly).2;
                            assert(so_far + (shown(c) + rest) =~= (so_far + shown(c)) + rest);
                        }
                    },
                },
                SseEvent::Comment(_) => {
                    proof {
                        let rest = assembled(self@.sse, self@.assembly).2;
                        assert(Seq::<ShownModel>::empty() + rest =~= rest);
                    }
                },
            }
        }
    }
}

/// Whether no two calls have the same index.
pub open spec fn indices_distinct(slots: Seq<SlotModel>) -> bool {
    forall|i: int, j: int|
        0 <= i < j < slots.len() ==> (#[trigger] slots[i]).index != (#[trigger] slots[j]).index
}

/// A call is made of all fragments with its index: however they come in, no
/// two calls have the same index.
pub proof fn law_one_call_per_index(slots: Seq<SlotModel>, deltas: Seq<DeltaModel>)
    requires
        indices_distinct(slots),
    ensures
        indices_distinct(slots_with_all(slots, deltas)),
    decreases deltas.len(),
{
    if deltas.len() > 0 {
        law_one_call_per_index(slots, deltas.drop_last());
        let before = slots_with_all(slots, deltas.drop_last());
        let d = deltas.last();
        let after = slots_with(before, d);
        let f = |i: int|
            if before[i].index == d.index {
                Some(i)
            } else {
                None
            };
        if slot_at(before, d.index) is Some {
            let k = crate::model::lemma_first_found(before.len() as int, f);
        } else {
            assert forall|i: int| 0 <= i < before.len() implies before[i].index != d.index by {
                crate::model::lemma_none_before(before.len() as int, f, i);
                assert(f(i) is None);
            }
        }
        assert forall|i: int, j: int| 0 <= i < j < after.len() implies (#[trigger] after[i]).index
            != (#[trigger] after[j]).index by {
            if slot_at(before, d.index) is Some {
                assert(before[i].index != before[j].index);
            } else if j < before.len() {
                assert(before[i].index != before[j].index);
            }
        }
    }
}

} // verus!
