//! Request and response types of an OpenAI-compatible chat API.
//!
//! A [`ChatRequest`] is written as JSON; the payloads of the streamed
//! response are read into [`StreamPayload`]s. `[DONE]` ends the stream.
use vstd::prelude::*;
use vstd::string::*;

use crate::json::{
    array_text, elements, indices, invalid_text, lemma_read_list_step, member, nullable_string,
    parsed, quote, quoted, read_list, required, unsigned, write_array, JsonDoc, JsonError,
    NodeModel,
};
use crate::model::{deep, lemma_deep_push, maybe};
use crate::text::{cat, decimal, decimal_of, same, trim, trimmed, views};

pub mod chunks;
pub mod requests;

verus! {

/// A single message in a chat conversation.
#[derive(Debug, PartialEq, Eq)]
pub enum ChatMessage {
    System(String),
    User(String),
    Assistant {
        content: String,
        reasoning_content: Option<String>,
        tool_calls: Vec<ToolCall>,
    },
    Tool { tool_call_id: String, content: String },
}

/// A [`ChatMessage`] as a mathematical value.
#[verifier::ext_equal]
pub enum MessageModel {
    System(Seq<char>),
    User(Seq<char>),
    Assistant {
        content: Seq<char>,
        reasoning_content: Option<Seq<char>>,
        tool_calls: Seq<CallModel>,
    },
    Tool { tool_call_id: Seq<char>, content: Seq<char> },
}

impl View for ChatMessage {
    type V = MessageModel;

    open spec fn view(&self) -> MessageModel {
        match self {
            ChatMessage::System(s) => MessageModel::System(s@),
            ChatMessage::User(s) => MessageModel::User(s@),
            ChatMessage::Assistant { content, reasoning_content, tool_calls } => {
                MessageModel::Assistant {
                    content: content@,
                    reasoning_content: maybe(*reasoning_content),
                    tool_calls: deep(tool_calls@),
                }
            },
            ChatMessage::Tool { tool_call_id, content } => MessageModel::Tool {
                tool_call_id: tool_call_id@,
                content: content@,
            },
        }
    }
}

impl Clone for ChatMessage {
    fn clone(&self) -> (r: Self)
        ensures
            r@ == self@,
    {
        match self {
            ChatMessage::System(s) => ChatMessage::System(s.clone()),
            ChatMessage::User(s) => ChatMessage::User(s.clone()),
            ChatMessage::Assistant { content, reasoning_content, tool_calls } => {
                ChatMessage::Assistant {
                    content: content.clone(),
                    reasoning_content: clone_text(reasoning_content),
                    tool_calls: clone_calls(tool_calls),
                }
            },
            ChatMessage::Tool { tool_call_id, content } => ChatMessage::Tool {
                tool_call_id: tool_call_id.clone(),
                content: content.clone(),
            },
        }
    }
}

/// A copy of a text that may be absent.
pub fn clone_text(s: &Option<String>) -> (r: Option<String>)
    ensures
        maybe(r) == maybe(*s),
{
    match s {
        Some(s) => Some(s.clone()),
        None => None,
    }
}

/// A copy of a list of texts.
pub fn clone_texts(v: &Vec<String>) -> (r: Vec<String>)
    ensures
        views(r@) == views(v@),
{
    let mut out: Vec<String> = Vec::new();
    let mut i: usize = 0;
    while i < v.len()
        invariant
            i <= v@.len(),
            out@.len() == i,
            forall|k: int| 0 <= k < i ==> (#[trigger] out@[k])@ == v@[k]@,
        decreases v@.len() - i,
    {
        out.push(v[i].clone());
        i = i + 1;
    }
    assert(views(out@) =~= views(v@));
    out
}

/// A copy of a list of calls.
pub fn clone_calls(v: &Vec<ToolCall>) -> (r: Vec<ToolCall>)
    ensures
        deep(r@) == deep(v@),
{
    let mut out: Vec<ToolCall> = Vec::new();
    let mut i: usize = 0;
    while i < v.len()
        invariant
            i <= v@.len(),
            out@.len() == i,
            forall|k: int| 0 <= k < i ==> (#[trigger] out@[k])@ == v@[k]@,
        decreases v@.len() - i,
    {
        out.push(v[i].clone());
        i = i + 1;
    }
    assert(deep(out@) =~= deep(v@));
    out
}

/// A copy of a conversation.
pub fn clone_messages(v: &Vec<ChatMessage>) -> (r: Vec<ChatMessage>)
    ensures
        deep(r@) == deep(v@),
{
    let mut out: Vec<ChatMessage> = Vec::new();
    let mut i: usize = 0;
    while i < v.len()
        invariant
            i <= v@.len(),
            out@.len() == i,
            forall|k: int| 0 <= k < i ==> (#[trigger] out@[k])@ == v@[k]@,
        decreases v@.len() - i,
    {
        out.push(v[i].clone());
        i = i + 1;
    }
    assert(deep(out@) =~= deep(v@));
    out
}

/// The JSON object of a message.
pub open spec fn message_json(m: MessageModel) -> Seq<char> {
    match m {
        MessageModel::System(content) => "{\"role\":\"system\",\"content\":"@ + quoted(content)
            + "}"@,
        MessageModel::User(content) => "{\"role\":\"user\",\"content\":"@ + quoted(content) + "}"@,
        MessageModel::Assistant { content, reasoning_content, tool_calls } => {
            "{\"role\":\"assistant\",\"content\":"@ + (if tool_calls.len() > 0 && content.len() == 0 {
                "null"@
            } else {
                quoted(content)
            }) + (if tool_calls.len() > 0 {
                ",\"tool_calls\":"@ + array_text(
                    tool_calls.map_values(|c: CallModel| call_json(c)),
                )
            } else {
                Seq::empty()
            }) + (match reasoning_content {
                Some(reasoning) => ",\"reasoning_content\":"@ + quoted(reasoning),
                None => Seq::empty(),
            }) + "}"@
        },
        MessageModel::Tool { tool_call_id, content } => "{\"role\":\"tool\",\"tool_call_id\":"@
            + quoted(tool_call_id) + ",\"content\":"@ + quoted(content) + "}"@,
    }
}

impl ChatMessage {
    /// A plain assistant turn.
    pub fn assistant_text(content: &str) -> (r: Self)
        ensures
            r@ == (MessageModel::Assistant {
                content: content@,
                reasoning_content: None,
                tool_calls: Seq::empty(),
            }),
    {
        let r = ChatMessage::Assistant {
            content: content.to_owned(),
            reasoning_content: None,
            tool_calls: Vec::new(),
        };
        assert(deep(Seq::<ToolCall>::empty()) =~= Seq::empty());
        r
    }

    /// Writes the message as JSON.
    pub fn to_json_string(&self) -> (r: String)
        ensures
            r@ == message_json(self@),
    {
        match self {
            ChatMessage::System(content) => {
                let mut out = "{\"role\":\"system\",\"content\":".to_owned();
                out.append(quote(content.as_str()).as_str());
                out.append("}");
                out
            },
            ChatMessage::User(content) => {
                let mut out = "{\"role\":\"user\",\"content\":".to_owned();
                out.append(quote(content.as_str()).as_str());
                out.append("}");
                out
            },
            ChatMessage::Assistant { content, reasoning_content, tool_calls } => {
                let mut out = "{\"role\":\"assistant\",\"content\":".to_owned();
                if tool_calls.len() > 0 && content.as_str().is_empty() {
                    out.append("null");
                } else {
                    out.append(quote(content.as_str()).as_str());
                }
                let ghost head = out@;
                if tool_calls.len() > 0 {
                    let mut parts: Vec<String> = Vec::new();
                    let mut i: usize = 0;
                    while i < tool_calls.len()
                        invariant
                            i <= tool_calls@.len(),
                            parts@.len() == i,
                            forall|k: int|
                                0 <= k < i ==> (#[trigger] parts@[k])@ == call_json(tool_calls@[k]@),
                        decreases tool_calls@.len() - i,
                    {
                        parts.push(tool_calls[i].to_json_string());
                        i = i + 1;
                    }
                    assert(views(parts@) =~= deep(tool_calls@).map_values(
                        |c: CallModel| call_json(c),
                    ));
                    let mut list = ",\"tool_calls\":".to_owned();
                    list.append(write_array(&parts).as_str());
                    out.append(list.as_str());
                } else {
                    assert(head + Seq::<char>::empty() =~= head);
                }
                let ghost body = out@;
                if let Some(reasoning) = reasoning_content {
                    let mut part = ",\"reasoning_content\":".to_owned();
                    part.append(quote(reasoning.as_str()).as_str());
                    out.append(part.as_str());
                } else {
                    assert(body + Seq::<char>::empty() =~= body);
                }
                out.append("}");
                out
            },
            ChatMessage::Tool { tool_call_id, content } => {
                let mut out = "{\"role\":\"tool\",\"tool_call_id\":".to_owned();
                out.append(quote(tool_call_id.as_str()).as_str());
                out.append(",\"content\":");
                out.append(quote(content.as_str()).as_str());
                out.append("}");
                out
            },
        }
    }
}

/// A single tool invocation requested by the model.
#[derive(Debug, PartialEq, Eq)]
pub struct ToolCall {
    pub id: String,
    pub function_name: String,
    pub arguments_json: String,
}

/// A [`ToolCall`] as a mathematical value.
#[verifier::ext_equal]
pub struct CallModel {
    pub id: Seq<char>,
    pub function_name: Seq<char>,
    pub arguments_json: Seq<char>,
}

impl View for ToolCall {
    type V = CallModel;

    open spec fn view(&self) -> CallModel {
        CallModel {
            id: self.id@,
            function_name: self.function_name@,
            arguments_json: self.arguments_json@,
        }
    }
}

impl Clone for ToolCall {
    fn clone(&self) -> (r: Self)
        ensures
            r@ == self@,
    {
        ToolCall {
            id: self.id.clone(),
            function_name: self.function_name.clone(),
            arguments_json: self.arguments_json.clone(),
        }
    }
}

/// The JSON object of a tool call. The arguments travel as a string.
pub open spec fn call_json(c: CallModel) -> Seq<char> {
    "{\"id\":"@ + quoted(c.id) + ",\"type\":\"function\",\"function\":{\"name\":"@ + quoted(
        c.function_name,
    ) + ",\"arguments\":"@ + quoted(c.arguments_json) + "}}"@
}

impl ToolCall {
    /// Writes the call as JSON.
    pub fn to_json_string(&self) -> (r: String)
        ensures
            r@ == call_json(self@),
    {
        let mut out = "{\"id\":".to_owned();
        out.append(quote(self.id.as_str()).as_str());
        out.append(",\"type\":\"function\",\"function\":{\"name\":");
        out.append(quote(self.function_name.as_str()).as_str());
        out.append(",\"arguments\":");
        out.append(quote(self.arguments_json.as_str()).as_str());
        out.append("}}");
        out
    }
}

/// A tool definition sent to the model as part of a [`ChatRequest`].
/// `parameters_json` is a JSON schema that is written as it stands.
#[derive(Debug, PartialEq, Eq)]
pub struct ToolDef {
    pub name: String,
    pub description: String,
    pub parameters_json: String,
}

/// A [`ToolDef`] as a mathematical value.
#[verifier::ext_equal]
pub struct ToolDefModel {
    pub name: Seq<char>,
    pub description: Seq<char>,
    pub parameters_json: Seq<char>,
}

impl View for ToolDef {
    type V = ToolDefModel;

    open spec fn view(&self) -> ToolDefModel {
        ToolDefModel {
            name: self.name@,
            description: self.description@,
            parameters_json: self.parameters_json@,
        }
    }
}

impl Clone for ToolDef {
    fn clone(&self) -> (r: Self)
        ensures
            r@ == self@,
    {
        ToolDef {
            name: self.name.clone(),
            description: self.description.clone(),
            parameters_json: self.parameters_json.clone(),
        }
    }
}

/// The JSON object of a tool definition.
pub open spec fn tool_def_json(d: ToolDefModel) -> Seq<char> {
    "{\"type\":\"function\",\"function\":{\"name\":"@ + quoted(d.name) + ",\"description\":"@
        + quoted(d.description) + ",\"parameters\":"@ + d.parameters_json + "}}"@
}

impl ToolDef {
    /// Writes the definition as JSON.
    pub fn to_json_string(&self) -> (r: String)
        ensures
            r@ == tool_def_json(self@),
    {
        let mut out = "{\"type\":\"function\",\"function\":{\"name\":".to_owned();
        out.append(quote(self.name.as_str()).as_str());
        out.append(",\"description\":");
        out.append(quote(self.description.as_str()).as_str());
        out.append(",\"parameters\":");
        out.append(self.parameters_json.as_str());
        out.append("}}");
        out
    }
}

/// A streaming chat request. `tools` is left out of the wire body when it is
/// empty, and so is `max_tokens` when there is none.
#[derive(Debug, Clone, PartialEq, Eq)]
pub struct ChatRequest {
    pub model: String,
    pub messages: Vec<ChatMessage>,
    pub tools: Vec<ToolDef>,
    /// Maximum completion tokens; `None` leaves it to the model.
    pub max_tokens: Option<u64>,
}

/// A [`ChatRequest`] as a mathematical value.
#[verifier::ext_equal]
pub struct RequestModel {
    pub model: Seq<char>,
    pub messages: Seq<MessageModel>,
    pub tools: Seq<ToolDefModel>,
    pub max_tokens: Option<u64>,
}

impl View for ChatRequest {
    type V = RequestModel;

    open spec fn view(&self) -> RequestModel {
        RequestModel {
            model: self.model@,
            messages: deep(self.messages@),
            tools: deep(self.tools@),
            max_tokens: self.max_tokens,
        }
    }
}

/// The JSON object of a request.
pub open spec fn request_json(r: RequestModel) -> Seq<char> {
    "{\"model\":"@ + quoted(r.model) + ",\"messages\":"@ + array_text(
        r.messages.map_values(|m: MessageModel| message_json(m)),
    ) + ",\"stream\":true,\"stream_options\":{\"include_usage\":true}"@ + (if r.tools.len() > 0 {
        ",\"tools\":"@ + array_text(r.tools.map_values(|d: ToolDefModel| tool_def_json(d)))
    } else {
        Seq::empty()
    }) + (match r.max_tokens {
        Some(n) => ",\"max_tokens\":"@ + decimal(n as nat),
        None => Seq::empty(),
    }) + "}"@
}

impl ChatRequest {
    /// A request without tools, and without a cap on the completion.
    pub fn new(model: &str, messages: Vec<ChatMessage>) -> (r: Self)
        ensures
            r@ == (RequestModel {
                model: model@,
                messages: deep(messages@),
                tools: Seq::empty(),
                max_tokens: None,
            }),
    {
        let r = ChatRequest {
            model: model.to_owned(),
            messages,
            tools: Vec::new(),
            max_tokens: None,
        };
        assert(deep(Seq::<ToolDef>::empty()) =~= Seq::empty());
        r
    }

    /// The request with those tools.
    pub fn with_tools(self, tools: Vec<ToolDef>) -> (r: Self)
        ensures
            r@ == (RequestModel { tools: deep(tools@), ..self@ }),
    {
        ChatRequest {
            model: self.model,
            messages: self.messages,
            tools,
            max_tokens: self.max_tokens,
        }
    }

    /// The request with that cap on the completion.
    pub fn with_max_tokens(self, max_tokens: Option<u64>) -> (r: Self)
        ensures
            r@ == (RequestModel { max_tokens, ..self@ }),
    {
        ChatRequest { model: self.model, messages: self.messages, tools: self.tools, max_tokens }
    }

    /// Writes the request as compact JSON.
    pub fn to_json_string(&self) -> (r: String)
        ensures
            r@ == request_json(self@),
    {
        let mut out = "{\"model\":".to_owned();
        out.append(quote(self.model.as_str()).as_str());
        out.append(",\"messages\":");
        let mut parts: Vec<String> = Vec::new();
        let mut i: usize = 0;
        while i < self.messages.len()
            invariant
                i <= self.messages@.len(),
                parts@.len() == i,
                forall|k: int|
                    0 <= k < i ==> (#[trigger] parts@[k])@ == message_json(self.messages@[k]@),
            decreases self.messages@.len() - i,
        {
            parts.push(self.messages[i].to_json_string());
            i = i + 1;
        }
        assert(views(parts@) =~= deep(self.messages@).map_values(|m: MessageModel| message_json(m)));
        out.append(write_array(&parts).as_str());
        out.append(",\"stream\":true,\"stream_options\":{\"include_usage\":true}");
        let ghost head = out@;
        if self.tools.len() > 0 {
            let mut defs: Vec<String> = Vec::new();
            let mut k: usize = 0;
            while k < self.tools.len()
                invariant
                    k <= self.tools@.len(),
                    defs@.len() == k,
                    forall|j: int|
                        0 <= j < k ==> (#[trigger] defs@[j])@ == tool_def_json(self.tools@[j]@),
                decreases self.tools@.len() - k,
            {
                defs.push(self.tools[k].to_json_string());
                k = k + 1;
            }
            assert(views(defs@) =~= deep(self.tools@).map_values(|d: ToolDefModel| tool_def_json(d)));
            let mut list = ",\"tools\":".to_owned();
            list.append(write_array(&defs).as_str());
            out.append(list.as_str());
        } else {
            assert(head + Seq::<char>::empty() =~= head);
        }
        let ghost head = out@;
        if let Some(n) = self.max_tokens {
            out.append(cat(",\"max_tokens\":", decimal_of(n).as_str()).as_str());
        } else {
            assert(head + Seq::<char>::empty() =~= head);
        }
        out.append("}");
        out
    }
}

/// A fragment of a tool call in one streamed chunk. Fragments with the same
/// `index` belong to the same call.
#[derive(Debug, Clone, PartialEq, Eq)]
pub struct StreamToolCallDelta {
    pub index: u64,
    pub id: Option<String>,
    pub function_name: Option<String>,
    pub arguments_fragment: Option<String>,
}

/// A [`StreamToolCallDelta`] as a mathematical value.
#[verifier::ext_equal]
pub struct DeltaModel {
    pub index: u64,
    pub id: Option<Seq<char>>,
    pub function_name: Option<Seq<char>>,
    pub arguments_fragment: Option<Seq<char>>,
}

impl View for StreamToolCallDelta {
    type V = DeltaModel;

    open spec fn view(&self) -> DeltaModel {
        DeltaModel {
            index: self.index,
            id: maybe(self.id),
            function_name: maybe(self.function_name),
            arguments_fragment: maybe(self.arguments_fragment),
        }
    }
}

/// A single decoded chunk of a streamed response.
#[derive(Debug, Clone, PartialEq, Eq)]
pub struct StreamChunk {
    pub content_delta: Option<String>,
    pub reasoning_delta: Option<String>,
    pub tool_call_deltas: Vec<StreamToolCallDelta>,
    pub finish_reason: Option<String>,
    /// Token counters, which only the last chunk carries.
    pub usage: Option<Usage>,
}

/// A [`StreamChunk`] as a mathematical value.
#[verifier::ext_equal]
pub struct ChunkModel {
    pub content_delta: Option<Seq<char>>,
    pub reasoning_delta: Option<Seq<char>>,
    pub tool_call_deltas: Seq<DeltaModel>,
    pub finish_reason: Option<Seq<char>>,
    pub usage: Option<Usage>,
}

impl View for StreamChunk {
    type V = ChunkModel;

    open spec fn view(&self) -> ChunkModel {
        ChunkModel {
            content_delta: maybe(self.content_delta),
            reasoning_delta: maybe(self.reasoning_delta),
            tool_call_deltas: deep(self.tool_call_deltas@),
            finish_reason: maybe(self.finish_reason),
            usage: self.usage,
        }
    }
}

/// Token counters of a response. Which of them are there depends on the model.
#[derive(Debug, Clone, Copy, PartialEq, Eq)]
pub struct Usage {
    pub prompt_tokens: Option<u64>,
    pub completion_tokens: Option<u64>,
    pub total_tokens: Option<u64>,
    pub prompt_cache_hit_tokens: Option<u64>,
    pub prompt_cache_miss_tokens: Option<u64>,
}

impl Default for Usage {
    /// No counter at all.
    fn default() -> (r: Self)
        ensures
            r == (Usage {
                prompt_tokens: None,
                completion_tokens: None,
                total_tokens: None,
                prompt_cache_hit_tokens: None,
                prompt_cache_miss_tokens: None,
            }),
    {
        Usage {
            prompt_tokens: None,
            completion_tokens: None,
            total_tokens: None,
            prompt_cache_hit_tokens: None,
            prompt_cache_miss_tokens: None,
        }
    }
}

impl Default for StreamChunk {
    /// A chunk that carries nothing.
    fn default() -> (r: Self)
        ensures
            r@ == usage_only(None),
    {
        let r = StreamChunk {
            content_delta: None,
            reasoning_delta: None,
            tool_call_deltas: Vec::new(),
            finish_reason: None,
            usage: None,
        };
        assert(r@ =~= usage_only(None));
        r
    }
}

/// Payload of one SSE `data:` frame of the response.
#[derive(Debug, Clone, PartialEq, Eq)]
pub enum StreamPayload {
    /// A regular chunk.
    Chunk(StreamChunk),
    /// The `[DONE]` sentinel that ends the stream.
    Done,
}

/// A [`StreamPayload`] as a mathematical value.
#[verifier::ext_equal]
pub enum PayloadModel {
    Chunk(ChunkModel),
    Done,
}

impl View for StreamPayload {
    type V = PayloadModel;

    open spec fn view(&self) -> PayloadModel {
        match self {
            StreamPayload::Chunk(chunk) => PayloadModel::Chunk(chunk@),
            StreamPayload::Done => PayloadModel::Done,
        }
    }
}

/// The unsigned integer that a member holds; none where the member is absent
/// or null.
pub open spec fn optional_u64_of(doc: Seq<NodeModel>, i: int, name: Seq<char>) -> Result<
    Option<u64>,
    Seq<char>,
> {
    match member(doc, i, name) {
        Err(e) => Err(e),
        Ok(None) => Ok(None),
        Ok(Some(j)) => if trimmed(doc[j].raw) == "null"@ {
            Ok(None)
        } else {
            match unsigned(doc, j, u64::MAX as int) {
                Err(e) => Err(e),
                Ok(n) => Ok(Some(n as u64)),
            }
        },
    }
}

/// The string that a member holds; none where the member is absent or null.
pub open spec fn optional_string_of(doc: Seq<NodeModel>, i: int, name: Seq<char>) -> Result<
    Option<Seq<char>>,
    Seq<char>,
> {
    match member(doc, i, name) {
        Err(e) => Err(e),
        Ok(None) => Ok(None),
        Ok(Some(j)) => nullable_string(doc, j),
    }
}

/// The counters of a usage object.
pub open spec fn usage_counters_of(doc: Seq<NodeModel>, i: int) -> Result<Usage, Seq<char>> {
    match optional_u64_of(doc, i, "prompt_tokens"@) {
        Err(e) => Err(e),
        Ok(prompt_tokens) => match optional_u64_of(doc, i, "completion_tokens"@) {
            Err(e) => Err(e),
            Ok(completion_tokens) => match optional_u64_of(doc, i, "total_tokens"@) {
                Err(e) => Err(e),
                Ok(total_tokens) => match optional_u64_of(doc, i, "prompt_cache_hit_tokens"@) {
                    Err(e) => Err(e),
                    Ok(prompt_cache_hit_tokens) => match optional_u64_of(
                        doc,
                        i,
                        "prompt_cache_miss_tokens"@,
                    ) {
                        Err(e) => Err(e),
                        Ok(prompt_cache_miss_tokens) => Ok(
                            Usage {
                                prompt_tokens,
                                completion_tokens,
                                total_tokens,
                                prompt_cache_hit_tokens,
                                prompt_cache_miss_tokens,
                            },
                        ),
                    },
                },
            },
        },
    }
}

/// The usage member of a chunk; none where it is absent or null.
pub open spec fn usage_of(doc: Seq<NodeModel>, i: int) -> Result<Option<Usage>, Seq<char>> {
    match member(doc, i, "usage"@) {
        Err(e) => Err(e),
        Ok(None) => Ok(None),
        Ok(Some(j)) => if trimmed(doc[j].raw) == "null"@ {
            Ok(None)
        } else {
            match usage_counters_of(doc, j) {
                Err(e) => Err(e),
                Ok(u) => Ok(Some(u)),
            }
        },
    }
}

/// One fragment of a tool call.
pub open spec fn delta_of(doc: Seq<NodeModel>, i: int) -> Result<DeltaModel, Seq<char>> {
    match required(doc, i, "index"@) {
        Err(e) => Err(e),
        Ok(j) => match unsigned(doc, j, u64::MAX as int) {
            Err(_) => Err(invalid_text(doc[i], "tool_calls[].index must be a u64"@)),
            Ok(index) => match optional_string_of(doc, i, "id"@) {
                Err(e) => Err(e),
                Ok(id) => match member(doc, i, "function"@) {
                    Err(e) => Err(e),
                    Ok(None) => Ok(
                        DeltaModel {
                            index: index as u64,
                            id,
                            function_name: None,
                            arguments_fragment: None,
                        },
                    ),
                    Ok(Some(f)) => match optional_string_of(doc, f, "name"@) {
                        Err(e) => Err(e),
                        Ok(function_name) => match optional_string_of(doc, f, "arguments"@) {
                            Err(e) => Err(e),
                            Ok(arguments_fragment) => Ok(
                                DeltaModel {
                                    index: index as u64,
                                    id,
                                    function_name,
                                    arguments_fragment,
                                },
                            ),
                        },
                    },
                },
            },
        },
    }
}

/// The fragments of tool calls that a delta carries.
pub open spec fn deltas_of(doc: Seq<NodeModel>, i: int) -> Result<Seq<DeltaModel>, Seq<char>> {
    match member(doc, i, "tool_calls"@) {
        Err(e) => Err(e),
        Ok(None) => Ok(Seq::empty()),
        Ok(Some(j)) => match elements(doc, j) {
            Err(e) => Err(e),
            Ok(at) => read_list(at, |k: int| delta_of(doc, k)),
        },
    }
}

/// A chunk that carries nothing but usage counters.
pub open spec fn usage_only(usage: Option<Usage>) -> ChunkModel {
    ChunkModel {
        content_delta: None,
        reasoning_delta: None,
        tool_call_deltas: Seq::empty(),
        finish_reason: None,
        usage,
    }
}

/// What the delta of a choice carries, before the finish reason.
pub open spec fn delta_parts_of(
    doc: Seq<NodeModel>,
    choice: int,
    usage: Option<Usage>,
) -> Result<ChunkModel, Seq<char>> {
    match member(doc, choice, "delta"@) {
        Err(e) => Err(e),
        Ok(None) => Ok(usage_only(usage)),
        Ok(Some(d)) => match optional_string_of(doc, d, "content"@) {
            Err(e) => Err(e),
            Ok(content_delta) => match optional_string_of(doc, d, "reasoning_content"@) {
                Err(e) => Err(e),
                Ok(reasoning_delta) => match deltas_of(doc, d) {
                    Err(e) => Err(e),
                    Ok(tool_call_deltas) => Ok(
                        ChunkModel {
                            content_delta,
                            reasoning_delta,
                            tool_call_deltas,
                            finish_reason: None,
                            usage,
                        },
                    ),
                },
            },
        },
    }
}

/// The first choice of a chunk, if there is one.
pub open spec fn first_choice(doc: Seq<NodeModel>) -> Result<Option<int>, Seq<char>> {
    match member(doc, 0, "choices"@) {
        Err(e) => Err(e),
        Ok(None) => Ok(None),
        Ok(Some(j)) => match elements(doc, j) {
            Err(e) => Err(e),
            Ok(at) => if at.len() > 0 {
                Ok(Some(at[0]))
            } else {
                Ok(None)
            },
        },
    }
}

/// The chunk that a document holds. Without a choice it is one that carries
/// nothing but usage counters.
pub open spec fn chunk_of(doc: Seq<NodeModel>) -> Result<ChunkModel, Seq<char>> {
    match usage_of(doc, 0) {
        Err(e) => Err(e),
        Ok(usage) => match first_choice(doc) {
            Err(e) => Err(e),
            Ok(None) => Ok(usage_only(usage)),
            Ok(Some(choice)) => match delta_parts_of(doc, choice, usage) {
                Err(e) => Err(e),
                Ok(parts) => match optional_string_of(doc, choice, "finish_reason"@) {
                    Err(e) => Err(e),
                    Ok(finish_reason) => Ok(ChunkModel { finish_reason, ..parts }),
                },
            },
        },
    }
}

/// What one SSE data payload holds.
pub open spec fn payload_of(data: Seq<char>) -> Result<PayloadModel, Seq<char>> {
    if trimmed(data) == "[DONE]"@ {
        Ok(PayloadModel::Done)
    } else {
        match parsed(data) {
            Err(e) => Err(e),
            Ok(doc) => match chunk_of(doc) {
                Err(e) => Err(e),
                Ok(chunk) => Ok(PayloadModel::Chunk(chunk)),
            },
        }
    }
}

/// Decodes one SSE data payload. White space around `[DONE]` is ignored.
pub fn decode_stream_payload(data: &str) -> (r: Result<StreamPayload, JsonError>)
    ensures
        match r {
            Ok(p) => payload_of(data@) == Ok::<PayloadModel, Seq<char>>(p@),
            Err(e) => payload_of(data@) == Err::<PayloadModel, Seq<char>>(e@),
        },
{
    if same(trim(data).as_str(), "[DONE]") {
        return Ok(StreamPayload::Done);
    }
    let doc = JsonDoc::parse(data)?;
    let chunk = StreamChunk::from_json(&doc)?;
    Ok(StreamPayload::Chunk(chunk))
}

impl StreamChunk {
    /// Reads the chunk that a document holds.
    pub fn from_json(doc: &JsonDoc) -> (r: Result<StreamChunk, JsonError>)
        requires
            doc.wf(),
        ensures
            match r {
                Ok(chunk) => chunk_of(doc@) == Ok::<ChunkModel, Seq<char>>(chunk@),
                Err(e) => chunk_of(doc@) == Err::<ChunkModel, Seq<char>>(e@),
            },
    {
        let usage = decode_optional_usage(doc, 0)?;
        let choice: Option<usize> = match doc.member(0, "choices")? {
            Some(choices) => {
                let at = doc.elements(choices)?;
                if at.len() > 0 {
                    assert(indices(at@)[0] == at@[0]);
                    Some(at[0])
                } else {
                    None
                }
            },
            None => None,
        };
        let choice: usize = match choice {
            Some(choice) => choice,
            None => {
                let r = StreamChunk {
                    content_delta: None,
                    reasoning_delta: None,
                    tool_call_deltas: Vec::new(),
                    finish_reason: None,
                    usage,
                };
                assert(r@ =~= usage_only(usage));
                return Ok(r);
            },
        };
        let (content_delta, reasoning_delta, tool_call_deltas) = match doc.member(
            choice,
            "delta",
        )? {
            Some(delta) => {
                let content = optional_string(doc, delta, "content")?;
                let reasoning = optional_string(doc, delta, "reasoning_content")?;
                let calls = decode_tool_call_deltas(doc, delta)?;
                (content, reasoning, calls)
            },
            None => (None, None, Vec::new()),
        };
        let finish_reason = optional_string(doc, choice, "finish_reason")?;
        let r = StreamChunk {
            content_delta,
            reasoning_delta,
            tool_call_deltas,
            finish_reason,
            usage,
        };
        proof {
            let parts = delta_parts_of(doc@, choice as int, usage)->Ok_0;
            assert(r@ =~= ChunkModel { finish_reason: r@.finish_reason, ..parts });
        }
        Ok(r)
    }
}

fn decode_optional_usage(doc: &JsonDoc, i: usize) -> (r: Result<Option<Usage>, JsonError>)
    requires
        doc.wf(),
        i < doc@.len(),
    ensures
        match r {
            Ok(u) => usage_of(doc@, i as int) == Ok::<Option<Usage>, Seq<char>>(u),
            Err(e) => usage_of(doc@, i as int) == Err::<Option<Usage>, Seq<char>>(e@),
        },
{
    let u: usize = match doc.member(i, "usage")? {
        Some(u) => u,
        None => return Ok(None),
    };
    if same(trim(doc.nodes[u].raw.as_str()).as_str(), "null") {
        return Ok(None);
    }
    let prompt_tokens = optional_u64(doc, u, "prompt_tokens")?;
    let completion_tokens = optional_u64(doc, u, "completion_tokens")?;
    let total_tokens = optional_u64(doc, u, "total_tokens")?;
    let prompt_cache_hit_tokens = optional_u64(doc, u, "prompt_cache_hit_tokens")?;
    let prompt_cache_miss_tokens = optional_u64(doc, u, "prompt_cache_miss_tokens")?;
    Ok(
        Some(
            Usage {
                prompt_tokens,
                completion_tokens,
                total_tokens,
                prompt_cache_hit_tokens,
                prompt_cache_miss_tokens,
            },
        ),
    )
}

fn optional_u64(doc: &JsonDoc, i: usize, name: &str) -> (r: Result<Option<u64>, JsonError>)
    requires
        doc.wf(),
        i < doc@.len(),
    ensures
        match r {
            Ok(n) => optional_u64_of(doc@, i as int, name@) == Ok::<Option<u64>, Seq<char>>(n),
            Err(e) => optional_u64_of(doc@, i as int, name@) == Err::<Option<u64>, Seq<char>>(e@),
        },
{
    match doc.member(i, name)? {
        Some(v) => {
            if same(trim(doc.nodes[v].raw.as_str()).as_str(), "null") {
                Ok(None)
            } else {
                let n = doc.unsigned(v, u64::MAX)?;
                Ok(Some(n))
            }
        },
        None => Ok(None),
    }
}

/// Reads the string that a member holds; none where it is absent or null.
pub fn optional_string(doc: &JsonDoc, i: usize, name: &str) -> (r: Result<
    Option<String>,
    JsonError,
>)
    requires
        doc.wf(),
        i < doc@.len(),
    ensures
        match r {
            Ok(s) => optional_string_of(doc@, i as int, name@) == Ok::<
                Option<Seq<char>>,
                Seq<char>,
            >(maybe(s)),
            Err(e) => optional_string_of(doc@, i as int, name@) == Err::<
                Option<Seq<char>>,
                Seq<char>,
            >(e@),
        },
{
    match doc.member(i, name)? {
        Some(v) => doc.nullable_string(v),
        None => Ok(None),
    }
}

fn decode_delta(doc: &JsonDoc, item: usize) -> (r: Result<StreamToolCallDelta, JsonError>)
    requires
        doc.wf(),
        item < doc@.len(),
    ensures
        match r {
            Ok(d) => delta_of(doc@, item as int) == Ok::<DeltaModel, Seq<char>>(d@),
            Err(e) => delta_of(doc@, item as int) == Err::<DeltaModel, Seq<char>>(e@),
        },
{
    let at = doc.required(item, "index")?;
    let index: u64 = match doc.unsigned(at, u64::MAX) {
        Ok(n) => n,
        Err(_) => return Err(doc.invalid(item, "tool_calls[].index must be a u64")),
    };
    let id = optional_string(doc, item, "id")?;
    let (function_name, arguments_fragment) = match doc.member(item, "function")? {
        Some(function) => {
            let name = optional_string(doc, function, "name")?;
            let arguments = optional_string(doc, function, "arguments")?;
            (name, arguments)
        },
        None => (None, None),
    };
    Ok(StreamToolCallDelta { index, id, function_name, arguments_fragment })
}

fn decode_tool_call_deltas(doc: &JsonDoc, delta: usize) -> (r: Result<
    Vec<StreamToolCallDelta>,
    JsonError,
>)
    requires
        doc.wf(),
        delta < doc@.len(),
    ensures
        match r {
            Ok(v) => deltas_of(doc@, delta as int) == Ok::<Seq<DeltaModel>, Seq<char>>(deep(v@)),
            Err(e) => deltas_of(doc@, delta as int) == Err::<Seq<DeltaModel>, Seq<char>>(e@),
        },
{
    let mut out: Vec<StreamToolCallDelta> = Vec::new();
    assert(deep(out@) =~= Seq::empty());
    let list: usize = match doc.member(delta, "tool_calls")? {
        Some(list) => list,
        None => return Ok(out),
    };
    let at = doc.elements(list)?;
    let ghost all = indices(at@);
    let ghost read = |k: int| delta_of(doc@, k);
    let mut k: usize = 0;
    assert(all.take(0) =~= Seq::empty());
    while k < at.len()
        invariant
            k <= at@.len(),
            doc.wf(),
            all == indices(at@),
            forall|j: int| 0 <= j < at@.len() ==> #[trigger] at@[j] < doc@.len(),
            read == (|k: int| delta_of(doc@, k)),
            deltas_of(doc@, delta as int) == read_list(all, read),
            read_list(all.take(k as int), read) == Ok::<Seq<DeltaModel>, Seq<char>>(deep(out@)),
        decreases at@.len() - k,
    {
        proof {
            lemma_read_list_step(all, read, k as int);
        }
        let ghost before = out@;
        let d = decode_delta(doc, at[k])?;
        out.push(d);
        proof {
            lemma_deep_push(before, d);
        }
        k = k + 1;
    }
    assert(all.take(all.len() as int) =~= all);
    Ok(out)
}

} // verus!
