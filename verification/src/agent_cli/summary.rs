//! Summing up a conversation: what is asked of the model, and what becomes of
//! its answer.
use vstd::prelude::*;
use vstd::string::*;

use super::compaction::{
    compaction_cutoff, is_cutoff, tail_start, COMPACTION_TRIGGER_TOKENS, KEEP_RECENT_RECORDS_TARGET,
    RETAINED_TAIL_MAX_CHARS,
};
use super::prose::{
    records_prose, render_records_prose, render_summary_transcript, summary_transcript,
};
use crate::curl::{CallResult, CallResultModel};
use crate::model::{deep, maybe};
use crate::sansio::deepseek::{ChatMessage, ChatRequest, MessageModel, RequestModel};
use crate::session::{messages_of, ChatMessageWithTs, RecordModel, SessionRecord};
use crate::text::{cat3, chars_of, decimal, decimal_of, is_white_space, trim, trimmed, white_space};

verus! {

broadcast use crate::model::group_deep;

pub const SUMMARIZER_SYSTEM_PROMPT: &'static str =
    "You are summarizing a conversation between a user and a coding agent so the agent can continue with a shorter context. Preserve:\n\n- Unfinished tasks and any next steps the user or agent laid out\n- Decisions reached (chosen approaches; rejected alternatives with the reason)\n- File paths and key symbols (functions, types) that were read, modified,\n  or discussed\n- Recent errors and their root cause, if any\n\nAim for ~500 words of plain prose. Do not include markdown code fences unless quoting a short critical excerpt. Do not comment on the summarization itself; produce only the summary.";

pub const ASK_SYSTEM_PROMPT: &'static str =
    "You are an OUTSIDE observer reading a recording of a coding-agent session. You are NOT the coding assistant and you are NOT continuing its work: do not emit tool calls, do not write plan steps, do not pick up an unfinished action, do not reproduce the session's agentic wording. Read the session transcript below (rendered as plain prose; tool calls and results are abbreviated) and answer directly and concisely about what is happening now: unfinished work, decisions, files/symbols in play, and any tool call awaiting approval. If a question is appended, answer that question specifically. Otherwise produce a short status summary (~300 words) of the current state, in third person. Never begin with an action verb such as 'I will / I am going to / let's'. Do not comment on the instruction itself; produce only the answer. A prior observer answer may be included below as context: treat it as a hint only and always let the transcript below override it.";

pub const PRIOR_HEAD: &'static str =
    "\n\n--- PREVIOUS ask context (an EARLIER observer answer; it is a HINT, not ground truth \u{2014} the transcript below is authoritative) ---\n\n";

pub const PRIOR_TAIL: &'static str = "\n\n--- END PREVIOUS ask context ---\n";

/// The summary that an answer holds: what it says, or else what it reasons.
pub open spec fn summary_of(r: CallResultModel) -> Option<Seq<char>> {
    if trimmed(r.content).len() > 0 {
        Some(trimmed(r.content))
    } else {
        match r.reasoning_content {
            Some(s) => if trimmed(s).len() > 0 {
                Some(trimmed(s))
            } else {
                None
            },
            None => None,
        }
    }
}

/// Finds the summary in an answer. Some models leave the content blank and
/// put the answer into the reasoning.
pub fn pick_summary_text(result: &CallResult) -> (r: Option<String>)
    ensures
        maybe(r) == summary_of(result@),
{
    let content = trim(result.content.as_str());
    if !content.as_str().is_empty() {
        return Some(content);
    }
    match &result.reasoning_content {
        Some(s) => {
            let s = trim(s.as_str());
            if s.as_str().is_empty() {
                None
            } else {
                Some(s)
            }
        },
        None => None,
    }
}

/// The error where an answer holds no summary.
pub const EMPTY_SUMMARY: &'static str =
    "summariser returned empty content (both content and reasoning_content were empty)";

/// The summary in an answer, or the error where there is none.
pub fn summary_or_err(result: &CallResult) -> (r: Result<String, String>)
    ensures
        match r {
            Ok(s) => summary_of(result@) == Some(s@),
            Err(e) => summary_of(result@) is None && e@ == EMPTY_SUMMARY@,
        },
{
    match pick_summary_text(result) {
        Some(s) => Ok(s),
        None => Err(EMPTY_SUMMARY.to_owned()),
    }
}

/// The request to sum up a conversation.
pub open spec fn summary_request(
    model: Seq<char>,
    messages: Seq<MessageModel>,
    max_tokens: Option<u64>,
) -> RequestModel {
    RequestModel {
        model,
        messages: seq![
            MessageModel::System(SUMMARIZER_SYSTEM_PROMPT@),
            MessageModel::User(summary_transcript(messages)),
        ],
        tools: Seq::empty(),
        max_tokens,
    }
}

fn write_summary_request(
    model: &str,
    records: &Vec<ChatMessageWithTs>,
    max_tokens: Option<u64>,
) -> (r: ChatRequest)
    ensures
        r@ == summary_request(model@, messages_of(records@), max_tokens),
{
    let mut messages: Vec<ChatMessage> = Vec::new();
    messages.push(ChatMessage::System(SUMMARIZER_SYSTEM_PROMPT.to_owned()));
    messages.push(ChatMessage::User(render_summary_transcript(records)));
    assert(deep(messages@) =~= summary_request(
        model@,
        messages_of(records@),
        max_tokens,
    ).messages);
    ChatRequest::new(model, messages).with_max_tokens(max_tokens)
}

/// What the model is told in order to answer a question about a session.
pub open spec fn ask_text(
    messages: Seq<MessageModel>,
    question: Option<Seq<char>>,
    prior: Option<Seq<char>>,
) -> Seq<char> {
    ASK_SYSTEM_PROMPT@ + (match prior {
        Some(p) => PRIOR_HEAD@ + p + PRIOR_TAIL@,
        None => Seq::empty(),
    }) + (match question {
        Some(q) => "\n\nThe user's question is: "@ + q + "\n"@,
        None => Seq::empty(),
    }) + "\n\n--- BEGIN SESSION TRANSCRIPT (prose) ---\n\n"@ + records_prose(messages)
        + "\n--- END SESSION TRANSCRIPT ---\n"@
}

/// The request to answer a question about a session. Nothing of it is
/// recorded.
pub fn ask_request(
    model: &str,
    records: &Vec<ChatMessageWithTs>,
    question: Option<&str>,
    prior: Option<&str>,
    max_tokens: Option<u64>,
) -> (r: ChatRequest)
    ensures
        r@ == (RequestModel {
            model: model@,
            messages: seq![
                MessageModel::System(
                    ask_text(
                        messages_of(records@),
                        match question {
                            Some(q) => Some(q@),
                            None => None,
                        },
                        match prior {
                            Some(p) => Some(p@),
                            None => None,
                        },
                    ),
                ),
            ],
            tools: Seq::empty(),
            max_tokens,
        }),
{
    let mut system = ASK_SYSTEM_PROMPT.to_owned();
    let ghost head = system@;
    if let Some(p) = prior {
        system.append(cat3(PRIOR_HEAD, p, PRIOR_TAIL).as_str());
    } else {
        assert(head + Seq::<char>::empty() =~= head);
    }
    let ghost body = system@;
    if let Some(q) = question {
        system.append(cat3("\n\nThe user's question is: ", q, "\n").as_str());
    } else {
        assert(body + Seq::<char>::empty() =~= body);
    }
    system.append("\n\n--- BEGIN SESSION TRANSCRIPT (prose) ---\n\n");
    system.append(render_records_prose(records).as_str());
    system.append("\n--- END SESSION TRANSCRIPT ---\n");
    let mut messages: Vec<ChatMessage> = Vec::new();
    messages.push(ChatMessage::System(system));
    assert(deep(messages@) =~= seq![MessageModel::System(system@)]);
    ChatRequest::new(model, messages).with_max_tokens(max_tokens)
}

/// A summary that is to be made.
pub struct Compaction {
    pub request: ChatRequest,
    /// How many records it sums up.
    pub record_count: usize,
    /// The time of the first of them.
    pub since_ts: u64,
    /// The time of the last of them.
    pub cutoff_ts: u64,
}

fn first_records(records: &Vec<ChatMessageWithTs>, n: usize) -> (r: Vec<ChatMessageWithTs>)
    requires
        n <= records@.len(),
    ensures
        r@.len() == n,
        messages_of(r@) == messages_of(records@).take(n as int),
        forall|i: int| 0 <= i < n ==> (#[trigger] r@[i]).ts == records@[i].ts,
{
    let mut out: Vec<ChatMessageWithTs> = Vec::new();
    let mut i: usize = 0;
    while i < n
        invariant
            i <= n <= records@.len(),
            out@.len() == i,
            forall|k: int|
                0 <= k < i ==> (#[trigger] out@[k]).message@ == records@[k].message@ && out@[k].ts
                    == records@[k].ts,
        decreases n - i,
    {
        out.push(ChatMessageWithTs { message: records[i].message.clone(), ts: records[i].ts });
        i = i + 1;
    }
    assert(messages_of(out@) =~= messages_of(records@).take(n as int));
    out
}

/// Plans a summary of the records since the last one. `None` where nothing is
/// to be summed up.
pub fn plan_compaction(
    model: &str,
    records: &Vec<ChatMessageWithTs>,
    max_tokens: Option<u64>,
) -> (r: Option<Compaction>)
    ensures
        ({
            let messages = messages_of(records@);
            let start = tail_start(messages, KEEP_RECENT_RECORDS_TARGET as nat);
            match r {
                Some(c) => {
                    let k = c.record_count as int;
                    &&& messages.len() > KEEP_RECENT_RECORDS_TARGET
                    &&& k > 0
                    &&& is_cutoff(messages, start, RETAINED_TAIL_MAX_CHARS as nat, k)
                    &&& c.request@ == summary_request(model@, messages.take(k), max_tokens)
                    &&& c.since_ts == records@[0].ts
                    &&& c.cutoff_ts == records@[k - 1].ts
                },
                None => messages.len() <= KEEP_RECENT_RECORDS_TARGET || is_cutoff(
                    messages,
                    start,
                    RETAINED_TAIL_MAX_CHARS as nat,
                    0,
                ),
            }
        }),
{
    let keep_start: usize = match compaction_cutoff(
        records,
        KEEP_RECENT_RECORDS_TARGET,
        RETAINED_TAIL_MAX_CHARS,
    ) {
        Some(k) => k,
        None => return None,
    };
    assert(messages_of(records@).len() == records@.len());
    let folded = first_records(records, keep_start);
    Some(
        Compaction {
            request: write_summary_request(model, &folded, max_tokens),
            record_count: keep_start,
            since_ts: folded[0].ts,
            cutoff_ts: folded[keep_start - 1].ts,
        },
    )
}

/// The number of words in a text, up to its `n`-th character: places where
/// a word starts.
pub open spec fn words_upto(s: Seq<char>, n: int) -> nat
    decreases n,
{
    if n <= 0 {
        0
    } else if !white_space(s[n - 1]) && (n == 1 || white_space(s[n - 2])) {
        words_upto(s, n - 1) + 1
    } else {
        words_upto(s, n - 1)
    }
}

/// The number of words in a text.
pub fn count_words(s: &str) -> (r: usize)
    ensures
        r == words_upto(s@, s@.len() as int),
{
    let v = chars_of(s);
    let mut words: usize = 0;
    let mut i: usize = 0;
    while i < v.len()
        invariant
            i <= v@.len(),
            words == words_upto(v@, i as int),
            words <= i,
        decreases v@.len() - i,
    {
        if !is_white_space(v[i]) && (i == 0 || is_white_space(v[i - 1])) {
            words = words + 1;
        }
        i = i + 1;
    }
    words
}

/// What is recorded of a summary that was made.
pub fn summary_record(c: &Compaction, text: String, ts: u64) -> (r: SessionRecord)
    ensures
        r@ == (RecordModel::Summary {
            ts,
            since_ts: c.since_ts,
            cutoff_ts: c.cutoff_ts,
            text: text@,
        }),
{
    SessionRecord::Summary { ts, since_ts: c.since_ts, cutoff_ts: c.cutoff_ts, text }
}

/// What the user is shown of a summary that was made.
pub fn summary_note(record_count: usize, text: &str) -> (r: String)
    ensures
        r@ == "[compaction] applied. summarised "@ + decimal(record_count as nat)
            + " records into ~"@ + decimal(words_upto(text@, text@.len() as int)) + " words."@,
{
    let mut out = "[compaction] applied. summarised ".to_owned();
    out.append(decimal_of(record_count as u64).as_str());
    out.append(" records into ~");
    out.append(decimal_of(count_words(text) as u64).as_str());
    out.append(" words.");
    out
}

/// What the user is shown before a summary is made.
pub fn trigger_note(latest_prompt_tokens: u64) -> (r: String)
    ensures
        r@ == "[compaction] previous prompt was "@ + decimal(latest_prompt_tokens as nat)
            + " tokens (threshold "@ + decimal(COMPACTION_TRIGGER_TOKENS as nat)
            + "), summarising..."@,
{
    let mut out = "[compaction] previous prompt was ".to_owned();
    out.append(decimal_of(latest_prompt_tokens).as_str());
    out.append(" tokens (threshold ");
    out.append(decimal_of(COMPACTION_TRIGGER_TOKENS).as_str());
    out.append("), summarising...");
    out
}

} // verus!
