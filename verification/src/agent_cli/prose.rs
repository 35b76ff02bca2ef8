//! Conversations as plain prose, for a model that is to sum them up.
use vstd::prelude::*;
use vstd::string::*;

use crate::sansio::deepseek::{CallModel, ChatMessage, MessageModel, ToolCall};
use crate::model::deep;
use crate::session::{messages_of, ChatMessageWithTs};
use crate::text::{
    cat3, chars_of, decimal, decimal_of, join, joined, string_of, trim, trimmed, views,
};

verus! {

broadcast use crate::model::group_deep;

/// Maximum characters of a transcript that is to be summed up. Where there
/// are more, the oldest records are dropped.
pub const SUMMARY_MAX_CHARS: usize = 200_000;

/// Maximum characters kept of a single message in such a transcript.
pub const SUMMARY_RECORD_MAX_CHARS: usize = 16_000;

/// Maximum characters kept of a single tool result in such a transcript.
pub const SUMMARY_TOOL_RESULT_MAX_CHARS: usize = 200;

/// Characters shown of the arguments of a tool call.
pub const ARGS_SHOWN: usize = 90;

/// Characters shown of a tool result.
pub const RESULT_SHOWN: usize = 200;

pub const DROPPED_NOTE: &'static str =
    "[Note: the earliest records of this segment were dropped to fit the summariser's context window; the transcript below is the most recent portion, so the summary should reflect the current state.]\n\n";

/// The start of a text, with an ellipsis where there is more of it.
pub open spec fn brief(s: Seq<char>, n: nat) -> Seq<char> {
    if s.len() <= n {
        s
    } else {
        s.take(n as int).push('…')
    }
}

/// A text on one line: spaces in place of line feeds.
pub open spec fn on_one_line(s: Seq<char>) -> Seq<char> {
    s.map_values(
        |c: char|
            if c == '\n' {
                ' '
            } else {
                c
            },
    )
}

/// Tool arguments in short.
pub open spec fn short_args(args: Seq<char>) -> Seq<char> {
    brief(on_one_line(trimmed(args)), ARGS_SHOWN as nat)
}

/// Shortens tool arguments to one line.
pub fn abbreviate_args(args_json: &str) -> (r: String)
    ensures
        r@ == short_args(args_json@),
{
    let t = trim(args_json);
    let v = chars_of(t.as_str());
    let n: usize = if v.len() < ARGS_SHOWN {
        v.len()
    } else {
        ARGS_SHOWN
    };
    let mut out = String::new();
    let mut i: usize = 0;
    let ghost line = on_one_line(v@);
    assert(line.take(0) =~= Seq::empty());
    while i < n
        invariant
            i <= n <= v@.len(),
            line == on_one_line(v@),
            out@ == line.take(i as int),
        decreases n - i,
    {
        let c = if v[i] == '\n' {
            ' '
        } else {
            v[i]
        };
        out.push(c);
        assert(line.take(i + 1) =~= line.take(i as int).push(c));
        i = i + 1;
    }
    if v.len() > ARGS_SHOWN {
        out.push('…');
    } else {
        assert(line.take(n as int) =~= line);
    }
    out
}

/// What a call looks like in a transcript.
pub open spec fn call_line(c: CallModel) -> Seq<char> {
    let args = short_args(c.arguments_json);
    if args.len() == 0 {
        "  [tool call: "@ + c.function_name + "]"@
    } else {
        "  [tool call: "@ + c.function_name + " ("@ + args + ")]"@
    }
}

fn write_call_line(c: &ToolCall) -> (r: String)
    ensures
        r@ == call_line(c@),
{
    let args = abbreviate_args(c.arguments_json.as_str());
    if args.as_str().is_empty() {
        cat3("  [tool call: ", c.function_name.as_str(), "]")
    } else {
        let mut out = cat3("  [tool call: ", c.function_name.as_str(), " (");
        out.append(args.as_str());
        out.append(")]");
        out
    }
}

/// The lines of an assistant message: what it says, and a line for each call.
pub open spec fn assistant_lines(says: Seq<char>, calls: Seq<CallModel>) -> Seq<Seq<char>> {
    (if says.len() > 0 {
        seq![says]
    } else {
        Seq::empty()
    }) + calls.map_values(|c: CallModel| call_line(c))
}

/// An assistant message in a transcript. One that says nothing and makes no
/// call leaves no trace.
pub open spec fn assistant_prose(says: Seq<char>, calls: Seq<CallModel>) -> Seq<char> {
    let lines = assistant_lines(says, calls);
    if lines.len() == 0 {
        Seq::empty()
    } else {
        "assistant: "@ + joined(lines, "\n"@) + "\n"@
    }
}

fn write_assistant(says: String, calls: &Vec<ToolCall>) -> (r: String)
    ensures
        r@ == assistant_prose(says@, deep(calls@)),
{
    let mut lines: Vec<String> = Vec::new();
    let ghost head = if says@.len() > 0 {
        seq![says@]
    } else {
        Seq::empty()
    };
    let ghost all = deep(calls@).map_values(|c: CallModel| call_line(c));
    if !says.as_str().is_empty() {
        lines.push(says);
    }
    assert(views(lines@) =~= head + all.take(0));
    let mut i: usize = 0;
    while i < calls.len()
        invariant
            i <= calls@.len(),
            all == deep(calls@).map_values(|c: CallModel| call_line(c)),
            views(lines@) == head + all.take(i as int),
        decreases calls@.len() - i,
    {
        let ghost before = views(lines@);
        let line = write_call_line(&calls[i]);
        lines.push(line);
        assert(views(lines@) =~= before.push(line@));
        assert(head + all.take(i + 1) =~= before.push(all[i as int]));
        i = i + 1;
    }
    assert(all.take(all.len() as int) =~= all);
    assert(views(lines@).len() == lines@.len());
    if lines.len() == 0 {
        String::new()
    } else {
        cat3("assistant: ", join(&lines, "\n").as_str(), "\n")
    }
}

/// A message in a transcript for an observer.
pub open spec fn message_prose(m: MessageModel) -> Seq<char> {
    match m {
        MessageModel::System(s) => "[system] "@ + trimmed(s) + "\n"@,
        MessageModel::User(s) => "user: "@ + trimmed(s) + "\n"@,
        MessageModel::Assistant { content, tool_calls, .. } => assistant_prose(
            trimmed(content),
            tool_calls,
        ),
        MessageModel::Tool { content, .. } => "  [tool result: "@ + brief(
            trimmed(content),
            RESULT_SHOWN as nat,
        ) + "]\n"@,
    }
}

/// Texts, each with a line feed behind it.
pub open spec fn on_lines(parts: Seq<Seq<char>>) -> Seq<char>
    decreases parts.len(),
{
    if parts.len() == 0 {
        Seq::empty()
    } else {
        on_lines(parts.drop_last()) + parts.last() + "\n"@
    }
}

/// A transcript for an observer.
pub open spec fn records_prose(messages: Seq<MessageModel>) -> Seq<char> {
    on_lines(messages.map_values(|m: MessageModel| message_prose(m)))
}

fn write_brief(s: &str, n: usize) -> (r: String)
    ensures
        r@ == brief(s@, n as nat),
{
    let v = chars_of(s);
    if v.len() <= n {
        return s.to_owned();
    }
    let mut out = string_of(&v, 0, n);
    assert(v@.subrange(0, n as int) =~= v@.take(n as int));
    out.push('…');
    out
}

fn write_message(m: &ChatMessage) -> (r: String)
    ensures
        r@ == message_prose(m@),
{
    match m {
        ChatMessage::System(s) => cat3("[system] ", trim(s.as_str()).as_str(), "\n"),
        ChatMessage::User(s) => cat3("user: ", trim(s.as_str()).as_str(), "\n"),
        ChatMessage::Assistant { content, tool_calls, .. } => write_assistant(
            trim(content.as_str()),
            tool_calls,
        ),
        ChatMessage::Tool { content, .. } => cat3(
            "  [tool result: ",
            write_brief(trim(content.as_str()).as_str(), RESULT_SHOWN).as_str(),
            "]\n",
        ),
    }
}

/// Writes a transcript for an observer: what was said, with tool calls and
/// their results in short.
pub fn render_records_prose(records: &Vec<ChatMessageWithTs>) -> (r: String)
    ensures
        r@ == records_prose(messages_of(records@)),
{
    let ghost all = messages_of(records@).map_values(|m: MessageModel| message_prose(m));
    let mut out = String::new();
    let mut i: usize = 0;
    assert(all.take(0) =~= Seq::empty());
    while i < records.len()
        invariant
            i <= records@.len(),
            all == messages_of(records@).map_values(|m: MessageModel| message_prose(m)),
            out@ == on_lines(all.take(i as int)),
        decreases records@.len() - i,
    {
        proof {
            assert(all.take(i + 1).drop_last() =~= all.take(i as int));
            assert(all.take(i + 1).last() == all[i as int]);
        }
        out.append(write_message(&records[i].message).as_str());
        out.append("\n");
        i = i + 1;
    }
    assert(all.take(all.len() as int) =~= all);
    out
}

/// A text cut to `n` characters, with a note of how many were dropped.
pub open spec fn truncated(s: Seq<char>, n: nat) -> Seq<char> {
    if s.len() <= n {
        s
    } else {
        s.take(n as int) + "…[truncated "@ + decimal((s.len() - n) as nat) + " chars]"@
    }
}

/// Cuts a text to `max_chars` characters and notes how many were dropped.
pub fn truncate_prose(s: &str, max_chars: usize) -> (r: String)
    ensures
        r@ == truncated(s@, max_chars as nat),
{
    let v = chars_of(s);
    let count: usize = v.len();
    if count <= max_chars {
        return s.to_owned();
    }
    let mut out = string_of(&v, 0, max_chars);
    assert(v@.subrange(0, max_chars as int) =~= v@.take(max_chars as int));
    out.append("…[truncated ");
    out.append(decimal_of((count - max_chars) as u64).as_str());
    out.append(" chars]");
    out
}

/// A message in a transcript that is to be summed up, cut to size.
pub open spec fn summary_block(m: MessageModel) -> Seq<char> {
    let size = SUMMARY_RECORD_MAX_CHARS as nat;
    match m {
        MessageModel::System(s) => "[system] "@ + truncated(trimmed(s), size) + "\n"@,
        MessageModel::User(s) => "user: "@ + truncated(trimmed(s), size) + "\n"@,
        MessageModel::Assistant { content, tool_calls, .. } => assistant_prose(
            truncated(trimmed(content), size),
            tool_calls,
        ),
        MessageModel::Tool { content, .. } => "  [tool result: "@ + truncated(
            trimmed(content),
            SUMMARY_TOOL_RESULT_MAX_CHARS as nat,
        ) + "]\n"@,
    }
}

/// Writes a record for a transcript that is to be summed up, cut to size.
pub fn render_summary_block(rec: &ChatMessageWithTs) -> (r: String)
    ensures
        r@ == summary_block(rec.message@),
{
    match &rec.message {
        ChatMessage::System(s) => cat3(
            "[system] ",
            truncate_prose(trim(s.as_str()).as_str(), SUMMARY_RECORD_MAX_CHARS).as_str(),
            "\n",
        ),
        ChatMessage::User(s) => cat3(
            "user: ",
            truncate_prose(trim(s.as_str()).as_str(), SUMMARY_RECORD_MAX_CHARS).as_str(),
            "\n",
        ),
        ChatMessage::Assistant { content, tool_calls, .. } => write_assistant(
            truncate_prose(trim(content.as_str()).as_str(), SUMMARY_RECORD_MAX_CHARS),
            tool_calls,
        ),
        ChatMessage::Tool { content, .. } => cat3(
            "  [tool result: ",
            truncate_prose(trim(content.as_str()).as_str(), SUMMARY_TOOL_RESULT_MAX_CHARS).as_str(),
            "]\n",
        ),
    }
}

/// The characters of the blocks from the `k`-th on.
pub open spec fn chars_from(blocks: Seq<Seq<char>>, k: int) -> nat
    decreases blocks.len() - k,
{
    if k < 0 || k >= blocks.len() {
        0
    } else {
        blocks[k].len() + chars_from(blocks, k + 1)
    }
}

/// The first block that is kept, given that those from `k` on are: as many of
/// the newest as fit together.
pub open spec fn first_kept(blocks: Seq<Seq<char>>, k: int) -> int
    decreases k,
{
    if k <= 0 {
        0
    } else if chars_from(blocks, k - 1) > SUMMARY_MAX_CHARS {
        k
    } else {
        first_kept(blocks, k - 1)
    }
}

/// The blocks of a transcript that is to be summed up.
pub open spec fn summary_blocks(messages: Seq<MessageModel>) -> Seq<Seq<char>> {
    messages.map_values(|m: MessageModel| summary_block(m))
}

/// A transcript that is to be summed up: as many of the newest records as
/// fit, and a note where older ones were dropped.
pub open spec fn summary_transcript(messages: Seq<MessageModel>) -> Seq<char> {
    let blocks = summary_blocks(messages);
    let k = first_kept(blocks, blocks.len() as int);
    (if k > 0 {
        DROPPED_NOTE@
    } else {
        Seq::empty()
    }) + on_lines(blocks.skip(k))
}

/// Writes a transcript that is to be summed up.
pub fn render_summary_transcript(records: &Vec<ChatMessageWithTs>) -> (r: String)
    ensures
        r@ == summary_transcript(messages_of(records@)),
{
    let ghost all = summary_blocks(messages_of(records@));
    let mut blocks: Vec<String> = Vec::new();
    let mut i: usize = 0;
    assert(views(blocks@) =~= all.take(0));
    while i < records.len()
        invariant
            i <= records@.len(),
            all == summary_blocks(messages_of(records@)),
            views(blocks@) == all.take(i as int),
        decreases records@.len() - i,
    {
        let ghost before = views(blocks@);
        let block = render_summary_block(&records[i]);
        blocks.push(block);
        assert(views(blocks@) =~= before.push(block@));
        assert(all.take(i + 1) =~= before.push(all[i as int]));
        i = i + 1;
    }
    assert(all.take(all.len() as int) =~= all);
    let n: usize = blocks.len();
    assert(views(blocks@).len() == n);
    let mut k: usize = n;
    let mut total: usize = 0;
    let mut full = false;
    while k > 0 && !full
        invariant
            k <= n,
            n == all.len(),
            n == blocks@.len(),
            all == views(blocks@),
            total == chars_from(all, k as int),
            total <= SUMMARY_MAX_CHARS,
            first_kept(all, n as int) == if full {
                k as int
            } else {
                first_kept(all, k as int)
            },
        decreases k + (if full {
            0nat
        } else {
            1nat
        }),
    {
        assert(all[k - 1] == blocks@[k - 1]@);
        let len: usize = blocks[k - 1].as_str().unicode_len();
        if len > SUMMARY_MAX_CHARS - total {
            full = true;
        } else {
            total = total + len;
            k = k - 1;
        }
    }
    let mut out = String::new();
    if k > 0 {
        out.append(DROPPED_NOTE);
        assert(out@ =~= DROPPED_NOTE@);
    }
    let ghost head = out@;
    let ghost rest = all.skip(k as int);
    let mut j: usize = k;
    assert(rest.take(0) =~= Seq::empty());
    assert(head + on_lines(rest.take(0)) =~= head);
    while j < n
        invariant
            k <= j <= n,
            n == blocks@.len(),
            all == views(blocks@),
            rest == all.skip(k as int),
            out@ == head + on_lines(rest.take(j - k)),
        decreases n - j,
    {
        let ghost before = on_lines(rest.take(j - k));
        proof {
            assert(rest.take(j + 1 - k).drop_last() =~= rest.take(j - k));
            assert(rest.take(j + 1 - k).last() == blocks@[j as int]@);
        }
        out.append(blocks[j].as_str());
        out.append("\n");
        assert(head + before + blocks@[j as int]@ + "\n"@ =~= head + (before + blocks@[j as int]@
            + "\n"@));
        j = j + 1;
    }
    assert(rest.take(n - k) =~= rest);
    out
}

pub proof fn lemma_first_kept(blocks: Seq<Seq<char>>, k: int)
    requires
        0 <= k <= blocks.len(),
        chars_from(blocks, k) <= SUMMARY_MAX_CHARS,
    ensures
        0 <= first_kept(blocks, k) <= k,
        chars_from(blocks, first_kept(blocks, k)) <= SUMMARY_MAX_CHARS,
        first_kept(blocks, k) > 0 ==> chars_from(blocks, first_kept(blocks, k) - 1)
            > SUMMARY_MAX_CHARS,
    decreases k,
{
    if k > 0 && chars_from(blocks, k - 1) <= SUMMARY_MAX_CHARS {
        lemma_first_kept(blocks, k - 1);
    }
}

/// A transcript holds as many of the newest records as fit: those that it
/// holds are within the limit, and with one more they would not be.
pub proof fn law_transcript_is_bounded(messages: Seq<MessageModel>)
    ensures
        ({
            let blocks = summary_blocks(messages);
            let k = first_kept(blocks, blocks.len() as int);
            &&& 0 <= k <= blocks.len()
            &&& chars_from(blocks, k) <= SUMMARY_MAX_CHARS
            &&& k > 0 ==> chars_from(blocks, k - 1) > SUMMARY_MAX_CHARS
        }),
{
    let blocks = summary_blocks(messages);
    assert(chars_from(blocks, blocks.len() as int) == 0);
    lemma_first_kept(blocks, blocks.len() as int);
}

} // verus!
