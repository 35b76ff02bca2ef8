//! Which records of a conversation are folded into a summary.
use vstd::prelude::*;
use vstd::string::*;

use super::repair::{all_answered, answered_at, answers};
use crate::model::deep;
use crate::sansio::deepseek::{CallModel, ChatMessage, MessageModel};
use crate::session::{messages_of, ChatMessageWithTs};
use crate::text::byte_len;

verus! {

/// Tokens of the last prompt from which on the next one is preceded by a
/// summary.
pub const COMPACTION_TRIGGER_TOKENS: u64 = 16_384;

/// How many of the newest records a summary leaves alone, at least.
pub const KEEP_RECENT_RECORDS_TARGET: usize = 10;

/// Maximum size of the records that a summary leaves alone.
pub const RETAINED_TAIL_MAX_CHARS: usize = 250_000;

/// Whether a conversation can be cut before a message without parting a call
/// from its answer.
pub open spec fn boundary(m: MessageModel) -> bool {
    match m {
        MessageModel::User(_) => true,
        MessageModel::Assistant { tool_calls, .. } => tool_calls.len() == 0,
        _ => false,
    }
}

/// Whether a conversation can be cut before a message without parting a call
/// from its answer.
pub fn is_safe_boundary(msg: &ChatMessage) -> (r: bool)
    ensures
        r == boundary(msg@),
{
    match msg {
        ChatMessage::User(_) => true,
        ChatMessage::Assistant { tool_calls, .. } => tool_calls.len() == 0,
        _ => false,
    }
}

/// The first place from `k` on where a conversation can be cut; its end, if
/// there is none.
pub open spec fn next_boundary(messages: Seq<MessageModel>, k: int) -> int
    decreases messages.len() - k,
{
    if k >= messages.len() || boundary(messages[k]) {
        k
    } else {
        next_boundary(messages, k + 1)
    }
}

/// Where the tail starts that is kept, going by the number of records; 0 if
/// nothing can be cut off.
pub open spec fn tail_start(messages: Seq<MessageModel>, target_keep: nat) -> int {
    let n = messages.len();
    if n <= target_keep {
        0
    } else {
        let k = next_boundary(messages, n - target_keep);
        if k < n {
            k
        } else {
            0
        }
    }
}

fn find_boundary(records: &Vec<ChatMessageWithTs>, from: usize) -> (r: usize)
    requires
        from <= records@.len(),
    ensures
        r == next_boundary(messages_of(records@), from as int),
        from <= r <= records@.len(),
{
    let ghost all = messages_of(records@);
    let mut i: usize = from;
    while i < records.len() && !is_safe_boundary(&records[i].message)
        invariant
            from <= i <= records@.len(),
            all == messages_of(records@),
            next_boundary(all, i as int) == next_boundary(all, from as int),
        decreases records@.len() - i,
    {
        i = i + 1;
    }
    i
}

/// Where the tail starts that is kept, going by the number of records.
///
/// At least `target_keep` records are aimed at, and fewer are kept where the
/// conversation cannot be cut there.
pub fn safe_tail_start(records: &Vec<ChatMessageWithTs>, target_keep: usize) -> (r: usize)
    ensures
        r == tail_start(messages_of(records@), target_keep as nat),
        r <= records@.len(),
{
    let n: usize = records.len();
    if n <= target_keep {
        return 0;
    }
    let k = find_boundary(records, n - target_keep);
    if k < n {
        k
    } else {
        0
    }
}

/// The size of calls.
pub open spec fn calls_size(calls: Seq<CallModel>) -> nat
    decreases calls.len(),
{
    if calls.len() == 0 {
        0
    } else {
        calls_size(calls.drop_last()) + byte_len(calls.last().function_name) as nat + byte_len(
            calls.last().arguments_json,
        ) as nat
    }
}

/// The size of a message, in bytes.
pub open spec fn message_size(m: MessageModel) -> nat {
    match m {
        MessageModel::System(s) => byte_len(s) as nat,
        MessageModel::User(s) => byte_len(s) as nat,
        MessageModel::Assistant { content, reasoning_content, tool_calls } => byte_len(content) as nat + (
        match reasoning_content {
            Some(r) => byte_len(r) as nat,
            None => 0,
        }) + calls_size(tool_calls),
        MessageModel::Tool { content, .. } => byte_len(content) as nat,
    }
}

/// The size of the messages from the `k`-th on.
pub open spec fn tail_size(messages: Seq<MessageModel>, k: int) -> nat
    decreases messages.len() - k,
{
    if k < 0 || k >= messages.len() {
        0
    } else {
        message_size(messages[k]) + tail_size(messages, k + 1)
    }
}

/// What is left of a budget, if anything, once something is paid.
fn spend(budget: Option<usize>, n: usize) -> (r: Option<usize>)
    ensures
        match (budget, r) {
            (Some(b), Some(left)) => left + n == b,
            (Some(b), None) => n > b,
            (None, _) => r is None,
        },
{
    match budget {
        Some(b) => if n <= b {
            Some(b - n)
        } else {
            None
        },
        None => None,
    }
}

/// What is left of a budget once a message is paid, if it suffices.
fn pay(msg: &ChatMessage, budget: usize) -> (r: Option<usize>)
    ensures
        match r {
            Some(left) => message_size(msg@) + left == budget,
            None => message_size(msg@) > budget,
        },
{
    match msg {
        ChatMessage::System(s) => spend(Some(budget), s.as_str().len()),
        ChatMessage::User(s) => spend(Some(budget), s.as_str().len()),
        ChatMessage::Assistant { content, reasoning_content, tool_calls } => {
            let mut left = spend(Some(budget), content.as_str().len());
            let ghost mut base = byte_len(content@) as nat;
            if let Some(reasoning) = reasoning_content {
                left = spend(left, reasoning.as_str().len());
                proof {
                    base = base + byte_len(reasoning@) as nat;
                }
            }
            let ghost calls = deep(tool_calls@);
            let mut i: usize = 0;
            assert(calls.take(0) =~= Seq::empty());
            while i < tool_calls.len()
                invariant
                    i <= tool_calls@.len(),
                    calls == deep(tool_calls@),
                    match left {
                        Some(l) => base + calls_size(calls.take(i as int)) + l == budget,
                        None => base + calls_size(calls.take(i as int)) > budget,
                    },
                decreases tool_calls@.len() - i,
            {
                proof {
                    assert(calls.take(i + 1).drop_last() =~= calls.take(i as int));
                    assert(calls.take(i + 1).last() == tool_calls@[i as int]@);
                }
                left = spend(left, tool_calls[i].function_name.as_str().len());
                left = spend(left, tool_calls[i].arguments_json.as_str().len());
                i = i + 1;
            }
            assert(calls.take(calls.len() as int) =~= calls);
            left
        },
        ChatMessage::Tool { content, .. } => spend(Some(budget), content.as_str().len()),
    }
}

/// Whether the records from the `from`-th on are within a size.
fn tail_fits(records: &Vec<ChatMessageWithTs>, from: usize, max: usize) -> (r: bool)
    requires
        from <= records@.len(),
    ensures
        r == (tail_size(messages_of(records@), from as int) <= max),
{
    let ghost all = messages_of(records@);
    let mut left: usize = max;
    let mut i: usize = from;
    while i < records.len()
        invariant
            from <= i <= records@.len(),
            all == messages_of(records@),
            left <= max,
            tail_size(all, from as int) == (max - left) + tail_size(all, i as int),
        decreases records@.len() - i,
    {
        assert(all[i as int] == records@[i as int].message@);
        match pay(&records[i].message, left) {
            Some(rest) => {
                left = rest;
            },
            None => return false,
        }
        i = i + 1;
    }
    true
}

/// Whether the tail that is kept starts at `k`: the first place from `start`
/// on where the conversation can be cut and what follows is within `max`, or
/// else the end.
pub open spec fn is_cutoff(messages: Seq<MessageModel>, start: int, max: nat, k: int) -> bool {
    &&& start <= k <= messages.len()
    &&& k == start || k == messages.len() || boundary(messages[k])
    &&& tail_size(messages, k) <= max || k == messages.len()
    &&& forall|j: int|
        start <= j < k && (j == start || boundary(#[trigger] messages[j])) ==> tail_size(
            messages,
            j,
        ) > max
}

pub proof fn lemma_next_boundary(messages: Seq<MessageModel>, k: int)
    requires
        0 <= k <= messages.len(),
    ensures
        k <= next_boundary(messages, k) <= messages.len(),
        next_boundary(messages, k) < messages.len() ==> boundary(
            messages[next_boundary(messages, k)],
        ),
        forall|j: int| k <= j < next_boundary(messages, k) ==> !boundary(#[trigger] messages[j]),
    decreases messages.len() - k,
{
    if k < messages.len() && !boundary(messages[k]) {
        lemma_next_boundary(messages, k + 1);
    }
}

/// Chooses where the tail starts that is kept; what stands before it is
/// folded into a summary. `None` where nothing is to be folded.
pub fn compaction_cutoff(
    records: &Vec<ChatMessageWithTs>,
    target_keep: usize,
    max_tail_chars: usize,
) -> (r: Option<usize>)
    ensures
        ({
            let messages = messages_of(records@);
            let start = tail_start(messages, target_keep as nat);
            match r {
                Some(k) => messages.len() > target_keep && k > 0 && is_cutoff(
                    messages,
                    start,
                    max_tail_chars as nat,
                    k as int,
                ),
                None => messages.len() <= target_keep || is_cutoff(
                    messages,
                    start,
                    max_tail_chars as nat,
                    0,
                ),
            }
        }),
{
    let n: usize = records.len();
    if n <= target_keep {
        return None;
    }
    let ghost all = messages_of(records@);
    let start: usize = safe_tail_start(records, target_keep);
    let mut keep_start: usize = start;
    while keep_start < n && !tail_fits(records, keep_start, max_tail_chars)
        invariant
            start <= keep_start <= n,
            n == records@.len(),
            all == messages_of(records@),
            keep_start == start || keep_start == n || boundary(all[keep_start as int]),
            forall|j: int|
                start <= j < keep_start && (j == start || boundary(#[trigger] all[j]))
                    ==> tail_size(all, j) > max_tail_chars,
        decreases n - keep_start,
    {
        let next = find_boundary(records, keep_start + 1);
        proof {
            lemma_next_boundary(all, keep_start + 1);
        }
        keep_start = next;
    }
    if keep_start == 0 {
        None
    } else {
        Some(keep_start)
    }
}

/// There is one place at most where the tail starts that is kept.
pub proof fn law_cutoff_is_unique(messages: Seq<MessageModel>, start: int, max: nat, a: int, b: int)
    requires
        is_cutoff(messages, start, max, a),
        is_cutoff(messages, start, max, b),
    ensures
        a == b,
{
}

/// Cutting a conversation where the tail starts parts no call from its
/// answer: what was answered before the cut stays answered on its side of it.
pub proof fn law_cutoff_parts_no_answer(
    messages: Seq<MessageModel>,
    target_keep: nat,
    max: nat,
    k: int,
)
    requires
        all_answered(messages),
        is_cutoff(messages, tail_start(messages, target_keep), max, k),
        messages.len() > target_keep,
    ensures
        all_answered(messages.take(k)),
        all_answered(messages.skip(k)),
{
    let start = tail_start(messages, target_keep);
    lemma_next_boundary(messages, messages.len() - target_keep);
    if k == 0 {
        assert(messages.take(0) =~= Seq::empty());
        assert(messages.skip(0) =~= messages);
    } else {
        assert(k < messages.len() ==> boundary(messages[k]));
        assert forall|p: int| 0 <= p < messages.take(k).len() implies answered_at(
            messages.take(k),
            p,
        ) by {
            assert(answered_at(messages, p));
            if messages[p] is Assistant {
                let calls = messages[p]->tool_calls;
                if p + calls.len() >= k {
                    assert(answers(messages[p + 1 + (k - p - 1)], calls[k - p - 1].id));
                }
                assert forall|q: int| 0 <= q < calls.len() implies answers(
                    #[trigger] messages.take(k)[p + 1 + q],
                    calls[q].id,
                ) by {
                    assert(answers(messages[p + 1 + q], calls[q].id));
                }
            }
        }
        assert forall|p: int| 0 <= p < messages.skip(k).len() implies answered_at(
            messages.skip(k),
            p,
        ) by {
            assert(answered_at(messages, p + k));
            if messages[p + k] is Assistant {
                let calls = messages[p + k]->tool_calls;
                assert forall|q: int| 0 <= q < calls.len() implies answers(
                    #[trigger] messages.skip(k)[p + 1 + q],
                    calls[q].id,
                ) by {
                    assert(answers(messages[p + k + 1 + q], calls[q].id));
                }
            }
        }
    }
}

/// Whether the next prompt is to be preceded by a summary: the last one was
/// large, and no call waits for approval.
pub fn should_compact(has_pending: bool, latest_prompt_tokens: Option<u64>) -> (r: bool)
    ensures
        r == (!has_pending && latest_prompt_tokens is Some && latest_prompt_tokens->0
            >= COMPACTION_TRIGGER_TOKENS),
{
    if has_pending {
        return false;
    }
    match latest_prompt_tokens {
        Some(latest) => latest >= COMPACTION_TRIGGER_TOKENS,
        None => false,
    }
}

/// Nothing is summed up while a call waits for approval, nor before the last
/// prompt has reached the size from which on it is.
pub proof fn law_only_long_conversations_are_summed_up(
    waits: bool,
    latest: Option<u64>,
    r: bool,
)
    requires
        call_ensures(should_compact, (waits, latest), r),
    ensures
        r ==> !waits && latest is Some && latest->0 >= 16_384,
        !waits && latest is Some && latest->0 >= 16_384 ==> r,
{
}

} // verus!
