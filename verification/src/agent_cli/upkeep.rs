//! What holds of the caps on tool calls, and of conversations that are put in
//! order, cut and summed up.
use vstd::prelude::*;

use super::compaction::{
    boundary, calls_size, compaction_cutoff, is_safe_boundary, lemma_next_boundary, message_size,
    safe_tail_start, tail_size, tail_start,
};
use super::gate::{in_window, GateDecision, ToolCallGate};
use super::repair::{
    answers, cancelled_text, first_answer, repair_messages, repaired, repaired_upto, with_answer,
    with_answers, OrphanModel, OrphanedToolCall, RepairModel,
};
use super::AgentConfig;
use crate::model::{deep, lemma_first_found, lemma_none_before};
use crate::sansio::deepseek::{CallModel, ChatMessage, MessageModel};
use crate::session::{messages_of, ChatMessageWithTs};
use crate::text::byte_len;
use crate::time::Instant;

verus! {

/// A limiter starts with the caps of the settings, and with nothing let
/// through.
pub proof fn law_limiters_start_open(cfg: &AgentConfig, gate: ToolCallGate)
    requires
        call_ensures(ToolCallGate::new, (cfg,), gate),
    ensures
        gate@.turn_limit == cfg.turn_tool_call_limit,
        gate@.rate == cfg.tool_call_rate,
        gate@.session_max == cfg.session_tool_call_max,
        gate@.turn_count == 0,
        gate@.session_count == 0,
        gate@.recent.len() == 0,
{
}

/// A new turn forgets what was let through in the last one, and nothing else.
pub proof fn law_turns_start_afresh(gate: &mut ToolCallGate)
    requires
        call_ensures(ToolCallGate::begin_turn, (gate,), ()),
    ensures
        final(gate)@.turn_count == 0,
        final(gate)@.turn_limit == old(gate)@.turn_limit,
        final(gate)@.rate == old(gate)@.rate,
        final(gate)@.session_max == old(gate)@.session_max,
        final(gate)@.recent == old(gate)@.recent,
        final(gate)@.session_count == old(gate)@.session_count,
{
}

/// A call is turned away for the turn once as many went through in it as the
/// turn may have; for the session once as many went through as it may have;
/// and without a cap on a span of time for nothing else. One that goes through
/// is counted, and one that is turned away is not.
pub proof fn law_calls_are_counted_against_the_caps(
    gate: &mut ToolCallGate,
    now: Instant,
    r: GateDecision,
)
    requires
        call_ensures(ToolCallGate::try_pass, (gate, now), r),
    ensures
        r is TurnLimitExceeded <==> old(gate)@.turn_count >= old(gate)@.turn_limit,
        r is SessionExhausted ==> old(gate)@.session_max is Some && old(gate)@.session_count
            >= old(gate)@.session_max->0,
        r is Proceed && old(gate)@.session_max is Some ==> old(gate)@.session_count
            < old(gate)@.session_max->0,
        r is RateLimitExceeded ==> old(gate)@.rate is Some,
        r is Proceed ==> final(gate)@.turn_count == old(gate)@.turn_count + 1,
        r is Proceed && old(gate)@.session_max is Some ==> final(gate)@.session_count
            == old(gate)@.session_count + 1,
        !(r is Proceed) ==> final(gate)@.turn_count == old(gate)@.turn_count
            && final(gate)@.session_count == old(gate)@.session_count,
        final(gate)@.turn_limit == old(gate)@.turn_limit,
        final(gate)@.rate == old(gate)@.rate,
        final(gate)@.session_max == old(gate)@.session_max,
{
}

/// A call is turned away for the rate where, of the calls that went through,
/// those from the `n`-th on lie in the span that ends now and are as many as
/// it may have. Those before it are forgotten; one more that goes through is
/// remembered with its time.
pub proof fn law_the_span_ends_now(gate: &mut ToolCallGate, now: Instant, r: GateDecision, n: int)
    requires
        call_ensures(ToolCallGate::try_pass, (gate, now), r),
        old(gate)@.turn_count < old(gate)@.turn_limit,
        old(gate)@.rate is Some,
        now.nanos - (old(gate)@.rate->0.window.secs * 1_000_000_000
            + old(gate)@.rate->0.window.nanos) >= i128::MIN,
        0 <= n <= old(gate)@.recent.len(),
        forall|j: int|
            0 <= j < n ==> (#[trigger] old(gate)@.recent[j]).nanos < now.nanos - (
            old(gate)@.rate->0.window.secs * 1_000_000_000 + old(gate)@.rate->0.window.nanos),
        n < old(gate)@.recent.len() ==> old(gate)@.recent[n].nanos >= now.nanos - (
        old(gate)@.rate->0.window.secs * 1_000_000_000 + old(gate)@.rate->0.window.nanos),
    ensures
        r is RateLimitExceeded <==> old(gate)@.recent.len() - n >= old(gate)@.rate->0.calls,
        r is Proceed ==> final(gate)@.recent == old(gate)@.recent.skip(n).push(now),
        !(r is Proceed) ==> final(gate)@.recent == old(gate)@.recent.skip(n),
{
    lemma_leading(
        old(gate)@.recent,
        now.nanos - (old(gate)@.rate->0.window.secs * 1_000_000_000
            + old(gate)@.rate->0.window.nanos),
        n,
    );
}

proof fn lemma_leading(recent: Seq<Instant>, start: int, n: int)
    requires
        0 <= n <= recent.len(),
        forall|j: int| 0 <= j < n ==> (#[trigger] recent[j]).nanos < start,
        n < recent.len() ==> recent[n].nanos >= start,
    ensures
        in_window(recent, start) == recent.skip(n),
    decreases n,
{
    if n == 0 {
        assert(recent.skip(0) =~= recent);
    } else {
        let rest = recent.skip(1);
        assert forall|j: int| 0 <= j < n - 1 implies (#[trigger] rest[j]).nanos < start by {
            assert(rest[j] == recent[j + 1]);
        }
        lemma_leading(rest, start, n - 1);
        assert(rest.skip(n - 1) =~= recent.skip(n));
        assert(recent[0].nanos < start);
    }
}

/// What became of an answer in a conversation that was put in order: it is
/// the first that was recorded for the call, or there is none and it was made
/// up.
pub open spec fn comes_from(all: Seq<MessageModel>, orphans: Seq<OrphanModel>, m: MessageModel) -> bool {
    ||| exists|j: int|
        0 <= j < all.len() && #[trigger] all[j] == m && forall|k: int|
            0 <= k < j && (#[trigger] all[k]) is Tool ==> all[k]->tool_call_id != m->tool_call_id
    ||| {
        &&& forall|k: int|
            0 <= k < all.len() && (#[trigger] all[k]) is Tool ==> all[k]->tool_call_id
                != m->tool_call_id
        &&& exists|k: int|
            0 <= k < orphans.len() && (#[trigger] orphans[k]).call_id == m->tool_call_id
                && orphans[k].content == m->Tool_content
    }
}

proof fn lemma_first_answer(all: Seq<MessageModel>, id: Seq<char>)
    ensures
        match first_answer(all, id) {
            Some(m) => m is Tool && m->tool_call_id == id && exists|j: int|
                0 <= j < all.len() && #[trigger] all[j] == m && forall|k: int|
                    0 <= k < j && (#[trigger] all[k]) is Tool ==> all[k]->tool_call_id != id,
            None => forall|k: int|
                0 <= k < all.len() && (#[trigger] all[k]) is Tool ==> all[k]->tool_call_id != id,
        },
{
    let f = |i: int|
        if answers(all[i], id) {
            Some(all[i])
        } else {
            None
        };
    match first_answer(all, id) {
        Some(m) => {
            let j = lemma_first_found(all.len() as int, f);
            assert(all[j] == m);
            assert forall|k: int| 0 <= k < j && (#[trigger] all[k]) is Tool implies
                all[k]->tool_call_id != id by {
                assert(f(k) is None);
            }
        },
        None => {
            assert forall|k: int| 0 <= k < all.len() && (#[trigger] all[k]) is Tool implies
                all[k]->tool_call_id != id by {
                lemma_none_before(all.len() as int, f, k);
            }
        },
    }
}

spec fn sound(all: Seq<MessageModel>, st: RepairModel) -> bool {
    &&& forall|i: int|
        0 <= i < st.out.len() && (#[trigger] st.out[i]) is Tool ==> comes_from(
            all,
            st.orphans,
            st.out[i],
        )
    &&& forall|i: int|
        0 <= i < st.placed.len() ==> answered_in(st.out, #[trigger] st.placed[i])
    &&& forall|k: int|
        0 <= k < st.orphans.len() ==> (#[trigger] st.orphans[k]).content == cancelled_text()
            && first_answer(all, st.orphans[k].call_id) is None
}

/// Whether a conversation holds an answer to the call with that id.
pub open spec fn answered_in(out: Seq<MessageModel>, id: Seq<char>) -> bool {
    exists|i: int| 0 <= i < out.len() && (#[trigger] out[i]) is Tool && out[i]->tool_call_id == id
}

proof fn lemma_answered_push(out: Seq<MessageModel>, m: MessageModel, id: Seq<char>)
    requires
        answered_in(out, id),
    ensures
        answered_in(out.push(m), id),
{
    let i = choose|i: int|
        0 <= i < out.len() && (#[trigger] out[i]) is Tool && out[i]->tool_call_id == id;
    assert(out.push(m)[i] == out[i]);
}

proof fn lemma_sound_push(all: Seq<MessageModel>, st: RepairModel, r: RepairModel, m: MessageModel)
    requires
        sound(all, st),
        !(m is Tool),
        r == (RepairModel { out: st.out.push(m), ..st }),
    ensures
        sound(all, r),
{
    assert forall|i: int| 0 <= i < r.out.len() && (#[trigger] r.out[i]) is Tool implies comes_from(
        all,
        r.orphans,
        r.out[i],
    ) by {
        assert(r.out[i] == st.out[i]);
    }
    assert forall|i: int| 0 <= i < r.placed.len() implies answered_in(
        r.out,
        #[trigger] r.placed[i],
    ) by {
        lemma_answered_push(st.out, m, st.placed[i]);
    }
}

proof fn lemma_sound_answer(all: Seq<MessageModel>, st: RepairModel, id: Seq<char>)
    requires
        sound(all, st),
    ensures
        sound(all, with_answer(all, st, id)),
        answered_in(with_answer(all, st, id).out, id),
        forall|a: Seq<char>| #[trigger]
            answered_in(st.out, a) ==> answered_in(with_answer(all, st, id).out, a),
{
    let r = with_answer(all, st, id);
    if st.placed.contains(id) {
        let i = choose|i: int| 0 <= i < st.placed.len() && st.placed[i] == id;
        assert(answered_in(st.out, st.placed[i]));
    } else {
        lemma_first_answer(all, id);
        let m = r.out.last();
        assert(r.out == st.out.push(m));
        assert(m is Tool && m->tool_call_id == id);
        assert(r.out[st.out.len() as int] == m);
        assert forall|a: Seq<char>| #[trigger] answered_in(st.out, a) implies answered_in(
            r.out,
            a,
        ) by {
            lemma_answered_push(st.out, m, a);
        }
        assert forall|i: int|
            0 <= i < r.out.len() && (#[trigger] r.out[i]) is Tool implies comes_from(
            all,
            r.orphans,
            r.out[i],
        ) by {
            if i < st.out.len() {
                assert(r.out[i] == st.out[i]);
                assert(comes_from(all, st.orphans, st.out[i]));
                if !(exists|j: int|
                    0 <= j < all.len() && #[trigger] all[j] == st.out[i] && forall|k: int|
                        0 <= k < j && (#[trigger] all[k]) is Tool ==> all[k]->tool_call_id
                            != st.out[i]->tool_call_id) {
                    let k = choose|k: int|
                        0 <= k < st.orphans.len() && (#[trigger] st.orphans[k]).call_id
                            == st.out[i]->tool_call_id && st.orphans[k].content
                            == st.out[i]->Tool_content;
                    assert(r.orphans[k] == st.orphans[k]);
                }
            } else if first_answer(all, id) is None {
                assert(r.orphans.last().call_id == id);
                assert(r.orphans[st.orphans.len() as int].content == m->Tool_content);
            }
        }
        assert forall|i: int| 0 <= i < r.placed.len() implies answered_in(
            r.out,
            #[trigger] r.placed[i],
        ) by {
            if i < st.placed.len() {
                assert(r.placed[i] == st.placed[i]);
                assert(answered_in(st.out, st.placed[i]));
            }
        }
        assert forall|k: int| 0 <= k < r.orphans.len() implies (
        #[trigger] r.orphans[k]).content == cancelled_text() && first_answer(
            all,
            r.orphans[k].call_id,
        ) is None by {
            if k < st.orphans.len() {
                assert(r.orphans[k] == st.orphans[k]);
            }
        }
    }
}

proof fn lemma_sound_answers(all: Seq<MessageModel>, st: RepairModel, calls: Seq<CallModel>)
    requires
        sound(all, st),
    ensures
        sound(all, with_answers(all, st, calls)),
        forall|q: int|
            0 <= q < calls.len() ==> answered_in(
                with_answers(all, st, calls).out,
                (#[trigger] calls[q]).id,
            ),
        forall|a: Seq<char>| #[trigger]
            answered_in(st.out, a) ==> answered_in(with_answers(all, st, calls).out, a),
    decreases calls.len(),
{
    if calls.len() > 0 {
        let before = calls.drop_last();
        lemma_sound_answers(all, st, before);
        let mid = with_answers(all, st, before);
        lemma_sound_answer(all, mid, calls.last().id);
        assert forall|q: int| 0 <= q < calls.len() implies answered_in(
            with_answers(all, st, calls).out,
            (#[trigger] calls[q]).id,
        ) by {
            if q < before.len() {
                assert(before[q] == calls[q]);
                assert(answered_in(mid.out, before[q].id));
            }
        }
    }
}

proof fn lemma_sound(all: Seq<MessageModel>, n: int)
    requires
        0 <= n <= all.len(),
    ensures
        sound(all, repaired_upto(all, n)),
        forall|p: int, q: int|
            0 <= p < n && all[p] is Assistant && 0 <= q < all[p]->tool_calls.len()
                ==> answered_in(repaired_upto(all, n).out, (#[trigger] all[p]->tool_calls[q]).id),
    decreases n,
{
    if n > 0 {
        lemma_sound(all, n - 1);
        let st = repaired_upto(all, n - 1);
        let m = all[n - 1];
        let r = repaired_upto(all, n);
        if !(m is Tool) {
            let mid = RepairModel { out: st.out.push(m), ..st };
            lemma_sound_push(all, st, mid, m);
            if m is Assistant {
                lemma_sound_answers(all, mid, m->tool_calls);
            }
            assert forall|p: int, q: int|
                0 <= p < n && all[p] is Assistant && 0 <= q
                    < all[p]->tool_calls.len() implies answered_in(
                r.out,
                (#[trigger] all[p]->tool_calls[q]).id,
            ) by {
                if p < n - 1 {
                    lemma_answered_push(st.out, m, all[p]->tool_calls[q].id);
                    assert(answered_in(mid.out, all[p]->tool_calls[q].id));
                }
            }
        }
    }
}

/// Putting a conversation in order leaves no call without an answer. Each
/// answer in it is the first one that was recorded for the call, as it was
/// recorded; only where none was recorded is it made up, and then it says that
/// the call is cancelled and is listed.
pub proof fn law_first_recorded_answers_stand(
    messages: &Vec<ChatMessage>,
    r: (Vec<ChatMessage>, Vec<OrphanedToolCall>),
)
    requires
        call_ensures(repair_messages, (messages,), r),
    ensures
        forall|i: int|
            0 <= i < r.0@.len() && (#[trigger] r.0@[i])@ is Tool ==> comes_from(
                deep(messages@),
                deep(r.1@),
                r.0@[i]@,
            ),
        forall|p: int, q: int|
            0 <= p < messages@.len() && messages@[p]@ is Assistant && 0 <= q
                < messages@[p]@->tool_calls.len() ==> answered_in(
                deep(r.0@),
                (#[trigger] messages@[p]@->tool_calls[q]).id,
            ),
        forall|k: int, j: int|
            0 <= k < r.1@.len() && 0 <= j < messages@.len() && (#[trigger] messages@[j])@ is Tool
                ==> messages@[j]@->tool_call_id != (#[trigger] r.1@[k]).call_id@,
        forall|k: int|
            0 <= k < r.1@.len() ==> (#[trigger] r.1@[k]).content@
                == "{\"error\":"@ + crate::json::quoted("unanswered_tool_call"@) + ",\"message\":"@
                + crate::json::quoted(
                "this tool call was left unapproved and is cancelled before continuing"@,
            ) + "}"@,
{
    let all = deep(messages@);
    let st = repaired(all);
    lemma_sound(all, all.len() as int);
    assert forall|i: int| 0 <= i < r.0@.len() && (#[trigger] r.0@[i])@ is Tool implies comes_from(
        all,
        deep(r.1@),
        r.0@[i]@,
    ) by {
        assert(st.out[i] == r.0@[i]@);
    }
    assert forall|p: int, q: int|
        0 <= p < messages@.len() && messages@[p]@ is Assistant && 0 <= q
            < messages@[p]@->tool_calls.len() implies answered_in(
        deep(r.0@),
        (#[trigger] messages@[p]@->tool_calls[q]).id,
    ) by {
        assert(all[p] == messages@[p]@);
        assert(answered_in(st.out, all[p]->tool_calls[q].id));
    }
    assert forall|k: int, j: int|
        0 <= k < r.1@.len() && 0 <= j < messages@.len() && (
        #[trigger] messages@[j])@ is Tool implies messages@[j]@->tool_call_id != (
    #[trigger] r.1@[k]).call_id@ by {
        assert(st.orphans[k] == r.1@[k]@);
        assert(all[j] == messages@[j]@);
        lemma_first_answer(all, st.orphans[k].call_id);
    }
    assert forall|k: int| 0 <= k < r.1@.len() implies (#[trigger] r.1@[k]).content@
        == cancelled_text() by {
        assert(st.orphans[k] == r.1@[k]@);
    }
}

/// A conversation can be cut before what the user says, and before an
/// assistant message that makes no calls, and nowhere else.
pub proof fn law_cuts_stand_before_turns(msg: &ChatMessage, r: bool)
    requires
        call_ensures(is_safe_boundary, (msg,), r),
    ensures
        msg@ is User ==> r,
        msg@ is Assistant ==> r == (msg@->tool_calls.len() == 0),
        msg@ is System || msg@ is Tool ==> !r,
{
}

/// The tail of a conversation starts at the first place from the target on
/// where it can be cut; where there is none, nothing is cut off.
pub proof fn law_tails_start_at_the_first_cut(
    records: &Vec<ChatMessageWithTs>,
    keep: usize,
    r: usize,
)
    requires
        call_ensures(safe_tail_start, (records, keep), r),
    ensures
        records@.len() <= keep ==> r == 0,
        r > 0 ==> records@.len() - keep <= r < records@.len() && (records@[r as int].message@ is User
            || records@[r as int].message@ is Assistant
            && records@[r as int].message@->tool_calls.len() == 0),
        forall|j: int|
            0 < records@.len() - keep <= j < records@.len() && ((
            #[trigger] records@[j]).message@ is User || records@[j].message@ is Assistant
                && records@[j].message@->tool_calls.len() == 0) ==> 0 < r <= j,
{
    let messages = messages_of(records@);
    if records@.len() > keep {
        lemma_next_boundary(messages, records@.len() - keep);
        assert forall|j: int|
            0 < records@.len() - keep <= j < records@.len() && ((
            #[trigger] records@[j]).message@ is User || records@[j].message@ is Assistant
                && records@[j].message@->tool_calls.len() == 0) implies 0 < r <= j by {
            assert(messages[j] == records@[j].message@);
            assert(boundary(messages[j]));
        }
        if r > 0 {
            assert(messages[r as int] == records@[r as int].message@);
        }
    }
}

/// What is kept of a conversation that is cut fits, or is nothing; it starts
/// at a place where it can be cut; and no such place from the target on, where
/// there is one, would keep more that fits.
pub proof fn law_as_much_is_kept_as_fits(
    records: &Vec<ChatMessageWithTs>,
    keep: usize,
    max: usize,
    r: Option<usize>,
)
    requires
        call_ensures(compaction_cutoff, (records, keep, max), r),
    ensures
        records@.len() <= keep ==> r is None,
        r matches Some(k) ==> 0 < k <= records@.len() && (k < records@.len() ==> tail_size(
            messages_of(records@),
            k as int,
        ) <= max && (records@[k as int].message@ is User || records@[k as int].message@ is Assistant
            && records@[k as int].message@->tool_calls.len() == 0)),
        r is None && records@.len() > keep ==> tail_size(messages_of(records@), 0) <= max,
        forall|j: int|
            0 < records@.len() - keep <= j < records@.len() && ((
            #[trigger] records@[j]).message@ is User || records@[j].message@ is Assistant
                && records@[j].message@->tool_calls.len() == 0) ==> r is Some
                && records@.len() - keep <= r->0 && (j < r->0 ==> tail_size(
                messages_of(records@),
                j,
            ) > max),
{
    let messages = messages_of(records@);
    let start = tail_start(messages, keep as nat);
    if records@.len() > keep {
        lemma_next_boundary(messages, records@.len() - keep);
        if let Some(k) = r {
            if k < records@.len() {
                assert(messages[k as int] == records@[k as int].message@);
            }
        }
        assert forall|j: int|
            0 < records@.len() - keep <= j < records@.len() && ((
            #[trigger] records@[j]).message@ is User || records@[j].message@ is Assistant
                && records@[j].message@->tool_calls.len() == 0) implies r is Some && records@.len()
            - keep <= r->0 && (j < r->0 ==> tail_size(messages, j) > max) by {
            assert(messages[j] == records@[j].message@);
            assert(boundary(messages[j]));
            assert(start > 0);
        }
    }
}

/// The size of a tail is that of its first message and of what follows. The
/// size of a message is that of all the text in it, calls with their names and
/// arguments, in bytes.
pub proof fn law_sizes_add_up(messages: Seq<MessageModel>, k: int, c: CallModel, calls: Seq<CallModel>)
    ensures
        0 <= k < messages.len() ==> tail_size(messages, k) == message_size(messages[k]) + tail_size(
            messages,
            k + 1,
        ),
        tail_size(messages, messages.len() as int) == 0,
        forall|s: Seq<char>| #[trigger] message_size(MessageModel::System(s)) == byte_len(s),
        forall|s: Seq<char>| #[trigger] message_size(MessageModel::User(s)) == byte_len(s),
        forall|id: Seq<char>, s: Seq<char>| #[trigger]
            message_size(MessageModel::Tool { tool_call_id: id, content: s }) == byte_len(s),
        forall|s: Seq<char>, t: Seq<char>| #[trigger]
            message_size(
                MessageModel::Assistant {
                    content: s,
                    reasoning_content: Some(t),
                    tool_calls: calls,
                },
            ) == byte_len(s) + byte_len(t) + calls_size(calls),
        forall|s: Seq<char>| #[trigger]
            message_size(
                MessageModel::Assistant { content: s, reasoning_content: None, tool_calls: calls },
            ) == byte_len(s) + calls_size(calls),
        calls_size(Seq::empty()) == 0,
        calls_size(calls.push(c)) == calls_size(calls) + byte_len(c.function_name) + byte_len(
            c.arguments_json,
        ),
{
    assert(calls.push(c).drop_last() =~= calls);
}

} // verus!
