//! What holds of the agent loop as a whole.
use vstd::prelude::*;

use super::resume::{prompt_step, repair_step};
use super::{
    answered, call_step, judged_step, passed_step, patch_previewed_step, refused, reply_step,
    suspended, turn_step, LoopModel, NextModel, PatchReplyModel,
};
use crate::agent_cli::counters::ToolCallsByKind;
use crate::agent_cli::gate::{law_gate_stays_within_caps, within_caps};
use crate::agent_cli::repair::{all_answered, answers, calls_distinct};
use crate::curl::CallResultModel;
use crate::sansio::agent::errors::PatchErrorModel;
use crate::sansio::agent::tools::EditModel;
use crate::sansio::deepseek::{CallModel, MessageModel};
use crate::sansio::permissions::{judged, JudgmentModel, PermissionKind, Target};
use crate::time::Instant;

verus! {

/// Whether something runs that reads, changes or starts anything.
pub open spec fn runs_something(next: NextModel) -> bool {
    next is ReadOnly || next is ApplyPatch || next is RunCommand || next is LoadSkill
}

/// Once a call of a turn waits for approval, nothing more is run in that
/// turn, and no call is answered but those that a cap turns away.
pub proof fn law_nothing_runs_once_a_call_waits(
    m: LoopModel,
    ts: u64,
    now: Instant,
    c: CallModel,
    edits: Seq<EditModel>,
    reply: Result<PatchReplyModel, PatchErrorModel>,
    argv: Seq<Seq<char>>,
    judgment: JudgmentModel,
)
    requires
        suspended(m),
    ensures
        !runs_something(call_step(m, ts, now).2),
        suspended(call_step(m, ts, now).0),
        !runs_something(patch_previewed_step(m, c, edits, reply, ts).2),
        suspended(patch_previewed_step(m, c, edits, reply, ts).0),
        patch_previewed_step(m, c, edits, reply, ts).0.messages == m.messages,
        !runs_something(judged_step(m, c, argv, judgment, ts).2),
        passed_step(m, c, ts).0.messages == m.messages,
{
}

/// The loop asks the model no more often than it may: each request uses up a
/// turn.
pub proof fn law_turns_are_bounded(m: LoopModel)
    requires
        m.turns <= m.max_turns,
    ensures
        turn_step(m).0.turns <= m.max_turns,
        turn_step(m).2 is CallModel ==> turn_step(m).0.turns == m.turns + 1,
        m.turns == m.max_turns ==> turn_step(m).2 is Fail,
{
}

/// A request carries the whole conversation.
pub proof fn law_requests_carry_the_conversation(m: LoopModel)
    ensures
        turn_step(m).2 is CallModel ==> turn_step(m).2->CallModel_0.messages == m.messages
            && turn_step(m).2->CallModel_0.max_tokens == m.max_tokens,
{
}

/// The sum of the calls of all kinds.
pub open spec fn calls_counted(k: ToolCallsByKind) -> int {
    k.list + k.read + k.search + k.patch + k.command + k.skill_load + k.unknown
}

/// Each call that is taken up is counted once, under its kind, whatever
/// becomes of it. (No count is at its limit.)
pub proof fn law_each_call_is_counted_once(m: LoopModel, ts: u64, now: Instant)
    requires
        m.at < m.calls.len(),
        calls_counted(m.counters.tool_calls_by_kind) < u64::MAX,
    ensures
        calls_counted(call_step(m, ts, now).0.counters.tool_calls_by_kind) == calls_counted(
            m.counters.tool_calls_by_kind,
        ) + 1,
        call_step(m, ts, now).0.at == m.at + 1,
{
}

/// The caps on tool calls hold throughout.
pub proof fn law_caps_hold(m: LoopModel, ts: u64, now: Instant, r: CallResultModel)
    requires
        within_caps(m.gate),
    ensures
        within_caps(turn_step(m).0.gate),
        within_caps(reply_step(m, r, ts).0.gate),
        within_caps(call_step(m, ts, now).0.gate),
{
    law_gate_stays_within_caps(m.gate, now);
}

/// The ids of the calls that messages answer.
pub open spec fn answered_ids(messages: Seq<MessageModel>) -> Seq<Seq<char>> {
    messages.map_values(
        |m: MessageModel|
            match m {
                MessageModel::Tool { tool_call_id, .. } => tool_call_id,
                _ => Seq::empty(),
            },
    )
}

/// The ids of calls.
pub open spec fn call_ids(calls: Seq<CallModel>) -> Seq<Seq<char>> {
    calls.map_values(|c: CallModel| c.id)
}

/// Whether some of the ids are there, in the same order.
pub open spec fn picked_from(some: Seq<Seq<char>>, all: Seq<Seq<char>>) -> bool
    decreases all.len(),
{
    if some.len() == 0 {
        true
    } else if all.len() == 0 {
        false
    } else {
        (some.last() == all.last() && picked_from(some.drop_last(), all.drop_last()))
            || picked_from(some, all.drop_last())
    }
}

/// Whether what stands behind the first `base` messages are answers to calls
/// of the turn that were taken up, in the order of the calls.
pub open spec fn answers_in_order(m: LoopModel, base: int, taken: int) -> bool {
    &&& 0 <= base <= m.messages.len()
    &&& 0 <= taken <= m.calls.len()
    &&& forall|i: int| base <= i < m.messages.len() ==> (#[trigger] m.messages[i]) is Tool
    &&& picked_from(answered_ids(m.messages.skip(base)), call_ids(m.calls.take(taken)))
}

proof fn lemma_answer_in_order(m: LoopModel, n: LoopModel, base: int, taken: int, content: Seq<char>)
    requires
        answers_in_order(m, base, taken),
        taken < m.calls.len(),
        n.calls == m.calls,
        n.messages == m.messages.push(
            MessageModel::Tool { tool_call_id: m.calls[taken].id, content },
        ),
    ensures
        answers_in_order(n, base, taken + 1),
{
    let some = answered_ids(m.messages.skip(base));
    let all = call_ids(m.calls.take(taken));
    let more = answered_ids(n.messages.skip(base));
    let upto = call_ids(m.calls.take(taken + 1));
    assert(more =~= some.push(m.calls[taken].id));
    assert(upto =~= all.push(m.calls[taken].id));
    assert(more.drop_last() =~= some);
    assert(upto.drop_last() =~= all);
    assert forall|i: int| base <= i < n.messages.len() implies (#[trigger] n.messages[i]) is Tool by {
        if i < m.messages.len() {
            assert(n.messages[i] == m.messages[i]);
        }
    }
}

proof fn lemma_no_answer_in_order(m: LoopModel, n: LoopModel, base: int, taken: int)
    requires
        answers_in_order(m, base, taken),
        taken < m.calls.len(),
        n.calls == m.calls,
        n.messages == m.messages,
    ensures
        answers_in_order(n, base, taken + 1),
{
    let all = call_ids(m.calls.take(taken));
    let upto = call_ids(m.calls.take(taken + 1));
    assert(upto =~= all.push(m.calls[taken].id));
    assert(upto.drop_last() =~= all);
}

/// Answers come in the order of the calls. Taking up a call answers that
/// call or none, and no other.
pub proof fn law_answers_keep_the_order_of_calls(m: LoopModel, base: int, ts: u64, now: Instant)
    requires
        answers_in_order(m, base, m.at as int),
        m.at < m.calls.len(),
    ensures
        answers_in_order(call_step(m, ts, now).0, base, (m.at + 1) as int),
{
    let n = call_step(m, ts, now).0;
    if n.messages == m.messages {
        lemma_no_answer_in_order(m, n, base, m.at as int);
    } else {
        lemma_answer_in_order(m, n, base, m.at as int, n.messages.last()->Tool_content);
    }
}

/// The result of a call that was run answers that call, behind the answers
/// to the calls before it.
pub proof fn law_results_keep_the_order_of_calls(m: LoopModel, base: int, content: Seq<char>)
    requires
        m.at > 0,
        answers_in_order(m, base, m.at - 1),
        m.at <= m.calls.len(),
    ensures
        answers_in_order(answered(m, m.calls[m.at - 1].id, content), base, m.at as int),
        answers_in_order(refused(m, m.calls[m.at - 1].id, content), base, m.at as int),
{
    let id = m.calls[m.at - 1].id;
    lemma_answer_in_order(m, answered(m, id, content), base, m.at - 1, content);
    lemma_answer_in_order(m, refused(m, id, content), base, m.at - 1, content);
}

/// A prompt goes to the model behind a conversation in which every call is
/// answered: provided that no two calls share an id.
pub proof fn law_prompts_follow_answered_calls(
    m: LoopModel,
    text: Seq<char>,
    waiting: Seq<Seq<char>>,
    ts: u64,
)
    requires
        calls_distinct(m.messages),
    ensures
        all_answered(prompt_step(m, text, waiting, ts).0.messages),
        prompt_step(m, text, waiting, ts).0.messages.last() == MessageModel::User(text),
{
    crate::agent_cli::repair::law_repair_answers_every_call(m.messages);
    let before = repair_step(m, waiting, ts).0.messages;
    let after = before.push(MessageModel::User(text));
    assert forall|p: int| 0 <= p < after.len() implies crate::agent_cli::repair::answered_at(
        after,
        p,
    ) by {
        if p < before.len() {
            assert(crate::agent_cli::repair::answered_at(before, p));
            assert(after[p] == before[p]);
            if before[p] is Assistant {
                let calls = before[p]->tool_calls;
                assert forall|q: int| 0 <= q < calls.len() implies answers(
                    #[trigger] after[p + 1 + q],
                    calls[q].id,
                ) by {
                    assert(answers(before[p + 1 + q], calls[q].id));
                }
            }
        }
    }
}

/// Nothing is changed that nobody approved: a command is run only where a
/// rule lets it through, and a patch is applied only where nobody needs to be
/// asked. All others wait for the user.
pub proof fn law_only_approved_calls_run(
    m: LoopModel,
    ts: u64,
    now: Instant,
    c: CallModel,
    edits: Seq<EditModel>,
    reply: Result<PatchReplyModel, PatchErrorModel>,
)
    ensures
        match call_step(m, ts, now).2 {
            NextModel::RunCommand { command, .. } => judged(
                m.rules,
                PermissionKind::Command,
                Target::Argv(command),
            ) is AutoApprove,
            NextModel::ApplyPatch { .. } => false,
            _ => true,
        },
        match patch_previewed_step(m, c, edits, reply, ts).2 {
            NextModel::ApplyPatch { .. } => reply is Ok && reply->Ok_0.auto_approve,
            NextModel::RunCommand { .. } => false,
            _ => true,
        },
{
}

} // verus!
