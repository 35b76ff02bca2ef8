//! What each step of the agent loop leads to.
use vstd::prelude::*;
use vstd::string::*;

use super::resume::{
    approve_step, approved_command_text, approved_preview_step, closing_records, ending,
    prompt_step, reject_step, settled,
};
use super::{
    call_step, command_done_step, judged_step, new_loop, patch_applied_step, patch_previewed_step,
    read_only_done_step, reply_step, skill_done_step, turn_step, AgentLoop, Driven, Effect,
    EffectModel, LoopModel, Next, NextModel, PatchReply, PatchReplyModel, SkillReply,
    SkillReplyModel, Step,
};
use crate::agent_cli::gate::asked;
use crate::agent_cli::AgentConfig;
use crate::agent_cli::counters::Counters;
use crate::curl::{CallResult, CallResultModel};
use crate::model::{deep, maybe};
use crate::permissions::LoadedRules;
use crate::sansio::agent::errors::{
    CommandErrorModel, OutcomeModel, PatchError, PatchErrorModel, ToolOutcome,
};
use crate::sansio::agent::tools::{
    command_call, patch_call, read_only_call, skill_call, CommandInvocation, EditModel,
    PatchInvocation, ReadOnlyModel, ReadOnlyTool,
};
use crate::sansio::agent::types::{PreviewHash, PreviewHashModel};
use crate::sansio::deepseek::{CallModel, MessageModel, ToolCall};
use crate::sansio::permissions::{Judgment, JudgmentModel};
use crate::session::{
    ApprovalDecision, InvocationEndReason, Pending, PendingModel, PendingToolKind, RecordModel,
    SessionRecord,
};
use crate::time::Instant;

verus! {

/// Whether nothing but the conversation, the counts and the calls of the turn
/// differs.
pub open spec fn same_settings(m: LoopModel, n: LoopModel) -> bool {
    &&& n.model == m.model
    &&& n.max_tokens == m.max_tokens
    &&& n.max_turns == m.max_turns
    &&& n.authorization == m.authorization
    &&& n.rules == m.rules
}

/// Whether one message has been added, the answer to that call with that
/// content, and the last thing recorded is that answer.
pub open spec fn answered_with(
    m: LoopModel,
    s: Step,
    id: Seq<char>,
    content: Seq<char>,
    ts: u64,
) -> bool {
    &&& s.0.messages == m.messages.push(MessageModel::Tool { tool_call_id: id, content })
    &&& s.1.len() > 0
    &&& s.1.last() == EffectModel::Append(RecordModel::Tool { ts, call_id: id, content })
    &&& s.2 is Call
    &&& s.0.parked == m.parked
    &&& s.0.calls == m.calls
    &&& same_settings(m, s.0)
}

/// Whether a count has gone up by `n`, or has stopped at its end.
pub open spec fn up_by(a: u64, b: u64, n: int) -> bool {
    b == a + n || (b == u64::MAX && a + n > u64::MAX)
}

/// A reply without tool calls ends the loop, and no other does: with at least
/// one call the loop goes on to the calls, whatever else the reply holds.
pub proof fn law_replies_without_calls_end_the_loop(m: LoopModel, r: CallResultModel, ts: u64)
    ensures
        reply_step(m, r, ts).2 == NextModel::Done(Driven::Completed) <==> r.tool_calls.len() == 0,
        reply_step(m, r, ts).2 is Call <==> r.tool_calls.len() > 0,
{
}

/// What the model replies stands at the end of the conversation and in the
/// records as it came, and its calls are the ones to be taken up.
pub proof fn law_replies_are_kept_as_they_came(m: LoopModel, r: CallResultModel, ts: u64)
    ensures
        ({
            let (n, effects, _) = reply_step(m, r, ts);
            &&& n.messages.len() == m.messages.len() + 1
            &&& n.messages.take(m.messages.len() as int) == m.messages
            &&& n.messages.last() == (MessageModel::Assistant {
                content: r.content,
                reasoning_content: r.reasoning_content,
                tool_calls: r.tool_calls,
            })
            &&& n.calls == r.tool_calls
            &&& n.at == 0
            &&& n.parked.len() == 0
            &&& n.gate == m.gate
            &&& n.turns == m.turns
            &&& same_settings(m, n)
            &&& effects.len() == (if r.usage is Some {
                2nat
            } else {
                1nat
            })
            &&& effects[0] == EffectModel::Append(
                RecordModel::Assistant {
                    ts,
                    content: r.content,
                    reasoning: r.reasoning_content,
                    tool_calls: r.tool_calls,
                },
            )
            &&& r.usage matches Some(u) ==> effects[1] == EffectModel::Append(
                RecordModel::TokenUsage { ts, body: u },
            )
        }),
{
    assert(reply_step(m, r, ts).0.messages.take(m.messages.len() as int) =~= m.messages);
}

/// Each reply counts as a turn, and the tokens that it reports are added to
/// the counts; one that reports none leaves them alone.
pub proof fn law_replies_are_counted(m: LoopModel, r: CallResultModel, ts: u64)
    ensures
        ({
            let a = m.counters;
            let b = reply_step(m, r, ts).0.counters;
            let used = |t: Option<u64>| if t is Some {
                t->0 as int
            } else {
                0
            };
            &&& up_by(a.turns, b.turns, 1)
            &&& b.tool_errors == a.tool_errors
            &&& b.tool_calls_by_kind == a.tool_calls_by_kind
            &&& b.compaction_attempts == a.compaction_attempts
            &&& b.compaction_failures == a.compaction_failures
            &&& match r.usage {
                Some(u) => {
                    &&& b.prompt_tokens_last == used(u.prompt_tokens)
                    &&& up_by(
                        a.prompt_tokens_billed_total,
                        b.prompt_tokens_billed_total,
                        used(u.prompt_tokens),
                    )
                    &&& up_by(
                        a.completion_tokens_total,
                        b.completion_tokens_total,
                        used(u.completion_tokens),
                    )
                    &&& up_by(
                        a.prompt_cache_hit_tokens_total,
                        b.prompt_cache_hit_tokens_total,
                        used(u.prompt_cache_hit_tokens),
                    )
                    &&& up_by(
                        a.prompt_cache_miss_tokens_total,
                        b.prompt_cache_miss_tokens_total,
                        used(u.prompt_cache_miss_tokens),
                    )
                },
                None => {
                    &&& b.prompt_tokens_last == a.prompt_tokens_last
                    &&& b.prompt_tokens_billed_total == a.prompt_tokens_billed_total
                    &&& b.completion_tokens_total == a.completion_tokens_total
                    &&& b.prompt_cache_hit_tokens_total == a.prompt_cache_hit_tokens_total
                    &&& b.prompt_cache_miss_tokens_total == a.prompt_cache_miss_tokens_total
                },
            }
        }),
{
}

/// A new loop starts from the conversation that it is given, with nothing
/// counted and nothing waiting, under the settings that it is given.
pub proof fn law_loops_start_fresh(
    config: AgentConfig,
    rules: LoadedRules,
    messages: Seq<MessageModel>,
)
    ensures
        ({
            let m = new_loop(config, rules, messages);
            &&& m.messages == messages
            &&& m.model == config.model@
            &&& m.max_tokens == config.max_tokens
            &&& m.max_turns == config.max_turns
            &&& m.gate.turn_limit == config.turn_tool_call_limit
            &&& m.gate.rate == config.tool_call_rate
            &&& m.gate.session_max == config.session_tool_call_max
            &&& m.gate.turn_count == 0 && m.gate.session_count == 0 && m.gate.recent.len() == 0
            &&& m.turns == 0 && m.calls.len() == 0 && m.parked.len() == 0
            &&& m.counters.turns == 0 && m.counters.tool_errors == 0
            &&& m.rules.len() == rules.workspace@.len() + rules.session@.len()
            &&& forall|i: int|
                0 <= i < rules.workspace@.len() ==> (#[trigger] m.rules[i]).1
                    == rules.workspace@[i]@
            &&& forall|i: int|
                0 <= i < rules.session@.len() ==> (#[trigger] m.rules[i
                    + rules.workspace@.len()]).1 == rules.session@[i]@
        }),
{
}

/// A turn asks the model with the whole conversation and all six tools, and
/// lets the calls of the turn be counted afresh; it changes nothing else. It
/// begins exactly as long as turns are left.
pub proof fn law_turns_ask_the_model(m: LoopModel)
    ensures
        ({
            let (n, effects, next) = turn_step(m);
            &&& effects.len() == 0
            &&& n.messages == m.messages && n.counters == m.counters && n.calls == m.calls
            &&& n.at == m.at && n.parked == m.parked
            &&& same_settings(m, n)
            &&& next is CallModel <==> m.turns < m.max_turns
            &&& next is Fail <==> m.turns >= m.max_turns
            &&& next is Fail ==> n == m
            &&& next matches NextModel::CallModel(request) ==> {
                &&& n.turns == m.turns + 1
                &&& n.gate.turn_count == 0
                &&& n.gate.turn_limit == m.gate.turn_limit && n.gate.rate == m.gate.rate
                &&& n.gate.session_max == m.gate.session_max
                &&& n.gate.recent == m.gate.recent && n.gate.session_count == m.gate.session_count
                &&& request.model == m.model
                &&& request.messages == m.messages
                &&& request.max_tokens == m.max_tokens
                &&& request.tools.len() == 6
                &&& request.tools[0].name == "list"@
                &&& request.tools[1].name == "read"@
                &&& request.tools[2].name == "search"@
                &&& request.tools[3].name == "patch"@
                &&& request.tools[4].name == "command"@
                &&& request.tools[5].name == "skill_load"@
            }
        }),
{
}

/// Behind the last call of a turn, another turn begins where no call waits for
/// approval; where some wait, they are saved, all of them, and the loop ends.
pub proof fn law_turns_end_behind_their_calls(m: LoopModel, ts: u64, now: Instant)
    requires
        m.at >= m.calls.len(),
    ensures
        call_step(m, ts, now).0 == m,
        m.parked.len() == 0 ==> call_step(m, ts, now).2 is Turn && call_step(m, ts, now).1.len()
            == 0,
        m.parked.len() > 0 ==> call_step(m, ts, now).2 == NextModel::Done(
            Driven::AwaitingApproval,
        ) && call_step(m, ts, now).1 == seq![EffectModel::SavePending(m.parked)],
{
}

/// Before the last call of a turn the loop takes up one call after the other,
/// and does not ask the model again.
pub proof fn law_calls_are_taken_up_in_order(m: LoopModel, ts: u64, now: Instant)
    requires
        m.at < m.calls.len(),
    ensures
        call_step(m, ts, now).0.at == m.at + 1,
        call_step(m, ts, now).0.calls == m.calls,
        call_step(m, ts, now).0.turns == m.turns,
        same_settings(m, call_step(m, ts, now).0),
        !(call_step(m, ts, now).2 is Turn),
        !(call_step(m, ts, now).2 is CallModel),
        call_step(m, ts, now).2 is Done ==> call_step(m, ts, now).2 == NextModel::Done(
            Driven::SessionToolCallExhausted,
        ),
{
}

/// No call is passed over as long as none waits for approval: it is run or
/// looked at under its own id, or answered, or made to wait, or it ends the
/// invocation because the cap on its calls has been reached.
pub proof fn law_no_call_is_passed_over(m: LoopModel, ts: u64, now: Instant)
    requires
        m.at < m.calls.len(),
        m.parked.len() == 0,
    ensures
        ({
            let c = m.calls[m.at as int];
            let (n, effects, next) = call_step(m, ts, now);
            match next {
                NextModel::ReadOnly { call_id, .. } => call_id == c.id && n.messages == m.messages
                    && n.parked == m.parked,
                NextModel::PreviewPatch { call, .. } => call == c && n.messages == m.messages
                    && n.parked == m.parked,
                NextModel::RunCommand { call_id, .. } => call_id == c.id && n.messages
                    == m.messages && n.parked == m.parked,
                NextModel::LoadSkill { call_id, .. } => call_id == c.id && n.messages
                    == m.messages && n.parked == m.parked,
                NextModel::Done(driven) => driven is SessionToolCallExhausted,
                NextModel::Call => {
                    ||| {
                        &&& n.messages.len() == m.messages.len() + 1
                        &&& n.messages.last() is Tool
                        &&& n.messages.last()->tool_call_id == c.id
                        &&& n.parked == m.parked
                    }
                    ||| {
                        &&& n.messages == m.messages
                        &&& n.parked.len() == 1
                        &&& n.parked[0].call_id == c.id
                        &&& n.parked[0].function_name == c.function_name
                        &&& n.parked[0].arguments_json == c.arguments_json
                        &&& n.parked[0].tool_kind is Command
                        &&& n.parked[0].ts == ts
                        &&& c.function_name == "command"@
                    }
                },
                _ => false,
            }
        }),
{
}

/// A call that the caps let through, in a turn in which none waits, is run by
/// the tool that it names: where its arguments can be read, and as they read.
pub proof fn law_calls_run_the_tool_they_name(m: LoopModel, ts: u64, now: Instant)
    requires
        m.at < m.calls.len(),
        m.parked.len() == 0,
        asked(m.gate, now).1 is Proceed,
    ensures
        ({
            let c = m.calls[m.at as int];
            let name = c.function_name;
            let (n, _, next) = call_step(m, ts, now);
            let reads = name == "list"@ || name == "read"@ || name == "search"@;
            &&& reads ==> match read_only_call(name, c.arguments_json) {
                Ok(tool) => next == NextModel::ReadOnly { call_id: c.id, tool },
                Err(_) => next is Call && n.messages.last() is Tool,
            }
            &&& name == "patch"@ ==> match patch_call(c.arguments_json) {
                Ok(edits) => next == NextModel::PreviewPatch { call: c, invocation: edits },
                Err(_) => next is Call && n.messages.last() is Tool,
            }
            &&& name == "command"@ ==> match command_call(c.arguments_json) {
                Ok(argv) => next is RunCommand ==> next == (NextModel::RunCommand {
                    call_id: c.id,
                    command: argv,
                }),
                Err(_) => next is Call && n.messages.last() is Tool,
            }
            &&& name == "skill_load"@ ==> match skill_call(c.arguments_json) {
                Ok(skill) => next == NextModel::LoadSkill { call_id: c.id, name: skill },
                Err(_) => next is Call && n.messages.last() is Tool,
            }
            &&& !reads && name != "patch"@ && name != "command"@ && name != "skill_load"@ ==> {
                &&& next is Call
                &&& n.messages.last() is Tool
                &&& up_by(m.counters.tool_errors, n.counters.tool_errors, 1)
            }
        }),
{
    lemma_tool_names();
}

proof fn lemma_tool_names()
    ensures
        "list"@ != "patch"@ && "list"@ != "command"@ && "list"@ != "skill_load"@,
        "read"@ != "patch"@ && "read"@ != "command"@ && "read"@ != "skill_load"@,
        "search"@ != "patch"@ && "search"@ != "command"@ && "search"@ != "skill_load"@,
        "patch"@ != "command"@ && "patch"@ != "skill_load"@ && "command"@ != "skill_load"@,
{
    reveal_strlit("list");
    reveal_strlit("read");
    reveal_strlit("search");
    reveal_strlit("patch");
    reveal_strlit("command");
    reveal_strlit("skill_load");
    assert("list"@.len() != "patch"@.len());
    assert("search"@[0] != "patch"@[0]);
    assert("read"@.len() != "patch"@.len());
    assert("patch"@.len() != "command"@.len());
    assert("skill_load"@.len() == 10);
}

/// A call that a cap turns away is answered with an error under its id, and
/// counts as one; the cap on the invocation ends the loop instead, and leaves
/// the call unanswered. Neither runs anything.
pub proof fn law_caps_turn_calls_away(m: LoopModel, ts: u64, now: Instant)
    requires
        m.at < m.calls.len(),
        !(asked(m.gate, now).1 is Proceed),
    ensures
        ({
            let c = m.calls[m.at as int];
            let s = call_step(m, ts, now);
            if asked(m.gate, now).1 is SessionExhausted {
                &&& s.2 == NextModel::Done(Driven::SessionToolCallExhausted)
                &&& s.0.messages == m.messages
                &&& s.0.counters.tool_errors == m.counters.tool_errors
            } else {
                &&& s.0.messages.len() == m.messages.len() + 1
                &&& s.0.messages.last() is Tool
                &&& answered_with(m, s, c.id, s.0.messages.last()->Tool_content, ts)
                &&& up_by(m.counters.tool_errors, s.0.counters.tool_errors, 1)
            }
        }),
{
}

/// What a rule lets through is run as it was asked for, and the decision is
/// recorded as an approval; what a rule denies is answered and never run; all
/// else waits, as it was asked for, and is neither run nor answered.
pub proof fn law_judgments_are_followed(
    m: LoopModel,
    c: CallModel,
    argv: Seq<Seq<char>>,
    judgment: JudgmentModel,
    ts: u64,
)
    requires
        m.parked.len() == 0,
    ensures
        ({
            let s = judged_step(m, c, argv, judgment, ts);
            match judgment {
                JudgmentModel::AutoApprove(d) => {
                    &&& s.2 == NextModel::RunCommand { call_id: c.id, command: argv }
                    &&& s.0 == m
                    &&& s.1.last() is Append
                    &&& s.1.last()->Append_0 is ToolApproval
                    &&& s.1.last()->Append_0->ToolApproval_call_id == c.id
                    &&& s.1.last()->Append_0->ToolApproval_decision is Approve
                    &&& s.1.last()->Append_0->auto_decided_by is Some
                    &&& s.1.last()->Append_0->auto_decided_by->0.argv_prefix == d.args_prefix
                },
                JudgmentModel::AutoDeny(d) => {
                    &&& s.0.messages.last() is Tool
                    &&& answered_with(m, s, c.id, s.0.messages.last()->Tool_content, ts)
                    &&& up_by(m.counters.tool_errors, s.0.counters.tool_errors, 1)
                    &&& s.1.len() == 3
                    &&& s.1[1] is Append
                    &&& s.1[1]->Append_0 is ToolApproval
                    &&& s.1[1]->Append_0->ToolApproval_call_id == c.id
                    &&& s.1[1]->Append_0->ToolApproval_decision is Reject
                    &&& s.1[1]->Append_0->auto_decided_by is Some
                    &&& s.1[1]->Append_0->auto_decided_by->0.argv_prefix == d.args_prefix
                },
                JudgmentModel::Pending => waits_as_asked(m, s, c, PendingToolKind::Command, ts),
            }
        }),
{
    let s = judged_step(m, c, argv, judgment, ts);
    if judgment is Pending {
        assert(s.0.parked.take(m.parked.len() as int) =~= m.parked);
    }
}

/// Whether a call has been made to wait, as it was asked for, behind those that
/// wait already, and nothing else has been done about it.
pub open spec fn waits_as_asked(
    m: LoopModel,
    s: Step,
    c: CallModel,
    kind: PendingToolKind,
    ts: u64,
) -> bool {
    &&& s.2 is Call
    &&& s.0.messages == m.messages
    &&& s.0.counters == m.counters
    &&& s.0.parked.len() == m.parked.len() + 1
    &&& s.0.parked.take(m.parked.len() as int) == m.parked
    &&& s.0.parked.last().call_id == c.id
    &&& s.0.parked.last().function_name == c.function_name
    &&& s.0.parked.last().arguments_json == c.arguments_json
    &&& s.0.parked.last().tool_kind == kind
    &&& s.0.parked.last().ts == ts
    &&& forall|i: int| 0 <= i < s.1.len() ==> (#[trigger] s.1[i]) is Note
}

/// A command that no rule decides on waits even where others wait already, and
/// so does a patch that somebody has to look at.
pub proof fn law_undecided_calls_wait(
    m: LoopModel,
    c: CallModel,
    argv: Seq<Seq<char>>,
    edits: Seq<EditModel>,
    p: PatchReplyModel,
    ts: u64,
)
    ensures
        waits_as_asked(
            m,
            judged_step(m, c, argv, JudgmentModel::Pending, ts),
            c,
            PendingToolKind::Command,
            ts,
        ),
        !p.auto_approve ==> waits_as_asked(
            m,
            patch_previewed_step(m, c, edits, Ok(p), ts),
            c,
            PendingToolKind::Patch,
            ts,
        ),
{
    let a = judged_step(m, c, argv, JudgmentModel::Pending, ts);
    assert(a.0.parked.take(m.parked.len() as int) =~= m.parked);
    let b = patch_previewed_step(m, c, edits, Ok(p), ts);
    if !p.auto_approve {
        assert(b.0.parked.take(m.parked.len() as int) =~= m.parked);
    }
}

/// A patch that nobody needs to look at is applied as it was asked for, to the
/// files as they were looked at; one that cannot be looked at is answered.
pub proof fn law_harmless_patches_are_applied(
    m: LoopModel,
    c: CallModel,
    edits: Seq<EditModel>,
    reply: Result<PatchReplyModel, PatchErrorModel>,
    ts: u64,
)
    requires
        m.parked.len() == 0,
    ensures
        ({
            let s = patch_previewed_step(m, c, edits, reply, ts);
            match reply {
                Ok(p) => p.auto_approve ==> s.0 == m && s.2 == (NextModel::ApplyPatch {
                    call_id: c.id,
                    edits,
                    hashes: p.hashes,
                }),
                Err(_) => {
                    &&& s.0.messages.last() is Tool
                    &&& answered_with(m, s, c.id, s.0.messages.last()->Tool_content, ts)
                    &&& up_by(m.counters.tool_errors, s.0.counters.tool_errors, 1)
                },
            }
        }),
{
}

/// What a tool brings is the answer to its call, as it came; a tool that fails
/// is answered too, and counts as an error.
pub proof fn law_results_answer_their_call(
    m: LoopModel,
    id: Seq<char>,
    tool: ReadOnlyModel,
    outcome: OutcomeModel,
    ran: Result<Seq<char>, CommandErrorModel>,
    name: Seq<char>,
    skill: SkillReplyModel,
    applied: Result<Seq<Seq<char>>, PatchErrorModel>,
    ts: u64,
)
    ensures
        ({
            let read = read_only_done_step(m, id, tool, outcome, ts);
            let command = command_done_step(m, id, ran, ts);
            let loaded = skill_done_step(m, id, name, skill, ts);
            let patch = patch_applied_step(m, id, applied, ts);
            &&& told(m, read, id, outcome is Failure, ts)
            &&& outcome matches OutcomeModel::Success(payload) ==> answered_with(
                m,
                read,
                id,
                payload,
                ts,
            )
            &&& told(m, command, id, ran is Err, ts)
            &&& ran matches Ok(content) ==> answered_with(m, command, id, content, ts)
            &&& told(m, loaded, id, !(skill is Body), ts)
            &&& skill matches SkillReplyModel::Body(body) ==> answered_with(
                m,
                loaded,
                id,
                body,
                ts,
            )
            &&& told(m, patch, id, applied is Err, ts)
        }),
{
}

/// Whether a call has been answered, and counted as an error or not.
pub open spec fn told(m: LoopModel, s: Step, id: Seq<char>, failed: bool, ts: u64) -> bool {
    &&& s.0.messages.last() is Tool
    &&& answered_with(m, s, id, s.0.messages.last()->Tool_content, ts)
    &&& up_by(
        m.counters.tool_errors,
        s.0.counters.tool_errors,
        if failed {
            1
        } else {
            0
        },
    )
    &&& s.0.at == m.at && s.0.turns == m.turns && s.0.gate == m.gate
}

/// What the user says ends the conversation and the records.
pub proof fn law_prompts_are_kept(
    m: LoopModel,
    text: Seq<char>,
    waiting: Seq<Seq<char>>,
    ts: u64,
)
    ensures
        prompt_step(m, text, waiting, ts).0.messages.last() == MessageModel::User(text),
        prompt_step(m, text, waiting, ts).1.last() == EffectModel::Append(
            RecordModel::User { ts, text },
        ),
        same_settings(m, prompt_step(m, text, waiting, ts).0),
        prompt_step(m, text, waiting, ts).0.gate == m.gate,
        prompt_step(m, text, waiting, ts).0.counters == m.counters,
{
}

/// A call that the user rejects is answered under its id, is recorded as
/// rejected by the user, and counts as an error.
pub proof fn law_rejected_calls_are_answered(m: LoopModel, id: Seq<char>, ts: u64)
    ensures
        ({
            let (n, effects) = reject_step(m, id, ts);
            &&& n.messages.len() == m.messages.len() + 1
            &&& n.messages.take(m.messages.len() as int) == m.messages
            &&& n.messages.last() is Tool
            &&& n.messages.last()->tool_call_id == id
            &&& up_by(m.counters.tool_errors, n.counters.tool_errors, 1)
            &&& effects.len() == 2
            &&& effects[0] == EffectModel::Append(
                RecordModel::ToolApproval {
                    ts,
                    call_id: id,
                    decision: ApprovalDecision::Reject,
                    auto_decided_by: None,
                },
            )
            &&& effects[1] == EffectModel::Append(
                RecordModel::Tool { ts, call_id: id, content: n.messages.last()->Tool_content },
            )
        }),
{
    assert(reject_step(m, id, ts).0.messages.take(m.messages.len() as int) =~= m.messages);
}

/// A call that the user approves is recorded as approved by the user, and is
/// run or looked at as it had been asked for.
pub proof fn law_approved_calls_go_on(m: LoopModel, p: PendingModel, ts: u64)
    ensures
        ({
            let (n, effects, next) = approve_step(m, p, ts);
            &&& effects.len() > 0
            &&& effects[0] == EffectModel::Append(
                RecordModel::ToolApproval {
                    ts,
                    call_id: p.call_id,
                    decision: ApprovalDecision::Approve,
                    auto_decided_by: None,
                },
            )
            &&& p.tool_kind is Command ==> n == m && match command_call(p.arguments_json) {
                Ok(argv) => next == (NextModel::RunCommand { call_id: p.call_id, command: argv }),
                Err(_) => next is Fail,
            }
            &&& p.tool_kind is Patch ==> match patch_call(p.arguments_json) {
                Ok(edits) => n == m && next is PreviewPatch && next->invocation == edits
                    && next->call.id == p.call_id && next->call.arguments_json
                    == p.arguments_json,
                Err(_) => n.messages.last() is Tool && answered_with(
                    m,
                    (n, effects, next),
                    p.call_id,
                    n.messages.last()->Tool_content,
                    ts,
                ),
            }
        }),
{
}

/// An approved patch that can still be looked at is applied as it was asked
/// for, to the files as they were looked at; how that went, and what an approved
/// command brought, is the answer to the call.
pub proof fn law_approved_calls_are_answered(
    m: LoopModel,
    id: Seq<char>,
    edits: Seq<EditModel>,
    looked: Result<Seq<PreviewHashModel>, PatchErrorModel>,
    ran: Result<Seq<char>, CommandErrorModel>,
    content: Seq<char>,
    ts: u64,
)
    ensures
        match looked {
            Ok(hashes) => approved_preview_step(m, id, edits, looked, ts) == (
                m,
                Seq::<EffectModel>::empty(),
                NextModel::ApplyPatch { call_id: id, edits, hashes },
            ),
            Err(_) => told(m, approved_preview_step(m, id, edits, looked, ts), id, false, ts),
        },
        answered_with(m, settled(m, Seq::empty(), id, content, ts), id, content, ts),
        ran matches Ok(printed) ==> approved_command_text(ran) == printed,
{
}

/// To take in a reply is to keep it at the end of the conversation, and to go on
/// to its calls exactly where it has any.
pub proof fn law_taking_in_a_reply(
    agent: &mut AgentLoop,
    result: CallResult,
    ts: u64,
    r: (Vec<Effect>, Next),
)
    requires
        call_ensures(AgentLoop::take_reply, (agent, result, ts), r),
    ensures
        result.tool_calls@.len() == 0 <==> r.1 is Done,
        result.tool_calls@.len() > 0 <==> r.1 is Call,
        r.1 is Done ==> r.1->Done_0 is Completed,
        final(agent)@.messages == old(agent)@.messages.push(
            MessageModel::Assistant {
                content: result.content@,
                reasoning_content: maybe(result.reasoning_content),
                tool_calls: deep(result.tool_calls@),
            },
        ),
        final(agent)@.calls == deep(result.tool_calls@),
        final(agent)@.at == 0,
        r.0@.len() >= 1,
        r.0@[0]@ == EffectModel::Append(
            RecordModel::Assistant {
                ts,
                content: result.content@,
                reasoning: maybe(result.reasoning_content),
                tool_calls: deep(result.tool_calls@),
            },
        ),
{
    law_replies_without_calls_end_the_loop(old(agent)@, result@, ts);
    law_replies_are_kept_as_they_came(old(agent)@, result@, ts);
    assert(deep(r.0@)[0] == r.0@[0]@);
}

/// To begin a turn is to ask the model with the whole conversation, as long as
/// turns are left.
pub proof fn law_beginning_a_turn(agent: &mut AgentLoop, r: (Vec<Effect>, Next))
    requires
        call_ensures(AgentLoop::begin_turn, (agent,), r),
    ensures
        r.1 is CallModel <==> old(agent)@.turns < old(agent)@.max_turns,
        r.1 is Fail <==> old(agent)@.turns >= old(agent)@.max_turns,
        r.1 matches Next::CallModel(request) ==> deep(request.messages@) == old(agent)@.messages
            && request.model@ == old(agent)@.model && request.max_tokens == old(agent)@.max_tokens
            && request.tools@.len() == 6 && final(agent)@.turns == old(agent)@.turns + 1,
        final(agent)@.messages == old(agent)@.messages,
        r.0@.len() == 0,
{
    law_turns_ask_the_model(old(agent)@);
    assert(deep(r.0@).len() == r.0@.len());
    if let Next::CallModel(request) = r.1 {
        assert(request@.tools.len() == request.tools@.len());
    }
}

/// To take up a call is to go on to the next one of the turn, in order, and to
/// do something about it; behind the last one the turn is over.
pub proof fn law_taking_up_a_call(
    agent: &mut AgentLoop,
    ts: u64,
    now: Instant,
    r: (Vec<Effect>, Next),
)
    requires
        call_ensures(AgentLoop::next_call, (agent, ts, now), r),
    ensures
        ({
            let m = old(agent)@;
            let n = final(agent)@;
            if m.at < m.calls.len() {
                let c = m.calls[m.at as int];
                &&& n.at == m.at + 1 && n.calls == m.calls
                &&& !(r.1 is Turn) && !(r.1 is CallModel)
                &&& r.1 matches Next::RunCommand { call_id, .. } ==> call_id@ == c.id
                    && c.function_name == "command"@
                &&& r.1 matches Next::ReadOnly { call_id, .. } ==> call_id@ == c.id
                &&& r.1 matches Next::LoadSkill { call_id, .. } ==> call_id@ == c.id
                &&& r.1 matches Next::PreviewPatch { call, .. } ==> call@ == c
                &&& m.parked.len() == 0 && r.1 is Call ==> n.messages.len() == m.messages.len() + 1
                    || n.parked.len() == 1
            } else {
                &&& n == m
                &&& m.parked.len() == 0 ==> r.1 is Turn
                &&& m.parked.len() > 0 ==> r.1 is Done && r.1->Done_0 is AwaitingApproval
            }
        }),
{
    let m = old(agent)@;
    lemma_tool_names();
    if m.at < m.calls.len() {
        law_calls_are_taken_up_in_order(m, ts, now);
        if m.parked.len() == 0 {
            law_no_call_is_passed_over(m, ts, now);
        }
    } else {
        law_turns_end_behind_their_calls(m, ts, now);
    }
}

/// What came of a call is its answer in the conversation, as it came.
pub proof fn law_taking_in_results(
    agent: &mut AgentLoop,
    call_id: &str,
    tool: &ReadOnlyTool,
    payload: String,
    name: &str,
    ts: u64,
    r: (Vec<Effect>, Next),
)
    ensures
        call_ensures(
            AgentLoop::read_only_done,
            (agent, call_id, tool, ToolOutcome::Success(payload), ts),
            r,
        ) || call_ensures(AgentLoop::command_done, (agent, call_id, Ok(payload), ts), r)
            || call_ensures(
            AgentLoop::skill_done,
            (agent, call_id, name, SkillReply::Body(payload), ts),
            r,
        ) || call_ensures(AgentLoop::approved_ran, (agent, call_id, Ok(payload), ts), r) ==> {
            &&& final(agent)@.messages == old(agent)@.messages.push(
                MessageModel::Tool { tool_call_id: call_id@, content: payload@ },
            )
            &&& final(agent)@.counters.tool_errors == old(agent)@.counters.tool_errors
            &&& r.1 is Call
        },
{
}

/// Whether a rule lets a command through, denies it or says nothing decides
/// whether it is run, answered or made to wait.
pub proof fn law_following_a_judgment(
    agent: &mut AgentLoop,
    call: &ToolCall,
    invocation: CommandInvocation,
    judgment: Judgment,
    ts: u64,
    r: (Vec<Effect>, Next),
)
    requires
        call_ensures(AgentLoop::decide_judged, (agent, call, invocation, judgment, ts), r),
        old(agent)@.parked.len() == 0,
    ensures
        r.1 is RunCommand <==> judgment is AutoApprove,
        r.1 matches Next::RunCommand { call_id, command } ==> call_id@ == call@.id && command@
            == invocation@,
        judgment is AutoDeny ==> final(agent)@.messages.len() == old(agent)@.messages.len() + 1,
        judgment is Pending <==> final(agent)@.parked.len() == 1,
        judgment is Pending ==> final(agent)@.messages == old(agent)@.messages,
{
    law_judgments_are_followed(old(agent)@, call@, invocation@, judgment@, ts);
}

/// A patch is applied at once only where nobody needs to look at it, and then
/// as it was asked for.
pub proof fn law_following_a_preview(
    agent: &mut AgentLoop,
    call: &ToolCall,
    invocation: PatchInvocation,
    reply: Result<PatchReply, PatchError>,
    ts: u64,
    r: (Vec<Effect>, Next),
)
    requires
        call_ensures(AgentLoop::patch_previewed, (agent, call, invocation, reply, ts), r),
        old(agent)@.parked.len() == 0,
    ensures
        r.1 is ApplyPatch <==> reply is Ok && reply->Ok_0.auto_approve,
        r.1 matches Next::ApplyPatch { call_id, edits, hashes } ==> call_id@ == call@.id && edits@
            == invocation@ && deep(hashes@) == deep(reply->Ok_0.hashes@),
        reply is Ok && !reply->Ok_0.auto_approve <==> final(agent)@.parked.len() == 1,
        reply is Err ==> final(agent)@.messages.len() == old(agent)@.messages.len() + 1,
{
}

/// What the user says, approves or rejects goes into the conversation and the
/// records.
pub proof fn law_taking_in_the_user(
    agent: &mut AgentLoop,
    text: String,
    waiting: &Vec<String>,
    pending: &Pending,
    ts: u64,
    told: Vec<Effect>,
    r: (Vec<Effect>, Next),
)
    ensures
        call_ensures(AgentLoop::prompt, (agent, text, waiting, ts), told) ==> {
            final(agent)@.messages.last() == MessageModel::User(text@)
        },
        call_ensures(AgentLoop::reject, (agent, pending, ts), told) ==> {
            &&& final(agent)@.messages.len() == old(agent)@.messages.len() + 1
            &&& final(agent)@.messages.last() is Tool
            &&& final(agent)@.messages.last()->tool_call_id == pending@.call_id
            &&& told@.len() == 2
        },
        call_ensures(AgentLoop::approve, (agent, pending, ts), r) ==> {
            &&& pending.tool_kind is Command ==> match command_call(pending.arguments_json@) {
                Ok(argv) => r.1 is RunCommand && r.1->command@ == argv
                    && r.1->RunCommand_call_id@ == pending.call_id@,
                Err(_) => r.1 is Fail,
            }
            &&& pending.tool_kind is Patch && patch_call(pending.arguments_json@) is Ok ==> r.1
                is PreviewPatch && r.1->invocation@ == patch_call(pending.arguments_json@)->Ok_0
        },
{
    assert(deep(told@).len() == told@.len());
}

/// An approved patch is applied to the files as they were looked at once more,
/// and the call is answered with how that went.
pub proof fn law_taking_in_an_approved_patch(
    agent: &mut AgentLoop,
    call_id: &str,
    edits: PatchInvocation,
    looked: Result<Vec<PreviewHash>, PatchError>,
    applied: Result<Vec<String>, PatchError>,
    ts: u64,
    r: (Vec<Effect>, Next),
)
    ensures
        call_ensures(AgentLoop::approved_previewed, (agent, call_id, edits, looked, ts), r) ==> {
            &&& r.1 is ApplyPatch <==> looked is Ok
            &&& r.1 is ApplyPatch ==> r.1->edits@ == edits@ && deep(r.1->hashes@) == deep(
                looked->Ok_0@,
            ) && r.1->ApplyPatch_call_id@ == call_id@
        },
        call_ensures(AgentLoop::approved_applied, (agent, call_id, applied, ts), r) ==> {
            &&& r.1 is Call
            &&& final(agent)@.messages.len() == old(agent)@.messages.len() + 1
            &&& final(agent)@.messages.last() is Tool
            &&& final(agent)@.messages.last()->tool_call_id == call_id@
        },
{
}

/// An invocation ends well only where the loop has completed; where calls wait
/// for approval, the exit code says so.
pub proof fn law_exit_codes(outcome: Option<Driven>, r: (InvocationEndReason, u8))
    requires
        call_ensures(ending, (outcome,), r),
    ensures
        r.1 == 0 <==> outcome == Some(Driven::Completed),
        r.1 == 10 <==> outcome == Some(Driven::AwaitingApproval),
        r.0 is Completed <==> outcome == Some(Driven::Completed),
        r.0 is AwaitingApproval <==> outcome == Some(Driven::AwaitingApproval),
        r.0 is Error <==> outcome is None,
{
}

/// An invocation is closed by two records: its counts, each under its name, and
/// why it ended.
pub proof fn law_invocations_are_closed(
    counters: &Counters,
    start: u64,
    end: u64,
    reason: InvocationEndReason,
    r: Vec<SessionRecord>,
)
    requires
        call_ensures(closing_records, (counters, start, end, reason), r),
    ensures
        r@.len() == 2,
        r@[1]@ == (RecordModel::InvocationEnd { ts: end, reason }),
        r@[0]@ is MetricsSnapshot,
        r@[0]@->MetricsSnapshot_ts == end,
        ({
            let e = r@[0]@->entries;
            &&& e.len() == 16
            &&& e[0] == ("turns"@, counters.turns)
            &&& e[1] == ("tool_calls.list"@, counters.tool_calls_by_kind.list)
            &&& e[2] == ("tool_calls.read"@, counters.tool_calls_by_kind.read)
            &&& e[3] == ("tool_calls.search"@, counters.tool_calls_by_kind.search)
            &&& e[4] == ("tool_calls.patch"@, counters.tool_calls_by_kind.patch)
            &&& e[5] == ("tool_calls.command"@, counters.tool_calls_by_kind.command)
            &&& e[6] == ("tool_calls.skill_load"@, counters.tool_calls_by_kind.skill_load)
            &&& e[7] == ("tool_calls.unknown"@, counters.tool_calls_by_kind.unknown)
            &&& e[8] == ("tool_errors"@, counters.tool_errors)
            &&& e[9].0 == "duration_ms"@
            &&& start <= end ==> e[9].1 == end - start
            &&& start > end ==> e[9].1 == 0
            &&& e[10] == ("prompt_tokens_billed_total"@, counters.prompt_tokens_billed_total)
            &&& e[11] == ("completion_tokens_total"@, counters.completion_tokens_total)
            &&& e[14] == ("compaction_attempts"@, counters.compaction_attempts)
            &&& e[15] == ("compaction_failures"@, counters.compaction_failures)
        }),
{
    assert(deep(r@).len() == r@.len());
    assert(deep(r@)[0] == r@[0]@);
    assert(deep(r@)[1] == r@[1]@);
}

} // verus!
