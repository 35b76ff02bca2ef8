//! What holds of the decisions on single calls, and of calls that go wrong.
use vstd::prelude::*;
use vstd::string::*;

use super::resume::cancel_effects;
use super::{
    build_tool_defs, classify, AgentLoop, Effect, EffectModel, Next, NextModel, SkillReply,
    ToolKind,
};
use crate::agent_cli::repair::{repaired, OrphanModel};

use crate::model::deep;
use crate::sansio::agent::errors::{CommandError, PatchError, ToolExecutionError, ToolOutcome};
use crate::sansio::agent::tools::{
    CommandInvocation, PatchInvocation, ReadOnlyTool, SkillLoadInvocation,
};
use crate::sansio::deepseek::{MessageModel, ToolCall, ToolDef};
use crate::session::{ApprovalDecision, Pending, RecordModel};
use crate::text::views;

verus! {

/// A name is that of one kind of tool, or of none.
pub proof fn law_names_tell_the_kind(name: &str, r: ToolKind)
    requires
        call_ensures(classify, (name,), r),
    ensures
        r is ReadOnly <==> name@ == "list"@ || name@ == "read"@ || name@ == "search"@,
        r is Patch <==> name@ == "patch"@,
        r is Command <==> name@ == "command"@,
        r is Skill <==> name@ == "skill_load"@,
{
    reveal_strlit("list");
    reveal_strlit("read");
    reveal_strlit("search");
    reveal_strlit("patch");
    reveal_strlit("command");
    reveal_strlit("skill_load");
    assert("list"@.len() == 4 && "read"@.len() == 4 && "search"@.len() == 6);
    assert("patch"@.len() == 5 && "command"@.len() == 7 && "skill_load"@.len() == 10);
}

/// The model is offered a tool under each name that is understood.
pub proof fn law_tools_are_offered(r: Vec<ToolDef>)
    requires
        call_ensures(build_tool_defs, (), r),
    ensures
        r@.len() == 6,
        r@[0]@.name == "list"@,
        r@[1]@.name == "read"@,
        r@[2]@.name == "search"@,
        r@[3]@.name == "patch"@,
        r@[4]@.name == "command"@,
        r@[5]@.name == "skill_load"@,
{
    assert(deep(r@).len() == r@.len());
    assert(forall|i: int| 0 <= i < r@.len() ==> deep(r@)[i] == (#[trigger] r@[i])@);
}

/// A call whose arguments could be read goes on with exactly what was read,
/// and nothing is said to the model yet; once a call waits for approval,
/// nothing that only reads is run.
pub proof fn law_deciding_a_read_only_call(
    agent: &mut AgentLoop,
    call: &ToolCall,
    tool: Result<ReadOnlyTool, ToolExecutionError>,
    ts: u64,
    r: (Vec<Effect>, Next),
)
    requires
        call_ensures(AgentLoop::decide_read_only, (agent, call, tool, ts), r),
    ensures
        old(agent)@.parked.len() > 0 ==> final(agent)@ == old(agent)@ && r.0@.len() == 0
            && r.1@ is Call,
        old(agent)@.parked.len() == 0 && tool is Ok ==> final(agent)@ == old(agent)@ && r.0@.len()
            == 0 && r.1@ == (NextModel::ReadOnly { call_id: call@.id, tool: tool->Ok_0@ }),
        old(agent)@.parked.len() == 0 && tool is Err ==> went_wrong(
            old(agent)@.messages,
            final(agent)@.messages,
            call@.id,
        ) && r.1@ is Call && recorded(deep(r.0@), final(agent)@.messages.last(), ts),
{
    assert(deep(r.0@).len() == r.0@.len());
    if old(agent)@.parked.len() == 0 && tool is Err {
        assert(deep(r.0@)[1] == deep(r.0@).last());
    }
}

/// Whether a call was answered with an error: one more message, which
/// answers that call and is an object with an error in it.
pub open spec fn went_wrong(
    before: Seq<MessageModel>,
    after: Seq<MessageModel>,
    id: Seq<char>,
) -> bool {
    &&& after.len() == before.len() + 1
    &&& after.drop_last() =~= before
    &&& after.last() is Tool
    &&& after.last()->tool_call_id == id
    &&& "{\"error\":"@.is_prefix_of(after.last()->Tool_content)
}

/// Whether an answer was recorded, as the last thing.
pub open spec fn recorded(effects: Seq<EffectModel>, answer: MessageModel, ts: u64) -> bool {
    &&& effects.len() > 0
    &&& effects.last() == EffectModel::Append(
        RecordModel::Tool { ts, call_id: answer->tool_call_id, content: answer->Tool_content },
    )
}

/// A patch whose arguments could be read is looked at before anything is
/// done, even once a call waits for approval.
pub proof fn law_deciding_a_patch(
    agent: &mut AgentLoop,
    call: &ToolCall,
    edits: Result<PatchInvocation, ToolExecutionError>,
    ts: u64,
    r: (Vec<Effect>, Next),
)
    requires
        call_ensures(AgentLoop::decide_patch, (agent, call, edits, ts), r),
    ensures
        edits is Ok ==> final(agent)@ == old(agent)@ && r.0@.len() == 0 && r.1@ == (
        NextModel::PreviewPatch { call: call@, invocation: edits->Ok_0@ }),
        edits is Err && old(agent)@.parked.len() > 0 ==> final(agent)@ == old(agent)@ && r.1@ is Call,
        edits is Err && old(agent)@.parked.len() == 0 ==> went_wrong(
            old(agent)@.messages,
            final(agent)@.messages,
            call@.id,
        ) && r.1@ is Call && recorded(deep(r.0@), final(agent)@.messages.last(), ts),
{
    assert(deep(r.0@).len() == r.0@.len());
}

/// A skill is loaded under the name that was read; once a call waits for
/// approval, none is.
pub proof fn law_deciding_a_skill(
    agent: &mut AgentLoop,
    call: &ToolCall,
    skill: Result<SkillLoadInvocation, ToolExecutionError>,
    ts: u64,
    r: (Vec<Effect>, Next),
)
    requires
        call_ensures(AgentLoop::decide_skill, (agent, call, skill, ts), r),
    ensures
        old(agent)@.parked.len() > 0 ==> final(agent)@ == old(agent)@ && r.0@.len() == 0
            && r.1@ is Call,
        old(agent)@.parked.len() == 0 && skill is Ok ==> final(agent)@ == old(agent)@ && r.1@ == (
        NextModel::LoadSkill { call_id: call@.id, name: skill->Ok_0.name@ }),
        old(agent)@.parked.len() == 0 && skill is Err ==> went_wrong(
            old(agent)@.messages,
            final(agent)@.messages,
            call@.id,
        ) && r.1@ is Call && recorded(deep(r.0@), final(agent)@.messages.last(), ts),
{
    assert(deep(r.0@).len() == r.0@.len());
}

/// A command whose arguments could not be read is answered with an error; any
/// other is run only as it was read, and never once a call waits for
/// approval.
pub proof fn law_deciding_a_command(
    agent: &mut AgentLoop,
    call: &ToolCall,
    command: Result<CommandInvocation, ToolExecutionError>,
    ts: u64,
    r: (Vec<Effect>, Next),
)
    requires
        call_ensures(AgentLoop::decide_command, (agent, call, command, ts), r),
    ensures
        old(agent)@.parked.len() > 0 ==> r.1@ is Call && final(agent)@.messages
            == old(agent)@.messages,
        r.1@ is RunCommand ==> command is Ok && r.1@ == (NextModel::RunCommand {
            call_id: call@.id,
            command: command->Ok_0@,
        }) && final(agent)@ == old(agent)@,
        r.1@ is RunCommand || r.1@ is Call,
        command is Err && old(agent)@.parked.len() == 0 ==> went_wrong(
            old(agent)@.messages,
            final(agent)@.messages,
            call@.id,
        ) && recorded(deep(r.0@), final(agent)@.messages.last(), ts),
        command is Ok && old(agent)@.rules.len() == 0 ==> final(agent)@.parked.len()
            == old(agent)@.parked.len() + 1 && final(agent)@.parked.last().call_id == call@.id
            && final(agent)@.parked.last().arguments_json == call@.arguments_json,
{
    assert(deep(r.0@).len() == r.0@.len());
    if command is Ok && old(agent)@.rules.len() == 0 {
        assert(crate::sansio::permissions::judged(
            old(agent)@.rules,
            crate::sansio::permissions::PermissionKind::Command,
            crate::sansio::permissions::Target::Argv(command->Ok_0@),
        ) is Pending);
    }
}

/// A patch that was applied is answered with the files that it changed; one
/// that could not be applied is answered with an error, which is counted.
pub proof fn law_applied_patches_are_answered(
    agent: &mut AgentLoop,
    call_id: &str,
    reply: Result<Vec<String>, PatchError>,
    ts: u64,
    r: (Vec<Effect>, Next),
)
    requires
        call_ensures(AgentLoop::patch_applied, (agent, call_id, reply, ts), r),
    ensures
        r.1@ is Call,
        recorded(deep(r.0@), final(agent)@.messages.last(), ts),
        reply is Ok ==> final(agent)@.messages == old(agent)@.messages.push(
            MessageModel::Tool {
                tool_call_id: call_id@,
                content: "{\"ok\":true,\"applied\":"@ + crate::json::string_array_text(
                    views(reply->Ok_0@),
                ) + "}"@,
            },
        ) && final(agent)@.counters == old(agent)@.counters,
        reply is Err ==> went_wrong(old(agent)@.messages, final(agent)@.messages, call_id@),
        reply is Err && old(agent)@.counters.tool_errors < u64::MAX
            ==> final(agent)@.counters.tool_errors == old(agent)@.counters.tool_errors + 1,
{
    assert(deep(r.0@).len() == r.0@.len());
}

/// A tool that failed, a command that could not be started and a skill that
/// was not found are answered with an error, which is recorded and counted.
pub proof fn law_failures_are_answered(
    agent: &mut AgentLoop,
    call_id: &str,
    tool: &ReadOnlyTool,
    failure: ToolExecutionError,
    unstarted: CommandError,
    name: &str,
    ts: u64,
    r: (Vec<Effect>, Next),
)
    ensures
        call_ensures(
            AgentLoop::read_only_done,
            (agent, call_id, tool, ToolOutcome::Failure(failure), ts),
            r,
        ) || call_ensures(AgentLoop::command_done, (agent, call_id, Err(unstarted), ts), r)
            || call_ensures(
            AgentLoop::skill_done,
            (agent, call_id, name, SkillReply::NotFound, ts),
            r,
        ) ==> {
            &&& went_wrong(old(agent)@.messages, final(agent)@.messages, call_id@)
            &&& recorded(deep(r.0@), final(agent)@.messages.last(), ts)
            &&& r.1@ is Call
            &&& old(agent)@.counters.tool_errors < u64::MAX ==> final(agent)@.counters.tool_errors
                == old(agent)@.counters.tool_errors + 1
        },
{
    assert(deep(r.0@).len() == r.0@.len());
}

/// A patch that the user approved is looked at once more as it was read, and
/// a command that the user approved is run as it was read; that the user
/// approved is recorded first.
pub proof fn law_approving_what_was_read(
    agent: &mut AgentLoop,
    pending: &Pending,
    edits: PatchInvocation,
    command: CommandInvocation,
    ts: u64,
    r: (Vec<Effect>, Next),
)
    ensures
        call_ensures(AgentLoop::approve_patch, (agent, pending, Ok(edits), ts), r) ==> {
            &&& final(agent)@ == old(agent)@
            &&& r.1@ is PreviewPatch
            &&& r.1@->PreviewPatch_invocation == edits@
            &&& r.1@->PreviewPatch_call.id == pending@.call_id
            &&& approval_recorded(deep(r.0@), pending@.call_id, ts)
        },
        call_ensures(AgentLoop::approve_command, (agent, pending, Ok(command), ts), r) ==> {
            &&& final(agent)@ == old(agent)@
            &&& r.1@ == (NextModel::RunCommand { call_id: pending@.call_id, command: command@ })
            &&& approval_recorded(deep(r.0@), pending@.call_id, ts)
        },
{
    assert(deep(r.0@).len() == r.0@.len());
}

/// Whether the first thing that is recorded is that the user approved the
/// call.
pub open spec fn approval_recorded(effects: Seq<EffectModel>, id: Seq<char>, ts: u64) -> bool {
    &&& effects.len() > 0
    &&& effects[0] == EffectModel::Append(
        RecordModel::ToolApproval {
            ts,
            call_id: id,
            decision: ApprovalDecision::Approve,
            auto_decided_by: None,
        },
    )
}

proof fn lemma_cancelled(
    orphans: Seq<OrphanModel>,
    n: int,
    waiting: Seq<Seq<char>>,
    ts: u64,
    i: int,
)
    requires
        0 <= i < n <= orphans.len(),
    ensures
        cancel_effects(orphans, n, waiting, ts).contains(
            EffectModel::Append(
                RecordModel::Tool {
                    ts,
                    call_id: orphans[i].call_id,
                    content: orphans[i].content,
                },
            ),
        ),
    decreases n,
{
    let before = cancel_effects(orphans, n - 1, waiting, ts);
    let all = cancel_effects(orphans, n, waiting, ts);
    let want = EffectModel::Append(
        RecordModel::Tool { ts, call_id: orphans[i].call_id, content: orphans[i].content },
    );
    if i < n - 1 {
        lemma_cancelled(orphans, n - 1, waiting, ts, i);
        let k = choose|k: int| 0 <= k < before.len() && before[k] == want;
        assert(all[k] == want);
    } else {
        assert(all[all.len() - 2] == want);
    }
}

/// Putting a conversation in order changes nothing but the conversation, and
/// records the answer to each call that is cancelled.
pub proof fn law_cancelled_calls_are_recorded(
    agent: &mut AgentLoop,
    waiting: &Vec<String>,
    ts: u64,
    r: Vec<Effect>,
    i: int,
)
    requires
        call_ensures(AgentLoop::repair, (agent, waiting, ts), r),
    ensures
        final(agent)@.messages == repaired(old(agent)@.messages).out,
        final(agent)@.counters == old(agent)@.counters,
        final(agent)@.calls == old(agent)@.calls,
        final(agent)@.parked == old(agent)@.parked,
        final(agent)@.turns == old(agent)@.turns,
        repaired(old(agent)@.messages).orphans.len() == 0 ==> r@.len() == 0,
        0 <= i < repaired(old(agent)@.messages).orphans.len() ==> deep(r@).contains(
            EffectModel::Append(
                RecordModel::Tool {
                    ts,
                    call_id: repaired(old(agent)@.messages).orphans[i].call_id,
                    content: repaired(old(agent)@.messages).orphans[i].content,
                },
            ),
        ),
{
    let orphans = repaired(old(agent)@.messages).orphans;
    let n = orphans.len() as int;
    assert(deep(r@).len() == r@.len());
    if 0 <= i < n {
        lemma_cancelled(orphans, n, views(waiting@), ts, i);
        let all = cancel_effects(orphans, n, views(waiting@), ts);
        let want = EffectModel::Append(
            RecordModel::Tool { ts, call_id: orphans[i].call_id, content: orphans[i].content },
        );
        let k = choose|k: int| 0 <= k < all.len() && all[k] == want;
        assert(deep(r@)[k] == want);
    }
}

} // verus!
