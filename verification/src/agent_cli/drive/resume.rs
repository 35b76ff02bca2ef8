//! How an invocation starts: with a prompt, or with the calls that wait for
//! approval.
use vstd::prelude::*;
use vstd::string::*;

use super::{
    answer_record, answered, command_failure_text, note, refused, AgentLoop, Driven, Effect,
    EffectModel, LoopModel, Next, NextModel, Step,
};
use crate::agent_cli::counters::{metrics_entries, Counters};
use crate::agent_cli::repair::{repair_messages, repaired, OrphanModel, OrphanedToolCall};
use crate::agent_cli::wording::{
    patch_result_json, patch_result_text, tool_error_json, tool_error_text,
};
use crate::agent_cli::{EXIT_AWAITING_APPROVAL, EXIT_ERROR, EXIT_OK};
use crate::model::deep;
use crate::sansio::agent::debug::{
    debug_patch_error, debug_tool_error, patch_error_debug, tool_error_debug,
};
use crate::sansio::agent::errors::{
    CommandError, CommandErrorModel, PatchError, PatchErrorModel, ToolErrorModel,
    ToolExecutionError,
};
use crate::sansio::agent::tools::{
    command_call, patch_call, CommandInvocation, EditModel, PatchInvocation,
};
use crate::sansio::agent::types::{PreviewHash, PreviewHashModel};
use crate::sansio::deepseek::{CallModel, ChatMessage, MessageModel, ToolCall};
use crate::session::{
    ApprovalDecision, AutoDecidedBy, AutoDecidedModel, InvocationEndReason, Pending, PendingModel,
    PendingToolKind, RecordModel, SessionRecord,
};
use crate::text::{cat, cat3, decimal, decimal_of, list_contains, views};

verus! {

broadcast use crate::model::group_deep;

/// What the model is told of a call that the user rejects.
pub const REJECTED: &'static str =
    "{\"error\":\"rejected\",\"message\":\"user rejected this tool call\"}";

/// The record of what the user decided.
pub open spec fn user_record(ts: u64, id: Seq<char>, decision: ApprovalDecision) -> EffectModel {
    EffectModel::Append(
        RecordModel::ToolApproval { ts, call_id: id, decision, auto_decided_by: None },
    )
}

/// The record of a call that is cancelled because it was never answered.
pub open spec fn cancel_record(ts: u64, id: Seq<char>) -> EffectModel {
    EffectModel::Append(
        RecordModel::ToolApproval {
            ts,
            call_id: id,
            decision: ApprovalDecision::Reject,
            auto_decided_by: Some(
                AutoDecidedModel {
                    scope: "repair"@,
                    argv_prefix: Seq::empty(),
                    reason: "unanswered_tool_call_repair"@,
                },
            ),
        },
    )
}

/// Whether a cancelled call is the first of those that wait for approval,
/// which are then forgotten.
pub open spec fn forgets(orphans: Seq<OrphanModel>, waiting: Seq<Seq<char>>, i: int) -> bool {
    &&& waiting.contains(orphans[i].call_id)
    &&& forall|j: int| 0 <= j < i ==> !waiting.contains((#[trigger] orphans[j]).call_id)
}

/// What is recorded and shown of the calls that are cancelled.
pub open spec fn cancel_effects(
    orphans: Seq<OrphanModel>,
    n: int,
    waiting: Seq<Seq<char>>,
    ts: u64,
) -> Seq<EffectModel>
    decreases n,
{
    if n <= 0 {
        Seq::empty()
    } else {
        let o = orphans[n - 1];
        cancel_effects(orphans, n - 1, waiting, ts) + (if forgets(orphans, waiting, n - 1) {
            seq![EffectModel::ClearPending]
        } else {
            Seq::empty()
        }) + seq![
            cancel_record(ts, o.call_id),
            answer_record(ts, o.call_id, o.content),
            EffectModel::Note(
                "[repair] cancelled unanswered tool_call "@ + o.call_id + " (left unapproved)"@,
            ),
        ]
    }
}

/// The conversation is put in order.
pub open spec fn repair_step(m: LoopModel, waiting: Seq<Seq<char>>, ts: u64) -> (
    LoopModel,
    Seq<EffectModel>,
) {
    let r = repaired(m.messages);
    (
        LoopModel { messages: r.out, ..m },
        cancel_effects(r.orphans, r.orphans.len() as int, waiting, ts) + (if r.orphans.len() > 0 {
            seq![
                EffectModel::Note(
                    "[repair] inserted "@ + decimal(r.orphans.len())
                        + " synthetic tool result(s) for unanswered tool_call(s)"@,
                ),
            ]
        } else {
            Seq::empty()
        }),
    )
}

/// The user has said something. The conversation is put in order first, so
/// that no answer comes behind it.
pub open spec fn prompt_step(m: LoopModel, text: Seq<char>, waiting: Seq<Seq<char>>, ts: u64) -> (
    LoopModel,
    Seq<EffectModel>,
) {
    let (n, effects) = repair_step(m, waiting, ts);
    (
        LoopModel { messages: n.messages.push(MessageModel::User(text)), ..n },
        effects.push(EffectModel::Append(RecordModel::User { ts, text })),
    )
}

/// The user has rejected a call that waited.
pub open spec fn reject_step(m: LoopModel, id: Seq<char>, ts: u64) -> (
    LoopModel,
    Seq<EffectModel>,
) {
    (
        refused(m, id, REJECTED@),
        seq![user_record(ts, id, ApprovalDecision::Reject), answer_record(ts, id, REJECTED@)],
    )
}

/// The call that waits.
pub open spec fn waiting_call(p: PendingModel) -> CallModel {
    CallModel {
        id: p.call_id,
        function_name: p.function_name,
        arguments_json: p.arguments_json,
    }
}

/// A waiting call gets its answer.
pub open spec fn settled(
    m: LoopModel,
    before: Seq<EffectModel>,
    id: Seq<char>,
    content: Seq<char>,
    ts: u64,
) -> Step {
    (answered(m, id, content), before.push(answer_record(ts, id, content)), NextModel::Call)
}

/// The user has approved a patch that waited, and its arguments have been
/// read.
pub open spec fn approved_patch_step(
    m: LoopModel,
    p: PendingModel,
    edits: Result<Seq<EditModel>, ToolErrorModel>,
    ts: u64,
) -> Step {
    let approval = seq![user_record(ts, p.call_id, ApprovalDecision::Approve)];
    match edits {
        Ok(edits) => (
            m,
            approval,
            NextModel::PreviewPatch { call: waiting_call(p), invocation: edits },
        ),
        Err(e) => settled(
            m,
            approval,
            p.call_id,
            tool_error_text("patch_args"@, tool_error_debug(e)),
            ts,
        ),
    }
}

/// The user has approved a command that waited, and its arguments have been
/// read.
pub open spec fn approved_command_step(
    m: LoopModel,
    p: PendingModel,
    argv: Result<Seq<Seq<char>>, ToolErrorModel>,
    ts: u64,
) -> Step {
    let approval = seq![user_record(ts, p.call_id, ApprovalDecision::Approve)];
    match argv {
        Ok(argv) => (m, approval, NextModel::RunCommand { call_id: p.call_id, command: argv }),
        Err(e) => (m, approval, NextModel::Fail("command args: "@ + tool_error_debug(e))),
    }
}

/// The user has approved a call that waited.
pub open spec fn approve_step(m: LoopModel, p: PendingModel, ts: u64) -> Step {
    match p.tool_kind {
        PendingToolKind::Patch => approved_patch_step(m, p, patch_call(p.arguments_json), ts),
        PendingToolKind::Command => approved_command_step(
            m,
            p,
            command_call(p.arguments_json),
            ts,
        ),
    }
}

/// An approved patch has been looked at once more.
pub open spec fn approved_preview_step(
    m: LoopModel,
    id: Seq<char>,
    edits: Seq<EditModel>,
    reply: Result<Seq<PreviewHashModel>, PatchErrorModel>,
    ts: u64,
) -> Step {
    match reply {
        Ok(hashes) => (m, Seq::empty(), NextModel::ApplyPatch { call_id: id, edits, hashes }),
        Err(e) => settled(
            m,
            Seq::empty(),
            id,
            tool_error_text("patch_preview"@, patch_error_debug(e)),
            ts,
        ),
    }
}

/// What the model is told of an approved patch.
pub open spec fn approved_patch_text(reply: Result<Seq<Seq<char>>, PatchErrorModel>) -> Seq<char> {
    match reply {
        Ok(paths) => patch_result_text(paths),
        Err(e) => tool_error_text("patch_apply"@, patch_error_debug(e)),
    }
}

/// What the model is told of an approved command.
pub open spec fn approved_command_text(reply: Result<Seq<char>, CommandErrorModel>) -> Seq<char> {
    match reply {
        Ok(content) => content,
        Err(e) => command_failure_text(e),
    }
}

fn record_decision(out: &mut Vec<Effect>, call_id: &str, decision: ApprovalDecision, ts: u64)
    ensures
        deep(final(out)@) == deep(old(out)@).push(user_record(ts, call_id@, decision)),
{
    out.push(
        Effect::Append(
            SessionRecord::ToolApproval {
                ts,
                call_id: call_id.to_owned(),
                decision,
                auto_decided_by: None,
            },
        ),
    );
}

fn record_cancel(out: &mut Vec<Effect>, o: &OrphanedToolCall, ts: u64)
    ensures
        deep(final(out)@) == deep(old(out)@) + seq![
            cancel_record(ts, o.call_id@),
            answer_record(ts, o.call_id@, o.content@),
            EffectModel::Note(
                "[repair] cancelled unanswered tool_call "@ + o.call_id@ + " (left unapproved)"@,
            ),
        ],
{
    let ghost before = deep(out@);
    let none: Vec<String> = Vec::new();
    assert(views(none@) =~= Seq::empty());
    out.push(
        Effect::Append(
            SessionRecord::ToolApproval {
                ts,
                call_id: o.call_id.clone(),
                decision: ApprovalDecision::Reject,
                auto_decided_by: Some(
                    AutoDecidedBy {
                        scope: "repair".to_owned(),
                        argv_prefix: none,
                        reason: "unanswered_tool_call_repair".to_owned(),
                    },
                ),
            },
        ),
    );
    out.push(
        Effect::Append(
            SessionRecord::Tool { ts, call_id: o.call_id.clone(), content: o.content.clone() },
        ),
    );
    note(
        out,
        cat3(
            "[repair] cancelled unanswered tool_call ",
            o.call_id.as_str(),
            " (left unapproved)",
        ),
    );
    assert(deep(out@) =~= before + seq![
        cancel_record(ts, o.call_id@),
        answer_record(ts, o.call_id@, o.content@),
        EffectModel::Note(
            "[repair] cancelled unanswered tool_call "@ + o.call_id@ + " (left unapproved)"@,
        ),
    ]);
}

impl AgentLoop {
    /// Puts the conversation in order. `waiting` are the ids of the calls
    /// that wait for approval: once one of them is cancelled, all of them are
    /// forgotten.
    pub fn repair(&mut self, waiting: &Vec<String>, ts: u64) -> (r: Vec<Effect>)
        ensures
            (final(self)@, deep(r@)) == repair_step(old(self)@, views(waiting@), ts),
    {
        let ghost m = self@;
        let (messages, orphans) = repair_messages(&self.messages);
        let ghost all = deep(orphans@);
        let ghost ids = views(waiting@);
        let mut out: Vec<Effect> = Vec::new();
        let mut forgotten = false;
        let mut i: usize = 0;
        while i < orphans.len()
            invariant
                i <= orphans@.len(),
                all == deep(orphans@),
                ids == views(waiting@),
                deep(out@) == cancel_effects(all, i as int, ids, ts),
                forgotten == exists|j: int| 0 <= j < i && ids.contains((#[trigger] all[j]).call_id),
            decreases orphans@.len() - i,
        {
            let ghost before = deep(out@);
            assert(all[i as int] == orphans@[i as int]@);
            let hit = list_contains(waiting, orphans[i].call_id.as_str());
            let forget = !forgotten && hit;
            assert(forget == forgets(all, ids, i as int));
            if forget {
                out.push(Effect::ClearPending);
                assert(deep(out@) =~= before + seq![EffectModel::ClearPending]);
            } else {
                assert(deep(out@) =~= before + Seq::<EffectModel>::empty());
            }
            record_cancel(&mut out, &orphans[i], ts);
            if hit {
                forgotten = true;
            }
            i = i + 1;
        }
        if orphans.len() > 0 {
            let ghost before = deep(out@);
            let line = cat3(
                "[repair] inserted ",
                decimal_of(orphans.len() as u64).as_str(),
                " synthetic tool result(s) for unanswered tool_call(s)",
            );
            note(&mut out, line);
            assert(deep(out@) =~= before + seq![EffectModel::Note(line@)]);
        } else {
            assert(deep(out@) =~= deep(out@) + Seq::<EffectModel>::empty());
        }
        self.messages = messages;
        out
    }

    /// Takes in what the user has said.
    pub fn prompt(&mut self, text: String, waiting: &Vec<String>, ts: u64) -> (r: Vec<Effect>)
        ensures
            (final(self)@, deep(r@)) == prompt_step(old(self)@, text@, views(waiting@), ts),
    {
        let mut out = self.repair(waiting, ts);
        out.push(Effect::Append(SessionRecord::User { ts, text: text.clone() }));
        self.messages.push(ChatMessage::User(text));
        out
    }

    /// Rejects a call that waited.
    pub fn reject(&mut self, pending: &Pending, ts: u64) -> (r: Vec<Effect>)
        ensures
            (final(self)@, deep(r@)) == reject_step(old(self)@, pending@.call_id, ts),
    {
        let mut out: Vec<Effect> = Vec::new();
        let id = pending.call_id.as_str();
        record_decision(&mut out, id, ApprovalDecision::Reject, ts);
        self.append_tool(&mut out, id, REJECTED.to_owned(), ts);
        self.counters.count_error();
        assert(deep(out@) =~= reject_step(old(self)@, pending@.call_id, ts).1);
        out
    }

    /// Approves a patch that waited, once its arguments have been read.
    pub fn approve_patch(
        &mut self,
        pending: &Pending,
        edits: Result<PatchInvocation, ToolExecutionError>,
        ts: u64,
    ) -> (r: (Vec<Effect>, Next))
        ensures
            (final(self)@, deep(r.0@), r.1@) == approved_patch_step(
                old(self)@,
                pending@,
                match edits {
                    Ok(t) => Ok(t@),
                    Err(e) => Err(e@),
                },
                ts,
            ),
    {
        let mut out: Vec<Effect> = Vec::new();
        let id = pending.call_id.as_str();
        record_decision(&mut out, id, ApprovalDecision::Approve, ts);
        assert(deep(out@) =~= seq![user_record(ts, pending@.call_id, ApprovalDecision::Approve)]);
        match edits {
            Ok(invocation) => (
                out,
                Next::PreviewPatch {
                    call: ToolCall {
                        id: pending.call_id.clone(),
                        function_name: pending.function_name.clone(),
                        arguments_json: pending.arguments_json.clone(),
                    },
                    invocation,
                },
            ),
            Err(e) => {
                let content = tool_error_json("patch_args", debug_tool_error(&e).as_str());
                self.append_tool(&mut out, id, content, ts);
                (out, Next::Call)
            },
        }
    }

    /// Approves a command that waited, once its arguments have been read.
    pub fn approve_command(
        &mut self,
        pending: &Pending,
        command: Result<CommandInvocation, ToolExecutionError>,
        ts: u64,
    ) -> (r: (Vec<Effect>, Next))
        ensures
            (final(self)@, deep(r.0@), r.1@) == approved_command_step(
                old(self)@,
                pending@,
                match command {
                    Ok(t) => Ok(t@),
                    Err(e) => Err(e@),
                },
                ts,
            ),
    {
        let mut out: Vec<Effect> = Vec::new();
        record_decision(&mut out, pending.call_id.as_str(), ApprovalDecision::Approve, ts);
        assert(deep(out@) =~= seq![user_record(ts, pending@.call_id, ApprovalDecision::Approve)]);
        match command {
            Ok(command) => (out, Next::RunCommand { call_id: pending.call_id.clone(), command }),
            Err(e) => (
                out,
                Next::Fail(cat("command args: ", debug_tool_error(&e).as_str())),
            ),
        }
    }

    /// Approves a call that waited.
    pub fn approve(&mut self, pending: &Pending, ts: u64) -> (r: (Vec<Effect>, Next))
        ensures
            (final(self)@, deep(r.0@), r.1@) == approve_step(old(self)@, pending@, ts),
    {
        match pending.tool_kind {
            PendingToolKind::Patch => {
                let edits = PatchInvocation::parse(pending.arguments_json.as_str());
                self.approve_patch(pending, edits, ts)
            },
            PendingToolKind::Command => {
                let command = CommandInvocation::parse(pending.arguments_json.as_str());
                self.approve_command(pending, command, ts)
            },
        }
    }

    /// Takes in the second look at an approved patch.
    pub fn approved_previewed(
        &mut self,
        call_id: &str,
        edits: PatchInvocation,
        reply: Result<Vec<PreviewHash>, PatchError>,
        ts: u64,
    ) -> (r: (Vec<Effect>, Next))
        ensures
            (final(self)@, deep(r.0@), r.1@) == approved_preview_step(
                old(self)@,
                call_id@,
                edits@,
                match reply {
                    Ok(h) => Ok(deep(h@)),
                    Err(e) => Err(e@),
                },
                ts,
            ),
    {
        let mut out: Vec<Effect> = Vec::new();
        match reply {
            Ok(hashes) => (
                out,
                Next::ApplyPatch { call_id: call_id.to_owned(), edits, hashes },
            ),
            Err(e) => {
                let content = tool_error_json("patch_preview", debug_patch_error(&e).as_str());
                self.append_tool(&mut out, call_id, content, ts);
                (out, Next::Call)
            },
        }
    }

    /// Takes in how it went to apply an approved patch.
    pub fn approved_applied(
        &mut self,
        call_id: &str,
        reply: Result<Vec<String>, PatchError>,
        ts: u64,
    ) -> (r: (Vec<Effect>, Next))
        ensures
            (final(self)@, deep(r.0@), r.1@) == settled(
                old(self)@,
                Seq::empty(),
                call_id@,
                approved_patch_text(
                    match reply {
                        Ok(p) => Ok(views(p@)),
                        Err(e) => Err(e@),
                    },
                ),
                ts,
            ),
    {
        let mut out: Vec<Effect> = Vec::new();
        let content = match reply {
            Ok(paths) => patch_result_json(&paths),
            Err(e) => tool_error_json("patch_apply", debug_patch_error(&e).as_str()),
        };
        self.append_tool(&mut out, call_id, content, ts);
        (out, Next::Call)
    }

    /// Takes in what an approved command has printed, or why it could not be
    /// started.
    pub fn approved_ran(
        &mut self,
        call_id: &str,
        reply: Result<String, CommandError>,
        ts: u64,
    ) -> (r: (Vec<Effect>, Next))
        ensures
            (final(self)@, deep(r.0@), r.1@) == settled(
                old(self)@,
                Seq::empty(),
                call_id@,
                approved_command_text(
                    match reply {
                        Ok(s) => Ok(s@),
                        Err(e) => Err(e@),
                    },
                ),
                ts,
            ),
    {
        let mut out: Vec<Effect> = Vec::new();
        let content = match reply {
            Ok(content) => content,
            Err(e) => {
                let (code, message) = e.to_code_and_message();
                tool_error_json(code, message.as_str())
            },
        };
        self.append_tool(&mut out, call_id, content, ts);
        (out, Next::Call)
    }
}

/// The calls that wait, or the error where there are none.
pub fn load_pending_or_err(waiting: Option<Vec<Pending>>) -> (r: Result<Vec<Pending>, String>)
    ensures
        match r {
            Ok(v) => waiting == Some(v),
            Err(e) => waiting is None && e@
                == "no pending.json — nothing to approve or reject"@,
        },
{
    match waiting {
        Some(v) => Ok(v),
        None => Err("no pending.json — nothing to approve or reject".to_owned()),
    }
}

/// Why an invocation ended, and the exit code that goes with it. The loop
/// has failed where there is no outcome.
pub fn ending(outcome: Option<Driven>) -> (r: (InvocationEndReason, u8))
    ensures
        r == match outcome {
            Some(Driven::Completed) => (InvocationEndReason::Completed, EXIT_OK),
            Some(Driven::AwaitingApproval) => (
                InvocationEndReason::AwaitingApproval,
                EXIT_AWAITING_APPROVAL,
            ),
            Some(Driven::SessionToolCallExhausted) => (
                InvocationEndReason::SessionToolCallExhausted,
                EXIT_ERROR,
            ),
            None => (InvocationEndReason::Error, EXIT_ERROR),
        },
{
    match outcome {
        Some(Driven::Completed) => (InvocationEndReason::Completed, EXIT_OK),
        Some(Driven::AwaitingApproval) => (
            InvocationEndReason::AwaitingApproval,
            EXIT_AWAITING_APPROVAL,
        ),
        Some(Driven::SessionToolCallExhausted) => (
            InvocationEndReason::SessionToolCallExhausted,
            EXIT_ERROR,
        ),
        None => (InvocationEndReason::Error, EXIT_ERROR),
    }
}

/// How long an invocation took. A clock that went back makes it nothing.
pub open spec fn duration_between(start_ts: u64, end_ts: u64) -> u64 {
    if end_ts < start_ts {
        0
    } else {
        (end_ts - start_ts) as u64
    }
}

/// The records that close an invocation.
pub fn closing_records(
    counters: &Counters,
    start_ts: u64,
    end_ts: u64,
    reason: InvocationEndReason,
) -> (r: Vec<SessionRecord>)
    ensures
        deep(r@) == seq![
            RecordModel::MetricsSnapshot {
                ts: end_ts,
                entries: metrics_entries(*counters, duration_between(start_ts, end_ts)),
            },
            RecordModel::InvocationEnd { ts: end_ts, reason },
        ],
{
    let duration_ms: u64 = if end_ts < start_ts {
        0
    } else {
        end_ts - start_ts
    };
    let mut out: Vec<SessionRecord> = Vec::new();
    out.push(
        SessionRecord::MetricsSnapshot {
            ts: end_ts,
            entries: counters.to_metrics_entries(duration_ms),
        },
    );
    out.push(SessionRecord::InvocationEnd { ts: end_ts, reason });
    assert(deep(out@) =~= seq![
        RecordModel::MetricsSnapshot {
            ts: end_ts,
            entries: metrics_entries(*counters, duration_between(start_ts, end_ts)),
        },
        RecordModel::InvocationEnd { ts: end_ts, reason },
    ]);
    out
}

} // verus!
