//! The decisions of the agent loop.
//!
//! [`AgentLoop`] keeps the conversation and the counts. Each of its functions
//! takes in what came back from outside, and says what is to be recorded and
//! shown, and what is to be done next.
use vstd::prelude::*;
use vstd::string::*;

pub mod conduct;
pub mod deciding;
pub mod laws;
pub mod resume;

use super::counters::{call_counted, capped_sum, error_counted, no_counts, usage_counted, Counters};
use super::gate::{asked, new_gate, turn_begun, GateDecision, GateModel, ToolCallGate};
use super::wording::{
    command_preview_text, execution_error_text, patch_preview_text, patch_result_json,
    patch_result_text, read_only_summary, render_command_preview, render_patch_preview_text,
    render_suggested_rule, short_err, short_error, suggested_rule, summarize_read_only,
    tool_error_json, tool_error_json_from, tool_error_text,
};
use super::AgentConfig;
use crate::curl::{assistant_of, CallResult, CallResultModel};
use crate::model::deep;
use crate::permissions::LoadedRules;
use crate::sansio::agent::debug::{
    debug_patch_error, debug_tool_error, patch_error_debug, tool_error_debug,
};
use crate::sansio::agent::errors::{
    command_error_code, command_error_message, CommandError, CommandErrorModel, OutcomeModel,
    PatchError, PatchErrorModel, ToolErrorModel, ToolExecutionError, ToolOutcome,
};
use crate::sansio::agent::tools::{
    command_call, definition, patch_call, read_only_call, read_only_name, skill_call,
    CommandInvocation, EditModel, PatchInvocation, ReadOnlyModel, ReadOnlyTool, SkillLoadInvocation,
    COMMAND_DESCRIPTION, COMMAND_PARAMS_SCHEMA, LIST_DESCRIPTION, LIST_PARAMS_SCHEMA,
    PATCH_DESCRIPTION, PATCH_PARAMS_SCHEMA, READ_DESCRIPTION, READ_PARAMS_SCHEMA,
    SEARCH_DESCRIPTION, SEARCH_PARAMS_SCHEMA, SKILL_LOAD_DESCRIPTION, SKILL_LOAD_PARAMS_SCHEMA,
};
use crate::sansio::agent::types::{PatchPreview, PatchPreviewModel, PreviewHash, PreviewHashModel};
use crate::sansio::deepseek::{
    clone_calls, clone_messages, clone_text, clone_texts, CallModel, ChatMessage, ChatRequest,
    MessageModel, RequestModel, ToolCall, ToolDef, ToolDefModel,
};
use crate::sansio::permissions::{
    chain, evaluate, judged, scope_text, scoped, Authorization, AuthorizationModel, AutoDecision,
    DecisionModel, Judgment, JudgmentModel, PermissionKind, RuleModel, RuleScope, Target,
};
use crate::session::{
    ApprovalDecision, AutoDecidedBy, AutoDecidedModel, Pending, PendingModel, PendingToolKind,
    RecordModel, SessionRecord,
};
use crate::shell::{shell_escape_argv, shell_line};
use crate::text::{
    cat, cat3, debug_list_of, debug_list_text, debug_of, debug_text, decimal, decimal_of, same,
    views,
};
use crate::time::Instant;

verus! {

broadcast use crate::model::group_deep;

/// Something that is to be recorded or shown, in order.
#[derive(Debug, PartialEq, Eq)]
pub enum Effect {
    /// Append a record to the session.
    Append(SessionRecord),
    /// Show a line to the user.
    Note(String),
    /// Forget the calls that wait for approval.
    ClearPending,
    /// Remember the calls that wait for approval.
    SavePending(Vec<Pending>),
}

/// An [`Effect`] as a mathematical value.
#[verifier::ext_equal]
pub enum EffectModel {
    Append(RecordModel),
    Note(Seq<char>),
    ClearPending,
    SavePending(Seq<PendingModel>),
}

impl View for Effect {
    type V = EffectModel;

    open spec fn view(&self) -> EffectModel {
        match self {
            Effect::Append(r) => EffectModel::Append(r@),
            Effect::Note(s) => EffectModel::Note(s@),
            Effect::ClearPending => EffectModel::ClearPending,
            Effect::SavePending(v) => EffectModel::SavePending(deep(v@)),
        }
    }
}

/// How the loop ends.
#[derive(Debug, Clone, Copy, PartialEq, Eq, Structural)]
pub enum Driven {
    Completed,
    AwaitingApproval,
    /// The cap on the tool calls of an invocation was reached.
    SessionToolCallExhausted,
}

/// What is to be done next.
#[derive(Debug, PartialEq, Eq)]
pub enum Next {
    /// Start a turn.
    Turn,
    /// Send a request to the model.
    CallModel(ChatRequest),
    /// Go on with the next tool call.
    Call,
    /// Run a tool that only reads.
    ReadOnly { call_id: String, tool: ReadOnlyTool },
    /// Find out what a patch would do.
    PreviewPatch { call: ToolCall, invocation: PatchInvocation },
    /// Apply a patch.
    ApplyPatch { call_id: String, edits: PatchInvocation, hashes: Vec<PreviewHash> },
    /// Run a command.
    RunCommand { call_id: String, command: CommandInvocation },
    /// Load a skill.
    LoadSkill { call_id: String, name: String },
    /// The loop has ended.
    Done(Driven),
    /// The loop has failed.
    Fail(String),
}

/// A [`Next`] as a mathematical value.
#[verifier::ext_equal]
pub enum NextModel {
    Turn,
    CallModel(RequestModel),
    Call,
    ReadOnly { call_id: Seq<char>, tool: ReadOnlyModel },
    PreviewPatch { call: CallModel, invocation: Seq<EditModel> },
    ApplyPatch { call_id: Seq<char>, edits: Seq<EditModel>, hashes: Seq<PreviewHashModel> },
    RunCommand { call_id: Seq<char>, command: Seq<Seq<char>> },
    LoadSkill { call_id: Seq<char>, name: Seq<char> },
    Done(Driven),
    Fail(Seq<char>),
}

impl View for Next {
    type V = NextModel;

    open spec fn view(&self) -> NextModel {
        match self {
            Next::Turn => NextModel::Turn,
            Next::CallModel(r) => NextModel::CallModel(r@),
            Next::Call => NextModel::Call,
            Next::ReadOnly { call_id, tool } => NextModel::ReadOnly {
                call_id: call_id@,
                tool: tool@,
            },
            Next::PreviewPatch { call, invocation } => NextModel::PreviewPatch {
                call: call@,
                invocation: invocation@,
            },
            Next::ApplyPatch { call_id, edits, hashes } => NextModel::ApplyPatch {
                call_id: call_id@,
                edits: edits@,
                hashes: deep(hashes@),
            },
            Next::RunCommand { call_id, command } => NextModel::RunCommand {
                call_id: call_id@,
                command: command@,
            },
            Next::LoadSkill { call_id, name } => NextModel::LoadSkill {
                call_id: call_id@,
                name: name@,
            },
            Next::Done(d) => NextModel::Done(*d),
            Next::Fail(s) => NextModel::Fail(s@),
        }
    }
}

/// What the preview of a patch brought.
#[derive(Debug, PartialEq, Eq)]
pub struct PatchReply {
    pub hashes: Vec<PreviewHash>,
    pub preview: PatchPreview,
    /// Whether the patch touches nothing but files that git can restore, so
    /// that nobody needs to be asked.
    pub auto_approve: bool,
}

/// A [`PatchReply`] as a mathematical value.
#[verifier::ext_equal]
pub struct PatchReplyModel {
    pub hashes: Seq<PreviewHashModel>,
    pub preview: PatchPreviewModel,
    pub auto_approve: bool,
}

impl View for PatchReply {
    type V = PatchReplyModel;

    open spec fn view(&self) -> PatchReplyModel {
        PatchReplyModel {
            hashes: deep(self.hashes@),
            preview: self.preview@,
            auto_approve: self.auto_approve,
        }
    }
}

/// What the search for a skill brought.
#[derive(Debug, PartialEq, Eq)]
pub enum SkillReply {
    /// There is no such skill.
    NotFound,
    /// The text of the skill.
    Body(String),
    /// The skill cannot be read.
    Failed { code: String, message: String },
}

/// A [`SkillReply`] as a mathematical value.
#[verifier::ext_equal]
pub enum SkillReplyModel {
    NotFound,
    Body(Seq<char>),
    Failed { code: Seq<char>, message: Seq<char> },
}

impl View for SkillReply {
    type V = SkillReplyModel;

    open spec fn view(&self) -> SkillReplyModel {
        match self {
            SkillReply::NotFound => SkillReplyModel::NotFound,
            SkillReply::Body(s) => SkillReplyModel::Body(s@),
            SkillReply::Failed { code, message } => SkillReplyModel::Failed {
                code: code@,
                message: message@,
            },
        }
    }
}

/// The kinds of tools.
#[derive(Debug, Clone, Copy, PartialEq, Eq, Structural)]
pub enum ToolKind {
    ReadOnly,
    Patch,
    Command,
    Skill,
    Unknown,
}

/// The kind of the tool with that name.
pub open spec fn kind_of(name: Seq<char>) -> ToolKind {
    if read_only_name(name) {
        ToolKind::ReadOnly
    } else if name == "patch"@ {
        ToolKind::Patch
    } else if name == "command"@ {
        ToolKind::Command
    } else if name == "skill_load"@ {
        ToolKind::Skill
    } else {
        ToolKind::Unknown
    }
}

/// The kind of the tool with that name.
pub fn classify(name: &str) -> (r: ToolKind)
    ensures
        r == kind_of(name@),
{
    if same(name, "list") || same(name, "read") || same(name, "search") {
        ToolKind::ReadOnly
    } else if same(name, "patch") {
        ToolKind::Patch
    } else if same(name, "command") {
        ToolKind::Command
    } else if same(name, "skill_load") {
        ToolKind::Skill
    } else {
        ToolKind::Unknown
    }
}

/// The tools that the model is offered.
pub open spec fn offered_tools() -> Seq<ToolDefModel> {
    seq![
        definition("list"@, LIST_DESCRIPTION@, LIST_PARAMS_SCHEMA@),
        definition("read"@, READ_DESCRIPTION@, READ_PARAMS_SCHEMA@),
        definition("search"@, SEARCH_DESCRIPTION@, SEARCH_PARAMS_SCHEMA@),
        definition("patch"@, PATCH_DESCRIPTION@, PATCH_PARAMS_SCHEMA@),
        definition("command"@, COMMAND_DESCRIPTION@, COMMAND_PARAMS_SCHEMA@),
        definition("skill_load"@, SKILL_LOAD_DESCRIPTION@, SKILL_LOAD_PARAMS_SCHEMA@),
    ]
}

/// The tools that the model is offered.
pub fn build_tool_defs() -> (r: Vec<ToolDef>)
    ensures
        deep(r@) == offered_tools(),
{
    let mut defs = ReadOnlyTool::definitions();
    defs.push(PatchInvocation::definition());
    defs.push(CommandInvocation::definition());
    defs.push(SkillLoadInvocation::definition());
    assert(deep(defs@) =~= offered_tools());
    defs
}

/// An [`AgentLoop`] as a mathematical value.
#[verifier::ext_equal]
pub struct LoopModel {
    pub model: Seq<char>,
    /// Maximum completion tokens of each request.
    pub max_tokens: Option<u64>,
    pub max_turns: usize,
    /// What the invocation is authorized by. The rules alone decide about
    /// commands.
    pub authorization: AuthorizationModel,
    /// The rules for commands, the last of which wins.
    pub rules: Seq<(RuleScope, RuleModel)>,
    pub messages: Seq<MessageModel>,
    pub counters: Counters,
    pub gate: GateModel,
    /// Turns that were begun.
    pub turns: nat,
    /// The tool calls of the turn.
    pub calls: Seq<CallModel>,
    /// How many of them were taken up.
    pub at: nat,
    /// Those that wait for approval.
    pub parked: Seq<PendingModel>,
}

/// A step of the loop: the state after it, what is to be recorded and shown,
/// and what is to be done next.
pub type Step = (LoopModel, Seq<EffectModel>, NextModel);

/// The loop after a call has been answered.
pub open spec fn answered(m: LoopModel, id: Seq<char>, content: Seq<char>) -> LoopModel {
    LoopModel {
        messages: m.messages.push(MessageModel::Tool { tool_call_id: id, content }),
        ..m
    }
}

/// The loop after a call has been answered with an error.
pub open spec fn refused(m: LoopModel, id: Seq<char>, content: Seq<char>) -> LoopModel {
    LoopModel { counters: error_counted(m.counters), ..answered(m, id, content) }
}

/// The record of an answer.
pub open spec fn answer_record(ts: u64, id: Seq<char>, content: Seq<char>) -> EffectModel {
    EffectModel::Append(RecordModel::Tool { ts, call_id: id, content })
}

/// A call is answered with an error.
pub open spec fn refusal(
    m: LoopModel,
    id: Seq<char>,
    note: Seq<char>,
    content: Seq<char>,
    ts: u64,
) -> Step {
    (
        refused(m, id, content),
        seq![EffectModel::Note(note), answer_record(ts, id, content)],
        NextModel::Call,
    )
}

/// Nothing is done about a call: it is left for the next invocation.
pub open spec fn skipped(m: LoopModel) -> Step {
    (m, Seq::empty(), NextModel::Call)
}

/// Whether a call of the turn waits for approval. From then on nothing more
/// is run.
pub open spec fn suspended(m: LoopModel) -> bool {
    m.parked.len() > 0
}

/// A turn begins, unless all of them are used up.
pub open spec fn turn_step(m: LoopModel) -> Step {
    if m.turns >= m.max_turns {
        (
            m,
            Seq::empty(),
            NextModel::Fail("agent loop exceeded max_turns="@ + decimal(m.max_turns as nat)),
        )
    } else {
        (
            LoopModel { gate: turn_begun(m.gate), turns: m.turns + 1, ..m },
            Seq::empty(),
            NextModel::CallModel(
                RequestModel {
                    model: m.model,
                    messages: m.messages,
                    tools: offered_tools(),
                    max_tokens: m.max_tokens,
                },
            ),
        )
    }
}

/// The model has answered. A message without calls ends the loop.
pub open spec fn reply_step(m: LoopModel, r: CallResultModel, ts: u64) -> Step {
    let counted = Counters { turns: capped_sum(m.counters.turns, 1), ..m.counters };
    let said = EffectModel::Append(
        RecordModel::Assistant {
            ts,
            content: r.content,
            reasoning: r.reasoning_content,
            tool_calls: r.tool_calls,
        },
    );
    (
        LoopModel {
            messages: m.messages.push(assistant_of(r)),
            counters: match r.usage {
                Some(u) => usage_counted(counted, u),
                None => counted,
            },
            calls: r.tool_calls,
            at: 0,
            parked: Seq::empty(),
            ..m
        },
        match r.usage {
            Some(u) => seq![said, EffectModel::Append(RecordModel::TokenUsage { ts, body: u })],
            None => seq![said],
        },
        if r.tool_calls.len() == 0 {
            NextModel::Done(Driven::Completed)
        } else {
            NextModel::Call
        },
    )
}

/// A call waits for approval.
pub open spec fn parked_call(
    m: LoopModel,
    c: CallModel,
    kind: PendingToolKind,
    preview: Seq<char>,
    ts: u64,
) -> LoopModel {
    LoopModel {
        parked: m.parked.push(
            PendingModel {
                ts,
                call_id: c.id,
                tool_kind: kind,
                function_name: c.function_name,
                arguments_json: c.arguments_json,
                preview,
            },
        ),
        ..m
    }
}

/// What is done about a call to a tool that only reads, once its arguments
/// have been read.
pub open spec fn read_only_step(
    m: LoopModel,
    c: CallModel,
    tool: Result<ReadOnlyModel, ToolErrorModel>,
    ts: u64,
) -> Step {
    if suspended(m) {
        skipped(m)
    } else {
        match tool {
            Ok(tool) => (m, Seq::empty(), NextModel::ReadOnly { call_id: c.id, tool }),
            Err(e) => refusal(
                m,
                c.id,
                "["@ + c.function_name + "] parse err: "@ + short_error(e),
                execution_error_text(e),
                ts,
            ),
        }
    }
}

/// A tool that only reads has been run.
pub open spec fn read_only_done_step(
    m: LoopModel,
    id: Seq<char>,
    tool: ReadOnlyModel,
    outcome: OutcomeModel,
    ts: u64,
) -> Step {
    match outcome {
        OutcomeModel::Success(payload) => (
            answered(m, id, payload),
            seq![
                EffectModel::Note("["@ + read_only_summary(tool) + "] ok"@),
                answer_record(ts, id, payload),
            ],
            NextModel::Call,
        ),
        OutcomeModel::Failure(e) => refusal(
            m,
            id,
            "["@ + read_only_summary(tool) + "] err: "@ + short_error(e),
            execution_error_text(e),
            ts,
        ),
    }
}

/// What is done about a patch, once its arguments have been read.
pub open spec fn patch_step(
    m: LoopModel,
    c: CallModel,
    edits: Result<Seq<EditModel>, ToolErrorModel>,
    ts: u64,
) -> Step {
    match edits {
        Ok(edits) => (m, Seq::empty(), NextModel::PreviewPatch { call: c, invocation: edits }),
        Err(e) => if suspended(m) {
            skipped(m)
        } else {
            refusal(
                m,
                c.id,
                "[patch] parse err: "@ + tool_error_debug(e),
                tool_error_text("patch_args"@, tool_error_debug(e)),
                ts,
            )
        },
    }
}

/// What is done about a patch, once it is known what it would do.
pub open spec fn patch_previewed_step(
    m: LoopModel,
    c: CallModel,
    edits: Seq<EditModel>,
    reply: Result<PatchReplyModel, PatchErrorModel>,
    ts: u64,
) -> Step {
    match reply {
        Err(e) => if suspended(m) {
            skipped(m)
        } else {
            refusal(
                m,
                c.id,
                "[patch] preview err: "@ + patch_error_debug(e),
                tool_error_text("patch_preview"@, patch_error_debug(e)),
                ts,
            )
        },
        Ok(p) => if !p.auto_approve {
            (
                parked_call(m, c, PendingToolKind::Patch, patch_preview_text(p.preview), ts),
                seq![
                    EffectModel::Note("[patch] approval required"@),
                    EffectModel::Note(patch_preview_text(p.preview)),
                ],
                NextModel::Call,
            )
        } else if suspended(m) {
            skipped(m)
        } else {
            (m, Seq::empty(), NextModel::ApplyPatch { call_id: c.id, edits, hashes: p.hashes })
        },
    }
}

/// A patch that nobody needed to approve has been applied.
pub open spec fn patch_applied_step(
    m: LoopModel,
    id: Seq<char>,
    reply: Result<Seq<Seq<char>>, PatchErrorModel>,
    ts: u64,
) -> Step {
    match reply {
        Ok(paths) => (
            answered(m, id, patch_result_text(paths)),
            seq![
                EffectModel::Note(
                    "[patch] auto-approved: "@ + decimal(paths.len()) + " file(s) (git-tracked)"@,
                ),
                answer_record(ts, id, patch_result_text(paths)),
            ],
            NextModel::Call,
        ),
        Err(e) => refusal(
            m,
            id,
            "[patch] apply err: "@ + patch_error_debug(e),
            tool_error_text("patch_apply"@, patch_error_debug(e)),
            ts,
        ),
    }
}

/// The record of a decision that a rule made.
pub open spec fn rule_record(
    ts: u64,
    id: Seq<char>,
    decision: ApprovalDecision,
    d: DecisionModel,
) -> EffectModel {
    EffectModel::Append(
        RecordModel::ToolApproval {
            ts,
            call_id: id,
            decision,
            auto_decided_by: Some(
                AutoDecidedModel {
                    scope: scope_text(d.scope),
                    argv_prefix: d.args_prefix,
                    reason: "rule"@,
                },
            ),
        },
    )
}

/// What the user is shown of a decision that a rule made.
pub open spec fn rule_note(what: Seq<char>, d: DecisionModel, argv: Seq<Seq<char>>) -> Seq<char> {
    "[command] auto-"@ + what + " via "@ + scope_text(d.scope) + " rule '"@ + shell_line(
        d.args_prefix,
    ) + "': "@ + shell_line(argv)
}

/// What the model is told of a command that a rule denies.
pub open spec fn denied_text(d: DecisionModel) -> Seq<char> {
    tool_error_text(
        "denied_by_rule"@,
        "auto-denied by "@ + scope_text(d.scope) + " rule argv_prefix "@ + debug_list_text(
            d.args_prefix,
        ),
    )
}

/// Lines that are shown to the user.
pub open spec fn notes(lines: Seq<Seq<char>>) -> Seq<EffectModel> {
    lines.map_values(|s: Seq<char>| EffectModel::Note(s))
}

/// What is done about a command, once the rules have been asked.
pub open spec fn judged_step(
    m: LoopModel,
    c: CallModel,
    argv: Seq<Seq<char>>,
    judgment: JudgmentModel,
    ts: u64,
) -> Step {
    match judgment {
        JudgmentModel::AutoApprove(d) => if suspended(m) {
            skipped(m)
        } else {
            (
                m,
                seq![
                    EffectModel::Note(rule_note("approve"@, d, argv)),
                    rule_record(ts, c.id, ApprovalDecision::Approve, d),
                ],
                NextModel::RunCommand { call_id: c.id, command: argv },
            )
        },
        JudgmentModel::AutoDeny(d) => if suspended(m) {
            skipped(m)
        } else {
            (
                refused(m, c.id, denied_text(d)),
                seq![
                    EffectModel::Note(rule_note("deny"@, d, argv)),
                    rule_record(ts, c.id, ApprovalDecision::Reject, d),
                    answer_record(ts, c.id, denied_text(d)),
                ],
                NextModel::Call,
            )
        },
        JudgmentModel::Pending => (
            parked_call(m, c, PendingToolKind::Command, command_preview_text(argv), ts),
            seq![
                EffectModel::Note("[command] approval required"@),
                EffectModel::Note(command_preview_text(argv)),
            ] + notes(suggested_rule(argv)),
            NextModel::Call,
        ),
    }
}

/// What is done about a command, once its arguments have been read.
pub open spec fn command_step(
    m: LoopModel,
    c: CallModel,
    argv: Result<Seq<Seq<char>>, ToolErrorModel>,
    ts: u64,
) -> Step {
    match argv {
        Ok(argv) => judged_step(
            m,
            c,
            argv,
            judged(m.rules, PermissionKind::Command, Target::Argv(argv)),
            ts,
        ),
        Err(e) => if suspended(m) {
            skipped(m)
        } else {
            refusal(
                m,
                c.id,
                "[command] parse err: "@ + tool_error_debug(e),
                tool_error_text("command_args"@, tool_error_debug(e)),
                ts,
            )
        },
    }
}

/// What the model is told of a command that could not be started.
pub open spec fn command_failure_text(e: CommandErrorModel) -> Seq<char> {
    tool_error_text(command_error_code(e), command_error_message(e))
}

/// A command has been run.
pub open spec fn command_done_step(
    m: LoopModel,
    id: Seq<char>,
    reply: Result<Seq<char>, CommandErrorModel>,
    ts: u64,
) -> Step {
    match reply {
        Ok(content) => (
            answered(m, id, content),
            seq![answer_record(ts, id, content)],
            NextModel::Call,
        ),
        Err(e) => (
            refused(m, id, command_failure_text(e)),
            seq![answer_record(ts, id, command_failure_text(e))],
            NextModel::Call,
        ),
    }
}

/// What is done about a skill, once the arguments have been read.
pub open spec fn skill_step(
    m: LoopModel,
    c: CallModel,
    name: Result<Seq<char>, ToolErrorModel>,
    ts: u64,
) -> Step {
    if suspended(m) {
        skipped(m)
    } else {
        match name {
            Ok(name) => (m, Seq::empty(), NextModel::LoadSkill { call_id: c.id, name }),
            Err(e) => refusal(
                m,
                c.id,
                "[skill_load] parse err: "@ + tool_error_debug(e),
                execution_error_text(e),
                ts,
            ),
        }
    }
}

/// A skill has been looked for.
pub open spec fn skill_done_step(
    m: LoopModel,
    id: Seq<char>,
    name: Seq<char>,
    reply: SkillReplyModel,
    ts: u64,
) -> Step {
    match reply {
        SkillReplyModel::NotFound => refusal(
            m,
            id,
            "[skill_load] not found: "@ + name,
            tool_error_text(
                "skill_not_found"@,
                "no SKILL.md found for skill "@ + debug_text(name),
            ),
            ts,
        ),
        SkillReplyModel::Body(body) => (
            answered(m, id, body),
            seq![EffectModel::Note("[skill_load] "@ + name), answer_record(ts, id, body)],
            NextModel::Call,
        ),
        SkillReplyModel::Failed { code, message } => refusal(
            m,
            id,
            "[skill_load] "@ + name + ": "@ + message,
            tool_error_text(code, message),
            ts,
        ),
    }
}

/// What is done about a call that the limiter let through.
pub open spec fn passed_step(m: LoopModel, c: CallModel, ts: u64) -> Step {
    match kind_of(c.function_name) {
        ToolKind::ReadOnly => read_only_step(
            m,
            c,
            read_only_call(c.function_name, c.arguments_json),
            ts,
        ),
        ToolKind::Patch => patch_step(m, c, patch_call(c.arguments_json), ts),
        ToolKind::Command => command_step(m, c, command_call(c.arguments_json), ts),
        ToolKind::Skill => skill_step(m, c, skill_call(c.arguments_json), ts),
        ToolKind::Unknown => if suspended(m) {
            skipped(m)
        } else {
            refusal(
                m,
                c.id,
                "[unknown tool] "@ + c.function_name,
                tool_error_text("unknown_tool"@, "no such tool: "@ + c.function_name),
                ts,
            )
        },
    }
}

/// What is said of the cap on a turn.
pub open spec fn turn_cap(m: LoopModel) -> Seq<char> {
    "turn_tool_call_limit="@ + decimal(m.gate.turn_limit as nat) + " exceeded"@
}

/// What is said of the cap on a span of time.
pub open spec fn rate_cap(m: LoopModel) -> Seq<char> {
    match m.gate.rate {
        Some(rate) => "tool_call_rate="@ + decimal(rate.calls as nat) + "/"@ + decimal(
            rate.window.secs as nat,
        ) + "s exceeded"@,
        None => Seq::empty(),
    }
}

/// What is said of the cap on an invocation.
pub open spec fn session_cap(m: LoopModel) -> Seq<char> {
    match m.gate.session_max {
        Some(max) => "[cap] session_tool_call_max="@ + decimal(max as nat)
            + " exhausted; ending invocation"@,
        None => Seq::empty(),
    }
}

/// The next call of the turn is taken up. After the last one the turn is
/// over.
pub open spec fn call_step(m: LoopModel, ts: u64, now: Instant) -> Step {
    if m.at >= m.calls.len() {
        if suspended(m) {
            (
                m,
                seq![EffectModel::SavePending(m.parked)],
                NextModel::Done(Driven::AwaitingApproval),
            )
        } else {
            (m, Seq::empty(), NextModel::Turn)
        }
    } else {
        let c = m.calls[m.at as int];
        let (gate, decision) = asked(m.gate, now);
        let n = LoopModel {
            at: m.at + 1,
            gate,
            counters: Counters {
                tool_calls_by_kind: call_counted(m.counters.tool_calls_by_kind, c.function_name),
                ..m.counters
            },
            ..m
        };
        match decision {
            GateDecision::Proceed => passed_step(n, c, ts),
            GateDecision::TurnLimitExceeded => refusal(
                n,
                c.id,
                "[cap] "@ + turn_cap(n),
                tool_error_text("turn_tool_call_limit_exceeded"@, turn_cap(n) + " in this turn"@),
                ts,
            ),
            GateDecision::RateLimitExceeded => refusal(
                n,
                c.id,
                "[cap] "@ + rate_cap(n),
                tool_error_text("tool_call_rate_exceeded"@, rate_cap(n)),
                ts,
            ),
            GateDecision::SessionExhausted => (
                n,
                seq![EffectModel::Note(session_cap(n))],
                NextModel::Done(Driven::SessionToolCallExhausted),
            ),
        }
    }
}

/// The state of the agent loop.
pub struct AgentLoop {
    model: String,
    max_tokens: Option<u64>,
    max_turns: usize,
    authorization: Authorization,
    rules: LoadedRules,
    messages: Vec<ChatMessage>,
    counters: Counters,
    gate: ToolCallGate,
    turns: usize,
    calls: Vec<ToolCall>,
    at: usize,
    parked: Vec<Pending>,
}

/// The rules of both files, those of the session behind those of the
/// workspace.
pub open spec fn rule_chain(rules: LoadedRules) -> Seq<(RuleScope, RuleModel)> {
    scoped(RuleScope::Workspace, deep(rules.workspace@)) + scoped(
        RuleScope::Session,
        deep(rules.session@),
    )
}

impl View for AgentLoop {
    type V = LoopModel;

    closed spec fn view(&self) -> LoopModel {
        LoopModel {
            model: self.model@,
            max_tokens: self.max_tokens,
            max_turns: self.max_turns,
            authorization: self.authorization@,
            rules: rule_chain(self.rules),
            messages: deep(self.messages@),
            counters: self.counters,
            gate: self.gate@,
            turns: self.turns as nat,
            calls: deep(self.calls@),
            at: self.at as nat,
            parked: deep(self.parked@),
        }
    }
}

/// The loop before its first turn.
pub open spec fn new_loop(
    config: AgentConfig,
    rules: LoadedRules,
    messages: Seq<MessageModel>,
) -> LoopModel {
    LoopModel {
        model: config.model@,
        max_tokens: config.max_tokens,
        max_turns: config.max_turns,
        authorization: config.authorization@,
        rules: rule_chain(rules),
        messages,
        counters: no_counts(),
        gate: new_gate(
            config.turn_tool_call_limit,
            config.tool_call_rate,
            config.session_tool_call_max,
        ),
        turns: 0,
        calls: Seq::empty(),
        at: 0,
        parked: Seq::empty(),
    }
}

fn note(out: &mut Vec<Effect>, line: String)
    ensures
        deep(final(out)@) == deep(old(out)@).push(EffectModel::Note(line@)),
{
    out.push(Effect::Note(line));
}

impl AgentLoop {
    /// The loop before its first turn.
    pub fn new(config: &AgentConfig, rules: LoadedRules, messages: Vec<ChatMessage>) -> (r: Self)
        ensures
            r@ == new_loop(*config, rules, deep(messages@)),
    {
        AgentLoop {
            model: config.model.clone(),
            max_tokens: config.max_tokens,
            max_turns: config.max_turns,
            authorization: config.authorization.clone(),
            rules,
            messages,
            counters: Counters::default(),
            gate: ToolCallGate::new(config),
            turns: 0,
            calls: Vec::new(),
            at: 0,
            parked: Vec::new(),
        }
    }

    /// The conversation.
    pub fn messages(&self) -> (r: &Vec<ChatMessage>)
        ensures
            deep(r@) == self@.messages,
    {
        &self.messages
    }

    /// The counts.
    pub fn counters(&self) -> (r: Counters)
        ensures
            r == self@.counters,
    {
        self.counters
    }

    fn is_suspended(&self) -> (r: bool)
        ensures
            r == suspended(self@),
    {
        self.parked.len() > 0
    }

    /// Answers a call, and records the answer.
    fn append_tool(&mut self, out: &mut Vec<Effect>, call_id: &str, content: String, ts: u64)
        ensures
            final(self)@ == answered(old(self)@, call_id@, content@),
            deep(final(out)@) == deep(old(out)@).push(answer_record(ts, call_id@, content@)),
    {
        out.push(
            Effect::Append(
                SessionRecord::Tool { ts, call_id: call_id.to_owned(), content: content.clone() },
            ),
        );
        self.messages.push(ChatMessage::Tool { tool_call_id: call_id.to_owned(), content });
    }

    /// Answers a call with an error, and shows a line.
    fn refuse(&mut self, call_id: &str, line: String, content: String, ts: u64) -> (r: (
        Vec<Effect>,
        Next,
    ))
        ensures
            (final(self)@, deep(r.0@), r.1@) == refusal(
                old(self)@,
                call_id@,
                line@,
                content@,
                ts,
            ),
    {
        let mut out: Vec<Effect> = Vec::new();
        note(&mut out, line);
        self.counters.count_error();
        self.append_tool(&mut out, call_id, content, ts);
        assert(deep(out@) =~= seq![
            EffectModel::Note(line@),
            answer_record(ts, call_id@, content@),
        ]);
        (out, Next::Call)
    }

    /// Begins a turn.
    pub fn begin_turn(&mut self) -> (r: (Vec<Effect>, Next))
        ensures
            (final(self)@, deep(r.0@), r.1@) == turn_step(old(self)@),
    {
        if self.turns >= self.max_turns {
            return (
                Vec::new(),
                Next::Fail(
                    cat(
                        "agent loop exceeded max_turns=",
                        decimal_of(self.max_turns as u64).as_str(),
                    ),
                ),
            );
        }
        self.gate.begin_turn();
        self.turns = self.turns + 1;
        let request = ChatRequest::new(
            self.model.as_str(),
            clone_messages(&self.messages),
        ).with_tools(build_tool_defs()).with_max_tokens(self.max_tokens);
        (Vec::new(), Next::CallModel(request))
    }

    /// Takes in the answer of the model.
    pub fn take_reply(&mut self, result: CallResult, ts: u64) -> (r: (Vec<Effect>, Next))
        ensures
            (final(self)@, deep(r.0@), r.1@) == reply_step(old(self)@, result@, ts),
    {
        let ghost m = self@;
        let ghost reply = result@;
        let mut out: Vec<Effect> = Vec::new();
        out.push(
            Effect::Append(
                SessionRecord::Assistant {
                    ts,
                    content: result.content.clone(),
                    reasoning: clone_text(&result.reasoning_content),
                    tool_calls: clone_calls(&result.tool_calls),
                },
            ),
        );
        self.counters.count_turn();
        if let Some(usage) = result.usage {
            out.push(Effect::Append(SessionRecord::TokenUsage { ts, body: usage }));
            self.counters.count_usage(usage);
        }
        self.calls = clone_calls(&result.tool_calls);
        self.at = 0;
        self.parked = Vec::new();
        self.messages.push(result.into_assistant());
        assert(deep(out@) =~= reply_step(m, reply, ts).1);
        if self.calls.len() == 0 {
            (out, Next::Done(Driven::Completed))
        } else {
            (out, Next::Call)
        }
    }

    /// Decides about a tool that only reads, once its arguments have been
    /// read.
    pub fn decide_read_only(
        &mut self,
        call: &ToolCall,
        tool: Result<ReadOnlyTool, ToolExecutionError>,
        ts: u64,
    ) -> (r: (Vec<Effect>, Next))
        ensures
            (final(self)@, deep(r.0@), r.1@) == read_only_step(
                old(self)@,
                call@,
                match tool {
                    Ok(t) => Ok(t@),
                    Err(e) => Err(e@),
                },
                ts,
            ),
    {
        if self.is_suspended() {
            return (Vec::new(), Next::Call);
        }
        match tool {
            Ok(tool) => (Vec::new(), Next::ReadOnly { call_id: call.id.clone(), tool }),
            Err(e) => {
                let mut line = cat3("[", call.function_name.as_str(), "] parse err: ");
                line.append(short_err(&e).as_str());
                self.refuse(call.id.as_str(), line, tool_error_json_from(&e), ts)
            },
        }
    }

    /// Takes in the result of a tool that only reads.
    pub fn read_only_done(
        &mut self,
        call_id: &str,
        tool: &ReadOnlyTool,
        outcome: ToolOutcome,
        ts: u64,
    ) -> (r: (Vec<Effect>, Next))
        ensures
            (final(self)@, deep(r.0@), r.1@) == read_only_done_step(
                old(self)@,
                call_id@,
                tool@,
                outcome@,
                ts,
            ),
    {
        let mut line = cat("[", summarize_read_only(tool).as_str());
        match outcome {
            ToolOutcome::Success(payload) => {
                line.append("] ok");
                let mut out: Vec<Effect> = Vec::new();
                note(&mut out, line);
                self.append_tool(&mut out, call_id, payload, ts);
                assert(deep(out@) =~= seq![
                    EffectModel::Note(line@),
                    answer_record(ts, call_id@, payload@),
                ]);
                (out, Next::Call)
            },
            ToolOutcome::Failure(e) => {
                line.append("] err: ");
                line.append(short_err(&e).as_str());
                self.refuse(call_id, line, tool_error_json_from(&e), ts)
            },
        }
    }

    /// Decides about a patch, once its arguments have been read.
    pub fn decide_patch(
        &mut self,
        call: &ToolCall,
        edits: Result<PatchInvocation, ToolExecutionError>,
        ts: u64,
    ) -> (r: (Vec<Effect>, Next))
        ensures
            (final(self)@, deep(r.0@), r.1@) == patch_step(
                old(self)@,
                call@,
                match edits {
                    Ok(t) => Ok(t@),
                    Err(e) => Err(e@),
                },
                ts,
            ),
    {
        match edits {
            Ok(invocation) => (
                Vec::new(),
                Next::PreviewPatch { call: call.clone(), invocation },
            ),
            Err(e) => {
                if self.is_suspended() {
                    return (Vec::new(), Next::Call);
                }
                let text = debug_tool_error(&e);
                self.refuse(
                    call.id.as_str(),
                    cat("[patch] parse err: ", text.as_str()),
                    tool_error_json("patch_args", text.as_str()),
                    ts,
                )
            },
        }
    }

    fn park(
        &mut self,
        call: &ToolCall,
        kind: PendingToolKind,
        preview: String,
        ts: u64,
    )
        ensures
            final(self)@ == parked_call(old(self)@, call@, kind, preview@, ts),
    {
        self.parked.push(
            Pending {
                ts,
                call_id: call.id.clone(),
                tool_kind: kind,
                function_name: call.function_name.clone(),
                arguments_json: call.arguments_json.clone(),
                preview,
            },
        );
    }

    /// Takes in what a patch would do.
    pub fn patch_previewed(
        &mut self,
        call: &ToolCall,
        invocation: PatchInvocation,
        reply: Result<PatchReply, PatchError>,
        ts: u64,
    ) -> (r: (Vec<Effect>, Next))
        ensures
            (final(self)@, deep(r.0@), r.1@) == patch_previewed_step(
                old(self)@,
                call@,
                invocation@,
                match reply {
                    Ok(p) => Ok(p@),
                    Err(e) => Err(e@),
                },
                ts,
            ),
    {
        match reply {
            Err(e) => {
                if self.is_suspended() {
                    return (Vec::new(), Next::Call);
                }
                let text = debug_patch_error(&e);
                self.refuse(
                    call.id.as_str(),
                    cat("[patch] preview err: ", text.as_str()),
                    tool_error_json("patch_preview", text.as_str()),
                    ts,
                )
            },
            Ok(p) => {
                if !p.auto_approve {
                    let text = render_patch_preview_text(&p.preview);
                    let mut out: Vec<Effect> = Vec::new();
                    note(&mut out, "[patch] approval required".to_owned());
                    note(&mut out, text.clone());
                    assert(deep(out@) =~= seq![
                        EffectModel::Note("[patch] approval required"@),
                        EffectModel::Note(text@),
                    ]);
                    self.park(call, PendingToolKind::Patch, text, ts);
                    (out, Next::Call)
                } else if self.is_suspended() {
                    (Vec::new(), Next::Call)
                } else {
                    (
                        Vec::new(),
                        Next::ApplyPatch {
                            call_id: call.id.clone(),
                            edits: invocation,
                            hashes: p.hashes,
                        },
                    )
                }
            },
        }
    }

    /// Takes in how it went to apply a patch that nobody needed to approve.
    pub fn patch_applied(
        &mut self,
        call_id: &str,
        reply: Result<Vec<String>, PatchError>,
        ts: u64,
    ) -> (r: (Vec<Effect>, Next))
        ensures
            (final(self)@, deep(r.0@), r.1@) == patch_applied_step(
                old(self)@,
                call_id@,
                match reply {
                    Ok(p) => Ok(views(p@)),
                    Err(e) => Err(e@),
                },
                ts,
            ),
    {
        match reply {
            Ok(paths) => {
                assert(views(paths@).len() == paths@.len());
                let line = cat3(
                    "[patch] auto-approved: ",
                    decimal_of(paths.len() as u64).as_str(),
                    " file(s) (git-tracked)",
                );
                let content = patch_result_json(&paths);
                let mut out: Vec<Effect> = Vec::new();
                note(&mut out, line);
                self.append_tool(&mut out, call_id, content, ts);
                assert(deep(out@) =~= seq![
                    EffectModel::Note(line@),
                    answer_record(ts, call_id@, content@),
                ]);
                (out, Next::Call)
            },
            Err(e) => {
                let text = debug_patch_error(&e);
                self.refuse(
                    call_id,
                    cat("[patch] apply err: ", text.as_str()),
                    tool_error_json("patch_apply", text.as_str()),
                    ts,
                )
            },
        }
    }

    fn record_rule(
        out: &mut Vec<Effect>,
        call_id: &str,
        decision: ApprovalDecision,
        d: &AutoDecision,
        ts: u64,
    )
        ensures
            deep(final(out)@) == deep(old(out)@).push(rule_record(ts, call_id@, decision, d@)),
    {
        out.push(
            Effect::Append(
                SessionRecord::ToolApproval {
                    ts,
                    call_id: call_id.to_owned(),
                    decision,
                    auto_decided_by: Some(
                        AutoDecidedBy {
                            scope: d.scope.as_str().to_owned(),
                            argv_prefix: clone_texts(&d.args_prefix),
                            reason: "rule".to_owned(),
                        },
                    ),
                },
            ),
        );
    }

    fn rule_line(what: &str, d: &AutoDecision, argv: &Vec<String>) -> (r: String)
        ensures
            r@ == rule_note(what@, d@, views(argv@)),
    {
        let mut out = cat3("[command] auto-", what, " via ");
        out.append(d.scope.as_str());
        out.append(" rule '");
        out.append(shell_escape_argv(&d.args_prefix).as_str());
        out.append("': ");
        out.append(shell_escape_argv(argv).as_str());
        out
    }

    /// Decides about a command, once the rules have been asked.
    pub fn decide_judged(
        &mut self,
        call: &ToolCall,
        invocation: CommandInvocation,
        judgment: Judgment,
        ts: u64,
    ) -> (r: (Vec<Effect>, Next))
        ensures
            (final(self)@, deep(r.0@), r.1@) == judged_step(
                old(self)@,
                call@,
                invocation@,
                judgment@,
                ts,
            ),
    {
        let mut out: Vec<Effect> = Vec::new();
        match judgment {
            Judgment::AutoApprove(d) => {
                if self.is_suspended() {
                    return (out, Next::Call);
                }
                note(&mut out, Self::rule_line("approve", &d, &invocation.argv));
                Self::record_rule(&mut out, call.id.as_str(), ApprovalDecision::Approve, &d, ts);
                assert(deep(out@) =~= judged_step(
                    old(self)@,
                    call@,
                    invocation@,
                    judgment@,
                    ts,
                ).1);
                (out, Next::RunCommand { call_id: call.id.clone(), command: invocation })
            },
            Judgment::AutoDeny(d) => {
                if self.is_suspended() {
                    return (out, Next::Call);
                }
                note(&mut out, Self::rule_line("deny", &d, &invocation.argv));
                Self::record_rule(&mut out, call.id.as_str(), ApprovalDecision::Reject, &d, ts);
                let mut why = cat3("auto-denied by ", d.scope.as_str(), " rule argv_prefix ");
                why.append(debug_list_of(&d.args_prefix).as_str());
                let content = tool_error_json("denied_by_rule", why.as_str());
                self.counters.count_error();
                self.append_tool(&mut out, call.id.as_str(), content, ts);
                assert(deep(out@) =~= judged_step(
                    old(self)@,
                    call@,
                    invocation@,
                    judgment@,
                    ts,
                ).1);
                (out, Next::Call)
            },
            Judgment::Pending => {
                let text = render_command_preview(&invocation.argv);
                note(&mut out, "[command] approval required".to_owned());
                note(&mut out, text.clone());
                let ghost head = deep(out@);
                assert(head =~= seq![
                    EffectModel::Note("[command] approval required"@),
                    EffectModel::Note(text@),
                ]);
                let lines = render_suggested_rule(&invocation.argv);
                let ghost all = notes(views(lines@));
                let mut i: usize = 0;
                assert(head + all.take(0) =~= head);
                while i < lines.len()
                    invariant
                        i <= lines@.len(),
                        all == notes(views(lines@)),
                        deep(out@) == head + all.take(i as int),
                    decreases lines@.len() - i,
                {
                    let ghost before = deep(out@);
                    note(&mut out, lines[i].clone());
                    assert(head + all.take(i + 1) =~= before.push(all[i as int]));
                    i = i + 1;
                }
                assert(all.take(all.len() as int) =~= all);
                self.park(call, PendingToolKind::Command, text, ts);
                (out, Next::Call)
            },
        }
    }

    /// Decides about a command, once its arguments have been read.
    pub fn decide_command(
        &mut self,
        call: &ToolCall,
        invocation: Result<CommandInvocation, ToolExecutionError>,
        ts: u64,
    ) -> (r: (Vec<Effect>, Next))
        ensures
            (final(self)@, deep(r.0@), r.1@) == command_step(
                old(self)@,
                call@,
                match invocation {
                    Ok(t) => Ok(t@),
                    Err(e) => Err(e@),
                },
                ts,
            ),
    {
        match invocation {
            Ok(invocation) => {
                let layers = [
                    (RuleScope::Workspace, self.rules.workspace.as_slice()),
                    (RuleScope::Session, self.rules.session.as_slice()),
                ];
                proof {
                    reveal_with_fuel(chain, 3);
                    let l = layers@;
                    assert(l.drop_last().drop_last() =~= Seq::empty());
                    assert(chain(l) =~= self@.rules);
                }
                let judgment = evaluate(&layers, &invocation.argv, &self.authorization);
                self.decide_judged(call, invocation, judgment, ts)
            },
            Err(e) => {
                if self.is_suspended() {
                    return (Vec::new(), Next::Call);
                }
                let text = debug_tool_error(&e);
                self.refuse(
                    call.id.as_str(),
                    cat("[command] parse err: ", text.as_str()),
                    tool_error_json("command_args", text.as_str()),
                    ts,
                )
            },
        }
    }

    /// Takes in what a command has printed, or why it could not be started.
    pub fn command_done(
        &mut self,
        call_id: &str,
        reply: Result<String, CommandError>,
        ts: u64,
    ) -> (r: (Vec<Effect>, Next))
        ensures
            (final(self)@, deep(r.0@), r.1@) == command_done_step(
                old(self)@,
                call_id@,
                match reply {
                    Ok(s) => Ok(s@),
                    Err(e) => Err(e@),
                },
                ts,
            ),
    {
        let mut out: Vec<Effect> = Vec::new();
        match reply {
            Ok(content) => {
                self.append_tool(&mut out, call_id, content, ts);
                assert(deep(out@) =~= seq![answer_record(ts, call_id@, content@)]);
            },
            Err(e) => {
                let (code, message) = e.to_code_and_message();
                let content = tool_error_json(code, message.as_str());
                self.counters.count_error();
                self.append_tool(&mut out, call_id, content, ts);
                assert(deep(out@) =~= seq![answer_record(ts, call_id@, content@)]);
            },
        }
        (out, Next::Call)
    }

    /// Decides about a skill, once the arguments have been read.
    pub fn decide_skill(
        &mut self,
        call: &ToolCall,
        invocation: Result<SkillLoadInvocation, ToolExecutionError>,
        ts: u64,
    ) -> (r: (Vec<Effect>, Next))
        ensures
            (final(self)@, deep(r.0@), r.1@) == skill_step(
                old(self)@,
                call@,
                match invocation {
                    Ok(t) => Ok(t@),
                    Err(e) => Err(e@),
                },
                ts,
            ),
    {
        if self.is_suspended() {
            return (Vec::new(), Next::Call);
        }
        match invocation {
            Ok(invocation) => (
                Vec::new(),
                Next::LoadSkill { call_id: call.id.clone(), name: invocation.name },
            ),
            Err(e) => {
                let text = debug_tool_error(&e);
                self.refuse(
                    call.id.as_str(),
                    cat("[skill_load] parse err: ", text.as_str()),
                    tool_error_json_from(&e),
                    ts,
                )
            },
        }
    }

    /// Takes in a skill, or why there is none.
    pub fn skill_done(&mut self, call_id: &str, name: &str, reply: SkillReply, ts: u64) -> (r: (
        Vec<Effect>,
        Next,
    ))
        ensures
            (final(self)@, deep(r.0@), r.1@) == skill_done_step(
                old(self)@,
                call_id@,
                name@,
                reply@,
                ts,
            ),
    {
        match reply {
            SkillReply::NotFound => self.refuse(
                call_id,
                cat("[skill_load] not found: ", name),
                tool_error_json(
                    "skill_not_found",
                    cat("no SKILL.md found for skill ", debug_of(name).as_str()).as_str(),
                ),
                ts,
            ),
            SkillReply::Body(body) => {
                let mut out: Vec<Effect> = Vec::new();
                let line = cat("[skill_load] ", name);
                note(&mut out, line);
                self.append_tool(&mut out, call_id, body, ts);
                assert(deep(out@) =~= seq![
                    EffectModel::Note(line@),
                    answer_record(ts, call_id@, body@),
                ]);
                (out, Next::Call)
            },
            SkillReply::Failed { code, message } => {
                let mut line = cat3("[skill_load] ", name, ": ");
                line.append(message.as_str());
                self.refuse(call_id, line, tool_error_json(code.as_str(), message.as_str()), ts)
            },
        }
    }

    fn dispatch(&mut self, call: &ToolCall, ts: u64) -> (r: (Vec<Effect>, Next))
        ensures
            (final(self)@, deep(r.0@), r.1@) == passed_step(old(self)@, call@, ts),
    {
        match classify(call.function_name.as_str()) {
            ToolKind::ReadOnly => {
                let tool = ReadOnlyTool::parse(
                    call.function_name.as_str(),
                    call.arguments_json.as_str(),
                );
                self.decide_read_only(call, tool, ts)
            },
            ToolKind::Patch => {
                let edits = PatchInvocation::parse(call.arguments_json.as_str());
                self.decide_patch(call, edits, ts)
            },
            ToolKind::Command => {
                let command = CommandInvocation::parse(call.arguments_json.as_str());
                self.decide_command(call, command, ts)
            },
            ToolKind::Skill => {
                let skill = SkillLoadInvocation::parse(call.arguments_json.as_str());
                self.decide_skill(call, skill, ts)
            },
            ToolKind::Unknown => {
                if self.is_suspended() {
                    return (Vec::new(), Next::Call);
                }
                let name = call.function_name.as_str();
                self.refuse(
                    call.id.as_str(),
                    cat("[unknown tool] ", name),
                    tool_error_json("unknown_tool", cat("no such tool: ", name).as_str()),
                    ts,
                )
            },
        }
    }

    /// Takes up the next call of the turn.
    pub fn next_call(&mut self, ts: u64, now: Instant) -> (r: (Vec<Effect>, Next))
        ensures
            (final(self)@, deep(r.0@), r.1@) == call_step(old(self)@, ts, now),
    {
        if self.at >= self.calls.len() {
            let mut out: Vec<Effect> = Vec::new();
            if self.is_suspended() {
                let parked = clone_pending(&self.parked);
                out.push(Effect::SavePending(parked));
                assert(deep(out@) =~= seq![EffectModel::SavePending(self@.parked)]);
                return (out, Next::Done(Driven::AwaitingApproval));
            }
            return (out, Next::Turn);
        }
        let call = self.calls[self.at].clone();
        assert(call@ == self@.calls[self@.at as int]);
        self.counters.tool_calls_by_kind.count(call.function_name.as_str());
        self.at = self.at + 1;
        match self.gate.try_pass(now) {
            GateDecision::Proceed => self.dispatch(&call, ts),
            GateDecision::TurnLimitExceeded => {
                let cap = cat3(
                    "turn_tool_call_limit=",
                    decimal_of(self.gate.turn_limit() as u64).as_str(),
                    " exceeded",
                );
                self.refuse(
                    call.id.as_str(),
                    cat("[cap] ", cap.as_str()),
                    tool_error_json(
                        "turn_tool_call_limit_exceeded",
                        cat(cap.as_str(), " in this turn").as_str(),
                    ),
                    ts,
                )
            },
            GateDecision::RateLimitExceeded => {
                let cap = match self.gate.rate() {
                    Some(rate) => {
                        let mut cap = cat3(
                            "tool_call_rate=",
                            decimal_of(rate.calls as u64).as_str(),
                            "/",
                        );
                        cap.append(decimal_of(rate.window.as_secs()).as_str());
                        cap.append("s exceeded");
                        cap
                    },
                    None => String::new(),
                };
                self.refuse(
                    call.id.as_str(),
                    cat("[cap] ", cap.as_str()),
                    tool_error_json("tool_call_rate_exceeded", cap.as_str()),
                    ts,
                )
            },
            GateDecision::SessionExhausted => {
                let line = match self.gate.session_max() {
                    Some(max) => cat3(
                        "[cap] session_tool_call_max=",
                        decimal_of(max as u64).as_str(),
                        " exhausted; ending invocation",
                    ),
                    None => String::new(),
                };
                let mut out: Vec<Effect> = Vec::new();
                note(&mut out, line);
                assert(deep(out@) =~= seq![EffectModel::Note(line@)]);
                (out, Next::Done(Driven::SessionToolCallExhausted))
            },
        }
    }
}

/// A copy of a list of calls that wait.
fn clone_pending(v: &Vec<Pending>) -> (r: Vec<Pending>)
    ensures
        deep(r@) == deep(v@),
{
    let mut out: Vec<Pending> = Vec::new();
    let mut i: usize = 0;
    while i < v.len()
        invariant
            i <= v@.len(),
            out@.len() == i,
            forall|k: int| 0 <= k < i ==> (#[trigger] out@[k])@ == v@[k]@,
        decreases v@.len() - i,
    {
        out.push(v[i].clone());
        i = i + 1;
    }
    assert(deep(out@) =~= deep(v@));
    out
}

} // verus!
