//! What a session keeps of a conversation.
use vstd::prelude::*;
use vstd::string::*;

use crate::model::{deep, maybe};
use crate::sansio::deepseek::{CallModel, ChatMessage, MessageModel, ToolCall, Usage};
use crate::text::views;

verus! {

/// A message with the time at which it was recorded, in milliseconds.
#[derive(Debug, PartialEq, Eq)]
pub struct ChatMessageWithTs {
    pub message: ChatMessage,
    pub ts: u64,
}

/// The messages of records.
pub open spec fn messages_of(records: Seq<ChatMessageWithTs>) -> Seq<MessageModel> {
    records.map_values(|r: ChatMessageWithTs| r.message@)
}

/// What was decided about a tool call.
#[derive(Debug, Clone, Copy, PartialEq, Eq, Structural)]
pub enum ApprovalDecision {
    Approve,
    Reject,
}

/// What decided about a tool call in place of the user.
#[derive(Debug, PartialEq, Eq)]
pub struct AutoDecidedBy {
    pub scope: String,
    pub argv_prefix: Vec<String>,
    pub reason: String,
}

/// An [`AutoDecidedBy`] as a mathematical value.
#[verifier::ext_equal]
pub struct AutoDecidedModel {
    pub scope: Seq<char>,
    pub argv_prefix: Seq<Seq<char>>,
    pub reason: Seq<char>,
}

impl View for AutoDecidedBy {
    type V = AutoDecidedModel;

    open spec fn view(&self) -> AutoDecidedModel {
        AutoDecidedModel {
            scope: self.scope@,
            argv_prefix: views(self.argv_prefix@),
            reason: self.reason@,
        }
    }
}

/// Why an invocation ended.
#[derive(Debug, Clone, Copy, PartialEq, Eq, Structural)]
pub enum InvocationEndReason {
    Completed,
    AwaitingApproval,
    SessionToolCallExhausted,
    Error,
}

/// The kinds of tools that wait for approval.
#[derive(Debug, Clone, Copy, PartialEq, Eq, Structural)]
pub enum PendingToolKind {
    Patch,
    Command,
}

/// A tool call that waits for approval.
#[derive(Debug, PartialEq, Eq)]
pub struct Pending {
    pub ts: u64,
    pub call_id: String,
    pub tool_kind: PendingToolKind,
    pub function_name: String,
    pub arguments_json: String,
    /// What the user is shown of it.
    pub preview: String,
}

/// A [`Pending`] as a mathematical value.
#[verifier::ext_equal]
pub struct PendingModel {
    pub ts: u64,
    pub call_id: Seq<char>,
    pub tool_kind: PendingToolKind,
    pub function_name: Seq<char>,
    pub arguments_json: Seq<char>,
    pub preview: Seq<char>,
}

impl View for Pending {
    type V = PendingModel;

    open spec fn view(&self) -> PendingModel {
        PendingModel {
            ts: self.ts,
            call_id: self.call_id@,
            tool_kind: self.tool_kind,
            function_name: self.function_name@,
            arguments_json: self.arguments_json@,
            preview: self.preview@,
        }
    }
}

impl Clone for Pending {
    fn clone(&self) -> (r: Self)
        ensures
            r@ == self@,
    {
        Pending {
            ts: self.ts,
            call_id: self.call_id.clone(),
            tool_kind: self.tool_kind,
            function_name: self.function_name.clone(),
            arguments_json: self.arguments_json.clone(),
            preview: self.preview.clone(),
        }
    }
}

/// A record of a session. Each has the time at which it was made, in
/// milliseconds.
#[derive(Debug, PartialEq, Eq)]
pub enum SessionRecord {
    InvocationStart { ts: u64, attini_version: String, model: String },
    User { ts: u64, text: String },
    Assistant { ts: u64, content: String, reasoning: Option<String>, tool_calls: Vec<ToolCall> },
    Tool { ts: u64, call_id: String, content: String },
    ToolApproval {
        ts: u64,
        call_id: String,
        decision: ApprovalDecision,
        auto_decided_by: Option<AutoDecidedBy>,
    },
    TokenUsage { ts: u64, body: Usage },
    Summary { ts: u64, since_ts: u64, cutoff_ts: u64, text: String },
    MetricsSnapshot { ts: u64, entries: Vec<(String, u64)> },
    InvocationEnd { ts: u64, reason: InvocationEndReason },
    PlanApproved { ts: u64, path: String, plan_sha256: String },
}

/// A [`SessionRecord`] as a mathematical value.
#[verifier::ext_equal]
pub enum RecordModel {
    InvocationStart { ts: u64, attini_version: Seq<char>, model: Seq<char> },
    User { ts: u64, text: Seq<char> },
    Assistant {
        ts: u64,
        content: Seq<char>,
        reasoning: Option<Seq<char>>,
        tool_calls: Seq<CallModel>,
    },
    Tool { ts: u64, call_id: Seq<char>, content: Seq<char> },
    ToolApproval {
        ts: u64,
        call_id: Seq<char>,
        decision: ApprovalDecision,
        auto_decided_by: Option<AutoDecidedModel>,
    },
    TokenUsage { ts: u64, body: Usage },
    Summary { ts: u64, since_ts: u64, cutoff_ts: u64, text: Seq<char> },
    MetricsSnapshot { ts: u64, entries: Seq<(Seq<char>, u64)> },
    InvocationEnd { ts: u64, reason: InvocationEndReason },
    PlanApproved { ts: u64, path: Seq<char>, plan_sha256: Seq<char> },
}

/// Names with numbers, as mathematical values.
pub open spec fn entries_of(v: Seq<(String, u64)>) -> Seq<(Seq<char>, u64)> {
    v.map_values(|e: (String, u64)| (e.0@, e.1))
}

impl View for SessionRecord {
    type V = RecordModel;

    open spec fn view(&self) -> RecordModel {
        match self {
            SessionRecord::InvocationStart { ts, attini_version, model } => {
                RecordModel::InvocationStart {
                    ts: *ts,
                    attini_version: attini_version@,
                    model: model@,
                }
            },
            SessionRecord::User { ts, text } => RecordModel::User { ts: *ts, text: text@ },
            SessionRecord::Assistant { ts, content, reasoning, tool_calls } => {
                RecordModel::Assistant {
                    ts: *ts,
                    content: content@,
                    reasoning: maybe(*reasoning),
                    tool_calls: deep(tool_calls@),
                }
            },
            SessionRecord::Tool { ts, call_id, content } => RecordModel::Tool {
                ts: *ts,
                call_id: call_id@,
                content: content@,
            },
            SessionRecord::ToolApproval { ts, call_id, decision, auto_decided_by } => {
                RecordModel::ToolApproval {
                    ts: *ts,
                    call_id: call_id@,
                    decision: *decision,
                    auto_decided_by: maybe(*auto_decided_by),
                }
            },
            SessionRecord::TokenUsage { ts, body } => RecordModel::TokenUsage {
                ts: *ts,
                body: *body,
            },
            SessionRecord::Summary { ts, since_ts, cutoff_ts, text } => RecordModel::Summary {
                ts: *ts,
                since_ts: *since_ts,
                cutoff_ts: *cutoff_ts,
                text: text@,
            },
            SessionRecord::MetricsSnapshot { ts, entries } => RecordModel::MetricsSnapshot {
                ts: *ts,
                entries: entries_of(entries@),
            },
            SessionRecord::InvocationEnd { ts, reason } => RecordModel::InvocationEnd {
                ts: *ts,
                reason: *reason,
            },
            SessionRecord::PlanApproved { ts, path, plan_sha256 } => RecordModel::PlanApproved {
                ts: *ts,
                path: path@,
                plan_sha256: plan_sha256@,
            },
        }
    }
}

} // verus!
