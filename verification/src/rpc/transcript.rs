//! What a client is told of a session, and a transcript keeps of it.
use vstd::prelude::*;
use vstd::string::*;

use crate::model::{deep, maybe};
use crate::sansio::agent::types::CommandOutputStream;
use crate::sansio::deepseek::{CallModel, ToolCall};
use crate::session::ApprovalDecision;
use crate::text::views;

verus! {

/// Why a session ended.
#[derive(Debug, Clone, Copy, PartialEq, Eq, Structural)]
pub enum SessionEndReason {
    UserQuit,
    Eof,
}

/// The kinds of tools that wait for approval.
#[derive(Debug, Clone, Copy, PartialEq, Eq, Structural)]
pub enum ApprovalKind {
    Patch,
    Command,
}

/// One thing that happened in a session, with the time in milliseconds.
#[derive(Debug, PartialEq, Eq)]
pub enum TranscriptRecord {
    SessionStart { ts: u64, attini_version: String, model: String, workspace: String },
    SessionEnd { ts: u64, reason: SessionEndReason },
    UserMessage { ts: u64, text: String },
    AssistantMessage {
        ts: u64,
        content: String,
        reasoning: Option<String>,
        tool_calls: Vec<ToolCall>,
    },
    ToolResult { ts: u64, call_id: String, content: String },
    ToolApprovalRequired { ts: u64, call_id: String, tool_kind: ApprovalKind },
    ToolApproval { ts: u64, call_id: String, decision: ApprovalDecision },
    PatchPreviewReady {
        ts: u64,
        call_id: String,
        target_paths: Vec<String>,
        added_lines: u64,
        removed_lines: u64,
        edit_count: u64,
    },
    CommandOutputChunk { ts: u64, call_id: String, stream: CommandOutputStream, bytes: Vec<u8> },
    Finish { ts: u64, reason: Option<String> },
    Cancel { ts: u64 },
    TransportError { ts: u64, message: String },
}

/// A [`TranscriptRecord`] as a mathematical value.
#[verifier::ext_equal]
pub enum TranscriptModel {
    SessionStart { ts: u64, attini_version: Seq<char>, model: Seq<char>, workspace: Seq<char> },
    SessionEnd { ts: u64, reason: SessionEndReason },
    UserMessage { ts: u64, text: Seq<char> },
    AssistantMessage {
        ts: u64,
        content: Seq<char>,
        reasoning: Option<Seq<char>>,
        tool_calls: Seq<CallModel>,
    },
    ToolResult { ts: u64, call_id: Seq<char>, content: Seq<char> },
    ToolApprovalRequired { ts: u64, call_id: Seq<char>, tool_kind: ApprovalKind },
    ToolApproval { ts: u64, call_id: Seq<char>, decision: ApprovalDecision },
    PatchPreviewReady {
        ts: u64,
        call_id: Seq<char>,
        target_paths: Seq<Seq<char>>,
        added_lines: u64,
        removed_lines: u64,
        edit_count: u64,
    },
    CommandOutputChunk {
        ts: u64,
        call_id: Seq<char>,
        stream: CommandOutputStream,
        bytes: Seq<u8>,
    },
    Finish { ts: u64, reason: Option<Seq<char>> },
    Cancel { ts: u64 },
    TransportError { ts: u64, message: Seq<char> },
}

impl View for TranscriptRecord {
    type V = TranscriptModel;

    open spec fn view(&self) -> TranscriptModel {
        match self {
            TranscriptRecord::SessionStart { ts, attini_version, model, workspace } => {
                TranscriptModel::SessionStart {
                    ts: *ts,
                    attini_version: attini_version@,
                    model: model@,
                    workspace: workspace@,
                }
            },
            TranscriptRecord::SessionEnd { ts, reason } => TranscriptModel::SessionEnd {
                ts: *ts,
                reason: *reason,
            },
            TranscriptRecord::UserMessage { ts, text } => TranscriptModel::UserMessage {
                ts: *ts,
                text: text@,
            },
            TranscriptRecord::AssistantMessage { ts, content, reasoning, tool_calls } => {
                TranscriptModel::AssistantMessage {
                    ts: *ts,
                    content: content@,
                    reasoning: maybe(*reasoning),
                    tool_calls: deep(tool_calls@),
                }
            },
            TranscriptRecord::ToolResult { ts, call_id, content } => TranscriptModel::ToolResult {
                ts: *ts,
                call_id: call_id@,
                content: content@,
            },
            TranscriptRecord::ToolApprovalRequired { ts, call_id, tool_kind } => {
                TranscriptModel::ToolApprovalRequired {
                    ts: *ts,
                    call_id: call_id@,
                    tool_kind: *tool_kind,
                }
            },
            TranscriptRecord::ToolApproval { ts, call_id, decision } => {
                TranscriptModel::ToolApproval { ts: *ts, call_id: call_id@, decision: *decision }
            },
            TranscriptRecord::PatchPreviewReady {
                ts,
                call_id,
                target_paths,
                added_lines,
                removed_lines,
                edit_count,
            } => TranscriptModel::PatchPreviewReady {
                ts: *ts,
                call_id: call_id@,
                target_paths: views(target_paths@),
                added_lines: *added_lines,
                removed_lines: *removed_lines,
                edit_count: *edit_count,
            },
            TranscriptRecord::CommandOutputChunk { ts, call_id, stream, bytes } => {
                TranscriptModel::CommandOutputChunk {
                    ts: *ts,
                    call_id: call_id@,
                    stream: *stream,
                    bytes: bytes@,
                }
            },
            TranscriptRecord::Finish { ts, reason } => TranscriptModel::Finish {
                ts: *ts,
                reason: maybe(*reason),
            },
            TranscriptRecord::Cancel { ts } => TranscriptModel::Cancel { ts: *ts },
            TranscriptRecord::TransportError { ts, message } => TranscriptModel::TransportError {
                ts: *ts,
                message: message@,
            },
        }
    }
}

} // verus!
