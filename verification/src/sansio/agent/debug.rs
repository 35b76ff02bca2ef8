//! Errors as they are shown for diagnosis: their names with what they hold.
use vstd::prelude::*;
use vstd::string::*;

use super::errors::{
    CommandError, CommandErrorModel, PatchError, PatchErrorModel, ToolErrorModel,
    ToolExecutionError,
};
use crate::text::{cat3, debug_of, debug_text, decimal, decimal_of};

verus! {

/// A name with one field, in braces.
pub open spec fn record(name: Seq<char>, key: Seq<char>, value: Seq<char>) -> Seq<char> {
    name + " { "@ + key + ": "@ + value + " }"@
}

/// A name with two fields, in braces.
pub open spec fn record2(
    name: Seq<char>,
    key: Seq<char>,
    value: Seq<char>,
    key2: Seq<char>,
    value2: Seq<char>,
) -> Seq<char> {
    name + " { "@ + key + ": "@ + value + ", "@ + key2 + ": "@ + value2 + " }"@
}

fn write_record(name: &str, key: &str, value: &str) -> (r: String)
    ensures
        r@ == record(name@, key@, value@),
{
    let mut out = name.to_owned();
    out.append(" { ");
    out.append(key);
    out.append(": ");
    out.append(value);
    out.append(" }");
    out
}

fn write_record2(name: &str, key: &str, value: &str, key2: &str, value2: &str) -> (r: String)
    ensures
        r@ == record2(name@, key@, value@, key2@, value2@),
{
    let mut out = name.to_owned();
    out.append(" { ");
    out.append(key);
    out.append(": ");
    out.append(value);
    out.append(", ");
    out.append(key2);
    out.append(": ");
    out.append(value2);
    out.append(" }");
    out
}

/// A patch error as it is shown for diagnosis, with its fields.
pub open spec fn patch_error_debug(e: PatchErrorModel) -> Seq<char> {
    match e {
        PatchErrorModel::Rejected => "Rejected"@,
        PatchErrorModel::Conflict { path } => record("Conflict"@, "path"@, debug_text(path)),
        PatchErrorModel::NoMatch { path } => record("NoMatch"@, "path"@, debug_text(path)),
        PatchErrorModel::AmbiguousMatch { path, match_count } => record2(
            "AmbiguousMatch"@,
            "path"@,
            debug_text(path),
            "match_count"@,
            decimal(match_count as nat),
        ),
        PatchErrorModel::AddOnExistingFile { path } => record("AddOnExistingFile"@, "path"@, debug_text(path)),
        PatchErrorModel::ParentDirMissing { path } => record("ParentDirMissing"@, "path"@, debug_text(path)),
        PatchErrorModel::UpdateOnMissingFile { path } => record("UpdateOnMissingFile"@, "path"@, debug_text(path)),
        PatchErrorModel::OutsideWorkspace { path } => record("OutsideWorkspace"@, "path"@, debug_text(path)),
        PatchErrorModel::ExcludedPath { path, reason } => record2(
            "ExcludedPath"@,
            "path"@,
            debug_text(path),
            "reason"@,
            debug_text(reason),
        ),
        PatchErrorModel::UntrackedTarget { path } => record("UntrackedTarget"@, "path"@, debug_text(path)),
        PatchErrorModel::IgnoredParent { path } => record("IgnoredParent"@, "path"@, debug_text(path)),
        PatchErrorModel::NotInGitRepo { path } => record("NotInGitRepo"@, "path"@, debug_text(path)),
        PatchErrorModel::TooManyEdits { count } => record(
            "TooManyEdits"@,
            "count"@,
            decimal(count as nat),
        ),
        PatchErrorModel::MultipleEditsSamePath { path } => record("MultipleEditsSamePath"@, "path"@, debug_text(path)),
        PatchErrorModel::FileTooLarge { path } => record("FileTooLarge"@, "path"@, debug_text(path)),
        PatchErrorModel::IoError { path, message } => record2(
            "IoError"@,
            "path"@,
            debug_text(path),
            "message"@,
            debug_text(message),
        ),
        PatchErrorModel::CrossDeviceRename { path } => record("CrossDeviceRename"@, "path"@, debug_text(path)),
    }
}

/// Writes a patch error for diagnosis.
pub fn debug_patch_error(e: &PatchError) -> (r: String)
    ensures
        r@ == patch_error_debug(e@),
{
    match e {
        PatchError::Rejected => "Rejected".to_owned(),
        PatchError::Conflict { path } => write_record(
            "Conflict",
            "path",
            debug_of(path.as_str()).as_str(),
        ),
        PatchError::NoMatch { path } => write_record(
            "NoMatch",
            "path",
            debug_of(path.as_str()).as_str(),
        ),
        PatchError::AmbiguousMatch { path, match_count } => write_record2(
            "AmbiguousMatch",
            "path",
            debug_of(path.as_str()).as_str(),
            "match_count",
            decimal_of(*match_count).as_str(),
        ),
        PatchError::AddOnExistingFile { path } => write_record(
            "AddOnExistingFile",
            "path",
            debug_of(path.as_str()).as_str(),
        ),
        PatchError::ParentDirMissing { path } => write_record(
            "ParentDirMissing",
            "path",
            debug_of(path.as_str()).as_str(),
        ),
        PatchError::UpdateOnMissingFile { path } => write_record(
            "UpdateOnMissingFile",
            "path",
            debug_of(path.as_str()).as_str(),
        ),
        PatchError::OutsideWorkspace { path } => write_record(
            "OutsideWorkspace",
            "path",
            debug_of(path.as_str()).as_str(),
        ),
        PatchError::ExcludedPath { path, reason } => write_record2(
            "ExcludedPath",
            "path",
            debug_of(path.as_str()).as_str(),
            "reason",
            debug_of(reason.as_str()).as_str(),
        ),
        PatchError::UntrackedTarget { path } => write_record(
            "UntrackedTarget",
            "path",
            debug_of(path.as_str()).as_str(),
        ),
        PatchError::IgnoredParent { path } => write_record(
            "IgnoredParent",
            "path",
            debug_of(path.as_str()).as_str(),
        ),
        PatchError::NotInGitRepo { path } => write_record(
            "NotInGitRepo",
            "path",
            debug_of(path.as_str()).as_str(),
        ),
        PatchError::TooManyEdits { count } => write_record(
            "TooManyEdits",
            "count",
            decimal_of(*count).as_str(),
        ),
        PatchError::MultipleEditsSamePath { path } => write_record(
            "MultipleEditsSamePath",
            "path",
            debug_of(path.as_str()).as_str(),
        ),
        PatchError::FileTooLarge { path } => write_record(
            "FileTooLarge",
            "path",
            debug_of(path.as_str()).as_str(),
        ),
        PatchError::IoError { path, message } => write_record2(
            "IoError",
            "path",
            debug_of(path.as_str()).as_str(),
            "message",
            debug_of(message.as_str()).as_str(),
        ),
        PatchError::CrossDeviceRename { path } => write_record(
            "CrossDeviceRename",
            "path",
            debug_of(path.as_str()).as_str(),
        ),
    }
}

/// A command error as it is shown for diagnosis, with its fields.
pub open spec fn command_error_debug(e: CommandErrorModel) -> Seq<char> {
    match e {
        CommandErrorModel::Rejected => "Rejected"@,
        CommandErrorModel::SpawnFailed { message } => record(
            "SpawnFailed"@,
            "message"@,
            debug_text(message),
        ),
        CommandErrorModel::EmptyArgv => "EmptyArgv"@,
    }
}

/// Writes a command error for diagnosis.
pub fn debug_command_error(e: &CommandError) -> (r: String)
    ensures
        r@ == command_error_debug(e@),
{
    match e {
        CommandError::Rejected => "Rejected".to_owned(),
        CommandError::SpawnFailed { message } => write_record(
            "SpawnFailed",
            "message",
            debug_of(message.as_str()).as_str(),
        ),
        CommandError::EmptyArgv => "EmptyArgv".to_owned(),
    }
}

/// A tool error as it is shown for diagnosis, with its fields.
pub open spec fn tool_error_debug(e: ToolErrorModel) -> Seq<char> {
    match e {
        ToolErrorModel::OutsideWorkspace => "OutsideWorkspace"@,
        ToolErrorModel::NotUtf8 => "NotUtf8"@,
        ToolErrorModel::Binary => "Binary"@,
        ToolErrorModel::IoError(s) => "IoError("@ + debug_text(s) + ")"@,
        ToolErrorModel::ArgumentsParseFailed(s) => "ArgumentsParseFailed("@ + debug_text(s) + ")"@,
        ToolErrorModel::ArgumentsTooLarge => "ArgumentsTooLarge"@,
        ToolErrorModel::UnknownTool => "UnknownTool"@,
        ToolErrorModel::TurnToolCallLimitExceeded => "TurnToolCallLimitExceeded"@,
        ToolErrorModel::Patch(e) => "Patch("@ + patch_error_debug(e) + ")"@,
        ToolErrorModel::Command(e) => "Command("@ + command_error_debug(e) + ")"@,
    }
}

/// Writes a tool error for diagnosis.
pub fn debug_tool_error(e: &ToolExecutionError) -> (r: String)
    ensures
        r@ == tool_error_debug(e@),
{
    match e {
        ToolExecutionError::OutsideWorkspace => "OutsideWorkspace".to_owned(),
        ToolExecutionError::NotUtf8 => "NotUtf8".to_owned(),
        ToolExecutionError::Binary => "Binary".to_owned(),
        ToolExecutionError::IoError(s) => cat3("IoError(", debug_of(s.as_str()).as_str(), ")"),
        ToolExecutionError::ArgumentsParseFailed(s) => cat3(
            "ArgumentsParseFailed(",
            debug_of(s.as_str()).as_str(),
            ")",
        ),
        ToolExecutionError::ArgumentsTooLarge => "ArgumentsTooLarge".to_owned(),
        ToolExecutionError::UnknownTool => "UnknownTool".to_owned(),
        ToolExecutionError::TurnToolCallLimitExceeded => "TurnToolCallLimitExceeded".to_owned(),
        ToolExecutionError::Patch(e) => cat3("Patch(", debug_patch_error(e).as_str(), ")"),
        ToolExecutionError::Command(e) => cat3("Command(", debug_command_error(e).as_str(), ")"),
    }
}

} // verus!
