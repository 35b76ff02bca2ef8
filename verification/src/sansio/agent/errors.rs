//! What goes wrong with a tool call, and what the model is told about it.
use vstd::prelude::*;
use vstd::string::*;

use super::{ARGUMENTS_MAX_BYTES, PATCH_MAX_EDITS, PATCH_MAX_FILE_BYTES, TURN_TOOL_CALL_LIMIT};
use crate::agent_cli::telling::holds_text;
use crate::json::{quote, quoted, quoted_or_null};
use crate::text::{cat, cat3, decimal, decimal_of};

verus! {

/// Result of executing a tool on behalf of the model.
#[derive(Debug, PartialEq, Eq)]
pub enum ToolOutcome {
    Success(String),
    Failure(ToolExecutionError),
}

/// A [`ToolOutcome`] as a mathematical value.
#[verifier::ext_equal]
pub enum OutcomeModel {
    Success(Seq<char>),
    Failure(ToolErrorModel),
}

impl View for ToolOutcome {
    type V = OutcomeModel;

    open spec fn view(&self) -> OutcomeModel {
        match self {
            ToolOutcome::Success(s) => OutcomeModel::Success(s@),
            ToolOutcome::Failure(e) => OutcomeModel::Failure(e@),
        }
    }
}

impl Clone for ToolOutcome {
    fn clone(&self) -> (r: Self)
        ensures
            r@ == self@,
    {
        match self {
            ToolOutcome::Success(s) => ToolOutcome::Success(s.clone()),
            ToolOutcome::Failure(e) => ToolOutcome::Failure(e.clone()),
        }
    }
}

/// Reasons why a tool invocation could not succeed.
#[derive(Debug, PartialEq, Eq)]
pub enum ToolExecutionError {
    OutsideWorkspace,
    NotUtf8,
    Binary,
    IoError(String),
    ArgumentsParseFailed(String),
    ArgumentsTooLarge,
    UnknownTool,
    TurnToolCallLimitExceeded,
    /// Failure of a patch invocation.
    Patch(PatchError),
    /// Failure of a command invocation before the child process produced
    /// meaningful output.
    Command(CommandError),
}

/// A [`ToolExecutionError`] as a mathematical value.
#[verifier::ext_equal]
pub enum ToolErrorModel {
    OutsideWorkspace,
    NotUtf8,
    Binary,
    IoError(Seq<char>),
    ArgumentsParseFailed(Seq<char>),
    ArgumentsTooLarge,
    UnknownTool,
    TurnToolCallLimitExceeded,
    Patch(PatchErrorModel),
    Command(CommandErrorModel),
}

impl View for ToolExecutionError {
    type V = ToolErrorModel;

    open spec fn view(&self) -> ToolErrorModel {
        match self {
            ToolExecutionError::OutsideWorkspace => ToolErrorModel::OutsideWorkspace,
            ToolExecutionError::NotUtf8 => ToolErrorModel::NotUtf8,
            ToolExecutionError::Binary => ToolErrorModel::Binary,
            ToolExecutionError::IoError(s) => ToolErrorModel::IoError(s@),
            ToolExecutionError::ArgumentsParseFailed(s) => ToolErrorModel::ArgumentsParseFailed(s@),
            ToolExecutionError::ArgumentsTooLarge => ToolErrorModel::ArgumentsTooLarge,
            ToolExecutionError::UnknownTool => ToolErrorModel::UnknownTool,
            ToolExecutionError::TurnToolCallLimitExceeded =>
                ToolErrorModel::TurnToolCallLimitExceeded,
            ToolExecutionError::Patch(e) => ToolErrorModel::Patch(e@),
            ToolExecutionError::Command(e) => ToolErrorModel::Command(e@),
        }
    }
}

impl Clone for ToolExecutionError {
    fn clone(&self) -> (r: Self)
        ensures
            r@ == self@,
    {
        match self {
            ToolExecutionError::OutsideWorkspace => ToolExecutionError::OutsideWorkspace,
            ToolExecutionError::NotUtf8 => ToolExecutionError::NotUtf8,
            ToolExecutionError::Binary => ToolExecutionError::Binary,
            ToolExecutionError::IoError(s) => ToolExecutionError::IoError(s.clone()),
            ToolExecutionError::ArgumentsParseFailed(s) => ToolExecutionError::ArgumentsParseFailed(
                s.clone(),
            ),
            ToolExecutionError::ArgumentsTooLarge => ToolExecutionError::ArgumentsTooLarge,
            ToolExecutionError::UnknownTool => ToolExecutionError::UnknownTool,
            ToolExecutionError::TurnToolCallLimitExceeded =>
                ToolExecutionError::TurnToolCallLimitExceeded,
            ToolExecutionError::Patch(e) => ToolExecutionError::Patch(e.clone()),
            ToolExecutionError::Command(e) => ToolExecutionError::Command(e.clone()),
        }
    }
}

/// Failure modes of patch invocations.
#[derive(Debug, PartialEq, Eq)]
pub enum PatchError {
    /// The user rejected the preview.
    Rejected,
    /// The target file changed between preview and apply.
    Conflict { path: String },
    /// `Update.before` matched nowhere in the target file.
    NoMatch { path: String },
    /// `Update.before` matched more than once in the target file.
    AmbiguousMatch { path: String, match_count: u64 },
    /// The target of an `Add` exists already.
    AddOnExistingFile { path: String },
    /// The parent directory of an `Add` target does not exist.
    ParentDirMissing { path: String },
    /// The target of an `Update` does not exist.
    UpdateOnMissingFile { path: String },
    /// The resolved path escapes the workspace root.
    OutsideWorkspace { path: String },
    /// The target is a runtime-critical file.
    ExcludedPath { path: String, reason: String },
    /// The target is not tracked by git.
    UntrackedTarget { path: String },
    /// The parent directory of the new file is ignored by git.
    IgnoredParent { path: String },
    /// The workspace is not inside a git repository.
    NotInGitRepo { path: String },
    /// There were more than [`PATCH_MAX_EDITS`] edits.
    TooManyEdits { count: u64 },
    /// Two edits of one call named the same target path.
    MultipleEditsSamePath { path: String },
    /// The affected file exceeds [`PATCH_MAX_FILE_BYTES`].
    FileTooLarge { path: String },
    /// Filesystem I/O failed during preview or apply.
    IoError { path: String, message: String },
    /// The rename would cross devices.
    CrossDeviceRename { path: String },
}

/// A [`PatchError`] as a mathematical value.
#[verifier::ext_equal]
pub enum PatchErrorModel {
    Rejected,
    Conflict { path: Seq<char> },
    NoMatch { path: Seq<char> },
    AmbiguousMatch { path: Seq<char>, match_count: u64 },
    AddOnExistingFile { path: Seq<char> },
    ParentDirMissing { path: Seq<char> },
    UpdateOnMissingFile { path: Seq<char> },
    OutsideWorkspace { path: Seq<char> },
    ExcludedPath { path: Seq<char>, reason: Seq<char> },
    UntrackedTarget { path: Seq<char> },
    IgnoredParent { path: Seq<char> },
    NotInGitRepo { path: Seq<char> },
    TooManyEdits { count: u64 },
    MultipleEditsSamePath { path: Seq<char> },
    FileTooLarge { path: Seq<char> },
    IoError { path: Seq<char>, message: Seq<char> },
    CrossDeviceRename { path: Seq<char> },
}

impl View for PatchError {
    type V = PatchErrorModel;

    open spec fn view(&self) -> PatchErrorModel {
        match self {
            PatchError::Rejected => PatchErrorModel::Rejected,
            PatchError::Conflict { path } => PatchErrorModel::Conflict { path: path@ },
            PatchError::NoMatch { path } => PatchErrorModel::NoMatch { path: path@ },
            PatchError::AmbiguousMatch { path, match_count } => PatchErrorModel::AmbiguousMatch {
                path: path@,
                match_count: *match_count,
            },
            PatchError::AddOnExistingFile { path } => PatchErrorModel::AddOnExistingFile {
                path: path@,
            },
            PatchError::ParentDirMissing { path } => PatchErrorModel::ParentDirMissing {
                path: path@,
            },
            PatchError::UpdateOnMissingFile { path } => PatchErrorModel::UpdateOnMissingFile {
                path: path@,
            },
            PatchError::OutsideWorkspace { path } => PatchErrorModel::OutsideWorkspace {
                path: path@,
            },
            PatchError::ExcludedPath { path, reason } => PatchErrorModel::ExcludedPath {
                path: path@,
                reason: reason@,
            },
            PatchError::UntrackedTarget { path } => PatchErrorModel::UntrackedTarget {
                path: path@,
            },
            PatchError::IgnoredParent { path } => PatchErrorModel::IgnoredParent { path: path@ },
            PatchError::NotInGitRepo { path } => PatchErrorModel::NotInGitRepo { path: path@ },
            PatchError::TooManyEdits { count } => PatchErrorModel::TooManyEdits { count: *count },
            PatchError::MultipleEditsSamePath { path } => PatchErrorModel::MultipleEditsSamePath {
                path: path@,
            },
            PatchError::FileTooLarge { path } => PatchErrorModel::FileTooLarge { path: path@ },
            PatchError::IoError { path, message } => PatchErrorModel::IoError {
                path: path@,
                message: message@,
            },
            PatchError::CrossDeviceRename { path } => PatchErrorModel::CrossDeviceRename {
                path: path@,
            },
        }
    }
}

impl Clone for PatchError {
    fn clone(&self) -> (r: Self)
        ensures
            r@ == self@,
    {
        match self {
            PatchError::Rejected => PatchError::Rejected,
            PatchError::Conflict { path } => PatchError::Conflict { path: path.clone() },
            PatchError::NoMatch { path } => PatchError::NoMatch { path: path.clone() },
            PatchError::AmbiguousMatch { path, match_count } => PatchError::AmbiguousMatch {
                path: path.clone(),
                match_count: *match_count,
            },
            PatchError::AddOnExistingFile { path } => PatchError::AddOnExistingFile {
                path: path.clone(),
            },
            PatchError::ParentDirMissing { path } => PatchError::ParentDirMissing {
                path: path.clone(),
            },
            PatchError::UpdateOnMissingFile { path } => PatchError::UpdateOnMissingFile {
                path: path.clone(),
            },
            PatchError::OutsideWorkspace { path } => PatchError::OutsideWorkspace {
                path: path.clone(),
            },
            PatchError::ExcludedPath { path, reason } => PatchError::ExcludedPath {
                path: path.clone(),
                reason: reason.clone(),
            },
            PatchError::UntrackedTarget { path } => PatchError::UntrackedTarget {
                path: path.clone(),
            },
            PatchError::IgnoredParent { path } => PatchError::IgnoredParent { path: path.clone() },
            PatchError::NotInGitRepo { path } => PatchError::NotInGitRepo { path: path.clone() },
            PatchError::TooManyEdits { count } => PatchError::TooManyEdits { count: *count },
            PatchError::MultipleEditsSamePath { path } => PatchError::MultipleEditsSamePath {
                path: path.clone(),
            },
            PatchError::FileTooLarge { path } => PatchError::FileTooLarge { path: path.clone() },
            PatchError::IoError { path, message } => PatchError::IoError {
                path: path.clone(),
                message: message.clone(),
            },
            PatchError::CrossDeviceRename { path } => PatchError::CrossDeviceRename {
                path: path.clone(),
            },
        }
    }
}

/// The machine-readable code of a patch error.
pub open spec fn patch_error_code(e: PatchErrorModel) -> Seq<char> {
    match e {
        PatchErrorModel::Rejected => "patch_rejected"@,
        PatchErrorModel::Conflict { .. } => "patch_conflict"@,
        PatchErrorModel::NoMatch { .. } => "patch_no_match"@,
        PatchErrorModel::AmbiguousMatch { .. } => "patch_ambiguous_match"@,
        PatchErrorModel::AddOnExistingFile { .. } => "patch_add_on_existing_file"@,
        PatchErrorModel::ParentDirMissing { .. } => "patch_parent_dir_missing"@,
        PatchErrorModel::UpdateOnMissingFile { .. } => "patch_update_on_missing_file"@,
        PatchErrorModel::OutsideWorkspace { .. } => "patch_outside_workspace"@,
        PatchErrorModel::ExcludedPath { .. } => "patch_excluded_path"@,
        PatchErrorModel::UntrackedTarget { .. } => "patch_untracked_target"@,
        PatchErrorModel::IgnoredParent { .. } => "patch_ignored_parent"@,
        PatchErrorModel::NotInGitRepo { .. } => "patch_not_in_git_repo"@,
        PatchErrorModel::TooManyEdits { .. } => "patch_too_many_edits"@,
        PatchErrorModel::MultipleEditsSamePath { .. } => "patch_multiple_edits_same_path"@,
        PatchErrorModel::FileTooLarge { .. } => "patch_file_too_large"@,
        PatchErrorModel::IoError { .. } => "patch_io_error"@,
        PatchErrorModel::CrossDeviceRename { .. } => "patch_cross_device_rename"@,
    }
}

/// What a patch error says in words.
pub open spec fn patch_error_message(e: PatchErrorModel) -> Seq<char> {
    match e {
        PatchErrorModel::Rejected => "user rejected the patch preview"@,
        PatchErrorModel::Conflict { path } =>
            "target file changed between preview and apply: "@ + path,
        PatchErrorModel::NoMatch { path } => "`before` did not match any content in "@ + path,
        PatchErrorModel::AmbiguousMatch { path, match_count } => "`before` matched "@ + decimal(
            match_count as nat,
        ) + " places in "@ + path + "; expected exactly 1"@,
        PatchErrorModel::AddOnExistingFile { path } => "cannot add: file already exists at "@
            + path,
        PatchErrorModel::ParentDirMissing { path } => "parent directory does not exist for "@
            + path,
        PatchErrorModel::UpdateOnMissingFile { path } =>
            "cannot update: file does not exist at "@ + path,
        PatchErrorModel::OutsideWorkspace { path } => "target path "@ + path
            + " escapes the workspace root"@,
        PatchErrorModel::ExcludedPath { path, reason } => "path is runtime-critical ("@ + reason
            + "): "@ + path,
        PatchErrorModel::UntrackedTarget { path } =>
            "cannot update git-untracked file (would be irrecoverable): "@ + path,
        PatchErrorModel::IgnoredParent { path } => "cannot add into git-ignored directory: "@
            + path,
        PatchErrorModel::NotInGitRepo { path } =>
            "workspace is not a git repository; patch refused outside scratchpad: "@ + path,
        PatchErrorModel::TooManyEdits { count } => "edits count "@ + decimal(count as nat)
            + " exceeded the "@ + decimal(PATCH_MAX_EDITS as nat) + " limit"@,
        PatchErrorModel::MultipleEditsSamePath { path } => "more than one edit targets "@ + path
            + " within the same patch call"@,
        PatchErrorModel::FileTooLarge { path } => "target or new content for "@ + path
            + " exceeded the "@ + decimal(PATCH_MAX_FILE_BYTES as nat) + " byte limit"@,
        PatchErrorModel::IoError { path, message } => "filesystem I/O failed for "@ + path + ": "@
            + message,
        PatchErrorModel::CrossDeviceRename { path } =>
            "cross-device rename not supported for "@ + path,
    }
}

pub const HINT_SAME_PATH: &'static str =
    "each path may appear in only one edit per call; split the edits into separate patch calls (one per target path) or merge this path's changes into a single update with one before/after pair";

pub const HINT_NO_MATCH: &'static str =
    "`before` is not present verbatim in the file; read the file first, then copy an exact existing substring into `before`";

pub const HINT_AMBIGUOUS: &'static str =
    "`before` matched more than one place; extend `before` with surrounding lines so it matches exactly once";

pub const HINT_EXISTS: &'static str =
    "path already exists; use update with a before/after pair instead of add, or choose a different path";

pub const HINT_MISSING: &'static str =
    "path does not exist; use add to create it, or fix the path";

pub const HINT_PARENT: &'static str =
    "the parent directory does not exist; create it first (e.g. mkdir -p), then retry";

pub const HINT_TOO_MANY: &'static str =
    "too many edits in one call; split across multiple patch calls";

pub const HINT_TOO_LARGE: &'static str =
    "content is too large; reduce it or split across multiple patch calls";

pub const HINT_CONFLICT: &'static str =
    "target changed between preview and apply; re-read the file and retry";

/// What the model may do about a patch error.
pub open spec fn patch_error_hint(e: PatchErrorModel) -> Option<Seq<char>> {
    match e {
        PatchErrorModel::MultipleEditsSamePath { .. } => Some(HINT_SAME_PATH@),
        PatchErrorModel::NoMatch { .. } => Some(HINT_NO_MATCH@),
        PatchErrorModel::AmbiguousMatch { .. } => Some(HINT_AMBIGUOUS@),
        PatchErrorModel::AddOnExistingFile { .. } => Some(HINT_EXISTS@),
        PatchErrorModel::UpdateOnMissingFile { .. } => Some(HINT_MISSING@),
        PatchErrorModel::ParentDirMissing { .. } => Some(HINT_PARENT@),
        PatchErrorModel::TooManyEdits { .. } => Some(HINT_TOO_MANY@),
        PatchErrorModel::FileTooLarge { .. } => Some(HINT_TOO_LARGE@),
        PatchErrorModel::Conflict { .. } => Some(HINT_CONFLICT@),
        _ => None,
    }
}

impl PatchError {
    /// Machine-readable code and human-readable message.
    pub fn to_code_and_message(&self) -> (r: (&'static str, String))
        ensures
            r.0@ == patch_error_code(self@),
            r.1@ == patch_error_message(self@),
    {
        match self {
            PatchError::Rejected => (
                "patch_rejected",
                "user rejected the patch preview".to_owned(),
            ),
            PatchError::Conflict { path } => (
                "patch_conflict",
                cat("target file changed between preview and apply: ", path.as_str()),
            ),
            PatchError::NoMatch { path } => (
                "patch_no_match",
                cat("`before` did not match any content in ", path.as_str()),
            ),
            PatchError::AmbiguousMatch { path, match_count } => {
                let mut out = cat3(
                    "`before` matched ",
                    decimal_of(*match_count).as_str(),
                    " places in ",
                );
                out.append(path.as_str());
                out.append("; expected exactly 1");
                ("patch_ambiguous_match", out)
            },
            PatchError::AddOnExistingFile { path } => (
                "patch_add_on_existing_file",
                cat("cannot add: file already exists at ", path.as_str()),
            ),
            PatchError::ParentDirMissing { path } => (
                "patch_parent_dir_missing",
                cat("parent directory does not exist for ", path.as_str()),
            ),
            PatchError::UpdateOnMissingFile { path } => (
                "patch_update_on_missing_file",
                cat("cannot update: file does not exist at ", path.as_str()),
            ),
            PatchError::OutsideWorkspace { path } => (
                "patch_outside_workspace",
                cat3("target path ", path.as_str(), " escapes the workspace root"),
            ),
            PatchError::ExcludedPath { path, reason } => {
                let mut out = cat3("path is runtime-critical (", reason.as_str(), "): ");
                out.append(path.as_str());
                ("patch_excluded_path", out)
            },
            PatchError::UntrackedTarget { path } => (
                "patch_untracked_target",
                cat("cannot update git-untracked file (would be irrecoverable): ", path.as_str()),
            ),
            PatchError::IgnoredParent { path } => (
                "patch_ignored_parent",
                cat("cannot add into git-ignored directory: ", path.as_str()),
            ),
            PatchError::NotInGitRepo { path } => (
                "patch_not_in_git_repo",
                cat(
                    "workspace is not a git repository; patch refused outside scratchpad: ",
                    path.as_str(),
                ),
            ),
            PatchError::TooManyEdits { count } => {
                let mut out = cat3("edits count ", decimal_of(*count).as_str(), " exceeded the ");
                out.append(decimal_of(PATCH_MAX_EDITS as u64).as_str());
                out.append(" limit");
                ("patch_too_many_edits", out)
            },
            PatchError::MultipleEditsSamePath { path } => (
                "patch_multiple_edits_same_path",
                cat3("more than one edit targets ", path.as_str(), " within the same patch call"),
            ),
            PatchError::FileTooLarge { path } => {
                let mut out = cat3("target or new content for ", path.as_str(), " exceeded the ");
                out.append(decimal_of(PATCH_MAX_FILE_BYTES as u64).as_str());
                out.append(" byte limit");
                ("patch_file_too_large", out)
            },
            PatchError::IoError { path, message } => {
                let mut out = cat3("filesystem I/O failed for ", path.as_str(), ": ");
                out.append(message.as_str());
                ("patch_io_error", out)
            },
            PatchError::CrossDeviceRename { path } => (
                "patch_cross_device_rename",
                cat("cross-device rename not supported for ", path.as_str()),
            ),
        }
    }

    /// What the model may do about it; none for rejections by policy.
    pub fn to_hint(&self) -> (r: Option<&'static str>)
        ensures
            match r {
                Some(s) => patch_error_hint(self@) == Some(s@),
                None => patch_error_hint(self@) is None,
            },
    {
        match self {
            PatchError::MultipleEditsSamePath { .. } => Some(HINT_SAME_PATH),
            PatchError::NoMatch { .. } => Some(HINT_NO_MATCH),
            PatchError::AmbiguousMatch { .. } => Some(HINT_AMBIGUOUS),
            PatchError::AddOnExistingFile { .. } => Some(HINT_EXISTS),
            PatchError::UpdateOnMissingFile { .. } => Some(HINT_MISSING),
            PatchError::ParentDirMissing { .. } => Some(HINT_PARENT),
            PatchError::TooManyEdits { .. } => Some(HINT_TOO_MANY),
            PatchError::FileTooLarge { .. } => Some(HINT_TOO_LARGE),
            PatchError::Conflict { .. } => Some(HINT_CONFLICT),
            _ => None,
        }
    }
}

/// Failure modes of command invocations.
#[derive(Debug, PartialEq, Eq)]
pub enum CommandError {
    /// The user rejected the approval preview.
    Rejected,
    /// The program could not be started.
    SpawnFailed { message: String },
    /// `argv` was an empty array.
    EmptyArgv,
}

/// A [`CommandError`] as a mathematical value.
#[verifier::ext_equal]
pub enum CommandErrorModel {
    Rejected,
    SpawnFailed { message: Seq<char> },
    EmptyArgv,
}

impl View for CommandError {
    type V = CommandErrorModel;

    open spec fn view(&self) -> CommandErrorModel {
        match self {
            CommandError::Rejected => CommandErrorModel::Rejected,
            CommandError::SpawnFailed { message } => CommandErrorModel::SpawnFailed {
                message: message@,
            },
            CommandError::EmptyArgv => CommandErrorModel::EmptyArgv,
        }
    }
}

impl Clone for CommandError {
    fn clone(&self) -> (r: Self)
        ensures
            r@ == self@,
    {
        match self {
            CommandError::Rejected => CommandError::Rejected,
            CommandError::SpawnFailed { message } => CommandError::SpawnFailed {
                message: message.clone(),
            },
            CommandError::EmptyArgv => CommandError::EmptyArgv,
        }
    }
}

/// The machine-readable code of a command error.
pub open spec fn command_error_code(e: CommandErrorModel) -> Seq<char> {
    match e {
        CommandErrorModel::Rejected => "command_rejected"@,
        CommandErrorModel::SpawnFailed { .. } => "command_spawn_failed"@,
        CommandErrorModel::EmptyArgv => "command_empty_argv"@,
    }
}

/// What a command error says in words.
pub open spec fn command_error_message(e: CommandErrorModel) -> Seq<char> {
    match e {
        CommandErrorModel::Rejected => "user rejected the command preview"@,
        CommandErrorModel::SpawnFailed { message } => "failed to spawn command: "@ + message,
        CommandErrorModel::EmptyArgv => "argv must not be empty"@,
    }
}

impl CommandError {
    /// Machine-readable code and human-readable message.
    pub fn to_code_and_message(&self) -> (r: (&'static str, String))
        ensures
            r.0@ == command_error_code(self@),
            r.1@ == command_error_message(self@),
    {
        match self {
            CommandError::Rejected => (
                "command_rejected",
                "user rejected the command preview".to_owned(),
            ),
            CommandError::SpawnFailed { message } => (
                "command_spawn_failed",
                cat("failed to spawn command: ", message.as_str()),
            ),
            CommandError::EmptyArgv => ("command_empty_argv", "argv must not be empty".to_owned()),
        }
    }
}

/// The machine-readable code of an error.
pub open spec fn tool_error_code(e: ToolErrorModel) -> Seq<char> {
    match e {
        ToolErrorModel::OutsideWorkspace => "outside_workspace"@,
        ToolErrorModel::NotUtf8 => "not_utf8"@,
        ToolErrorModel::Binary => "binary"@,
        ToolErrorModel::IoError(_) => "io_error"@,
        ToolErrorModel::ArgumentsParseFailed(_) => "arguments_parse_failed"@,
        ToolErrorModel::ArgumentsTooLarge => "arguments_too_large"@,
        ToolErrorModel::UnknownTool => "unknown_tool"@,
        ToolErrorModel::TurnToolCallLimitExceeded => "turn_tool_call_limit_exceeded"@,
        ToolErrorModel::Patch(e) => patch_error_code(e),
        ToolErrorModel::Command(e) => command_error_code(e),
    }
}

/// What an error says in words.
pub open spec fn tool_error_message(e: ToolErrorModel) -> Seq<char> {
    match e {
        ToolErrorModel::OutsideWorkspace => "path escapes the workspace root"@,
        ToolErrorModel::NotUtf8 => "file is not valid UTF-8"@,
        ToolErrorModel::Binary => "file contains binary data and cannot be read as text"@,
        ToolErrorModel::IoError(msg) => msg,
        ToolErrorModel::ArgumentsParseFailed(msg) => msg,
        ToolErrorModel::ArgumentsTooLarge => "tool call arguments exceeded the "@ + decimal(
            ARGUMENTS_MAX_BYTES as nat,
        ) + " byte limit"@,
        ToolErrorModel::UnknownTool => "function_name does not match a known tool"@,
        ToolErrorModel::TurnToolCallLimitExceeded => "this user turn exceeded the "@ + decimal(
            TURN_TOOL_CALL_LIMIT as nat,
        ) + " tool call limit"@,
        ToolErrorModel::Patch(e) => patch_error_message(e),
        ToolErrorModel::Command(e) => command_error_message(e),
    }
}

/// What the model may do about an error.
pub open spec fn tool_error_hint(e: ToolErrorModel) -> Option<Seq<char>> {
    match e {
        ToolErrorModel::Patch(e) => patch_error_hint(e),
        _ => None,
    }
}

/// What the model is told about an error.
pub open spec fn tool_error_json(e: ToolErrorModel) -> Seq<char> {
    "{\"error\":"@ + quoted(tool_error_code(e)) + ",\"message\":"@ + quoted(tool_error_message(e))
        + ",\"hint\":"@ + quoted_or_null(tool_error_hint(e)) + "}"@
}

impl ToolExecutionError {
    /// Machine-readable code and human-readable message.
    fn to_code_and_message(&self) -> (r: (&'static str, String))
        ensures
            r.0@ == tool_error_code(self@),
            r.1@ == tool_error_message(self@),
    {
        match self {
            ToolExecutionError::OutsideWorkspace => (
                "outside_workspace",
                "path escapes the workspace root".to_owned(),
            ),
            ToolExecutionError::NotUtf8 => ("not_utf8", "file is not valid UTF-8".to_owned()),
            ToolExecutionError::Binary => (
                "binary",
                "file contains binary data and cannot be read as text".to_owned(),
            ),
            ToolExecutionError::IoError(msg) => ("io_error", msg.clone()),
            ToolExecutionError::ArgumentsParseFailed(msg) => (
                "arguments_parse_failed",
                msg.clone(),
            ),
            ToolExecutionError::ArgumentsTooLarge => (
                "arguments_too_large",
                cat3(
                    "tool call arguments exceeded the ",
                    decimal_of(ARGUMENTS_MAX_BYTES as u64).as_str(),
                    " byte limit",
                ),
            ),
            ToolExecutionError::UnknownTool => (
                "unknown_tool",
                "function_name does not match a known tool".to_owned(),
            ),
            ToolExecutionError::TurnToolCallLimitExceeded => (
                "turn_tool_call_limit_exceeded",
                cat3(
                    "this user turn exceeded the ",
                    decimal_of(TURN_TOOL_CALL_LIMIT as u64).as_str(),
                    " tool call limit",
                ),
            ),
            ToolExecutionError::Patch(err) => err.to_code_and_message(),
            ToolExecutionError::Command(err) => err.to_code_and_message(),
        }
    }

    /// Compact JSON for a `Tool` message: the code, the message and a hint,
    /// which is `null` unless there is something the model can do.
    pub fn to_json_string(&self) -> (r: String)
        ensures
            r@ == tool_error_json(self@),
    {
        let (code, message) = self.to_code_and_message();
        let hint: Option<&'static str> = match self {
            ToolExecutionError::Patch(err) => err.to_hint(),
            _ => None,
        };
        let mut out = "{\"error\":".to_owned();
        out.append(quote(code).as_str());
        out.append(",\"message\":");
        out.append(quote(message.as_str()).as_str());
        out.append(",\"hint\":");
        match hint {
            Some(h) => {
                out.append(quote(h).as_str());
            },
            None => {
                out.append("null");
            },
        }
        out.append("}");
        out
    }
}

/// The path that a patch error is about, where it is about one.
pub open spec fn path_of_error(e: PatchErrorModel) -> Option<Seq<char>> {
    match e {
        PatchErrorModel::Rejected => None,
        PatchErrorModel::Conflict { path } => Some(path),
        PatchErrorModel::NoMatch { path } => Some(path),
        PatchErrorModel::AmbiguousMatch { path, .. } => Some(path),
        PatchErrorModel::AddOnExistingFile { path } => Some(path),
        PatchErrorModel::ParentDirMissing { path } => Some(path),
        PatchErrorModel::UpdateOnMissingFile { path } => Some(path),
        PatchErrorModel::OutsideWorkspace { path } => Some(path),
        PatchErrorModel::ExcludedPath { path, .. } => Some(path),
        PatchErrorModel::UntrackedTarget { path } => Some(path),
        PatchErrorModel::IgnoredParent { path } => Some(path),
        PatchErrorModel::NotInGitRepo { path } => Some(path),
        PatchErrorModel::TooManyEdits { .. } => None,
        PatchErrorModel::MultipleEditsSamePath { path } => Some(path),
        PatchErrorModel::FileTooLarge { path } => Some(path),
        PatchErrorModel::IoError { path, .. } => Some(path),
        PatchErrorModel::CrossDeviceRename { path } => Some(path),
    }
}

proof fn lemma_parts(a: Seq<char>, p: Seq<char>, b: Seq<char>)
    ensures
        holds_text(a + p + b, p),
        holds_text(a + p, p),
{
    assert((a + p) + Seq::<char>::empty() =~= a + p);
}

/// A patch error says which path it is about.
pub proof fn law_patch_errors_name_their_path(e: &PatchError, r: (&'static str, String))
    requires
        call_ensures(PatchError::to_code_and_message, (e,), r),
    ensures
        path_of_error(e@) matches Some(path) ==> holds_text(r.1@, path),
        e@ matches PatchErrorModel::IoError { message, .. } ==> holds_text(r.1@, message),
        e@ matches PatchErrorModel::ExcludedPath { reason, .. } ==> holds_text(r.1@, reason),
{
    match e@ {
        PatchErrorModel::Rejected => {},
        PatchErrorModel::Conflict { path } => {
            lemma_parts("target file changed between preview and apply: "@, path, Seq::empty());
        },
        PatchErrorModel::NoMatch { path } => {
            lemma_parts("`before` did not match any content in "@, path, Seq::empty());
        },
        PatchErrorModel::AmbiguousMatch { path, match_count } => {
            lemma_parts(
                "`before` matched "@ + decimal(match_count as nat) + " places in "@,
                path,
                "; expected exactly 1"@,
            );
        },
        PatchErrorModel::AddOnExistingFile { path } => {
            lemma_parts("cannot add: file already exists at "@, path, Seq::empty());
        },
        PatchErrorModel::ParentDirMissing { path } => {
            lemma_parts("parent directory does not exist for "@, path, Seq::empty());
        },
        PatchErrorModel::UpdateOnMissingFile { path } => {
            lemma_parts("cannot update: file does not exist at "@, path, Seq::empty());
        },
        PatchErrorModel::OutsideWorkspace { path } => {
            lemma_parts("target path "@, path, " escapes the workspace root"@);
        },
        PatchErrorModel::ExcludedPath { path, reason } => {
            lemma_parts("path is runtime-critical ("@ + reason + "): "@, path, Seq::empty());
            let rest = "): "@ + path;
            assert(r.1@ =~= "path is runtime-critical ("@ + reason + rest);
            lemma_parts("path is runtime-critical ("@, reason, rest);
        },
        PatchErrorModel::UntrackedTarget { path } => {
            lemma_parts(
                "cannot update git-untracked file (would be irrecoverable): "@,
                path,
                Seq::empty(),
            );
        },
        PatchErrorModel::IgnoredParent { path } => {
            lemma_parts("cannot add into git-ignored directory: "@, path, Seq::empty());
        },
        PatchErrorModel::NotInGitRepo { path } => {
            lemma_parts(
                "workspace is not a git repository; patch refused outside scratchpad: "@,
                path,
                Seq::empty(),
            );
        },
        PatchErrorModel::TooManyEdits { .. } => {},
        PatchErrorModel::MultipleEditsSamePath { path } => {
            lemma_parts("more than one edit targets "@, path, " within the same patch call"@);
        },
        PatchErrorModel::FileTooLarge { path } => {
            let rest = " exceeded the "@ + decimal(PATCH_MAX_FILE_BYTES as nat) + " byte limit"@;
            assert(r.1@ =~= "target or new content for "@ + path + rest);
            lemma_parts("target or new content for "@, path, rest);
        },
        PatchErrorModel::IoError { path, message } => {
            let rest = ": "@ + message;
            assert(r.1@ =~= "filesystem I/O failed for "@ + path + rest);
            lemma_parts("filesystem I/O failed for "@, path, rest);
            lemma_parts("filesystem I/O failed for "@ + path + ": "@, message, Seq::empty());
        },
        PatchErrorModel::CrossDeviceRename { path } => {
            lemma_parts("cross-device rename not supported for "@, path, Seq::empty());
        },
    }
}

/// There is a hint for the errors that another call can avoid, and none for
/// what is refused.
pub proof fn law_hints_help_the_model(e: &PatchError, r: Option<&'static str>)
    requires
        call_ensures(PatchError::to_hint, (e,), r),
    ensures
        r is Some <==> e@ is MultipleEditsSamePath || e@ is NoMatch || e@ is AmbiguousMatch
            || e@ is AddOnExistingFile || e@ is UpdateOnMissingFile || e@ is ParentDirMissing
            || e@ is TooManyEdits || e@ is FileTooLarge || e@ is Conflict,
{
}

/// What the model is told of an error holds its code, its message and the
/// hint, which is `null` where there is none.
pub proof fn law_errors_are_told_in_full(e: &ToolExecutionError, r: String)
    requires
        call_ensures(ToolExecutionError::to_json_string, (e,), r),
    ensures
        holds_text(r@, "{\"error\":"@ + quoted(tool_error_code(e@)) + ",\"message\":"@),
        holds_text(r@, ",\"message\":"@ + quoted(tool_error_message(e@)) + ",\"hint\":"@),
        !(e@ is Patch) ==> holds_text(r@, ",\"hint\":"@ + "null"@ + "}"@),
        e@ is Patch && patch_error_hint(e@->Patch_0) is Some ==> holds_text(
            r@,
            ",\"hint\":"@ + quoted(patch_error_hint(e@->Patch_0)->0) + "}"@,
        ),
        e@ matches ToolErrorModel::IoError(m) ==> tool_error_message(e@) == m,
        e@ matches ToolErrorModel::ArgumentsParseFailed(m) ==> tool_error_message(e@) == m,
{
    let none = Seq::<char>::empty();
    let code = "{\"error\":"@ + quoted(tool_error_code(e@));
    let m = ",\"message\":"@;
    let says = quoted(tool_error_message(e@));
    let h = ",\"hint\":"@;
    let hint = quoted_or_null(tool_error_hint(e@));
    assert(r@ =~= (none + (code + m)) + (says + h + hint + "}"@));
    assert(r@ =~= (code + (m + says + h)) + (hint + "}"@));
    assert(r@ =~= ((code + m + says) + (h + hint + "}"@)) + none);
}

/// Errors of different kinds have different codes: those of patches and of
/// commands each start with a name of their own.
pub proof fn law_codes_tell_errors_apart(e: PatchErrorModel, c: CommandErrorModel)
    ensures
        "patch_"@.is_prefix_of(patch_error_code(e)),
        "command_"@.is_prefix_of(command_error_code(c)),
{
    reveal_strlit("patch_");
    reveal_strlit("command_");
    reveal_strlit("patch_rejected");
    reveal_strlit("patch_conflict");
    reveal_strlit("patch_no_match");
    reveal_strlit("patch_ambiguous_match");
    reveal_strlit("patch_add_on_existing_file");
    reveal_strlit("patch_parent_dir_missing");
    reveal_strlit("patch_update_on_missing_file");
    reveal_strlit("patch_outside_workspace");
    reveal_strlit("patch_excluded_path");
    reveal_strlit("patch_untracked_target");
    reveal_strlit("patch_ignored_parent");
    reveal_strlit("patch_not_in_git_repo");
    reveal_strlit("patch_too_many_edits");
    reveal_strlit("patch_multiple_edits_same_path");
    reveal_strlit("patch_file_too_large");
    reveal_strlit("patch_io_error");
    reveal_strlit("patch_cross_device_rename");
    reveal_strlit("command_rejected");
    reveal_strlit("command_spawn_failed");
    reveal_strlit("command_empty_argv");
    assert("patch_"@ =~= patch_error_code(e).subrange(0, 6));
    assert("command_"@ =~= command_error_code(c).subrange(0, 8));
}

} // verus!
