//! How the agent loop words things: what the model is told of a tool call, and
//! what the user sees of it.
use vstd::prelude::*;
use vstd::string::*;

use crate::json::{quote, quoted, string_array_text, write_string_array};
use crate::sansio::agent::debug::{debug_tool_error, tool_error_debug};
use crate::sansio::agent::errors::{ToolErrorModel, ToolExecutionError};
use crate::sansio::agent::tools::{ReadOnlyModel, ReadOnlyTool};
use crate::sansio::agent::types::{PatchPreview, PatchPreviewModel};
use crate::shell::{shell_escape_argv, shell_line};
use crate::text::{
    cat, cat3, chars_of, decimal, decimal_of, signed_decimal, signed_decimal_of, string_of, views,
};
use crate::time::Duration;

verus! {

/// What the model is told of a call that went wrong.
pub open spec fn tool_error_text(code: Seq<char>, message: Seq<char>) -> Seq<char> {
    "{\"error\":"@ + quoted(code) + ",\"message\":"@ + quoted(message) + "}"@
}

/// Writes what the model is told of a call that went wrong.
pub fn tool_error_json(code: &str, message: &str) -> (r: String)
    ensures
        r@ == tool_error_text(code@, message@),
{
    let mut out = "{\"error\":".to_owned();
    out.append(quote(code).as_str());
    out.append(",\"message\":");
    out.append(quote(message).as_str());
    out.append("}");
    out
}

/// What the model is told of a patch that was applied.
pub open spec fn patch_result_text(applied: Seq<Seq<char>>) -> Seq<char> {
    "{\"ok\":true,\"applied\":"@ + string_array_text(applied) + "}"@
}

/// Writes what the model is told of a patch that was applied.
pub fn patch_result_json(applied: &Vec<String>) -> (r: String)
    ensures
        r@ == patch_result_text(views(applied@)),
{
    let mut out = "{\"ok\":true,\"applied\":".to_owned();
    out.append(write_string_array(applied).as_str());
    out.append("}");
    out
}

/// A span in whole milliseconds, as far as they fit.
pub open spec fn millis_of(elapsed: Duration) -> nat {
    if elapsed.total() / 1_000_000 > u64::MAX {
        u64::MAX as nat
    } else {
        (elapsed.total() / 1_000_000) as nat
    }
}

/// What the model is told of a command that was run.
pub open spec fn command_result_text(
    stdout: Seq<char>,
    stderr: Seq<char>,
    exit_code: Option<i32>,
    termination_reason: Seq<char>,
    elapsed: Duration,
) -> Seq<char> {
    "{\"exit_code\":"@ + (match exit_code {
        Some(code) => signed_decimal(code as int),
        None => "null"@,
    }) + ",\"termination_reason\":"@ + quoted(termination_reason) + ",\"duration_ms\":"@ + decimal(
        millis_of(elapsed),
    ) + ",\"stdout\":"@ + quoted(stdout) + ",\"stderr\":"@ + quoted(stderr) + "}"@
}

/// Writes what the model is told of a command that was run.
pub fn command_result_json(
    stdout: &str,
    stderr: &str,
    exit_code: Option<i32>,
    termination_reason: &str,
    elapsed: Duration,
) -> (r: String)
    ensures
        r@ == command_result_text(stdout@, stderr@, exit_code, termination_reason@, elapsed),
{
    let millis: u128 = elapsed.as_millis();
    let duration_ms: u64 = if millis > u64::MAX as u128 {
        u64::MAX
    } else {
        millis as u64
    };
    let mut out = "{\"exit_code\":".to_owned();
    match exit_code {
        Some(code) => {
            out.append(signed_decimal_of(code as i64).as_str());
        },
        None => {
            out.append("null");
        },
    }
    out.append(",\"termination_reason\":");
    out.append(quote(termination_reason).as_str());
    out.append(",\"duration_ms\":");
    out.append(decimal_of(duration_ms).as_str());
    out.append(",\"stdout\":");
    out.append(quote(stdout).as_str());
    out.append(",\"stderr\":");
    out.append(quote(stderr).as_str());
    out.append("}");
    out
}

/// How a command ended, in a word.
pub open spec fn termination_text(exit_code: Option<i32>) -> Seq<char> {
    if exit_code is Some {
        "exited"@
    } else {
        "signaled"@
    }
}

/// What the model is told of a finished command. One that a signal ended has
/// no exit code.
pub fn finished_command_json(
    stdout: &str,
    stderr: &str,
    exit_code: Option<i32>,
    elapsed: Duration,
) -> (r: String)
    ensures
        r@ == command_result_text(
            stdout@,
            stderr@,
            exit_code,
            termination_text(exit_code),
            elapsed,
        ),
{
    let reason = if exit_code.is_some() {
        "exited"
    } else {
        "signaled"
    };
    command_result_json(stdout, stderr, exit_code, reason, elapsed)
}

/// What the model is told of a tool that could not be run.
pub open spec fn execution_error_text(e: ToolErrorModel) -> Seq<char> {
    tool_error_text("execution_error"@, tool_error_debug(e))
}

/// Writes what the model is told of a tool that could not be run.
pub fn tool_error_json_from(err: &ToolExecutionError) -> (r: String)
    ensures
        r@ == execution_error_text(err@),
{
    tool_error_json("execution_error", debug_tool_error(err).as_str())
}

/// Where the first word of a text ends: at a bracket or a space.
pub open spec fn word_end(s: Seq<char>, i: int) -> int
    decreases s.len() - i,
{
    if i >= s.len() || s[i] == '(' || s[i] == ' ' {
        i
    } else {
        word_end(s, i + 1)
    }
}

/// The name of a tool error, without what it holds.
pub open spec fn short_error(e: ToolErrorModel) -> Seq<char> {
    let full = tool_error_debug(e);
    full.take(word_end(full, 0))
}

/// The name of a tool error, without what it holds.
pub fn short_err(err: &ToolExecutionError) -> (r: String)
    ensures
        r@ == short_error(err@),
{
    let full = debug_tool_error(err);
    let v = chars_of(full.as_str());
    let mut i: usize = 0;
    while i < v.len() && v[i] != '(' && v[i] != ' '
        invariant
            i <= v@.len(),
            word_end(v@, i as int) == word_end(v@, 0),
        decreases v@.len() - i,
    {
        i = i + 1;
    }
    assert(v@.subrange(0, i as int) =~= v@.take(i as int));
    string_of(&v, 0, i)
}

/// What a read-only call does, in short.
pub open spec fn read_only_summary(t: ReadOnlyModel) -> Seq<char> {
    match t {
        ReadOnlyModel::List { path, recursive, .. } => if recursive {
            "list \""@ + path + "\" recursive"@
        } else {
            "list \""@ + path + "\""@
        },
        ReadOnlyModel::Read { path, line_range } => match line_range {
            Some((start, end)) => "read \""@ + path + "\" lines "@ + decimal(start as nat) + ".."@
                + decimal(end as nat),
            None => "read \""@ + path + "\""@,
        },
        ReadOnlyModel::Search { pattern, path_prefix, .. } => match path_prefix {
            Some(prefix) => "search \""@ + pattern + "\" in \""@ + prefix + "\""@,
            None => "search \""@ + pattern + "\""@,
        },
    }
}

/// Says what a read-only call does, in short.
pub fn summarize_read_only(inv: &ReadOnlyTool) -> (r: String)
    ensures
        r@ == read_only_summary(inv@),
{
    match inv {
        ReadOnlyTool::List { path, recursive, .. } => if *recursive {
            cat3("list \"", path.as_str(), "\" recursive")
        } else {
            cat3("list \"", path.as_str(), "\"")
        },
        ReadOnlyTool::Read { path, line_range } => match line_range {
            Some((start, end)) => {
                let mut out = cat3("read \"", path.as_str(), "\" lines ");
                out.append(decimal_of(*start as u64).as_str());
                out.append("..");
                out.append(decimal_of(*end as u64).as_str());
                out
            },
            None => cat3("read \"", path.as_str(), "\""),
        },
        ReadOnlyTool::Search { pattern, path_prefix, .. } => match path_prefix {
            Some(prefix) => {
                let mut out = cat3("search \"", pattern.as_str(), "\" in \"");
                out.append(prefix.as_str());
                out.append("\"");
                out
            },
            None => cat3("search \"", pattern.as_str(), "\""),
        },
    }
}

/// What a command would run, for the user to look at.
pub open spec fn command_preview_text(argv: Seq<Seq<char>>) -> Seq<char> {
    "command preview: "@ + shell_line(argv)
}

/// Writes what a command would run, for the user to look at.
pub fn render_command_preview(argv: &Vec<String>) -> (r: String)
    ensures
        r@ == command_preview_text(views(argv@)),
{
    cat("command preview: ", shell_escape_argv(argv).as_str())
}

/// The rules that would let a command through, for the user to look at: its
/// first two words, for the session or for the workspace.
pub open spec fn suggested_rule(argv: Seq<Seq<char>>) -> Seq<Seq<char>> {
    if argv.len() == 0 {
        Seq::empty()
    } else {
        let prefix = shell_line(
            argv.take(if argv.len() < 2 {
                argv.len() as int
            } else {
                2
            }),
        );
        seq![
            "suggested rule (persist separately after approve):"@,
            "  attini session grant "@ + prefix + "                # session-local"@,
            "  attini session grant "@ + prefix + " --workspace    # workspace-wide"@,
        ]
    }
}

/// Suggests the rules that would let a command through.
pub fn render_suggested_rule(argv: &Vec<String>) -> (r: Vec<String>)
    ensures
        views(r@) == suggested_rule(views(argv@)),
{
    let mut out: Vec<String> = Vec::new();
    if argv.len() == 0 {
        assert(views(out@) =~= Seq::empty());
        return out;
    }
    let mut head: Vec<String> = Vec::new();
    head.push(argv[0].clone());
    if argv.len() > 1 {
        head.push(argv[1].clone());
    }
    assert(views(head@) =~= views(argv@).take(
        if argv@.len() < 2 {
            argv@.len() as int
        } else {
            2
        },
    ));
    let prefix = shell_escape_argv(&head);
    out.push("suggested rule (persist separately after approve):".to_owned());
    out.push(
        cat3(
            "  attini session grant ",
            prefix.as_str(),
            "                # session-local",
        ),
    );
    out.push(
        cat3("  attini session grant ", prefix.as_str(), " --workspace    # workspace-wide"),
    );
    assert(views(out@) =~= suggested_rule(views(argv@)));
    out
}

/// A list of paths, each on an indented line of its own.
pub open spec fn path_lines(paths: Seq<Seq<char>>) -> Seq<char>
    decreases paths.len(),
{
    if paths.len() == 0 {
        Seq::empty()
    } else {
        path_lines(paths.drop_last()) + "\n  "@ + paths.last()
    }
}

/// What a patch would do, for the user to look at.
pub open spec fn patch_preview_text(p: PatchPreviewModel) -> Seq<char> {
    "patch preview: "@ + decimal(p.edit_count as nat) + " edit(s) across "@ + decimal(
        p.target_paths.len(),
    ) + " file(s), +"@ + decimal(p.added_lines as nat) + " / -"@ + decimal(p.removed_lines as nat)
        + " lines"@ + path_lines(p.target_paths)
}

/// Writes what a patch would do, for the user to look at.
pub fn render_patch_preview_text(p: &PatchPreview) -> (r: String)
    ensures
        r@ == patch_preview_text(p@),
{
    let mut out = "patch preview: ".to_owned();
    out.append(decimal_of(p.edit_count).as_str());
    out.append(" edit(s) across ");
    out.append(decimal_of(p.target_paths.len() as u64).as_str());
    out.append(" file(s), +");
    out.append(decimal_of(p.added_lines).as_str());
    out.append(" / -");
    out.append(decimal_of(p.removed_lines).as_str());
    out.append(" lines");
    let ghost head = out@;
    let ghost paths = views(p.target_paths@);
    let mut i: usize = 0;
    assert(paths.take(0) =~= Seq::empty());
    assert(head + path_lines(paths.take(0)) =~= head);
    while i < p.target_paths.len()
        invariant
            i <= p.target_paths@.len(),
            paths == views(p.target_paths@),
            out@ == head + path_lines(paths.take(i as int)),
        decreases p.target_paths@.len() - i,
    {
        let ghost before = path_lines(paths.take(i as int));
        proof {
            assert(paths.take(i + 1).drop_last() =~= paths.take(i as int));
            assert(paths.take(i + 1).last() == p.target_paths@[i as int]@);
        }
        out.append("\n  ");
        out.append(p.target_paths[i].as_str());
        assert(head + before + "\n  "@ + p.target_paths@[i as int]@ =~= head + (before + "\n  "@
            + p.target_paths@[i as int]@));
        i = i + 1;
    }
    assert(paths.take(paths.len() as int) =~= paths);
    out
}

/// The line that opens an invocation. `ctx` is the size of the conversation
/// so far.
pub open spec fn status_line_text(
    model: Seq<char>,
    session_name: Seq<char>,
    ctx_tokens: u64,
) -> Seq<char> {
    "[agent] model="@ + model + " session="@ + session_name + " ctx="@ + decimal(ctx_tokens as nat)
}

/// Writes the line that opens an invocation.
pub fn render_agent_status_line(model: &str, session_name: &str, ctx_tokens: u64) -> (r: String)
    ensures
        r@ == status_line_text(model@, session_name@, ctx_tokens),
{
    let mut out = "[agent] model=".to_owned();
    out.append(model);
    out.append(" session=");
    out.append(session_name);
    out.append(" ctx=");
    out.append(decimal_of(ctx_tokens).as_str());
    out
}

} // verus!
