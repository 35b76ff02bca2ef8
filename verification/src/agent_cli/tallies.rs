//! What holds of the counts of an invocation, and of what the model and the
//! user are told of tool calls.
use vstd::prelude::*;

use super::counters::{Counters, ToolCallsByKind};
use super::telling::{holds_text, lemma_holds_part};
use super::wording::{
    command_result_json, finished_command_json, patch_result_json, path_lines,
    render_agent_status_line, render_command_preview, render_patch_preview_text,
    render_suggested_rule, short_err, summarize_read_only, tool_error_json, word_end,
};
use crate::json::value::{
    json_text, lemma_one_member, lemma_one_more_member, lemma_quoted_plain, lemma_text_list,
    text_list, JsonValue,
};
use crate::json::quoted;
use crate::sansio::agent::debug::tool_error_debug;
use crate::sansio::agent::errors::ToolExecutionError;
use crate::sansio::agent::tools::{ReadOnlyModel, ReadOnlyTool};
use crate::sansio::agent::types::PatchPreview;
use crate::sansio::deepseek::Usage;
use crate::session::entries_of;
use crate::shell::shell_line;
use crate::text::{decimal, signed_decimal, views};
use crate::time::Duration;

verus! {

/// A call is counted under the name of its tool, or as unknown where no tool
/// has that name, and nowhere else. A count stops at the largest number.
pub proof fn law_calls_are_counted_by_name(k: &mut ToolCallsByKind, name: &str)
    requires
        call_ensures(ToolCallsByKind::count, (k, name), ()),
    ensures
        final(k).list - old(k).list == if name@ == "list"@ && old(k).list < u64::MAX { 1int } else { 0 },
        final(k).read - old(k).read == if name@ == "read"@ && old(k).read < u64::MAX { 1int } else { 0 },
        final(k).search - old(k).search == if name@ == "search"@ && old(k).search < u64::MAX { 1int } else { 0 },
        final(k).patch - old(k).patch == if name@ == "patch"@ && old(k).patch < u64::MAX { 1int } else { 0 },
        final(k).command - old(k).command == if name@ == "command"@ && old(k).command < u64::MAX { 1int } else { 0 },
        final(k).skill_load - old(k).skill_load == if name@ == "skill_load"@ && old(k).skill_load < u64::MAX { 1int } else { 0 },
        final(k).unknown - old(k).unknown == if old(k).unknown < u64::MAX && name@ != "list"@ && name@
            != "read"@ && name@ != "search"@ && name@ != "patch"@ && name@ != "command"@ && name@
            != "skill_load"@ { 1int } else { 0 },
{
    lemma_names(name@);
}

proof fn lemma_names(name: Seq<char>)
    ensures
        name == "list"@ ==> name != "read"@ && name != "search"@ && name != "patch"@ && name
            != "command"@ && name != "skill_load"@,
        name == "read"@ ==> name != "search"@ && name != "patch"@ && name != "command"@ && name
            != "skill_load"@,
        name == "search"@ ==> name != "patch"@ && name != "command"@ && name != "skill_load"@,
        name == "patch"@ ==> name != "command"@ && name != "skill_load"@,
        name == "command"@ ==> name != "skill_load"@,
{
    reveal_strlit("list");
    reveal_strlit("read");
    reveal_strlit("search");
    reveal_strlit("patch");
    reveal_strlit("command");
    reveal_strlit("skill_load");
    assert("list"@[0] != "read"@[0]);
    assert("list"@.len() == 4 && "read"@.len() == 4 && "search"@.len() == 6);
    assert("patch"@.len() == 5 && "command"@.len() == 7 && "skill_load"@.len() == 10);
}

/// The tokens of a call to the model are added to the totals, each to its
/// own; the size of the conversation is that of the last call. A number that
/// is absent counts as none, and a total stops at the largest number.
pub proof fn law_tokens_are_added_up(c: &mut Counters, u: Usage)
    requires
        call_ensures(Counters::count_usage, (c, u), ()),
    ensures
        ({
            let p: u64 = if u.prompt_tokens is Some { u.prompt_tokens->0 } else { 0 };
            let q: u64 = if u.completion_tokens is Some { u.completion_tokens->0 } else { 0 };
            let h: u64 = if u.prompt_cache_hit_tokens is Some { u.prompt_cache_hit_tokens->0 } else { 0 };
            let m: u64 = if u.prompt_cache_miss_tokens is Some { u.prompt_cache_miss_tokens->0 } else { 0 };
            &&& final(c).prompt_tokens_last == p
            &&& old(c).prompt_tokens_billed_total + p <= u64::MAX ==> final(c).prompt_tokens_billed_total == old(c).prompt_tokens_billed_total + p
            &&& old(c).completion_tokens_total + q <= u64::MAX ==> final(c).completion_tokens_total == old(c).completion_tokens_total + q
            &&& old(c).prompt_cache_hit_tokens_total + h <= u64::MAX ==> final(c).prompt_cache_hit_tokens_total == old(c).prompt_cache_hit_tokens_total + h
            &&& old(c).prompt_cache_miss_tokens_total + m <= u64::MAX ==> final(c).prompt_cache_miss_tokens_total == old(c).prompt_cache_miss_tokens_total + m
            &&& final(c).prompt_tokens_billed_total >= old(c).prompt_tokens_billed_total
            &&& final(c).completion_tokens_total >= old(c).completion_tokens_total
            &&& final(c).prompt_cache_hit_tokens_total >= old(c).prompt_cache_hit_tokens_total
            &&& final(c).prompt_cache_miss_tokens_total >= old(c).prompt_cache_miss_tokens_total
        }),
        final(c).turns == old(c).turns,
        final(c).tool_calls_by_kind == old(c).tool_calls_by_kind,
        final(c).tool_errors == old(c).tool_errors,
        final(c).compaction_attempts == old(c).compaction_attempts,
        final(c).compaction_failures == old(c).compaction_failures,
{
}

/// Turns, errors and summaries are counted one by one, each in its own count;
/// a summary counts as a failure only where it failed.
pub proof fn law_turns_are_counted(c: &mut Counters)
    requires
        call_ensures(Counters::count_turn, (c,), ()),
    ensures
        old(c).turns < u64::MAX ==> final(c).turns == old(c).turns + 1,
        old(c).turns == u64::MAX ==> final(c).turns == u64::MAX,
        *final(c) == (Counters { turns: final(c).turns, ..*old(c) }),
{
}

/// A tool call that went wrong is counted once, and nothing else is.
pub proof fn law_errors_are_counted(c: &mut Counters)
    requires
        call_ensures(Counters::count_error, (c,), ()),
    ensures
        old(c).tool_errors < u64::MAX ==> final(c).tool_errors == old(c).tool_errors + 1,
        old(c).tool_errors == u64::MAX ==> final(c).tool_errors == u64::MAX,
        *final(c) == (Counters { tool_errors: final(c).tool_errors, ..*old(c) }),
{
}

/// An attempt to sum up is counted once, and as a failure only where it
/// failed.
pub proof fn law_attempts_to_sum_up_are_counted(c: &mut Counters, failed: bool)
    requires
        call_ensures(Counters::count_compaction, (c, failed), ()),
    ensures
        old(c).compaction_attempts < u64::MAX ==> final(c).compaction_attempts
            == old(c).compaction_attempts + 1,
        failed && old(c).compaction_failures < u64::MAX ==> final(c).compaction_failures
            == old(c).compaction_failures + 1,
        !failed ==> final(c).compaction_failures == old(c).compaction_failures,
        *final(c) == (Counters {
            compaction_attempts: final(c).compaction_attempts,
            compaction_failures: final(c).compaction_failures,
            ..*old(c)
        }),
{
}

/// The counts come out under their names, each once.
pub proof fn law_counts_have_names(c: &Counters, duration_ms: u64, r: Vec<(String, u64)>)
    requires
        call_ensures(Counters::to_metrics_entries, (c, duration_ms), r),
    ensures
        r@.len() == 16,
        entries_of(r@).contains(("turns"@, c.turns)),
        entries_of(r@).contains(("tool_calls.list"@, c.tool_calls_by_kind.list)),
        entries_of(r@).contains(("tool_calls.read"@, c.tool_calls_by_kind.read)),
        entries_of(r@).contains(("tool_calls.search"@, c.tool_calls_by_kind.search)),
        entries_of(r@).contains(("tool_calls.patch"@, c.tool_calls_by_kind.patch)),
        entries_of(r@).contains(("tool_calls.command"@, c.tool_calls_by_kind.command)),
        entries_of(r@).contains(("tool_calls.skill_load"@, c.tool_calls_by_kind.skill_load)),
        entries_of(r@).contains(("tool_calls.unknown"@, c.tool_calls_by_kind.unknown)),
        entries_of(r@).contains(("tool_errors"@, c.tool_errors)),
        entries_of(r@).contains(("duration_ms"@, duration_ms)),
        entries_of(r@).contains(("prompt_tokens_billed_total"@, c.prompt_tokens_billed_total)),
        entries_of(r@).contains(("completion_tokens_total"@, c.completion_tokens_total)),
        entries_of(r@).contains(("prompt_cache_hit_tokens_total"@, c.prompt_cache_hit_tokens_total)),
        entries_of(r@).contains(("prompt_cache_miss_tokens_total"@, c.prompt_cache_miss_tokens_total)),
        entries_of(r@).contains(("compaction_attempts"@, c.compaction_attempts)),
        entries_of(r@).contains(("compaction_failures"@, c.compaction_failures)),
{
    let e = entries_of(r@);
    assert(e.len() == r@.len());
    assert(e[0] == ("turns"@, c.turns));
    assert(e[1] == ("tool_calls.list"@, c.tool_calls_by_kind.list));
    assert(e[2] == ("tool_calls.read"@, c.tool_calls_by_kind.read));
    assert(e[3] == ("tool_calls.search"@, c.tool_calls_by_kind.search));
    assert(e[4] == ("tool_calls.patch"@, c.tool_calls_by_kind.patch));
    assert(e[5] == ("tool_calls.command"@, c.tool_calls_by_kind.command));
    assert(e[6] == ("tool_calls.skill_load"@, c.tool_calls_by_kind.skill_load));
    assert(e[7] == ("tool_calls.unknown"@, c.tool_calls_by_kind.unknown));
    assert(e[8] == ("tool_errors"@, c.tool_errors));
    assert(e[9] == ("duration_ms"@, duration_ms));
    assert(e[10] == ("prompt_tokens_billed_total"@, c.prompt_tokens_billed_total));
    assert(e[11] == ("completion_tokens_total"@, c.completion_tokens_total));
    assert(e[12] == ("prompt_cache_hit_tokens_total"@, c.prompt_cache_hit_tokens_total));
    assert(e[13] == ("prompt_cache_miss_tokens_total"@, c.prompt_cache_miss_tokens_total));
    assert(e[14] == ("compaction_attempts"@, c.compaction_attempts));
    assert(e[15] == ("compaction_failures"@, c.compaction_failures));
}

/// What the model is told of a call that went wrong is an object that holds
/// the code of the error and its message, as JSON strings.
pub proof fn law_errors_are_told(code: &str, message: &str, r: String)
    requires
        call_ensures(tool_error_json, (code, message), r),
    ensures
        r@ == json_text(
            JsonValue::Members(
                seq![
                    ("error"@, JsonValue::Text(code@)),
                    ("message"@, JsonValue::Text(message@)),
                ],
            ),
        ),
{
    lemma_two_members("error"@, JsonValue::Text(code@), "message"@, JsonValue::Text(message@));
    lemma_literals();
    assert(r@ =~= "{"@ + quoted("error"@) + ":"@ + quoted(code@) + ","@ + quoted("message"@) + ":"@
        + quoted(message@) + "}"@);
}

proof fn lemma_literals()
    ensures
        "{\"error\":"@ == "{"@ + quoted("error"@) + ":"@,
        ",\"message\":"@ == ","@ + quoted("message"@) + ":"@,
        "{\"ok\":true,\"applied\":"@ == "{"@ + quoted("ok"@) + ":"@ + "true"@ + ","@ + quoted(
            "applied"@,
        ) + ":"@,
{
    reveal_strlit("error");
    reveal_strlit("message");
    reveal_strlit("ok");
    reveal_strlit("true");
    reveal_strlit("applied");
    reveal_strlit("{");
    reveal_strlit(":");
    reveal_strlit(",");
    reveal_strlit("{\"error\":");
    reveal_strlit(",\"message\":");
    reveal_strlit("{\"ok\":true,\"applied\":");
    lemma_quoted_plain("error"@);
    lemma_quoted_plain("message"@);
    lemma_quoted_plain("ok"@);
    lemma_quoted_plain("applied"@);
    assert("{\"error\":"@ =~= "{"@ + quoted("error"@) + ":"@);
    assert(",\"message\":"@ =~= ","@ + quoted("message"@) + ":"@);
    assert("{\"ok\":true,\"applied\":"@ =~= "{"@ + quoted("ok"@) + ":"@ + "true"@ + ","@ + quoted(
        "applied"@,
    ) + ":"@);
}

proof fn lemma_two_members(a: Seq<char>, x: JsonValue, b: Seq<char>, y: JsonValue)
    ensures
        json_text(JsonValue::Members(seq![(a, x), (b, y)])) == "{"@ + quoted(a) + ":"@ + json_text(x)
            + ","@ + quoted(b) + ":"@ + json_text(y) + "}"@,
{
    lemma_one_member(a, x);
    let one = quoted(a) + ":"@ + json_text(x);
    lemma_one_more_member(seq![(a, x)], b, y, one);
    assert(seq![(a, x)].push((b, y)) =~= seq![(a, x), (b, y)]);
    let two = quoted(b) + ":"@ + json_text(y);
    assert("{"@ + (one + ","@ + two) + "}"@ =~= "{"@ + quoted(a) + ":"@ + json_text(x) + ","@
        + quoted(b) + ":"@ + json_text(y) + "}"@);
}

/// What the model is told of a patch that was applied is an object that says
/// so and lists the files that were changed, in order.
pub proof fn law_applied_patches_are_told(applied: &Vec<String>, r: String)
    requires
        call_ensures(patch_result_json, (applied,), r),
    ensures
        r@ == json_text(
            JsonValue::Members(
                seq![
                    ("ok"@, JsonValue::Bool(true)),
                    ("applied"@, text_list(views(applied@))),
                ],
            ),
        ),
{
    lemma_two_members("ok"@, JsonValue::Bool(true), "applied"@, text_list(views(applied@)));
    lemma_text_list(views(applied@));
    lemma_literals();
    assert(r@ =~= "{"@ + quoted("ok"@) + ":"@ + "true"@ + ","@ + quoted("applied"@) + ":"@
        + json_text(text_list(views(applied@))) + "}"@);
}

/// What the model is told of a finished command holds its exit code, or that
/// a signal ended it where it has none, and all that it wrote.
pub proof fn law_finished_commands_are_told(
    stdout: &str,
    stderr: &str,
    exit_code: Option<i32>,
    elapsed: Duration,
    r: String,
)
    requires
        call_ensures(finished_command_json, (stdout, stderr, exit_code, elapsed), r),
    ensures
        exit_code is Some ==> holds_text(
            r@,
            "{\"exit_code\":"@ + signed_decimal(exit_code->0 as int)
                + ",\"termination_reason\":"@ + quoted("exited"@),
        ),
        exit_code is None ==> holds_text(
            r@,
            "{\"exit_code\":"@ + "null"@ + ",\"termination_reason\":"@ + quoted("signaled"@),
        ),
        holds_text(r@, ",\"stdout\":"@ + quoted(stdout@)),
        holds_text(r@, ",\"stderr\":"@ + quoted(stderr@) + "}"@),
{
    let none = Seq::<char>::empty();
    let code = match exit_code {
        Some(code) => signed_decimal(code as int),
        None => "null"@,
    };
    let why = quoted(
        if exit_code is Some {
            "exited"@
        } else {
            "signaled"@
        },
    );
    let ms = decimal(super::wording::millis_of(elapsed));
    let head = "{\"exit_code\":"@ + code + ",\"termination_reason\":"@ + why;
    let out = ",\"stdout\":"@ + quoted(stdout@);
    let err = ",\"stderr\":"@ + quoted(stderr@) + "}"@;
    let mid = ",\"duration_ms\":"@ + ms;
    assert(r@ =~= (none + head) + (mid + out + err));
    assert(r@ =~= ((head + mid) + out) + err);
    assert(r@ =~= ((head + mid + out) + err) + none);
}

/// The time that a command took is told in whole milliseconds.
pub proof fn law_times_are_told_in_milliseconds(
    stdout: &str,
    stderr: &str,
    exit_code: Option<i32>,
    reason: &str,
    elapsed: Duration,
    r: String,
)
    requires
        call_ensures(command_result_json, (stdout, stderr, exit_code, reason, elapsed), r),
        elapsed.secs * 1000 + elapsed.nanos as int / 1_000_000 <= u64::MAX,
    ensures
        holds_text(
            r@,
            ",\"duration_ms\":"@ + decimal(
                (elapsed.secs * 1000 + elapsed.nanos as int / 1_000_000) as nat,
            ) + ",\"stdout\":"@,
        ),
        holds_text(r@, quoted(reason@)),
{
    let code = match exit_code {
        Some(code) => signed_decimal(code as int),
        None => "null"@,
    };
    assert((elapsed.secs * 1_000_000_000 + elapsed.nanos) / 1_000_000 == elapsed.secs * 1000
        + elapsed.nanos as int / 1_000_000) by (nonlinear_arith);
    let ms = (elapsed.secs * 1000 + elapsed.nanos as int / 1_000_000) as nat;
    assert(ms == super::wording::millis_of(elapsed));
    let why = quoted(reason@);
    let a = "{\"exit_code\":"@ + code + ",\"termination_reason\":"@;
    let p = ",\"duration_ms\":"@ + decimal(ms) + ",\"stdout\":"@;
    let b = quoted(stdout@) + ",\"stderr\":"@ + quoted(stderr@) + "}"@;
    assert(r@ =~= ((a + why) + p) + b);
    assert(r@ =~= (a + why) + (p + b));
}

/// A tool error in short is the start of it in full, up to the first bracket
/// or space.
pub proof fn law_errors_in_short(err: &ToolExecutionError, r: String)
    requires
        call_ensures(short_err, (err,), r),
    ensures
        ({
            let full = tool_error_debug(err@);
            &&& r@.len() <= full.len() && r@ == full.take(r@.len() as int)
            &&& !r@.contains('(') && !r@.contains(' ')
            &&& r@.len() < full.len() ==> full[r@.len() as int] == '(' || full[r@.len() as int]
                == ' '
        }),
{
    let full = tool_error_debug(err@);
    lemma_word_end(full, 0);
    assert(full.take(word_end(full, 0)).len() == word_end(full, 0));
}

proof fn lemma_word_end(s: Seq<char>, i: int)
    requires
        0 <= i <= s.len(),
    ensures
        i <= word_end(s, i) <= s.len(),
        forall|k: int| i <= k < word_end(s, i) ==> s[k] != '(' && s[k] != ' ',
        word_end(s, i) < s.len() ==> s[word_end(s, i)] == '(' || s[word_end(s, i)] == ' ',
    decreases s.len() - i,
{
    if i < s.len() && s[i] != '(' && s[i] != ' ' {
        lemma_word_end(s, i + 1);
    }
}

/// What a read-only call does is told with the path or the pattern that it is
/// about, and with the lines or the part of the tree where it names them.
pub proof fn law_read_only_calls_are_told(inv: &ReadOnlyTool, r: String)
    requires
        call_ensures(summarize_read_only, (inv,), r),
    ensures
        match inv@ {
            ReadOnlyModel::List { path, recursive, .. } => {
                &&& holds_text(r@, path)
                &&& recursive ==> holds_text(r@, " recursive"@)
            },
            ReadOnlyModel::Read { path, line_range } => {
                &&& holds_text(r@, path)
                &&& line_range is Some ==> holds_text(
                    r@,
                    decimal((line_range->0).0 as nat) + ".."@ + decimal((line_range->0).1 as nat),
                )
            },
            ReadOnlyModel::Search { pattern, path_prefix, .. } => {
                &&& holds_text(r@, pattern)
                &&& path_prefix is Some ==> holds_text(r@, path_prefix->0)
            },
        },
{
    let none = Seq::<char>::empty();
    match inv@ {
        ReadOnlyModel::List { path, recursive, .. } => {
            if recursive {
                assert(r@ =~= ("list \""@ + path) + "\" recursive"@);
                reveal_strlit("\" recursive");
                reveal_strlit(" recursive");
                assert("\" recursive"@ =~= seq!['"'] + " recursive"@);
                assert(r@ =~= (("list \""@ + path + seq!['"']) + " recursive"@) + none);
            } else {
                assert(r@ =~= ("list \""@ + path) + "\""@);
            }
        },
        ReadOnlyModel::Read { path, line_range } => {
            match line_range {
                Some((start, end)) => {
                    let lines = decimal(start as nat) + ".."@ + decimal(end as nat);
                    assert(r@ =~= ("read \""@ + path) + ("\" lines "@ + lines));
                    assert(r@ =~= (("read \""@ + path + "\" lines "@) + lines) + none);
                },
                None => {
                    assert(r@ =~= ("read \""@ + path) + "\""@);
                },
            }
        },
        ReadOnlyModel::Search { pattern, path_prefix, .. } => {
            match path_prefix {
                Some(prefix) => {
                    assert(r@ =~= ("search \""@ + pattern) + ("\" in \""@ + prefix + "\""@));
                    assert(r@ =~= (("search \""@ + pattern + "\" in \""@) + prefix) + "\""@);
                },
                None => {
                    assert(r@ =~= ("search \""@ + pattern) + "\""@);
                },
            }
        },
    }
}

/// What a command would run is shown in full; the rules that are suggested for
/// it hold its first two words, or the one that it has.
pub proof fn law_commands_are_shown(argv: &Vec<String>, shown: String, rules: Vec<String>)
    requires
        call_ensures(render_command_preview, (argv,), shown),
        call_ensures(render_suggested_rule, (argv,), rules),
    ensures
        holds_text(shown@, shell_line(views(argv@))),
        argv@.len() == 0 <==> rules@.len() == 0,
        forall|i: int|
            1 <= i < rules@.len() && argv@.len() >= 2 ==> holds_text(
                (#[trigger] rules@[i])@,
                shell_line(seq![argv@[0]@, argv@[1]@]),
            ),
        forall|i: int|
            1 <= i < rules@.len() && argv@.len() == 1 ==> holds_text(
                (#[trigger] rules@[i])@,
                shell_line(seq![argv@[0]@]),
            ),
        argv@.len() > 0 ==> rules@.len() == 3 && holds_text(rules@[2]@, " --workspace"@),
{
    let none = Seq::<char>::empty();
    let line = shell_line(views(argv@));
    assert(shown@ =~= ("command preview: "@ + line) + none);
    assert(views(rules@).len() == rules@.len());
    assert(views(argv@).len() == argv@.len());
    if argv@.len() > 0 {
        let n: int = if argv@.len() < 2 {
            1
        } else {
            2
        };
        let prefix = shell_line(views(argv@).take(n));
        if argv@.len() >= 2 {
            assert(views(argv@).take(2) =~= seq![argv@[0]@, argv@[1]@]);
        } else {
            assert(views(argv@).take(1) =~= seq![argv@[0]@]);
        }
        assert(views(rules@)[1] == rules@[1]@);
        assert(views(rules@)[2] == rules@[2]@);
        let head = "  attini session grant "@;
        assert(rules@[1]@ == (head + prefix) + "                # session-local"@);
        let tail = " --workspace    # workspace-wide"@;
        assert(rules@[2]@ == (head + prefix) + tail);
        reveal_strlit(" --workspace");
        reveal_strlit(" --workspace    # workspace-wide");
        assert(tail =~= " --workspace"@ + tail.skip(12));
        assert(rules@[2]@ =~= ((head + prefix) + " --workspace"@) + tail.skip(12));
    }
}

/// What a patch would do is shown with the number of its edits and lines, and
/// with each file that it touches.
pub proof fn law_patches_are_shown(p: &PatchPreview, r: String)
    requires
        call_ensures(render_patch_preview_text, (p,), r),
    ensures
        holds_text(r@, decimal(p@.edit_count as nat) + " edit(s) across "@),
        holds_text(
            r@,
            "+"@ + decimal(p@.added_lines as nat) + " / -"@ + decimal(p@.removed_lines as nat)
                + " lines"@,
        ),
        forall|i: int|
            0 <= i < p@.target_paths.len() ==> holds_text(r@, #[trigger] p@.target_paths[i]),
{
    let paths = path_lines(p@.target_paths);
    let none = Seq::<char>::empty();
    let edits = decimal(p@.edit_count as nat) + " edit(s) across "@;
    let files = decimal(p@.target_paths.len());
    reveal_strlit(" file(s), +");
    reveal_strlit(" file(s), ");
    reveal_strlit("+");
    assert(" file(s), +"@ =~= " file(s), "@ + "+"@);
    let lines = "+"@ + decimal(p@.added_lines as nat) + " / -"@ + decimal(p@.removed_lines as nat)
        + " lines"@;
    let head = "patch preview: "@;
    assert(r@ =~= (head + edits) + (files + " file(s), "@ + lines + paths));
    assert(r@ =~= ((head + edits + files + " file(s), "@) + lines) + paths);
    let front = head + edits + files + " file(s), "@ + lines;
    assert(r@ =~= (front + paths) + none);
    assert forall|i: int| 0 <= i < p@.target_paths.len() implies holds_text(
        r@,
        #[trigger] p@.target_paths[i],
    ) by {
        lemma_path_lines(p@.target_paths, i);
        lemma_holds_part(front, paths, none, p@.target_paths[i]);
    }
}

proof fn lemma_path_lines(paths: Seq<Seq<char>>, i: int)
    requires
        0 <= i < paths.len(),
    ensures
        holds_text(path_lines(paths), paths[i]),
    decreases paths.len(),
{
    let before = path_lines(paths.drop_last());
    let none = Seq::<char>::empty();
    if i < paths.len() - 1 {
        lemma_path_lines(paths.drop_last(), i);
        assert(paths.drop_last()[i] == paths[i]);
        let rest = "\n  "@ + paths.last();
        assert((none + before) + rest =~= path_lines(paths));
        lemma_holds_part(none, before, rest, paths[i]);
    } else {
        assert(((before + "\n  "@) + paths[i]) + none =~= path_lines(paths));
    }
}

/// The line that opens an invocation names the model, the session and the
/// size of the conversation.
pub proof fn law_invocations_are_opened(model: &str, session: &str, tokens: u64, r: String)
    requires
        call_ensures(render_agent_status_line, (model, session, tokens), r),
    ensures
        holds_text(r@, "model="@ + model@ + " session="@ + session@),
        holds_text(r@, " ctx="@ + decimal(tokens as nat)),
{
    let none = Seq::<char>::empty();
    reveal_strlit("[agent] model=");
    reveal_strlit("[agent] ");
    reveal_strlit("model=");
    assert("[agent] model="@ =~= "[agent] "@ + "model="@);
    let who = "model="@ + model@ + " session="@ + session@;
    let size = " ctx="@ + decimal(tokens as nat);
    assert(r@ =~= ("[agent] "@ + who) + size);
    assert(r@ =~= (("[agent] "@ + who) + size) + none);
}

} // verus!
