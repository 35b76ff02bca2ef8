//! What is counted during one invocation.
use vstd::prelude::*;
use vstd::string::*;

use crate::sansio::deepseek::Usage;
use crate::session::entries_of;
use crate::text::same;

verus! {

/// Counts of one invocation. They stop at the largest number.
#[derive(Debug, Clone, Copy, PartialEq, Eq, Structural)]
pub struct Counters {
    pub turns: u64,
    pub tool_calls_by_kind: ToolCallsByKind,
    pub tool_errors: u64,
    pub prompt_tokens_billed_total: u64,
    /// Prompt tokens of the latest call to the model: the size of the
    /// conversation.
    pub prompt_tokens_last: u64,
    pub completion_tokens_total: u64,
    pub prompt_cache_hit_tokens_total: u64,
    pub prompt_cache_miss_tokens_total: u64,
    /// How often a conversation was to be summed up.
    pub compaction_attempts: u64,
    /// How often that failed.
    pub compaction_failures: u64,
}

/// Tool calls by the name of the tool.
#[derive(Debug, Clone, Copy, PartialEq, Eq, Structural)]
pub struct ToolCallsByKind {
    pub list: u64,
    pub read: u64,
    pub search: u64,
    pub patch: u64,
    pub command: u64,
    pub skill_load: u64,
    pub unknown: u64,
}

/// Nothing counted yet.
pub open spec fn no_calls() -> ToolCallsByKind {
    ToolCallsByKind {
        list: 0,
        read: 0,
        search: 0,
        patch: 0,
        command: 0,
        skill_load: 0,
        unknown: 0,
    }
}

/// Nothing counted yet.
pub open spec fn no_counts() -> Counters {
    Counters {
        turns: 0,
        tool_calls_by_kind: no_calls(),
        tool_errors: 0,
        prompt_tokens_billed_total: 0,
        prompt_tokens_last: 0,
        completion_tokens_total: 0,
        prompt_cache_hit_tokens_total: 0,
        prompt_cache_miss_tokens_total: 0,
        compaction_attempts: 0,
        compaction_failures: 0,
    }
}

impl Default for ToolCallsByKind {
    fn default() -> (r: Self)
        ensures
            r == no_calls(),
    {
        ToolCallsByKind {
            list: 0,
            read: 0,
            search: 0,
            patch: 0,
            command: 0,
            skill_load: 0,
            unknown: 0,
        }
    }
}

impl Default for Counters {
    fn default() -> (r: Self)
        ensures
            r == no_counts(),
    {
        Counters {
            turns: 0,
            tool_calls_by_kind: ToolCallsByKind::default(),
            tool_errors: 0,
            prompt_tokens_billed_total: 0,
            prompt_tokens_last: 0,
            completion_tokens_total: 0,
            prompt_cache_hit_tokens_total: 0,
            prompt_cache_miss_tokens_total: 0,
            compaction_attempts: 0,
            compaction_failures: 0,
        }
    }
}

/// A sum that stops at the largest number.
pub open spec fn capped_sum(a: u64, b: u64) -> u64 {
    if a + b > u64::MAX {
        u64::MAX
    } else {
        (a + b) as u64
    }
}

/// The counts after a call to the tool with that name.
pub open spec fn call_counted(k: ToolCallsByKind, name: Seq<char>) -> ToolCallsByKind {
    if name == "list"@ {
        ToolCallsByKind { list: capped_sum(k.list, 1), ..k }
    } else if name == "read"@ {
        ToolCallsByKind { read: capped_sum(k.read, 1), ..k }
    } else if name == "search"@ {
        ToolCallsByKind { search: capped_sum(k.search, 1), ..k }
    } else if name == "patch"@ {
        ToolCallsByKind { patch: capped_sum(k.patch, 1), ..k }
    } else if name == "command"@ {
        ToolCallsByKind { command: capped_sum(k.command, 1), ..k }
    } else if name == "skill_load"@ {
        ToolCallsByKind { skill_load: capped_sum(k.skill_load, 1), ..k }
    } else {
        ToolCallsByKind { unknown: capped_sum(k.unknown, 1), ..k }
    }
}

/// A number that may be absent.
pub open spec fn or_zero(n: Option<u64>) -> u64 {
    match n {
        Some(n) => n,
        None => 0,
    }
}

/// The counts after a call to the model that took that many tokens.
pub open spec fn usage_counted(c: Counters, u: Usage) -> Counters {
    Counters {
        prompt_tokens_last: or_zero(u.prompt_tokens),
        prompt_tokens_billed_total: capped_sum(
            c.prompt_tokens_billed_total,
            or_zero(u.prompt_tokens),
        ),
        completion_tokens_total: capped_sum(
            c.completion_tokens_total,
            or_zero(u.completion_tokens),
        ),
        prompt_cache_hit_tokens_total: capped_sum(
            c.prompt_cache_hit_tokens_total,
            or_zero(u.prompt_cache_hit_tokens),
        ),
        prompt_cache_miss_tokens_total: capped_sum(
            c.prompt_cache_miss_tokens_total,
            or_zero(u.prompt_cache_miss_tokens),
        ),
        ..c
    }
}

/// The counts after one more tool call went wrong.
pub open spec fn error_counted(c: Counters) -> Counters {
    Counters { tool_errors: capped_sum(c.tool_errors, 1), ..c }
}

/// The counts under their names.
pub open spec fn metrics_entries(c: Counters, duration_ms: u64) -> Seq<(Seq<char>, u64)> {
    seq![
        ("turns"@, c.turns),
        ("tool_calls.list"@, c.tool_calls_by_kind.list),
        ("tool_calls.read"@, c.tool_calls_by_kind.read),
        ("tool_calls.search"@, c.tool_calls_by_kind.search),
        ("tool_calls.patch"@, c.tool_calls_by_kind.patch),
        ("tool_calls.command"@, c.tool_calls_by_kind.command),
        ("tool_calls.skill_load"@, c.tool_calls_by_kind.skill_load),
        ("tool_calls.unknown"@, c.tool_calls_by_kind.unknown),
        ("tool_errors"@, c.tool_errors),
        ("duration_ms"@, duration_ms),
        ("prompt_tokens_billed_total"@, c.prompt_tokens_billed_total),
        ("completion_tokens_total"@, c.completion_tokens_total),
        ("prompt_cache_hit_tokens_total"@, c.prompt_cache_hit_tokens_total),
        ("prompt_cache_miss_tokens_total"@, c.prompt_cache_miss_tokens_total),
        ("compaction_attempts"@, c.compaction_attempts),
        ("compaction_failures"@, c.compaction_failures),
    ]
}

fn zero_if_absent(n: Option<u64>) -> (r: u64)
    ensures
        r == or_zero(n),
{
    match n {
        Some(n) => n,
        None => 0,
    }
}

fn sum(a: u64, b: u64) -> (r: u64)
    ensures
        r == capped_sum(a, b),
{
    if a > u64::MAX - b {
        u64::MAX
    } else {
        a + b
    }
}

impl ToolCallsByKind {
    /// Counts a call to the tool with that name.
    pub fn count(&mut self, name: &str)
        ensures
            *final(self) == call_counted(*old(self), name@),
    {
        if same(name, "list") {
            self.list = sum(self.list, 1);
        } else if same(name, "read") {
            self.read = sum(self.read, 1);
        } else if same(name, "search") {
            self.search = sum(self.search, 1);
        } else if same(name, "patch") {
            self.patch = sum(self.patch, 1);
        } else if same(name, "command") {
            self.command = sum(self.command, 1);
        } else if same(name, "skill_load") {
            self.skill_load = sum(self.skill_load, 1);
        } else {
            self.unknown = sum(self.unknown, 1);
        }
    }
}

impl Counters {
    /// Counts a turn.
    pub fn count_turn(&mut self)
        ensures
            *final(self) == (Counters {
                turns: capped_sum(old(self).turns, 1),
                ..*old(self)
            }),
    {
        self.turns = sum(self.turns, 1);
    }

    /// Counts a tool call that went wrong.
    pub fn count_error(&mut self)
        ensures
            *final(self) == error_counted(*old(self)),
    {
        self.tool_errors = sum(self.tool_errors, 1);
    }

    /// Counts an attempt to sum up the conversation, and whether it failed.
    pub fn count_compaction(&mut self, failed: bool)
        ensures
            *final(self) == (Counters {
                compaction_attempts: capped_sum(old(self).compaction_attempts, 1),
                compaction_failures: if failed {
                    capped_sum(old(self).compaction_failures, 1)
                } else {
                    old(self).compaction_failures
                },
                ..*old(self)
            }),
    {
        self.compaction_attempts = sum(self.compaction_attempts, 1);
        if failed {
            self.compaction_failures = sum(self.compaction_failures, 1);
        }
    }

    /// Counts the tokens of a call to the model.
    pub fn count_usage(&mut self, usage: Usage)
        ensures
            *final(self) == usage_counted(*old(self), usage),
    {
        let prompt: u64 = zero_if_absent(usage.prompt_tokens);
        self.prompt_tokens_last = prompt;
        self.prompt_tokens_billed_total = sum(self.prompt_tokens_billed_total, prompt);
        self.completion_tokens_total = sum(
            self.completion_tokens_total,
            zero_if_absent(usage.completion_tokens),
        );
        self.prompt_cache_hit_tokens_total = sum(
            self.prompt_cache_hit_tokens_total,
            zero_if_absent(usage.prompt_cache_hit_tokens),
        );
        self.prompt_cache_miss_tokens_total = sum(
            self.prompt_cache_miss_tokens_total,
            zero_if_absent(usage.prompt_cache_miss_tokens),
        );
    }

    /// The counts under their names, with how long the invocation took.
    pub fn to_metrics_entries(&self, duration_ms: u64) -> (r: Vec<(String, u64)>)
        ensures
            entries_of(r@) == metrics_entries(*self, duration_ms),
    {
        let mut out: Vec<(String, u64)> = Vec::new();
        out.push(("turns".to_owned(), self.turns));
        out.push(("tool_calls.list".to_owned(), self.tool_calls_by_kind.list));
        out.push(("tool_calls.read".to_owned(), self.tool_calls_by_kind.read));
        out.push(("tool_calls.search".to_owned(), self.tool_calls_by_kind.search));
        out.push(("tool_calls.patch".to_owned(), self.tool_calls_by_kind.patch));
        out.push(("tool_calls.command".to_owned(), self.tool_calls_by_kind.command));
        out.push(("tool_calls.skill_load".to_owned(), self.tool_calls_by_kind.skill_load));
        out.push(("tool_calls.unknown".to_owned(), self.tool_calls_by_kind.unknown));
        out.push(("tool_errors".to_owned(), self.tool_errors));
        out.push(("duration_ms".to_owned(), duration_ms));
        out.push(("prompt_tokens_billed_total".to_owned(), self.prompt_tokens_billed_total));
        out.push(("completion_tokens_total".to_owned(), self.completion_tokens_total));
        out.push(("prompt_cache_hit_tokens_total".to_owned(), self.prompt_cache_hit_tokens_total));
        out.push(
            ("prompt_cache_miss_tokens_total".to_owned(), self.prompt_cache_miss_tokens_total),
        );
        out.push(("compaction_attempts".to_owned(), self.compaction_attempts));
        out.push(("compaction_failures".to_owned(), self.compaction_failures));
        assert(entries_of(out@) =~= metrics_entries(*self, duration_ms));
        out
    }
}

} // verus!
