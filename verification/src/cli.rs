//! What the command line says.
use vstd::prelude::*;
use vstd::string::*;

use crate::agent_cli::RateLimit;
use crate::model::maybe;
use crate::text::{
    cat, cat3, chars_of, debug_of, debug_text, decimal, decimal_of, find_char, find_from,
    int_error_text, lemma_find_from, parse_unsigned, same, string_of, unsigned_value, utf8_error,
    utf8_text, IntError,
};
use crate::time::Duration;

verus! {

pub const EXIT_USAGE: u8 = 2;

pub const EXIT_RUNTIME: u8 = 1;

pub const DEFAULT_MODEL: &'static str = "deepseek-flash";

/// The variable that names the session where the command line does not.
pub const SESSION_ENV: &'static str = "ATTINI_SESSION_NAME";

/// The variable that names the model where the command line does not.
pub const MODEL_ENV: &'static str = "ATTINI_MODEL_NAME";

/// The variable that caps the tokens where the command line does not.
pub const MAX_TOKENS_ENV: &'static str = "ATTINI_MAX_TOKENS";

/// The variable that holds the system prompt where the command line does not.
pub const SYSTEM_PROMPT_ENV: &'static str = "ATTINI_SYSTEM_PROMPT";

/// Maximum bytes that standard input adds to a prompt.
pub const MAX_STDIN_BYTES: usize = 1024 * 1024;

pub const DEFAULT_TURN_TOOL_CALL_LIMIT_STR: &'static str = "20";

pub const DEFAULT_TOOL_CALL_RATE_STR: &'static str = "60/60";

pub const DEFAULT_SESSION_TOOL_CALL_MAX_STR: &'static str = "5000";

/// A prompt with what came from standard input.
pub open spec fn with_stdin(prompt: Seq<char>, text: Seq<char>) -> Seq<char> {
    prompt + "\n\n--- stdin ---\n"@ + text + "\n--- end stdin ---"@
}

/// Appends what came from standard input to a prompt, between marks.
pub fn append_stdin_aux(prompt: String, stdin_text: &str) -> (r: String)
    ensures
        r@ == with_stdin(prompt@, stdin_text@),
{
    let mut out = prompt;
    out.append("\n\n--- stdin ---\n");
    out.append(stdin_text);
    out.append("\n--- end stdin ---");
    out
}

/// What standard input adds to a prompt: nothing where it is empty. It must
/// be text, and not too long.
pub open spec fn stdin_text(bytes: Seq<u8>) -> Result<Option<Seq<char>>, Seq<char>> {
    if bytes.len() > MAX_STDIN_BYTES {
        Err(
            "standard input exceeded "@ + decimal(MAX_STDIN_BYTES as nat)
                + " bytes; paste a smaller fragment"@,
        )
    } else if !vstd::utf8::valid_utf8(bytes) {
        Err("standard input is not UTF-8: "@ + utf8_error(bytes))
    } else if vstd::utf8::decode_utf8(bytes).len() == 0 {
        Ok(None)
    } else {
        Ok(Some(vstd::utf8::decode_utf8(bytes)))
    }
}

/// Decides what standard input adds to a prompt.
pub fn stdin_auxiliary(bytes: &[u8]) -> (r: Result<Option<String>, String>)
    ensures
        match r {
            Ok(t) => stdin_text(bytes@) == Ok::<Option<Seq<char>>, Seq<char>>(maybe(t)),
            Err(e) => stdin_text(bytes@) == Err::<Option<Seq<char>>, Seq<char>>(e@),
        },
{
    if bytes.len() > MAX_STDIN_BYTES {
        return Err(
            cat3(
                "standard input exceeded ",
                decimal_of(MAX_STDIN_BYTES as u64).as_str(),
                " bytes; paste a smaller fragment",
            ),
        );
    }
    match utf8_text(bytes) {
        Err(e) => Err(cat("standard input is not UTF-8: ", e.as_str())),
        Ok(text) => {
            proof {
                vstd::utf8::encode_utf8_decode_utf8(text@);
            }
            if text.is_empty() {
                Ok(None)
            } else {
                Ok(Some(text.to_owned()))
            }
        },
    }
}

/// What is said of a part of a rate that is no number.
pub open spec fn bad_part(which: Seq<char>, part: Seq<char>, why: Seq<char>) -> Seq<char> {
    "--tool-call-rate "@ + which + " part "@ + debug_text(part)
        + " is not a non-negative integer: "@ + why
}

/// The cap on a span of time that the command line asks for: `none`, or the
/// number of calls, a slash and the number of seconds, neither of them zero.
pub open spec fn rate_of(raw: Seq<char>) -> Result<Option<(int, int)>, Seq<char>> {
    let at = find_from(raw, '/', 0);
    if raw == "none"@ {
        Ok(None)
    } else if at >= raw.len() {
        Err(
            "--tool-call-rate must be <calls>/<window_seconds> or `none` (got "@ + debug_text(raw)
                + ")"@,
        )
    } else {
        let first = raw.take(at);
        let second = raw.skip(at + 1);
        match unsigned_value(first, usize::MAX as int) {
            Err(e) => Err(bad_part("calls"@, first, int_error_text(e))),
            Ok(calls) => match unsigned_value(second, u64::MAX as int) {
                Err(e) => Err(bad_part("window"@, second, int_error_text(e))),
                Ok(secs) => if calls == 0 || secs == 0 {
                    Err(
                        "--tool-call-rate calls and window must both be positive (use `none` to disable)"@,
                    )
                } else {
                    Ok(Some((calls, secs)))
                },
            },
        }
    }
}

fn write_bad_part(which: &str, part: &str, why: &str) -> (r: String)
    ensures
        r@ == bad_part(which@, part@, why@),
{
    let mut out = cat3("--tool-call-rate ", which, " part ");
    out.append(debug_of(part).as_str());
    out.append(" is not a non-negative integer: ");
    out.append(why);
    out
}

/// Reads the cap on a span of time.
pub fn parse_tool_call_rate(raw: &str) -> (r: Result<Option<RateLimit>, String>)
    ensures
        match r {
            Ok(None) => rate_of(raw@) == Ok::<Option<(int, int)>, Seq<char>>(None),
            Ok(Some(limit)) => rate_of(raw@) == Ok::<Option<(int, int)>, Seq<char>>(
                Some((limit.calls as int, limit.window.secs as int)),
            ) && limit.window.nanos == 0,
            Err(e) => rate_of(raw@) == Err::<Option<(int, int)>, Seq<char>>(e@),
        },
{
    if same(raw, "none") {
        return Ok(None);
    }
    let v = chars_of(raw);
    let at: usize = find_char(&v, '/', 0);
    if at >= v.len() {
        return Err(
            cat3(
                "--tool-call-rate must be <calls>/<window_seconds> or `none` (got ",
                debug_of(raw).as_str(),
                ")",
            ),
        );
    }
    proof {
        lemma_find_from(v@, '/', 0);
        assert(v@.subrange(0, at as int) =~= v@.take(at as int));
        assert(v@.subrange(at + 1, v@.len() as int) =~= v@.skip(at + 1));
    }
    let first = string_of(&v, 0, at);
    let second = string_of(&v, at + 1, v.len());
    let calls: u64 = match parse_unsigned(first.as_str(), usize::MAX as u64) {
        Ok(n) => n,
        Err(e) => return Err(write_bad_part("calls", first.as_str(), e.text().as_str())),
    };
    let secs: u64 = match parse_unsigned(second.as_str(), u64::MAX) {
        Ok(n) => n,
        Err(e) => return Err(write_bad_part("window", second.as_str(), e.text().as_str())),
    };
    if calls == 0 || secs == 0 {
        return Err(
            "--tool-call-rate calls and window must both be positive (use `none` to disable)".to_owned(),
        );
    }
    Ok(Some(RateLimit { calls: calls as usize, window: Duration::from_secs(secs) }))
}

/// The cap on an invocation that the command line asks for: `none`, or a
/// number that is not zero.
pub open spec fn max_of(raw: Seq<char>) -> Result<Option<int>, Seq<char>> {
    if raw == "none"@ {
        Ok(None)
    } else {
        match unsigned_value(raw, usize::MAX as int) {
            Err(e) => Err(
                "--session-tool-call-max must be a non-negative integer or `none` (got "@
                    + debug_text(raw) + "): "@ + int_error_text(e),
            ),
            Ok(n) => if n == 0 {
                Err("--session-tool-call-max must be positive (use `none` to disable)"@)
            } else {
                Ok(Some(n))
            },
        }
    }
}

/// Reads the cap on an invocation.
pub fn parse_session_tool_call_max(raw: &str) -> (r: Result<Option<usize>, String>)
    ensures
        match r {
            Ok(None) => max_of(raw@) == Ok::<Option<int>, Seq<char>>(None),
            Ok(Some(n)) => max_of(raw@) == Ok::<Option<int>, Seq<char>>(Some(n as int)),
            Err(e) => max_of(raw@) == Err::<Option<int>, Seq<char>>(e@),
        },
{
    if same(raw, "none") {
        return Ok(None);
    }
    match parse_unsigned(raw, usize::MAX as u64) {
        Err(e) => {
            let mut out = cat3(
                "--session-tool-call-max must be a non-negative integer or `none` (got ",
                debug_of(raw).as_str(),
                "): ",
            );
            out.append(e.text().as_str());
            Err(out)
        },
        Ok(n) => if n == 0 {
            Err("--session-tool-call-max must be positive (use `none` to disable)".to_owned())
        } else {
            Ok(Some(n as usize))
        },
    }
}

/// The rule that is kept along with an approval.
#[derive(Debug, Clone, Copy, PartialEq, Eq, Structural)]
pub enum GrantRequest {
    Absent,
    Oneshot,
    Session,
    Workspace,
}

/// Reads which rule is to be kept along with an approval.
pub fn parse_grant_request(scope: Option<&str>) -> (r: Result<GrantRequest, String>)
    ensures
        match scope {
            None => r == Ok::<GrantRequest, String>(GrantRequest::Absent),
            Some(s) => match r {
                Ok(g) => (g == GrantRequest::Oneshot && s@ == "oneshot"@) || (g
                    == GrantRequest::Session && s@ == "session"@) || (g == GrantRequest::Workspace
                    && s@ == "workspace"@),
                Err(e) => s@ != "oneshot"@ && s@ != "session"@ && s@ != "workspace"@ && e@
                    == "--grant must be 'oneshot', 'session', or 'workspace', got '"@ + s@ + "'"@,
            },
        },
{
    match scope {
        None => Ok(GrantRequest::Absent),
        Some(s) => if same(s, "oneshot") {
            Ok(GrantRequest::Oneshot)
        } else if same(s, "session") {
            Ok(GrantRequest::Session)
        } else if same(s, "workspace") {
            Ok(GrantRequest::Workspace)
        } else {
            Err(
                cat3(
                    "--grant must be 'oneshot', 'session', or 'workspace', got '",
                    s,
                    "'",
                ),
            )
        },
    }
}

/// A prompt with standard input starts with the prompt and holds all of the
/// input behind it.
pub proof fn law_input_follows_the_prompt(prompt: String, text: &str, r: String)
    requires
        call_ensures(append_stdin_aux, (prompt, text), r),
    ensures
        r@.len() >= prompt@.len() + text@.len(),
        r@.take(prompt@.len() as int) == prompt@,
        crate::agent_cli::telling::holds_text(r@.skip(prompt@.len() as int), text@),
{
    assert(r@.take(prompt@.len() as int) =~= prompt@);
    let a = "\n\n--- stdin ---\n"@;
    let b = "\n--- end stdin ---"@;
    assert(r@.skip(prompt@.len() as int) =~= (a + text@) + b);
}

/// Standard input is refused where it is too long or no text; it adds nothing
/// where it is empty, and all of its text otherwise.
pub proof fn law_input_is_taken_whole(bytes: &[u8], r: Result<Option<String>, String>)
    requires
        call_ensures(stdin_auxiliary, (bytes,), r),
    ensures
        r is Err <==> bytes@.len() > 1_048_576 || !vstd::utf8::valid_utf8(bytes@),
        r is Ok && r->Ok_0 is Some ==> r->Ok_0->0@ == vstd::utf8::decode_utf8(bytes@)
            && r->Ok_0->0@.len() > 0,
        r is Ok && r->Ok_0 is None ==> vstd::utf8::decode_utf8(bytes@).len() == 0,
{
    if let Ok(t) = r {
        assert(maybe(t) is Some <==> t is Some);
    }
}

/// A cap on a span of time is read from two numbers with a slash between
/// them, neither of them zero; `none` is no cap. Nothing else is read.
pub proof fn law_rates_are_read(raw: &str, r: Result<Option<RateLimit>, String>)
    requires
        call_ensures(parse_tool_call_rate, (raw,), r),
    ensures
        r == Ok::<Option<RateLimit>, String>(None) <==> raw@ == "none"@,
        r matches Ok(Some(limit)) ==> {
            &&& limit.calls > 0
            &&& limit.window.secs > 0
            &&& limit.window.nanos == 0
            &&& exists|at: int|
                0 <= at < raw@.len() && #[trigger] raw@[at] == '/' && unsigned_value(
                    raw@.take(at),
                    usize::MAX as int,
                ) == Ok::<int, IntError>(limit.calls as int) && unsigned_value(
                    raw@.skip(at + 1),
                    u64::MAX as int,
                ) == Ok::<int, IntError>(limit.window.secs as int)
        },
        raw@ != "none"@ && !raw@.contains('/') ==> r is Err,
{
    lemma_find_from(raw@, '/', 0);
    let at = find_from(raw@, '/', 0);
    if at < raw@.len() {
        assert(raw@[at] == '/');
    }
}

/// Two numbers that fit, neither of them zero, are read as a cap on a span of
/// time: so many calls in so many seconds.
pub proof fn law_rates_that_fit_are_read(
    raw: &str,
    r: Result<Option<RateLimit>, String>,
    calls: Seq<char>,
    secs: Seq<char>,
)
    requires
        call_ensures(parse_tool_call_rate, (raw,), r),
        raw@ == calls + "/"@ + secs,
        !calls.contains('/'),
        unsigned_value(calls, usize::MAX as int) is Ok,
        unsigned_value(calls, usize::MAX as int)->Ok_0 > 0,
        unsigned_value(secs, u64::MAX as int) is Ok,
        unsigned_value(secs, u64::MAX as int)->Ok_0 > 0,
    ensures
        r is Ok,
        r->Ok_0 is Some,
        r->Ok_0->0.calls == unsigned_value(calls, usize::MAX as int)->Ok_0,
        r->Ok_0->0.window.secs == unsigned_value(secs, u64::MAX as int)->Ok_0,
{
    reveal_strlit("/");
    reveal_strlit("none");
    lemma_find_from(raw@, '/', 0);
    let at = find_from(raw@, '/', 0);
    assert(raw@[calls.len() as int] == '/');
    if at < calls.len() {
        assert(calls[at] == '/');
    }
    assert(raw@.take(at) =~= calls);
    assert(raw@.skip(at + 1) =~= secs);
    assert(raw@ != "none"@) by {
        if raw@ == "none"@ {
            assert("none"@[calls.len() as int] == '/');
        }
    }
}

/// A cap on an invocation is read from a number that is not zero; `none` is
/// no cap. Nothing else is read.
pub proof fn law_caps_are_read(raw: &str, r: Result<Option<usize>, String>)
    requires
        call_ensures(parse_session_tool_call_max, (raw,), r),
    ensures
        r == Ok::<Option<usize>, String>(None) <==> raw@ == "none"@,
        r matches Ok(Some(n)) ==> n > 0 && unsigned_value(raw@, usize::MAX as int) == Ok::<
            int,
            IntError,
        >(n as int),
        raw@ != "none"@ && unsigned_value(raw@, usize::MAX as int) is Ok && unsigned_value(
            raw@,
            usize::MAX as int,
        )->Ok_0 > 0 ==> r is Ok && r->Ok_0 is Some,
        raw@ != "none"@ && unsigned_value(raw@, usize::MAX as int) is Err ==> r is Err,
        raw@ != "none"@ && unsigned_value(raw@, usize::MAX as int) == Ok::<int, IntError>(0)
            ==> r is Err,
{
}

/// A rule is kept along with an approval for as long as is named, and for
/// nothing where nothing is named.
pub proof fn law_grants_are_named(scope: Option<&str>, r: Result<GrantRequest, String>)
    requires
        call_ensures(parse_grant_request, (scope,), r),
    ensures
        scope is None ==> r == Ok::<GrantRequest, String>(GrantRequest::Absent),
        scope is Some && scope->0@ == "oneshot"@ ==> r == Ok::<GrantRequest, String>(
            GrantRequest::Oneshot,
        ),
        scope is Some && scope->0@ == "session"@ ==> r == Ok::<GrantRequest, String>(
            GrantRequest::Session,
        ),
        scope is Some && scope->0@ == "workspace"@ ==> r == Ok::<GrantRequest, String>(
            GrantRequest::Workspace,
        ),
        scope is Some && scope->0@ != "oneshot"@ && scope->0@ != "session"@ && scope->0@
            != "workspace"@ ==> r is Err,
{
    reveal_strlit("oneshot");
    reveal_strlit("session");
    reveal_strlit("workspace");
    assert("oneshot"@[0] == 'o' && "session"@[0] == 's' && "workspace"@[0] == 'w');
}

} // verus!
