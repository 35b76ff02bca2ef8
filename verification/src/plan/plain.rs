//! Plans that are rendered and read back as they are, told from their strings.
use vstd::prelude::*;
use vstd::string::*;

use super::file::{
    actions_json, checkbox_line, checkbox_lines, items_error, plan_of, unsealed_plan, ACTIONS_BEGIN,
    ACTIONS_END, CONFIRMATIONS_BEGIN, CONFIRMATIONS_END, CONFIRM_PREFIX,
};
use super::readback::{
    actions_members, command_members, command_value, command_values, lemma_actions_text,
    patch_members, patch_value, patch_values,
};
use super::roundtrip::{
    free, is_marker, law_sealed_plans_read_back, lemma_free, lemma_plain_items,
    lemma_trimmed_end_occurs, lemma_trimmed_start_occurs, lemma_unmarked, plain_item, renders_whole,
    unmarked,
};
use super::seal::{is_hash, with_seal, SEAL_PREFIX};
use super::{
    actions_error, command_action_error, patch_action_error, valid_id, ActionsModel,
    CommandActionModel, ConfirmationModel, PatchActionModel, PlanErrorModel, PlanModel,
    PLAN_FORMAT_VERSION, PLAN_MAX_BYTES,
};
use crate::json::value::{
    faithful, flat, json_text, json_texts, lemma_quoted_is_one_line, member_texts, text_list,
    JsonValue,
};
use crate::json::{escaped, escaped_char, quoted};
use crate::model::{first_some, lemma_none_before};
use crate::text::{byte_len, contains, decimal, joined, occurs_at, trimmed, trimmed_start};

verus! {

/// The characters that markers and fences are made of.
pub open spec fn marker_char(c: char) -> bool {
    c == '<' || c == '!' || c == '-' || c == ' ' || c == ':' || c == '>' || c == '`' || 'A' <= c
        <= 'Z'
}

/// Whether a word is made like a marker or a fence.
pub open spec fn marker_like(w: Seq<char>) -> bool {
    &&& w.len() > 0
    &&& w[0] == '<' || w[0] == '`'
    &&& forall|i: int| 0 <= i < w.len() ==> marker_char(#[trigger] w[i])
}

/// Whether no marker or fence can start in a text.
pub open spec fn startless(s: Seq<char>) -> bool {
    forall|i: int| 0 <= i < s.len() ==> #[trigger] s[i] != '<' && s[i] != '`'
}

proof fn lemma_markers_are_like()
    ensures
        marker_like(ACTIONS_BEGIN@),
        marker_like(ACTIONS_END@),
        marker_like(CONFIRMATIONS_BEGIN@),
        marker_like(CONFIRMATIONS_END@),
        marker_like("```"@),
{
    reveal_strlit("<!-- ATTINI-ACTIONS:BEGIN -->");
    reveal_strlit("<!-- ATTINI-ACTIONS:END -->");
    reveal_strlit("<!-- ATTINI-CONFIRMATIONS:BEGIN -->");
    reveal_strlit("<!-- ATTINI-CONFIRMATIONS:END -->");
    reveal_strlit("```");
}

/// A word does not stand over the seam of two texts where one of the two
/// characters at the seam is none of its own.
proof fn lemma_free_seam(a: Seq<char>, b: Seq<char>, w: Seq<char>)
    requires
        marker_like(w),
        free(a, w),
        free(b, w),
        a.len() == 0 || b.len() == 0 || !marker_char(a.last()) || !marker_char(b[0]),
    ensures
        free(a + b, w),
{
    let s = a + b;
    let n = a.len() as int;
    assert forall|at: int| !#[trigger] occurs_at(s, w, at) by {
        if occurs_at(s, w, at) {
            let part = s.subrange(at, at + w.len());
            if at + w.len() <= n {
                assert(a.subrange(at, at + w.len()) =~= part);
                assert(occurs_at(a, w, at));
            } else if at >= n {
                assert(b.subrange(at - n, at - n + w.len()) =~= part);
                assert(occurs_at(b, w, at - n));
            } else {
                assert(part[n - 1 - at] == a.last());
                assert(part[n - at] == b[0]);
                assert(marker_char(w[n - 1 - at]) && marker_char(w[n - at]));
            }
        }
    }
}

proof fn lemma_startless(s: Seq<char>, w: Seq<char>)
    requires
        marker_like(w),
        startless(s),
    ensures
        free(s, w),
{
    assert forall|at: int| !#[trigger] occurs_at(s, w, at) by {
        if occurs_at(s, w, at) {
            assert(s.subrange(at, at + w.len())[0] == s[at]);
        }
    }
}

/// A word that cannot start in the first text does not stand over the seam.
proof fn lemma_free_behind(a: Seq<char>, b: Seq<char>, w: Seq<char>)
    requires
        marker_like(w),
        startless(a),
        free(b, w),
    ensures
        free(a + b, w),
{
    let s = a + b;
    let n = a.len() as int;
    assert forall|at: int| !#[trigger] occurs_at(s, w, at) by {
        if occurs_at(s, w, at) {
            let part = s.subrange(at, at + w.len());
            if at < n {
                assert(part[0] == a[at]);
            } else {
                assert(b.subrange(at - n, at - n + w.len()) =~= part);
                assert(occurs_at(b, w, at - n));
            }
        }
    }
}

/// A character stands for itself in a JSON string, or what is written for it
/// holds no character of a marker.
proof fn lemma_escaped_char(c: char)
    ensures
        escaped_char(c) == seq![c] || forall|i: int|
            0 <= i < escaped_char(c).len() ==> !marker_char(#[trigger] escaped_char(c)[i]),
        escaped_char(c).len() > 0,
{
}

/// What a JSON string ends with, if it is made of the characters of markers,
/// the text in it ends with.
proof fn lemma_escaped_end(s: Seq<char>, w: Seq<char>)
    requires
        forall|i: int| 0 <= i < w.len() ==> marker_char(#[trigger] w[i]),
        w.len() <= escaped(s).len(),
        escaped(s).skip(escaped(s).len() - w.len()) == w,
    ensures
        w.len() <= s.len(),
        s.skip(s.len() - w.len()) == w,
    decreases w.len(),
{
    if w.len() == 0 {
        assert(s.skip(s.len() as int) =~= w);
    } else {
        let e = escaped(s);
        let before = escaped(s.drop_last());
        let b = escaped_char(s.last());
        lemma_escaped_char(s.last());
        assert(e == before + b);
        assert(e.last() == b.last());
        assert(e.skip(e.len() - w.len()).last() == e.last());
        assert(marker_char(w[w.len() - 1]));
        assert(b == seq![s.last()]);
        let v = w.drop_last();
        assert forall|i: int| 0 <= i < v.len() implies marker_char(#[trigger] v[i]) by {
            assert(v[i] == w[i]);
        }
        assert(before.skip(before.len() - v.len()) =~= v) by {
            assert forall|i: int| 0 <= i < v.len() implies before[before.len() - v.len() + i]
                == #[trigger] v[i] by {
                assert(v[i] == w[i]);
                assert(e.skip(e.len() - w.len())[i] == e[e.len() - w.len() + i]);
            }
        }
        lemma_escaped_end(s.drop_last(), v);
        assert(s.skip(s.len() - w.len()) =~= w) by {
            assert forall|i: int| 0 <= i < w.len() implies s[s.len() - w.len() + i]
                == #[trigger] w[i] by {
                if i < v.len() {
                    let t = s.drop_last();
                    assert(t.skip(t.len() - v.len())[i] == v[i]);
                }
            }
        }
    }
}

/// A JSON string holds no marker that the text in it does not hold.
proof fn lemma_escaped_is_free(s: Seq<char>, w: Seq<char>)
    requires
        marker_like(w),
        free(s, w),
    ensures
        free(escaped(s), w),
    decreases s.len(),
{
    if s.len() == 0 {
        lemma_startless(escaped(s), w);
    } else {
        let t = s.drop_last();
        assert forall|at: int| !#[trigger] occurs_at(t, w, at) by {
            if occurs_at(t, w, at) {
                assert(t.subrange(at, at + w.len()) =~= s.subrange(at, at + w.len()));
                assert(occurs_at(s, w, at));
            }
        }
        lemma_escaped_is_free(t, w);
        let e = escaped(s);
        let before = escaped(t);
        let b = escaped_char(s.last());
        let n = before.len() as int;
        lemma_escaped_char(s.last());
        assert(e == before + b);
        assert forall|at: int| !#[trigger] occurs_at(e, w, at) by {
            if occurs_at(e, w, at) {
                let part = e.subrange(at, at + w.len());
                if at + w.len() <= n {
                    assert(before.subrange(at, at + w.len()) =~= part);
                    assert(occurs_at(before, w, at));
                } else {
                    let k = at + w.len() - 1;
                    assert(part[k - at] == b[k - n]);
                    assert(marker_char(w[k - at]));
                    assert(b == seq![s.last()]);
                    assert(e.skip(e.len() - w.len()) =~= w);
                    lemma_escaped_end(s, w);
                    let p = s.len() - w.len();
                    assert(s.subrange(p, p + w.len()) =~= s.skip(p));
                    assert(occurs_at(s, w, p));
                }
            }
        }
    }
}

proof fn lemma_quoted_is_free(s: Seq<char>, w: Seq<char>)
    requires
        marker_like(w),
        free(s, w),
    ensures
        free(quoted(s), w),
{
    lemma_escaped_is_free(s, w);
    lemma_startless(seq!['"'], w);
    lemma_free_seam(seq!['"'], escaped(s), w);
    lemma_free_seam(seq!['"'] + escaped(s), seq!['"'], w);
}

proof fn lemma_decimal_is_startless(n: nat)
    ensures
        startless(decimal(n)),
    decreases n,
{
    if n >= 10 {
        lemma_decimal_is_startless(n / 10);
    }
}

proof fn lemma_joined_is_free(parts: Seq<Seq<char>>, w: Seq<char>)
    requires
        marker_like(w),
        forall|i: int| 0 <= i < parts.len() ==> free(#[trigger] parts[i], w),
    ensures
        free(joined(parts, ","@), w),
    decreases parts.len(),
{
    reveal_strlit(",");
    if parts.len() > 1 {
        let before = parts.drop_last();
        assert forall|i: int| 0 <= i < before.len() implies free(#[trigger] before[i], w) by {
            assert(before[i] == parts[i]);
        }
        lemma_joined_is_free(before, w);
        lemma_startless(","@, w);
        lemma_free_seam(joined(before, ","@), ","@, w);
        assert(free(parts[parts.len() - 1], w));
        lemma_free_seam(joined(before, ","@) + ","@, parts.last(), w);
    } else if parts.len() == 1 {
        assert(free(parts[0], w));
    } else {
        lemma_startless(joined(parts, ","@), w);
    }
}

/// Whether no string of a JSON value holds that word.
pub open spec fn words_free(v: JsonValue, w: Seq<char>) -> bool
    decreases v,
{
    match v {
        JsonValue::Text(s) => free(s, w),
        JsonValue::List(items) => forall|i: int|
            0 <= i < items.len() ==> words_free(#[trigger] items[i], w),
        JsonValue::Members(items) => forall|i: int|
            0 <= i < items.len() ==> free((#[trigger] items[i]).0, w) && words_free(items[i].1, w),
        _ => true,
    }
}

proof fn lemma_texts_are_free(items: Seq<JsonValue>, n: nat, w: Seq<char>)
    requires
        marker_like(w),
        n <= items.len(),
        forall|i: int| 0 <= i < items.len() ==> words_free(#[trigger] items[i], w),
    ensures
        forall|i: int|
            0 <= i < json_texts(items, n).len() ==> free(#[trigger] json_texts(items, n)[i], w),
    decreases items, n,
{
    if n > 0 {
        lemma_texts_are_free(items, (n - 1) as nat, w);
        assert(words_free(items[n - 1], w));
        lemma_json_text_is_free(items[n - 1], w);
        let before = json_texts(items, (n - 1) as nat);
        assert forall|i: int| 0 <= i < json_texts(items, n).len() implies free(
            #[trigger] json_texts(items, n)[i],
            w,
        ) by {
            if i < before.len() {
                assert(json_texts(items, n)[i] == before[i]);
            }
        }
    }
}

proof fn lemma_member_is_free(name: Seq<char>, text: Seq<char>, w: Seq<char>)
    requires
        marker_like(w),
        free(name, w),
        free(text, w),
    ensures
        free(quoted(name) + ":"@ + text, w),
{
    reveal_strlit(":");
    lemma_quoted_is_free(name, w);
    lemma_quoted_is_one_line(name);
    lemma_free_behind(":"@, text, w);
    lemma_free_seam(quoted(name), ":"@ + text, w);
    assert(quoted(name) + ":"@ + text =~= quoted(name) + (":"@ + text));
}

proof fn lemma_member_texts_are_free(items: Seq<(Seq<char>, JsonValue)>, n: nat, w: Seq<char>)
    requires
        marker_like(w),
        n <= items.len(),
        forall|i: int|
            0 <= i < items.len() ==> free((#[trigger] items[i]).0, w) && words_free(items[i].1, w),
    ensures
        forall|i: int|
            0 <= i < member_texts(items, n).len() ==> free(#[trigger] member_texts(items, n)[i], w),
    decreases items, n,
{
    if n > 0 {
        lemma_member_texts_are_free(items, (n - 1) as nat, w);
        assert(free(items[n - 1].0, w) && words_free(items[n - 1].1, w));
        lemma_json_text_is_free(items[n - 1].1, w);
        lemma_member_is_free(items[n - 1].0, json_text(items[n - 1].1), w);
        let before = member_texts(items, (n - 1) as nat);
        assert forall|i: int| 0 <= i < member_texts(items, n).len() implies free(
            #[trigger] member_texts(items, n)[i],
            w,
        ) by {
            if i < before.len() {
                assert(member_texts(items, n)[i] == before[i]);
            }
        }
    }
}

/// The text between an opening and a closing bracket.
proof fn lemma_bracketed_is_free(open: Seq<char>, s: Seq<char>, close: Seq<char>, w: Seq<char>)
    requires
        marker_like(w),
        free(s, w),
        open.len() == 1,
        close.len() == 1,
        !marker_char(open[0]),
        !marker_char(close[0]),
    ensures
        free(open + s + close, w),
{
    lemma_startless(open, w);
    lemma_startless(close, w);
    lemma_free_seam(open, s, w);
    lemma_free_seam(open + s, close, w);
}

/// The text of a value holds no marker that no string of the value holds.
proof fn lemma_json_text_is_free(v: JsonValue, w: Seq<char>)
    requires
        marker_like(w),
        words_free(v, w),
    ensures
        free(json_text(v), w),
    decreases v, 0nat,
{
    reveal_strlit("null");
    reveal_strlit("true");
    reveal_strlit("false");
    reveal_strlit("[");
    reveal_strlit("]");
    reveal_strlit("{");
    reveal_strlit("}");
    match v {
        JsonValue::Number(n) => {
            lemma_decimal_is_startless(n);
            lemma_startless(decimal(n), w);
        },
        JsonValue::Text(s) => lemma_quoted_is_free(s, w),
        JsonValue::List(items) => {
            let texts = json_texts(items, items.len());
            lemma_texts_are_free(items, items.len(), w);
            lemma_joined_is_free(texts, w);
            lemma_bracketed_is_free("["@, joined(texts, ","@), "]"@, w);
        },
        JsonValue::Members(items) => {
            let texts = member_texts(items, items.len());
            lemma_member_texts_are_free(items, items.len(), w);
            lemma_joined_is_free(texts, w);
            lemma_bracketed_is_free("{"@, joined(texts, ","@), "}"@, w);
        },
        _ => lemma_startless(json_text(v), w),
    }
}

/// Whether the strings of a patch action hold that word nowhere.
pub open spec fn patch_without(p: PatchActionModel, w: Seq<char>) -> bool {
    !contains(p.path, w) && !contains(p.description, w)
}

/// Whether the strings of a command action hold that word nowhere.
pub open spec fn command_without(c: CommandActionModel, w: Seq<char>) -> bool {
    &&& !contains(c.description, w)
    &&& forall|i: int| 0 <= i < c.argv.len() ==> !contains(#[trigger] c.argv[i], w)
}

/// Whether the strings of a manifest hold that word nowhere.
pub open spec fn actions_without(a: ActionsModel, w: Seq<char>) -> bool {
    &&& forall|i: int| 0 <= i < a.patches.len() ==> patch_without(#[trigger] a.patches[i], w)
    &&& forall|i: int| 0 <= i < a.commands.len() ==> command_without(#[trigger] a.commands[i], w)
}

/// Whether the body, the actions and the confirmations of a plan are valid, and
/// each string of them leaves the plan file's markers alone: no marker stands
/// in one, no fence in one of the actions, and each description of a
/// confirmation is one line without white space around it.
pub open spec fn plain_plan(
    body: Seq<char>,
    a: ActionsModel,
    items: Seq<ConfirmationModel>,
) -> bool {
    &&& actions_error(a) is None
    &&& items_error(items) is None
    &&& unmarked(body)
    &&& !contains(body, SEAL_PREFIX@)
    &&& actions_without(a, ACTIONS_BEGIN@)
    &&& actions_without(a, ACTIONS_END@)
    &&& actions_without(a, CONFIRMATIONS_BEGIN@)
    &&& actions_without(a, CONFIRMATIONS_END@)
    &&& actions_without(a, "```"@)
    &&& forall|k: int|
        0 <= k < items.len() ==> unmarked((#[trigger] items[k]).description) && flat(
            items[k].description,
        ) && trimmed(items[k].description) == items[k].description
}

proof fn lemma_ids_are_free(id: Seq<char>, w: Seq<char>)
    requires
        marker_like(w),
        valid_id(id),
    ensures
        free(id, w),
{
    lemma_startless(id, w);
}

proof fn lemma_names_are_free(w: Seq<char>)
    requires
        marker_like(w),
    ensures
        free("id"@, w),
        free("path"@, w),
        free("description"@, w),
        free("argv"@, w),
        free("version"@, w),
        free("patches"@, w),
        free("commands"@, w),
{
    reveal_strlit("id");
    reveal_strlit("path");
    reveal_strlit("description");
    reveal_strlit("argv");
    reveal_strlit("version");
    reveal_strlit("patches");
    reveal_strlit("commands");
    lemma_startless("id"@, w);
    lemma_startless("path"@, w);
    lemma_startless("description"@, w);
    lemma_startless("argv"@, w);
    lemma_startless("version"@, w);
    lemma_startless("patches"@, w);
    lemma_startless("commands"@, w);
}

proof fn lemma_patch_is_free(p: PatchActionModel, w: Seq<char>)
    requires
        marker_like(w),
        valid_id(p.id),
        patch_without(p, w),
    ensures
        words_free(patch_value(p), w),
{
    lemma_names_are_free(w);
    lemma_ids_are_free(p.id, w);
    lemma_free(p.path, w);
    lemma_free(p.description, w);
    let items = patch_members(p);
    assert forall|i: int| 0 <= i < items.len() implies free((#[trigger] items[i]).0, w)
        && words_free(items[i].1, w) by {
        assert(i == 0 || i == 1 || i == 2);
    }
}

proof fn lemma_command_is_free(c: CommandActionModel, w: Seq<char>)
    requires
        marker_like(w),
        valid_id(c.id),
        command_without(c, w),
    ensures
        words_free(command_value(c), w),
{
    lemma_names_are_free(w);
    lemma_ids_are_free(c.id, w);
    lemma_free(c.description, w);
    assert(words_free(text_list(c.argv), w)) by {
        let values = text_list(c.argv)->List_0;
        assert forall|i: int| 0 <= i < values.len() implies words_free(
            #[trigger] values[i],
            w,
        ) by {
            assert(!contains(c.argv[i], w));
            lemma_free(c.argv[i], w);
        }
    }
    let items = command_members(c);
    assert forall|i: int| 0 <= i < items.len() implies free((#[trigger] items[i]).0, w)
        && words_free(items[i].1, w) by {
        assert(i == 0 || i == 1 || i == 2);
    }
}

/// The text of a manifest holds no marker that none of its strings holds.
proof fn lemma_manifest_is_free(a: ActionsModel, w: Seq<char>)
    requires
        marker_like(w),
        actions_error(a) is None,
        actions_without(a, w),
    ensures
        !contains(actions_json(a), w),
{
    let f = |i: int| patch_action_error(a, i);
    let g = |i: int| command_action_error(a, i);
    assert(first_some(a.patches.len() as int, f) is None);
    assert(first_some(a.commands.len() as int, g) is None);
    let patches = patch_values(a.patches);
    assert forall|i: int| 0 <= i < patches.len() implies words_free(#[trigger] patches[i], w) by {
        lemma_none_before(a.patches.len() as int, f, i);
        assert(f(i) is None);
        assert(patch_without(a.patches[i], w));
        lemma_patch_is_free(a.patches[i], w);
    }
    let commands = command_values(a.commands);
    assert forall|i: int| 0 <= i < commands.len() implies words_free(
        #[trigger] commands[i],
        w,
    ) by {
        lemma_none_before(a.commands.len() as int, g, i);
        assert(g(i) is None);
        assert(command_without(a.commands[i], w));
        lemma_command_is_free(a.commands[i], w);
    }
    lemma_names_are_free(w);
    let items = actions_members(a);
    assert forall|i: int| 0 <= i < items.len() implies free((#[trigger] items[i]).0, w)
        && words_free(items[i].1, w) by {
        assert(i == 0 || i == 1 || i == 2);
        assert(words_free(JsonValue::Number(PLAN_FORMAT_VERSION as nat), w));
        assert(words_free(JsonValue::List(patches), w));
        assert(words_free(JsonValue::List(commands), w));
    }
    lemma_json_text_is_free(JsonValue::Members(items), w);
    lemma_actions_text(a);
    lemma_free(actions_json(a), w);
}

/// A checkbox line holds no marker that its description does not hold.
proof fn lemma_checkbox_is_free(c: ConfirmationModel, w: Seq<char>)
    requires
        marker_like(w),
        valid_id(c.id),
        free(c.description, w),
    ensures
        free(checkbox_line(c), w),
        checkbox_line(c).len() > 0,
        checkbox_line(c).last() == '\n',
{
    reveal_strlit("- [");
    reveal_strlit("x");
    reveal_strlit(" ");
    reveal_strlit("] ");
    reveal_strlit("ATTINI-CONFIRM:");
    reveal_strlit(" — ");
    reveal_strlit("\n");
    let mark = if c.checked {
        "x"@
    } else {
        " "@
    };
    let a = "- ["@ + mark + "] "@ + CONFIRM_PREFIX@ + " "@;
    assert(startless(a));
    let front = a + c.id + " — "@;
    assert forall|i: int| 0 <= i < front.len() implies #[trigger] front[i] != '<' && front[i]
        != '`' by {
        if i < a.len() {
            assert(front[i] == a[i]);
        } else if i < a.len() + c.id.len() {
            assert(front[i] == c.id[i - a.len()]);
        } else {
            assert(front[i] == " — "@[i - a.len() - c.id.len()]);
        }
    }
    lemma_free_behind(front, c.description, w);
    lemma_startless("\n"@, w);
    lemma_free_seam(front + c.description, "\n"@, w);
    assert(checkbox_line(c) == front + c.description + "\n"@);
}

proof fn lemma_checkboxes_are_free(items: Seq<ConfirmationModel>, w: Seq<char>)
    requires
        marker_like(w),
        forall|k: int|
            0 <= k < items.len() ==> valid_id((#[trigger] items[k]).id) && free(
                items[k].description,
                w,
            ),
    ensures
        free(checkbox_lines(items), w),
        items.len() > 0 ==> checkbox_lines(items).len() > 0 && checkbox_lines(items).last()
            == '\n',
    decreases items.len(),
{
    if items.len() == 0 {
        lemma_startless(checkbox_lines(items), w);
    } else {
        let before = items.drop_last();
        assert forall|k: int| 0 <= k < before.len() implies valid_id((#[trigger] before[k]).id)
            && free(before[k].description, w) by {
            assert(before[k] == items[k]);
        }
        lemma_checkboxes_are_free(before, w);
        let last = items[items.len() - 1];
        lemma_checkbox_is_free(last, w);
        lemma_free_seam(checkbox_lines(before), checkbox_line(last), w);
    }
}

/// What does not stand in a text does not stand in it once it is trimmed.
proof fn lemma_trimmed_is_free(s: Seq<char>, w: Seq<char>)
    requires
        !contains(s, w),
    ensures
        !contains(trimmed(s), w),
{
    lemma_free(s, w);
    lemma_free(trimmed(s), w);
    let k = lemma_trimmed_start_occurs(s);
    let n = lemma_trimmed_end_occurs(trimmed_start(s));
    let t = trimmed(s);
    assert(t =~= s.subrange(k, k + n));
    assert forall|at: int| !#[trigger] occurs_at(t, w, at) by {
        if occurs_at(t, w, at) {
            assert(s.subrange(k + at, k + at + w.len()) =~= t.subrange(at, at + w.len()));
            assert(occurs_at(s, w, k + at));
        }
    }
}

/// A plan whose strings leave the markers alone is rendered whole.
pub proof fn lemma_plain_plans_render_whole(
    body: Seq<char>,
    a: ActionsModel,
    items: Seq<ConfirmationModel>,
)
    requires
        plain_plan(body, a, items),
    ensures
        renders_whole(body, a, items),
{
    lemma_markers_are_like();
    lemma_trimmed_is_free(body, ACTIONS_BEGIN@);
    lemma_trimmed_is_free(body, ACTIONS_END@);
    lemma_trimmed_is_free(body, CONFIRMATIONS_BEGIN@);
    lemma_trimmed_is_free(body, CONFIRMATIONS_END@);
    lemma_trimmed_is_free(body, SEAL_PREFIX@);
    lemma_manifest_is_free(a, ACTIONS_BEGIN@);
    lemma_manifest_is_free(a, ACTIONS_END@);
    lemma_manifest_is_free(a, CONFIRMATIONS_BEGIN@);
    lemma_manifest_is_free(a, CONFIRMATIONS_END@);
    lemma_manifest_is_free(a, "```"@);
    lemma_plain_items(items);
    assert forall|w: Seq<char>| #[trigger] is_marker(w) implies !contains(
        checkbox_lines(items),
        w,
    ) by {
        assert forall|k: int| 0 <= k < items.len() implies valid_id((#[trigger] items[k]).id)
            && free(items[k].description, w) by {
            assert(plain_item(items[k]));
            lemma_unmarked(items[k].description, w);
        }
        lemma_checkboxes_are_free(items, w);
        lemma_free(checkbox_lines(items), w);
    }
    assert(is_marker(ACTIONS_BEGIN@));
    assert(is_marker(ACTIONS_END@));
    assert(is_marker(CONFIRMATIONS_BEGIN@));
    assert(is_marker(CONFIRMATIONS_END@));
}

/// A valid plan whose strings leave the markers alone, rendered and sealed,
/// parses to its trimmed body, its actions and its confirmations, given that the
/// manifest reads back as what it was written for.
pub proof fn law_plain_plans_read_back(
    body: Seq<char>,
    a: ActionsModel,
    items: Seq<ConfirmationModel>,
    h: Seq<char>,
)
    requires
        plain_plan(body, a, items),
        is_hash(h),
        byte_len(with_seal(unsealed_plan(body, a, items), h)) <= PLAN_MAX_BYTES,
        faithful(actions_json(a)),
    ensures
        plan_of(with_seal(unsealed_plan(body, a, items), h)) == Ok::<PlanModel, PlanErrorModel>(
            PlanModel { body_markdown: trimmed(body), actions: a, confirmations: items },
        ),
{
    lemma_plain_plans_render_whole(body, a, items);
    law_sealed_plans_read_back(body, a, items, h);
}

} // verus!
