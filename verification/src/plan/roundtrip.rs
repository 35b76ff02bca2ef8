//! A rendered plan file parses to the plan that it was rendered from.
use vstd::prelude::*;
use vstd::string::*;

use super::file::{
    actions_json, actions_span, blank_hash, checkbox_line, checkbox_lines, confirmation_in,
    confirmations_in, confirmations_of, fenced_json, item_error, item_of, items_error, items_in,
    lemma_rendered_has_seal_line, manifest_in, marker_at, marker_in, plan_head, plan_of,
    unsealed_plan, ACTIONS_BEGIN, ACTIONS_END, CONFIRMATIONS_BEGIN, CONFIRMATIONS_END,
    CONFIRM_PREFIX,
};
use super::readback::{actions_members, law_actions_read_back, lemma_actions_text};
use super::seal::{
    first_seal, is_hash, is_hex, is_seal, law_with_seal_is_sealed, lemma_seal_line_stores,
    no_hidden_seal, seal_body, seal_line, seal_of, sealed, with_seal, SEAL_PREFIX,
};
use super::{
    actions_error, valid_id, ActionsModel, ConfirmationModel, PlanErrorModel, PlanModel,
    PLAN_MAX_BYTES,
};
use crate::json::value::{faithful, flat, lemma_flat_add, lemma_json_text_is_flat, JsonValue};
use crate::model::{first_some, lemma_first_at, lemma_none_before};
use crate::text::{
    byte_len, concatenated, contains, find_from, find_sub, has_prefix, lemma_concatenated_add,
    lemma_find_from, lemma_find_sub, lemma_lines_of, lemma_lines_of_add,
    lemma_lines_of_concatenated, lemma_trimmed, lemma_trimmed_start, lines_of, occurs_at, one_line,
    trimmed, trimmed_end, trimmed_start, white_space,
};

verus! {

/// Whether a text holds that word nowhere.
pub open spec fn free(s: Seq<char>, word: Seq<char>) -> bool {
    forall|at: int| !#[trigger] occurs_at(s, word, at)
}

pub proof fn lemma_free(s: Seq<char>, word: Seq<char>)
    ensures
        free(s, word) == !contains(s, word),
{
    lemma_find_sub(s, word, 0);
    if !contains(s, word) {
        assert forall|at: int| !#[trigger] occurs_at(s, word, at) by {}
    }
}

/// A word without a line feed does not reach over one.
proof fn lemma_free_add(a: Seq<char>, b: Seq<char>, word: Seq<char>)
    requires
        free(a, word),
        free(b, word),
        flat(word),
        word.len() > 0,
        a.len() == 0 || b.len() == 0 || a.last() == '\n' || b[0] == '\n',
    ensures
        free(a + b, word),
{
    let s = a + b;
    assert forall|at: int| !#[trigger] occurs_at(s, word, at) by {
        if occurs_at(s, word, at) {
            let n = a.len() as int;
            if at + word.len() <= n {
                assert(a.subrange(at, at + word.len()) =~= s.subrange(at, at + word.len()));
                assert(occurs_at(a, word, at));
            } else if at >= n {
                assert(b.subrange(at - n, at - n + word.len()) =~= s.subrange(
                    at,
                    at + word.len(),
                ));
                assert(occurs_at(b, word, at - n));
            } else {
                let part = s.subrange(at, at + word.len());
                assert(part[n - 1 - at] == s[n - 1]);
                assert(part[n - at] == s[n]);
                assert(s[n - 1] == a.last());
                assert(s[n] == b[0]);
            }
        }
    }
}

/// Whether a text is made like a marker: `<` opens it and stands nowhere else
/// in it, and no line feed stands in it.
pub open spec fn tag(s: Seq<char>) -> bool {
    &&& s.len() > 0
    &&& s[0] == '<'
    &&& flat(s)
    &&& forall|i: int| 0 < i < s.len() ==> #[trigger] s[i] != '<'
}

/// A tag does not stand where no `<` does.
proof fn lemma_no_tag(s: Seq<char>, word: Seq<char>)
    requires
        tag(word),
        forall|i: int| 0 <= i < s.len() ==> #[trigger] s[i] != '<',
    ensures
        free(s, word),
{
    assert forall|at: int| !#[trigger] occurs_at(s, word, at) by {
        if occurs_at(s, word, at) {
            assert(s.subrange(at, at + word.len())[0] == s[at]);
        }
    }
}

/// A tag does not stand in another that differs from it in one place.
proof fn lemma_other_tag(s: Seq<char>, word: Seq<char>, k: int)
    requires
        tag(word),
        s.len() > 0,
        forall|i: int| 0 < i < s.len() ==> #[trigger] s[i] != '<',
        0 <= k < word.len(),
        k < s.len(),
        s[k] != word[k],
    ensures
        free(s, word),
{
    assert forall|at: int| !#[trigger] occurs_at(s, word, at) by {
        if occurs_at(s, word, at) {
            let part = s.subrange(at, at + word.len());
            assert(part[0] == s[at]);
            assert(part[k] == s[at + k]);
        }
    }
}

/// Where a marker stands that occurs once.
proof fn lemma_marker_once(a: Seq<char>, m: Seq<char>, b: Seq<char>)
    requires
        tag(m),
        free(a, m),
        free(b, m),
        a.len() > 0,
        a.last() == '\n',
    ensures
        marker_at(a + m + b, m) == Ok::<int, PlanErrorModel>(a.len() as int),
{
    let s = a + m + b;
    let n = a.len() as int;
    assert(s.subrange(n, n + m.len()) =~= m);
    assert(occurs_at(s, m, n));
    assert forall|at: int| at != n implies !#[trigger] occurs_at(s, m, at) by {
        if occurs_at(s, m, at) {
            let part = s.subrange(at, at + m.len());
            if at + m.len() <= n {
                assert(a.subrange(at, at + m.len()) =~= part);
                assert(occurs_at(a, m, at));
            } else if at < n {
                assert(part[n - 1 - at] == s[n - 1]);
                assert(s[n - 1] == a.last());
            } else if at < n + m.len() {
                assert(part[0] == s[at]);
                assert(s[at] == m[at - n]);
            } else {
                let o = n + m.len();
                assert(b.subrange(at - o, at - o + m.len()) =~= part);
                assert(occurs_at(b, m, at - o));
            }
        }
    }
    lemma_find_sub(s, m, 0);
    lemma_find_sub(s, m, n + m.len());
}

/// Eight pieces, one behind the other.
pub open spec fn eight(
    p0: Seq<char>,
    ab: Seq<char>,
    q1: Seq<char>,
    ae: Seq<char>,
    q2: Seq<char>,
    cb: Seq<char>,
    q3: Seq<char>,
    ce: Seq<char>,
) -> Seq<char> {
    p0 + ab + q1 + ae + q2 + cb + q3 + ce
}

/// Whether a piece is closed by line feeds on both sides.
pub open spec fn closed(s: Seq<char>) -> bool {
    s.len() > 0 && s[0] == '\n' && s.last() == '\n'
}

/// Where four markers stand, each of which occurs in no other piece.
proof fn lemma_four_markers(
    p0: Seq<char>,
    ab: Seq<char>,
    q1: Seq<char>,
    ae: Seq<char>,
    q2: Seq<char>,
    cb: Seq<char>,
    q3: Seq<char>,
    ce: Seq<char>,
)
    requires
        tag(ab),
        tag(ae),
        tag(cb),
        tag(ce),
        p0.len() > 0,
        p0.last() == '\n',
        closed(q1),
        closed(q2),
        closed(q3),
        forall|m: Seq<char>|
            (m == ab || m == ae || m == cb || m == ce) ==> #[trigger] free(p0, m) && free(q1, m)
                && free(q2, m) && free(q3, m),
        free(ab, ae) && free(ab, cb) && free(ab, ce),
        free(ae, ab) && free(ae, cb) && free(ae, ce),
        free(cb, ab) && free(cb, ae) && free(cb, ce),
        free(ce, ab) && free(ce, ae) && free(ce, cb),
    ensures
        ({
            let t = eight(p0, ab, q1, ae, q2, cb, q3, ce);
            let b = p0.len() as int;
            let e = b + ab.len() + q1.len();
            let c = e + ae.len() + q2.len();
            let d = c + cb.len() + q3.len();
            &&& marker_at(t, ab) == Ok::<int, PlanErrorModel>(b)
            &&& marker_at(t, ae) == Ok::<int, PlanErrorModel>(e)
            &&& marker_at(t, cb) == Ok::<int, PlanErrorModel>(c)
            &&& marker_at(t, ce) == Ok::<int, PlanErrorModel>(d)
            &&& t.take(b) == p0
            &&& t.subrange(b + ab.len(), e) == q1
            &&& t.subrange(c + cb.len(), d) == q3
            &&& t.skip(d + ce.len()) == Seq::<char>::empty()
        }),
{
    let t = eight(p0, ab, q1, ae, q2, cb, q3, ce);
    assert(free(p0, ab) && free(p0, ae) && free(p0, cb) && free(p0, ce));
    // Behind the first.
    lemma_free_add(q3, ce, ab);
    lemma_free_add(cb, q3 + ce, ab);
    lemma_free_add(q2, cb + (q3 + ce), ab);
    lemma_free_add(ae, q2 + (cb + (q3 + ce)), ab);
    lemma_free_add(q1, ae + (q2 + (cb + (q3 + ce))), ab);
    lemma_marker_once(p0, ab, q1 + (ae + (q2 + (cb + (q3 + ce)))));
    assert(t =~= p0 + ab + (q1 + (ae + (q2 + (cb + (q3 + ce))))));
    // Around the second.
    lemma_free_add(p0, ab, ae);
    lemma_free_add(p0 + ab, q1, ae);
    lemma_free_add(q3, ce, ae);
    lemma_free_add(cb, q3 + ce, ae);
    lemma_free_add(q2, cb + (q3 + ce), ae);
    lemma_marker_once(p0 + ab + q1, ae, q2 + (cb + (q3 + ce)));
    assert(t =~= (p0 + ab + q1) + ae + (q2 + (cb + (q3 + ce))));
    // Around the third.
    lemma_free_add(p0, ab, cb);
    lemma_free_add(p0 + ab, q1, cb);
    lemma_free_add(p0 + ab + q1, ae, cb);
    lemma_free_add(p0 + ab + q1 + ae, q2, cb);
    lemma_free_add(q3, ce, cb);
    lemma_marker_once(p0 + ab + q1 + ae + q2, cb, q3 + ce);
    assert(t =~= (p0 + ab + q1 + ae + q2) + cb + (q3 + ce));
    // Before the fourth.
    lemma_free_add(p0, ab, ce);
    lemma_free_add(p0 + ab, q1, ce);
    lemma_free_add(p0 + ab + q1, ae, ce);
    lemma_free_add(p0 + ab + q1 + ae, q2, ce);
    lemma_free_add(p0 + ab + q1 + ae + q2, cb, ce);
    lemma_free_add(p0 + ab + q1 + ae + q2 + cb, q3, ce);
    let nothing = Seq::<char>::empty();
    assert(free(nothing, ce));
    lemma_marker_once(p0 + ab + q1 + ae + q2 + cb + q3, ce, nothing);
    assert(t =~= (p0 + ab + q1 + ae + q2 + cb + q3) + ce + nothing);
    let b = p0.len() as int;
    let e = b + ab.len() + q1.len();
    let c = e + ae.len() + q2.len();
    let d = c + cb.len() + q3.len();
    assert(t.take(b) =~= p0);
    assert(t.subrange(b + ab.len(), e) =~= q1);
    assert(t.subrange(c + cb.len(), d) =~= q3);
    assert(t.skip(d + ce.len()) =~= nothing);
}

/// What the markers and the start of a seal line look like.
proof fn lemma_markers()
    ensures
        tag(ACTIONS_BEGIN@),
        tag(ACTIONS_END@),
        tag(CONFIRMATIONS_BEGIN@),
        tag(CONFIRMATIONS_END@),
        tag(SEAL_PREFIX@),
        ACTIONS_BEGIN@.len() == 29,
        ACTIONS_END@.len() == 27,
        CONFIRMATIONS_BEGIN@.len() == 35,
        CONFIRMATIONS_END@.len() == 33,
        SEAL_PREFIX@.len() == 33,
        ACTIONS_BEGIN@[12] == 'A' && ACTIONS_BEGIN@[20] == 'B',
        ACTIONS_END@[12] == 'A' && ACTIONS_END@[20] == 'E',
        CONFIRMATIONS_BEGIN@[12] == 'C' && CONFIRMATIONS_BEGIN@[25] == ':',
        CONFIRMATIONS_BEGIN@[26] == 'B',
        CONFIRMATIONS_END@[12] == 'C' && CONFIRMATIONS_END@[25] == ':',
        CONFIRMATIONS_END@[26] == 'E',
        SEAL_PREFIX@[12] == 'C' && SEAL_PREFIX@[25] == '-',
{
    reveal_strlit("<!-- ATTINI-ACTIONS:BEGIN -->");
    reveal_strlit("<!-- ATTINI-ACTIONS:END -->");
    reveal_strlit("<!-- ATTINI-CONFIRMATIONS:BEGIN -->");
    reveal_strlit("<!-- ATTINI-CONFIRMATIONS:END -->");
    reveal_strlit("<!-- ATTINI-CONFIRMATIONS-SHA256:");
}

/// No marker stands in another.
proof fn lemma_markers_differ()
    ensures
        ({
            let ab = ACTIONS_BEGIN@;
            let ae = ACTIONS_END@;
            let cb = CONFIRMATIONS_BEGIN@;
            let ce = CONFIRMATIONS_END@;
            &&& free(ab, ae) && free(ab, cb) && free(ab, ce)
            &&& free(ae, ab) && free(ae, cb) && free(ae, ce)
            &&& free(cb, ab) && free(cb, ae) && free(cb, ce)
            &&& free(ce, ab) && free(ce, ae) && free(ce, cb)
            &&& free(ab, SEAL_PREFIX@) && free(ae, SEAL_PREFIX@)
            &&& free(cb, SEAL_PREFIX@) && free(ce, SEAL_PREFIX@)
        }),
{
    lemma_markers();
    let ab = ACTIONS_BEGIN@;
    let ae = ACTIONS_END@;
    let cb = CONFIRMATIONS_BEGIN@;
    let ce = CONFIRMATIONS_END@;
    lemma_other_tag(ab, ae, 20);
    lemma_other_tag(ab, cb, 12);
    lemma_other_tag(ab, ce, 12);
    lemma_other_tag(ae, ab, 20);
    lemma_other_tag(ae, cb, 12);
    lemma_other_tag(ae, ce, 12);
    lemma_other_tag(cb, ab, 12);
    lemma_other_tag(cb, ae, 12);
    lemma_other_tag(cb, ce, 26);
    lemma_other_tag(ce, ab, 12);
    lemma_other_tag(ce, ae, 12);
    lemma_other_tag(ce, cb, 26);
    lemma_other_tag(ab, SEAL_PREFIX@, 12);
    lemma_other_tag(ae, SEAL_PREFIX@, 12);
    lemma_other_tag(cb, SEAL_PREFIX@, 25);
    lemma_other_tag(ce, SEAL_PREFIX@, 25);
}

/// Whether a text is one of the four markers.
pub open spec fn is_marker(m: Seq<char>) -> bool {
    m == ACTIONS_BEGIN@ || m == ACTIONS_END@ || m == CONFIRMATIONS_BEGIN@ || m
        == CONFIRMATIONS_END@
}

/// Whether no marker stands in a text.
pub open spec fn unmarked(s: Seq<char>) -> bool {
    &&& !contains(s, ACTIONS_BEGIN@)
    &&& !contains(s, ACTIONS_END@)
    &&& !contains(s, CONFIRMATIONS_BEGIN@)
    &&& !contains(s, CONFIRMATIONS_END@)
}

pub proof fn lemma_unmarked(s: Seq<char>, m: Seq<char>)
    requires
        unmarked(s),
        is_marker(m),
    ensures
        free(s, m),
{
    lemma_free(s, m);
}

/// A seal line holds no marker.
proof fn lemma_seal_is_unmarked(h: Seq<char>, m: Seq<char>)
    requires
        is_hash(h),
        is_marker(m),
    ensures
        free(seal_line(h) + "\n"@, m),
{
    lemma_markers();
    reveal_strlit(" ");
    reveal_strlit("-->");
    reveal_strlit("\n");
    let line = seal_line(h) + "\n"@;
    let n = SEAL_PREFIX@.len() as int;
    assert forall|i: int| 0 < i < line.len() implies #[trigger] line[i] != '<' by {
        if i < n {
            assert(line[i] == SEAL_PREFIX@[i]);
        } else if n + 1 <= i < n + 65 {
            assert(line[i] == h[i - n - 1]);
            assert(is_hex(h[i - n - 1]));
        }
    }
    assert(line[12] == SEAL_PREFIX@[12] && line[25] == SEAL_PREFIX@[25]);
    if m == ACTIONS_BEGIN@ || m == ACTIONS_END@ {
        lemma_other_tag(line, m, 12);
    } else {
        lemma_other_tag(line, m, 25);
    }
}

/// What stands behind the marker that opens the actions block, up to the JSON.
pub open spec fn actions_heading() -> Seq<char> {
    "\n\n## Attini approved actions\n\n```json\n"@
}

/// What stands behind the marker that opens the confirmations block.
pub open spec fn confirmations_heading() -> Seq<char> {
    "\n\n## Attini confirmations\n\n"@
}

/// The actions block between its markers.
pub open spec fn actions_block(json: Seq<char>) -> Seq<char> {
    actions_heading() + json + "\n```\n\n"@
}

/// The confirmations block between its markers.
pub open spec fn confirmations_block(items: Seq<ConfirmationModel>, h: Seq<char>) -> Seq<char> {
    confirmations_heading() + checkbox_lines(items) + "\n"@ + (seal_line(h) + "\n"@)
}

proof fn lemma_actions_block_is_unmarked(json: Seq<char>, m: Seq<char>)
    requires
        unmarked(json),
        is_marker(m),
    ensures
        free(actions_block(json), m),
        closed(actions_block(json)),
{
    lemma_markers();
    reveal_strlit("\n\n## Attini approved actions\n\n```json\n");
    reveal_strlit("\n```\n\n");
    let first = actions_heading();
    let last = "\n```\n\n"@;
    assert(first.len() > 0 && first[0] == '\n' && first.last() == '\n');
    lemma_no_tag(first, m);
    lemma_no_tag(last, m);
    lemma_unmarked(json, m);
    lemma_free_add(first, json, m);
    lemma_free_add(first + json, last, m);
    assert(actions_block(json)[0] == first[0]);
}

proof fn lemma_confirmations_block_is_unmarked(
    items: Seq<ConfirmationModel>,
    h: Seq<char>,
    m: Seq<char>,
)
    requires
        unmarked(checkbox_lines(items)),
        is_hash(h),
        is_marker(m),
    ensures
        free(confirmations_block(items, h), m),
        closed(confirmations_block(items, h)),
{
    lemma_markers();
    reveal_strlit("\n\n## Attini confirmations\n\n");
    reveal_strlit("\n");
    let first = confirmations_heading();
    let boxes = checkbox_lines(items);
    let line = seal_line(h) + "\n"@;
    assert(first.len() > 0 && first[0] == '\n' && first.last() == '\n');
    lemma_no_tag(first, m);
    lemma_no_tag("\n"@, m);
    lemma_unmarked(boxes, m);
    lemma_seal_is_unmarked(h, m);
    lemma_free_add(first, boxes, m);
    lemma_free_add(first + boxes, "\n"@, m);
    lemma_free_add(first + boxes + "\n"@, line, m);
    assert(confirmations_block(items, h)[0] == first[0]);
}

/// The JSON of an actions block is found.
proof fn lemma_fenced(json: Seq<char>)
    requires
        !contains(json, "```"@),
        json.len() > 0,
        !white_space(json[0]),
        !white_space(json.last()),
    ensures
        fenced_json(actions_block(json)) == Some(json),
{
    reveal_strlit("\n\n## Attini approved actions\n\n```json\n");
    reveal_strlit("\n```\n\n");
    reveal_strlit("```json");
    reveal_strlit("```");
    reveal_strlit("\n");
    let block = actions_block(json);
    let open = "```json"@;
    let close = "```"@;
    assert(actions_heading().len() == 38);
    assert forall|i: int| 0 <= i < 30 implies #[trigger] block[i] != '`' by {
        assert(block[i] == actions_heading()[i]);
    }
    assert(block.subrange(30, 37) =~= open);
    assert(occurs_at(block, open, 30));
    lemma_find_sub(block, open, 0);
    assert(find_sub(block, open, 0) == Some(30int)) by {
        let i = find_sub(block, open, 0)->Some_0;
        assert(block.subrange(i, i + 7)[0] == block[i]);
    }
    let rest = block.skip(37);
    let a = "\n"@ + json + "\n"@;
    let k = a.len() as int;
    assert(rest =~= a + "```\n\n"@) by {
        reveal_strlit("```\n\n");
    }
    assert(rest.subrange(k, k + 3) =~= close) by {
        reveal_strlit("```\n\n");
    }
    assert(occurs_at(rest, close, k));
    lemma_free(json, close);
    assert(free("\n"@, close));
    lemma_free_add("\n"@, json, close);
    lemma_free_add("\n"@ + json, "\n"@, close);
    lemma_find_sub(rest, close, 0);
    assert(find_sub(rest, close, 0) == Some(k)) by {
        let i = find_sub(rest, close, 0)->Some_0;
        if i < k {
            let part = rest.subrange(i, i + 3);
            if i + 3 <= k {
                assert(a.subrange(i, i + 3) =~= part);
                assert(occurs_at(a, close, i));
            } else {
                assert(part[k - 1 - i] == rest[k - 1]);
                assert(rest[k - 1] == '\n');
            }
        }
    }
    assert(rest.take(k) =~= a);
    lemma_trimmed("\n"@, json, "\n"@);
}

/// A piece stands in the text that the pieces make up.
proof fn lemma_part_occurs(parts: Seq<Seq<char>>, i: int)
    requires
        0 <= i < parts.len(),
    ensures
        occurs_at(concatenated(parts), parts[i], concatenated(parts.take(i)).len() as int),
    decreases parts.len(),
{
    let all = concatenated(parts);
    let before = concatenated(parts.drop_last());
    let at = concatenated(parts.take(i)).len() as int;
    if i == parts.len() - 1 {
        assert(parts.take(i) =~= parts.drop_last());
        assert(all.subrange(at, at + parts[i].len()) =~= parts[i]);
    } else {
        lemma_part_occurs(parts.drop_last(), i);
        assert(parts.drop_last().take(i) =~= parts.take(i));
        assert(parts.drop_last()[i] == parts[i]);
        assert(all.subrange(at, at + parts[i].len()) =~= before.subrange(at, at + parts[i].len()));
    }
}

/// Whether a line is no seal line, not even one behind white space.
pub open spec fn plain_line(line: Seq<char>) -> bool {
    !is_seal(line) && seal_body(line) is None
}

/// Whether no line of a text is a seal line.
pub open spec fn no_seal(s: Seq<char>) -> bool {
    forall|i: int| 0 <= i < lines_of(s).len() ==> plain_line(#[trigger] lines_of(s)[i])
}

pub proof fn lemma_trimmed_start_occurs(s: Seq<char>) -> (k: int)
    ensures
        0 <= k <= s.len(),
        trimmed_start(s) == s.skip(k),
    decreases s.len(),
{
    if s.len() > 0 && white_space(s[0]) {
        let k = lemma_trimmed_start_occurs(s.skip(1));
        assert(s.skip(1).skip(k) =~= s.skip(k + 1));
        k + 1
    } else {
        assert(s.skip(0) =~= s);
        0
    }
}

pub proof fn lemma_trimmed_end_occurs(s: Seq<char>) -> (n: int)
    ensures
        0 <= n <= s.len(),
        trimmed_end(s) == s.take(n),
    decreases s.len(),
{
    if s.len() > 0 && white_space(s.last()) {
        let n = lemma_trimmed_end_occurs(s.drop_last());
        assert(s.drop_last().take(n) =~= s.take(n));
        n
    } else {
        assert(s.take(s.len() as int) =~= s);
        s.len() as int
    }
}

/// What a trimmed text starts with stands in the text.
proof fn lemma_trimmed_prefix_occurs(s: Seq<char>, word: Seq<char>) -> (at: int)
    requires
        has_prefix(trimmed(s), word),
    ensures
        occurs_at(s, word, at),
{
    let k = lemma_trimmed_start_occurs(s);
    let n = lemma_trimmed_end_occurs(trimmed_start(s));
    assert(trimmed(s) =~= s.subrange(k, k + n));
    assert(s.subrange(k, k + word.len()) =~= trimmed(s).take(word.len() as int));
    k
}

/// A line that starts with a character of its own is no seal line.
proof fn lemma_plain_line(line: Seq<char>)
    requires
        line.len() > 0,
        !white_space(line[0]),
        line[0] != '<',
    ensures
        plain_line(line),
{
    lemma_markers();
    let n = SEAL_PREFIX@.len() as int;
    if is_seal(line) {
        assert(line.take(n)[0] == line[0]);
    }
    assert(trimmed_start(line) == line);
    let k = lemma_trimmed_end_occurs(line);
    if has_prefix(trimmed(line), SEAL_PREFIX@) {
        assert(trimmed(line).take(n)[0] == line[0]);
    }
}

/// A text that the start of a seal line does not stand in has no seal line.
proof fn lemma_no_seal(s: Seq<char>)
    requires
        free(s, SEAL_PREFIX@),
    ensures
        no_seal(s),
{
    let lines = lines_of(s);
    lemma_lines_of(s);
    let word = SEAL_PREFIX@;
    let n = word.len();
    assert forall|i: int| 0 <= i < lines.len() implies plain_line(#[trigger] lines[i]) by {
        let line = lines[i];
        if !plain_line(line) {
            lemma_part_occurs(lines, i);
            let at = concatenated(lines.take(i)).len() as int;
            assert(s.subrange(at, at + line.len()) == line);
            let k = if is_seal(line) {
                assert(line.subrange(0, n as int) =~= line.take(n as int));
                0
            } else {
                lemma_trimmed_prefix_occurs(line, word)
            };
            assert(s.subrange(at + k, at + k + n) =~= line.subrange(k, k + n));
            assert(occurs_at(s, word, at + k));
        }
    }
}

/// Texts of whole lines without a seal line, put together, have none.
proof fn lemma_no_seal_add(a: Seq<char>, b: Seq<char>)
    requires
        no_seal(a),
        no_seal(b),
        a.len() > 0,
        a.last() == '\n',
    ensures
        no_seal(a + b),
{
    lemma_lines_of_add(a, b);
    let all = lines_of(a + b);
    assert forall|i: int| 0 <= i < all.len() implies plain_line(#[trigger] all[i]) by {
        if i < lines_of(a).len() {
            assert(all[i] == lines_of(a)[i]);
        } else {
            assert(all[i] == lines_of(b)[i - lines_of(a).len()]);
        }
    }
}

/// One line is the only line of itself.
proof fn lemma_single_line(line: Seq<char>)
    requires
        one_line(line),
    ensures
        lines_of(line) == seq![line],
{
    lemma_lines_of_concatenated(seq![line]);
    assert(seq![line].drop_last() =~= Seq::empty());
    assert(concatenated(Seq::<Seq<char>>::empty()) =~= Seq::empty());
    assert(concatenated(seq![line]) =~= line);
}

/// Whether the description of an item reads back as it is: on one line, and
/// with no white space around it.
pub open spec fn plain_item(c: ConfirmationModel) -> bool {
    &&& valid_id(c.id)
    &&& flat(c.description)
    &&& trimmed(c.description) == c.description
}

/// A checkbox line is one line, and no seal line.
proof fn lemma_checkbox_is_one_line(c: ConfirmationModel)
    requires
        plain_item(c),
    ensures
        one_line(checkbox_line(c)),
        checkbox_line(c).last() == '\n',
        checkbox_line(c)[0] == '-',
        plain_line(checkbox_line(c)),
{
    lemma_markers();
    reveal_strlit("- [");
    reveal_strlit("x");
    reveal_strlit(" ");
    reveal_strlit("] ");
    reveal_strlit("ATTINI-CONFIRM:");
    reveal_strlit(" — ");
    reveal_strlit("\n");
    let mark = if c.checked {
        "x"@
    } else {
        " "@
    };
    let a = "- ["@ + mark + "] "@ + CONFIRM_PREFIX@ + " "@;
    assert(flat(a));
    assert(flat(c.id));
    lemma_flat_add(a, c.id);
    lemma_flat_add(a + c.id, " — "@);
    lemma_flat_add(a + c.id + " — "@, c.description);
    let line = checkbox_line(c);
    let whole = a + c.id + " — "@ + c.description;
    assert(line == whole + "\n"@);
    assert(line[0] == '-');
    lemma_plain_line(line);
    assert forall|i: int| 0 <= i < line.len() - 1 implies #[trigger] line[i] != '\n' by {
        assert(line[i] == whole[i]);
    }
}

/// The checkbox lines of items.
pub open spec fn boxes(items: Seq<ConfirmationModel>) -> Seq<Seq<char>> {
    items.map_values(|c: ConfirmationModel| checkbox_line(c))
}

/// The lines of rendered items are their checkbox lines.
proof fn lemma_box_lines(items: Seq<ConfirmationModel>)
    requires
        forall|k: int| 0 <= k < items.len() ==> plain_item(#[trigger] items[k]),
    ensures
        lines_of(checkbox_lines(items)) == boxes(items),
        items.len() > 0 ==> checkbox_lines(items).len() > 0 && checkbox_lines(items).last()
            == '\n',
        no_seal(checkbox_lines(items)),
{
    lemma_boxes_concatenated(items);
    let lines = boxes(items);
    assert forall|i: int| 0 <= i < lines.len() implies one_line(#[trigger] lines[i])
        && lines[i].last() == '\n' && plain_line(lines[i]) by {
        lemma_checkbox_is_one_line(items[i]);
    }
    lemma_lines_of_concatenated(lines);
    if items.len() > 0 {
        lemma_checkbox_is_one_line(items[items.len() - 1]);
        assert(checkbox_lines(items).last() == checkbox_line(items.last()).last());
    }
}

proof fn lemma_boxes_concatenated(items: Seq<ConfirmationModel>)
    ensures
        checkbox_lines(items) == concatenated(boxes(items)),
    decreases items.len(),
{
    if items.len() > 0 {
        lemma_boxes_concatenated(items.drop_last());
        assert(boxes(items).drop_last() =~= boxes(items.drop_last()));
    }
}

/// No line of a plan file before its seal line is a seal line.
proof fn lemma_head_has_no_seal(body: Seq<char>, a: ActionsModel, items: Seq<ConfirmationModel>)
    requires
        !contains(trimmed(body), SEAL_PREFIX@),
        items.len() > 0,
        forall|k: int| 0 <= k < items.len() ==> plain_item(#[trigger] items[k]),
    ensures
        no_seal(plan_head(body, a, items)),
        plan_head(body, a, items).len() > 0,
        plan_head(body, a, items).last() == '\n',
{
    lemma_markers();
    lemma_markers_differ();
    reveal_strlit("\n\n");
    reveal_strlit("\n");
    reveal_strlit("\n```\n\n");
    reveal_strlit("\n\n## Attini approved actions\n\n```json\n");
    reveal_strlit("\n\n## Attini confirmations\n\n");
    let word = SEAL_PREFIX@;
    let json = actions_json(a);
    let lines = checkbox_lines(items);
    lemma_free(trimmed(body), word);
    lemma_no_tag("\n\n"@, word);
    lemma_no_tag("\n"@, word);
    lemma_no_tag("\n```\n\n"@, word);
    lemma_no_tag(actions_heading(), word);
    lemma_no_tag(confirmations_heading(), word);
    // Up to the JSON.
    let h1 = trimmed(body) + "\n\n"@;
    lemma_free_add(trimmed(body), "\n\n"@, word);
    lemma_free_add(h1, ACTIONS_BEGIN@, word);
    lemma_free_add(h1 + ACTIONS_BEGIN@, actions_heading(), word);
    let p1 = h1 + ACTIONS_BEGIN@ + actions_heading();
    lemma_no_seal(p1);
    // The JSON.
    lemma_actions_text(a);
    lemma_json_text_is_flat(JsonValue::Members(actions_members(a)));
    let p2 = json + "\n"@;
    lemma_manifest_ends(a);
    assert(one_line(p2)) by {
        assert forall|i: int| 0 <= i < p2.len() - 1 implies #[trigger] p2[i] != '\n' by {
            assert(p2[i] == json[i]);
        }
    }
    lemma_single_line(p2);
    lemma_plain_line(p2);
    assert(no_seal(p2));
    lemma_no_seal_add(p1, p2);
    // Up to the checkbox lines.
    let p3 = "```\n\n"@ + ACTIONS_END@ + "\n\n"@ + CONFIRMATIONS_BEGIN@ + confirmations_heading();
    reveal_strlit("```\n\n");
    lemma_no_tag("```\n\n"@, word);
    lemma_free_add("```\n\n"@, ACTIONS_END@, word);
    lemma_free_add("```\n\n"@ + ACTIONS_END@, "\n\n"@, word);
    lemma_free_add("```\n\n"@ + ACTIONS_END@ + "\n\n"@, CONFIRMATIONS_BEGIN@, word);
    lemma_free_add(
        "```\n\n"@ + ACTIONS_END@ + "\n\n"@ + CONFIRMATIONS_BEGIN@,
        confirmations_heading(),
        word,
    );
    lemma_no_seal(p3);
    assert((p1 + p2).last() == '\n');
    lemma_no_seal_add(p1 + p2, p3);
    // The rest.
    lemma_box_lines(items);
    assert((p1 + p2 + p3).last() == '\n');
    lemma_no_seal_add(p1 + p2 + p3, lines);
    lemma_no_seal("\n"@);
    assert((p1 + p2 + p3 + lines).last() == '\n');
    lemma_no_seal_add(p1 + p2 + p3 + lines, "\n"@);
    assert("\n```\n\n"@ =~= "\n"@ + "```\n\n"@);
    assert(plan_head(body, a, items) =~= p1 + p2 + p3 + lines + "\n"@);
}

/// How a manifest opens and closes.
proof fn lemma_manifest_ends(a: ActionsModel)
    ensures
        actions_json(a).len() > 0,
        actions_json(a)[0] == '{',
        actions_json(a).last() == '}',
{
    reveal_strlit("{\"version\":1,\"patches\":");
    reveal_strlit("}");
}

/// No line of a rendered plan hides a seal.
pub proof fn lemma_no_hidden_seal(body: Seq<char>, a: ActionsModel, items: Seq<ConfirmationModel>)
    requires
        !contains(trimmed(body), SEAL_PREFIX@),
        items.len() > 0,
        forall|k: int| 0 <= k < items.len() ==> plain_item(#[trigger] items[k]),
    ensures
        no_hidden_seal(unsealed_plan(body, a, items)),
{
    lemma_head_has_no_seal(body, a, items);
    lemma_markers();
    lemma_markers_differ();
    let head = plan_head(body, a, items);
    let blank = seal_line(blank_hash()) + "\n"@;
    let last = CONFIRMATIONS_END@;
    lemma_seal_line_stores(blank_hash());
    lemma_lines_of_add(head, blank + last);
    lemma_lines_of_add(blank, last);
    lemma_single_line(blank);
    lemma_single_line(last);
    lemma_no_seal(last);
    let lines = lines_of(unsealed_plan(body, a, items));
    let first = lines_of(head);
    assert(lines =~= first + seq![blank, last]);
    assert forall|i: int| 0 <= i < lines.len() implies is_seal(lines[i]) || seal_body(
        #[trigger] lines[i],
    ) is None by {
        if i < first.len() {
            assert(plain_line(first[i]));
        } else if i == first.len() + 1 {
            assert(plain_line(lines_of(last)[0]));
        }
    }
}

/// A plan file that is sealed has its seal where it was left blank.
proof fn lemma_sealed_text(
    body: Seq<char>,
    a: ActionsModel,
    items: Seq<ConfirmationModel>,
    h: Seq<char>,
)
    requires
        !contains(trimmed(body), SEAL_PREFIX@),
        items.len() > 0,
        forall|k: int| 0 <= k < items.len() ==> plain_item(#[trigger] items[k]),
        is_hash(h),
    ensures
        with_seal(unsealed_plan(body, a, items), h) == plan_head(body, a, items) + (seal_line(h)
            + "\n"@ + CONFIRMATIONS_END@),
{
    lemma_head_has_no_seal(body, a, items);
    let head = plan_head(body, a, items);
    let blank = seal_line(blank_hash()) + "\n"@;
    let line = seal_line(h) + "\n"@;
    let last = CONFIRMATIONS_END@;
    lemma_seal_line_stores(blank_hash());
    lemma_seal_line_stores(h);
    lemma_lines_of_add(head, blank + last);
    lemma_lines_of_add(blank, last);
    lemma_single_line(blank);
    lemma_markers();
    lemma_single_line(last);
    let lines = lines_of(unsealed_plan(body, a, items));
    let first = lines_of(head);
    assert(lines =~= first + seq![blank, last]);
    let k = first.len() as int;
    let f = |i: int|
        if is_seal(lines[i]) {
            Some(i)
        } else {
            None
        };
    assert forall|i: int| 0 <= i < k implies #[trigger] f(i) is None by {
        assert(lines[i] == first[i]);
    }
    lemma_first_at(lines.len() as int, f, k);
    assert(first_seal(lines) == Some(k));
    let now = lines.update(k, line);
    assert(now =~= first + seq![line, last]);
    lemma_concatenated_add(first, seq![line, last]);
    lemma_lines_of(head);
    let pair = seq![line, last];
    assert(pair.drop_last() =~= seq![line]);
    assert(seq![line].drop_last() =~= Seq::empty());
    assert(concatenated(Seq::<Seq<char>>::empty()) =~= Seq::empty());
    assert(concatenated(seq![line]) =~= line);
    assert(concatenated(pair) =~= line + last);
}

/// What is trimmed has no white space at its ends.
proof fn lemma_trimmed_ends(s: Seq<char>)
    ensures
        trimmed(s).len() > 0 ==> !white_space(trimmed(s)[0]) && !white_space(trimmed(s).last()),
{
    lemma_trimmed_start_ends(s);
    lemma_trimmed_end_ends(trimmed_start(s));
}

proof fn lemma_trimmed_start_ends(s: Seq<char>)
    ensures
        trimmed_start(s).len() > 0 ==> !white_space(trimmed_start(s)[0]),
    decreases s.len(),
{
    if s.len() > 0 && white_space(s[0]) {
        lemma_trimmed_start_ends(s.skip(1));
    }
}

proof fn lemma_trimmed_end_ends(s: Seq<char>)
    ensures
        trimmed_end(s).len() > 0 ==> !white_space(trimmed_end(s).last()) && trimmed_end(s)[0]
            == s[0],
    decreases s.len(),
{
    if s.len() > 0 && white_space(s.last()) {
        lemma_trimmed_end_ends(s.drop_last());
    }
}

/// The first place of a character that does not stand in the text before it.
proof fn lemma_first_place(a: Seq<char>, c: char, b: Seq<char>)
    requires
        forall|i: int| 0 <= i < a.len() ==> #[trigger] a[i] != c,
        b.len() > 0,
        b[0] == c,
    ensures
        find_from(a + b, c, 0) == a.len(),
{
    let s = a + b;
    lemma_find_from(s, c, 0);
    let at = find_from(s, c, 0);
    assert(s[a.len() as int] == c);
    if at < a.len() {
        assert(s[at] == a[at]);
    }
}

/// An item reads back from what stands behind its mark.
proof fn lemma_item_reads_back(c: ConfirmationModel, tail: Seq<char>)
    requires
        plain_item(c),
        tail == if c.description.len() == 0 {
            seq!['—']
        } else {
            seq!['—', ' '] + c.description
        },
    ensures
        item_of(c.id + seq![' '] + tail, c.checked) == c,
{
    let body = c.id + seq![' '] + tail;
    let a = c.id + seq![' '];
    lemma_first_place(a, '—', tail);
    assert(body.take(a.len() as int) =~= Seq::<char>::empty() + c.id + seq![' ']);
    lemma_trimmed(Seq::empty(), c.id, seq![' ']);
    if c.description.len() == 0 {
        assert(body.skip(a.len() as int + 1) =~= Seq::empty());
        assert(c.description =~= Seq::empty());
    } else {
        lemma_trimmed_ends(c.description);
        assert(body.skip(a.len() as int + 1) =~= seq![' '] + c.description + Seq::empty());
        lemma_trimmed(seq![' '], c.description, Seq::empty());
    }
}

/// What stands in a checkbox line up to the id.
pub open spec fn box_start(checked: bool) -> Seq<char> {
    "- ["@ + (if checked {
        "x"@
    } else {
        " "@
    }) + "] "@ + CONFIRM_PREFIX@ + " "@
}

proof fn lemma_box_start(checked: bool)
    ensures
        box_start(checked).len() == 22,
        box_start(checked)[0] == '-',
        box_start(checked).take(3) == "- ["@,
        box_start(checked)[3] == (if checked {
            'x'
        } else {
            ' '
        }),
        box_start(checked).subrange(4, 6) == "] "@,
        box_start(checked).subrange(6, 21) == CONFIRM_PREFIX@,
        box_start(checked)[21] == ' ',
        "- ["@.len() == 3,
        "] "@.len() == 2,
        CONFIRM_PREFIX@.len() == 15,
{
    reveal_strlit("- [");
    reveal_strlit("x");
    reveal_strlit(" ");
    reveal_strlit("] ");
    reveal_strlit("ATTINI-CONFIRM:");
    let s = box_start(checked);
    assert(s.take(3) =~= "- ["@);
    assert(s.subrange(4, 6) =~= "] "@);
    assert(s.subrange(6, 21) =~= CONFIRM_PREFIX@);
}

/// A checkbox line holds its item.
proof fn lemma_box_reads_back(c: ConfirmationModel)
    requires
        plain_item(c),
    ensures
        confirmation_in(checkbox_line(c)) == Some(c),
{
    lemma_markers();
    lemma_box_start(c.checked);
    reveal_strlit(" — ");
    reveal_strlit("\n");
    let tail = if c.description.len() == 0 {
        seq!['—']
    } else {
        seq!['—', ' '] + c.description
    };
    let start = box_start(c.checked);
    let core = c.id + seq![' '] + tail;
    let t = start + core;
    let white = if c.description.len() == 0 {
        seq![' ', '\n']
    } else {
        seq!['\n']
    };
    let line = checkbox_line(c);
    lemma_trimmed_ends(c.description);
    assert(line =~= Seq::<char>::empty() + t + white);
    assert(tail.last() == '—' || tail.last() == c.description.last());
    assert(!white_space('—'));
    lemma_trimmed(Seq::empty(), t, white);
    assert(trimmed(line) == t);
    assert(t[0] == '-');
    assert(!is_seal(t)) by {
        if is_seal(t) {
            assert(t.take(SEAL_PREFIX@.len() as int)[0] == t[0]);
        }
    }
    assert(t.take(3) =~= "- ["@);
    let rest = t.skip(3);
    assert(rest[0] == start[3]);
    let more = rest.skip(1);
    assert(more.take(2) =~= start.subrange(4, 6));
    let text = more.skip(2);
    assert(text.take(15) =~= start.subrange(6, 21));
    let behind = text.skip(15);
    assert(behind =~= seq![' '] + core + Seq::empty());
    lemma_trimmed(seq![' '], core, Seq::empty());
    lemma_item_reads_back(c, tail);
}

proof fn lemma_items_in_add(a: Seq<Seq<char>>, b: Seq<Seq<char>>)
    ensures
        items_in(a + b) == items_in(a) + items_in(b),
    decreases b.len(),
{
    if b.len() == 0 {
        assert(a + b =~= a);
        assert(items_in(a) + items_in(b) =~= items_in(a));
    } else {
        assert((a + b).drop_last() =~= a + b.drop_last());
        assert((a + b).last() == b.last());
        lemma_items_in_add(a, b.drop_last());
        assert(items_in(a + b) =~= items_in(a) + items_in(b));
    }
}

proof fn lemma_no_items(lines: Seq<Seq<char>>)
    requires
        forall|i: int| 0 <= i < lines.len() ==> confirmation_in(#[trigger] lines[i]) is None,
    ensures
        items_in(lines) == Seq::<ConfirmationModel>::empty(),
    decreases lines.len(),
{
    if lines.len() > 0 {
        let before = lines.drop_last();
        assert forall|i: int| 0 <= i < before.len() implies confirmation_in(
            #[trigger] before[i],
        ) is None by {
            assert(before[i] == lines[i]);
        }
        lemma_no_items(before);
        assert(confirmation_in(lines[lines.len() - 1]) is None);
    }
}

proof fn lemma_boxes_read_back(items: Seq<ConfirmationModel>)
    requires
        forall|k: int| 0 <= k < items.len() ==> plain_item(#[trigger] items[k]),
    ensures
        items_in(boxes(items)) == items,
    decreases items.len(),
{
    if items.len() > 0 {
        lemma_boxes_read_back(items.drop_last());
        assert(boxes(items).drop_last() =~= boxes(items.drop_last()));
        lemma_box_reads_back(items[items.len() - 1]);
        assert(items.drop_last().push(items.last()) =~= items);
    } else {
        assert(items =~= Seq::empty());
    }
}

/// The lines around the checkbox lines hold no item.
proof fn lemma_other_lines(h: Seq<char>)
    requires
        is_hash(h),
    ensures
        confirmation_in("\n"@) is None,
        confirmation_in("## Attini confirmations\n"@) is None,
        confirmation_in(seal_line(h) + "\n"@) is None,
{
    lemma_markers();
    reveal_strlit("\n");
    reveal_strlit("## Attini confirmations\n");
    reveal_strlit("- [");
    reveal_strlit("-->");
    assert("\n"@ =~= "\n"@ + Seq::empty());
    lemma_trimmed_start("\n"@, Seq::empty());
    assert(trimmed("\n"@) =~= Seq::empty());
    let heading = "## Attini confirmations\n"@;
    let words = heading.drop_last();
    assert(heading =~= Seq::<char>::empty() + words + "\n"@);
    lemma_trimmed(Seq::empty(), words, "\n"@);
    assert(words[0] == '#');
    assert(!has_prefix(words, "- ["@)) by {
        if has_prefix(words, "- ["@) {
            assert(words.take(3)[0] == words[0]);
        }
    }
    let line = seal_line(h);
    assert(line[0] == SEAL_PREFIX@[0]);
    assert(line.last() == '>');
    assert(line + "\n"@ =~= Seq::<char>::empty() + line + "\n"@);
    lemma_trimmed(Seq::empty(), line, "\n"@);
    assert(line.take(SEAL_PREFIX@.len() as int) =~= SEAL_PREFIX@);
}

/// The heading of the confirmations holds no item.
proof fn lemma_heading_lines(h: Seq<char>)
    requires
        is_hash(h),
    ensures
        items_in(lines_of(confirmations_heading())) == Seq::<ConfirmationModel>::empty(),
        confirmations_heading().len() > 0,
        confirmations_heading().last() == '\n',
{
    lemma_other_lines(h);
    reveal_strlit("\n");
    reveal_strlit("## Attini confirmations\n");
    reveal_strlit("\n\n## Attini confirmations\n\n");
    let one = "\n"@;
    let heading = "## Attini confirmations\n"@;
    lemma_single_line(one);
    assert(one_line(heading));
    lemma_single_line(heading);
    lemma_lines_of_add(heading, one);
    lemma_lines_of_add(one, heading + one);
    lemma_lines_of_add(one, one + (heading + one));
    assert(confirmations_heading() =~= one + (one + (heading + one)));
    let lines = lines_of(confirmations_heading());
    assert(lines =~= seq![one, one, heading, one]);
    lemma_no_items(lines);
}

/// The items of a rendered confirmations block are found.
proof fn lemma_confirmations_read_back(items: Seq<ConfirmationModel>, h: Seq<char>)
    requires
        items.len() > 0,
        items_error(items) is None,
        forall|k: int| 0 <= k < items.len() ==> plain_item(#[trigger] items[k]),
        is_hash(h),
    ensures
        confirmations_of(confirmations_block(items, h)) == Ok::<
            Seq<ConfirmationModel>,
            PlanErrorModel,
        >(items),
{
    lemma_other_lines(h);
    lemma_heading_lines(h);
    lemma_box_lines(items);
    lemma_boxes_read_back(items);
    lemma_seal_line_stores(h);
    reveal_strlit("\n");
    let one = "\n"@;
    let line = seal_line(h) + "\n"@;
    let lines = checkbox_lines(items);
    let heading = confirmations_heading();
    lemma_single_line(one);
    lemma_single_line(line);
    lemma_lines_of_add(one, line);
    lemma_lines_of_add(lines, one + line);
    lemma_lines_of_add(heading, lines + (one + line));
    assert(confirmations_block(items, h) =~= heading + (lines + (one + line)));
    let end = lines_of(one + line);
    assert(end =~= seq![one, line]);
    lemma_no_items(end);
    lemma_items_in_add(boxes(items), end);
    lemma_items_in_add(lines_of(heading), boxes(items) + end);
    assert(items_in(lines_of(confirmations_block(items, h))) =~= items);
}

/// Whether a plan reads back from the file that is rendered for it: it is
/// valid, nothing in it is taken for a marker, a seal or a fence, and each
/// description of a confirmation is one trimmed line.
pub open spec fn renders_whole(
    body: Seq<char>,
    a: ActionsModel,
    items: Seq<ConfirmationModel>,
) -> bool {
    &&& actions_error(a) is None
    &&& items_error(items) is None
    &&& unmarked(trimmed(body))
    &&& !contains(trimmed(body), SEAL_PREFIX@)
    &&& unmarked(actions_json(a))
    &&& !contains(actions_json(a), "```"@)
    &&& unmarked(checkbox_lines(items))
    &&& forall|k: int|
        0 <= k < items.len() ==> flat((#[trigger] items[k]).description) && trimmed(
            items[k].description,
        ) == items[k].description
}

/// Valid items have valid ids, and there is one.
pub proof fn lemma_plain_items(items: Seq<ConfirmationModel>)
    requires
        items_error(items) is None,
        forall|k: int|
            0 <= k < items.len() ==> flat((#[trigger] items[k]).description) && trimmed(
                items[k].description,
            ) == items[k].description,
    ensures
        items.len() > 0,
        forall|k: int| 0 <= k < items.len() ==> plain_item(#[trigger] items[k]),
{
    let f = |k: int| item_error(items, k);
    assert(first_some(items.len() as int, f) is None);
    assert forall|k: int| 0 <= k < items.len() implies plain_item(#[trigger] items[k]) by {
        lemma_none_before(items.len() as int, f, k);
        assert(f(k) is None);
    }
}

proof fn lemma_eight(
    t: Seq<char>,
    nn: Seq<char>,
    ab: Seq<char>,
    h1: Seq<char>,
    json: Seq<char>,
    f: Seq<char>,
    ae: Seq<char>,
    cb: Seq<char>,
    h2: Seq<char>,
    lines: Seq<char>,
    n: Seq<char>,
    line: Seq<char>,
    ce: Seq<char>,
)
    ensures
        t + nn + ab + h1 + json + f + ae + nn + cb + h2 + lines + n + (line + ce) == eight(
            t + nn,
            ab,
            h1 + json + f,
            ae,
            nn,
            cb,
            h2 + lines + n + line,
            ce,
        ),
{
    let e = eight(t + nn, ab, h1 + json + f, ae, nn, cb, h2 + lines + n + line, ce);
    assert(t + nn + ab + h1 + json + f + ae + nn + cb + h2 + lines + n + (line + ce) =~= e);
}

/// A sealed plan file is made of eight pieces.
proof fn lemma_sealed_shape(
    body: Seq<char>,
    a: ActionsModel,
    items: Seq<ConfirmationModel>,
    h: Seq<char>,
)
    requires
        renders_whole(body, a, items),
        is_hash(h),
    ensures
        with_seal(unsealed_plan(body, a, items), h) == eight(
            trimmed(body) + "\n\n"@,
            ACTIONS_BEGIN@,
            actions_block(actions_json(a)),
            ACTIONS_END@,
            "\n\n"@,
            CONFIRMATIONS_BEGIN@,
            confirmations_block(items, h),
            CONFIRMATIONS_END@,
        ),
{
    lemma_plain_items(items);
    lemma_sealed_text(body, a, items, h);
    lemma_eight(
        trimmed(body),
        "\n\n"@,
        ACTIONS_BEGIN@,
        actions_heading(),
        actions_json(a),
        "\n```\n\n"@,
        ACTIONS_END@,
        CONFIRMATIONS_BEGIN@,
        confirmations_heading(),
        checkbox_lines(items),
        "\n"@,
        seal_line(h) + "\n"@,
        CONFIRMATIONS_END@,
    );
}

/// No marker stands in a piece that is none.
proof fn lemma_pieces_are_unmarked(
    body: Seq<char>,
    a: ActionsModel,
    items: Seq<ConfirmationModel>,
    h: Seq<char>,
    m: Seq<char>,
)
    requires
        renders_whole(body, a, items),
        is_hash(h),
        is_marker(m),
    ensures
        free(trimmed(body) + "\n\n"@, m),
        free(actions_block(actions_json(a)), m),
        free("\n\n"@, m),
        free(confirmations_block(items, h), m),
        closed(actions_block(actions_json(a))),
        closed(confirmations_block(items, h)),
{
    lemma_markers();
    reveal_strlit("\n\n");
    let q2 = "\n\n"@;
    lemma_unmarked(trimmed(body), m);
    lemma_no_tag(q2, m);
    lemma_free_add(trimmed(body), q2, m);
    lemma_actions_block_is_unmarked(actions_json(a), m);
    lemma_confirmations_block_is_unmarked(items, h, m);
}

/// No marker and no seal stands in a body that is rendered.
proof fn lemma_front_is_unmarked(body: Seq<char>)
    requires
        unmarked(trimmed(body)),
        !contains(trimmed(body), SEAL_PREFIX@),
    ensures
        marker_in(trimmed(body) + "\n\n"@) is None,
{
    lemma_markers();
    reveal_strlit("\n\n");
    let q2 = "\n\n"@;
    let t = trimmed(body);
    let words = seq![
        ACTIONS_BEGIN@,
        ACTIONS_END@,
        CONFIRMATIONS_BEGIN@,
        CONFIRMATIONS_END@,
        SEAL_PREFIX@,
    ];
    assert forall|i: int| 0 <= i < 5 implies !contains(t + q2, #[trigger] words[i]) by {
        let m = words[i];
        assert(tag(m));
        assert(!contains(t, m));
        lemma_free(t, m);
        lemma_no_tag(q2, m);
        lemma_free_add(t, q2, m);
        lemma_free(t + q2, m);
    }
    assert(words[0] == ACTIONS_BEGIN@ && words[1] == ACTIONS_END@);
    assert(words[2] == CONFIRMATIONS_BEGIN@ && words[3] == CONFIRMATIONS_END@);
    assert(words[4] == SEAL_PREFIX@);
}

/// Where the parts of a sealed plan file stand.
proof fn lemma_sealed_parts(
    body: Seq<char>,
    a: ActionsModel,
    items: Seq<ConfirmationModel>,
    h: Seq<char>,
)
    requires
        renders_whole(body, a, items),
        is_hash(h),
    ensures
        ({
            let text = with_seal(unsealed_plan(body, a, items), h);
            let front = trimmed(body) + "\n\n"@;
            let b = front.len() as int;
            let e = b + ACTIONS_BEGIN@.len() + actions_block(actions_json(a)).len();
            &&& actions_span(text) == Ok::<(int, int), PlanErrorModel>((b, e))
            &&& text.take(b) == front
            &&& marker_in(front) is None
            &&& text.subrange(b + ACTIONS_BEGIN@.len(), e) == actions_block(actions_json(a))
            &&& confirmations_in(text, e) == confirmations_of(confirmations_block(items, h))
        }),
{
    lemma_sealed_shape(body, a, items, h);
    lemma_front_is_unmarked(body);
    lemma_markers();
    lemma_markers_differ();
    let p0 = trimmed(body) + "\n\n"@;
    let q1 = actions_block(actions_json(a));
    let q2 = "\n\n"@;
    let q3 = confirmations_block(items, h);
    let ab = ACTIONS_BEGIN@;
    let ae = ACTIONS_END@;
    let cb = CONFIRMATIONS_BEGIN@;
    let ce = CONFIRMATIONS_END@;
    lemma_pieces_are_unmarked(body, a, items, h, ab);
    lemma_pieces_are_unmarked(body, a, items, h, ae);
    lemma_pieces_are_unmarked(body, a, items, h, cb);
    lemma_pieces_are_unmarked(body, a, items, h, ce);
    assert(closed(q2) && p0.len() > 0 && p0.last() == '\n') by {
        reveal_strlit("\n\n");
    }
    lemma_four_markers(p0, ab, q1, ae, q2, cb, q3, ce);
    assert(trimmed(Seq::<char>::empty()).len() == 0);
}

/// A body with line feeds behind it is trimmed as the body.
proof fn lemma_front_trimmed(body: Seq<char>)
    ensures
        trimmed(trimmed(body) + "\n\n"@) == trimmed(body),
{
    reveal_strlit("\n\n");
    let t = trimmed(body);
    lemma_trimmed_ends(body);
    if t.len() > 0 {
        assert(t + "\n\n"@ =~= Seq::<char>::empty() + t + "\n\n"@);
        lemma_trimmed(Seq::empty(), t, "\n\n"@);
    } else {
        let s = t + "\n\n"@;
        assert(s =~= "\n\n"@ + Seq::empty());
        lemma_trimmed_start("\n\n"@, Seq::empty());
        assert(t =~= Seq::empty());
    }
}

/// The manifest that stands in a sealed plan file is the one rendered.
pub proof fn lemma_manifest_in_sealed(
    body: Seq<char>,
    a: ActionsModel,
    items: Seq<ConfirmationModel>,
    h: Seq<char>,
)
    requires
        renders_whole(body, a, items),
        is_hash(h),
        byte_len(with_seal(unsealed_plan(body, a, items), h)) <= PLAN_MAX_BYTES,
    ensures
        manifest_in(with_seal(unsealed_plan(body, a, items), h)) == Some(actions_json(a)),
{
    lemma_sealed_parts(body, a, items, h);
    lemma_manifest_ends(a);
    lemma_fenced(actions_json(a));
}

/// A plan that was rendered and sealed parses to its trimmed body, its
/// actions and its confirmations, given that the manifest reads back as what
/// it was written for.
pub proof fn law_sealed_plans_read_back(
    body: Seq<char>,
    a: ActionsModel,
    items: Seq<ConfirmationModel>,
    h: Seq<char>,
)
    requires
        renders_whole(body, a, items),
        is_hash(h),
        byte_len(with_seal(unsealed_plan(body, a, items), h)) <= PLAN_MAX_BYTES,
        faithful(actions_json(a)),
    ensures
        plan_of(with_seal(unsealed_plan(body, a, items), h)) == Ok::<PlanModel, PlanErrorModel>(
            PlanModel { body_markdown: trimmed(body), actions: a, confirmations: items },
        ),
{
    lemma_plain_items(items);
    lemma_sealed_parts(body, a, items, h);
    lemma_manifest_ends(a);
    lemma_fenced(actions_json(a));
    law_actions_read_back(a);
    lemma_confirmations_read_back(items, h);
    lemma_front_trimmed(body);
}

/// A plan that is rendered and sealed carries the seal that fits it.
pub proof fn law_rendered_plans_are_sealed(
    body: Seq<char>,
    a: ActionsModel,
    items: Seq<ConfirmationModel>,
)
    requires
        renders_whole(body, a, items),
        is_hash(seal_of(unsealed_plan(body, a, items))),
    ensures
        ({
            let text = unsealed_plan(body, a, items);
            sealed(with_seal(text, seal_of(text)))
        }),
{
    lemma_plain_items(items);
    lemma_no_hidden_seal(body, a, items);
    lemma_rendered_has_seal_line(body, a, items);
    law_with_seal_is_sealed(unsealed_plan(body, a, items));
}

} // verus!
