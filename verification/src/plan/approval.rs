//! What it takes for a plan to be approved, checked and run.
use vstd::prelude::*;
use vstd::string::*;

use super::calendar::{day_number, is_date, names_day, unix_to_ymdhms};
use super::file::{
    actions_in, actions_json, actions_span, blank_hash, checkbox_line, checkbox_lines, item_error,
    item_id_error, items_error, plan_of, render_sealed, unsealed_plan, ACTIONS_BEGIN, ACTIONS_END,
    CONFIRMATIONS_BEGIN, CONFIRMATIONS_END,
};
use super::seal::{
    hex_text, is_seal, kept, seal_line, seal_of, sealed, sha256_digest, stored_seal, verify_seal,
    with_seal, without_seal,
};
use super::snapshot::PlanSnapshot;
use super::{
    actions_error, all_ok_box, apply_confirmations, command_action_error, command_argv_error,
    complete, confirmations_complete, confirmed, patch_action_error, patch_path_error, unknown_id,
    validate_plan_id, ActionsModel, Confirmation, ConfirmationModel, ParsedPlan, PlanActions,
    PlanCommandAction, PlanError, PlanErrorModel, PlanModel, PlanPatchAction,
};
use crate::agent_cli::telling::{holds_text, lemma_holds_inner, lemma_holds_part};
use crate::json::hex_digit;
use crate::model::{
    deep, first_some, lemma_first_at, lemma_first_found, lemma_first_none, lemma_none_before,
};
use crate::plan_cmd::{
    authorize_run, check_plan, check_report, make_snapshot, ok_plan, refuse_busy, refuse_run,
    run_refusal, snapshot_fits, Report, Resealed,
};
use crate::sansio::permissions::Authorization;
use crate::text::{
    byte_len, concatenated, lemma_find_sub, lemma_lines_of, lines_of, occurs_at, trimmed, views,
};

verus! {

/// Where no box that confirms everything is checked, a plan with an item that is
/// not checked is not complete: each item counts, every single one.
pub proof fn law_each_item_must_be_confirmed(items: Seq<ConfirmationModel>, i: int)
    requires
        0 <= i < items.len(),
        items[i].id != "all-ok"@,
        !items[i].checked,
        forall|j: int|
            0 <= j < items.len() && (#[trigger] items[j]).id == "all-ok"@ ==> !items[j].checked,
    ensures
        !complete(items),
{
    let f = |k: int|
        if items[k].id == "all-ok"@ {
            Some(items[k].checked)
        } else {
            None
        };
    let n = items.len() as int;
    assert(all_ok_box(items) == first_some(n, f));
    if first_some(n, f) is Some {
        let k = lemma_first_found(n, f);
        assert(items[k].id == "all-ok"@);
    }
}

/// A plan is complete once the box that confirms everything is checked, or once
/// each other item is.
pub proof fn law_confirmed_plans_are_complete(items: Seq<ConfirmationModel>, k: int)
    ensures
        (forall|i: int|
            0 <= i < items.len() && (#[trigger] items[i]).id != "all-ok"@ ==> items[i].checked)
            ==> complete(items),
        (0 <= k < items.len() && items[k].id == "all-ok"@ && items[k].checked && (forall|j: int|
            0 <= j < k ==> (#[trigger] items[j]).id != "all-ok"@)) ==> complete(items),
{
    let f = |i: int|
        if items[i].id == "all-ok"@ {
            Some(items[i].checked)
        } else {
            None
        };
    let n = items.len() as int;
    assert(all_ok_box(items) == first_some(n, f));
    if 0 <= k < items.len() && items[k].id == "all-ok"@ && items[k].checked && (forall|j: int|
        0 <= j < k ==> (#[trigger] items[j]).id != "all-ok"@) {
        assert forall|j: int| 0 <= j < k implies #[trigger] f(j) is None by {
            assert(items[j].id != "all-ok"@);
        }
        lemma_first_at(n, f, k);
    }
}

/// Confirming a plan changes nothing of its items but their boxes.
pub open spec fn same_items(a: Seq<ConfirmationModel>, b: Seq<ConfirmationModel>) -> bool {
    &&& a.len() == b.len()
    &&& forall|i: int|
        0 <= i < a.len() ==> (#[trigger] b[i]).id == a[i].id && b[i].description
            == a[i].description
}

/// To confirm a plan as a whole checks the box for that and clears all others;
/// to confirm some items checks those and clears all others; to confirm nothing
/// leaves the boxes alone.
pub proof fn law_confirmations_check_what_is_named(
    items: Seq<ConfirmationModel>,
    all: bool,
    ids: Seq<Seq<char>>,
)
    ensures
        confirmed(items, all, ids) matches Ok(after) ==> {
            &&& same_items(items, after)
            &&& forall|i: int|
                0 <= i < items.len() ==> (#[trigger] after[i]).checked == (if all {
                    items[i].id == "all-ok"@
                } else if ids.len() == 0 {
                    items[i].checked
                } else {
                    ids.contains(items[i].id)
                })
        },
        all || ids.len() == 0 ==> confirmed(items, all, ids) is Ok,
{
}

/// An item that is not there cannot be confirmed, nor can the box for the whole
/// plan be named: such a name is refused, the first of them.
pub proof fn law_unknown_items_are_refused(
    items: Seq<ConfirmationModel>,
    ids: Seq<Seq<char>>,
    k: int,
)
    requires
        0 <= k < ids.len(),
        !known_item(items, ids[k]),
        forall|j: int| 0 <= j < k ==> known_item(items, #[trigger] ids[j]),
    ensures
        confirmed(items, false, ids) == Err::<Seq<ConfirmationModel>, PlanErrorModel>(
            PlanErrorModel::UnknownConfirmationId(ids[k]),
        ),
{
    let f = |i: int| unknown_id(items, ids[i]);
    assert forall|i: int| 0 <= i < k implies #[trigger] f(i) is None by {
        assert(known_item(items, ids[i]));
    }
    lemma_first_at(ids.len() as int, f, k);
}

/// Whether an item with that id is there, other than the one for the whole plan.
pub open spec fn known_item(items: Seq<ConfirmationModel>, id: Seq<char>) -> bool {
    &&& id != "all-ok"@
    &&& exists|j: int| 0 <= j < items.len() && (#[trigger] items[j]).id == id
}

/// Items that are there can be confirmed.
pub proof fn law_known_items_are_confirmed(
    items: Seq<ConfirmationModel>,
    ids: Seq<Seq<char>>,
)
    requires
        forall|j: int| 0 <= j < ids.len() ==> known_item(items, #[trigger] ids[j]),
    ensures
        confirmed(items, false, ids) is Ok,
{
    let f = |i: int| unknown_id(items, ids[i]);
    assert forall|i: int| 0 <= i < ids.len() implies #[trigger] f(i) is None by {
        assert(known_item(items, ids[i]));
    }
    lemma_first_none(ids.len() as int, f);
}

/// A plan of which some items were confirmed and another was not is not
/// complete, and is not run.
pub proof fn law_forgotten_items_stop_a_plan(
    text: Seq<char>,
    p: PlanModel,
    ids: Seq<Seq<char>>,
    i: int,
)
    requires
        ids.len() > 0,
        confirmed(p.confirmations, false, ids) is Ok,
        0 <= i < p.confirmations.len(),
        p.confirmations[i].id != "all-ok"@,
        !ids.contains(p.confirmations[i].id),
    ensures
        ({
            let after = confirmed(p.confirmations, false, ids)->Ok_0;
            let q = PlanModel { confirmations: after, ..p };
            !complete(after) && run_refusal(text, q) is Some
        }),
{
    let items = p.confirmations;
    let after = confirmed(items, false, ids)->Ok_0;
    law_confirmations_check_what_is_named(items, false, ids);
    assert forall|j: int| 0 <= j < after.len() && (#[trigger] after[j]).id
        == "all-ok"@ implies !after[j].checked by {
        if ids.contains("all-ok"@) {
            let f = |i: int| unknown_id(items, ids[i]);
            let m = choose|m: int| 0 <= m < ids.len() && ids[m] == "all-ok"@;
            lemma_none_before(ids.len() as int, f, m);
            assert(f(m) is Some);
        }
    }
    assert(after[i].id == items[i].id);
    law_each_item_must_be_confirmed(after, i);
}

/// A plan is run exactly where the seal that it carries is the digest of all
/// its text but the seal lines, and its confirmations are complete. The check
/// says so: it succeeds for those, fails for a text that is no plan, and tells
/// the others apart from both.
pub proof fn law_only_sealed_and_confirmed_plans_run(path: Seq<char>, text: Seq<char>)
    ensures
        plan_of(text) is Err <==> check_report(path, text).exit == 1,
        plan_of(text) matches Ok(p) ==> {
            let fits = stored_seal(text) == Some(
                hex_text(sha256_digest(vstd::utf8::encode_utf8(without_seal(text)))),
            );
            &&& run_refusal(text, p) is None <==> fits && complete(p.confirmations)
            &&& check_report(path, text).exit == 0 <==> fits && complete(p.confirmations)
            &&& check_report(path, text).exit == 10 <==> !(fits && complete(p.confirmations))
            &&& check_report(path, text).err.len() > 0 <==> !(fits && complete(p.confirmations))
        },
{
}

/// A text in which no line starts as a seal line does is hashed whole; a seal
/// line is left out wherever it stands, and any other line is not.
pub proof fn law_all_but_seal_lines_is_hashed(text: Seq<char>, lines: Seq<Seq<char>>, l: Seq<char>)
    ensures
        (forall|i: int| 0 <= i < lines_of(text).len() ==> !starts_as_seal(#[trigger] lines_of(text)[i]))
            ==> without_seal(text) == text,
        starts_as_seal(l) ==> kept(lines.push(l)) == kept(lines),
        !starts_as_seal(l) ==> kept(lines.push(l)) == kept(lines) + l,
{
    assert(lines.push(l).drop_last() =~= lines);
    lemma_lines_of(text);
    if forall|i: int|
        0 <= i < lines_of(text).len() ==> !starts_as_seal(#[trigger] lines_of(text)[i]) {
        lemma_all_kept(lines_of(text));
    }
    lemma_seal_start(l);
}

/// Whether a line starts as a seal line does.
pub open spec fn starts_as_seal(line: Seq<char>) -> bool {
    let start = "<!-- ATTINI-CONFIRMATIONS-SHA256:"@;
    line.len() >= start.len() && line.take(start.len() as int) == start
}

proof fn lemma_seal_start(line: Seq<char>)
    ensures
        is_seal(line) == starts_as_seal(line),
{
}

proof fn lemma_all_kept(lines: Seq<Seq<char>>)
    requires
        forall|i: int| 0 <= i < lines.len() ==> !starts_as_seal(#[trigger] lines[i]),
    ensures
        kept(lines) == concatenated(lines),
    decreases lines.len(),
{
    if lines.len() > 0 {
        let rest = lines.drop_last();
        assert forall|i: int| 0 <= i < rest.len() implies !starts_as_seal(#[trigger] rest[i]) by {
            assert(rest[i] == lines[i]);
        }
        lemma_all_kept(rest);
        assert(!starts_as_seal(lines[lines.len() - 1]));
        lemma_seal_start(lines.last());
    }
}

/// A digest is written two digits to a byte, the upper half first, in lower
/// case.
pub proof fn law_digests_are_written_in_hexadecimal(bytes: Seq<u8>, i: int)
    requires
        0 <= i < bytes.len(),
    ensures
        hex_text(bytes).len() == 2 * bytes.len(),
        hex_text(bytes)[2 * i] == hex_digit(bytes[i] as int / 16),
        hex_text(bytes)[2 * i + 1] == hex_digit(bytes[i] as int % 16),
        forall|d: int| 0 <= d < 10 ==> #[trigger] hex_digit(d) as int == '0' as int + d,
        forall|d: int| 10 <= d < 16 ==> #[trigger] hex_digit(d) as int == 'a' as int + d - 10,
    decreases bytes.len(),
{
    lemma_hex_len(bytes.drop_last());
    let rest = bytes.drop_last();
    if i < rest.len() {
        law_digests_are_written_in_hexadecimal(rest, i);
        assert(rest[i] == bytes[i]);
    }
}

proof fn lemma_hex_len(bytes: Seq<u8>)
    ensures
        hex_text(bytes).len() == 2 * bytes.len(),
    decreases bytes.len(),
{
    if bytes.len() > 0 {
        lemma_hex_len(bytes.drop_last());
    }
}

/// Whether that can be the id of an action or of an item.
pub open spec fn plain_id(id: Seq<char>) -> bool {
    &&& 1 <= id.len() <= 64
    &&& 'a' <= id[0] <= 'z'
    &&& forall|i: int|
        0 <= i < id.len() ==> ('a' <= #[trigger] id[i] <= 'z' || '0' <= id[i] <= '9' || id[i]
            == '-')
}

/// The items of a plan are valid exactly where each has an id, no two have the
/// same, one of them is for the whole plan, and there are no more than 32.
pub proof fn law_valid_items(items: Seq<ConfirmationModel>)
    ensures
        items_error(items) is None <==> {
            &&& items.len() <= 32
            &&& forall|i: int| 0 <= i < items.len() ==> plain_id((#[trigger] items[i]).id)
            &&& forall|i: int, j: int|
                0 <= i < j < items.len() ==> (#[trigger] items[i]).id != (#[trigger] items[j]).id
            &&& exists|j: int| 0 <= j < items.len() && (#[trigger] items[j]).id == "all-ok"@
        },
{
    let n = items.len() as int;
    let f = |k: int| item_error(items, k);
    let g = |k: int| item_id_error(items, k);
    let valid = {
        &&& items.len() <= 32
        &&& forall|i: int| 0 <= i < items.len() ==> plain_id((#[trigger] items[i]).id)
        &&& forall|i: int, j: int|
            0 <= i < j < items.len() ==> (#[trigger] items[i]).id != (#[trigger] items[j]).id
        &&& exists|j: int| 0 <= j < items.len() && (#[trigger] items[j]).id == "all-ok"@
    };
    if valid {
        assert forall|k: int| 0 <= k < n implies #[trigger] f(k) is None by {
            assert(plain_id(items[k].id));
        }
        lemma_first_none(n, f);
        assert forall|k: int| 0 <= k < n implies #[trigger] g(k) is None by {}
        lemma_first_none(n, g);
    }
    if items_error(items) is None {
        assert(first_some(n, f) is None);
        assert(first_some(n, g) is None);
        assert forall|i: int| 0 <= i < items.len() implies plain_id((#[trigger] items[i]).id) by {
            lemma_none_before(n, f, i);
            assert(f(i) is None);
        }
        assert forall|i: int, j: int| 0 <= i < j < items.len() implies (#[trigger] items[i]).id != (
        #[trigger] items[j]).id by {
            lemma_none_before(n, g, j);
            assert(g(j) is None);
        }
        if n > 32 {
            lemma_none_before(n, f, 32);
            assert(f(32) is None);
        }
    }
}

/// Whether the patches of a manifest are each in order.
pub open spec fn patches_in_order(a: ActionsModel) -> bool {
    &&& a.patches.len() <= 128
    &&& forall|i: int|
        0 <= i < a.patches.len() ==> plain_id((#[trigger] a.patches[i]).id)
            && a.patches[i].path.len() > 0 && trimmed(a.patches[i].description).len() > 0
    &&& forall|i: int, j: int|
        0 <= i < j < a.patches.len() ==> (#[trigger] a.patches[i]).id != (
        #[trigger] a.patches[j]).id && a.patches[i].path != a.patches[j].path
}

/// Whether the commands of a manifest are each in order.
pub open spec fn commands_in_order(a: ActionsModel) -> bool {
    &&& a.commands.len() <= 128
    &&& forall|i: int|
        0 <= i < a.commands.len() ==> plain_id((#[trigger] a.commands[i]).id)
            && a.commands[i].argv.len() > 0 && trimmed(a.commands[i].description).len() > 0
    &&& forall|i: int, j: int|
        0 <= i < j < a.commands.len() ==> (#[trigger] a.commands[i]).id != (
        #[trigger] a.commands[j]).id && a.commands[i].argv != a.commands[j].argv
    &&& forall|i: int, j: int|
        0 <= i < a.commands.len() && 0 <= j < a.patches.len() ==> (#[trigger] a.commands[i]).id != (
        #[trigger] a.patches[j]).id
}

/// A manifest is valid exactly where its patches and its commands are in order:
/// no more than 128 of each, every one with an id that no other has, a
/// description, and a path or an argv that no other has.
pub proof fn law_valid_manifests(a: ActionsModel)
    ensures
        actions_error(a) is None <==> patches_in_order(a) && commands_in_order(a),
{
    let n = a.patches.len() as int;
    let m = a.commands.len() as int;
    let f = |i: int| patch_action_error(a, i);
    let g = |i: int| command_action_error(a, i);
    let p = |i: int| patch_path_error(a, i);
    let q = |i: int| command_argv_error(a, i);
    if patches_in_order(a) && commands_in_order(a) {
        assert forall|i: int| 0 <= i < n implies #[trigger] f(i) is None by {
            assert(plain_id(a.patches[i].id));
        }
        assert forall|i: int| 0 <= i < m implies #[trigger] g(i) is None by {
            assert(plain_id(a.commands[i].id));
        }
        assert forall|i: int| 0 <= i < n implies #[trigger] p(i) is None by {}
        assert forall|i: int| 0 <= i < m implies #[trigger] q(i) is None by {}
        lemma_first_none(n, f);
        lemma_first_none(m, g);
        lemma_first_none(n, p);
        lemma_first_none(m, q);
    }
    if actions_error(a) is None {
        assert(first_some(n, f) is None);
        assert(first_some(m, g) is None);
        assert(first_some(n, p) is None);
        assert(first_some(m, q) is None);
        assert forall|i: int| 0 <= i < n implies f(i) is None && #[trigger] p(i) is None by {
            lemma_none_before(n, f, i);
            lemma_none_before(n, p, i);
        }
        assert forall|i: int| 0 <= i < m implies g(i) is None && #[trigger] q(i) is None by {
            lemma_none_before(m, g, i);
            lemma_none_before(m, q, i);
        }
        assert forall|i: int| 0 <= i < n implies plain_id((#[trigger] a.patches[i]).id)
            && a.patches[i].path.len() > 0 && trimmed(a.patches[i].description).len() > 0 by {
            assert(p(i) is None);
            assert(f(i) is None);
        }
        assert forall|i: int| 0 <= i < m implies plain_id((#[trigger] a.commands[i]).id)
            && a.commands[i].argv.len() > 0 && trimmed(a.commands[i].description).len() > 0 by {
            assert(q(i) is None);
            assert(g(i) is None);
        }
        assert forall|i: int, j: int| 0 <= i < j < n implies (#[trigger] a.patches[i]).id != (
        #[trigger] a.patches[j]).id && a.patches[i].path != a.patches[j].path by {
            assert(p(j) is None);
            assert(f(j) is None);
        }
        assert forall|i: int, j: int| 0 <= i < j < m implies (#[trigger] a.commands[i]).id != (
        #[trigger] a.commands[j]).id && a.commands[i].argv != a.commands[j].argv by {
            assert(q(j) is None);
            assert(g(j) is None);
        }
        assert forall|i: int, j: int| 0 <= i < m && 0 <= j < n implies (
        #[trigger] a.commands[i]).id != (#[trigger] a.patches[j]).id by {
            assert(q(i) is None);
            assert(g(i) is None);
        }
    }
}

/// A text that is a plan is short enough, and what it holds is valid: its
/// manifest and its items.
pub proof fn law_plans_hold_what_is_valid(text: Seq<char>)
    ensures
        plan_of(text) matches Ok(p) ==> {
            &&& byte_len(text) <= 64 * 1024
            &&& patches_in_order(p.actions) && commands_in_order(p.actions)
            &&& p.confirmations.len() <= 32
            &&& exists|j: int|
                0 <= j < p.confirmations.len() && (#[trigger] p.confirmations[j]).id == "all-ok"@
            &&& exists|begin: int|
                occurs_at(text, "<!-- ATTINI-ACTIONS:BEGIN -->"@, begin) && p.body_markdown
                    == #[trigger] trimmed(text.take(begin))
        },
{
    if plan_of(text) is Ok {
        let p = plan_of(text)->Ok_0;
        let begin = actions_span(text)->Ok_0.0;
        lemma_find_sub(text, ACTIONS_BEGIN@, 0);
        assert(p.body_markdown == trimmed(text.take(begin)));
        assert(occurs_at(text, "<!-- ATTINI-ACTIONS:BEGIN -->"@, begin));
        let end = actions_span(text)->Ok_0.1;
        assert(actions_in(text, begin, end) is Ok);
        law_valid_items(p.confirmations);
        law_valid_manifests(p.actions);
    }
}

/// Confirmations that are found complete have the box for the whole plan
/// checked, or each other box; those that are not have an item that nobody
/// confirmed.
pub proof fn law_finding_confirmations_complete(v: &Vec<Confirmation>, r: bool)
    requires
        call_ensures(confirmations_complete, (v,), r),
    ensures
        r ==> (exists|k: int|
            0 <= k < v@.len() && (#[trigger] v@[k]).id@ == "all-ok"@ && v@[k].checked) || (forall|
            i: int,
        |
            0 <= i < v@.len() ==> (#[trigger] v@[i]).id@ == "all-ok"@ || v@[i].checked),
        !r ==> exists|i: int|
            0 <= i < v@.len() && (#[trigger] v@[i]).id@ != "all-ok"@ && !v@[i].checked,
{
    let items = deep(v@);
    assert forall|i: int| 0 <= i < items.len() implies (#[trigger] items[i]).id == v@[i].id@
        && items[i].checked == v@[i].checked by {}
    if r {
        if exists|i: int|
            0 <= i < items.len() && (#[trigger] items[i]).id != "all-ok"@ && !items[i].checked {
            let i = choose|i: int|
                0 <= i < items.len() && (#[trigger] items[i]).id != "all-ok"@ && !items[i].checked;
            if forall|j: int|
                0 <= j < items.len() && (#[trigger] items[j]).id == "all-ok"@ ==> !items[j].checked {
                law_each_item_must_be_confirmed(items, i);
            }
            let k = choose|k: int|
                0 <= k < items.len() && (#[trigger] items[k]).id == "all-ok"@ && items[k].checked;
            assert(v@[k].id@ == "all-ok"@ && v@[k].checked);
        } else {
            assert forall|i: int| 0 <= i < v@.len() implies (#[trigger] v@[i]).id@ == "all-ok"@
                || v@[i].checked by {
                assert(items[i].id == v@[i].id@);
            }
        }
    } else {
        law_confirmed_plans_are_complete(items, 0);
        let i = choose|i: int|
            0 <= i < items.len() && (#[trigger] items[i]).id != "all-ok"@ && !items[i].checked;
        assert(v@[i].id@ != "all-ok"@ && !v@[i].checked);
    }
}

/// A plan that is let through carries a seal that fits all its text but the
/// seal lines, and is confirmed; the check and the run agree on that.
pub proof fn law_letting_a_plan_through(
    path: &str,
    text: &str,
    plan: &ParsedPlan,
    refusal: Option<String>,
    report: Report,
)
    requires
        call_ensures(refuse_run, (text, plan), refusal),
        call_ensures(check_plan, (path, text), report),
        plan_of(text@) == Ok::<PlanModel, PlanErrorModel>(plan@),
    ensures
        refusal is None <==> sealed(text@) && complete(plan@.confirmations),
        refusal is None <==> report.exit == 0,
        report.exit == 0 || report.exit == 10,
        report.exit == 0 <==> report.err@.len() == 0,
{
    assert(views(report.err@).len() == report.err@.len());
}

/// A seal is verified by the digest of the text without its seal lines.
pub proof fn law_verifying_a_seal(text: &str, r: Result<bool, PlanError>)
    requires
        call_ensures(verify_seal, (text,), r),
    ensures
        r is Ok,
        r->Ok_0 <==> stored_seal(text@) == Some(
            hex_text(sha256_digest(vstd::utf8::encode_utf8(without_seal(text@)))),
        ),
{
}

/// To approve a plan keeps its body and its actions, checks the boxes that are
/// named, and seals what comes of it: the text that is handed out is rendered
/// from the plan with its new boxes, under the seal that fits it.
pub proof fn law_approving_a_plan(
    text: &str,
    all: bool,
    ids: &Vec<String>,
    r: Result<Resealed, PlanError>,
)
    requires
        call_ensures(ok_plan, (text, all, ids), r),
    ensures
        r matches Ok(x) ==> plan_of(text@) is Ok && ({
            let p = plan_of(text@)->Ok_0;
            let items = confirmed(p.confirmations, all, views(ids@));
            let bare = unsealed_plan(p.body_markdown, p.actions, items->Ok_0);
            items is Ok && x.text@ == with_seal(bare, seal_of(bare))
        }),
        plan_of(text@) is Err ==> r is Err,
        plan_of(text@) is Ok && r is Err ==> confirmed(
            plan_of(text@)->Ok_0.confirmations,
            all,
            views(ids@),
        ) is Err || actions_error(plan_of(text@)->Ok_0.actions) is Some,
{
}

/// A snapshot that is kept under the hash of a plan is used again only for the
/// same plan.
pub proof fn law_snapshots_fit_their_plan(
    path: &str,
    hash: &str,
    plan: ParsedPlan,
    s: PlanSnapshot,
    fits: bool,
)
    requires
        call_ensures(make_snapshot, (path, hash, plan), s),
    ensures
        s@.plan_sha256 == hash@,
        s@.canonical_path == path@,
        s@.body_markdown == plan@.body_markdown,
        s@.actions == plan@.actions,
        s@.confirmations == plan@.confirmations,
        call_ensures(snapshot_fits, (&s, hash, &plan), fits) ==> fits,
{
}

/// A run is refused for a session that is in use, or in which a call waits for
/// approval, and for no other.
pub proof fn law_busy_sessions_refuse_runs(
    name: &str,
    held: bool,
    waits: bool,
    r: Option<String>,
)
    requires
        call_ensures(refuse_busy, (name, held, waits), r),
    ensures
        r is None <==> !held && !waits,
{
}

/// A run goes by the approved plan alone: by its hash, its actions and the file
/// that they are kept in.
pub proof fn law_runs_are_authorized_by_their_plan(
    hash: &str,
    plan: &ParsedPlan,
    path: &str,
    r: Authorization,
)
    requires
        call_ensures(authorize_run, (hash, plan, path), r),
    ensures
        r matches Authorization::ApprovedPlan(a) && a.plan_sha256@ == hash@ && a.actions@
            == plan@.actions && a.snapshot_path@ == path@,
{
}

/// A manifest is found valid exactly where its patches and its commands are
/// in order.
pub proof fn law_validating_a_manifest(a: &PlanActions, r: Result<(), PlanError>)
    requires
        call_ensures(PlanActions::validate, (a,), r),
    ensures
        r is Ok <==> patches_in_order(a@) && commands_in_order(a@),
{
    law_valid_manifests(a@);
}

/// An id is found valid exactly where it starts with a small letter, holds
/// nothing but small letters, digits and hyphens, and has no more than 64
/// characters.
pub proof fn law_validating_an_id(id: &str, r: Result<(), PlanError>)
    requires
        call_ensures(validate_plan_id, (id,), r),
    ensures
        r is Ok <==> plain_id(id@),
{
}

/// The patch for a path is one of the manifest that has exactly this path;
/// there is none exactly if no patch has it.
pub proof fn law_patches_are_found_by_path(
    a: &PlanActions,
    path: &str,
    r: Option<&PlanPatchAction>,
)
    requires
        call_ensures(PlanActions::patch_by_path, (a, path), r),
    ensures
        r matches Some(p) ==> p.path@ == path@ && exists|i: int|
            0 <= i < a.patches@.len() && *p == #[trigger] a.patches@[i],
        r is None ==> forall|i: int| 0 <= i < a.patches@.len() ==> (#[trigger] a.patches@[i]).path@ != path@,
{
    let v = a@.patches;
    let f = |i: int|
        if v[i].path == path@ {
            Some(i)
        } else {
            None
        };
    assert(v.len() == a.patches@.len());
    match r {
        Some(p) => {
            let k = lemma_first_found(v.len() as int, f);
            assert(v[k] == a.patches@[k]@);
        },
        None => {
            assert forall|i: int| 0 <= i < a.patches@.len() implies (
            #[trigger] a.patches@[i]).path@ != path@ by {
                lemma_none_before(v.len() as int, f, i);
                assert(v[i] == a.patches@[i]@);
            }
        },
    }
}

/// The command for an argv is one of the manifest that has exactly these
/// words, all of them and no more; there is none exactly if no command has
/// them.
pub proof fn law_commands_are_found_by_words(
    a: &PlanActions,
    argv: &Vec<String>,
    r: Option<&PlanCommandAction>,
)
    requires
        call_ensures(PlanActions::command_by_argv, (a, argv), r),
    ensures
        r matches Some(c) ==> views(c.argv@) == views(argv@) && exists|i: int|
            0 <= i < a.commands@.len() && *c == #[trigger] a.commands@[i],
        r is None ==> forall|i: int|
            0 <= i < a.commands@.len() ==> views((#[trigger] a.commands@[i]).argv@) != views(argv@),
{
    let v = a@.commands;
    let f = |i: int|
        if v[i].argv == views(argv@) {
            Some(i)
        } else {
            None
        };
    assert(v.len() == a.commands@.len());
    match r {
        Some(c) => {
            let k = lemma_first_found(v.len() as int, f);
            assert(v[k] == a.commands@[k]@);
        },
        None => {
            assert forall|i: int| 0 <= i < a.commands@.len() implies views(
                (#[trigger] a.commands@[i]).argv@,
            ) != views(argv@) by {
                lemma_none_before(v.len() as int, f, i);
                assert(v[i] == a.commands@[i]@);
            }
        },
    }
}

/// To confirm items changes nothing of them but their boxes: those that are
/// named are checked, or the one for the whole plan where that is meant, and
/// all others are cleared.
pub proof fn law_confirming_items(
    plan: &ParsedPlan,
    all: bool,
    ids: &Vec<String>,
    r: Result<Vec<Confirmation>, PlanError>,
)
    requires
        call_ensures(apply_confirmations, (plan, all, ids), r),
    ensures
        r matches Ok(v) ==> {
            &&& v@.len() == plan@.confirmations.len()
            &&& forall|i: int|
                0 <= i < v@.len() ==> (#[trigger] v@[i]).id@ == plan@.confirmations[i].id
                    && v@[i].description@ == plan@.confirmations[i].description && v@[i].checked
                    == (if all {
                    plan@.confirmations[i].id == "all-ok"@
                } else if ids@.len() == 0 {
                    plan@.confirmations[i].checked
                } else {
                    views(ids@).contains(plan@.confirmations[i].id)
                })
        },
        all || ids@.len() == 0 ==> r is Ok,
{
    law_confirmations_check_what_is_named(plan@.confirmations, all, views(ids@));
    assert(views(ids@).len() == ids@.len());
    if let Ok(v) = r {
        assert(deep(v@).len() == v@.len());
        assert forall|i: int| 0 <= i < v@.len() implies (#[trigger] v@[i]).id@
            == plan@.confirmations[i].id && v@[i].description@
            == plan@.confirmations[i].description && v@[i].checked == (if all {
            plan@.confirmations[i].id == "all-ok"@
        } else if ids@.len() == 0 {
            plan@.confirmations[i].checked
        } else {
            views(ids@).contains(plan@.confirmations[i].id)
        }) by {
            assert(deep(v@)[i] == v@[i]@);
        }
    }
}

/// A moment is read as the day and the time of day that it stands for: so
/// many seconds behind the start of 1970.
pub proof fn law_moments_are_dates(secs: u64, r: (u32, u32, u32, u32, u32, u32))
    requires
        call_ensures(unix_to_ymdhms, (secs,), r),
    ensures
        exists|y: int| #[trigger]
            is_date(y, r.1 as int, r.2 as int) && r.0 == y % 0x1_0000_0000 && day_number(
                y,
                r.1 as int,
                r.2 as int,
            ) * 86400 + r.3 * 3600 + r.4 * 60 + r.5 == secs,
        r.3 < 24 && r.4 < 60 && r.5 < 60,
{
    let y = choose|y: int| #[trigger] names_day(r, y, secs as int / 86400);
    assert(is_date(y, r.1 as int, r.2 as int));
    assert(secs as int / 86400 * 86400 + (secs % 86400) / 3600 * 3600 + (secs % 3600) / 60 * 60
        + secs % 60 == secs);
}

/// The text of a plan file is put together from its body, its manifest and its
/// items: each item stands in it on a line of its own, with its box.
pub proof fn law_items_stand_in_the_file(
    body: &str,
    a: &PlanActions,
    items: &Vec<Confirmation>,
    r: Result<String, PlanError>,
    i: int,
)
    requires
        call_ensures(render_sealed, (body, a, items), r),
    ensures
        r is Ok <==> patches_in_order(a@) && commands_in_order(a@),
        r is Ok ==> r->Ok_0@ == with_seal(
            unsealed_plan(body@, a@, deep(items@)),
            seal_of(unsealed_plan(body@, a@, deep(items@))),
        ),
        r is Ok && 0 <= i < items@.len() ==> holds_text(
            unsealed_plan(body@, a@, deep(items@)),
            "- ["@ + (if items@[i].checked {
                "x"@
            } else {
                " "@
            }) + "] "@ + "ATTINI-CONFIRM:"@ + " "@ + items@[i].id@ + " — "@ + items@[i].description@
                + "\n"@,
        ),
        r is Ok ==> holds_text(unsealed_plan(body@, a@, deep(items@)), trimmed(body@)),
        r is Ok ==> holds_text(unsealed_plan(body@, a@, deep(items@)), actions_json(a@)),
{
    law_valid_manifests(a@);
    let text = unsealed_plan(body@, a@, deep(items@));
    lemma_head_parts(body@, a@, deep(items@));
    if 0 <= i < items@.len() {
        assert(deep(items@)[i] == items@[i]@);
        lemma_checkboxes(deep(items@), i);
        lemma_holds_inner(text, checkbox_lines(deep(items@)), checkbox_line(items@[i]@));
    }
}

proof fn lemma_checkboxes(items: Seq<ConfirmationModel>, i: int)
    requires
        0 <= i < items.len(),
    ensures
        holds_text(checkbox_lines(items), checkbox_line(items[i])),
    decreases items.len(),
{
    let none = Seq::<char>::empty();
    let before = checkbox_lines(items.drop_last());
    let last = checkbox_line(items.last());
    if i < items.len() - 1 {
        lemma_checkboxes(items.drop_last(), i);
        assert(items.drop_last()[i] == items[i]);
        assert((none + before) + last =~= checkbox_lines(items));
        lemma_holds_part(none, before, last, checkbox_line(items[i]));
    } else {
        assert((before + last) + none =~= checkbox_lines(items));
    }
}

proof fn lemma_head_parts(body: Seq<char>, a: ActionsModel, items: Seq<ConfirmationModel>)
    ensures
        holds_text(unsealed_plan(body, a, items), checkbox_lines(items)),
        holds_text(unsealed_plan(body, a, items), trimmed(body)),
        holds_text(unsealed_plan(body, a, items), actions_json(a)),
{
    let text = unsealed_plan(body, a, items);
    let none = Seq::<char>::empty();
    let t = trimmed(body);
    let j = actions_json(a);
    let c = checkbox_lines(items);
    let x = t + "\n\n"@ + ACTIONS_BEGIN@ + "\n\n## Attini approved actions\n\n```json\n"@;
    let y = x + j + "\n```\n\n"@ + ACTIONS_END@ + "\n\n"@ + CONFIRMATIONS_BEGIN@
        + "\n\n## Attini confirmations\n\n"@;
    let end = seal_line(blank_hash()) + "\n"@ + CONFIRMATIONS_END@;
    assert(text =~= (y + c) + ("\n"@ + end));
    assert(text =~= (none + t) + text.skip(t.len() as int));
    assert(text =~= (x + j) + text.skip((x + j).len() as int));
}

} // verus!
