//! What holds of permission files and of grants.
use vstd::prelude::*;

use super::{
    append_rule_line, grant, grant_read, grant_write, granted, has_empty, load, parse_jsonl,
    render_rule_line, rule_of_line, rules_in, session_permissions_path, string_item,
    workspace_permissions_path, GrantError, GrantOutcome, LoadedRules, ParsedRules,
};

use crate::json::{member, read_list, JsonDoc, NodeModel};
use crate::model::{deep, lemma_first_at, lemma_first_none};
use crate::sansio::agent::arguments::has_text;
use crate::sansio::permissions::{PermissionKind, Rule, RuleModel};
use crate::text::{find_from, lemma_find_from, lines_of, ordered, trimmed, views};

verus! {

/// The rules of lines one behind the other are those of the first lines, then
/// those of the others.
pub proof fn law_rules_stand_in_file_order(a: Seq<Seq<char>>, b: Seq<Seq<char>>)
    ensures
        rules_in(a + b) == rules_in(a) + rules_in(b),
    decreases b.len(),
{
    if b.len() == 0 {
        assert(a + b =~= a);
        assert(rules_in(a) + rules_in(b) =~= rules_in(a));
    } else {
        assert((a + b).drop_last() =~= a + b.drop_last());
        assert((a + b).last() == b.last());
        law_rules_stand_in_file_order(a, b.drop_last());
        assert(rules_in(a + b) =~= rules_in(a) + rules_in(b));
    }
}

/// A line that is blank, or begins with a number sign, holds no rule. Any
/// other holds the rule that is read out of it, or none where it cannot be
/// read.
pub proof fn law_each_line_holds_a_rule(line: Seq<char>)
    ensures
        trimmed(line).len() == 0 ==> rules_in(seq![line]) == Seq::<RuleModel>::empty(),
        trimmed(line).len() > 0 && trimmed(line)[0] == '#' ==> rules_in(seq![line]) == Seq::<
            RuleModel,
        >::empty(),
        trimmed(line).len() > 0 && trimmed(line)[0] != '#' ==> rules_in(seq![line]) == match rule_of_line(
            trimmed(line),
        ) {
            Ok(r) => seq![r],
            Err(_) => Seq::<RuleModel>::empty(),
        },
{
    assert(seq![line].drop_last() =~= Seq::empty());
    assert(seq![line].last() == line);
    assert(rules_in(seq![line].drop_last()) =~= Seq::empty());
    assert(forall|r: RuleModel| #[trigger] Seq::<RuleModel>::empty().push(r) =~= seq![r]);
}

/// A file is read line by line: the rules of its first line come first, then
/// those of what follows.
pub proof fn law_files_are_read_line_by_line(
    text: &str,
    path: &str,
    label: &str,
    r: ParsedRules,
    a: Seq<char>,
    b: Seq<char>,
)
    requires
        call_ensures(parse_jsonl, (text, path, label), r),
        text@ == a.push('\n') + b,
        !a.contains('\n'),
    ensures
        deep(r.rules@) == rules_in(seq![a.push('\n')]) + rules_in(lines_of(b)),
{
    let s = text@;
    lemma_find_from(s, '\n', 0);
    assert(s[a.len() as int] == '\n');
    let at = find_from(s, '\n', 0);
    if at < a.len() {
        assert(a[at] == '\n');
    }
    assert(at == a.len());
    assert(s.take(at + 1) =~= a.push('\n'));
    assert(s.skip(at + 1) =~= b);
    law_rules_stand_in_file_order(seq![a.push('\n')], lines_of(b));
}

/// A rule is what stands in its line: of the kind that is named there, with
/// the words or the path that stand there, none of them blank. It allows
/// where it says so; a rule for reads always allows.
pub proof fn law_rules_are_what_stands_in_their_line(doc: &JsonDoc, r: Result<Rule, String>)
    requires
        doc.wf(),
        call_ensures(Rule::from_json, (doc,), r),
        r is Ok,
    ensures
        match r->Ok_0@.kind {
            PermissionKind::Command => {
                &&& has_text(doc@, 0, "type"@, "command"@)
                &&& member(doc@, 0, "allow"@) matches Ok(Some(j)) && doc@[j].kind is Boolean
                    && doc@[j].raw == if r->Ok_0@.allow {
                    "true"@
                } else {
                    "false"@
                }
                &&& args_stand(doc@, r->Ok_0@.args_prefix)
                &&& r->Ok_0@.args_prefix.len() > 0
                &&& forall|i: int|
                    0 <= i < r->Ok_0@.args_prefix.len() ==> (
                    #[trigger] r->Ok_0@.args_prefix[i]).len() > 0
                &&& r->Ok_0@.path.len() == 0
            },
            PermissionKind::Read => {
                &&& has_text(doc@, 0, "type"@, "read"@)
                &&& has_text(doc@, 0, "path"@, r->Ok_0@.path)
                &&& trimmed(r->Ok_0@.path).len() > 0
                &&& r->Ok_0@.allow
                &&& member(doc@, 0, "allow"@) matches Ok(Some(j)) ==> doc@[j].raw == "true"@
                &&& r->Ok_0@.args_prefix.len() == 0
            },
            PermissionKind::Write => {
                &&& has_text(doc@, 0, "type"@, "write"@)
                &&& has_text(doc@, 0, "path"@, r->Ok_0@.path)
                &&& trimmed(r->Ok_0@.path).len() > 0
                &&& member(doc@, 0, "allow"@) matches Ok(Some(j)) && doc@[j].kind is Boolean
                    && doc@[j].raw == if r->Ok_0@.allow {
                    "true"@
                } else {
                    "false"@
                }
                &&& r->Ok_0@.args_prefix.len() == 0
            },
        },
{
    if let Ok(Some(j)) = member(doc@, 0, "args_prefix"@) {
        lemma_args(doc@, doc@[j].elements, |k: int| string_item(doc@, k, "args_prefix"@));
    }
}

/// Whether the words are those that stand under `args_prefix`, all of them
/// and in order.
pub open spec fn args_stand(doc: Seq<NodeModel>, args: Seq<Seq<char>>) -> bool {
    &&& member(doc, 0, "args_prefix"@) matches Ok(Some(a)) && {
        &&& doc[a].kind is Array
        &&& args.len() == doc[a].elements.len()
        &&& forall|k: int|
            0 <= k < args.len() ==> doc[#[trigger] doc[a].elements[k]].kind is String
                && doc[doc[a].elements[k]].text == args[k]
    }
}

proof fn lemma_args(
    doc: Seq<NodeModel>,
    at: Seq<int>,
    read: spec_fn(int) -> Result<Seq<char>, Seq<char>>,
)
    requires
        forall|k: int| #[trigger] read(k) == string_item(doc, k, "args_prefix"@),
    ensures
        read_list(at, read) is Ok ==> read_list(at, read)->Ok_0.len() == at.len(),
        read_list(at, read) is Ok ==> forall|k: int|
            0 <= k < at.len() ==> doc[#[trigger] at[k]].kind is String && doc[at[k]].text
                == read_list(at, read)->Ok_0[k],
    decreases at.len(),
{
    if at.len() > 0 {
        let front = at.drop_last();
        lemma_args(doc, front, read);
        if read_list(at, read) is Ok {
            let words = read_list(at, read)->Ok_0;
            let earlier = read_list(front, read)->Ok_0;
            assert(read(at.last()) == string_item(doc, at.last(), "args_prefix"@));
            assert(words == earlier.push(read(at.last())->Ok_0));
            assert forall|k: int| 0 <= k < at.len() implies doc[
            #[trigger] at[k]].kind is String && doc[at[k]].text == words[k] by {
                if k < front.len() {
                    assert(front[k] == at[k]);
                    assert(earlier[k] == words[k]);
                }
            }
        }
    }
}

/// A line of an unknown kind holds no rule, nor does a rule for reads that
/// does not allow.
pub proof fn law_other_lines_hold_no_rule(doc: &JsonDoc, r: Result<Rule, String>)
    requires
        doc.wf(),
        call_ensures(Rule::from_json, (doc,), r),
    ensures
        !has_text(doc@, 0, "type"@, "command"@) && !has_text(doc@, 0, "type"@, "read"@) && !has_text(
            doc@,
            0,
            "type"@,
            "write"@,
        ) ==> r is Err,
        has_text(doc@, 0, "type"@, "read"@) && (member(doc@, 0, "allow"@) matches Ok(Some(j))
            && doc@[j].raw == "false"@) ==> r is Err,
{
    reveal_strlit("true");
    reveal_strlit("false");
    assert("true"@.len() == 4 && "false"@.len() == 5);
    reveal_strlit("command");
    reveal_strlit("read");
    reveal_strlit("write");
    assert("command"@.len() == 7 && "read"@.len() == 4 && "write"@.len() == 5);
}

/// Both files are read. The paths that may be read besides the workspace are
/// those of all rules, of either file, that allow a read; they come in order.
pub proof fn law_loading_rules(
    w: &str,
    w_path: &str,
    s: &str,
    s_path: &str,
    r: (LoadedRules, Vec<String>),
    path: Seq<char>,
)
    requires
        call_ensures(load, (w, w_path, s, s_path), r),
    ensures
        deep(r.0.workspace@) == rules_in(lines_of(w@)),
        deep(r.0.session@) == rules_in(lines_of(s@)),
        (exists|i: int|
            0 <= i < r.0.workspace@.len() && (#[trigger] r.0.workspace@[i])@.kind is Read
                && r.0.workspace@[i]@.allow && r.0.workspace@[i]@.path == path)
            ==> views(r.0.extra_read_paths@).contains(path),
        (exists|i: int|
            0 <= i < r.0.session@.len() && (#[trigger] r.0.session@[i])@.kind is Read
                && r.0.session@[i]@.allow && r.0.session@[i]@.path == path)
            ==> views(r.0.extra_read_paths@).contains(path),
        views(r.0.extra_read_paths@).contains(path) ==> (exists|i: int|
            0 <= i < r.0.workspace@.len() && (#[trigger] r.0.workspace@[i])@.kind is Read
                && r.0.workspace@[i]@.allow && r.0.workspace@[i]@.path == path) || (exists|i: int|
            0 <= i < r.0.session@.len() && (#[trigger] r.0.session@[i])@.kind is Read
                && r.0.session@[i]@.allow && r.0.session@[i]@.path == path),
        ordered(views(r.0.extra_read_paths@)),
{
    let a = deep(r.0.workspace@);
    let b = deep(r.0.session@);
    assert(a.len() == r.0.workspace@.len() && b.len() == r.0.session@.len());
    assert(forall|i: int| 0 <= i < a.len() ==> a[i] == (#[trigger] r.0.workspace@[i])@);
    assert(forall|i: int| 0 <= i < b.len() ==> b[i] == (#[trigger] r.0.session@[i])@);
    assert(forall|i: int| 0 <= i < a.len() ==> (#[trigger] a[i]) == r.0.workspace@[i]@);
    assert(forall|i: int| 0 <= i < b.len() ==> (#[trigger] b[i]) == r.0.session@[i]@);
}

/// The words of a grant are refused where there are none or one is empty.
/// Where the file holds a rule for exactly these words, the first one settles
/// it: it was granted already, or it is denied and nothing is changed. Only
/// where there is none is a rule appended, which allows exactly these words.
pub proof fn law_granting_a_command(
    target: &str,
    existing: &Vec<Rule>,
    args: &Vec<String>,
    r: Result<GrantOutcome, GrantError>,
    k: int,
)
    requires
        call_ensures(grant, (target, existing, args), r),
    ensures
        args@.len() == 0 ==> r == Err::<GrantOutcome, GrantError>(GrantError::ArgsEmpty),
        0 <= k < args@.len() && args@[k]@.len() == 0 ==> r == Err::<GrantOutcome, GrantError>(
            GrantError::ArgsEmpty,
        ),
        args@.len() > 0 && (forall|i: int| 0 <= i < args@.len() ==> (#[trigger] args@[i])@.len() > 0)
            && 0 <= k < existing@.len() && existing@[k]@.kind is Command
            && existing@[k]@.args_prefix == views(args@) && (forall|i: int|
            0 <= i < k && (#[trigger] existing@[i])@.kind is Command ==> existing@[i]@.args_prefix
                != views(args@)) ==> if existing@[k]@.allow {
            r == Ok::<GrantOutcome, GrantError>(GrantOutcome::AlreadyGranted)
        } else {
            r is Err && r->Err_0 is ExistingDenyConflict
        },
        args@.len() > 0 && (forall|i: int| 0 <= i < args@.len() ==> (#[trigger] args@[i])@.len() > 0)
            && (forall|i: int|
            0 <= i < existing@.len() && (#[trigger] existing@[i])@.kind is Command
                ==> existing@[i]@.args_prefix != views(args@)) ==> {
            &&& r is Ok
            &&& r->Ok_0 is Appended
            &&& r->Ok_0->Appended_0@.kind is Command
            &&& r->Ok_0->Appended_0@.allow
            &&& r->Ok_0->Appended_0@.args_prefix == views(args@)
        },
{
    let rules = deep(existing@);
    let words = views(args@);
    let kind = PermissionKind::Command;
    let none = Seq::<char>::empty();
    let f = |i: int|
        if rules[i].kind == kind && (if kind is Command {
            rules[i].args_prefix == words
        } else {
            rules[i].path == none
        }) {
            Some(rules[i].allow)
        } else {
            None
        };
    assert(words.len() == args@.len());
    assert(forall|i: int| 0 <= i < words.len() ==> #[trigger] words[i] == args@[i]@);
    assert(forall|i: int| 0 <= i < rules.len() ==> #[trigger] rules[i] == existing@[i]@);
    if 0 <= k < args@.len() && args@[k]@.len() == 0 {
        assert(words[k].len() == 0);
        assert(has_empty(words));
    }
    if forall|i: int| 0 <= i < args@.len() ==> (#[trigger] args@[i])@.len() > 0 {
        assert forall|i: int| 0 <= i < words.len() implies (#[trigger] words[i]).len() > 0 by {
            assert(words[i] == args@[i]@);
        }
    }
    if 0 <= k < existing@.len() && existing@[k]@.kind is Command && existing@[k]@.args_prefix
        == words && (forall|i: int|
        0 <= i < k && (#[trigger] existing@[i])@.kind is Command ==> existing@[i]@.args_prefix
            != words) {
        assert forall|i: int| 0 <= i < k implies #[trigger] f(i) is None by {
            assert(rules[i] == existing@[i]@);
        }
        assert(rules[k] == existing@[k]@);
        lemma_first_at(rules.len() as int, f, k);
    }
    if forall|i: int|
        0 <= i < existing@.len() && (#[trigger] existing@[i])@.kind is Command
            ==> existing@[i]@.args_prefix != words {
        assert forall|i: int| 0 <= i < rules.len() implies #[trigger] f(i) is None by {
            assert(rules[i] == existing@[i]@);
        }
        lemma_first_none(rules.len() as int, f);
    }
}

/// A blank path is refused. Where the file has a rule for exactly this path,
/// reads are granted already; only where there is none is a rule appended,
/// which allows exactly this path.
pub proof fn law_granting_reads(
    existing: &Vec<Rule>,
    path: &str,
    r: Result<GrantOutcome, GrantError>,
    k: int,
)
    requires
        call_ensures(grant_read, (existing, path), r),
    ensures
        trimmed(path@).len() == 0 ==> r == Err::<GrantOutcome, GrantError>(GrantError::ArgsEmpty),
        trimmed(path@).len() > 0 && 0 <= k < existing@.len() && existing@[k]@.kind is Read
            && existing@[k]@.path == path@ ==> r == Ok::<GrantOutcome, GrantError>(
            GrantOutcome::AlreadyGranted,
        ),
        trimmed(path@).len() > 0 && (forall|i: int|
            0 <= i < existing@.len() && (#[trigger] existing@[i])@.kind is Read
                ==> existing@[i]@.path != path@) ==> {
            &&& r is Ok
            &&& r->Ok_0 is Appended
            &&& r->Ok_0->Appended_0@.kind is Read
            &&& r->Ok_0->Appended_0@.allow
            &&& r->Ok_0->Appended_0@.path == path@
        },
{
    let rules = deep(existing@);
    let kind = PermissionKind::Read;
    let none = Seq::<Seq<char>>::empty();
    let f = |i: int|
        if rules[i].kind == kind && (if kind is Command {
            rules[i].args_prefix == none
        } else {
            rules[i].path == path@
        }) {
            Some(rules[i].allow)
        } else {
            None
        };
    assert(forall|i: int| 0 <= i < rules.len() ==> #[trigger] rules[i] == existing@[i]@);
    if 0 <= k < existing@.len() && existing@[k]@.kind is Read && existing@[k]@.path == path@ {
        assert(rules[k] == existing@[k]@);
        assert(granted(rules, kind, none, path@) is Some) by {
            if granted(rules, kind, none, path@) is None {
                crate::model::lemma_none_before(rules.len() as int, f, k);
            }
        }
    }
    if forall|i: int|
        0 <= i < existing@.len() && (#[trigger] existing@[i])@.kind is Read ==> existing@[i]@.path
            != path@ {
        assert forall|i: int| 0 <= i < rules.len() implies #[trigger] f(i) is None by {
            assert(rules[i] == existing@[i]@);
        }
        lemma_first_none(rules.len() as int, f);
    }
}

/// A blank path is refused. Where the file has a rule for exactly this path,
/// the first one settles it: writes are granted already, or they are denied
/// and nothing is changed. Only where there is none is a rule appended, which
/// allows exactly this path.
pub proof fn law_granting_writes(
    target: &str,
    existing: &Vec<Rule>,
    path: &str,
    r: Result<GrantOutcome, GrantError>,
    k: int,
)
    requires
        call_ensures(grant_write, (target, existing, path), r),
    ensures
        trimmed(path@).len() == 0 ==> r == Err::<GrantOutcome, GrantError>(GrantError::ArgsEmpty),
        trimmed(path@).len() > 0 && 0 <= k < existing@.len() && existing@[k]@.kind is Write
            && existing@[k]@.path == path@ && (forall|i: int|
            0 <= i < k && (#[trigger] existing@[i])@.kind is Write ==> existing@[i]@.path != path@)
            ==> if existing@[k]@.allow {
            r == Ok::<GrantOutcome, GrantError>(GrantOutcome::AlreadyGranted)
        } else {
            r is Err && r->Err_0 is ExistingWriteDenyConflict
        },
        trimmed(path@).len() > 0 && (forall|i: int|
            0 <= i < existing@.len() && (#[trigger] existing@[i])@.kind is Write
                ==> existing@[i]@.path != path@) ==> {
            &&& r is Ok
            &&& r->Ok_0 is Appended
            &&& r->Ok_0->Appended_0@.kind is Write
            &&& r->Ok_0->Appended_0@.allow
            &&& r->Ok_0->Appended_0@.path == path@
        },
{
    let rules = deep(existing@);
    let kind = PermissionKind::Write;
    let none = Seq::<Seq<char>>::empty();
    let f = |i: int|
        if rules[i].kind == kind && (if kind is Command {
            rules[i].args_prefix == none
        } else {
            rules[i].path == path@
        }) {
            Some(rules[i].allow)
        } else {
            None
        };
    assert(forall|i: int| 0 <= i < rules.len() ==> #[trigger] rules[i] == existing@[i]@);
    if 0 <= k < existing@.len() && existing@[k]@.kind is Write && existing@[k]@.path == path@ && (
    forall|i: int|
        0 <= i < k && (#[trigger] existing@[i])@.kind is Write ==> existing@[i]@.path != path@) {
        assert forall|i: int| 0 <= i < k implies #[trigger] f(i) is None by {
            assert(rules[i] == existing@[i]@);
        }
        assert(rules[k] == existing@[k]@);
        lemma_first_at(rules.len() as int, f, k);
    }
    if forall|i: int|
        0 <= i < existing@.len() && (#[trigger] existing@[i])@.kind is Write ==> existing@[i]@.path
            != path@ {
        assert forall|i: int| 0 <= i < rules.len() implies #[trigger] f(i) is None by {
            assert(rules[i] == existing@[i]@);
        }
        lemma_first_none(rules.len() as int, f);
    }
}

/// A rule goes behind what the file holds, on a line of its own; what the
/// file holds stays as it is.
pub proof fn law_rules_are_appended(body: String, rule: &Rule, line: String, r: String)
    requires
        call_ensures(append_rule_line, (body, rule), r),
        call_ensures(render_rule_line, (rule,), line),
    ensures
        body@.len() == 0 || body@.last() == '\n' ==> r@ == body@ + line@ + "\n"@,
        body@.len() > 0 && body@.last() != '\n' ==> r@ == body@ + "\n"@ + line@ + "\n"@,
{
    reveal_strlit("\n");
    assert(body@ + "\n"@ =~= body@.push('\n'));
}

/// The files stand where the workspace and the session have theirs.
pub proof fn law_files_have_their_places(dir: &str, w: String, s: String)
    requires
        call_ensures(workspace_permissions_path, (), w),
        call_ensures(session_permissions_path, (dir,), s),
    ensures
        w@ == ".attini/permissions.jsonl"@,
        s@ == dir@ + "/"@ + "permissions.jsonl"@,
{
}

/// A rule holds what it is made of, and is of the kind that it is made as.
pub proof fn law_rules_hold_what_they_are_made_of(
    allow: bool,
    args: Vec<String>,
    path: String,
    command: Rule,
    read: Rule,
    write: Rule,
)
    requires
        call_ensures(Rule::command, (allow, args), command),
        call_ensures(Rule::read, (allow, path), read),
        call_ensures(Rule::write, (allow, path), write),
    ensures
        command@.kind is Command && command@.allow == allow && command@.args_prefix == views(args@),
        read@.kind is Read && read@.allow == allow && read@.path == path@,
        write@.kind is Write && write@.allow == allow && write@.path == path@,
{
}

} // verus!
