//! Permission files: one JSON object per line, one rule per line.
//!
//! Lines that begin with `#` are comments, and blank lines are ignored. The
//! file that a rule stands in says which layer it belongs to.
use vstd::prelude::*;
use vstd::string::*;

pub mod grants;

use crate::json::value::{
    faithful, first_of_name, holds, json_text, lemma_flat, lemma_has_member, lemma_one_member,
    lemma_one_more_member, lemma_quoted_is_one_line, lemma_quoted_plain, lemma_reads_back,
    lemma_text_list, lemma_text_list_reads_back, shallow, text_list, JsonValue, MAX_DEPTH,
};
use crate::json::{
    elements, indices, lemma_read_list_step, parsed, quote, quoted, read_list, required, string,
    string_array_text, write_string_array, wrong_kind_text, JsonDoc, JsonKind, NodeModel,
};
use crate::model::{deep, first_some, lemma_first_at, lemma_first_none};
use crate::sansio::deepseek::clone_texts;
use crate::sansio::permissions::{
    command_rule, judged, law_last_match_wins, lies_under, path_rule, PermissionKind, Rule,
    RuleModel, RuleScope, Target,
};
use crate::text::{
    debug_list_of, debug_list_text, debug_of, debug_text, decimal, decimal_of, insert_ordered,
    lines_of, ordered, same, same_list, split_lines, trim, trimmed, views,
};

verus! {

broadcast use crate::model::group_deep;

/// The name of a permission file.
pub const PERMISSIONS_FILENAME: &'static str = "permissions.jsonl";

/// The rules of an invocation.
pub struct LoadedRules {
    /// Rules of the workspace, in file order.
    pub workspace: Vec<Rule>,
    /// Rules of the session, in file order.
    pub session: Vec<Rule>,
    /// The paths of all rules that allow a read, in order and each once.
    pub extra_read_paths: Vec<String>,
}

/// The permission file of the workspace.
pub fn workspace_permissions_path() -> (r: String)
    ensures
        r@ == ".attini/permissions.jsonl"@,
{
    ".attini/permissions.jsonl".to_owned()
}

/// The permission file of a session that has its files in `dir`.
pub fn session_permissions_path(dir: &str) -> (r: String)
    ensures
        r@ == dir@ + "/"@ + PERMISSIONS_FILENAME@,
{
    let mut out = dir.to_owned();
    out.append("/");
    out.append(PERMISSIONS_FILENAME);
    out
}

/// Whether one of the rules allows a path to be read.
pub open spec fn allows_read(rules: Seq<RuleModel>, path: Seq<char>) -> bool {
    exists|i: int|
        0 <= i < rules.len() && (#[trigger] rules[i]).kind is Read && rules[i].allow
            && rules[i].path == path
}

fn add_read_paths(paths: &mut Vec<String>, rules: &Vec<Rule>)
    requires
        ordered(views(old(paths)@)),
    ensures
        ordered(views(final(paths)@)),
        forall|p: Seq<char>|
            #[trigger] views(final(paths)@).contains(p) <==> views(old(paths)@).contains(p)
                || allows_read(deep(rules@), p),
{
    let ghost before = views(paths@);
    let ghost all = deep(rules@);
    let mut i: usize = 0;
    while i < rules.len()
        invariant
            i <= rules@.len(),
            all == deep(rules@),
            ordered(views(paths@)),
            forall|p: Seq<char>|
                #[trigger] views(paths@).contains(p) <==> before.contains(p) || allows_read(
                    all.take(i as int),
                    p,
                ),
        decreases rules@.len() - i,
    {
        let ghost now = views(paths@);
        assert(all[i as int] == rules@[i as int]@);
        let hit = rules[i].kind == PermissionKind::Read && rules[i].allow;
        if hit {
            insert_ordered(paths, rules[i].path.as_str());
        }
        proof {
            assert forall|p: Seq<char>| allows_read(all.take(i + 1), p) <==> (allows_read(
                all.take(i as int),
                p,
            ) || (hit && p == rules@[i as int].path@)) by {
                if allows_read(all.take(i + 1), p) {
                    let k = choose|k: int|
                        0 <= k < all.take(i + 1).len() && (
                        #[trigger] all.take(i + 1)[k]).kind is Read && all.take(i + 1)[k].allow
                            && all.take(i + 1)[k].path == p;
                    if k < i {
                        assert(all.take(i as int)[k].path == p);
                    }
                }
                if allows_read(all.take(i as int), p) {
                    let k = choose|k: int|
                        0 <= k < all.take(i as int).len() && (
                        #[trigger] all.take(i as int)[k]).kind is Read && all.take(i as int)[k].allow
                            && all.take(i as int)[k].path == p;
                    assert(all.take(i + 1)[k].path == p);
                }
                if hit && p == rules@[i as int].path@ {
                    assert(all.take(i + 1)[i as int].path == p);
                }
            }
        }
        i = i + 1;
    }
    assert(all.take(all.len() as int) =~= all);
}

/// What a key and a message say together.
pub open spec fn keyed(key: Seq<char>, message: Seq<char>) -> Seq<char> {
    key + ": "@ + message
}

/// A string member that a rule must have.
pub open spec fn string_field(doc: Seq<NodeModel>, key: Seq<char>) -> Result<Seq<char>, Seq<char>> {
    match required(doc, 0, key) {
        Err(e) => Err(keyed(key, e)),
        Ok(j) => match string(doc, j) {
            Err(e) => Err(keyed(key, e)),
            Ok(s) => Ok(s),
        },
    }
}

/// The truth value at that place.
pub open spec fn bool_at(doc: Seq<NodeModel>, j: int, key: Seq<char>) -> Result<bool, Seq<char>> {
    if !(doc[j].kind is Boolean) {
        Err(keyed(key, wrong_kind_text(doc[j], JsonKind::Boolean)))
    } else if doc[j].raw == "true"@ {
        Ok(true)
    } else if doc[j].raw == "false"@ {
        Ok(false)
    } else {
        Err(key + ": expected a boolean (got "@ + doc[j].raw + ")"@)
    }
}

/// A truth value that a rule must have.
pub open spec fn bool_field(doc: Seq<NodeModel>, key: Seq<char>) -> Result<bool, Seq<char>> {
    match required(doc, 0, key) {
        Err(e) => Err(keyed(key, e)),
        Ok(j) => bool_at(doc, j, key),
    }
}

/// A truth value that a rule may have.
pub open spec fn optional_bool_field(doc: Seq<NodeModel>, key: Seq<char>) -> Result<
    Option<bool>,
    Seq<char>,
> {
    match required(doc, 0, key) {
        Err(_) => Ok(None),
        Ok(j) => match bool_at(doc, j, key) {
            Err(e) => Err(e),
            Ok(b) => Ok(Some(b)),
        },
    }
}

/// One string of an array member.
pub open spec fn string_item(doc: Seq<NodeModel>, i: int, key: Seq<char>) -> Result<
    Seq<char>,
    Seq<char>,
> {
    match string(doc, i) {
        Err(e) => Err(keyed(key, e)),
        Ok(s) => Ok(s),
    }
}

/// An array of strings that a rule must have.
pub open spec fn strings_field(doc: Seq<NodeModel>, key: Seq<char>) -> Result<
    Seq<Seq<char>>,
    Seq<char>,
> {
    match required(doc, 0, key) {
        Err(e) => Err(keyed(key, e)),
        Ok(j) => match elements(doc, j) {
            Err(e) => Err(keyed(key, e)),
            Ok(at) => read_list(at, |k: int| string_item(doc, k, key)),
        },
    }
}

/// Whether one of the texts is empty.
pub open spec fn has_empty(v: Seq<Seq<char>>) -> bool {
    exists|i: int| 0 <= i < v.len() && (#[trigger] v[i]).len() == 0
}

/// The command rule that a document holds.
pub open spec fn command_rule_of(doc: Seq<NodeModel>) -> Result<RuleModel, Seq<char>> {
    match bool_field(doc, "allow"@) {
        Err(e) => Err(e),
        Ok(allow) => match strings_field(doc, "args_prefix"@) {
            Err(e) => Err(e),
            Ok(args) => if args.len() == 0 {
                Err("args_prefix is empty"@)
            } else if has_empty(args) {
                Err("args_prefix contains an empty element"@)
            } else {
                Ok(command_rule(allow, args))
            },
        },
    }
}

/// The read rule that a document holds. It can only allow.
pub open spec fn read_rule_of(doc: Seq<NodeModel>) -> Result<RuleModel, Seq<char>> {
    match string_field(doc, "path"@) {
        Err(e) => Err(e),
        Ok(path) => if trimmed(path).len() == 0 {
            Err("path is empty"@)
        } else {
            match optional_bool_field(doc, "allow"@) {
                Err(e) => Err(e),
                Ok(allow) => if allow == Some(false) {
                    Err("read rules are allow-only; `allow:false` is not supported"@)
                } else {
                    Ok(path_rule(PermissionKind::Read, true, path))
                },
            }
        },
    }
}

/// The write rule that a document holds.
pub open spec fn write_rule_of(doc: Seq<NodeModel>) -> Result<RuleModel, Seq<char>> {
    match bool_field(doc, "allow"@) {
        Err(e) => Err(e),
        Ok(allow) => match string_field(doc, "path"@) {
            Err(e) => Err(e),
            Ok(path) => if trimmed(path).len() == 0 {
                Err("path is empty"@)
            } else {
                Ok(path_rule(PermissionKind::Write, allow, path))
            },
        },
    }
}

/// The rule that a document holds.
pub open spec fn rule_of(doc: Seq<NodeModel>) -> Result<RuleModel, Seq<char>> {
    match string_field(doc, "type"@) {
        Err(e) => Err(e),
        Ok(kind) => if kind == "command"@ {
            command_rule_of(doc)
        } else if kind == "read"@ {
            read_rule_of(doc)
        } else if kind == "write"@ {
            write_rule_of(doc)
        } else {
            Err(
                "unknown type "@ + debug_text(kind)
                    + " (expected \"command\", \"read\" or \"write\")"@,
            )
        },
    }
}

/// The rule that a line holds.
pub open spec fn rule_of_line(line: Seq<char>) -> Result<RuleModel, Seq<char>> {
    match parsed(line) {
        Err(e) => Err(e),
        Ok(doc) => rule_of(doc),
    }
}

/// Whether a line is to be read as a rule: not blank, and no comment.
pub open spec fn holds_rule(line: Seq<char>) -> bool {
    trimmed(line).len() > 0 && trimmed(line)[0] != '#'
}

/// The rules that lines hold, in order. Lines that cannot be read are left
/// out.
pub open spec fn rules_in(lines: Seq<Seq<char>>) -> Seq<RuleModel>
    decreases lines.len(),
{
    if lines.len() == 0 {
        Seq::empty()
    } else if holds_rule(lines.last()) {
        match rule_of_line(trimmed(lines.last())) {
            Ok(r) => rules_in(lines.drop_last()).push(r),
            Err(_) => rules_in(lines.drop_last()),
        }
    } else {
        rules_in(lines.drop_last())
    }
}

/// What is said of the lines that cannot be read, in order.
pub open spec fn warnings_in(
    lines: Seq<Seq<char>>,
    path: Seq<char>,
    scope_label: Seq<char>,
) -> Seq<Seq<char>>
    decreases lines.len(),
{
    if lines.len() == 0 {
        Seq::empty()
    } else if holds_rule(lines.last()) {
        match rule_of_line(trimmed(lines.last())) {
            Ok(r) => warnings_in(lines.drop_last(), path, scope_label),
            Err(reason) => warnings_in(lines.drop_last(), path, scope_label).push(
                warning_text(path, scope_label, lines.len(), reason),
            ),
        }
    } else {
        warnings_in(lines.drop_last(), path, scope_label)
    }
}

/// What is said of a line that cannot be read.
pub open spec fn warning_text(
    path: Seq<char>,
    scope_label: Seq<char>,
    line: nat,
    reason: Seq<char>,
) -> Seq<char> {
    "attini: "@ + scope_label + " permissions "@ + path + " line "@ + decimal(line)
        + ": skipping ("@ + reason + ")"@
}

fn with_key(key: &str, message: &str) -> (r: String)
    ensures
        r@ == keyed(key@, message@),
{
    let mut out = key.to_owned();
    out.append(": ");
    out.append(message);
    out
}

fn required_string(doc: &JsonDoc, key: &str) -> (r: Result<String, String>)
    requires
        doc.wf(),
    ensures
        match r {
            Ok(s) => string_field(doc@, key@) == Ok::<Seq<char>, Seq<char>>(s@),
            Err(e) => string_field(doc@, key@) == Err::<Seq<char>, Seq<char>>(e@),
        },
{
    match doc.required(0, key) {
        Err(e) => Err(with_key(key, e.message.as_str())),
        Ok(j) => match doc.string(j) {
            Err(e) => Err(with_key(key, e.message.as_str())),
            Ok(s) => Ok(s),
        },
    }
}

fn read_bool(doc: &JsonDoc, j: usize, key: &str) -> (r: Result<bool, String>)
    requires
        j < doc@.len(),
    ensures
        match r {
            Ok(b) => bool_at(doc@, j as int, key@) == Ok::<bool, Seq<char>>(b),
            Err(e) => bool_at(doc@, j as int, key@) == Err::<bool, Seq<char>>(e@),
        },
{
    match doc.boolean(j) {
        Err(e) => Err(with_key(key, e.message.as_str())),
        Ok(true) => Ok(true),
        Ok(false) => {
            let raw = doc.nodes[j].raw.as_str();
            if same(raw, "false") {
                return Ok(false);
            }
            let mut out = key.to_owned();
            out.append(": expected a boolean (got ");
            out.append(raw);
            out.append(")");
            Err(out)
        },
    }
}

fn required_bool(doc: &JsonDoc, key: &str) -> (r: Result<bool, String>)
    requires
        doc.wf(),
    ensures
        match r {
            Ok(b) => bool_field(doc@, key@) == Ok::<bool, Seq<char>>(b),
            Err(e) => bool_field(doc@, key@) == Err::<bool, Seq<char>>(e@),
        },
{
    match doc.required(0, key) {
        Err(e) => Err(with_key(key, e.message.as_str())),
        Ok(j) => read_bool(doc, j, key),
    }
}

fn optional_bool(doc: &JsonDoc, key: &str) -> (r: Result<Option<bool>, String>)
    requires
        doc.wf(),
    ensures
        match r {
            Ok(b) => optional_bool_field(doc@, key@) == Ok::<Option<bool>, Seq<char>>(b),
            Err(e) => optional_bool_field(doc@, key@) == Err::<Option<bool>, Seq<char>>(e@),
        },
{
    match doc.required(0, key) {
        Err(_) => Ok(None),
        Ok(j) => match read_bool(doc, j, key) {
            Ok(b) => Ok(Some(b)),
            Err(e) => Err(e),
        },
    }
}

fn required_string_array(doc: &JsonDoc, key: &str) -> (r: Result<Vec<String>, String>)
    requires
        doc.wf(),
    ensures
        match r {
            Ok(v) => strings_field(doc@, key@) == Ok::<Seq<Seq<char>>, Seq<char>>(views(v@)),
            Err(e) => strings_field(doc@, key@) == Err::<Seq<Seq<char>>, Seq<char>>(e@),
        },
{
    let j: usize = match doc.required(0, key) {
        Err(e) => return Err(with_key(key, e.message.as_str())),
        Ok(j) => j,
    };
    let at = match doc.elements(j) {
        Err(e) => return Err(with_key(key, e.message.as_str())),
        Ok(at) => at,
    };
    let ghost all = indices(at@);
    let ghost read = |k: int| string_item(doc@, k, key@);
    let mut out: Vec<String> = Vec::new();
    let mut k: usize = 0;
    assert(all.take(0) =~= Seq::empty());
    assert(views(out@) =~= Seq::empty());
    while k < at.len()
        invariant
            k <= at@.len(),
            doc.wf(),
            all == indices(at@),
            forall|j: int| 0 <= j < at@.len() ==> #[trigger] at@[j] < doc@.len(),
            read == (|k: int| string_item(doc@, k, key@)),
            strings_field(doc@, key@) == read_list(all, read),
            read_list(all.take(k as int), read) == Ok::<Seq<Seq<char>>, Seq<char>>(views(out@)),
        decreases at@.len() - k,
    {
        proof {
            lemma_read_list_step(all, read, k as int);
        }
        let ghost before = views(out@);
        match doc.string(at[k]) {
            Ok(s) => {
                out.push(s);
                assert(views(out@) =~= before.push(s@));
            },
            Err(e) => return Err(with_key(key, e.message.as_str())),
        }
        k = k + 1;
    }
    assert(all.take(all.len() as int) =~= all);
    Ok(out)
}

fn any_empty(v: &Vec<String>) -> (r: bool)
    ensures
        r == has_empty(views(v@)),
{
    let mut i: usize = 0;
    while i < v.len()
        invariant
            i <= v@.len(),
            forall|k: int| 0 <= k < i ==> (#[trigger] views(v@)[k]).len() > 0,
        decreases v@.len() - i,
    {
        assert(views(v@)[i as int] == v@[i as int]@);
        if v[i].as_str().is_empty() {
            return true;
        }
        i = i + 1;
    }
    false
}

impl Rule {
    /// Reads the rule that a document holds.
    pub fn from_json(doc: &JsonDoc) -> (r: Result<Rule, String>)
        requires
            doc.wf(),
        ensures
            match r {
                Ok(rule) => rule_of(doc@) == Ok::<RuleModel, Seq<char>>(rule@),
                Err(e) => rule_of(doc@) == Err::<RuleModel, Seq<char>>(e@),
            },
    {
        let kind = required_string(doc, "type")?;
        if same(kind.as_str(), "command") {
            let allow = required_bool(doc, "allow")?;
            let args_prefix = required_string_array(doc, "args_prefix")?;
            if args_prefix.len() == 0 {
                return Err("args_prefix is empty".to_owned());
            }
            if any_empty(&args_prefix) {
                return Err("args_prefix contains an empty element".to_owned());
            }
            Ok(Rule::command(allow, args_prefix))
        } else if same(kind.as_str(), "read") {
            let path = required_string(doc, "path")?;
            if trim(path.as_str()).as_str().is_empty() {
                return Err("path is empty".to_owned());
            }
            match optional_bool(doc, "allow")? {
                Some(false) => Err(
                    "read rules are allow-only; `allow:false` is not supported".to_owned(),
                ),
                _ => Ok(Rule::read(true, path)),
            }
        } else if same(kind.as_str(), "write") {
            let allow = required_bool(doc, "allow")?;
            let path = required_string(doc, "path")?;
            if trim(path.as_str()).as_str().is_empty() {
                return Err("path is empty".to_owned());
            }
            Ok(Rule::write(allow, path))
        } else {
            let mut out = "unknown type ".to_owned();
            out.append(debug_of(kind.as_str()).as_str());
            out.append(" (expected \"command\", \"read\" or \"write\")");
            Err(out)
        }
    }
}

/// Reads the rule that a line holds.
pub fn parse_rule_line(line: &str) -> (r: Result<Rule, String>)
    ensures
        match r {
            Ok(rule) => rule_of_line(line@) == Ok::<RuleModel, Seq<char>>(rule@),
            Err(e) => rule_of_line(line@) == Err::<RuleModel, Seq<char>>(e@),
        },
        forall|rule: RuleModel|
            storable(rule) && line@ == #[trigger] rule_json(rule) ==> r is Ok && r->Ok_0@ == rule,
{
    let parsed = JsonDoc::parse(line);
    proof {
        assert forall|rule: RuleModel|
            storable(rule) && line@ == #[trigger] rule_json(rule) implies rule_of_line(line@)
            == Ok::<RuleModel, Seq<char>>(rule) by {
            law_rules_read_back(rule);
        }
    }
    match parsed {
        Err(e) => Err(e.message),
        Ok(doc) => Rule::from_json(&doc),
    }
}

/// The rules of a file, and what is to be said of the lines that were left
/// out.
pub struct ParsedRules {
    pub rules: Vec<Rule>,
    pub warnings: Vec<String>,
}

/// Reads the text of a permission file. A line that cannot be read is left
/// out, with a warning.
pub fn parse_jsonl(text: &str, path: &str, scope_label: &str) -> (r: ParsedRules)
    ensures
        deep(r.rules@) == rules_in(lines_of(text@)),
        views(r.warnings@) == warnings_in(lines_of(text@), path@, scope_label@),
{
    let lines = split_lines(text);
    let ghost all = views(lines@);
    let mut rules: Vec<Rule> = Vec::new();
    let mut warnings: Vec<String> = Vec::new();
    let mut i: usize = 0;
    assert(all.take(0) =~= Seq::empty());
    assert(views(warnings@) =~= Seq::empty());
    while i < lines.len()
        invariant
            i <= lines@.len(),
            all == views(lines@),
            deep(rules@) == rules_in(all.take(i as int)),
            views(warnings@) == warnings_in(all.take(i as int), path@, scope_label@),
        decreases lines@.len() - i,
    {
        proof {
            assert(all.take(i + 1).drop_last() =~= all.take(i as int));
            assert(all.take(i + 1).last() == lines@[i as int]@);
        }
        let t = trim(lines[i].as_str());
        if !t.as_str().is_empty() && t.as_str().get_char(0) != '#' {
            match parse_rule_line(t.as_str()) {
                Ok(rule) => {
                    rules.push(rule);
                },
                Err(reason) => {
                    let mut w = "attini: ".to_owned();
                    w.append(scope_label);
                    w.append(" permissions ");
                    w.append(path);
                    w.append(" line ");
                    w.append(decimal_of(i as u64 + 1).as_str());
                    w.append(": skipping (");
                    w.append(reason.as_str());
                    w.append(")");
                    let ghost before = views(warnings@);
                    warnings.push(w);
                    assert(views(warnings@) =~= before.push(w@));
                },
            }
        }
        i = i + 1;
    }
    assert(all.take(all.len() as int) =~= all);
    ParsedRules { rules, warnings }
}

/// Appends what is said of one file to what is said of another.
fn append_texts(out: &mut Vec<String>, more: &Vec<String>)
    ensures
        views(final(out)@) == views(old(out)@) + views(more@),
{
    let ghost before = views(out@);
    let ghost all = views(more@);
    let mut i: usize = 0;
    assert(before + all.take(0) =~= before);
    while i < more.len()
        invariant
            i <= more@.len(),
            all == views(more@),
            views(out@) == before + all.take(i as int),
        decreases more@.len() - i,
    {
        let ghost now = views(out@);
        out.push(more[i].clone());
        assert(views(out@) =~= now.push(all[i as int]));
        assert(before + all.take(i + 1) =~= now.push(all[i as int]));
        i = i + 1;
    }
    assert(all.take(all.len() as int) =~= all);
}

/// The rules of both files, with what is to be said of the lines that were
/// left out. A file that is not there has an empty text.
pub fn load(
    workspace_text: &str,
    workspace_path: &str,
    session_text: &str,
    session_path: &str,
) -> (r: (LoadedRules, Vec<String>))
    ensures
        deep(r.0.workspace@) == rules_in(lines_of(workspace_text@)),
        deep(r.0.session@) == rules_in(lines_of(session_text@)),
        ordered(views(r.0.extra_read_paths@)),
        forall|p: Seq<char>| #[trigger]
            views(r.0.extra_read_paths@).contains(p) <==> allows_read(
                rules_in(lines_of(workspace_text@)),
                p,
            ) || allows_read(rules_in(lines_of(session_text@)), p),
        views(r.1@) == warnings_in(lines_of(workspace_text@), workspace_path@, "workspace"@)
            + warnings_in(lines_of(session_text@), session_path@, "session"@),
{
    let workspace = parse_jsonl(workspace_text, workspace_path, "workspace");
    let session = parse_jsonl(session_text, session_path, "session");
    let mut paths: Vec<String> = Vec::new();
    add_read_paths(&mut paths, &workspace.rules);
    add_read_paths(&mut paths, &session.rules);
    let mut warnings = workspace.warnings;
    append_texts(&mut warnings, &session.warnings);
    (
        LoadedRules {
            workspace: workspace.rules,
            session: session.rules,
            extra_read_paths: paths,
        },
        warnings,
    )
}

/// The line that holds a rule. A rule for reads does not say that it allows.
pub open spec fn rule_json(r: RuleModel) -> Seq<char> {
    match r.kind {
        PermissionKind::Command => "{\"type\":\"command\",\"allow\":"@ + (if r.allow {
            "true"@
        } else {
            "false"@
        }) + ",\"args_prefix\":"@ + string_array_text(r.args_prefix) + "}"@,
        PermissionKind::Read => "{\"type\":\"read\",\"path\":"@ + quoted(r.path) + "}"@,
        PermissionKind::Write => "{\"type\":\"write\",\"allow\":"@ + (if r.allow {
            "true"@
        } else {
            "false"@
        }) + ",\"path\":"@ + quoted(r.path) + "}"@,
    }
}

/// Writes the line that holds a rule.
pub fn render_rule_line(rule: &Rule) -> (r: String)
    ensures
        r@ == rule_json(rule@),
{
    let allow = if rule.allow {
        "true"
    } else {
        "false"
    };
    match rule.kind {
        PermissionKind::Command => {
            let mut out = "{\"type\":\"command\",\"allow\":".to_owned();
            out.append(allow);
            out.append(",\"args_prefix\":");
            out.append(write_string_array(&rule.args_prefix).as_str());
            out.append("}");
            out
        },
        PermissionKind::Read => {
            let mut out = "{\"type\":\"read\",\"path\":".to_owned();
            out.append(quote(rule.path.as_str()).as_str());
            out.append("}");
            out
        },
        PermissionKind::Write => {
            let mut out = "{\"type\":\"write\",\"allow\":".to_owned();
            out.append(allow);
            out.append(",\"path\":");
            out.append(quote(rule.path.as_str()).as_str());
            out.append("}");
            out
        },
    }
}

/// What a grant leads to.
#[derive(Debug, PartialEq, Eq)]
pub enum GrantOutcome {
    /// The rule is to be appended to the file.
    Appended(Rule),
    /// The file grants it already.
    AlreadyGranted,
}

/// Why a grant is refused.
#[derive(Debug, PartialEq, Eq)]
pub enum GrantError {
    ArgsEmpty,
    SessionMissing(String),
    ReadError(String, String),
    ExistingDenyConflict(String, Vec<String>),
    ExistingWriteDenyConflict(String, String),
    Io(String),
}

/// What an error says in words.
pub open spec fn grant_error_text(e: GrantError) -> Seq<char> {
    match e {
        GrantError::ArgsEmpty => "args_prefix is empty or contains an empty element"@,
        GrantError::SessionMissing(p) => "session directory not found: "@ + p@,
        GrantError::ReadError(p, e) => "cannot read "@ + p@ + ": "@ + e@,
        GrantError::ExistingDenyConflict(p, args) => "command rule for args_prefix "@
            + debug_list_text(views(args@)) + " already exists as `allow:false` in "@ + p@
            + "; edit manually to resolve"@,
        GrantError::ExistingWriteDenyConflict(p, path) => "write rule for path "@ + debug_text(
            path@,
        ) + " already exists as `allow:false` in "@ + p@ + "; edit manually to resolve"@,
        GrantError::Io(e) => e@,
    }
}

impl GrantError {
    /// What the error says in words.
    pub fn to_string(&self) -> (r: String)
        ensures
            r@ == grant_error_text(*self),
    {
        match self {
            GrantError::ArgsEmpty =>
                "args_prefix is empty or contains an empty element".to_owned(),
            GrantError::SessionMissing(p) => {
                let mut out = "session directory not found: ".to_owned();
                out.append(p.as_str());
                out
            },
            GrantError::ReadError(p, e) => {
                let mut out = "cannot read ".to_owned();
                out.append(p.as_str());
                out.append(": ");
                out.append(e.as_str());
                out
            },
            GrantError::ExistingDenyConflict(p, args) => {
                let mut out = "command rule for args_prefix ".to_owned();
                out.append(debug_list_of(args).as_str());
                out.append(" already exists as `allow:false` in ");
                out.append(p.as_str());
                out.append("; edit manually to resolve");
                out
            },
            GrantError::ExistingWriteDenyConflict(p, path) => {
                let mut out = "write rule for path ".to_owned();
                out.append(debug_of(path.as_str()).as_str());
                out.append(" already exists as `allow:false` in ");
                out.append(p.as_str());
                out.append("; edit manually to resolve");
                out
            },
            GrantError::Io(e) => e.clone(),
        }
    }
}

/// The file that a grant goes to.
pub enum GrantScope<'a> {
    Session(&'a str),
    Workspace,
}

/// The first rule of that kind with that prefix and path: whether it allows.
pub open spec fn granted(
    rules: Seq<RuleModel>,
    kind: PermissionKind,
    args: Seq<Seq<char>>,
    path: Seq<char>,
) -> Option<bool> {
    first_some(
        rules.len() as int,
        |i: int|
            if rules[i].kind == kind && (if kind is Command {
                rules[i].args_prefix == args
            } else {
                rules[i].path == path
            }) {
                Some(rules[i].allow)
            } else {
                None
            },
    )
}

fn find_granted(rules: &Vec<Rule>, kind: PermissionKind, args: &Vec<String>, path: &str) -> (r:
    Option<bool>)
    ensures
        r == granted(deep(rules@), kind, views(args@), path@),
{
    let ghost all = deep(rules@);
    let ghost f = |i: int|
        if all[i].kind == kind && (if kind is Command {
            all[i].args_prefix == views(args@)
        } else {
            all[i].path == path@
        }) {
            Some(all[i].allow)
        } else {
            None
        };
    let mut i: usize = 0;
    while i < rules.len()
        invariant
            i <= rules@.len(),
            all == deep(rules@),
            f == (|i: int|
                if all[i].kind == kind && (if kind is Command {
                    all[i].args_prefix == views(args@)
                } else {
                    all[i].path == path@
                }) {
                    Some(all[i].allow)
                } else {
                    None
                }),
            forall|j: int| 0 <= j < i ==> #[trigger] f(j) is None,
        decreases rules@.len() - i,
    {
        assert(all[i as int] == rules@[i as int]@);
        let hit = rules[i].kind == kind && (if kind == PermissionKind::Command {
            same_list(&rules[i].args_prefix, args)
        } else {
            same(rules[i].path.as_str(), path)
        });
        if hit {
            proof {
                lemma_first_at(all.len() as int, f, i as int);
            }
            return Some(rules[i].allow);
        }
        i = i + 1;
    }
    proof {
        lemma_first_none(all.len() as int, f);
    }
    None
}

/// Checks the words of a grant: there is one, and none is empty.
pub open spec fn args_ok(args: Seq<Seq<char>>) -> bool {
    args.len() > 0 && !has_empty(args)
}

/// Decides a grant for commands, given the rules that the file `target` holds
/// already. The first rule with the same prefix settles it.
pub fn grant(target: &str, existing: &Vec<Rule>, args_prefix: &Vec<String>) -> (r: Result<
    GrantOutcome,
    GrantError,
>)
    ensures
        ({
            let args = views(args_prefix@);
            let found = granted(deep(existing@), PermissionKind::Command, args, Seq::empty());
            match r {
                Ok(GrantOutcome::Appended(rule)) => args_ok(args) && found is None && rule@
                    == command_rule(true, args),
                Ok(GrantOutcome::AlreadyGranted) => args_ok(args) && found == Some(true),
                Err(GrantError::ArgsEmpty) => !args_ok(args),
                Err(GrantError::ExistingDenyConflict(p, a)) => args_ok(args) && found == Some(false)
                    && p@ == target@ && views(a@) == args,
                Err(_) => false,
            }
        }),
{
    if args_prefix.len() == 0 || any_empty(args_prefix) {
        return Err(GrantError::ArgsEmpty);
    }
    proof {
        reveal_strlit("");
        assert(""@ =~= Seq::empty());
    }
    match find_granted(existing, PermissionKind::Command, args_prefix, "") {
        Some(true) => Ok(GrantOutcome::AlreadyGranted),
        Some(false) => Err(
            GrantError::ExistingDenyConflict(target.to_owned(), clone_texts(args_prefix)),
        ),
        None => Ok(GrantOutcome::Appended(Rule::command(true, clone_texts(args_prefix)))),
    }
}

/// Decides a grant for reads, given the rules that the file holds already.
pub fn grant_read(existing: &Vec<Rule>, path: &str) -> (r: Result<GrantOutcome, GrantError>)
    ensures
        ({
            let found = granted(deep(existing@), PermissionKind::Read, Seq::empty(), path@);
            match r {
                Ok(GrantOutcome::Appended(rule)) => trimmed(path@).len() > 0 && found is None
                    && rule@ == path_rule(PermissionKind::Read, true, path@),
                Ok(GrantOutcome::AlreadyGranted) => trimmed(path@).len() > 0 && found is Some,
                Err(e) => e == GrantError::ArgsEmpty && trimmed(path@).len() == 0,
            }
        }),
{
    if trim(path).as_str().is_empty() {
        return Err(GrantError::ArgsEmpty);
    }
    let none: Vec<String> = Vec::new();
    assert(views(none@) =~= Seq::empty());
    match find_granted(existing, PermissionKind::Read, &none, path) {
        Some(_) => Ok(GrantOutcome::AlreadyGranted),
        None => Ok(GrantOutcome::Appended(Rule::read(true, path.to_owned()))),
    }
}

/// Decides a grant for writes, given the rules that the file `target` holds
/// already. The first rule with the same path settles it.
pub fn grant_write(target: &str, existing: &Vec<Rule>, path: &str) -> (r: Result<
    GrantOutcome,
    GrantError,
>)
    ensures
        ({
            let found = granted(deep(existing@), PermissionKind::Write, Seq::empty(), path@);
            match r {
                Ok(GrantOutcome::Appended(rule)) => trimmed(path@).len() > 0 && found is None
                    && rule@ == path_rule(PermissionKind::Write, true, path@),
                Ok(GrantOutcome::AlreadyGranted) => trimmed(path@).len() > 0 && found == Some(true),
                Err(GrantError::ArgsEmpty) => trimmed(path@).len() == 0,
                Err(GrantError::ExistingWriteDenyConflict(p, q)) => trimmed(path@).len() > 0
                    && found == Some(false) && p@ == target@ && q@ == path@,
                Err(_) => false,
            }
        }),
{
    if trim(path).as_str().is_empty() {
        return Err(GrantError::ArgsEmpty);
    }
    let none: Vec<String> = Vec::new();
    assert(views(none@) =~= Seq::empty());
    match find_granted(existing, PermissionKind::Write, &none, path) {
        Some(true) => Ok(GrantOutcome::AlreadyGranted),
        Some(false) => Err(
            GrantError::ExistingWriteDenyConflict(target.to_owned(), path.to_owned()),
        ),
        None => Ok(GrantOutcome::Appended(Rule::write(true, path.to_owned()))),
    }
}

/// The text of a file after a rule has been appended: one more line.
pub open spec fn with_rule(body: Seq<char>, r: RuleModel) -> Seq<char> {
    (if body.len() > 0 && body.last() != '\n' {
        body.push('\n')
    } else {
        body
    }) + rule_json(r) + "\n"@
}

/// Appends a rule to the text of a file, on a line of its own.
pub fn append_rule_line(body: String, rule: &Rule) -> (r: String)
    ensures
        r@ == with_rule(body@, rule@),
{
    let mut out = body;
    let n = out.as_str().unicode_len();
    if n > 0 && out.as_str().get_char(n - 1) != '\n' {
        out.push('\n');
    }
    out.append(render_rule_line(rule).as_str());
    out.append("\n");
    out
}

/// Whether a rule can stand in a file: a command rule with words, a read rule
/// that allows, or a write rule, with a path that is not blank.
pub open spec fn storable(r: RuleModel) -> bool {
    match r.kind {
        PermissionKind::Command => args_ok(r.args_prefix) && r.path.len() == 0,
        PermissionKind::Read => r.allow && r.args_prefix.len() == 0 && trimmed(r.path).len() > 0,
        PermissionKind::Write => r.args_prefix.len() == 0 && trimmed(r.path).len() > 0,
    }
}

/// The members of a rule as it stands in a file.
pub open spec fn rule_members(r: RuleModel) -> Seq<(Seq<char>, JsonValue)> {
    match r.kind {
        PermissionKind::Command => seq![
            ("type"@, JsonValue::Text("command"@)),
            ("allow"@, JsonValue::Bool(r.allow)),
            ("args_prefix"@, text_list(r.args_prefix)),
        ],
        PermissionKind::Read => seq![
            ("type"@, JsonValue::Text("read"@)),
            ("path"@, JsonValue::Text(r.path)),
        ],
        PermissionKind::Write => seq![
            ("type"@, JsonValue::Text("write"@)),
            ("allow"@, JsonValue::Bool(r.allow)),
            ("path"@, JsonValue::Text(r.path)),
        ],
    }
}

proof fn lemma_quoted_words()
    ensures
        quoted("type"@) == "\"type\""@,
        quoted("allow"@) == "\"allow\""@,
        quoted("path"@) == "\"path\""@,
        quoted("args_prefix"@) == "\"args_prefix\""@,
        quoted("command"@) == "\"command\""@,
        quoted("read"@) == "\"read\""@,
        quoted("write"@) == "\"write\""@,
{
    reveal_strlit("type");
    reveal_strlit("\"type\"");
    reveal_strlit("allow");
    reveal_strlit("\"allow\"");
    reveal_strlit("path");
    reveal_strlit("\"path\"");
    reveal_strlit("args_prefix");
    reveal_strlit("\"args_prefix\"");
    reveal_strlit("command");
    reveal_strlit("\"command\"");
    reveal_strlit("read");
    reveal_strlit("\"read\"");
    reveal_strlit("write");
    reveal_strlit("\"write\"");
    lemma_quoted_plain("type"@);
    lemma_quoted_plain("allow"@);
    lemma_quoted_plain("path"@);
    lemma_quoted_plain("args_prefix"@);
    lemma_quoted_plain("command"@);
    lemma_quoted_plain("read"@);
    lemma_quoted_plain("write"@);
    assert(quoted("type"@) =~= "\"type\""@);
    assert(quoted("allow"@) =~= "\"allow\""@);
    assert(quoted("path"@) =~= "\"path\""@);
    assert(quoted("args_prefix"@) =~= "\"args_prefix\""@);
    assert(quoted("command"@) =~= "\"command\""@);
    assert(quoted("read"@) =~= "\"read\""@);
    assert(quoted("write"@) =~= "\"write\""@);
}

/// The line that holds a rule is the text of its members.
proof fn lemma_rule_text(r: RuleModel)
    ensures
        rule_json(r) == json_text(JsonValue::Members(rule_members(r))),
{
    lemma_quoted_words();
    let first = rule_members(r)[0];
    lemma_one_member(first.0, first.1);
    let one = seq![first];
    let body1 = quoted(first.0) + ":"@ + json_text(first.1);
    let second = rule_members(r)[1];
    lemma_one_more_member(one, second.0, second.1, body1);
    let two = one.push(second);
    let body2 = body1 + ","@ + (quoted(second.0) + ":"@ + json_text(second.1));
    let value1 = json_text(first.1);
    let value2 = json_text(second.1);
    lemma_flat("{"@, body1, ","@, quoted(second.0), ":"@, value2, "}"@);
    lemma_rule_words();
    match r.kind {
        PermissionKind::Command => {
            let third = rule_members(r)[2];
            lemma_one_more_member(two, third.0, third.1, body2);
            lemma_text_list(r.args_prefix);
            assert(two.push(third) =~= rule_members(r));
            lemma_flat("{"@, body2, ","@, quoted(third.0), ":"@, json_text(third.1), "}"@);
        },
        PermissionKind::Read => {
            assert(two =~= rule_members(r));
        },
        PermissionKind::Write => {
            let third = rule_members(r)[2];
            lemma_one_more_member(two, third.0, third.1, body2);
            assert(two.push(third) =~= rule_members(r));
            lemma_flat("{"@, body2, ","@, quoted(third.0), ":"@, json_text(third.1), "}"@);
        },
    }
}

/// What stands between the values of a rule.
proof fn lemma_rule_words()
    ensures
        ("{"@ + (quoted("type"@) + ":"@ + quoted("command"@))) + (","@ + quoted("allow"@) + ":"@)
            == "{\"type\":\"command\",\"allow\":"@,
        ("{"@ + (quoted("type"@) + ":"@ + quoted("write"@))) + (","@ + quoted("allow"@) + ":"@)
            == "{\"type\":\"write\",\"allow\":"@,
        ("{"@ + (quoted("type"@) + ":"@ + quoted("read"@))) + (","@ + quoted("path"@) + ":"@)
            == "{\"type\":\"read\",\"path\":"@,
        ","@ + quoted("args_prefix"@) + ":"@ == ",\"args_prefix\":"@,
        ","@ + quoted("path"@) + ":"@ == ",\"path\":"@,
{
    lemma_quoted_words();
    reveal_strlit("{");
    reveal_strlit(":");
    reveal_strlit(",");
    reveal_strlit("\"type\"");
    reveal_strlit("\"allow\"");
    reveal_strlit("\"path\"");
    reveal_strlit("\"args_prefix\"");
    reveal_strlit("\"command\"");
    reveal_strlit("\"read\"");
    reveal_strlit("\"write\"");
    reveal_strlit("{\"type\":\"command\",\"allow\":");
    reveal_strlit("{\"type\":\"write\",\"allow\":");
    reveal_strlit("{\"type\":\"read\",\"path\":");
    reveal_strlit(",\"args_prefix\":");
    reveal_strlit(",\"path\":");
    assert(("{"@ + ("\"type\""@ + ":"@ + "\"command\""@)) + (","@ + "\"allow\""@ + ":"@)
        =~= "{\"type\":\"command\",\"allow\":"@);
    assert(("{"@ + ("\"type\""@ + ":"@ + "\"write\""@)) + (","@ + "\"allow\""@ + ":"@)
        =~= "{\"type\":\"write\",\"allow\":"@);
    assert(("{"@ + ("\"type\""@ + ":"@ + "\"read\""@)) + (","@ + "\"path\""@ + ":"@)
        =~= "{\"type\":\"read\",\"path\":"@);
    assert(","@ + "\"args_prefix\""@ + ":"@ =~= ",\"args_prefix\":"@);
    assert(","@ + "\"path\""@ + ":"@ =~= ",\"path\":"@);
}

/// The names of the members of a rule are all different.
proof fn lemma_rule_names(r: RuleModel, k: int)
    requires
        0 <= k < rule_members(r).len(),
    ensures
        first_of_name(rule_members(r), k),
{
    reveal_strlit("type");
    reveal_strlit("allow");
    reveal_strlit("path");
    reveal_strlit("args_prefix");
    assert("type"@.len() == 4 && "allow"@.len() == 5 && "path"@.len() == 4 && "args_prefix"@.len()
        == 11);
    assert("type"@[0] == 't' && "path"@[0] == 'p');
}

/// A line that was written for a rule reads back as that rule, given that it
/// reads back as what it was written for.
pub proof fn law_rules_read_back(r: RuleModel)
    requires
        storable(r),
        faithful(rule_json(r)),
    ensures
        rule_of_line(rule_json(r)) == Ok::<RuleModel, Seq<char>>(r),
{
    let items = rule_members(r);
    let v = JsonValue::Members(items);
    lemma_rule_text(r);
    assert(shallow(v, MAX_DEPTH as nat)) by {
        assert forall|i: int| 0 <= i < items.len() implies shallow(
            (#[trigger] items[i]).1,
            (MAX_DEPTH - 1) as nat,
        ) by {
            if let JsonValue::List(inner) = items[i].1 {
                assert forall|k: int| 0 <= k < inner.len() implies shallow(
                    #[trigger] inner[k],
                    (MAX_DEPTH - 2) as nat,
                ) by {}
            }
        }
    }
    lemma_reads_back(rule_json(r), v);
    let doc = parsed(rule_json(r))->Ok_0;
    lemma_rule_names(r, 0);
    lemma_has_member(doc, 0, items, 0);
    lemma_rule_names(r, 1);
    lemma_has_member(doc, 0, items, 1);
    reveal_strlit("command");
    reveal_strlit("read");
    reveal_strlit("write");
    reveal_strlit("true");
    reveal_strlit("false");
    assert("command"@.len() == 7 && "read"@.len() == 4 && "write"@.len() == 5);
    assert("true"@.len() == 4 && "false"@.len() == 5);
    match r.kind {
        PermissionKind::Command => {
            lemma_rule_names(r, 2);
            lemma_has_member(doc, 0, items, 2);
            let read = |k: int| string_item(doc, k, "args_prefix"@);
            assert forall|k: int, s: Seq<char>|
                #![trigger holds(doc, k, JsonValue::Text(s))]
                holds(doc, k, JsonValue::Text(s)) implies read(k) == Ok::<Seq<char>, Seq<char>>(
                s,
            ) by {}
            lemma_text_list_reads_back(doc, doc[0].values[2], r.args_prefix, read);
            assert(strings_field(doc, "args_prefix"@) == Ok::<Seq<Seq<char>>, Seq<char>>(
                r.args_prefix,
            ));
            assert(r.path =~= Seq::empty());
        },
        PermissionKind::Read => {
            assert(r.args_prefix =~= Seq::empty());
            lemma_no_member(doc, items, "allow"@);
        },
        PermissionKind::Write => {
            lemma_rule_names(r, 2);
            lemma_has_member(doc, 0, items, 2);
            assert(r.args_prefix =~= Seq::empty());
        },
    }
}

/// An object without a member of that name has none.
proof fn lemma_no_member(
    doc: Seq<NodeModel>,
    items: Seq<(Seq<char>, JsonValue)>,
    name: Seq<char>,
)
    requires
        holds(doc, 0, JsonValue::Members(items)),
        items == rule_members(path_rule(PermissionKind::Read, true, items[1].1->Text_0)),
        name == "allow"@,
    ensures
        required(doc, 0, name) is Err,
{
    reveal_strlit("type");
    reveal_strlit("allow");
    reveal_strlit("path");
    assert("type"@.len() == 4 && "allow"@.len() == 5 && "path"@.len() == 4);
    let names = doc[0].names;
    assert(names[0] == items[0].0 && names[1] == items[1].0);
    reveal_with_fuel(crate::json::member_index, 3);
    assert(names.skip(1)[0] == names[1]);
    assert(names.skip(1).skip(1).len() == 0);
}

/// The line of a rule is one line, which starts with a brace and ends with
/// one.
proof fn lemma_rule_line(r: RuleModel)
    ensures
        forall|i: int| 0 <= i < rule_json(r).len() ==> #[trigger] rule_json(r)[i] != '\n',
        rule_json(r).len() >= 2,
        rule_json(r)[0] == '{',
        rule_json(r).last() == '}',
{
    lemma_quoted_is_one_line(r.path);
    reveal_strlit("}");
    reveal_strlit("true");
    reveal_strlit("false");
    match r.kind {
        PermissionKind::Command => {
            reveal_strlit("{\"type\":\"command\",\"allow\":");
            reveal_strlit(",\"args_prefix\":");
            lemma_list_is_one_line(r.args_prefix);
        },
        PermissionKind::Read => {
            reveal_strlit("{\"type\":\"read\",\"path\":");
        },
        PermissionKind::Write => {
            reveal_strlit("{\"type\":\"write\",\"allow\":");
            reveal_strlit(",\"path\":");
        },
    }
}

proof fn lemma_list_is_one_line(v: Seq<Seq<char>>)
    ensures
        forall|i: int|
            0 <= i < string_array_text(v).len() ==> #[trigger] string_array_text(v)[i] != '\n',
{
    reveal_strlit("[");
    reveal_strlit("]");
    let parts = v.map_values(|s: Seq<char>| quoted(s));
    assert forall|k: int, i: int| 0 <= k < parts.len() && 0 <= i < parts[k].len() implies (
    #[trigger] parts[k][i]) != '\n' by {
        lemma_quoted_is_one_line(v[k]);
    }
    lemma_joined_is_one_line(parts);
    let inner = crate::text::joined(parts, ","@);
    assert forall|i: int| 0 <= i < string_array_text(v).len() implies #[trigger] string_array_text(
        v,
    )[i] != '\n' by {
        if 0 < i < string_array_text(v).len() - 1 {
            assert(string_array_text(v)[i] == inner[i - 1]);
        }
    }
}

proof fn lemma_joined_is_one_line(parts: Seq<Seq<char>>)
    requires
        forall|k: int, i: int|
            0 <= k < parts.len() && 0 <= i < parts[k].len() ==> (#[trigger] parts[k][i]) != '\n',
    ensures
        forall|i: int|
            0 <= i < crate::text::joined(parts, ","@).len() ==> #[trigger] crate::text::joined(
                parts,
                ","@,
            )[i] != '\n',
    decreases parts.len(),
{
    reveal_strlit(",");
    let all = crate::text::joined(parts, ","@);
    if parts.len() == 1 {
        assert forall|i: int| 0 <= i < all.len() implies #[trigger] all[i] != '\n' by {
            assert(parts[0][i] != '\n');
        }
    } else if parts.len() > 1 {
        let before = parts.drop_last();
        assert forall|k: int, i: int| 0 <= k < before.len() && 0 <= i < before[k].len() implies (
        #[trigger] before[k][i]) != '\n' by {
            assert(parts[k][i] != '\n');
        }
        lemma_joined_is_one_line(before);
        let head = crate::text::joined(before, ","@);
        assert forall|i: int| 0 <= i < all.len() implies #[trigger] all[i] != '\n' by {
            if i < head.len() {
                assert(all[i] == head[i]);
            } else if i > head.len() {
                let last = parts.len() - 1;
                assert(all[i] == parts[last][i - head.len() - 1]);
            }
        }
    }
}

/// A rule that was appended to a file is read from it, behind those that the
/// file held before, given that its line reads back as what it was written
/// for.
pub proof fn law_appended_rules_are_read(body: Seq<char>, r: RuleModel)
    requires
        storable(r),
        faithful(rule_json(r)),
    ensures
        rules_in(lines_of(with_rule(body, r))) == rules_in(lines_of(body)).push(r),
{
    let head = if body.len() > 0 && body.last() != '\n' {
        body.push('\n')
    } else {
        body
    };
    let json = rule_json(r);
    let line = json + "\n"@;
    reveal_strlit("\n");
    lemma_rule_line(r);
    assert(with_rule(body, r) =~= head + line);
    assert(line.last() == '\n');
    assert forall|i: int| 0 <= i < line.len() - 1 implies #[trigger] line[i] != '\n' by {
        assert(line[i] == json[i]);
    }
    assert(crate::text::one_line(line));
    if head.len() > 0 {
        crate::text::lemma_lines_of_add(head, line);
    } else {
        assert(head + line =~= line);
        assert(lines_of(head) + lines_of(line) =~= lines_of(line));
    }
    let lines = lines_of(head);
    assert(lines_of(line) =~= seq![line]) by {
        crate::text::lemma_lines_of_concatenated(seq![line]);
        assert(crate::text::concatenated(seq![line]) =~= line) by {
            assert(seq![line].drop_last() =~= Seq::empty());
            assert(crate::text::concatenated(Seq::<Seq<char>>::empty()) =~= Seq::empty());
        }
    }
    assert(lines + seq![line] =~= lines.push(line));
    assert(lines.push(line).drop_last() =~= lines);
    assert(Seq::<char>::empty() + json + "\n"@ =~= line);
    crate::text::lemma_trimmed(Seq::empty(), json, "\n"@);
    law_rules_read_back(r);
    lemma_same_rules(body, head);
}

/// A line feed behind the last line changes no rule.
proof fn lemma_same_rules(body: Seq<char>, head: Seq<char>)
    requires
        head == body || (body.len() > 0 && body.last() != '\n' && head == body.push('\n')),
    ensures
        rules_in(lines_of(head)) == rules_in(lines_of(body)),
{
    if head != body {
        crate::text::lemma_lines_of(body);
        let lines = lines_of(body);
        let n = lines.len() - 1;
        crate::text::lemma_line_feed_behind(body);
        let last = lines.last();
        assert(lines_of(head) == lines.drop_last().push(last.push('\n')));
        assert(lines.drop_last().push(last.push('\n')).drop_last() =~= lines.drop_last());
        crate::text::lemma_trimmed_line_feed(last);
    }
}

/// Once a grant has appended its rule to a file, and no later file speaks of
/// the command, every command that starts with the granted words runs without
/// asking.
pub proof fn law_granted_commands_are_approved(
    before: Seq<(RuleScope, RuleModel)>,
    scope: RuleScope,
    args: Seq<Seq<char>>,
    argv: Seq<Seq<char>>,
)
    requires
        args_ok(args),
        args.is_prefix_of(argv),
    ensures
        judged(
            before.push((scope, command_rule(true, args))),
            PermissionKind::Command,
            Target::Argv(argv),
        ) is AutoApprove,
{
    let rule = (scope, command_rule(true, args));
    law_last_match_wins(
        before,
        rule,
        Seq::empty(),
        PermissionKind::Command,
        Target::Argv(argv),
    );
    assert(before.push(rule) + Seq::<(RuleScope, RuleModel)>::empty() =~= before.push(rule));
}

/// Once a grant has appended its rule to a file, and no later file speaks of
/// the path, everything that lies under the granted path may be read, or
/// written, without asking.
pub proof fn law_granted_paths_are_approved(
    before: Seq<(RuleScope, RuleModel)>,
    scope: RuleScope,
    kind: PermissionKind,
    path: Seq<char>,
    under: Seq<char>,
)
    requires
        kind is Read || kind is Write,
        path.len() > 0,
        lies_under(under, path),
    ensures
        judged(
            before.push((scope, path_rule(kind, true, path))),
            kind,
            Target::Path(under),
        ) is AutoApprove,
{
    let rule = (scope, path_rule(kind, true, path));
    law_last_match_wins(before, rule, Seq::empty(), kind, Target::Path(under));
    assert(before.push(rule) + Seq::<(RuleScope, RuleModel)>::empty() =~= before.push(rule));
}

} // verus!
