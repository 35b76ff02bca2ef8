//! Reading and writing plan files.
use vstd::prelude::*;
use vstd::string::*;

use super::roundtrip::{
    law_rendered_plans_are_sealed, law_sealed_plans_read_back, lemma_manifest_in_sealed,
    renders_whole,
};
use super::seal::{
    first_seal, is_hash, is_seal, law_with_seal_is_sealed, lemma_seal_line_stores, no_hidden_seal,
    replace_or_insert_seal, seal_line, seal_of, seal_of_text, sealed, with_seal, SEAL_PREFIX,
    SEAL_SUFFIX,
};
use super::{
    actions_error, invalid_id, valid_id, validate_id, ActionsModel, CommandActionModel,
    Confirmation, ConfirmationModel, ParsedPlan, PatchActionModel, PlanActions, PlanCommandAction,
    PlanError, PlanErrorModel, PlanModel, PlanPatchAction, MAX_CONFIRMATIONS, PLAN_FORMAT_VERSION,
    PLAN_MAX_BYTES, RESERVED_CONFIRMATION_ID,
};
use crate::json::value::faithful;
use crate::json::{
    array_text, elements, indices, lemma_read_list_step, member, parsed, quote, quoted, read_list,
    required, string, string_array_text, unsigned, write_array, write_string_array, JsonDoc,
    NodeModel,
};
use crate::model::{
    deep, first_some, lemma_deep_push, lemma_first_at, lemma_first_none, lemma_none_before,
};
use crate::text::{
    byte_len, chars_of, concatenated, contains, contains_str, find_char, find_from, find_str,
    find_sub, has_prefix, lemma_lines_of_add, lemma_lines_of_concatenated, lines_of, same,
    split_lines, starts_with, string_of, trim, trimmed, views,
};

verus! {

pub const ACTIONS_BEGIN: &'static str = "<!-- ATTINI-ACTIONS:BEGIN -->";

pub const ACTIONS_END: &'static str = "<!-- ATTINI-ACTIONS:END -->";

pub const CONFIRMATIONS_BEGIN: &'static str = "<!-- ATTINI-CONFIRMATIONS:BEGIN -->";

pub const CONFIRMATIONS_END: &'static str = "<!-- ATTINI-CONFIRMATIONS:END -->";

pub const CONFIRM_PREFIX: &'static str = "ATTINI-CONFIRM:";

/// Where a marker stands that must occur exactly once.
pub open spec fn marker_at(text: Seq<char>, marker: Seq<char>) -> Result<int, PlanErrorModel> {
    match find_sub(text, marker, 0) {
        None => Err(PlanErrorModel::MissingMarker(marker)),
        Some(i) => match find_sub(text, marker, i + marker.len()) {
            Some(_) => Err(PlanErrorModel::DuplicateMarker(marker)),
            None => Ok(i),
        },
    }
}

/// The first marker that a body holds, though it must not.
pub open spec fn marker_in(body: Seq<char>) -> Option<Seq<char>> {
    if contains(body, ACTIONS_BEGIN@) {
        Some(ACTIONS_BEGIN@)
    } else if contains(body, ACTIONS_END@) {
        Some(ACTIONS_END@)
    } else if contains(body, CONFIRMATIONS_BEGIN@) {
        Some(CONFIRMATIONS_BEGIN@)
    } else if contains(body, CONFIRMATIONS_END@) {
        Some(CONFIRMATIONS_END@)
    } else if contains(body, SEAL_PREFIX@) {
        Some(SEAL_PREFIX@)
    } else {
        None
    }
}

/// The JSON text inside the first fence of a block.
pub open spec fn fenced_json(block: Seq<char>) -> Option<Seq<char>> {
    match find_sub(block, "```json"@, 0) {
        None => None,
        Some(i) => {
            let rest = block.skip(i + "```json"@.len());
            match find_sub(rest, "```"@, 0) {
                None => None,
                Some(end) => Some(trimmed(rest.take(end))),
            }
        },
    }
}

/// A string member that an action must have.
pub open spec fn action_field(doc: Seq<NodeModel>, i: int, name: Seq<char>) -> Result<
    Seq<char>,
    PlanErrorModel,
> {
    match required(doc, i, name) {
        Err(e) => Err(PlanErrorModel::ActionsSchema(e)),
        Ok(j) => match string(doc, j) {
            Err(e) => Err(PlanErrorModel::ActionsSchema(e)),
            Ok(s) => Ok(s),
        },
    }
}

/// The argv of a command action.
pub open spec fn argv_field(doc: Seq<NodeModel>, i: int) -> Result<Seq<Seq<char>>, PlanErrorModel> {
    match required(doc, i, "argv"@) {
        Err(e) => Err(PlanErrorModel::ActionsSchema(e)),
        Ok(j) => match elements(doc, j) {
            Err(e) => Err(PlanErrorModel::ActionsSchema(e)),
            Ok(at) => read_list(at, |k: int| argv_element(doc, k)),
        },
    }
}

/// One element of an argv.
pub open spec fn argv_element(doc: Seq<NodeModel>, i: int) -> Result<Seq<char>, PlanErrorModel> {
    match string(doc, i) {
        Err(e) => Err(PlanErrorModel::ActionsSchema(e)),
        Ok(s) => Ok(s),
    }
}

/// One patch action.
pub open spec fn patch_action_of(doc: Seq<NodeModel>, i: int) -> Result<
    PatchActionModel,
    PlanErrorModel,
> {
    match action_field(doc, i, "id"@) {
        Err(e) => Err(e),
        Ok(id) => match action_field(doc, i, "path"@) {
            Err(e) => Err(e),
            Ok(path) => match action_field(doc, i, "description"@) {
                Err(e) => Err(e),
                Ok(description) => Ok(PatchActionModel { id, path, description }),
            },
        },
    }
}

/// One command action.
pub open spec fn command_action_of(doc: Seq<NodeModel>, i: int) -> Result<
    CommandActionModel,
    PlanErrorModel,
> {
    match action_field(doc, i, "id"@) {
        Err(e) => Err(e),
        Ok(id) => match action_field(doc, i, "description"@) {
            Err(e) => Err(e),
            Ok(description) => match argv_field(doc, i) {
                Err(e) => Err(e),
                Ok(argv) => Ok(CommandActionModel { id, argv, description }),
            },
        },
    }
}

/// The elements of an array member; none where the member is absent.
pub open spec fn list_member(doc: Seq<NodeModel>, name: Seq<char>) -> Result<
    Seq<int>,
    PlanErrorModel,
> {
    match member(doc, 0, name) {
        Err(e) => Err(PlanErrorModel::ActionsSchema(e)),
        Ok(None) => Ok(Seq::empty()),
        Ok(Some(j)) => match elements(doc, j) {
            Err(e) => Err(PlanErrorModel::ActionsSchema(e)),
            Ok(at) => Ok(at),
        },
    }
}

/// The patch actions of a manifest.
pub open spec fn patch_actions_of(doc: Seq<NodeModel>) -> Result<
    Seq<PatchActionModel>,
    PlanErrorModel,
> {
    match list_member(doc, "patches"@) {
        Err(e) => Err(e),
        Ok(at) => read_list(at, |k: int| patch_action_of(doc, k)),
    }
}

/// The command actions of a manifest.
pub open spec fn command_actions_of(doc: Seq<NodeModel>) -> Result<
    Seq<CommandActionModel>,
    PlanErrorModel,
> {
    match list_member(doc, "commands"@) {
        Err(e) => Err(e),
        Ok(at) => read_list(at, |k: int| command_action_of(doc, k)),
    }
}

/// What is said against the version of a manifest, if anything.
pub open spec fn version_error(doc: Seq<NodeModel>) -> Option<PlanErrorModel> {
    match required(doc, 0, "version"@) {
        Err(e) => Some(PlanErrorModel::ActionsJsonParse(e)),
        Ok(j) => match unsigned(doc, j, u64::MAX as int) {
            Err(e) => Some(PlanErrorModel::ActionsJsonParse(e)),
            Ok(v) => if v != PLAN_FORMAT_VERSION {
                Some(PlanErrorModel::UnsupportedVersion(v as u64))
            } else {
                None
            },
        },
    }
}

/// The manifest that a document holds.
pub open spec fn actions_of(doc: Seq<NodeModel>) -> Result<ActionsModel, PlanErrorModel> {
    match version_error(doc) {
        Some(e) => Err(e),
        None => match patch_actions_of(doc) {
            Err(e) => Err(e),
            Ok(patches) => match command_actions_of(doc) {
                Err(e) => Err(e),
                Ok(commands) => {
                    let a = ActionsModel { patches, commands };
                    match actions_error(a) {
                        Some(e) => Err(e),
                        None => Ok(a),
                    }
                },
            },
        },
    }
}

/// The manifest that a JSON text holds.
pub open spec fn actions_of_text(json: Seq<char>) -> Result<ActionsModel, PlanErrorModel> {
    match parsed(json) {
        Err(e) => Err(PlanErrorModel::ActionsJsonParse(e)),
        Ok(doc) => actions_of(doc),
    }
}

/// The item behind the mark of a checkbox line: its id up to the first em
/// dash, its description behind it.
pub open spec fn item_of(body: Seq<char>, checked: bool) -> ConfirmationModel {
    let dash = find_from(body, '—', 0);
    if dash < body.len() {
        ConfirmationModel {
            id: trimmed(body.take(dash)),
            description: trimmed(body.skip(dash + 1)),
            checked,
        }
    } else {
        ConfirmationModel { id: trimmed(body), description: Seq::empty(), checked }
    }
}

/// What stands behind a prefix, if the text starts with it.
pub open spec fn behind(s: Seq<char>, prefix: Seq<char>) -> Option<Seq<char>> {
    if has_prefix(s, prefix) {
        Some(s.skip(prefix.len() as int))
    } else {
        None
    }
}

/// The confirmation item that a line holds. Every line that is not a checkbox
/// line of the expected form holds none.
pub open spec fn confirmation_in(line: Seq<char>) -> Option<ConfirmationModel> {
    let t = trimmed(line);
    if t.len() == 0 || is_seal(t) {
        None
    } else {
        match behind(t, "- ["@) {
            None => None,
            Some(rest) => if rest.len() == 0 || !(rest[0] == ' ' || rest[0] == 'x' || rest[0]
                == 'X') {
                None
            } else {
                match behind(rest.skip(1), "] "@) {
                    None => None,
                    Some(text) => match behind(text, CONFIRM_PREFIX@) {
                        None => None,
                        Some(body) => Some(item_of(trimmed(body), rest[0] != ' ')),
                    },
                }
            },
        }
    }
}

/// The confirmation items that lines hold, in order.
pub open spec fn items_in(lines: Seq<Seq<char>>) -> Seq<ConfirmationModel>
    decreases lines.len(),
{
    if lines.len() == 0 {
        Seq::empty()
    } else {
        match confirmation_in(lines.last()) {
            Some(item) => items_in(lines.drop_last()).push(item),
            None => items_in(lines.drop_last()),
        }
    }
}

/// What is wrong with one item, given those before it.
pub open spec fn item_error(items: Seq<ConfirmationModel>, k: int) -> Option<PlanErrorModel> {
    let id = items[k].id;
    if !valid_id(id) {
        Some(invalid_id("confirmation id"@, id))
    } else if id == RESERVED_CONFIRMATION_ID@ && exists|j: int|
        0 <= j < k && (#[trigger] items[j]).id == id {
        Some(PlanErrorModel::DuplicateAllOk)
    } else if k >= MAX_CONFIRMATIONS {
        Some(PlanErrorModel::TooManyConfirmations { count: (k + 1) as nat })
    } else {
        None
    }
}

/// Whether an earlier item has the same id.
pub open spec fn item_id_error(items: Seq<ConfirmationModel>, k: int) -> Option<PlanErrorModel> {
    if exists|j: int| 0 <= j < k && (#[trigger] items[j]).id == items[k].id {
        Some(PlanErrorModel::DuplicateConfirmationId(items[k].id))
    } else {
        None
    }
}

/// What is wrong with a list of items: the first item that is wrong in
/// itself, else a missing `all-ok`, else the first id that is taken already.
pub open spec fn items_error(items: Seq<ConfirmationModel>) -> Option<PlanErrorModel> {
    match first_some(items.len() as int, |k: int| item_error(items, k)) {
        Some(e) => Some(e),
        None => if !(exists|j: int|
            0 <= j < items.len() && (#[trigger] items[j]).id == RESERVED_CONFIRMATION_ID@) {
            Some(PlanErrorModel::MissingAllOk)
        } else {
            first_some(items.len() as int, |k: int| item_id_error(items, k))
        },
    }
}

/// The confirmations that a block holds.
pub open spec fn confirmations_of(block: Seq<char>) -> Result<
    Seq<ConfirmationModel>,
    PlanErrorModel,
> {
    let items = items_in(lines_of(block));
    match items_error(items) {
        Some(e) => Err(e),
        None => Ok(items),
    }
}

/// Where the actions block of a text begins and ends: the two places behind
/// the first marker and before the second.
pub open spec fn actions_span(text: Seq<char>) -> Result<(int, int), PlanErrorModel> {
    match marker_at(text, ACTIONS_BEGIN@) {
        Err(e) => Err(e),
        Ok(begin) => match marker_at(text, ACTIONS_END@) {
            Err(e) => Err(e),
            Ok(end) => if begin + ACTIONS_BEGIN@.len() > end {
                Err(PlanErrorModel::ActionsBlockMissing)
            } else {
                Ok((begin, end))
            },
        },
    }
}

/// The actions of a text whose actions block is there.
pub open spec fn actions_in(text: Seq<char>, begin: int, end: int) -> Result<
    ActionsModel,
    PlanErrorModel,
> {
    match marker_in(text.take(begin)) {
        Some(m) => Err(PlanErrorModel::MarkerInBody(m)),
        None => match fenced_json(text.subrange(begin + ACTIONS_BEGIN@.len(), end)) {
            None => Err(PlanErrorModel::ActionsBlockMissing),
            Some(json) => actions_of_text(json),
        },
    }
}

/// The confirmations of a text whose actions block ends at `end`.
pub open spec fn confirmations_in(text: Seq<char>, end: int) -> Result<
    Seq<ConfirmationModel>,
    PlanErrorModel,
> {
    match marker_at(text, CONFIRMATIONS_BEGIN@) {
        Err(e) => Err(e),
        Ok(cb) => match marker_at(text, CONFIRMATIONS_END@) {
            Err(e) => Err(e),
            Ok(ce) => if cb <= end {
                Err(PlanErrorModel::MissingMarker(CONFIRMATIONS_BEGIN@))
            } else if trimmed(text.skip(ce + CONFIRMATIONS_END@.len())).len() > 0 || cb
                + CONFIRMATIONS_BEGIN@.len() > ce {
                Err(PlanErrorModel::ContentAfterConfirmations)
            } else {
                confirmations_of(text.subrange(cb + CONFIRMATIONS_BEGIN@.len(), ce))
            },
        },
    }
}

/// The text of the manifest that is read from a text, if the text is read
/// that far.
pub open spec fn manifest_in(text: Seq<char>) -> Option<Seq<char>> {
    match actions_span(text) {
        Ok((begin, end)) => if byte_len(text) > PLAN_MAX_BYTES || marker_in(
            text.take(begin),
        ) is Some {
            None
        } else {
            fenced_json(text.subrange(begin + ACTIONS_BEGIN@.len(), end))
        },
        Err(_) => None,
    }
}

/// The plan that a text holds.
pub open spec fn plan_of(text: Seq<char>) -> Result<PlanModel, PlanErrorModel> {
    if byte_len(text) > PLAN_MAX_BYTES {
        Err(PlanErrorModel::TooLarge { size: byte_len(text) as nat })
    } else {
        match actions_span(text) {
            Err(e) => Err(e),
            Ok((begin, end)) => match actions_in(text, begin, end) {
                Err(e) => Err(e),
                Ok(actions) => match confirmations_in(text, end) {
                    Err(e) => Err(e),
                    Ok(confirmations) => Ok(
                        PlanModel {
                            body_markdown: trimmed(text.take(begin)),
                            actions,
                            confirmations,
                        },
                    ),
                },
            },
        }
    }
}

fn find_marker(v: &Vec<char>, marker: &'static str) -> (r: Result<usize, PlanError>)
    ensures
        match r {
            Ok(i) => marker_at(v@, marker@) == Ok::<int, PlanErrorModel>(i as int) && i
                + marker@.len() <= v@.len(),
            Err(e) => marker_at(v@, marker@) == Err::<int, PlanErrorModel>(e@),
        },
{
    let m = chars_of(marker);
    let n: usize = v.len();
    assert(v@.len() == n);
    match find_str(v, &m, 0) {
        None => Err(PlanError::MissingMarker(marker)),
        Some(i) => match find_str(v, &m, i + m.len()) {
            Some(_) => Err(PlanError::DuplicateMarker(marker)),
            None => Ok(i),
        },
    }
}

fn find_marker_in(body: &str) -> (r: Option<&'static str>)
    ensures
        match r {
            Some(m) => marker_in(body@) == Some(m@),
            None => marker_in(body@) is None,
        },
{
    if contains_str(body, ACTIONS_BEGIN) {
        Some(ACTIONS_BEGIN)
    } else if contains_str(body, ACTIONS_END) {
        Some(ACTIONS_END)
    } else if contains_str(body, CONFIRMATIONS_BEGIN) {
        Some(CONFIRMATIONS_BEGIN)
    } else if contains_str(body, CONFIRMATIONS_END) {
        Some(CONFIRMATIONS_END)
    } else if contains_str(body, SEAL_PREFIX) {
        Some(SEAL_PREFIX)
    } else {
        None
    }
}

fn extract_fenced_json(block: &str) -> (r: Option<String>)
    ensures
        match r {
            Some(json) => fenced_json(block@) == Some(json@),
            None => fenced_json(block@) is None,
        },
{
    let v = chars_of(block);
    let open = chars_of("```json");
    let close = chars_of("```");
    let n: usize = v.len();
    assert(v@.len() == n);
    let at: usize = match find_str(&v, &open, 0) {
        Some(i) => i + open.len(),
        None => return None,
    };
    let rest = chars_of(string_of(&v, at, v.len()).as_str());
    assert(rest@ =~= block@.skip(at as int));
    let end: usize = match find_str(&rest, &close, 0) {
        Some(i) => i,
        None => return None,
    };
    assert(rest@.subrange(0, end as int) =~= rest@.take(end as int));
    Some(trim(string_of(&rest, 0, end).as_str()))
}

fn read_action_field(doc: &JsonDoc, i: usize, field: &str) -> (r: Result<String, PlanError>)
    requires
        doc.wf(),
        i < doc@.len(),
    ensures
        match r {
            Ok(s) => action_field(doc@, i as int, field@) == Ok::<Seq<char>, PlanErrorModel>(s@),
            Err(e) => action_field(doc@, i as int, field@) == Err::<Seq<char>, PlanErrorModel>(e@),
        },
{
    match doc.required(i, field) {
        Err(e) => Err(PlanError::ActionsSchema(e.message)),
        Ok(j) => match doc.string(j) {
            Err(e) => Err(PlanError::ActionsSchema(e.message)),
            Ok(s) => Ok(s),
        },
    }
}

fn read_argv(doc: &JsonDoc, i: usize) -> (r: Result<Vec<String>, PlanError>)
    requires
        doc.wf(),
        i < doc@.len(),
    ensures
        match r {
            Ok(v) => argv_field(doc@, i as int) == Ok::<Seq<Seq<char>>, PlanErrorModel>(views(v@)),
            Err(e) => argv_field(doc@, i as int) == Err::<Seq<Seq<char>>, PlanErrorModel>(e@),
        },
{
    let j: usize = match doc.required(i, "argv") {
        Err(e) => return Err(PlanError::ActionsSchema(e.message)),
        Ok(j) => j,
    };
    let at = match doc.elements(j) {
        Err(e) => return Err(PlanError::ActionsSchema(e.message)),
        Ok(at) => at,
    };
    let ghost all = indices(at@);
    let ghost read = |k: int| argv_element(doc@, k);
    let mut out: Vec<String> = Vec::new();
    let mut k: usize = 0;
    assert(all.take(0) =~= Seq::empty());
    assert(views(out@) =~= Seq::empty());
    while k < at.len()
        invariant
            k <= at@.len(),
            doc.wf(),
            all == indices(at@),
            forall|j: int| 0 <= j < at@.len() ==> #[trigger] at@[j] < doc@.len(),
            read == (|k: int| argv_element(doc@, k)),
            argv_field(doc@, i as int) == read_list(all, read),
            read_list(all.take(k as int), read) == Ok::<Seq<Seq<char>>, PlanErrorModel>(
                views(out@),
            ),
        decreases at@.len() - k,
    {
        proof {
            lemma_read_list_step(all, read, k as int);
        }
        let ghost before = views(out@);
        match doc.string(at[k]) {
            Ok(s) => {
                out.push(s);
                assert(views(out@) =~= before.push(s@));
            },
            Err(e) => return Err(PlanError::ActionsSchema(e.message)),
        }
        k = k + 1;
    }
    assert(all.take(all.len() as int) =~= all);
    Ok(out)
}

fn read_patch_action(doc: &JsonDoc, i: usize) -> (r: Result<PlanPatchAction, PlanError>)
    requires
        doc.wf(),
        i < doc@.len(),
    ensures
        match r {
            Ok(a) => patch_action_of(doc@, i as int) == Ok::<PatchActionModel, PlanErrorModel>(a@),
            Err(e) => patch_action_of(doc@, i as int) == Err::<PatchActionModel, PlanErrorModel>(
                e@,
            ),
        },
{
    let id = read_action_field(doc, i, "id")?;
    let path = read_action_field(doc, i, "path")?;
    let description = read_action_field(doc, i, "description")?;
    Ok(PlanPatchAction { id, path, description })
}

fn read_command_action(doc: &JsonDoc, i: usize) -> (r: Result<PlanCommandAction, PlanError>)
    requires
        doc.wf(),
        i < doc@.len(),
    ensures
        match r {
            Ok(a) => command_action_of(doc@, i as int) == Ok::<CommandActionModel, PlanErrorModel>(
                a@,
            ),
            Err(e) => command_action_of(doc@, i as int) == Err::<
                CommandActionModel,
                PlanErrorModel,
            >(e@),
        },
{
    let id = read_action_field(doc, i, "id")?;
    let description = read_action_field(doc, i, "description")?;
    let argv = read_argv(doc, i)?;
    Ok(PlanCommandAction { id, argv, description })
}

fn read_list_member(doc: &JsonDoc, name: &str) -> (r: Result<Vec<usize>, PlanError>)
    requires
        doc.wf(),
    ensures
        match r {
            Ok(at) => list_member(doc@, name@) == Ok::<Seq<int>, PlanErrorModel>(indices(at@))
                && forall|j: int| 0 <= j < at@.len() ==> #[trigger] at@[j] < doc@.len(),
            Err(e) => list_member(doc@, name@) == Err::<Seq<int>, PlanErrorModel>(e@),
        },
{
    let mut out: Vec<usize> = Vec::new();
    assert(indices(out@) =~= Seq::empty());
    let j: usize = match doc.member(0, name) {
        Err(e) => return Err(PlanError::ActionsSchema(e.message)),
        Ok(None) => return Ok(out),
        Ok(Some(j)) => j,
    };
    let at = match doc.elements(j) {
        Err(e) => return Err(PlanError::ActionsSchema(e.message)),
        Ok(at) => at,
    };
    let mut k: usize = 0;
    while k < at.len()
        invariant
            k <= at@.len(),
            forall|j: int| 0 <= j < at@.len() ==> #[trigger] at@[j] < doc@.len(),
            out@ == at@.take(k as int),
        decreases at@.len() - k,
    {
        out.push(at[k]);
        assert(at@.take(k + 1) =~= at@.take(k as int).push(at@[k as int]));
        k = k + 1;
    }
    assert(out@ =~= at@);
    Ok(out)
}

impl PlanActions {
    /// Reads the manifest that a document holds, and validates it.
    pub fn from_json(doc: &JsonDoc) -> (r: Result<PlanActions, PlanError>)
        requires
            doc.wf(),
        ensures
            match r {
                Ok(a) => actions_of(doc@) == Ok::<ActionsModel, PlanErrorModel>(a@),
                Err(e) => actions_of(doc@) == Err::<ActionsModel, PlanErrorModel>(e@),
            },
    {
        let j: usize = match doc.required(0, "version") {
            Err(e) => return Err(PlanError::ActionsJsonParse(e.message)),
            Ok(j) => j,
        };
        let version: u64 = match doc.unsigned(j, u64::MAX) {
            Err(e) => return Err(PlanError::ActionsJsonParse(e.message)),
            Ok(v) => v,
        };
        if version != PLAN_FORMAT_VERSION {
            return Err(PlanError::UnsupportedVersion(version));
        }
        let at = read_list_member(doc, "patches")?;
        let ghost all = indices(at@);
        let ghost read = |k: int| patch_action_of(doc@, k);
        let mut patches: Vec<PlanPatchAction> = Vec::new();
        let mut k: usize = 0;
        assert(all.take(0) =~= Seq::empty());
        assert(deep(patches@) =~= Seq::empty());
        while k < at.len()
            invariant
                k <= at@.len(),
                doc.wf(),
                all == indices(at@),
                forall|j: int| 0 <= j < at@.len() ==> #[trigger] at@[j] < doc@.len(),
                read == (|k: int| patch_action_of(doc@, k)),
                version_error(doc@) is None,
                patch_actions_of(doc@) == read_list(all, read),
                read_list(all.take(k as int), read) == Ok::<Seq<PatchActionModel>, PlanErrorModel>(
                    deep(patches@),
                ),
            decreases at@.len() - k,
        {
            proof {
                lemma_read_list_step(all, read, k as int);
            }
            let ghost before = patches@;
            let action = read_patch_action(doc, at[k])?;
            patches.push(action);
            proof {
                lemma_deep_push(before, action);
            }
            k = k + 1;
        }
        assert(all.take(all.len() as int) =~= all);
        let at = read_list_member(doc, "commands")?;
        let ghost all = indices(at@);
        let ghost read = |k: int| command_action_of(doc@, k);
        let mut commands: Vec<PlanCommandAction> = Vec::new();
        let mut k: usize = 0;
        assert(all.take(0) =~= Seq::empty());
        assert(deep(commands@) =~= Seq::empty());
        while k < at.len()
            invariant
                k <= at@.len(),
                doc.wf(),
                all == indices(at@),
                forall|j: int| 0 <= j < at@.len() ==> #[trigger] at@[j] < doc@.len(),
                read == (|k: int| command_action_of(doc@, k)),
                version_error(doc@) is None,
                patch_actions_of(doc@) == Ok::<Seq<PatchActionModel>, PlanErrorModel>(
                    deep(patches@),
                ),
                command_actions_of(doc@) == read_list(all, read),
                read_list(all.take(k as int), read) == Ok::<
                    Seq<CommandActionModel>,
                    PlanErrorModel,
                >(deep(commands@)),
            decreases at@.len() - k,
        {
            proof {
                lemma_read_list_step(all, read, k as int);
            }
            let ghost before = commands@;
            let action = read_command_action(doc, at[k])?;
            commands.push(action);
            proof {
                lemma_deep_push(before, action);
            }
            k = k + 1;
        }
        assert(all.take(all.len() as int) =~= all);
        let actions = PlanActions { patches, commands };
        actions.validate()?;
        Ok(actions)
    }
}

/// Reads the manifest that a JSON text holds.
pub(super) fn parse_actions_json(json: &str) -> (r: Result<PlanActions, PlanError>)
    ensures
        match r {
            Ok(a) => actions_of_text(json@) == Ok::<ActionsModel, PlanErrorModel>(a@),
            Err(e) => actions_of_text(json@) == Err::<ActionsModel, PlanErrorModel>(e@),
        },
        faithful(json@),
{
    match JsonDoc::parse(json) {
        Err(e) => Err(PlanError::ActionsJsonParse(e.message)),
        Ok(doc) => PlanActions::from_json(&doc),
    }
}

/// What stands behind a prefix, if the text starts with it.
fn strip(s: &str, prefix: &str) -> (r: Option<String>)
    ensures
        match r {
            Some(rest) => behind(s@, prefix@) == Some(rest@),
            None => behind(s@, prefix@) is None,
        },
{
    if starts_with(s, prefix) {
        let v = chars_of(s);
        let n = prefix.unicode_len();
        assert(s@.subrange(n as int, s@.len() as int) =~= s@.skip(n as int));
        Some(string_of(&v, n, v.len()))
    } else {
        None
    }
}

fn read_item(body: &str, checked: bool) -> (r: Confirmation)
    ensures
        r@ == item_of(body@, checked),
{
    let v = chars_of(body);
    let dash = find_char(&v, '—', 0);
    if dash < v.len() {
        assert(v@.subrange(0, dash as int) =~= v@.take(dash as int));
        assert(v@.subrange(dash + 1, v@.len() as int) =~= v@.skip(dash + 1));
        Confirmation {
            id: trim(string_of(&v, 0, dash).as_str()),
            description: trim(string_of(&v, dash + 1, v.len()).as_str()),
            checked,
        }
    } else {
        Confirmation { id: trim(body), description: String::new(), checked }
    }
}

fn read_confirmation(line: &str) -> (r: Option<Confirmation>)
    ensures
        match r {
            Some(c) => confirmation_in(line@) == Some(c@),
            None => confirmation_in(line@) is None,
        },
{
    let t = trim(line);
    if t.as_str().is_empty() || starts_with(t.as_str(), SEAL_PREFIX) {
        return None;
    }
    let rest = match strip(t.as_str(), "- [") {
        Some(rest) => rest,
        None => return None,
    };
    let v = chars_of(rest.as_str());
    if v.len() == 0 || !(v[0] == ' ' || v[0] == 'x' || v[0] == 'X') {
        return None;
    }
    let checked = v[0] != ' ';
    assert(v@.subrange(1, v@.len() as int) =~= v@.skip(1));
    let text = match strip(string_of(&v, 1, v.len()).as_str(), "] ") {
        Some(text) => text,
        None => return None,
    };
    match strip(text.as_str(), CONFIRM_PREFIX) {
        Some(body) => Some(read_item(trim(body.as_str()).as_str(), checked)),
        None => None,
    }
}

fn id_before(items: &Vec<Confirmation>, id: &str, n: usize) -> (r: bool)
    requires
        n <= items@.len(),
    ensures
        r == (exists|j: int| 0 <= j < n && (#[trigger] deep(items@)[j]).id == id@),
{
    let mut j: usize = 0;
    while j < n
        invariant
            j <= n <= items@.len(),
            forall|k: int| 0 <= k < j ==> (#[trigger] deep(items@)[k]).id != id@,
        decreases n - j,
    {
        assert(deep(items@)[j as int] == items@[j as int]@);
        if same(items[j].id.as_str(), id) {
            return true;
        }
        j = j + 1;
    }
    false
}

fn check_item(items: &Vec<Confirmation>, k: usize) -> (r: Result<(), PlanError>)
    requires
        k < items@.len(),
    ensures
        match r {
            Ok(_) => item_error(deep(items@), k as int) is None,
            Err(e) => item_error(deep(items@), k as int) == Some(e@),
        },
{
    let id = items[k].id.as_str();
    let n: usize = items.len();
    assert(k < n);
    assert(deep(items@)[k as int] == items@[k as int]@);
    validate_id(id, "confirmation id")?;
    if same(id, RESERVED_CONFIRMATION_ID) && id_before(items, id, k) {
        return Err(PlanError::DuplicateAllOk);
    }
    if k >= MAX_CONFIRMATIONS {
        return Err(PlanError::TooManyConfirmations { count: k + 1 });
    }
    Ok(())
}

fn check_items(items: &Vec<Confirmation>) -> (r: Result<(), PlanError>)
    ensures
        match r {
            Ok(_) => items_error(deep(items@)) is None,
            Err(e) => items_error(deep(items@)) == Some(e@),
        },
{
    let ghost model = deep(items@);
    let ghost n = items@.len() as int;
    let ghost f = |k: int| item_error(model, k);
    let ghost g = |k: int| item_id_error(model, k);
    let mut k: usize = 0;
    while k < items.len()
        invariant
            k <= items@.len() == n,
            model == deep(items@),
            f == (|k: int| item_error(model, k)),
            forall|j: int| 0 <= j < k ==> #[trigger] f(j) is None,
        decreases items@.len() - k,
    {
        match check_item(items, k) {
            Ok(_) => {},
            Err(e) => {
                proof {
                    lemma_first_at(n, f, k as int);
                }
                return Err(e);
            },
        }
        k = k + 1;
    }
    proof {
        lemma_first_none(n, f);
    }
    if !id_before(items, RESERVED_CONFIRMATION_ID, items.len()) {
        return Err(PlanError::MissingAllOk);
    }
    let mut k: usize = 0;
    while k < items.len()
        invariant
            k <= items@.len() == n,
            model == deep(items@),
            g == (|k: int| item_id_error(model, k)),
            items_error(model) == first_some(n, g),
            forall|j: int| 0 <= j < k ==> #[trigger] g(j) is None,
        decreases items@.len() - k,
    {
        assert(model[k as int] == items@[k as int]@);
        if id_before(items, items[k].id.as_str(), k) {
            proof {
                lemma_first_at(n, g, k as int);
            }
            return Err(PlanError::DuplicateConfirmationId(items[k].id.clone()));
        }
        k = k + 1;
    }
    proof {
        lemma_first_none(n, g);
    }
    Ok(())
}

fn parse_confirmations(block: &str) -> (r: Result<Vec<Confirmation>, PlanError>)
    ensures
        match r {
            Ok(v) => confirmations_of(block@) == Ok::<Seq<ConfirmationModel>, PlanErrorModel>(
                deep(v@),
            ),
            Err(e) => confirmations_of(block@) == Err::<Seq<ConfirmationModel>, PlanErrorModel>(e@),
        },
{
    let lines = split_lines(block);
    let ghost all = views(lines@);
    let mut items: Vec<Confirmation> = Vec::new();
    let mut i: usize = 0;
    assert(deep(items@) =~= Seq::empty());
    while i < lines.len()
        invariant
            i <= lines@.len(),
            all == views(lines@),
            deep(items@) == items_in(all.take(i as int)),
        decreases lines@.len() - i,
    {
        proof {
            assert(all.take(i + 1).drop_last() =~= all.take(i as int));
            assert(all.take(i + 1).last() == lines@[i as int]@);
        }
        if let Some(c) = read_confirmation(lines[i].as_str()) {
            let ghost before = items@;
            items.push(c);
            proof {
                lemma_deep_push(before, c);
            }
        }
        i = i + 1;
    }
    assert(all.take(all.len() as int) =~= all);
    check_items(&items)?;
    Ok(items)
}

/// Reads a plan file, and with it its manifest, if it gets that far.
fn parse_text(text: &str) -> (r: Result<ParsedPlan, PlanError>)
    ensures
        match r {
            Ok(p) => plan_of(text@) == Ok::<PlanModel, PlanErrorModel>(p@),
            Err(e) => plan_of(text@) == Err::<PlanModel, PlanErrorModel>(e@),
        },
        match manifest_in(text@) {
            Some(json) => faithful(json),
            None => true,
        },
{
    let size = text.len();
    if size > PLAN_MAX_BYTES {
        return Err(PlanError::TooLarge { size });
    }
    let v = chars_of(text);
    let n: usize = v.len();
    assert(v@.len() == n);
    let begin = find_marker(&v, ACTIONS_BEGIN)?;
    let end = find_marker(&v, ACTIONS_END)?;
    let begin_len = ACTIONS_BEGIN.unicode_len();
    if begin + begin_len > end {
        return Err(PlanError::ActionsBlockMissing);
    }
    let body = string_of(&v, 0, begin);
    assert(v@.subrange(0, begin as int) =~= v@.take(begin as int));
    if let Some(m) = find_marker_in(body.as_str()) {
        return Err(PlanError::MarkerInBody(m));
    }
    let json = match extract_fenced_json(string_of(&v, begin + begin_len, end).as_str()) {
        Some(json) => json,
        None => return Err(PlanError::ActionsBlockMissing),
    };
    let actions = parse_actions_json(json.as_str())?;
    let cb = find_marker(&v, CONFIRMATIONS_BEGIN)?;
    let ce = find_marker(&v, CONFIRMATIONS_END)?;
    if cb <= end {
        return Err(PlanError::MissingMarker(CONFIRMATIONS_BEGIN));
    }
    let cb_end: usize = cb + CONFIRMATIONS_BEGIN.unicode_len();
    let ce_end: usize = ce + CONFIRMATIONS_END.unicode_len();
    assert(v@.subrange(ce_end as int, v@.len() as int) =~= v@.skip(ce_end as int));
    if !trim(string_of(&v, ce_end, v.len()).as_str()).as_str().is_empty() || cb_end > ce {
        return Err(PlanError::ContentAfterConfirmations);
    }
    let confirmations = parse_confirmations(string_of(&v, cb_end, ce).as_str())?;
    Ok(ParsedPlan { body_markdown: trim(body.as_str()), actions, confirmations })
}

/// Validates and parses the text of a plan file: exactly one actions block and
/// one confirmations block, the latter at the end, a valid manifest, bounded
/// counts, valid ids. The seal is not looked at. A text that was rendered for
/// a plan and sealed gives that plan.
pub fn parse(text: &str) -> (r: Result<ParsedPlan, PlanError>)
    ensures
        match r {
            Ok(p) => plan_of(text@) == Ok::<PlanModel, PlanErrorModel>(p@),
            Err(e) => plan_of(text@) == Err::<PlanModel, PlanErrorModel>(e@),
        },
        forall|body: Seq<char>, a: ActionsModel, items: Seq<ConfirmationModel>, h: Seq<char>|
            renders_whole(body, a, items) && is_hash(h) && byte_len(text@) <= PLAN_MAX_BYTES
                && text@ == #[trigger] with_seal(unsealed_plan(body, a, items), h) ==> plan_of(
                text@,
            ) == Ok::<PlanModel, PlanErrorModel>(
                PlanModel { body_markdown: trimmed(body), actions: a, confirmations: items },
            ),
{
    let r = parse_text(text);
    proof {
        assert forall|
            body: Seq<char>,
            a: ActionsModel,
            items: Seq<ConfirmationModel>,
            h: Seq<char>,
        |
            renders_whole(body, a, items) && is_hash(h) && byte_len(text@) <= PLAN_MAX_BYTES
                && text@ == #[trigger] with_seal(unsealed_plan(body, a, items), h) implies plan_of(
            text@,
        ) == Ok::<PlanModel, PlanErrorModel>(
            PlanModel { body_markdown: trimmed(body), actions: a, confirmations: items },
        ) by {
            lemma_manifest_in_sealed(body, a, items, h);
            law_sealed_plans_read_back(body, a, items, h);
        }
    }
    r
}

/// The JSON object of a patch action.
pub open spec fn patch_action_json(p: PatchActionModel) -> Seq<char> {
    "{\"id\":"@ + quoted(p.id) + ",\"path\":"@ + quoted(p.path) + ",\"description\":"@ + quoted(
        p.description,
    ) + "}"@
}

/// The JSON object of a command action.
pub open spec fn command_action_json(c: CommandActionModel) -> Seq<char> {
    "{\"id\":"@ + quoted(c.id) + ",\"argv\":"@ + string_array_text(c.argv)
        + ",\"description\":"@ + quoted(c.description) + "}"@
}

/// The JSON object of a manifest.
pub open spec fn actions_json(a: ActionsModel) -> Seq<char> {
    "{\"version\":1,\"patches\":"@ + array_text(
        a.patches.map_values(|p: PatchActionModel| patch_action_json(p)),
    ) + ",\"commands\":"@ + array_text(
        a.commands.map_values(|c: CommandActionModel| command_action_json(c)),
    ) + "}"@
}

impl PlanPatchAction {
    fn to_json(&self) -> (r: String)
        ensures
            r@ == patch_action_json(self@),
    {
        let mut out = "{\"id\":".to_owned();
        out.append(quote(self.id.as_str()).as_str());
        out.append(",\"path\":");
        out.append(quote(self.path.as_str()).as_str());
        out.append(",\"description\":");
        out.append(quote(self.description.as_str()).as_str());
        out.append("}");
        out
    }
}

impl PlanCommandAction {
    fn to_json(&self) -> (r: String)
        ensures
            r@ == command_action_json(self@),
    {
        let mut out = "{\"id\":".to_owned();
        out.append(quote(self.id.as_str()).as_str());
        out.append(",\"argv\":");
        out.append(write_string_array(&self.argv).as_str());
        out.append(",\"description\":");
        out.append(quote(self.description.as_str()).as_str());
        out.append("}");
        out
    }
}

impl PlanActions {
    /// Writes the manifest as JSON.
    pub fn to_json(&self) -> (r: String)
        ensures
            r@ == actions_json(self@),
    {
        let mut patches: Vec<String> = Vec::new();
        let mut i: usize = 0;
        while i < self.patches.len()
            invariant
                i <= self.patches@.len(),
                patches@.len() == i,
                forall|k: int|
                    0 <= k < i ==> (#[trigger] patches@[k])@ == patch_action_json(
                        self.patches@[k]@,
                    ),
            decreases self.patches@.len() - i,
        {
            patches.push(self.patches[i].to_json());
            i = i + 1;
        }
        assert(views(patches@) =~= deep(self.patches@).map_values(
            |p: PatchActionModel| patch_action_json(p),
        ));
        let mut commands: Vec<String> = Vec::new();
        let mut i: usize = 0;
        while i < self.commands.len()
            invariant
                i <= self.commands@.len(),
                commands@.len() == i,
                forall|k: int|
                    0 <= k < i ==> (#[trigger] commands@[k])@ == command_action_json(
                        self.commands@[k]@,
                    ),
            decreases self.commands@.len() - i,
        {
            commands.push(self.commands[i].to_json());
            i = i + 1;
        }
        assert(views(commands@) =~= deep(self.commands@).map_values(
            |c: CommandActionModel| command_action_json(c),
        ));
        let mut out = "{\"version\":1,\"patches\":".to_owned();
        out.append(write_array(&patches).as_str());
        out.append(",\"commands\":");
        out.append(write_array(&commands).as_str());
        out.append("}");
        out
    }
}

/// The checkbox line of an item.
pub open spec fn checkbox_line(c: ConfirmationModel) -> Seq<char> {
    "- ["@ + (if c.checked {
        "x"@
    } else {
        " "@
    }) + "] "@ + CONFIRM_PREFIX@ + " "@ + c.id + " — "@ + c.description + "\n"@
}

/// The checkbox lines of a list of items.
pub open spec fn checkbox_lines(items: Seq<ConfirmationModel>) -> Seq<char>
    decreases items.len(),
{
    if items.len() == 0 {
        Seq::empty()
    } else {
        checkbox_lines(items.drop_last()) + checkbox_line(items.last())
    }
}

/// A plan file up to its seal line.
pub open spec fn plan_head(
    body: Seq<char>,
    a: ActionsModel,
    items: Seq<ConfirmationModel>,
) -> Seq<char> {
    trimmed(body) + "\n\n"@ + ACTIONS_BEGIN@ + "\n\n## Attini approved actions\n\n```json\n"@
        + actions_json(a) + "\n```\n\n"@ + ACTIONS_END@ + "\n\n"@ + CONFIRMATIONS_BEGIN@
        + "\n\n## Attini confirmations\n\n"@ + checkbox_lines(items) + "\n"@
}

/// The hash that stands in a plan file before it is sealed.
pub open spec fn blank_hash() -> Seq<char> {
    Seq::new(64, |i: int| '0')
}

/// A plan file with a seal line that holds no hash yet.
pub open spec fn unsealed_plan(
    body: Seq<char>,
    a: ActionsModel,
    items: Seq<ConfirmationModel>,
) -> Seq<char> {
    plan_head(body, a, items) + (seal_line(blank_hash()) + "\n"@ + CONFIRMATIONS_END@)
}

fn render_checkbox(c: &Confirmation) -> (r: String)
    ensures
        r@ == checkbox_line(c@),
{
    let mut out = "- [".to_owned();
    if c.checked {
        out.append("x");
    } else {
        out.append(" ");
    }
    out.append("] ");
    out.append(CONFIRM_PREFIX);
    out.append(" ");
    out.append(c.id.as_str());
    out.append(" — ");
    out.append(c.description.as_str());
    out.append("\n");
    out
}

fn render_checkboxes(items: &Vec<Confirmation>) -> (r: String)
    ensures
        r@ == checkbox_lines(deep(items@)),
{
    let mut out = String::new();
    let ghost all = deep(items@);
    let mut i: usize = 0;
    while i < items.len()
        invariant
            i <= items@.len(),
            all == deep(items@),
            out@ == checkbox_lines(all.take(i as int)),
        decreases items@.len() - i,
    {
        proof {
            assert(all.take(i + 1).drop_last() =~= all.take(i as int));
            assert(all.take(i + 1).last() == items@[i as int]@);
        }
        out.append(render_checkbox(&items[i]).as_str());
        i = i + 1;
    }
    assert(all.take(all.len() as int) =~= all);
    out
}

fn blank() -> (r: String)
    ensures
        r@ == blank_hash(),
{
    let mut out = String::new();
    let mut i: usize = 0;
    while i < 64
        invariant
            i <= 64,
            out@ == blank_hash().take(i as int),
        decreases 64 - i,
    {
        out.push('0');
        assert(blank_hash().take(i + 1) =~= blank_hash().take(i as int).push('0'));
        i = i + 1;
    }
    assert(blank_hash().take(64) =~= blank_hash());
    out
}

/// Renders a plan file with a seal line that holds no hash yet.
fn render_unsealed(body: &str, actions: &PlanActions, confirmations: &Vec<Confirmation>) -> (r:
    String)
    ensures
        r@ == unsealed_plan(body@, actions@, deep(confirmations@)),
{
    let mut out = trim(body);
    out.append("\n\n");
    out.append(ACTIONS_BEGIN);
    out.append("\n\n## Attini approved actions\n\n```json\n");
    out.append(actions.to_json().as_str());
    out.append("\n```\n\n");
    out.append(ACTIONS_END);
    out.append("\n\n");
    out.append(CONFIRMATIONS_BEGIN);
    out.append("\n\n## Attini confirmations\n\n");
    out.append(render_checkboxes(confirmations).as_str());
    out.append("\n");
    let mut tail = SEAL_PREFIX.to_owned();
    tail.append(" ");
    tail.append(blank().as_str());
    tail.append(" ");
    tail.append(SEAL_SUFFIX);
    tail.append("\n");
    tail.append(CONFIRMATIONS_END);
    out.append(tail.as_str());
    out
}

/// A rendered plan file has a seal line.
pub(super) proof fn lemma_rendered_has_seal_line(
    body: Seq<char>,
    a: ActionsModel,
    items: Seq<ConfirmationModel>,
)
    ensures
        first_seal(lines_of(unsealed_plan(body, a, items))) is Some,
{
    reveal_strlit("\n");
    let head = plan_head(body, a, items);
    let line = seal_line(blank_hash()) + "\n"@;
    let tail = line + CONFIRMATIONS_END@;
    let all = lines_of(unsealed_plan(body, a, items));
    lemma_seal_line_stores(blank_hash());
    assert(head.last() == '\n');
    lemma_lines_of_add(head, tail);
    lemma_lines_of_add(line, CONFIRMATIONS_END@);
    lemma_lines_of_concatenated(seq![line]);
    assert(concatenated(seq![line]) =~= line) by {
        assert(seq![line].drop_last() =~= Seq::empty());
        assert(concatenated(Seq::<Seq<char>>::empty()) =~= Seq::empty());
    }
    let k = lines_of(head).len() as int;
    assert(all[k] == line);
    let f = |i: int|
        if is_seal(all[i]) {
            Some(i)
        } else {
            None
        };
    if first_some(all.len() as int, f) is None {
        lemma_none_before(all.len() as int, f, k);
    }
}

/// Renders a plan file and seals it: the seal line holds the hash of
/// everything else. What it renders passes `verify_seal`, unless a line of it
/// hides a seal behind white space.
pub fn render_sealed(
    body: &str,
    actions: &PlanActions,
    confirmations: &Vec<Confirmation>,
) -> (r: Result<String, PlanError>)
    ensures
        ({
            let text = unsealed_plan(body@, actions@, deep(confirmations@));
            match r {
                Ok(s) => actions_error(actions@) is None && s@ == with_seal(text, seal_of(text))
                    && is_hash(seal_of(text)) && (no_hidden_seal(text) ==> sealed(s@))
                    && (renders_whole(body@, actions@, deep(confirmations@)) ==> sealed(s@)),
                Err(e) => actions_error(actions@) == Some(e@),
            }
        }),
{
    actions.validate()?;
    let unsealed = render_unsealed(body, actions, confirmations);
    let hash = seal_of_text(unsealed.as_str());
    proof {
        lemma_rendered_has_seal_line(body@, actions@, deep(confirmations@));
        if no_hidden_seal(unsealed@) {
            law_with_seal_is_sealed(unsealed@);
        }
        if renders_whole(body@, actions@, deep(confirmations@)) {
            law_rendered_plans_are_sealed(body@, actions@, deep(confirmations@));
        }
    }
    Ok(replace_or_insert_seal(unsealed.as_str(), hash.as_str()))
}

} // verus!
