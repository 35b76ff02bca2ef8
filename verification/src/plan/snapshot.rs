//! Snapshots of approved plans.
use vstd::prelude::*;
use vstd::string::*;

use super::file::{actions_json, actions_of_text, parse_actions_json};
use super::{
    ActionsModel, ApprovedPlan, Confirmation, ConfirmationModel, PlanActions, PlanError,
    PlanErrorModel, PLAN_FORMAT_VERSION, PLAN_SNAPSHOT_VERSION,
};
use super::readback::{law_snapshots_read_back, lemma_snapshot_actions_at, storable};
use crate::json::value::faithful;
use crate::json::{
    array_text, boolean, elements, indices, lemma_read_list_step, member, parsed, quote, quoted,
    read_list, required, string, unsigned, write_array, JsonDoc, NodeModel,
};
use crate::model::{deep, lemma_deep_push};
use crate::text::{decimal, decimal_of, views};

verus! {

/// What is stored of a plan when it is run.
#[derive(Debug, Clone, PartialEq, Eq)]
pub struct PlanSnapshot {
    pub snapshot_version: u64,
    pub plan_format_version: u64,
    pub plan_sha256: String,
    pub canonical_path: String,
    pub body_markdown: String,
    pub actions: PlanActions,
    pub confirmations: Vec<Confirmation>,
}

/// A [`PlanSnapshot`] as a mathematical value.
#[verifier::ext_equal]
pub struct SnapshotModel {
    pub snapshot_version: u64,
    pub plan_format_version: u64,
    pub plan_sha256: Seq<char>,
    pub canonical_path: Seq<char>,
    pub body_markdown: Seq<char>,
    pub actions: ActionsModel,
    pub confirmations: Seq<ConfirmationModel>,
}

impl View for PlanSnapshot {
    type V = SnapshotModel;

    open spec fn view(&self) -> SnapshotModel {
        SnapshotModel {
            snapshot_version: self.snapshot_version,
            plan_format_version: self.plan_format_version,
            plan_sha256: self.plan_sha256@,
            canonical_path: self.canonical_path@,
            body_markdown: self.body_markdown@,
            actions: self.actions@,
            confirmations: deep(self.confirmations@),
        }
    }
}

/// A truth value as JSON.
pub open spec fn bool_text(b: bool) -> Seq<char> {
    if b {
        "true"@
    } else {
        "false"@
    }
}

/// The JSON object of a confirmation item.
pub open spec fn confirmation_json(c: ConfirmationModel) -> Seq<char> {
    "{\"id\":"@ + quoted(c.id) + ",\"description\":"@ + quoted(c.description) + ",\"checked\":"@
        + bool_text(c.checked) + "}"@
}

/// The JSON object of a snapshot.
pub open spec fn snapshot_json(s: SnapshotModel) -> Seq<char> {
    "{\"snapshot_version\":"@ + decimal(s.snapshot_version as nat) + ",\"plan_format_version\":"@
        + decimal(s.plan_format_version as nat) + ",\"plan_sha256\":"@ + quoted(s.plan_sha256)
        + ",\"canonical_path\":"@ + quoted(s.canonical_path) + ",\"body_markdown\":"@ + quoted(
        s.body_markdown,
    ) + ",\"actions\":"@ + actions_json(s.actions) + ",\"confirmations\":"@ + array_text(
        s.confirmations.map_values(|c: ConfirmationModel| confirmation_json(c)),
    ) + "}"@
}

impl Confirmation {
    fn to_json(&self) -> (r: String)
        ensures
            r@ == confirmation_json(self@),
    {
        let mut out = "{\"id\":".to_owned();
        out.append(quote(self.id.as_str()).as_str());
        out.append(",\"description\":");
        out.append(quote(self.description.as_str()).as_str());
        out.append(",\"checked\":");
        if self.checked {
            out.append("true");
        } else {
            out.append("false");
        }
        out.append("}");
        out
    }
}

impl PlanSnapshot {
    /// Writes the snapshot as JSON.
    pub fn to_json(&self) -> (r: String)
        ensures
            r@ == snapshot_json(self@),
    {
        let mut items: Vec<String> = Vec::new();
        let mut i: usize = 0;
        while i < self.confirmations.len()
            invariant
                i <= self.confirmations@.len(),
                items@.len() == i,
                forall|k: int|
                    0 <= k < i ==> (#[trigger] items@[k])@ == confirmation_json(
                        self.confirmations@[k]@,
                    ),
            decreases self.confirmations@.len() - i,
        {
            items.push(self.confirmations[i].to_json());
            i = i + 1;
        }
        assert(views(items@) =~= deep(self.confirmations@).map_values(
            |c: ConfirmationModel| confirmation_json(c),
        ));
        let mut out = "{\"snapshot_version\":".to_owned();
        out.append(decimal_of(self.snapshot_version).as_str());
        out.append(",\"plan_format_version\":");
        out.append(decimal_of(self.plan_format_version).as_str());
        out.append(",\"plan_sha256\":");
        out.append(quote(self.plan_sha256.as_str()).as_str());
        out.append(",\"canonical_path\":");
        out.append(quote(self.canonical_path.as_str()).as_str());
        out.append(",\"body_markdown\":");
        out.append(quote(self.body_markdown.as_str()).as_str());
        out.append(",\"actions\":");
        out.append(self.actions.to_json().as_str());
        out.append(",\"confirmations\":");
        out.append(write_array(&items).as_str());
        out.append("}");
        out
    }

    /// The authorization that the snapshot stands for.
    pub fn into_approved_plan(self) -> (r: ApprovedPlan)
        ensures
            r.plan_sha256@ == self@.plan_sha256,
            r.actions@ == self@.actions,
            r.snapshot_path@.len() == 0,
    {
        ApprovedPlan {
            plan_sha256: self.plan_sha256,
            actions: self.actions,
            snapshot_path: String::new(),
        }
    }
}

/// A number that a snapshot must have.
pub open spec fn number_of(doc: Seq<NodeModel>, i: int, name: Seq<char>) -> Result<
    u64,
    PlanErrorModel,
> {
    match required(doc, i, name) {
        Err(e) => Err(PlanErrorModel::ActionsJsonParse(e)),
        Ok(j) => match unsigned(doc, j, u64::MAX as int) {
            Err(e) => Err(PlanErrorModel::ActionsJsonParse(e)),
            Ok(n) => Ok(n as u64),
        },
    }
}

/// A string that a snapshot must have.
pub open spec fn text_of(doc: Seq<NodeModel>, i: int, name: Seq<char>) -> Result<
    Seq<char>,
    PlanErrorModel,
> {
    match required(doc, i, name) {
        Err(e) => Err(PlanErrorModel::ActionsJsonParse(e)),
        Ok(j) => match string(doc, j) {
            Err(e) => Err(PlanErrorModel::ActionsJsonParse(e)),
            Ok(s) => Ok(s),
        },
    }
}

/// A truth value that a snapshot must have.
pub open spec fn flag_of(doc: Seq<NodeModel>, i: int, name: Seq<char>) -> Result<
    bool,
    PlanErrorModel,
> {
    match required(doc, i, name) {
        Err(e) => Err(PlanErrorModel::ActionsJsonParse(e)),
        Ok(j) => match boolean(doc, j) {
            Err(e) => Err(PlanErrorModel::ActionsJsonParse(e)),
            Ok(b) => Ok(b),
        },
    }
}

/// One confirmation item of a snapshot.
pub open spec fn confirmation_of(doc: Seq<NodeModel>, i: int) -> Result<
    ConfirmationModel,
    PlanErrorModel,
> {
    match text_of(doc, i, "id"@) {
        Err(e) => Err(e),
        Ok(id) => match text_of(doc, i, "description"@) {
            Err(e) => Err(e),
            Ok(description) => match flag_of(doc, i, "checked"@) {
                Err(e) => Err(e),
                Ok(checked) => Ok(ConfirmationModel { id, description, checked }),
            },
        },
    }
}

/// The confirmation items of a snapshot; none where the member is absent.
pub open spec fn confirmations_of(doc: Seq<NodeModel>) -> Result<
    Seq<ConfirmationModel>,
    PlanErrorModel,
> {
    match member(doc, 0, "confirmations"@) {
        Err(e) => Err(PlanErrorModel::ActionsJsonParse(e)),
        Ok(None) => Ok(Seq::empty()),
        Ok(Some(j)) => match elements(doc, j) {
            Err(e) => Err(PlanErrorModel::ActionsJsonParse(e)),
            Ok(at) => read_list(at, |k: int| confirmation_of(doc, k)),
        },
    }
}

/// The versions of a snapshot, both of which must be supported.
pub open spec fn versions_of(doc: Seq<NodeModel>) -> Result<(u64, u64), PlanErrorModel> {
    match number_of(doc, 0, "snapshot_version"@) {
        Err(e) => Err(e),
        Ok(s) => match number_of(doc, 0, "plan_format_version"@) {
            Err(e) => Err(e),
            Ok(p) => if s != PLAN_SNAPSHOT_VERSION {
                Err(PlanErrorModel::UnsupportedVersion(s))
            } else if p != PLAN_FORMAT_VERSION {
                Err(PlanErrorModel::UnsupportedVersion(p))
            } else {
                Ok((s, p))
            },
        },
    }
}

/// The manifest of a snapshot.
pub open spec fn snapshot_actions_of(doc: Seq<NodeModel>) -> Result<ActionsModel, PlanErrorModel> {
    match required(doc, 0, "actions"@) {
        Err(e) => Err(PlanErrorModel::ActionsJsonParse(e)),
        Ok(j) => actions_of_text(doc[j].raw),
    }
}

/// Whether a document is read as far as its manifest.
pub open spec fn reads_actions(doc: Seq<NodeModel>) -> bool {
    &&& versions_of(doc) is Ok
    &&& text_of(doc, 0, "plan_sha256"@) is Ok
    &&& text_of(doc, 0, "canonical_path"@) is Ok
    &&& text_of(doc, 0, "body_markdown"@) is Ok
    &&& required(doc, 0, "actions"@) is Ok
}

/// The text of the manifest in a document that has one.
pub open spec fn actions_text_in(doc: Seq<NodeModel>) -> Seq<char> {
    doc[required(doc, 0, "actions"@)->Ok_0].raw
}

/// The snapshot that a document holds.
pub open spec fn snapshot_of(doc: Seq<NodeModel>) -> Result<SnapshotModel, PlanErrorModel> {
    match versions_of(doc) {
        Err(e) => Err(e),
        Ok((snapshot_version, plan_format_version)) => match text_of(doc, 0, "plan_sha256"@) {
            Err(e) => Err(e),
            Ok(plan_sha256) => match text_of(doc, 0, "canonical_path"@) {
                Err(e) => Err(e),
                Ok(canonical_path) => match text_of(doc, 0, "body_markdown"@) {
                    Err(e) => Err(e),
                    Ok(body_markdown) => match snapshot_actions_of(doc) {
                        Err(e) => Err(e),
                        Ok(actions) => match confirmations_of(doc) {
                            Err(e) => Err(e),
                            Ok(confirmations) => Ok(
                                SnapshotModel {
                                    snapshot_version,
                                    plan_format_version,
                                    plan_sha256,
                                    canonical_path,
                                    body_markdown,
                                    actions,
                                    confirmations,
                                },
                            ),
                        },
                    },
                },
            },
        },
    }
}

/// The snapshot that a JSON text holds.
pub open spec fn snapshot_of_text(text: Seq<char>) -> Result<SnapshotModel, PlanErrorModel> {
    match parsed(text) {
        Err(e) => Err(PlanErrorModel::ActionsJsonParse(e)),
        Ok(doc) => snapshot_of(doc),
    }
}

fn read_u64(doc: &JsonDoc, name: &str) -> (r: Result<u64, PlanError>)
    requires
        doc.wf(),
    ensures
        match r {
            Ok(n) => number_of(doc@, 0, name@) == Ok::<u64, PlanErrorModel>(n),
            Err(e) => number_of(doc@, 0, name@) == Err::<u64, PlanErrorModel>(e@),
        },
{
    match doc.required(0, name) {
        Err(e) => Err(PlanError::ActionsJsonParse(e.message)),
        Ok(j) => match doc.unsigned(j, u64::MAX) {
            Err(e) => Err(PlanError::ActionsJsonParse(e.message)),
            Ok(n) => Ok(n),
        },
    }
}

fn read_member_string(doc: &JsonDoc, i: usize, name: &str) -> (r: Result<String, PlanError>)
    requires
        doc.wf(),
        i < doc@.len(),
    ensures
        match r {
            Ok(s) => text_of(doc@, i as int, name@) == Ok::<Seq<char>, PlanErrorModel>(s@),
            Err(e) => text_of(doc@, i as int, name@) == Err::<Seq<char>, PlanErrorModel>(e@),
        },
{
    match doc.required(i, name) {
        Err(e) => Err(PlanError::ActionsJsonParse(e.message)),
        Ok(j) => match doc.string(j) {
            Err(e) => Err(PlanError::ActionsJsonParse(e.message)),
            Ok(s) => Ok(s),
        },
    }
}

fn read_confirmation(doc: &JsonDoc, i: usize) -> (r: Result<Confirmation, PlanError>)
    requires
        doc.wf(),
        i < doc@.len(),
    ensures
        match r {
            Ok(c) => confirmation_of(doc@, i as int) == Ok::<ConfirmationModel, PlanErrorModel>(c@),
            Err(e) => confirmation_of(doc@, i as int) == Err::<ConfirmationModel, PlanErrorModel>(
                e@,
            ),
        },
{
    let id = read_member_string(doc, i, "id")?;
    let description = read_member_string(doc, i, "description")?;
    let j: usize = match doc.required(i, "checked") {
        Err(e) => return Err(PlanError::ActionsJsonParse(e.message)),
        Ok(j) => j,
    };
    let checked = match doc.boolean(j) {
        Err(e) => return Err(PlanError::ActionsJsonParse(e.message)),
        Ok(b) => b,
    };
    Ok(Confirmation { id, description, checked })
}

fn read_confirmations(doc: &JsonDoc) -> (r: Result<Vec<Confirmation>, PlanError>)
    requires
        doc.wf(),
    ensures
        match r {
            Ok(v) => confirmations_of(doc@) == Ok::<Seq<ConfirmationModel>, PlanErrorModel>(
                deep(v@),
            ),
            Err(e) => confirmations_of(doc@) == Err::<Seq<ConfirmationModel>, PlanErrorModel>(e@),
        },
{
    let mut out: Vec<Confirmation> = Vec::new();
    assert(deep(out@) =~= Seq::empty());
    let j: usize = match doc.member(0, "confirmations") {
        Err(e) => return Err(PlanError::ActionsJsonParse(e.message)),
        Ok(None) => return Ok(out),
        Ok(Some(j)) => j,
    };
    let at = match doc.elements(j) {
        Err(e) => return Err(PlanError::ActionsJsonParse(e.message)),
        Ok(at) => at,
    };
    let ghost all = indices(at@);
    let ghost read = |k: int| confirmation_of(doc@, k);
    let mut k: usize = 0;
    assert(all.take(0) =~= Seq::empty());
    while k < at.len()
        invariant
            k <= at@.len(),
            doc.wf(),
            all == indices(at@),
            forall|j: int| 0 <= j < at@.len() ==> #[trigger] at@[j] < doc@.len(),
            read == (|k: int| confirmation_of(doc@, k)),
            confirmations_of(doc@) == read_list(all, read),
            read_list(all.take(k as int), read) == Ok::<Seq<ConfirmationModel>, PlanErrorModel>(
                deep(out@),
            ),
        decreases at@.len() - k,
    {
        proof {
            lemma_read_list_step(all, read, k as int);
        }
        let ghost before = out@;
        let c = read_confirmation(doc, at[k])?;
        out.push(c);
        proof {
            lemma_deep_push(before, c);
        }
        k = k + 1;
    }
    assert(all.take(all.len() as int) =~= all);
    Ok(out)
}

impl PlanSnapshot {
    /// Reads the snapshot that a document holds.
    pub fn from_json(doc: &JsonDoc) -> (r: Result<PlanSnapshot, PlanError>)
        requires
            doc.wf(),
        ensures
            match r {
                Ok(s) => snapshot_of(doc@) == Ok::<SnapshotModel, PlanErrorModel>(s@),
                Err(e) => snapshot_of(doc@) == Err::<SnapshotModel, PlanErrorModel>(e@),
            },
            reads_actions(doc@) ==> faithful(actions_text_in(doc@)),
    {
        let snapshot_version = read_u64(doc, "snapshot_version")?;
        let plan_format_version = read_u64(doc, "plan_format_version")?;
        if snapshot_version != PLAN_SNAPSHOT_VERSION {
            return Err(PlanError::UnsupportedVersion(snapshot_version));
        }
        if plan_format_version != PLAN_FORMAT_VERSION {
            return Err(PlanError::UnsupportedVersion(plan_format_version));
        }
        let plan_sha256 = read_member_string(doc, 0, "plan_sha256")?;
        let canonical_path = read_member_string(doc, 0, "canonical_path")?;
        let body_markdown = read_member_string(doc, 0, "body_markdown")?;
        let j: usize = match doc.required(0, "actions") {
            Err(e) => return Err(PlanError::ActionsJsonParse(e.message)),
            Ok(j) => j,
        };
        let actions = parse_actions_json(doc.nodes[j].raw.as_str())?;
        let confirmations = read_confirmations(doc)?;
        Ok(
            PlanSnapshot {
                snapshot_version,
                plan_format_version,
                plan_sha256,
                canonical_path,
                body_markdown,
                actions,
                confirmations,
            },
        )
    }
}

/// Reads the snapshot that a JSON text holds. A text that was written for a
/// snapshot gives that snapshot.
pub fn parse_snapshot(text: &str) -> (r: Result<PlanSnapshot, PlanError>)
    ensures
        match r {
            Ok(s) => snapshot_of_text(text@) == Ok::<SnapshotModel, PlanErrorModel>(s@),
            Err(e) => snapshot_of_text(text@) == Err::<SnapshotModel, PlanErrorModel>(e@),
        },
        forall|s: SnapshotModel|
            storable(s) && text@ == #[trigger] snapshot_json(s) ==> snapshot_of_text(text@) == Ok::<
                SnapshotModel,
                PlanErrorModel,
            >(s),
{
    let doc = match JsonDoc::parse(text) {
        Err(e) => {
            proof {
                assert forall|s: SnapshotModel| storable(s) && text@ == #[trigger] snapshot_json(
                    s,
                ) implies false by {
                    lemma_snapshot_actions_at(s);
                }
            }
            return Err(PlanError::ActionsJsonParse(e.message));
        },
        Ok(doc) => doc,
    };
    let r = PlanSnapshot::from_json(&doc);
    proof {
        assert forall|s: SnapshotModel| storable(s) && text@ == #[trigger] snapshot_json(
            s,
        ) implies snapshot_of_text(text@) == Ok::<SnapshotModel, PlanErrorModel>(s) by {
            lemma_snapshot_actions_at(s);
            law_snapshots_read_back(s);
        }
    }
    r
}

} // verus!
