//! Plan artifacts: parsing, rendering, validation and sealing.
//!
//! A plan is a UTF-8 Markdown file with a fixed layout:
//!
//! ```text
//! <natural-language Markdown body>
//!
//! <!-- ATTINI-ACTIONS:BEGIN -->
//! <fenced JSON actions block>
//! <!-- ATTINI-ACTIONS:END -->
//!
//! <!-- ATTINI-CONFIRMATIONS:BEGIN -->
//! <flat confirmation checkbox list>
//! <!-- ATTINI-CONFIRMATIONS-SHA256: <64hex> -->
//! <!-- ATTINI-CONFIRMATIONS:END -->
//! ```
//!
//! The seal is a SHA-256 over the bytes of the file without its seal line,
//! so that an edit breaks the seal until the plan is approved again.
use vstd::prelude::*;
use vstd::string::*;

pub mod approval;
pub mod calendar;
pub mod file;
pub mod plain;
pub mod readback;
pub mod roundtrip;
pub mod seal;
pub mod snapshot;

pub use calendar::plan_timestamp_suffix;
pub use file::{parse, render_sealed};
pub use seal::{seal_hash, verify_seal};
pub use snapshot::{parse_snapshot, PlanSnapshot};

use crate::model::{deep, first_some, lemma_first_at, lemma_first_none};
use crate::sansio::deepseek::clone_texts;
use crate::text::{
    cat, cat3, chars_of, debug_of, debug_text, decimal, decimal_of, join, joined, list_contains,
    same, same_list, trim, trimmed, views,
};

verus! {

/// Maximum file size of a plan artifact (bytes).
pub const PLAN_MAX_BYTES: usize = 64 * 1024;

/// Maximum number of confirmation items (including `all-ok`).
pub const MAX_CONFIRMATIONS: usize = 32;

/// Maximum number of patch or command actions.
pub const MAX_ACTIONS: usize = 128;

/// Reserved confirmation id.
pub const RESERVED_CONFIRMATION_ID: &'static str = "all-ok";

/// Description rendered for the reserved confirmation.
pub const ALL_OK_DESCRIPTION: &'static str = "Approve all confirmation items";

/// Initial plan format version.
pub const PLAN_FORMAT_VERSION: u64 = 1;

/// Version of the serialised snapshot payload.
pub const PLAN_SNAPSHOT_VERSION: u64 = 1;

/// A sealed plan approved for execution in one invocation.
#[derive(Debug, PartialEq, Eq)]
pub struct ApprovedPlan {
    pub plan_sha256: String,
    pub actions: PlanActions,
    /// Absolute path of the snapshot that this authorization comes from.
    pub snapshot_path: String,
}

/// An [`ApprovedPlan`] as a mathematical value.
#[verifier::ext_equal]
pub struct ApprovedModel {
    pub plan_sha256: Seq<char>,
    pub actions: ActionsModel,
    pub snapshot_path: Seq<char>,
}

impl View for ApprovedPlan {
    type V = ApprovedModel;

    open spec fn view(&self) -> ApprovedModel {
        ApprovedModel {
            plan_sha256: self.plan_sha256@,
            actions: self.actions@,
            snapshot_path: self.snapshot_path@,
        }
    }
}

impl Clone for ApprovedPlan {
    fn clone(&self) -> (r: Self)
        ensures
            r@ == self@,
    {
        ApprovedPlan {
            plan_sha256: self.plan_sha256.clone(),
            actions: self.actions.clone(),
            snapshot_path: self.snapshot_path.clone(),
        }
    }
}

/// One approved patch action of a plan.
#[derive(Debug, Clone, PartialEq, Eq)]
pub struct PlanPatchAction {
    pub id: String,
    /// Exact workspace-relative path.
    pub path: String,
    pub description: String,
}

/// A [`PlanPatchAction`] as a mathematical value.
#[verifier::ext_equal]
pub struct PatchActionModel {
    pub id: Seq<char>,
    pub path: Seq<char>,
    pub description: Seq<char>,
}

impl View for PlanPatchAction {
    type V = PatchActionModel;

    open spec fn view(&self) -> PatchActionModel {
        PatchActionModel { id: self.id@, path: self.path@, description: self.description@ }
    }
}

/// One approved command action of a plan.
#[derive(Debug, Clone, PartialEq, Eq)]
pub struct PlanCommandAction {
    pub id: String,
    /// Exact argv, matched element for element.
    pub argv: Vec<String>,
    pub description: String,
}

/// A [`PlanCommandAction`] as a mathematical value.
#[verifier::ext_equal]
pub struct CommandActionModel {
    pub id: Seq<char>,
    pub argv: Seq<Seq<char>>,
    pub description: Seq<char>,
}

impl View for PlanCommandAction {
    type V = CommandActionModel;

    open spec fn view(&self) -> CommandActionModel {
        CommandActionModel {
            id: self.id@,
            argv: views(self.argv@),
            description: self.description@,
        }
    }
}

/// The machine-checkable action manifest of a plan.
#[derive(Debug, PartialEq, Eq)]
pub struct PlanActions {
    pub patches: Vec<PlanPatchAction>,
    pub commands: Vec<PlanCommandAction>,
}

/// [`PlanActions`] as a mathematical value.
#[verifier::ext_equal]
pub struct ActionsModel {
    pub patches: Seq<PatchActionModel>,
    pub commands: Seq<CommandActionModel>,
}

impl View for PlanActions {
    type V = ActionsModel;

    open spec fn view(&self) -> ActionsModel {
        ActionsModel { patches: deep(self.patches@), commands: deep(self.commands@) }
    }
}

impl Clone for PlanActions {
    fn clone(&self) -> (r: Self)
        ensures
            r@ == self@,
    {
        let mut patches: Vec<PlanPatchAction> = Vec::new();
        let mut i: usize = 0;
        while i < self.patches.len()
            invariant
                i <= self.patches@.len(),
                patches@.len() == i,
                forall|k: int| 0 <= k < i ==> (#[trigger] patches@[k])@ == self.patches@[k]@,
            decreases self.patches@.len() - i,
        {
            let p = &self.patches[i];
            patches.push(
                PlanPatchAction {
                    id: p.id.clone(),
                    path: p.path.clone(),
                    description: p.description.clone(),
                },
            );
            i = i + 1;
        }
        let mut commands: Vec<PlanCommandAction> = Vec::new();
        let mut i: usize = 0;
        while i < self.commands.len()
            invariant
                i <= self.commands@.len(),
                commands@.len() == i,
                forall|k: int| 0 <= k < i ==> (#[trigger] commands@[k])@ == self.commands@[k]@,
            decreases self.commands@.len() - i,
        {
            let c = &self.commands[i];
            commands.push(
                PlanCommandAction {
                    id: c.id.clone(),
                    argv: clone_texts(&c.argv),
                    description: c.description.clone(),
                },
            );
            i = i + 1;
        }
        let r = PlanActions { patches, commands };
        assert(r@ =~= self@);
        r
    }
}

impl Default for PlanActions {
    /// No action at all.
    fn default() -> (r: Self)
        ensures
            r@ == (ActionsModel { patches: Seq::empty(), commands: Seq::empty() }),
    {
        let r = PlanActions { patches: Vec::new(), commands: Vec::new() };
        assert(r@ =~= ActionsModel { patches: Seq::empty(), commands: Seq::empty() });
        r
    }
}

/// The first patch action for a path.
pub open spec fn patch_for(patches: Seq<PatchActionModel>, path: Seq<char>) -> Option<int> {
    first_some(
        patches.len() as int,
        |i: int|
            if patches[i].path == path {
                Some(i)
            } else {
                None
            },
    )
}

/// The first command action for an argv.
pub open spec fn command_for(commands: Seq<CommandActionModel>, argv: Seq<Seq<char>>) -> Option<
    int,
> {
    first_some(
        commands.len() as int,
        |i: int|
            if commands[i].argv == argv {
                Some(i)
            } else {
                None
            },
    )
}

/// What is wrong with one patch action, beside its path being taken.
pub open spec fn patch_action_error(a: ActionsModel, i: int) -> Option<PlanErrorModel> {
    let p = a.patches[i];
    if !valid_id(p.id) {
        Some(invalid_id("action id"@, p.id))
    } else if exists|j: int| 0 <= j < i && (#[trigger] a.patches[j]).id == p.id {
        Some(PlanErrorModel::DuplicateId(p.id))
    } else if p.path.len() == 0 {
        Some(PlanErrorModel::EmptyField("patch path"@))
    } else if trimmed(p.description).len() == 0 {
        Some(PlanErrorModel::EmptyField("action description"@))
    } else {
        None
    }
}

/// What is wrong with one command action, beside its argv being taken.
pub open spec fn command_action_error(a: ActionsModel, i: int) -> Option<PlanErrorModel> {
    let c = a.commands[i];
    if !valid_id(c.id) {
        Some(invalid_id("action id"@, c.id))
    } else if (exists|j: int| 0 <= j < a.patches.len() && (#[trigger] a.patches[j]).id == c.id) || (
    exists|j: int| 0 <= j < i && (#[trigger] a.commands[j]).id == c.id) {
        Some(PlanErrorModel::DuplicateId(c.id))
    } else if c.argv.len() == 0 {
        Some(PlanErrorModel::EmptyField("command argv"@))
    } else if trimmed(c.description).len() == 0 {
        Some(PlanErrorModel::EmptyField("action description"@))
    } else {
        None
    }
}

/// Whether an earlier patch action has the same path.
pub open spec fn patch_path_error(a: ActionsModel, i: int) -> Option<PlanErrorModel> {
    if exists|j: int| 0 <= j < i && (#[trigger] a.patches[j]).path == a.patches[i].path {
        Some(PlanErrorModel::DuplicatePatchPath(a.patches[i].path))
    } else {
        None
    }
}

/// Whether an earlier command action has the same argv.
pub open spec fn command_argv_error(a: ActionsModel, i: int) -> Option<PlanErrorModel> {
    if exists|j: int| 0 <= j < i && (#[trigger] a.commands[j]).argv == a.commands[i].argv {
        Some(PlanErrorModel::DuplicateCommandArgv(joined(a.commands[i].argv, " "@)))
    } else {
        None
    }
}

/// What is wrong with a manifest: too many actions of a kind, else the first
/// action that is wrong in itself, patches before commands, else the first
/// path or argv that is taken already.
pub open spec fn actions_error(a: ActionsModel) -> Option<PlanErrorModel> {
    if a.patches.len() > MAX_ACTIONS {
        Some(PlanErrorModel::TooManyActions { kind: "patch"@, count: a.patches.len() })
    } else if a.commands.len() > MAX_ACTIONS {
        Some(PlanErrorModel::TooManyActions { kind: "command"@, count: a.commands.len() })
    } else {
        match first_some(a.patches.len() as int, |i: int| patch_action_error(a, i)) {
            Some(e) => Some(e),
            None => match first_some(a.commands.len() as int, |i: int| command_action_error(a, i)) {
                Some(e) => Some(e),
                None => match first_some(a.patches.len() as int, |i: int| patch_path_error(a, i)) {
                    Some(e) => Some(e),
                    None => first_some(a.commands.len() as int, |i: int| command_argv_error(a, i)),
                },
            },
        }
    }
}

impl PlanActions {
    /// Looks up a patch action by exact path.
    pub fn patch_by_path(&self, path: &str) -> (r: Option<&PlanPatchAction>)
        ensures
            match r {
                Some(p) => exists|i: int|
                    0 <= i < self.patches@.len() && *p == #[trigger] self.patches@[i] && patch_for(
                        self@.patches,
                        path@,
                    ) == Some(i),
                None => patch_for(self@.patches, path@) is None,
            },
    {
        let ghost f = |i: int|
            if self@.patches[i].path == path@ {
                Some(i)
            } else {
                None
            };
        let mut i: usize = 0;
        while i < self.patches.len()
            invariant
                i <= self.patches@.len(),
                f == (|i: int|
                    if self@.patches[i].path == path@ {
                        Some(i)
                    } else {
                        None
                    }),
                forall|j: int| 0 <= j < i ==> #[trigger] f(j) is None,
            decreases self.patches@.len() - i,
        {
            assert(self@.patches[i as int] == self.patches@[i as int]@);
            if same(self.patches[i].path.as_str(), path) {
                proof {
                    lemma_first_at(self.patches@.len() as int, f, i as int);
                }
                return Some(&self.patches[i]);
            }
            i = i + 1;
        }
        proof {
            lemma_first_none(self.patches@.len() as int, f);
        }
        None
    }

    /// Looks up a command action by exact argv.
    pub fn command_by_argv(&self, argv: &Vec<String>) -> (r: Option<&PlanCommandAction>)
        ensures
            match r {
                Some(c) => exists|i: int|
                    0 <= i < self.commands@.len() && *c == #[trigger] self.commands@[i]
                        && command_for(self@.commands, views(argv@)) == Some(i),
                None => command_for(self@.commands, views(argv@)) is None,
            },
    {
        let ghost f = |i: int|
            if self@.commands[i].argv == views(argv@) {
                Some(i)
            } else {
                None
            };
        let mut i: usize = 0;
        while i < self.commands.len()
            invariant
                i <= self.commands@.len(),
                f == (|i: int|
                    if self@.commands[i].argv == views(argv@) {
                        Some(i)
                    } else {
                        None
                    }),
                forall|j: int| 0 <= j < i ==> #[trigger] f(j) is None,
            decreases self.commands@.len() - i,
        {
            assert(self@.commands[i as int] == self.commands@[i as int]@);
            if same_list(&self.commands[i].argv, argv) {
                proof {
                    lemma_first_at(self.commands@.len() as int, f, i as int);
                }
                return Some(&self.commands[i]);
            }
            i = i + 1;
        }
        proof {
            lemma_first_none(self.commands@.len() as int, f);
        }
        None
    }

    fn patch_id_before(&self, id: &str, n: usize) -> (r: bool)
        requires
            n <= self.patches@.len(),
        ensures
            r == (exists|j: int| 0 <= j < n && (#[trigger] self@.patches[j]).id == id@),
    {
        let mut j: usize = 0;
        while j < n
            invariant
                j <= n <= self.patches@.len(),
                forall|k: int| 0 <= k < j ==> (#[trigger] self@.patches[k]).id != id@,
            decreases n - j,
        {
            assert(self@.patches[j as int] == self.patches@[j as int]@);
            if same(self.patches[j].id.as_str(), id) {
                return true;
            }
            j = j + 1;
        }
        false
    }

    fn command_id_before(&self, id: &str, n: usize) -> (r: bool)
        requires
            n <= self.commands@.len(),
        ensures
            r == (exists|j: int| 0 <= j < n && (#[trigger] self@.commands[j]).id == id@),
    {
        let mut j: usize = 0;
        while j < n
            invariant
                j <= n <= self.commands@.len(),
                forall|k: int| 0 <= k < j ==> (#[trigger] self@.commands[k]).id != id@,
            decreases n - j,
        {
            assert(self@.commands[j as int] == self.commands@[j as int]@);
            if same(self.commands[j].id.as_str(), id) {
                return true;
            }
            j = j + 1;
        }
        false
    }

    fn check_patch(&self, i: usize) -> (r: Result<(), PlanError>)
        requires
            i < self.patches@.len(),
        ensures
            match r {
                Ok(_) => patch_action_error(self@, i as int) is None,
                Err(e) => patch_action_error(self@, i as int) == Some(e@),
            },
    {
        let action = &self.patches[i];
        assert(self@.patches[i as int] == action@);
        validate_id(action.id.as_str(), "action id")?;
        if self.patch_id_before(action.id.as_str(), i) {
            return Err(PlanError::DuplicateId(action.id.clone()));
        }
        if action.path.as_str().is_empty() {
            return Err(PlanError::EmptyField("patch path".to_owned()));
        }
        if trim(action.description.as_str()).as_str().is_empty() {
            return Err(PlanError::EmptyField("action description".to_owned()));
        }
        Ok(())
    }

    fn check_command(&self, i: usize) -> (r: Result<(), PlanError>)
        requires
            i < self.commands@.len(),
        ensures
            match r {
                Ok(_) => command_action_error(self@, i as int) is None,
                Err(e) => command_action_error(self@, i as int) == Some(e@),
            },
    {
        let action = &self.commands[i];
        assert(self@.commands[i as int] == action@);
        validate_id(action.id.as_str(), "action id")?;
        if self.patch_id_before(action.id.as_str(), self.patches.len()) || self.command_id_before(
            action.id.as_str(),
            i,
        ) {
            return Err(PlanError::DuplicateId(action.id.clone()));
        }
        if action.argv.len() == 0 {
            return Err(PlanError::EmptyField("command argv".to_owned()));
        }
        if trim(action.description.as_str()).as_str().is_empty() {
            return Err(PlanError::EmptyField("action description".to_owned()));
        }
        Ok(())
    }

    fn check_path(&self, i: usize) -> (r: Result<(), PlanError>)
        requires
            i < self.patches@.len(),
        ensures
            match r {
                Ok(_) => patch_path_error(self@, i as int) is None,
                Err(e) => patch_path_error(self@, i as int) == Some(e@),
            },
    {
        let path = &self.patches[i].path;
        assert(self@.patches[i as int] == self.patches@[i as int]@);
        let mut j: usize = 0;
        while j < i
            invariant
                j <= i < self.patches@.len(),
                path@ == self@.patches[i as int].path,
                forall|k: int| 0 <= k < j ==> (#[trigger] self@.patches[k]).path != path@,
            decreases i - j,
        {
            assert(self@.patches[j as int] == self.patches@[j as int]@);
            if same(self.patches[j].path.as_str(), path.as_str()) {
                return Err(PlanError::DuplicatePatchPath(path.clone()));
            }
            j = j + 1;
        }
        Ok(())
    }

    fn check_argv(&self, i: usize) -> (r: Result<(), PlanError>)
        requires
            i < self.commands@.len(),
        ensures
            match r {
                Ok(_) => command_argv_error(self@, i as int) is None,
                Err(e) => command_argv_error(self@, i as int) == Some(e@),
            },
    {
        let argv = &self.commands[i].argv;
        assert(self@.commands[i as int] == self.commands@[i as int]@);
        let mut j: usize = 0;
        while j < i
            invariant
                j <= i < self.commands@.len(),
                views(argv@) == self@.commands[i as int].argv,
                forall|k: int| 0 <= k < j ==> (#[trigger] self@.commands[k]).argv != views(argv@),
            decreases i - j,
        {
            assert(self@.commands[j as int] == self.commands@[j as int]@);
            if same_list(&self.commands[j].argv, argv) {
                return Err(PlanError::DuplicateCommandArgv(join(argv, " ")));
            }
            j = j + 1;
        }
        Ok(())
    }

    /// Validates the manifest: ids, counts, uniqueness and required fields.
    pub fn validate(&self) -> (r: Result<(), PlanError>)
        ensures
            match r {
                Ok(_) => actions_error(self@) is None,
                Err(e) => actions_error(self@) == Some(e@),
            },
    {
        if self.patches.len() > MAX_ACTIONS {
            return Err(PlanError::TooManyActions { kind: "patch", count: self.patches.len() });
        }
        if self.commands.len() > MAX_ACTIONS {
            return Err(PlanError::TooManyActions { kind: "command", count: self.commands.len() });
        }
        let ghost np = self@.patches.len() as int;
        let ghost nc = self@.commands.len() as int;
        let ghost f1 = |i: int| patch_action_error(self@, i);
        let ghost f2 = |i: int| command_action_error(self@, i);
        let ghost f3 = |i: int| patch_path_error(self@, i);
        let ghost f4 = |i: int| command_argv_error(self@, i);
        let mut i: usize = 0;
        while i < self.patches.len()
            invariant
                i <= self.patches@.len() == np,
                f1 == (|i: int| patch_action_error(self@, i)),
                forall|j: int| 0 <= j < i ==> #[trigger] f1(j) is None,
                first_some(np, f1) is Some ==> actions_error(self@) == first_some(np, f1),
            decreases self.patches@.len() - i,
        {
            match self.check_patch(i) {
                Ok(_) => {},
                Err(e) => {
                    proof {
                        lemma_first_at(np, f1, i as int);
                    }
                    return Err(e);
                },
            }
            i = i + 1;
        }
        proof {
            lemma_first_none(np, f1);
        }
        let mut i: usize = 0;
        while i < self.commands.len()
            invariant
                i <= self.commands@.len() == nc,
                f2 == (|i: int| command_action_error(self@, i)),
                forall|j: int| 0 <= j < i ==> #[trigger] f2(j) is None,
                first_some(nc, f2) is Some ==> actions_error(self@) == first_some(nc, f2),
            decreases self.commands@.len() - i,
        {
            match self.check_command(i) {
                Ok(_) => {},
                Err(e) => {
                    proof {
                        lemma_first_at(nc, f2, i as int);
                    }
                    return Err(e);
                },
            }
            i = i + 1;
        }
        proof {
            lemma_first_none(nc, f2);
        }
        let mut i: usize = 0;
        while i < self.patches.len()
            invariant
                i <= self.patches@.len() == np,
                f3 == (|i: int| patch_path_error(self@, i)),
                forall|j: int| 0 <= j < i ==> #[trigger] f3(j) is None,
                first_some(np, f3) is Some ==> actions_error(self@) == first_some(np, f3),
            decreases self.patches@.len() - i,
        {
            match self.check_path(i) {
                Ok(_) => {},
                Err(e) => {
                    proof {
                        lemma_first_at(np, f3, i as int);
                    }
                    return Err(e);
                },
            }
            i = i + 1;
        }
        proof {
            lemma_first_none(np, f3);
        }
        let mut i: usize = 0;
        while i < self.commands.len()
            invariant
                i <= self.commands@.len() == nc,
                f4 == (|i: int| command_argv_error(self@, i)),
                forall|j: int| 0 <= j < i ==> #[trigger] f4(j) is None,
                actions_error(self@) == first_some(nc, f4),
            decreases self.commands@.len() - i,
        {
            match self.check_argv(i) {
                Ok(_) => {},
                Err(e) => {
                    proof {
                        lemma_first_at(nc, f4, i as int);
                    }
                    return Err(e);
                },
            }
            i = i + 1;
        }
        proof {
            lemma_first_none(nc, f4);
        }
        Ok(())
    }
}

/// One confirmation item. `checked` reflects the current checkbox.
#[derive(Debug, Clone, PartialEq, Eq)]
pub struct Confirmation {
    pub id: String,
    pub description: String,
    pub checked: bool,
}

/// A [`Confirmation`] as a mathematical value.
#[verifier::ext_equal]
pub struct ConfirmationModel {
    pub id: Seq<char>,
    pub description: Seq<char>,
    pub checked: bool,
}

impl View for Confirmation {
    type V = ConfirmationModel;

    open spec fn view(&self) -> ConfirmationModel {
        ConfirmationModel { id: self.id@, description: self.description@, checked: self.checked }
    }
}

impl Confirmation {
    /// An item that is not checked.
    pub fn unchecked(id: &str, description: &str) -> (r: Self)
        ensures
            r@ == (ConfirmationModel { id: id@, description: description@, checked: false }),
    {
        Confirmation { id: id.to_owned(), description: description.to_owned(), checked: false }
    }

    /// The item with another state of its checkbox.
    fn marked(&self, checked: bool) -> (r: Self)
        ensures
            r@ == (ConfirmationModel { checked, ..self@ }),
    {
        Confirmation { id: self.id.clone(), description: self.description.clone(), checked }
    }
}

/// A parsed and structurally validated plan file.
#[derive(Debug, Clone, PartialEq, Eq)]
pub struct ParsedPlan {
    /// Natural-language Markdown body (before the actions block).
    pub body_markdown: String,
    pub actions: PlanActions,
    pub confirmations: Vec<Confirmation>,
}

/// A [`ParsedPlan`] as a mathematical value.
#[verifier::ext_equal]
pub struct PlanModel {
    pub body_markdown: Seq<char>,
    pub actions: ActionsModel,
    pub confirmations: Seq<ConfirmationModel>,
}

impl View for ParsedPlan {
    type V = PlanModel;

    open spec fn view(&self) -> PlanModel {
        PlanModel {
            body_markdown: self.body_markdown@,
            actions: self.actions@,
            confirmations: deep(self.confirmations@),
        }
    }
}

/// Errors raised while parsing, rendering or sealing a plan.
#[derive(Debug, Clone, PartialEq, Eq)]
pub enum PlanError {
    /// The file is not valid UTF-8.
    NotUtf8,
    /// The file exceeds [`PLAN_MAX_BYTES`].
    TooLarge { size: usize },
    /// A required marker is missing.
    MissingMarker(&'static str),
    /// A marker occurs more than once.
    DuplicateMarker(&'static str),
    /// The confirmation block is not at the end of the file.
    ContentAfterConfirmations,
    /// A forbidden marker appears in the Markdown body.
    MarkerInBody(&'static str),
    /// The fenced JSON actions block is missing or malformed.
    ActionsBlockMissing,
    /// The actions JSON failed to parse.
    ActionsJsonParse(String),
    /// The actions JSON is valid JSON but has a wrong shape.
    ActionsSchema(String),
    /// The plan format version is unsupported.
    UnsupportedVersion(u64),
    /// A confirmation id is not unique.
    DuplicateConfirmationId(String),
    /// A patch path is not unique.
    DuplicatePatchPath(String),
    /// A command argv is not unique.
    DuplicateCommandArgv(String),
    /// An action id is not unique.
    DuplicateId(String),
    /// Too many confirmations.
    TooManyConfirmations { count: usize },
    /// Too many actions of one kind.
    TooManyActions { kind: &'static str, count: usize },
    /// An id failed the `[a-z][a-z0-9-]{0,63}` rule.
    InvalidId(String),
    /// A required field is empty.
    EmptyField(String),
    /// `all-ok` is not there.
    MissingAllOk,
    /// `all-ok` is there more than once.
    DuplicateAllOk,
    /// A confirmation checkbox line is malformed.
    MalformedConfirmation(String),
    /// A confirmation item id is unknown.
    UnknownConfirmationId(String),
}

/// A [`PlanError`] as a mathematical value.
#[verifier::ext_equal]
pub enum PlanErrorModel {
    NotUtf8,
    TooLarge { size: nat },
    MissingMarker(Seq<char>),
    DuplicateMarker(Seq<char>),
    ContentAfterConfirmations,
    MarkerInBody(Seq<char>),
    ActionsBlockMissing,
    ActionsJsonParse(Seq<char>),
    ActionsSchema(Seq<char>),
    UnsupportedVersion(u64),
    DuplicateConfirmationId(Seq<char>),
    DuplicatePatchPath(Seq<char>),
    DuplicateCommandArgv(Seq<char>),
    DuplicateId(Seq<char>),
    TooManyConfirmations { count: nat },
    TooManyActions { kind: Seq<char>, count: nat },
    InvalidId(Seq<char>),
    EmptyField(Seq<char>),
    MissingAllOk,
    DuplicateAllOk,
    MalformedConfirmation(Seq<char>),
    UnknownConfirmationId(Seq<char>),
}

impl View for PlanError {
    type V = PlanErrorModel;

    open spec fn view(&self) -> PlanErrorModel {
        match self {
            PlanError::NotUtf8 => PlanErrorModel::NotUtf8,
            PlanError::TooLarge { size } => PlanErrorModel::TooLarge { size: *size as nat },
            PlanError::MissingMarker(m) => PlanErrorModel::MissingMarker(m@),
            PlanError::DuplicateMarker(m) => PlanErrorModel::DuplicateMarker(m@),
            PlanError::ContentAfterConfirmations => PlanErrorModel::ContentAfterConfirmations,
            PlanError::MarkerInBody(m) => PlanErrorModel::MarkerInBody(m@),
            PlanError::ActionsBlockMissing => PlanErrorModel::ActionsBlockMissing,
            PlanError::ActionsJsonParse(e) => PlanErrorModel::ActionsJsonParse(e@),
            PlanError::ActionsSchema(e) => PlanErrorModel::ActionsSchema(e@),
            PlanError::UnsupportedVersion(v) => PlanErrorModel::UnsupportedVersion(*v),
            PlanError::DuplicateConfirmationId(s) => PlanErrorModel::DuplicateConfirmationId(s@),
            PlanError::DuplicatePatchPath(s) => PlanErrorModel::DuplicatePatchPath(s@),
            PlanError::DuplicateCommandArgv(s) => PlanErrorModel::DuplicateCommandArgv(s@),
            PlanError::DuplicateId(s) => PlanErrorModel::DuplicateId(s@),
            PlanError::TooManyConfirmations { count } => PlanErrorModel::TooManyConfirmations {
                count: *count as nat,
            },
            PlanError::TooManyActions { kind, count } => PlanErrorModel::TooManyActions {
                kind: kind@,
                count: *count as nat,
            },
            PlanError::InvalidId(s) => PlanErrorModel::InvalidId(s@),
            PlanError::EmptyField(s) => PlanErrorModel::EmptyField(s@),
            PlanError::MissingAllOk => PlanErrorModel::MissingAllOk,
            PlanError::DuplicateAllOk => PlanErrorModel::DuplicateAllOk,
            PlanError::MalformedConfirmation(s) => PlanErrorModel::MalformedConfirmation(s@),
            PlanError::UnknownConfirmationId(s) => PlanErrorModel::UnknownConfirmationId(s@),
        }
    }
}

/// What an error says in words.
pub open spec fn plan_error_text(e: PlanErrorModel) -> Seq<char> {
    match e {
        PlanErrorModel::NotUtf8 => "plan is not valid UTF-8"@,
        PlanErrorModel::TooLarge { size } => "plan exceeds 65536 bytes (actual "@ + decimal(size)
            + " bytes)"@,
        PlanErrorModel::MissingMarker(m) => "missing "@ + m,
        PlanErrorModel::DuplicateMarker(m) => "duplicate "@ + m,
        PlanErrorModel::ContentAfterConfirmations =>
            "content appears after the confirmations block"@,
        PlanErrorModel::MarkerInBody(m) => "marker "@ + m + " must not appear in the plan body"@,
        PlanErrorModel::ActionsBlockMissing => "actions fenced JSON block is missing"@,
        PlanErrorModel::ActionsJsonParse(e) => "actions JSON parse error: "@ + e,
        PlanErrorModel::ActionsSchema(e) => "actions JSON schema error: "@ + e,
        PlanErrorModel::UnsupportedVersion(v) => "unsupported plan version "@ + decimal(v as nat)
            + " (only version 1 is supported)"@,
        PlanErrorModel::DuplicateConfirmationId(id) => "duplicate confirmation id "@ + debug_text(
            id,
        ),
        PlanErrorModel::DuplicatePatchPath(p) => "duplicate patch path "@ + debug_text(p),
        PlanErrorModel::DuplicateCommandArgv(a) => "duplicate command argv "@ + debug_text(a),
        PlanErrorModel::DuplicateId(id) => "duplicate action id "@ + debug_text(id),
        PlanErrorModel::TooManyConfirmations { count } => "too many confirmations ("@ + decimal(
            count,
        ) + "; max 32)"@,
        PlanErrorModel::TooManyActions { kind, count } => "too many "@ + kind + " actions ("@
            + decimal(count) + "; max 128)"@,
        PlanErrorModel::InvalidId(id) => "invalid id "@ + debug_text(id)
            + " (must match [a-z][a-z0-9-]{0,63})"@,
        PlanErrorModel::EmptyField(field) => field + " must not be empty"@,
        PlanErrorModel::MissingAllOk => "confirmation "@ + debug_text(RESERVED_CONFIRMATION_ID@)
            + " is required"@,
        PlanErrorModel::DuplicateAllOk => "confirmation "@ + debug_text(RESERVED_CONFIRMATION_ID@)
            + " must appear exactly once"@,
        PlanErrorModel::MalformedConfirmation(line) => "malformed confirmation line: "@
            + debug_text(line),
        PlanErrorModel::UnknownConfirmationId(id) => "unknown confirmation id "@ + debug_text(id),
    }
}

impl PlanError {
    /// What the error says in words.
    pub fn to_string(&self) -> (r: String)
        ensures
            r@ == plan_error_text(self@),
    {
        match self {
            PlanError::NotUtf8 => "plan is not valid UTF-8".to_owned(),
            PlanError::TooLarge { size } => cat3(
                "plan exceeds 65536 bytes (actual ",
                decimal_of(*size as u64).as_str(),
                " bytes)",
            ),
            PlanError::MissingMarker(m) => cat("missing ", m),
            PlanError::DuplicateMarker(m) => cat("duplicate ", m),
            PlanError::ContentAfterConfirmations =>
                "content appears after the confirmations block".to_owned(),
            PlanError::MarkerInBody(m) => cat3("marker ", m, " must not appear in the plan body"),
            PlanError::ActionsBlockMissing => "actions fenced JSON block is missing".to_owned(),
            PlanError::ActionsJsonParse(e) => cat("actions JSON parse error: ", e.as_str()),
            PlanError::ActionsSchema(e) => cat("actions JSON schema error: ", e.as_str()),
            PlanError::UnsupportedVersion(v) => cat3(
                "unsupported plan version ",
                decimal_of(*v).as_str(),
                " (only version 1 is supported)",
            ),
            PlanError::DuplicateConfirmationId(id) => cat(
                "duplicate confirmation id ",
                debug_of(id.as_str()).as_str(),
            ),
            PlanError::DuplicatePatchPath(p) => cat(
                "duplicate patch path ",
                debug_of(p.as_str()).as_str(),
            ),
            PlanError::DuplicateCommandArgv(a) => cat(
                "duplicate command argv ",
                debug_of(a.as_str()).as_str(),
            ),
            PlanError::DuplicateId(id) => cat(
                "duplicate action id ",
                debug_of(id.as_str()).as_str(),
            ),
            PlanError::TooManyConfirmations { count } => cat3(
                "too many confirmations (",
                decimal_of(*count as u64).as_str(),
                "; max 32)",
            ),
            PlanError::TooManyActions { kind, count } => {
                let mut out = cat3("too many ", kind, " actions (");
                out.append(decimal_of(*count as u64).as_str());
                out.append("; max 128)");
                out
            },
            PlanError::InvalidId(id) => cat3(
                "invalid id ",
                debug_of(id.as_str()).as_str(),
                " (must match [a-z][a-z0-9-]{0,63})",
            ),
            PlanError::EmptyField(field) => cat(field.as_str(), " must not be empty"),
            PlanError::MissingAllOk => cat3(
                "confirmation ",
                debug_of(RESERVED_CONFIRMATION_ID).as_str(),
                " is required",
            ),
            PlanError::DuplicateAllOk => cat3(
                "confirmation ",
                debug_of(RESERVED_CONFIRMATION_ID).as_str(),
                " must appear exactly once",
            ),
            PlanError::MalformedConfirmation(line) => cat(
                "malformed confirmation line: ",
                debug_of(line.as_str()).as_str(),
            ),
            PlanError::UnknownConfirmationId(id) => cat(
                "unknown confirmation id ",
                debug_of(id.as_str()).as_str(),
            ),
        }
    }
}

/// Whether a character may stand in an id behind its first.
pub open spec fn id_char(c: char) -> bool {
    ('a' <= c <= 'z') || ('0' <= c <= '9') || c == '-'
}

/// Whether an id is a lower-case letter followed by up to 63 lower-case
/// letters, digits or hyphens.
pub open spec fn valid_id(id: Seq<char>) -> bool {
    &&& 1 <= id.len() <= 64
    &&& 'a' <= id[0] <= 'z'
    &&& forall|i: int| 0 <= i < id.len() ==> id_char(#[trigger] id[i])
}

/// The error for an id that is not valid.
pub open spec fn invalid_id(label: Seq<char>, id: Seq<char>) -> PlanErrorModel {
    PlanErrorModel::InvalidId(label + " "@ + debug_text(id))
}

/// Checks an id; the error names it after `label`.
pub fn validate_id(id: &str, label: &str) -> (r: Result<(), PlanError>)
    ensures
        match r {
            Ok(_) => valid_id(id@),
            Err(e) => !valid_id(id@) && e@ == invalid_id(label@, id@),
        },
{
    if id_is_valid(id) {
        Ok(())
    } else {
        Err(PlanError::InvalidId(cat3(label, " ", debug_of(id).as_str())))
    }
}

fn id_is_valid(id: &str) -> (r: bool)
    ensures
        r == valid_id(id@),
{
    let v = chars_of(id);
    if v.len() == 0 || v.len() > 64 || !('a' <= v[0] && v[0] <= 'z') {
        return false;
    }
    let mut i: usize = 0;
    while i < v.len()
        invariant
            i <= v@.len(),
            v@ == id@,
            forall|k: int| 0 <= k < i ==> id_char(#[trigger] v@[k]),
        decreases v@.len() - i,
    {
        let c = v[i];
        if !(('a' <= c && c <= 'z') || ('0' <= c && c <= '9') || c == '-') {
            return false;
        }
        i = i + 1;
    }
    true
}

/// Checks an id of a submitted plan.
pub fn validate_plan_id(id: &str) -> (r: Result<(), PlanError>)
    ensures
        match r {
            Ok(_) => valid_id(id@),
            Err(e) => !valid_id(id@) && e@ == invalid_id("id"@, id@),
        },
{
    validate_id(id, "id")
}

/// The confirmations after an approval. With `all`, `all-ok` is checked and
/// nothing else; with ids, those are checked and nothing else; with neither,
/// nothing changes. An id that is `all-ok` or not there is an error.
pub open spec fn confirmed(
    items: Seq<ConfirmationModel>,
    all: bool,
    ids: Seq<Seq<char>>,
) -> Result<Seq<ConfirmationModel>, PlanErrorModel> {
    if all {
        Ok(
            items.map_values(
                |c: ConfirmationModel|
                    ConfirmationModel { checked: c.id == RESERVED_CONFIRMATION_ID@, ..c },
            ),
        )
    } else if ids.len() == 0 {
        Ok(items)
    } else {
        match first_some(ids.len() as int, |i: int| unknown_id(items, ids[i])) {
            Some(e) => Err(e),
            None => Ok(
                items.map_values(
                    |c: ConfirmationModel| ConfirmationModel { checked: ids.contains(c.id), ..c },
                ),
            ),
        }
    }
}

/// Whether an id names no item that can be checked by itself.
pub open spec fn unknown_id(items: Seq<ConfirmationModel>, id: Seq<char>) -> Option<
    PlanErrorModel,
> {
    if id == RESERVED_CONFIRMATION_ID@ || !(exists|j: int|
        0 <= j < items.len() && (#[trigger] items[j]).id == id) {
        Some(PlanErrorModel::UnknownConfirmationId(id))
    } else {
        None
    }
}

/// Whether a list of confirmations has an item with that id.
fn has_confirmation(items: &Vec<Confirmation>, id: &str) -> (r: bool)
    ensures
        r == (exists|j: int| 0 <= j < items@.len() && (#[trigger] deep(items@)[j]).id == id@),
{
    let mut j: usize = 0;
    while j < items.len()
        invariant
            j <= items@.len(),
            forall|k: int| 0 <= k < j ==> (#[trigger] deep(items@)[k]).id != id@,
        decreases items@.len() - j,
    {
        assert(deep(items@)[j as int] == items@[j as int]@);
        if same(items[j].id.as_str(), id) {
            return true;
        }
        j = j + 1;
    }
    false
}

/// Applies an approval to the confirmations of a plan.
pub fn apply_confirmations(plan: &ParsedPlan, all: bool, item_ids: &Vec<String>) -> (r: Result<
    Vec<Confirmation>,
    PlanError,
>)
    ensures
        match r {
            Ok(v) => confirmed(plan@.confirmations, all, views(item_ids@)) == Ok::<
                Seq<ConfirmationModel>,
                PlanErrorModel,
            >(deep(v@)),
            Err(e) => confirmed(plan@.confirmations, all, views(item_ids@)) == Err::<
                Seq<ConfirmationModel>,
                PlanErrorModel,
            >(e@),
        },
{
    let ghost items = plan@.confirmations;
    let ghost ids = views(item_ids@);
    if !all && item_ids.len() > 0 {
        let ghost f = |i: int| unknown_id(items, ids[i]);
        let mut i: usize = 0;
        while i < item_ids.len()
            invariant
                i <= item_ids@.len(),
                ids == views(item_ids@),
                items == deep(plan.confirmations@),
                f == (|i: int| unknown_id(items, ids[i])),
                forall|j: int| 0 <= j < i ==> #[trigger] f(j) is None,
                !all,
                item_ids@.len() > 0,
            decreases item_ids@.len() - i,
        {
            assert(ids[i as int] == item_ids@[i as int]@);
            if same(item_ids[i].as_str(), RESERVED_CONFIRMATION_ID) || !has_confirmation(
                &plan.confirmations,
                item_ids[i].as_str(),
            ) {
                proof {
                    lemma_first_at(ids.len() as int, f, i as int);
                }
                return Err(PlanError::UnknownConfirmationId(item_ids[i].clone()));
            }
            i = i + 1;
        }
        proof {
            lemma_first_none(ids.len() as int, f);
        }
    }
    let mut out: Vec<Confirmation> = Vec::new();
    let mut k: usize = 0;
    while k < plan.confirmations.len()
        invariant
            k <= plan.confirmations@.len(),
            ids == views(item_ids@),
            out@.len() == k,
            forall|j: int|
                0 <= j < k ==> (#[trigger] out@[j])@ == (ConfirmationModel {
                    checked: if all {
                        plan.confirmations@[j].id@ == RESERVED_CONFIRMATION_ID@
                    } else if item_ids@.len() == 0 {
                        plan.confirmations@[j].checked
                    } else {
                        ids.contains(plan.confirmations@[j].id@)
                    },
                    ..plan.confirmations@[j]@
                }),
        decreases plan.confirmations@.len() - k,
    {
        let c = &plan.confirmations[k];
        let checked = if all {
            same(c.id.as_str(), RESERVED_CONFIRMATION_ID)
        } else if item_ids.len() == 0 {
            c.checked
        } else {
            list_contains(item_ids, c.id.as_str())
        };
        out.push(c.marked(checked));
        k = k + 1;
    }
    proof {
        let got = confirmed(items, all, ids)->Ok_0;
        assert(deep(out@) =~= got);
    }
    Ok(out)
}

/// The checkbox of the first `all-ok`, if there is one.
pub open spec fn all_ok_box(items: Seq<ConfirmationModel>) -> Option<bool> {
    first_some(
        items.len() as int,
        |i: int|
            if items[i].id == RESERVED_CONFIRMATION_ID@ {
                Some(items[i].checked)
            } else {
                None
            },
    )
}

/// Whether confirmations are complete: the first `all-ok` is checked, or every
/// other item is.
pub open spec fn complete(items: Seq<ConfirmationModel>) -> bool {
    ||| all_ok_box(items) == Some(true)
    ||| forall|i: int|
        0 <= i < items.len() ==> (#[trigger] items[i]).id == RESERVED_CONFIRMATION_ID@
            || items[i].checked
}

fn find_all_ok(confirmations: &Vec<Confirmation>) -> (r: Option<bool>)
    ensures
        r == all_ok_box(deep(confirmations@)),
{
    let ghost items = deep(confirmations@);
    let ghost f = |i: int|
        if items[i].id == RESERVED_CONFIRMATION_ID@ {
            Some(items[i].checked)
        } else {
            None
        };
    let mut i: usize = 0;
    while i < confirmations.len()
        invariant
            i <= confirmations@.len(),
            items == deep(confirmations@),
            f == (|i: int|
                if items[i].id == RESERVED_CONFIRMATION_ID@ {
                    Some(items[i].checked)
                } else {
                    None
                }),
            forall|j: int| 0 <= j < i ==> #[trigger] f(j) is None,
        decreases confirmations@.len() - i,
    {
        assert(items[i as int] == confirmations@[i as int]@);
        if same(confirmations[i].id.as_str(), RESERVED_CONFIRMATION_ID) {
            proof {
                lemma_first_at(items.len() as int, f, i as int);
            }
            return Some(confirmations[i].checked);
        }
        i = i + 1;
    }
    proof {
        lemma_first_none(items.len() as int, f);
    }
    None
}

/// Whether the confirmations are complete.
pub fn confirmations_complete(confirmations: &Vec<Confirmation>) -> (r: bool)
    ensures
        r == complete(deep(confirmations@)),
{
    if let Some(true) = find_all_ok(confirmations) {
        return true;
    }
    let ghost items = deep(confirmations@);
    let mut k: usize = 0;
    while k < confirmations.len()
        invariant
            k <= confirmations@.len(),
            items == deep(confirmations@),
            forall|j: int|
                0 <= j < k ==> (#[trigger] items[j]).id == RESERVED_CONFIRMATION_ID@
                    || items[j].checked,
            all_ok_box(items) != Some(true),
        decreases confirmations@.len() - k,
    {
        assert(items[k as int] == confirmations@[k as int]@);
        if !same(confirmations[k].id.as_str(), RESERVED_CONFIRMATION_ID)
            && !confirmations[k].checked {
            return false;
        }
        k = k + 1;
    }
    true
}

} // verus!
