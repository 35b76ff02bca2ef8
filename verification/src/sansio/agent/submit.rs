//! The tools by which the model submits a plan.
use vstd::prelude::*;
use vstd::string::*;

use super::errors::{ToolErrorModel, ToolExecutionError};
use super::tools::{
    arguments_of, bad, bad_arguments, define, definition, map_parse_err, parse_arguments,
    required_string, required_string_array, string_arg, string_array_arg,
};
use crate::json::{elements, indices, lemma_read_list_step, member, read_list, JsonDoc, NodeModel};
use crate::model::{deep, first_some, lemma_deep_push, lemma_first_at, lemma_first_none};
use crate::plan::{
    invalid_id, plan_error_text, valid_id, validate_plan_id, CommandActionModel, PatchActionModel,
    MAX_ACTIONS, MAX_CONFIRMATIONS, RESERVED_CONFIRMATION_ID,
};
use crate::sansio::deepseek::ToolDef;
use crate::text::{
    debug_list_of, debug_list_text, debug_of, debug_text, replace, replaced, same, same_list, trim,
    trimmed, views,
};

verus! {

pub const SUBMIT_PLAN_DESCRIPTION: &'static str =
    "Submit the plan you explored and finalize it. The plan body, confirmation items, approved patch paths, and approved command argv are rendered into a sealed Markdown plan file. This ends the planning invocation.";

pub const SUBMIT_PLAN_PARAMS_SCHEMA: &'static str = r#"{
"type":"object",
"properties":{
"body_markdown":{"type":"string","description":"Natural-language Markdown body: purpose, change approach, targets, and verification."},
"confirmations":{"type":"array","items":{"type":"object","properties":{"id":{"type":"string","description":"Lowercase id ([a-z][a-z0-9-]{0,63}); the reserved all-ok id is added by attini."},"description":{"type":"string","description":"A user judgment item to approve."}},"required":["id","description"]}},
"patches":{"type":"array","items":{"type":"object","properties":{"id":{"type":"string"},"path":{"type":"string","description":"Exact workspace-relative path that may be patched."},"description":{"type":"string"}},"required":["id","path","description"]}},
"commands":{"type":"array","items":{"type":"object","properties":{"id":{"type":"string"},"argv":{"type":"array","items":{"type":"string"},"minItems":1,"description":"Exact argv that may be run (no shell)."},"description":{"type":"string"}},"required":["id","argv","description"]}}
},
"required":["body_markdown"]
}"#;

pub const PLAN_DESCRIPTION: &'static str =
    "Draft a plan for a change that spans multiple `patch` calls or also needs `command` steps, and write it as a sealed Markdown plan file under the session's plans directory. A human must approve it with `attini plan ok <file>` before it can be run with `attini plan run <file>`. Use this when a change is too large to complete as a single patch/command sequence. This does NOT end the invocation, and is a suggestion, not a mandate: if the change must be iterated step-by-step on intermediate results, keep using `patch`/`command` directly.";

/// A plan as the model submits it.
#[derive(Debug, Clone, PartialEq, Eq)]
pub struct SubmitPlanInvocation {
    pub body_markdown: String,
    pub confirmations: Vec<SubmitConfirmation>,
    pub patches: Vec<SubmitPatch>,
    pub commands: Vec<SubmitCommand>,
}

/// A confirmation item of a submitted plan.
#[derive(Debug, Clone, PartialEq, Eq)]
pub struct SubmitConfirmation {
    pub id: String,
    pub description: String,
}

/// A [`SubmitConfirmation`] as a mathematical value.
#[verifier::ext_equal]
pub struct SubmitConfirmationModel {
    pub id: Seq<char>,
    pub description: Seq<char>,
}

impl View for SubmitConfirmation {
    type V = SubmitConfirmationModel;

    open spec fn view(&self) -> SubmitConfirmationModel {
        SubmitConfirmationModel { id: self.id@, description: self.description@ }
    }
}

/// A patch action of a submitted plan.
#[derive(Debug, Clone, PartialEq, Eq)]
pub struct SubmitPatch {
    pub id: String,
    pub path: String,
    pub description: String,
}

impl View for SubmitPatch {
    type V = PatchActionModel;

    open spec fn view(&self) -> PatchActionModel {
        PatchActionModel { id: self.id@, path: self.path@, description: self.description@ }
    }
}

/// A command action of a submitted plan.
#[derive(Debug, Clone, PartialEq, Eq)]
pub struct SubmitCommand {
    pub id: String,
    pub argv: Vec<String>,
    pub description: String,
}

impl View for SubmitCommand {
    type V = CommandActionModel;

    open spec fn view(&self) -> CommandActionModel {
        CommandActionModel {
            id: self.id@,
            argv: views(self.argv@),
            description: self.description@,
        }
    }
}

/// A [`SubmitPlanInvocation`] as a mathematical value.
#[verifier::ext_equal]
pub struct SubmitPlanModel {
    pub body_markdown: Seq<char>,
    pub confirmations: Seq<SubmitConfirmationModel>,
    pub patches: Seq<PatchActionModel>,
    pub commands: Seq<CommandActionModel>,
}

impl View for SubmitPlanInvocation {
    type V = SubmitPlanModel;

    open spec fn view(&self) -> SubmitPlanModel {
        SubmitPlanModel {
            body_markdown: self.body_markdown@,
            confirmations: deep(self.confirmations@),
            patches: deep(self.patches@),
            commands: deep(self.commands@),
        }
    }
}

/// The elements of an array argument; none where the argument is absent.
pub open spec fn list_arg(doc: Seq<NodeModel>, name: Seq<char>) -> Result<
    Seq<int>,
    ToolErrorModel,
> {
    match member(doc, 0, name) {
        Err(e) => Err(bad_arguments(e)),
        Ok(None) => Ok(Seq::empty()),
        Ok(Some(j)) => match elements(doc, j) {
            Err(e) => Err(bad_arguments(e)),
            Ok(at) => Ok(at),
        },
    }
}

/// One confirmation item.
pub open spec fn confirmation_arg(doc: Seq<NodeModel>, i: int) -> Result<
    SubmitConfirmationModel,
    ToolErrorModel,
> {
    match string_arg(doc, i, "id"@) {
        Err(e) => Err(e),
        Ok(id) => match string_arg(doc, i, "description"@) {
            Err(e) => Err(e),
            Ok(description) => Ok(SubmitConfirmationModel { id, description }),
        },
    }
}

/// One patch action.
pub open spec fn patch_arg(doc: Seq<NodeModel>, i: int) -> Result<
    PatchActionModel,
    ToolErrorModel,
> {
    match string_arg(doc, i, "id"@) {
        Err(e) => Err(e),
        Ok(id) => match string_arg(doc, i, "path"@) {
            Err(e) => Err(e),
            Ok(path) => match string_arg(doc, i, "description"@) {
                Err(e) => Err(e),
                Ok(description) => Ok(PatchActionModel { id, path, description }),
            },
        },
    }
}

/// One command action.
pub open spec fn command_arg(doc: Seq<NodeModel>, i: int) -> Result<
    CommandActionModel,
    ToolErrorModel,
> {
    match string_arg(doc, i, "id"@) {
        Err(e) => Err(e),
        Ok(id) => match string_array_arg(doc, i, "argv"@) {
            Err(e) => Err(e),
            Ok(argv) => match string_arg(doc, i, "description"@) {
                Err(e) => Err(e),
                Ok(description) => Ok(CommandActionModel { id, argv, description }),
            },
        },
    }
}

/// The confirmation items that a document submits.
pub open spec fn confirmation_args(doc: Seq<NodeModel>) -> Result<
    Seq<SubmitConfirmationModel>,
    ToolErrorModel,
> {
    match list_arg(doc, "confirmations"@) {
        Err(e) => Err(e),
        Ok(at) => read_list(at, |k: int| confirmation_arg(doc, k)),
    }
}

/// The patch actions that a document submits.
pub open spec fn patch_args(doc: Seq<NodeModel>) -> Result<Seq<PatchActionModel>, ToolErrorModel> {
    match list_arg(doc, "patches"@) {
        Err(e) => Err(e),
        Ok(at) => read_list(at, |k: int| patch_arg(doc, k)),
    }
}

/// The command actions that a document submits.
pub open spec fn command_args(doc: Seq<NodeModel>) -> Result<
    Seq<CommandActionModel>,
    ToolErrorModel,
> {
    match list_arg(doc, "commands"@) {
        Err(e) => Err(e),
        Ok(at) => read_list(at, |k: int| command_arg(doc, k)),
    }
}

/// The error for an id that is not valid.
pub open spec fn bad_id(kind: Seq<char>, id: Seq<char>) -> ToolErrorModel {
    bad_arguments("submit_plan: "@ + kind + ": "@ + plan_error_text(invalid_id("id"@, id)))
}

/// The error for an id that is taken already.
pub open spec fn taken_id(kind: Seq<char>, id: Seq<char>) -> ToolErrorModel {
    bad_arguments("submit_plan: duplicate "@ + kind + " id "@ + debug_text(id))
}

/// Whether one of the first `n` confirmation items has that id.
pub open spec fn confirmation_has(p: SubmitPlanModel, id: Seq<char>, n: int) -> bool {
    exists|j: int| 0 <= j < n && (#[trigger] p.confirmations[j]).id == id
}

/// Whether one of the first `n` patch actions has that id.
pub open spec fn patch_has(p: SubmitPlanModel, id: Seq<char>, n: int) -> bool {
    exists|j: int| 0 <= j < n && (#[trigger] p.patches[j]).id == id
}

/// Whether one of the first `n` command actions has that id.
pub open spec fn command_has(p: SubmitPlanModel, id: Seq<char>, n: int) -> bool {
    exists|j: int| 0 <= j < n && (#[trigger] p.commands[j]).id == id
}

/// What is wrong with one confirmation item.
pub open spec fn confirmation_error(p: SubmitPlanModel, i: int) -> Option<ToolErrorModel> {
    let c = p.confirmations[i];
    if c.id == RESERVED_CONFIRMATION_ID@ {
        Some(bad_arguments("submit_plan: the all-ok confirmation is reserved"@))
    } else if !valid_id(c.id) {
        Some(bad_id("confirmation"@, c.id))
    } else if confirmation_has(p, c.id, i) {
        Some(taken_id("confirmation"@, c.id))
    } else if trimmed(c.description).len() == 0 {
        Some(bad_arguments("submit_plan: confirmation description must not be empty"@))
    } else {
        None
    }
}

/// What is wrong with one patch action, beside its path being taken.
pub open spec fn patch_error(p: SubmitPlanModel, i: int) -> Option<ToolErrorModel> {
    let a = p.patches[i];
    if !valid_id(a.id) {
        Some(bad_id("patch"@, a.id))
    } else if confirmation_has(p, a.id, p.confirmations.len() as int) || patch_has(p, a.id, i) {
        Some(taken_id("patch"@, a.id))
    } else if trimmed(a.path).len() == 0 {
        Some(bad_arguments("submit_plan: patch path must not be empty"@))
    } else if trimmed(a.description).len() == 0 {
        Some(bad_arguments("submit_plan: patch description must not be empty"@))
    } else {
        None
    }
}

/// Whether an earlier patch action has the same path.
pub open spec fn path_error(p: SubmitPlanModel, i: int) -> Option<ToolErrorModel> {
    if exists|j: int| 0 <= j < i && (#[trigger] p.patches[j]).path == p.patches[i].path {
        Some(bad_arguments("submit_plan: duplicate patch path "@ + debug_text(p.patches[i].path)))
    } else {
        None
    }
}

/// What is wrong with one command action, beside its argv being taken.
pub open spec fn command_error(p: SubmitPlanModel, i: int) -> Option<ToolErrorModel> {
    let a = p.commands[i];
    if !valid_id(a.id) {
        Some(bad_id("command"@, a.id))
    } else if confirmation_has(p, a.id, p.confirmations.len() as int) || patch_has(
        p,
        a.id,
        p.patches.len() as int,
    ) || command_has(p, a.id, i) {
        Some(taken_id("command"@, a.id))
    } else if a.argv.len() == 0 {
        Some(bad_arguments("submit_plan: command argv must have at least one element"@))
    } else if trimmed(a.description).len() == 0 {
        Some(bad_arguments("submit_plan: command description must not be empty"@))
    } else {
        None
    }
}

/// Whether an earlier command action has the same argv.
pub open spec fn argv_error(p: SubmitPlanModel, i: int) -> Option<ToolErrorModel> {
    if exists|j: int| 0 <= j < i && (#[trigger] p.commands[j]).argv == p.commands[i].argv {
        Some(
            bad_arguments(
                "submit_plan: duplicate command argv "@ + debug_list_text(p.commands[i].argv),
            ),
        )
    } else {
        None
    }
}

/// What is wrong with the numbers of items.
pub open spec fn counts_error(p: SubmitPlanModel) -> Option<ToolErrorModel> {
    if p.confirmations.len() > MAX_CONFIRMATIONS {
        Some(bad_arguments("submit_plan: too many confirmations (max 32)"@))
    } else if p.patches.len() > MAX_ACTIONS || p.commands.len() > MAX_ACTIONS {
        Some(bad_arguments("submit_plan: too many actions (max 128)"@))
    } else {
        None
    }
}

/// What is wrong with a submitted plan whose arguments could be read.
pub open spec fn submit_error(p: SubmitPlanModel) -> Option<ToolErrorModel> {
    match counts_error(p) {
        Some(e) => Some(e),
        None => match first_some(
            p.confirmations.len() as int,
            |i: int| confirmation_error(p, i),
        ) {
            Some(e) => Some(e),
            None => match first_some(p.patches.len() as int, |i: int| patch_error(p, i)) {
                Some(e) => Some(e),
                None => match first_some(p.patches.len() as int, |i: int| path_error(p, i)) {
                    Some(e) => Some(e),
                    None => match first_some(
                        p.commands.len() as int,
                        |i: int| command_error(p, i),
                    ) {
                        Some(e) => Some(e),
                        None => first_some(p.commands.len() as int, |i: int| argv_error(p, i)),
                    },
                },
            },
        },
    }
}

/// The plan that a document submits, before it is validated.
pub open spec fn submitted_of(doc: Seq<NodeModel>) -> Result<SubmitPlanModel, ToolErrorModel> {
    match string_arg(doc, 0, "body_markdown"@) {
        Err(e) => Err(e),
        Ok(body_markdown) => if trimmed(body_markdown).len() == 0 {
            Err(bad_arguments("submit_plan: body_markdown must not be empty"@))
        } else {
            match confirmation_args(doc) {
                Err(e) => Err(e),
                Ok(confirmations) => match patch_args(doc) {
                    Err(e) => Err(e),
                    Ok(patches) => match command_args(doc) {
                        Err(e) => Err(e),
                        Ok(commands) => Ok(
                            SubmitPlanModel { body_markdown, confirmations, patches, commands },
                        ),
                    },
                },
            }
        },
    }
}

/// The plan that a document submits.
pub open spec fn submit_of(doc: Seq<NodeModel>) -> Result<SubmitPlanModel, ToolErrorModel> {
    match submitted_of(doc) {
        Err(e) => Err(e),
        Ok(p) => match submit_error(p) {
            Some(e) => Err(e),
            None => Ok(p),
        },
    }
}

/// The plan that a text of arguments submits.
pub open spec fn submit_call(arguments: Seq<char>) -> Result<SubmitPlanModel, ToolErrorModel> {
    match arguments_of(arguments) {
        Err(e) => Err(e),
        Ok(doc) => submit_of(doc),
    }
}

fn list_at(doc: &JsonDoc, name: &str) -> (r: Result<Vec<usize>, ToolExecutionError>)
    requires
        doc.wf(),
    ensures
        match r {
            Ok(at) => list_arg(doc@, name@) == Ok::<Seq<int>, ToolErrorModel>(indices(at@))
                && forall|j: int| 0 <= j < at@.len() ==> #[trigger] at@[j] < doc@.len(),
            Err(e) => list_arg(doc@, name@) == Err::<Seq<int>, ToolErrorModel>(e@),
        },
{
    let mut out: Vec<usize> = Vec::new();
    assert(indices(out@) =~= Seq::empty());
    let j: usize = match doc.member(0, name) {
        Err(e) => return Err(map_parse_err(e)),
        Ok(None) => return Ok(out),
        Ok(Some(j)) => j,
    };
    let at = match doc.elements(j) {
        Err(e) => return Err(map_parse_err(e)),
        Ok(at) => at,
    };
    let mut k: usize = 0;
    while k < at.len()
        invariant
            k <= at@.len(),
            forall|j: int| 0 <= j < at@.len() ==> #[trigger] at@[j] < doc@.len(),
            out@ == at@.take(k as int),
        decreases at@.len() - k,
    {
        out.push(at[k]);
        assert(at@.take(k + 1) =~= at@.take(k as int).push(at@[k as int]));
        k = k + 1;
    }
    assert(out@ =~= at@);
    Ok(out)
}

fn parse_confirmation(doc: &JsonDoc, i: usize) -> (r: Result<
    SubmitConfirmation,
    ToolExecutionError,
>)
    requires
        doc.wf(),
        i < doc@.len(),
    ensures
        match r {
            Ok(c) => confirmation_arg(doc@, i as int) == Ok::<
                SubmitConfirmationModel,
                ToolErrorModel,
            >(c@),
            Err(e) => confirmation_arg(doc@, i as int) == Err::<
                SubmitConfirmationModel,
                ToolErrorModel,
            >(e@),
        },
{
    let id = required_string(doc, i, "id")?;
    let description = required_string(doc, i, "description")?;
    Ok(SubmitConfirmation { id, description })
}

fn parse_patch(doc: &JsonDoc, i: usize) -> (r: Result<SubmitPatch, ToolExecutionError>)
    requires
        doc.wf(),
        i < doc@.len(),
    ensures
        match r {
            Ok(c) => patch_arg(doc@, i as int) == Ok::<PatchActionModel, ToolErrorModel>(c@),
            Err(e) => patch_arg(doc@, i as int) == Err::<PatchActionModel, ToolErrorModel>(e@),
        },
{
    let id = required_string(doc, i, "id")?;
    let path = required_string(doc, i, "path")?;
    let description = required_string(doc, i, "description")?;
    Ok(SubmitPatch { id, path, description })
}

fn parse_command(doc: &JsonDoc, i: usize) -> (r: Result<SubmitCommand, ToolExecutionError>)
    requires
        doc.wf(),
        i < doc@.len(),
    ensures
        match r {
            Ok(c) => command_arg(doc@, i as int) == Ok::<CommandActionModel, ToolErrorModel>(c@),
            Err(e) => command_arg(doc@, i as int) == Err::<CommandActionModel, ToolErrorModel>(e@),
        },
{
    let id = required_string(doc, i, "id")?;
    let argv = required_string_array(doc, i, "argv")?;
    let description = required_string(doc, i, "description")?;
    Ok(SubmitCommand { id, argv, description })
}

fn parse_confirmation_args(doc: &JsonDoc) -> (r: Result<
    Vec<SubmitConfirmation>,
    ToolExecutionError,
>)
    requires
        doc.wf(),
    ensures
        match r {
            Ok(v) => confirmation_args(doc@) == Ok::<
                Seq<SubmitConfirmationModel>,
                ToolErrorModel,
            >(deep(v@)),
            Err(e) => confirmation_args(doc@) == Err::<
                Seq<SubmitConfirmationModel>,
                ToolErrorModel,
            >(e@),
        },
{
    let at = list_at(doc, "confirmations")?;
    let ghost all = indices(at@);
    let ghost read = |k: int| confirmation_arg(doc@, k);
    let mut out: Vec<SubmitConfirmation> = Vec::new();
    let mut k: usize = 0;
    assert(all.take(0) =~= Seq::empty());
    assert(deep(out@) =~= Seq::empty());
    while k < at.len()
        invariant
            k <= at@.len(),
            doc.wf(),
            all == indices(at@),
            forall|j: int| 0 <= j < at@.len() ==> #[trigger] at@[j] < doc@.len(),
            read == (|k: int| confirmation_arg(doc@, k)),
            confirmation_args(doc@) == read_list(all, read),
            read_list(all.take(k as int), read) == Ok::<
                Seq<SubmitConfirmationModel>,
                ToolErrorModel,
            >(deep(out@)),
        decreases at@.len() - k,
    {
        proof {
            lemma_read_list_step(all, read, k as int);
        }
        let ghost before = out@;
        let c = parse_confirmation(doc, at[k])?;
        out.push(c);
        proof {
            lemma_deep_push(before, c);
        }
        k = k + 1;
    }
    assert(all.take(all.len() as int) =~= all);
    Ok(out)
}

fn parse_patch_args(doc: &JsonDoc) -> (r: Result<Vec<SubmitPatch>, ToolExecutionError>)
    requires
        doc.wf(),
    ensures
        match r {
            Ok(v) => patch_args(doc@) == Ok::<Seq<PatchActionModel>, ToolErrorModel>(deep(v@)),
            Err(e) => patch_args(doc@) == Err::<Seq<PatchActionModel>, ToolErrorModel>(e@),
        },
{
    let at = list_at(doc, "patches")?;
    let ghost all = indices(at@);
    let ghost read = |k: int| patch_arg(doc@, k);
    let mut out: Vec<SubmitPatch> = Vec::new();
    let mut k: usize = 0;
    assert(all.take(0) =~= Seq::empty());
    assert(deep(out@) =~= Seq::empty());
    while k < at.len()
        invariant
            k <= at@.len(),
            doc.wf(),
            all == indices(at@),
            forall|j: int| 0 <= j < at@.len() ==> #[trigger] at@[j] < doc@.len(),
            read == (|k: int| patch_arg(doc@, k)),
            patch_args(doc@) == read_list(all, read),
            read_list(all.take(k as int), read) == Ok::<Seq<PatchActionModel>, ToolErrorModel>(
                deep(out@),
            ),
        decreases at@.len() - k,
    {
        proof {
            lemma_read_list_step(all, read, k as int);
        }
        let ghost before = out@;
        let p = parse_patch(doc, at[k])?;
        out.push(p);
        proof {
            lemma_deep_push(before, p);
        }
        k = k + 1;
    }
    assert(all.take(all.len() as int) =~= all);
    Ok(out)
}

fn parse_command_args(doc: &JsonDoc) -> (r: Result<Vec<SubmitCommand>, ToolExecutionError>)
    requires
        doc.wf(),
    ensures
        match r {
            Ok(v) => command_args(doc@) == Ok::<Seq<CommandActionModel>, ToolErrorModel>(deep(v@)),
            Err(e) => command_args(doc@) == Err::<Seq<CommandActionModel>, ToolErrorModel>(e@),
        },
{
    let at = list_at(doc, "commands")?;
    let ghost all = indices(at@);
    let ghost read = |k: int| command_arg(doc@, k);
    let mut out: Vec<SubmitCommand> = Vec::new();
    let mut k: usize = 0;
    assert(all.take(0) =~= Seq::empty());
    assert(deep(out@) =~= Seq::empty());
    while k < at.len()
        invariant
            k <= at@.len(),
            doc.wf(),
            all == indices(at@),
            forall|j: int| 0 <= j < at@.len() ==> #[trigger] at@[j] < doc@.len(),
            read == (|k: int| command_arg(doc@, k)),
            command_args(doc@) == read_list(all, read),
            read_list(all.take(k as int), read) == Ok::<Seq<CommandActionModel>, ToolErrorModel>(
                deep(out@),
            ),
        decreases at@.len() - k,
    {
        proof {
            lemma_read_list_step(all, read, k as int);
        }
        let ghost before = out@;
        let c = parse_command(doc, at[k])?;
        out.push(c);
        proof {
            lemma_deep_push(before, c);
        }
        k = k + 1;
    }
    assert(all.take(all.len() as int) =~= all);
    Ok(out)
}

/// `submit_plan: `, the kind, and what is wrong with its id.
fn id_error(kind: &str, why: &str) -> (r: ToolExecutionError)
    ensures
        r@ == bad_arguments("submit_plan: "@ + kind@ + ": "@ + why@),
{
    let mut message = "submit_plan: ".to_owned();
    message.append(kind);
    message.append(": ");
    message.append(why);
    ToolExecutionError::ArgumentsParseFailed(message)
}

/// Checks an id; `taken` says whether an earlier item has it.
fn check_plan_id(id: &str, kind: &str, taken: bool) -> (r: Result<(), ToolExecutionError>)
    ensures
        match r {
            Ok(_) => valid_id(id@) && !taken,
            Err(e) => e@ == (if valid_id(id@) {
                taken_id(kind@, id@)
            } else {
                bad_id(kind@, id@)
            }) && (valid_id(id@) ==> taken),
        },
{
    match validate_plan_id(id) {
        Ok(_) => {},
        Err(e) => return Err(id_error(kind, e.to_string().as_str())),
    }
    if taken {
        let mut message = "submit_plan: duplicate ".to_owned();
        message.append(kind);
        message.append(" id ");
        message.append(debug_of(id).as_str());
        return Err(ToolExecutionError::ArgumentsParseFailed(message));
    }
    Ok(())
}

impl SubmitPlanInvocation {
    fn confirmation_has(&self, id: &str, n: usize) -> (r: bool)
        requires
            n <= self.confirmations@.len(),
        ensures
            r == confirmation_has(self@, id@, n as int),
    {
        let mut j: usize = 0;
        while j < n
            invariant
                j <= n <= self.confirmations@.len(),
                forall|k: int| 0 <= k < j ==> (#[trigger] self@.confirmations[k]).id != id@,
            decreases n - j,
        {
            assert(self@.confirmations[j as int] == self.confirmations@[j as int]@);
            if same(self.confirmations[j].id.as_str(), id) {
                return true;
            }
            j = j + 1;
        }
        false
    }

    fn patch_has(&self, id: &str, n: usize) -> (r: bool)
        requires
            n <= self.patches@.len(),
        ensures
            r == patch_has(self@, id@, n as int),
    {
        let mut j: usize = 0;
        while j < n
            invariant
                j <= n <= self.patches@.len(),
                forall|k: int| 0 <= k < j ==> (#[trigger] self@.patches[k]).id != id@,
            decreases n - j,
        {
            assert(self@.patches[j as int] == self.patches@[j as int]@);
            if same(self.patches[j].id.as_str(), id) {
                return true;
            }
            j = j + 1;
        }
        false
    }

    fn command_has(&self, id: &str, n: usize) -> (r: bool)
        requires
            n <= self.commands@.len(),
        ensures
            r == command_has(self@, id@, n as int),
    {
        let mut j: usize = 0;
        while j < n
            invariant
                j <= n <= self.commands@.len(),
                forall|k: int| 0 <= k < j ==> (#[trigger] self@.commands[k]).id != id@,
            decreases n - j,
        {
            assert(self@.commands[j as int] == self.commands@[j as int]@);
            if same(self.commands[j].id.as_str(), id) {
                return true;
            }
            j = j + 1;
        }
        false
    }

    fn check_confirmation(&self, i: usize) -> (r: Result<(), ToolExecutionError>)
        requires
            i < self.confirmations@.len(),
        ensures
            match r {
                Ok(_) => confirmation_error(self@, i as int) is None,
                Err(e) => confirmation_error(self@, i as int) == Some(e@),
            },
    {
        let c = &self.confirmations[i];
        assert(self@.confirmations[i as int] == c@);
        if same(c.id.as_str(), RESERVED_CONFIRMATION_ID) {
            return Err(bad("submit_plan: the all-ok confirmation is reserved"));
        }
        check_plan_id(
            c.id.as_str(),
            "confirmation",
            self.confirmation_has(c.id.as_str(), i),
        )?;
        if trim(c.description.as_str()).as_str().is_empty() {
            return Err(bad("submit_plan: confirmation description must not be empty"));
        }
        Ok(())
    }

    fn check_patch(&self, i: usize) -> (r: Result<(), ToolExecutionError>)
        requires
            i < self.patches@.len(),
        ensures
            match r {
                Ok(_) => patch_error(self@, i as int) is None,
                Err(e) => patch_error(self@, i as int) == Some(e@),
            },
    {
        let p = &self.patches[i];
        assert(self@.patches[i as int] == p@);
        let taken = self.confirmation_has(p.id.as_str(), self.confirmations.len())
            || self.patch_has(p.id.as_str(), i);
        check_plan_id(p.id.as_str(), "patch", taken)?;
        if trim(p.path.as_str()).as_str().is_empty() {
            return Err(bad("submit_plan: patch path must not be empty"));
        }
        if trim(p.description.as_str()).as_str().is_empty() {
            return Err(bad("submit_plan: patch description must not be empty"));
        }
        Ok(())
    }

    fn check_path(&self, i: usize) -> (r: Result<(), ToolExecutionError>)
        requires
            i < self.patches@.len(),
        ensures
            match r {
                Ok(_) => path_error(self@, i as int) is None,
                Err(e) => path_error(self@, i as int) == Some(e@),
            },
    {
        let path = &self.patches[i].path;
        assert(self@.patches[i as int] == self.patches@[i as int]@);
        let mut j: usize = 0;
        while j < i
            invariant
                j <= i < self.patches@.len(),
                path@ == self@.patches[i as int].path,
                forall|k: int| 0 <= k < j ==> (#[trigger] self@.patches[k]).path != path@,
            decreases i - j,
        {
            assert(self@.patches[j as int] == self.patches@[j as int]@);
            if same(self.patches[j].path.as_str(), path.as_str()) {
                let mut message = "submit_plan: duplicate patch path ".to_owned();
                message.append(debug_of(path.as_str()).as_str());
                return Err(ToolExecutionError::ArgumentsParseFailed(message));
            }
            j = j + 1;
        }
        Ok(())
    }

    fn check_command(&self, i: usize) -> (r: Result<(), ToolExecutionError>)
        requires
            i < self.commands@.len(),
        ensures
            match r {
                Ok(_) => command_error(self@, i as int) is None,
                Err(e) => command_error(self@, i as int) == Some(e@),
            },
    {
        let c = &self.commands[i];
        assert(self@.commands[i as int] == c@);
        let taken = self.confirmation_has(c.id.as_str(), self.confirmations.len())
            || self.patch_has(c.id.as_str(), self.patches.len()) || self.command_has(
            c.id.as_str(),
            i,
        );
        check_plan_id(c.id.as_str(), "command", taken)?;
        if c.argv.len() == 0 {
            return Err(bad("submit_plan: command argv must have at least one element"));
        }
        if trim(c.description.as_str()).as_str().is_empty() {
            return Err(bad("submit_plan: command description must not be empty"));
        }
        Ok(())
    }

    fn check_argv(&self, i: usize) -> (r: Result<(), ToolExecutionError>)
        requires
            i < self.commands@.len(),
        ensures
            match r {
                Ok(_) => argv_error(self@, i as int) is None,
                Err(e) => argv_error(self@, i as int) == Some(e@),
            },
    {
        let argv = &self.commands[i].argv;
        assert(self@.commands[i as int] == self.commands@[i as int]@);
        let mut j: usize = 0;
        while j < i
            invariant
                j <= i < self.commands@.len(),
                views(argv@) == self@.commands[i as int].argv,
                forall|k: int| 0 <= k < j ==> (#[trigger] self@.commands[k]).argv != views(argv@),
            decreases i - j,
        {
            assert(self@.commands[j as int] == self.commands@[j as int]@);
            if same_list(&self.commands[j].argv, argv) {
                let mut message = "submit_plan: duplicate command argv ".to_owned();
                message.append(debug_list_of(argv).as_str());
                return Err(ToolExecutionError::ArgumentsParseFailed(message));
            }
            j = j + 1;
        }
        Ok(())
    }

    fn check_confirmations(&self) -> (r: Result<(), ToolExecutionError>)
        ensures
            ({
                let first = first_some(
                    self@.confirmations.len() as int,
                    |i: int| confirmation_error(self@, i),
                );
                match r {
                    Ok(_) => first is None,
                    Err(e) => first == Some(e@),
                }
            }),
    {
        let ghost f = |i: int| confirmation_error(self@, i);
        let mut i: usize = 0;
        while i < self.confirmations.len()
            invariant
                i <= self.confirmations@.len(),
                f == (|i: int| confirmation_error(self@, i)),
                forall|j: int| 0 <= j < i ==> #[trigger] f(j) is None,
            decreases self.confirmations@.len() - i,
        {
            match self.check_confirmation(i) {
                Ok(_) => {},
                Err(e) => {
                    proof {
                        lemma_first_at(self@.confirmations.len() as int, f, i as int);
                    }
                    return Err(e);
                },
            }
            i = i + 1;
        }
        proof {
            lemma_first_none(self@.confirmations.len() as int, f);
        }
        Ok(())
    }

    fn check_patches(&self) -> (r: Result<(), ToolExecutionError>)
        ensures
            ({
                let n = self@.patches.len() as int;
                let first = first_some(n, |i: int| patch_error(self@, i));
                let second = first_some(n, |i: int| path_error(self@, i));
                match r {
                    Ok(_) => first is None && second is None,
                    Err(e) => first == Some(e@) || (first is None && second == Some(e@)),
                }
            }),
    {
        let ghost n = self@.patches.len() as int;
        let ghost f = |i: int| patch_error(self@, i);
        let ghost g = |i: int| path_error(self@, i);
        let mut i: usize = 0;
        while i < self.patches.len()
            invariant
                i <= self.patches@.len() == n,
                f == (|i: int| patch_error(self@, i)),
                forall|j: int| 0 <= j < i ==> #[trigger] f(j) is None,
            decreases self.patches@.len() - i,
        {
            match self.check_patch(i) {
                Ok(_) => {},
                Err(e) => {
                    proof {
                        lemma_first_at(n, f, i as int);
                    }
                    return Err(e);
                },
            }
            i = i + 1;
        }
        proof {
            lemma_first_none(n, f);
        }
        let mut i: usize = 0;
        while i < self.patches.len()
            invariant
                i <= self.patches@.len() == n,
                g == (|i: int| path_error(self@, i)),
                first_some(n, f) is None,
                f == (|i: int| patch_error(self@, i)),
                forall|j: int| 0 <= j < i ==> #[trigger] g(j) is None,
            decreases self.patches@.len() - i,
        {
            match self.check_path(i) {
                Ok(_) => {},
                Err(e) => {
                    proof {
                        lemma_first_at(n, g, i as int);
                    }
                    return Err(e);
                },
            }
            i = i + 1;
        }
        proof {
            lemma_first_none(n, g);
        }
        Ok(())
    }

    fn check_commands(&self) -> (r: Result<(), ToolExecutionError>)
        ensures
            ({
                let n = self@.commands.len() as int;
                let first = first_some(n, |i: int| command_error(self@, i));
                let second = first_some(n, |i: int| argv_error(self@, i));
                match r {
                    Ok(_) => first is None && second is None,
                    Err(e) => first == Some(e@) || (first is None && second == Some(e@)),
                }
            }),
    {
        let ghost n = self@.commands.len() as int;
        let ghost f = |i: int| command_error(self@, i);
        let ghost g = |i: int| argv_error(self@, i);
        let mut i: usize = 0;
        while i < self.commands.len()
            invariant
                i <= self.commands@.len() == n,
                f == (|i: int| command_error(self@, i)),
                forall|j: int| 0 <= j < i ==> #[trigger] f(j) is None,
            decreases self.commands@.len() - i,
        {
            match self.check_command(i) {
                Ok(_) => {},
                Err(e) => {
                    proof {
                        lemma_first_at(n, f, i as int);
                    }
                    return Err(e);
                },
            }
            i = i + 1;
        }
        proof {
            lemma_first_none(n, f);
        }
        let mut i: usize = 0;
        while i < self.commands.len()
            invariant
                i <= self.commands@.len() == n,
                g == (|i: int| argv_error(self@, i)),
                first_some(n, f) is None,
                f == (|i: int| command_error(self@, i)),
                forall|j: int| 0 <= j < i ==> #[trigger] g(j) is None,
            decreases self.commands@.len() - i,
        {
            match self.check_argv(i) {
                Ok(_) => {},
                Err(e) => {
                    proof {
                        lemma_first_at(n, g, i as int);
                    }
                    return Err(e);
                },
            }
            i = i + 1;
        }
        proof {
            lemma_first_none(n, g);
        }
        Ok(())
    }

    /// Validates a submitted plan: counts, ids, required fields, uniqueness.
    pub fn validate(&self) -> (r: Result<(), ToolExecutionError>)
        ensures
            match r {
                Ok(_) => submit_error(self@) is None,
                Err(e) => submit_error(self@) == Some(e@),
            },
    {
        if self.confirmations.len() > MAX_CONFIRMATIONS {
            return Err(bad("submit_plan: too many confirmations (max 32)"));
        }
        if self.patches.len() > MAX_ACTIONS || self.commands.len() > MAX_ACTIONS {
            return Err(bad("submit_plan: too many actions (max 128)"));
        }
        self.check_confirmations()?;
        self.check_patches()?;
        self.check_commands()?;
        Ok(())
    }

    /// The definition of the tool, as the model sees it.
    pub fn definition() -> (r: ToolDef)
        ensures
            r@ == definition("submit_plan"@, SUBMIT_PLAN_DESCRIPTION@, SUBMIT_PLAN_PARAMS_SCHEMA@),
    {
        define("submit_plan", SUBMIT_PLAN_DESCRIPTION, SUBMIT_PLAN_PARAMS_SCHEMA)
    }

    /// Reads and validates the arguments of a `submit_plan` call.
    pub fn parse(arguments_json: &str) -> (r: Result<SubmitPlanInvocation, ToolExecutionError>)
        ensures
            match r {
                Ok(p) => submit_call(arguments_json@) == Ok::<SubmitPlanModel, ToolErrorModel>(p@),
                Err(e) => submit_call(arguments_json@) == Err::<SubmitPlanModel, ToolErrorModel>(
                    e@,
                ),
            },
    {
        let doc = parse_arguments(arguments_json)?;
        SubmitPlanInvocation::from_json(&doc)
    }

    /// Reads and validates the plan that a document submits.
    pub fn from_json(doc: &JsonDoc) -> (r: Result<SubmitPlanInvocation, ToolExecutionError>)
        requires
            doc.wf(),
        ensures
            match r {
                Ok(p) => submit_of(doc@) == Ok::<SubmitPlanModel, ToolErrorModel>(p@),
                Err(e) => submit_of(doc@) == Err::<SubmitPlanModel, ToolErrorModel>(e@),
            },
    {
        let body_markdown = required_string(doc, 0, "body_markdown")?;
        if trim(body_markdown.as_str()).as_str().is_empty() {
            return Err(bad("submit_plan: body_markdown must not be empty"));
        }
        let confirmations = parse_confirmation_args(doc)?;
        let patches = parse_patch_args(doc)?;
        let commands = parse_command_args(doc)?;
        let plan = SubmitPlanInvocation { body_markdown, confirmations, patches, commands };
        plan.validate()?;
        Ok(plan)
    }
}

/// A plan that the model drafts without ending the invocation.
#[derive(Debug, Clone, PartialEq, Eq)]
pub struct PlanProposeInvocation {
    pub inner: SubmitPlanInvocation,
}

impl View for PlanProposeInvocation {
    type V = SubmitPlanModel;

    open spec fn view(&self) -> SubmitPlanModel {
        self.inner@
    }
}

/// The error with the name of the drafting tool in place of the submitting
/// one.
pub open spec fn renamed(e: ToolErrorModel) -> ToolErrorModel {
    match e {
        ToolErrorModel::ArgumentsParseFailed(msg) => bad_arguments(
            replaced(msg, "submit_plan"@, "plan"@),
        ),
        other => other,
    }
}

fn rename_plan_error(err: ToolExecutionError) -> (r: ToolExecutionError)
    ensures
        r@ == renamed(err@),
{
    match err {
        ToolExecutionError::ArgumentsParseFailed(msg) => {
            ToolExecutionError::ArgumentsParseFailed(replace(msg.as_str(), "submit_plan", "plan"))
        },
        other => other,
    }
}

impl PlanProposeInvocation {
    /// The definition of the tool, as the model sees it.
    pub fn definition() -> (r: ToolDef)
        ensures
            r@ == definition("plan"@, PLAN_DESCRIPTION@, SUBMIT_PLAN_PARAMS_SCHEMA@),
    {
        define("plan", PLAN_DESCRIPTION, SUBMIT_PLAN_PARAMS_SCHEMA)
    }

    /// Reads and validates the arguments of a `plan` call.
    pub fn parse(arguments_json: &str) -> (r: Result<PlanProposeInvocation, ToolExecutionError>)
        ensures
            match r {
                Ok(p) => submit_call(arguments_json@) == Ok::<SubmitPlanModel, ToolErrorModel>(p@),
                Err(e) => submit_call(arguments_json@) is Err && e@ == renamed(
                    submit_call(arguments_json@)->Err_0,
                ),
            },
    {
        match SubmitPlanInvocation::parse(arguments_json) {
            Ok(inner) => Ok(PlanProposeInvocation { inner }),
            Err(err) => Err(rename_plan_error(err)),
        }
    }
}

} // verus!
