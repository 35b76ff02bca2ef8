//! What the commands on plans decide: to create, check, approve, run and close
//! them.
use vstd::prelude::*;
use vstd::string::*;

use crate::agent_cli::telling::{
    holds_text, lemma_holds_inner, lemma_holds_part, lemma_joined_holds,
};
use crate::agent_cli::{AgentConfig, RateLimit, DEFAULT_MAX_TURNS};
use crate::json::value::faithful;
use crate::model::{deep, first_some, lemma_first_found, lemma_none_before, maybe};
use crate::plan::file::{actions_json, parse, plan_of, render_sealed, unsealed_plan};
use crate::plan::roundtrip::{
    law_rendered_plans_are_sealed, law_sealed_plans_read_back, renders_whole,
};
use crate::plan::seal::{is_hash, seal_hash, seal_of, sealed, verify_seal, with_seal};
use crate::plan::snapshot::{PlanSnapshot, SnapshotModel};
use crate::plan::{
    actions_error, all_ok_box, apply_confirmations, complete, confirmations_complete, confirmed,
    plan_error_text, ApprovedModel, ApprovedPlan, CommandActionModel, Confirmation,
    ConfirmationModel, ParsedPlan, PatchActionModel, PlanActions, PlanCommandAction, PlanError,
    PlanErrorModel, PlanModel, PlanPatchAction, PLAN_FORMAT_VERSION, PLAN_MAX_BYTES,
    PLAN_SNAPSHOT_VERSION, RESERVED_CONFIRMATION_ID,
};
use crate::sansio::deepseek::{clone_text, clone_texts};
use crate::sansio::permissions::{components, path_components, Authorization, AuthorizationModel};
use crate::text::{
    byte_len, cat, cat3, chars_of, debug_list_of, debug_list_text, debug_of, debug_text, decimal,
    decimal_of, join, joined, same, same_list, string_of, trimmed, utf8_text, views,
};

verus! {

broadcast use crate::model::group_deep;

/// The exit code of a plan that is well-formed and not approved.
pub const EXIT_PLAN_INCOMPLETE: u8 = 10;

/// What the planning agent is told before the prompt of the user.
pub const PLANNER_INSTRUCTIONS: &'static str =
    "You are planning mode for a coding agent. Investigate the workspace and produce a Markdown plan that covers: purpose, change approach, target paths, and verification. List exact workspace-relative patch paths and exact command argv you will need approved in the plan actions. Confirmation items are for user judgment only, not implementation steps or TODOs. Do not emit markers, checkboxes, or the all-ok item yourself — end your reply by calling the submit_plan tool with the final structured plan.";

/// The settings of an agent that makes or runs a plan.
pub struct PlanAgentOptions {
    pub model: String,
    pub system_prompt: Option<String>,
    pub skill_name: Option<String>,
    pub show_reasoning: bool,
    pub read_paths: Vec<String>,
    pub turn_tool_call_limit: usize,
    pub tool_call_rate: Option<RateLimit>,
    pub session_tool_call_max: Option<usize>,
}

/// The settings of an invocation that makes or runs a plan. One that makes a
/// plan has each call authorized by itself; one that runs a plan is authorized
/// by the plan.
pub fn plan_agent_config(
    session_name: &str,
    workspace_root: &str,
    options: &PlanAgentOptions,
    authorization: Authorization,
) -> (r: AgentConfig)
    ensures
        r.session_name@ == session_name@,
        r.model@ == options.model@,
        r.max_tokens is None,
        r.workspace_root@ == workspace_root@,
        maybe(r.system_prompt) == maybe(options.system_prompt),
        r.show_reasoning == options.show_reasoning,
        r.max_turns == DEFAULT_MAX_TURNS,
        views(r.extra_read_paths_cli@) == views(options.read_paths@),
        r.reference_paths@.len() == 0,
        r.turn_tool_call_limit == options.turn_tool_call_limit,
        r.tool_call_rate == options.tool_call_rate,
        r.session_tool_call_max == options.session_tool_call_max,
        maybe(r.skill_name) == maybe(options.skill_name),
        r.authorization == authorization,
{
    AgentConfig {
        session_name: session_name.to_owned(),
        model: options.model.clone(),
        max_tokens: None,
        workspace_root: workspace_root.to_owned(),
        system_prompt: clone_text(&options.system_prompt),
        show_reasoning: options.show_reasoning,
        max_turns: DEFAULT_MAX_TURNS,
        extra_read_paths_cli: clone_texts(&options.read_paths),
        reference_paths: Vec::new(),
        turn_tool_call_limit: options.turn_tool_call_limit,
        tool_call_rate: options.tool_call_rate,
        session_tool_call_max: options.session_tool_call_max,
        skill_name: clone_text(&options.skill_name),
        authorization,
    }
}

/// The authorization of an invocation that runs a plan: the plan with its
/// hash, and the snapshot that was stored of it.
pub fn authorize_run(hash: &str, parsed: &ParsedPlan, snapshot_path: &str) -> (r: Authorization)
    ensures
        r@ == AuthorizationModel::ApprovedPlan(
            ApprovedModel {
                plan_sha256: hash@,
                actions: parsed@.actions,
                snapshot_path: snapshot_path@,
            },
        ),
{
    Authorization::ApprovedPlan(
        ApprovedPlan {
            plan_sha256: hash.to_owned(),
            actions: parsed.actions.clone(),
            snapshot_path: snapshot_path.to_owned(),
        },
    )
}

/// The prompt of the planning agent.
pub fn create_prompt(prompt: &str) -> (r: String)
    ensures
        r@ == PLANNER_INSTRUCTIONS@ + "\n\nUser request: "@ + prompt@,
{
    cat3(PLANNER_INSTRUCTIONS, "\n\nUser request: ", prompt)
}

/// The last component of a path, where it names a file.
pub open spec fn file_name_of(path: Seq<char>) -> Option<Seq<char>> {
    let parts = path_components(path);
    if parts.len() == 0 || parts.last() == "/"@ || parts.last() == "."@ || parts.last() == ".."@ {
        None
    } else {
        Some(parts.last())
    }
}

/// The last component of a path, where it names a file.
pub fn file_name(path: &str) -> (r: Option<String>)
    ensures
        maybe(r) == file_name_of(path@),
{
    let parts = components(path);
    let ghost all = path_components(path@);
    assert(all.len() == parts@.len());
    if parts.len() == 0 {
        return None;
    }
    let last = parts[parts.len() - 1].as_str();
    assert(all.last() == last@);
    if same(last, "/") || same(last, ".") || same(last, "..") {
        None
    } else {
        Some(last.to_owned())
    }
}

/// The place of the last dot in a text, or -1.
pub open spec fn last_dot(s: Seq<char>) -> int
    decreases s.len(),
{
    if s.len() == 0 {
        -1
    } else if s.last() == '.' {
        s.len() - 1
    } else {
        last_dot(s.drop_last())
    }
}

/// The extension of a path: what stands behind the last dot of the file name,
/// unless that dot is its first character.
pub open spec fn extension_of(path: Seq<char>) -> Option<Seq<char>> {
    match file_name_of(path) {
        None => None,
        Some(name) => if last_dot(name) <= 0 {
            None
        } else {
            Some(name.skip(last_dot(name) + 1))
        },
    }
}

/// The extension of a path.
pub fn extension(path: &str) -> (r: Option<String>)
    ensures
        maybe(r) == extension_of(path@),
{
    let name = match file_name(path) {
        None => return None,
        Some(name) => name,
    };
    let v = chars_of(name.as_str());
    let mut i: usize = v.len();
    assert(v@.take(v@.len() as int) =~= v@);
    while i > 0 && v[i - 1] != '.'
        invariant
            i <= v@.len(),
            v@ == name@,
            last_dot(v@.take(i as int)) == last_dot(name@),
        decreases i,
    {
        assert(v@.take(i as int).drop_last() =~= v@.take(i - 1));
        i = i - 1;
    }
    assert(i > 0 ==> v@.take(i as int).last() == '.');
    if i <= 1 {
        None
    } else {
        assert(v@.subrange(i as int, v@.len() as int) =~= v@.skip(i as int));
        Some(string_of(&v, i, v.len()))
    }
}

/// Checks that a plan is to be written to a Markdown file.
pub fn check_output_name(path: &str) -> (r: Result<(), String>)
    ensures
        match r {
            Ok(_) => extension_of(path@) == Some("md"@),
            Err(e) => extension_of(path@) != Some("md"@) && e@
                == "plan output must have a .md extension"@,
        },
{
    match extension(path) {
        Some(e) => if same(e.as_str(), "md") {
            Ok(())
        } else {
            Err("plan output must have a .md extension".to_owned())
        },
        None => Err("plan output must have a .md extension".to_owned()),
    }
}

/// The name of a plan that the session keeps.
pub fn plan_file_name(suffix: &str) -> (r: String)
    ensures
        r@ == "plan-"@ + suffix@ + ".md"@,
{
    cat3("plan-", suffix, ".md")
}

/// How many names are tried for a plan that the session keeps.
pub const PLAN_NAME_TRIES: usize = 8;

/// The names that are tried for a new plan, one after the other, until one is
/// free.
#[derive(Debug)]
pub struct PlanNames {
    tried: usize,
}

impl View for PlanNames {
    type V = nat;

    /// How many names have been tried.
    closed spec fn view(&self) -> nat {
        self.tried as nat
    }
}

impl PlanNames {
    /// No name has been tried.
    pub fn new() -> (r: Self)
        ensures
            r@ == 0,
    {
        PlanNames { tried: 0 }
    }

    /// The next name to try, for a suffix. There is none once all tries have
    /// been used up.
    pub fn propose(&mut self, suffix: &str) -> (r: Result<String, String>)
        ensures
            match r {
                Ok(name) => old(self)@ < PLAN_NAME_TRIES && name@ == "plan-"@ + suffix@ + ".md"@
                    && final(self)@ == old(self)@ + 1,
                Err(e) => old(self)@ >= PLAN_NAME_TRIES && e@
                    == "could not generate a unique managed plan name"@ && final(self)@
                    == old(self)@,
            },
    {
        if self.tried >= PLAN_NAME_TRIES {
            return Err("could not generate a unique managed plan name".to_owned());
        }
        self.tried = self.tried + 1;
        Ok(plan_file_name(suffix))
    }
}

/// What a plan file holds. It must be text, and not too long.
pub open spec fn plan_bytes_text(path: Seq<char>, bytes: Seq<u8>) -> Result<Seq<char>, Seq<char>> {
    if bytes.len() > PLAN_MAX_BYTES {
        Err("plan "@ + path + " exceeds "@ + decimal(PLAN_MAX_BYTES as nat) + " bytes"@)
    } else if vstd::utf8::valid_utf8(bytes) {
        Ok(vstd::utf8::decode_utf8(bytes))
    } else {
        Err("plan "@ + path + " is not valid UTF-8"@)
    }
}

/// Reads the bytes of a plan file.
pub fn plan_text(path: &str, bytes: &[u8]) -> (r: Result<String, String>)
    ensures
        match r {
            Ok(t) => plan_bytes_text(path@, bytes@) == Ok::<Seq<char>, Seq<char>>(t@),
            Err(e) => plan_bytes_text(path@, bytes@) == Err::<Seq<char>, Seq<char>>(e@),
        },
{
    if bytes.len() > PLAN_MAX_BYTES {
        let mut out = cat3("plan ", path, " exceeds ");
        out.append(decimal_of(PLAN_MAX_BYTES as u64).as_str());
        out.append(" bytes");
        return Err(out);
    }
    match utf8_text(bytes) {
        Ok(text) => {
            proof {
                vstd::utf8::encode_utf8_decode_utf8(text@);
            }
            Ok(text.to_owned())
        },
        Err(_) => Err(cat3("plan ", path, " is not valid UTF-8")),
    }
}

/// The ids of the items whose box is checked, or is not.
pub open spec fn ids_where(items: Seq<ConfirmationModel>, checked: bool) -> Seq<Seq<char>>
    decreases items.len(),
{
    if items.len() == 0 {
        Seq::empty()
    } else if items.last().checked == checked {
        ids_where(items.drop_last(), checked).push(items.last().id)
    } else {
        ids_where(items.drop_last(), checked)
    }
}

fn find_ids(items: &Vec<Confirmation>, checked: bool) -> (r: Vec<String>)
    ensures
        views(r@) == ids_where(deep(items@), checked),
        r@.len() <= items@.len(),
{
    let ghost all = deep(items@);
    let mut out: Vec<String> = Vec::new();
    let mut i: usize = 0;
    assert(all.take(0) =~= Seq::empty());
    assert(views(out@) =~= Seq::empty());
    while i < items.len()
        invariant
            i <= items@.len(),
            all == deep(items@),
            views(out@) == ids_where(all.take(i as int), checked),
            out@.len() <= i,
        decreases items@.len() - i,
    {
        let ghost before = views(out@);
        proof {
            assert(all.take(i + 1).drop_last() =~= all.take(i as int));
            assert(all.take(i + 1).last() == items@[i as int]@);
        }
        if items[i].checked == checked {
            out.push(items[i].id.clone());
            assert(views(out@) =~= before.push(items@[i as int].id@));
        }
        i = i + 1;
    }
    assert(all.take(all.len() as int) =~= all);
    out
}

/// What a command prints, and its exit code.
#[derive(Debug, PartialEq, Eq)]
pub struct Report {
    pub out: Vec<String>,
    pub err: Vec<String>,
    pub exit: u8,
}

/// A [`Report`] as a mathematical value.
#[verifier::ext_equal]
pub struct ReportModel {
    pub out: Seq<Seq<char>>,
    pub err: Seq<Seq<char>>,
    pub exit: u8,
}

impl View for Report {
    type V = ReportModel;

    open spec fn view(&self) -> ReportModel {
        ReportModel { out: views(self.out@), err: views(self.err@), exit: self.exit }
    }
}

/// What is printed of a plan that is well-formed.
pub open spec fn check_lines(path: Seq<char>, text: Seq<char>, p: PlanModel) -> Seq<Seq<char>> {
    let unchecked = ids_where(p.confirmations, false);
    seq![
        "plan: "@ + path,
        "format version: "@ + decimal(PLAN_FORMAT_VERSION as nat),
        "plan_sha256: "@ + seal_of(text),
        "seal: "@ + (if sealed(text) {
            "ok"@
        } else {
            "mismatch"@
        }),
        "confirmations: "@ + decimal(p.confirmations.len()) + " total, "@ + decimal(
            unchecked.len(),
        ) + " unchecked"@,
    ] + (if unchecked.len() > 0 {
        seq!["unchecked: "@ + joined(unchecked, ", "@)]
    } else {
        Seq::empty()
    })
}

/// What the check of a plan prints. It succeeds only for a plan that is
/// sealed and confirmed.
pub open spec fn check_report(path: Seq<char>, text: Seq<char>) -> ReportModel {
    match plan_of(text) {
        Err(e) => ReportModel {
            out: Seq::empty(),
            err: seq!["attini: plan is malformed: "@ + plan_error_text(e)],
            exit: 1,
        },
        Ok(p) => if sealed(text) && complete(p.confirmations) {
            ReportModel { out: check_lines(path, text, p), err: Seq::empty(), exit: 0 }
        } else {
            ReportModel {
                out: check_lines(path, text, p),
                err: seq![
                    "attini: plan is not approved ("@ + (if !sealed(text) {
                        "seal mismatch"@
                    } else {
                        "confirmation incomplete"@
                    }) + "); run `attini plan ok` to re-seal"@,
                ],
                exit: EXIT_PLAN_INCOMPLETE,
            }
        },
    }
}

fn hash_of(text: &str) -> (r: String)
    ensures
        r@ == seal_of(text@),
{
    proof {
        vstd::utf8::encode_utf8_valid_utf8(text@);
        vstd::utf8::encode_utf8_decode_utf8(text@);
    }
    match seal_hash(text.as_bytes()) {
        Ok(h) => h,
        Err(_) => String::new(),
    }
}

fn is_sealed(text: &str) -> (r: bool)
    ensures
        r == sealed(text@),
{
    match verify_seal(text) {
        Ok(b) => b,
        Err(_) => false,
    }
}

/// Checks a plan that has been read, given its text.
fn check_parsed(plan_path: &str, text: &str, parsed: &ParsedPlan) -> (r: Report)
    requires
        plan_of(text@) == Ok::<PlanModel, PlanErrorModel>(parsed@),
    ensures
        r@ == check_report(plan_path@, text@),
{
    let seal_ok = is_sealed(text);
    let done = confirmations_complete(&parsed.confirmations);
    let unchecked = find_ids(&parsed.confirmations, false);
    assert(views(unchecked@).len() == unchecked@.len());
    assert(parsed@.confirmations.len() == parsed.confirmations@.len());
    let mut out: Vec<String> = Vec::new();
    out.push(cat("plan: ", plan_path));
    out.push(cat("format version: ", decimal_of(PLAN_FORMAT_VERSION).as_str()));
    out.push(cat("plan_sha256: ", hash_of(text).as_str()));
    out.push(
        cat(
            "seal: ",
            if seal_ok {
                "ok"
            } else {
                "mismatch"
            },
        ),
    );
    let mut count = cat3(
        "confirmations: ",
        decimal_of(parsed.confirmations.len() as u64).as_str(),
        " total, ",
    );
    count.append(decimal_of(unchecked.len() as u64).as_str());
    count.append(" unchecked");
    out.push(count);
    if unchecked.len() > 0 {
        out.push(cat("unchecked: ", join(&unchecked, ", ").as_str()));
    }
    assert(views(out@) =~= check_lines(plan_path@, text@, parsed@));
    let mut err: Vec<String> = Vec::new();
    if !done || !seal_ok {
        let why = cat3(
            "attini: plan is not approved (",
            if !seal_ok {
                "seal mismatch"
            } else {
                "confirmation incomplete"
            },
            "); run `attini plan ok` to re-seal",
        );
        err.push(why);
        assert(views(err@) =~= seq![why@]);
        return Report { out, err, exit: EXIT_PLAN_INCOMPLETE };
    }
    assert(views(err@) =~= Seq::empty());
    Report { out, err, exit: 0 }
}

/// Checks a plan: whether it is well-formed, sealed and confirmed.
pub fn check_plan(plan_path: &str, text: &str) -> (r: Report)
    ensures
        r@ == check_report(plan_path@, text@),
{
    match parse(text) {
        Err(e) => {
            let out: Vec<String> = Vec::new();
            let mut err: Vec<String> = Vec::new();
            let line = cat("attini: plan is malformed: ", e.to_string().as_str());
            err.push(line);
            assert(views(out@) =~= Seq::empty());
            assert(views(err@) =~= seq![line@]);
            Report { out, err, exit: 1 }
        },
        Ok(parsed) => check_parsed(plan_path, text, &parsed),
    }
}

/// A plan whose boxes have been checked.
#[derive(Debug, PartialEq, Eq)]
pub struct Resealed {
    /// The new text of the plan.
    pub text: String,
    /// What is printed.
    pub lines: Vec<String>,
}

/// The text of a plan after boxes have been checked: sealed anew.
pub open spec fn resealed(p: PlanModel, all: bool, ids: Seq<Seq<char>>) -> Result<
    (Seq<char>, Seq<Seq<char>>),
    PlanErrorModel,
> {
    match confirmed(p.confirmations, all, ids) {
        Err(e) => Err(e),
        Ok(items) => match actions_error(p.actions) {
            Some(e) => Err(e),
            None => {
                let text = unsealed_plan(p.body_markdown, p.actions, items);
                let after = with_seal(text, seal_of(text));
                let checked = ids_where(items, true);
                Ok(
                    (
                        after,
                        seq![
                            "ok: "@ + decimal(checked.len()) + " checked ("@ + joined(
                                checked,
                                ", "@,
                            ) + ")"@,
                            "seal: "@ + seal_of(after),
                        ],
                    ),
                )
            },
        },
    }
}

/// Checks boxes of a plan that has been read, and seals it anew.
pub fn ok_parsed(parsed: &ParsedPlan, all: bool, item_ids: &Vec<String>) -> (r: Result<
    Resealed,
    PlanError,
>)
    ensures
        match r {
            Ok(x) => resealed(parsed@, all, views(item_ids@)) == Ok::<
                (Seq<char>, Seq<Seq<char>>),
                PlanErrorModel,
            >((x.text@, views(x.lines@))),
            Err(e) => resealed(parsed@, all, views(item_ids@)) == Err::<
                (Seq<char>, Seq<Seq<char>>),
                PlanErrorModel,
            >(e@),
        },
{
    let updated = apply_confirmations(parsed, all, item_ids)?;
    let text = render_sealed(parsed.body_markdown.as_str(), &parsed.actions, &updated)?;
    let checked = find_ids(&updated, true);
    assert(views(checked@).len() == checked@.len());
    let mut count = cat3("ok: ", decimal_of(checked.len() as u64).as_str(), " checked (");
    count.append(join(&checked, ", ").as_str());
    count.append(")");
    let seal = cat("seal: ", hash_of(text.as_str()).as_str());
    let mut lines: Vec<String> = Vec::new();
    lines.push(count);
    lines.push(seal);
    assert(views(lines@) =~= seq![count@, seal@]);
    Ok(Resealed { text, lines })
}

/// Checks boxes of a plan, and seals it anew.
pub fn ok_plan(text: &str, all: bool, item_ids: &Vec<String>) -> (r: Result<Resealed, PlanError>)
    ensures
        match plan_of(text@) {
            Err(e) => r is Err && r->Err_0@ == e,
            Ok(p) => match r {
                Ok(x) => resealed(p, all, views(item_ids@)) == Ok::<
                    (Seq<char>, Seq<Seq<char>>),
                    PlanErrorModel,
                >((x.text@, views(x.lines@))),
                Err(e) => resealed(p, all, views(item_ids@)) == Err::<
                    (Seq<char>, Seq<Seq<char>>),
                    PlanErrorModel,
                >(e@),
            },
        },
{
    let parsed = parse(text)?;
    ok_parsed(&parsed, all, item_ids)
}

/// What is said of a plan that cannot be run.
pub open spec fn run_refusal(text: Seq<char>, p: PlanModel) -> Option<Seq<char>> {
    if !sealed(text) {
        Some("attini: plan seal mismatch; run `attini plan ok` to re-seal"@)
    } else if !complete(p.confirmations) {
        Some("attini: plan confirmations incomplete; run `attini plan ok`"@)
    } else {
        None
    }
}

/// Says why a plan that has been read cannot be run, if it cannot.
pub fn refuse_run(text: &str, parsed: &ParsedPlan) -> (r: Option<String>)
    ensures
        maybe(r) == run_refusal(text@, parsed@),
{
    if !is_sealed(text) {
        return Some("attini: plan seal mismatch; run `attini plan ok` to re-seal".to_owned());
    }
    if !confirmations_complete(&parsed.confirmations) {
        return Some("attini: plan confirmations incomplete; run `attini plan ok`".to_owned());
    }
    None
}

/// Why a session cannot run a plan now, if it cannot.
pub fn refuse_busy(session_name: &str, lock_is_held: bool, has_pending: bool) -> (r: Option<String>)
    ensures
        maybe(r) == if lock_is_held {
            Some(
                "session "@ + debug_text(session_name@)
                    + " is busy (LOCK held by a live process)"@,
            )
        } else if has_pending {
            Some(
                "session "@ + debug_text(session_name@)
                    + " has a pending tool call; resolve it before plan run"@,
            )
        } else {
            None
        },
{
    let name = debug_of(session_name);
    if lock_is_held {
        return Some(cat3("session ", name.as_str(), " is busy (LOCK held by a live process)"));
    }
    if has_pending {
        return Some(
            cat3(
                "session ",
                name.as_str(),
                " has a pending tool call; resolve it before plan run",
            ),
        );
    }
    None
}

/// The confirmations that the model is told of: all but the one for all.
pub open spec fn confirmation_lines(items: Seq<ConfirmationModel>) -> Seq<char>
    decreases items.len(),
{
    if items.len() == 0 {
        Seq::empty()
    } else {
        let c = items.last();
        if c.id == RESERVED_CONFIRMATION_ID@ {
            confirmation_lines(items.drop_last())
        } else {
            confirmation_lines(items.drop_last()) + ("- "@ + c.id + " — "@ + c.description + "\n"@)
        }
    }
}

/// The patches that the model is told of.
pub open spec fn patch_lines(v: Seq<PatchActionModel>) -> Seq<char>
    decreases v.len(),
{
    if v.len() == 0 {
        Seq::empty()
    } else {
        patch_lines(v.drop_last()) + ("- patch "@ + v.last().id + ": path "@ + debug_text(
            v.last().path,
        ) + " — "@ + v.last().description + "\n"@)
    }
}

/// The commands that the model is told of.
pub open spec fn command_lines(v: Seq<CommandActionModel>) -> Seq<char>
    decreases v.len(),
{
    if v.len() == 0 {
        Seq::empty()
    } else {
        command_lines(v.drop_last()) + ("- command "@ + v.last().id + ": argv "@ + debug_list_text(
            v.last().argv,
        ) + " — "@ + v.last().description + "\n"@)
    }
}

/// What the model is told in order to run a plan.
pub open spec fn run_message(p: PlanModel) -> Seq<char> {
    "Execute the approved plan.\n\nApproved confirmations:\n"@ + confirmation_lines(
        p.confirmations,
    ) + "\nPlan:\n"@ + p.body_markdown + "\n\nApproved plan actions:\n"@ + (patch_lines(
        p.actions.patches,
    ) + command_lines(p.actions.commands))
}

fn write_confirmations(items: &Vec<Confirmation>) -> (r: String)
    ensures
        r@ == confirmation_lines(deep(items@)),
{
    let ghost all = deep(items@);
    let mut out = String::new();
    let mut i: usize = 0;
    assert(all.take(0) =~= Seq::empty());
    while i < items.len()
        invariant
            i <= items@.len(),
            all == deep(items@),
            out@ == confirmation_lines(all.take(i as int)),
        decreases items@.len() - i,
    {
        proof {
            assert(all.take(i + 1).drop_last() =~= all.take(i as int));
            assert(all.take(i + 1).last() == items@[i as int]@);
        }
        if !same(items[i].id.as_str(), RESERVED_CONFIRMATION_ID) {
            let mut line = cat3("- ", items[i].id.as_str(), " — ");
            line.append(items[i].description.as_str());
            line.append("\n");
            out.append(line.as_str());
        }
        i = i + 1;
    }
    assert(all.take(all.len() as int) =~= all);
    out
}

fn write_patches(items: &Vec<PlanPatchAction>) -> (r: String)
    ensures
        r@ == patch_lines(deep(items@)),
{
    let ghost all = deep(items@);
    let mut out = String::new();
    let mut i: usize = 0;
    assert(all.take(0) =~= Seq::empty());
    while i < items.len()
        invariant
            i <= items@.len(),
            all == deep(items@),
            out@ == patch_lines(all.take(i as int)),
        decreases items@.len() - i,
    {
        proof {
            assert(all.take(i + 1).drop_last() =~= all.take(i as int));
            assert(all.take(i + 1).last() == items@[i as int]@);
        }
        let mut line = cat3("- patch ", items[i].id.as_str(), ": path ");
        line.append(debug_of(items[i].path.as_str()).as_str());
        line.append(" — ");
        line.append(items[i].description.as_str());
        line.append("\n");
        out.append(line.as_str());
        i = i + 1;
    }
    assert(all.take(all.len() as int) =~= all);
    out
}

fn write_commands(items: &Vec<PlanCommandAction>) -> (r: String)
    ensures
        r@ == command_lines(deep(items@)),
{
    let ghost all = deep(items@);
    let mut out = String::new();
    let mut i: usize = 0;
    assert(all.take(0) =~= Seq::empty());
    while i < items.len()
        invariant
            i <= items@.len(),
            all == deep(items@),
            out@ == command_lines(all.take(i as int)),
        decreases items@.len() - i,
    {
        proof {
            assert(all.take(i + 1).drop_last() =~= all.take(i as int));
            assert(all.take(i + 1).last() == items@[i as int]@);
        }
        let mut line = cat3("- command ", items[i].id.as_str(), ": argv ");
        line.append(debug_list_of(&items[i].argv).as_str());
        line.append(" — ");
        line.append(items[i].description.as_str());
        line.append("\n");
        out.append(line.as_str());
        i = i + 1;
    }
    assert(all.take(all.len() as int) =~= all);
    out
}

/// Writes what the plan allows, one line for each action.
pub fn actions_display(actions: &PlanActions) -> (r: String)
    ensures
        r@ == patch_lines(actions@.patches) + command_lines(actions@.commands),
{
    cat(write_patches(&actions.patches).as_str(), write_commands(&actions.commands).as_str())
}

/// Writes what the model is told in order to run a plan.
pub fn build_run_message(parsed: &ParsedPlan) -> (r: String)
    ensures
        r@ == run_message(parsed@),
{
    let mut out = "Execute the approved plan.\n\nApproved confirmations:\n".to_owned();
    out.append(write_confirmations(&parsed.confirmations).as_str());
    out.append("\nPlan:\n");
    out.append(parsed.body_markdown.as_str());
    out.append("\n\nApproved plan actions:\n");
    out.append(actions_display(&parsed.actions).as_str());
    out
}

/// The session that a plan belongs to, going by its path:
/// `.attini/<SESSION>/plans/<NAME>`.
pub open spec fn session_of_path(path: Seq<char>) -> Option<Seq<char>> {
    let parts = path_components(path);
    if parts.len() >= 3 && parts[0] == ".attini"@ && parts[2] == "plans"@ {
        Some(parts[1])
    } else {
        None
    }
}

/// The session that a plan belongs to, going by its path.
pub fn infer_session(plan_path: &str) -> (r: Option<String>)
    ensures
        maybe(r) == session_of_path(plan_path@),
{
    let parts = components(plan_path);
    let ghost all = path_components(plan_path@);
    assert(all.len() == parts@.len());
    if parts.len() < 3 {
        return None;
    }
    assert(all[0] == parts@[0]@ && all[1] == parts@[1]@ && all[2] == parts@[2]@);
    if same(parts[0].as_str(), ".attini") && same(parts[2].as_str(), "plans") {
        Some(parts[1].clone())
    } else {
        None
    }
}

/// Why a plan cannot be closed, going by its path.
pub open spec fn close_error(path: Seq<char>) -> Option<Seq<char>> {
    if session_of_path(path) is None {
        Some(path + " is not a managed plan under .attini/<SESSION>/plans/"@)
    } else if path_components(path).contains("closed"@) {
        Some(path + " is already under a closed/ directory"@)
    } else {
        None
    }
}

/// The session of a plan that is to be closed, or why it cannot be.
pub fn close_session(plan_path: &str) -> (r: Result<String, String>)
    ensures
        match r {
            Ok(session) => close_error(plan_path@) is None && session_of_path(plan_path@) == Some(
                session@,
            ),
            Err(e) => close_error(plan_path@) == Some(e@),
        },
{
    let session = match infer_session(plan_path) {
        Some(s) => s,
        None => return Err(
            cat(plan_path, " is not a managed plan under .attini/<SESSION>/plans/"),
        ),
    };
    if crate::text::list_contains(&components(plan_path), "closed") {
        return Err(cat(plan_path, " is already under a closed/ directory"));
    }
    Ok(session)
}

/// What is said of a session whose plans cannot be closed now.
pub fn close_busy_text(session_name: &str) -> (r: String)
    ensures
        r@ == "session "@ + debug_text(session_name@) + " is busy; cannot close its plans"@,
{
    cat3("session ", debug_of(session_name).as_str(), " is busy; cannot close its plans")
}

/// What is stored of a plan when it is run.
pub open spec fn snapshot_for(path: Seq<char>, hash: Seq<char>, p: PlanModel) -> SnapshotModel {
    SnapshotModel {
        snapshot_version: PLAN_SNAPSHOT_VERSION,
        plan_format_version: PLAN_FORMAT_VERSION,
        plan_sha256: hash,
        canonical_path: path,
        body_markdown: p.body_markdown,
        actions: p.actions,
        confirmations: p.confirmations,
    }
}

/// Makes what is stored of a plan when it is run.
pub fn make_snapshot(plan_path: &str, hash: &str, parsed: ParsedPlan) -> (r: PlanSnapshot)
    ensures
        r@ == snapshot_for(plan_path@, hash@, parsed@),
{
    PlanSnapshot {
        snapshot_version: PLAN_SNAPSHOT_VERSION,
        plan_format_version: PLAN_FORMAT_VERSION,
        plan_sha256: hash.to_owned(),
        canonical_path: plan_path.to_owned(),
        body_markdown: parsed.body_markdown,
        actions: parsed.actions,
        confirmations: parsed.confirmations,
    }
}

fn same_patches(a: &Vec<PlanPatchAction>, b: &Vec<PlanPatchAction>) -> (r: bool)
    ensures
        r == (deep(a@) == deep(b@)),
{
    if a.len() != b.len() {
        assert(deep(a@).len() != deep(b@).len());
        return false;
    }
    let mut i: usize = 0;
    while i < a.len()
        invariant
            i <= a@.len(),
            a@.len() == b@.len(),
            forall|k: int| 0 <= k < i ==> deep(a@)[k] == #[trigger] deep(b@)[k],
        decreases a@.len() - i,
    {
        assert(deep(a@)[i as int] == a@[i as int]@ && deep(b@)[i as int] == b@[i as int]@);
        if !same(a[i].id.as_str(), b[i].id.as_str()) || !same(a[i].path.as_str(), b[i].path.as_str())
            || !same(a[i].description.as_str(), b[i].description.as_str()) {
            return false;
        }
        assert(a@[i as int]@ =~= b@[i as int]@);
        i = i + 1;
    }
    assert(deep(a@) =~= deep(b@));
    true
}

fn same_commands(a: &Vec<PlanCommandAction>, b: &Vec<PlanCommandAction>) -> (r: bool)
    ensures
        r == (deep(a@) == deep(b@)),
{
    if a.len() != b.len() {
        assert(deep(a@).len() != deep(b@).len());
        return false;
    }
    let mut i: usize = 0;
    while i < a.len()
        invariant
            i <= a@.len(),
            a@.len() == b@.len(),
            forall|k: int| 0 <= k < i ==> deep(a@)[k] == #[trigger] deep(b@)[k],
        decreases a@.len() - i,
    {
        assert(deep(a@)[i as int] == a@[i as int]@ && deep(b@)[i as int] == b@[i as int]@);
        if !same(a[i].id.as_str(), b[i].id.as_str()) || !same_list(&a[i].argv, &b[i].argv)
            || !same(a[i].description.as_str(), b[i].description.as_str()) {
            return false;
        }
        assert(a@[i as int]@ =~= b@[i as int]@);
        i = i + 1;
    }
    assert(deep(a@) =~= deep(b@));
    true
}

/// Whether what was stored of a plan earlier is the same plan.
pub fn snapshot_fits(stored: &PlanSnapshot, hash: &str, parsed: &ParsedPlan) -> (r: bool)
    ensures
        r == (stored@.plan_sha256 == hash@ && stored@.actions == parsed@.actions
            && stored@.body_markdown == parsed@.body_markdown),
{
    let patches = same_patches(&stored.actions.patches, &parsed.actions.patches);
    let commands = same_commands(&stored.actions.commands, &parsed.actions.commands);
    assert((patches && commands) == (stored.actions@ == parsed.actions@)) by {
        assert((stored.actions@ =~= parsed.actions@) == (stored.actions@.patches
            == parsed.actions@.patches && stored.actions@.commands == parsed.actions@.commands));
    }
    same(stored.plan_sha256.as_str(), hash) && patches && commands && same(
        stored.body_markdown.as_str(),
        parsed.body_markdown.as_str(),
    )
}

/// What is said of a snapshot that holds another plan.
pub fn snapshot_differs_text(snapshot_path: &str) -> (r: String)
    ensures
        r@ == "snapshot "@ + snapshot_path@
            + " exists with different content (invariant violation)"@,
{
    cat3("snapshot ", snapshot_path, " exists with different content (invariant violation)")
}

/// A plan that is run was checked before: the check succeeds for exactly the
/// plans that are well-formed and that nothing is said against.
pub proof fn law_checked_plans_run(path: Seq<char>, text: Seq<char>)
    ensures
        check_report(path, text).exit == 0 <==> plan_of(text) is Ok && run_refusal(
            text,
            plan_of(text)->Ok_0,
        ) is None,
{
}

/// A plan that is approved as a whole passes the check, and can be run: its
/// text reads back as the same plan, sealed and confirmed.
pub proof fn law_approved_plans_pass(path: Seq<char>, p: PlanModel, ids: Seq<Seq<char>>)
    requires
        confirmed(p.confirmations, true, ids) is Ok,
        renders_whole(p.body_markdown, p.actions, confirmed(p.confirmations, true, ids)->Ok_0),
        ({
            let text = unsealed_plan(
                p.body_markdown,
                p.actions,
                confirmed(p.confirmations, true, ids)->Ok_0,
            );
            is_hash(seal_of(text)) && byte_len(with_seal(text, seal_of(text))) <= PLAN_MAX_BYTES
        }),
        faithful(actions_json(p.actions)),
    ensures
        resealed(p, true, ids) is Ok,
        check_report(path, resealed(p, true, ids)->Ok_0.0).exit == 0,
        plan_of(resealed(p, true, ids)->Ok_0.0) == Ok::<PlanModel, PlanErrorModel>(
            PlanModel {
                body_markdown: trimmed(p.body_markdown),
                actions: p.actions,
                confirmations: confirmed(p.confirmations, true, ids)->Ok_0,
            },
        ),
{
    let items = confirmed(p.confirmations, true, ids)->Ok_0;
    let text = unsealed_plan(p.body_markdown, p.actions, items);
    law_sealed_plans_read_back(p.body_markdown, p.actions, items, seal_of(text));
    law_rendered_plans_are_sealed(p.body_markdown, p.actions, items);
    let f = |i: int|
        if items[i].id == RESERVED_CONFIRMATION_ID@ {
            Some(items[i].checked)
        } else {
            None
        };
    let n = items.len() as int;
    let j = choose|j: int| 0 <= j < n && (#[trigger] items[j]).id == RESERVED_CONFIRMATION_ID@;
    assert(f(j) is Some);
    if first_some(n, f) is None {
        lemma_none_before(n, f, j);
    }
    let k = lemma_first_found(n, f);
    assert(items[k].checked);
    assert(all_ok_box(items) == Some(true));
    assert(complete(items));
}

proof fn lemma_confirmation_lines(items: Seq<ConfirmationModel>, i: int)
    requires
        0 <= i < items.len(),
        items[i].id != "all-ok"@,
    ensures
        holds_text(
            confirmation_lines(items),
            "- "@ + items[i].id + " — "@ + items[i].description + "\n"@,
        ),
    decreases items.len(),
{
    let none = Seq::<char>::empty();
    let before = confirmation_lines(items.drop_last());
    let c = items.last();
    let line = "- "@ + c.id + " — "@ + c.description + "\n"@;
    if i < items.len() - 1 {
        lemma_confirmation_lines(items.drop_last(), i);
        assert(items.drop_last()[i] == items[i]);
        if c.id != RESERVED_CONFIRMATION_ID@ {
            assert((none + before) + line =~= confirmation_lines(items));
            lemma_holds_part(
                none,
                before,
                line,
                "- "@ + items[i].id + " — "@ + items[i].description + "\n"@,
            );
        }
    } else {
        assert((before + line) + none =~= confirmation_lines(items));
    }
}

proof fn lemma_patch_lines(v: Seq<PatchActionModel>, i: int)
    requires
        0 <= i < v.len(),
    ensures
        holds_text(
            patch_lines(v),
            "- patch "@ + v[i].id + ": path "@ + debug_text(v[i].path) + " — "@ + v[i].description
                + "\n"@,
        ),
    decreases v.len(),
{
    let none = Seq::<char>::empty();
    let before = patch_lines(v.drop_last());
    let a = v.last();
    let line = "- patch "@ + a.id + ": path "@ + debug_text(a.path) + " — "@ + a.description
        + "\n"@;
    if i < v.len() - 1 {
        lemma_patch_lines(v.drop_last(), i);
        assert(v.drop_last()[i] == v[i]);
        assert((none + before) + line =~= patch_lines(v));
        lemma_holds_part(
            none,
            before,
            line,
            "- patch "@ + v[i].id + ": path "@ + debug_text(v[i].path) + " — "@ + v[i].description
                + "\n"@,
        );
    } else {
        assert((before + line) + none =~= patch_lines(v));
    }
}

proof fn lemma_command_lines(v: Seq<CommandActionModel>, i: int)
    requires
        0 <= i < v.len(),
    ensures
        holds_text(
            command_lines(v),
            "- command "@ + v[i].id + ": argv "@ + debug_list_text(v[i].argv) + " — "@
                + v[i].description + "\n"@,
        ),
    decreases v.len(),
{
    let none = Seq::<char>::empty();
    let before = command_lines(v.drop_last());
    let a = v.last();
    let line = "- command "@ + a.id + ": argv "@ + debug_list_text(a.argv) + " — "@ + a.description
        + "\n"@;
    if i < v.len() - 1 {
        lemma_command_lines(v.drop_last(), i);
        assert(v.drop_last()[i] == v[i]);
        assert((none + before) + line =~= command_lines(v));
        lemma_holds_part(
            none,
            before,
            line,
            "- command "@ + v[i].id + ": argv "@ + debug_list_text(v[i].argv) + " — "@
                + v[i].description + "\n"@,
        );
    } else {
        assert((before + line) + none =~= command_lines(v));
    }
}

/// What the model is told in order to run a plan holds the whole body of the
/// plan, each item that was confirmed but the one that stands for all, and
/// each action with its path or its words.
pub proof fn law_the_whole_plan_is_told(parsed: &ParsedPlan, r: String, i: int)
    requires
        call_ensures(build_run_message, (parsed,), r),
    ensures
        holds_text(r@, parsed@.body_markdown),
        0 <= i < parsed@.confirmations.len() && parsed@.confirmations[i].id != "all-ok"@
            ==> holds_text(
            r@,
            "- "@ + parsed@.confirmations[i].id + " — "@ + parsed@.confirmations[i].description
                + "\n"@,
        ),
        0 <= i < parsed@.actions.patches.len() ==> holds_text(
            r@,
            "- patch "@ + parsed@.actions.patches[i].id + ": path "@ + debug_text(
                parsed@.actions.patches[i].path,
            ) + " — "@ + parsed@.actions.patches[i].description + "\n"@,
        ),
        0 <= i < parsed@.actions.commands.len() ==> holds_text(
            r@,
            "- command "@ + parsed@.actions.commands[i].id + ": argv "@ + debug_list_text(
                parsed@.actions.commands[i].argv,
            ) + " — "@ + parsed@.actions.commands[i].description + "\n"@,
        ),
{
    let p = parsed@;
    let none = Seq::<char>::empty();
    let a = "Execute the approved plan.\n\nApproved confirmations:\n"@;
    let c = confirmation_lines(p.confirmations);
    let b = "\nPlan:\n"@;
    let d = "\n\nApproved plan actions:\n"@;
    let patches = patch_lines(p.actions.patches);
    let commands = command_lines(p.actions.commands);
    assert(r@ =~= ((a + c + b) + p.body_markdown) + (d + (patches + commands)));
    assert(r@ =~= (a + c) + (b + p.body_markdown + d + (patches + commands)));
    assert(r@ =~= ((a + c + b + p.body_markdown + d) + patches) + commands);
    assert(r@ =~= ((a + c + b + p.body_markdown + d + patches) + commands) + none);
    if 0 <= i < p.confirmations.len() && p.confirmations[i].id != "all-ok"@ {
        lemma_confirmation_lines(p.confirmations, i);
        lemma_holds_inner(
            r@,
            c,
            "- "@ + p.confirmations[i].id + " — "@ + p.confirmations[i].description + "\n"@,
        );
    }
    if 0 <= i < p.actions.patches.len() {
        lemma_patch_lines(p.actions.patches, i);
        lemma_holds_inner(
            r@,
            patches,
            "- patch "@ + p.actions.patches[i].id + ": path "@ + debug_text(
                p.actions.patches[i].path,
            ) + " — "@ + p.actions.patches[i].description + "\n"@,
        );
    }
    if 0 <= i < p.actions.commands.len() {
        lemma_command_lines(p.actions.commands, i);
        lemma_holds_inner(
            r@,
            commands,
            "- command "@ + p.actions.commands[i].id + ": argv "@ + debug_list_text(
                p.actions.commands[i].argv,
            ) + " — "@ + p.actions.commands[i].description + "\n"@,
        );
    }
}

/// A plan belongs to the session whose directory of plans it stands in, and
/// to none where it stands elsewhere.
pub proof fn law_plans_belong_to_their_session(path: &str, r: Option<String>)
    requires
        call_ensures(infer_session, (path,), r),
    ensures
        ({
            let parts = path_components(path@);
            &&& parts.len() >= 3 && parts[0] == ".attini"@ && parts[2] == "plans"@ ==> r is Some
                && r->0@ == parts[1]
            &&& parts.len() < 3 || parts[0] != ".attini"@ || parts[2] != "plans"@ ==> r is None
        }),
{
    assert(maybe(r) is Some <==> r is Some);
}

/// A plan can be closed exactly if it stands among the plans of a session and
/// in no directory of closed ones; its session is then told.
pub proof fn law_open_plans_can_be_closed(path: &str, r: Result<String, String>)
    requires
        call_ensures(close_session, (path,), r),
    ensures
        ({
            let parts = path_components(path@);
            &&& r is Ok <==> parts.len() >= 3 && parts[0] == ".attini"@ && parts[2] == "plans"@
                && !parts.contains("closed"@)
            &&& r is Ok ==> r->Ok_0@ == parts[1]
            &&& r is Err ==> holds_text(r->Err_0@, path@)
        }),
{
    if r is Err {
        let none = Seq::<char>::empty();
        let a = " is not a managed plan under .attini/<SESSION>/plans/"@;
        let b = " is already under a closed/ directory"@;
        assert(path@ + a =~= (none + path@) + a);
        assert(path@ + b =~= (none + path@) + b);
    }
}

proof fn lemma_last_dot(s: Seq<char>)
    ensures
        -1 <= last_dot(s) < s.len(),
        last_dot(s) >= 0 ==> s[last_dot(s)] == '.',
        forall|i: int| last_dot(s) < i < s.len() ==> s[i] != '.',
    decreases s.len(),
{
    if s.len() > 0 && s.last() != '.' {
        lemma_last_dot(s.drop_last());
        assert forall|i: int| last_dot(s) < i < s.len() implies s[i] != '.' by {
            if i < s.len() - 1 {
                assert(s.drop_last()[i] == s[i]);
            }
        }
    }
}

/// A plan is written to a file whose name ends in `.md` and has something
/// before that, and to no other.
pub proof fn law_plans_are_written_to_markdown(path: &str, r: Result<(), String>)
    requires
        call_ensures(check_output_name, (path,), r),
    ensures
        r is Ok ==> ({
            let parts = path_components(path@);
            &&& parts.len() > 0
            &&& parts.last().len() > 3
            &&& parts.last().skip(parts.last().len() - 3) == ".md"@
        }),
        ({
            let parts = path_components(path@);
            parts.len() > 0 && parts.last().len() > 3 && parts.last().skip(parts.last().len() - 3)
                == ".md"@ && parts.last() != "/"@ && parts.last() != "."@ && parts.last() != ".."@
                ==> r is Ok
        }),
{
    let parts = path_components(path@);
    reveal_strlit("md");
    reveal_strlit(".md");
    assert(".md"@ =~= seq!['.'] + "md"@);
    if parts.len() > 0 {
        let name = parts.last();
        lemma_last_dot(name);
        let at = last_dot(name);
        if r is Ok {
            assert(name.skip(at + 1) == "md"@);
            assert(name.skip(at + 1).len() == 2);
            assert(at == name.len() - 3);
            assert forall|k: int| 0 <= k < 2 implies name[at + 1 + k] == #[trigger] "md"@[k] by {
                assert(name.skip(at + 1)[k] == name[at + 1 + k]);
            }
            assert(name[at + 1] == "md"@[0] && name[at + 2] == "md"@[1]);
            assert(name.skip(at) =~= ".md"@);
        }
        if name.len() > 3 && name.skip(name.len() - 3) == ".md"@ && name != "/"@ && name != "."@
            && name != ".."@ {
            let tail = name.skip(name.len() - 3);
            assert(tail[0] == name[name.len() - 3]);
            assert(tail[1] == name[name.len() - 2]);
            assert(tail[2] == name[name.len() - 1]);
            assert(".md"@[0] == '.' && ".md"@[1] == 'm' && ".md"@[2] == 'd');
            assert(at == name.len() - 3);
            assert(name.skip(at + 1) =~= "md"@);
        }
    }
}

/// The bytes of a plan file are its text, unless they are too many or no
/// text.
pub proof fn law_plan_files_are_text(path: &str, bytes: &[u8], r: Result<String, String>)
    requires
        call_ensures(plan_text, (path, bytes), r),
    ensures
        r is Ok <==> bytes@.len() <= PLAN_MAX_BYTES && vstd::utf8::valid_utf8(bytes@),
        r is Ok ==> r->Ok_0@ == vstd::utf8::decode_utf8(bytes@),
{
}

proof fn lemma_ids_where(items: Seq<ConfirmationModel>, checked: bool)
    ensures
        ids_where(items, checked).len() <= items.len(),
        ids_where(items, checked).len() + ids_where(items, !checked).len() == items.len(),
        forall|i: int|
            0 <= i < items.len() && (#[trigger] items[i]).checked == checked ==> ids_where(
                items,
                checked,
            ).contains(items[i].id),
    decreases items.len(),
{
    if items.len() > 0 {
        let front = items.drop_last();
        lemma_ids_where(front, checked);
        let before = ids_where(front, checked);
        let all = ids_where(items, checked);
        assert forall|i: int|
            0 <= i < items.len() && (#[trigger] items[i]).checked == checked implies all.contains(
            items[i].id,
        ) by {
            if i < front.len() {
                assert(front[i] == items[i]);
                let k = choose|k: int| 0 <= k < before.len() && before[k] == items[i].id;
                assert(all[k] == items[i].id);
            } else {
                assert(all[before.len() as int] == items[i].id);
            }
        }
    }
}

/// The check of a plan that can be read prints its path, its hash and
/// whether the seal fits, and names each item whose box is not checked.
pub proof fn law_checks_name_what_is_missing(path: &str, text: &str, r: Report, i: int)
    requires
        call_ensures(check_plan, (path, text), r),
        plan_of(text@) is Ok,
    ensures
        r.out@.len() >= 5,
        holds_text(r.out@[0]@, path@),
        r.out@[2]@ == "plan_sha256: "@ + seal_of(text@),
        r.out@[3]@ == "seal: "@ + (if sealed(text@) {
            "ok"@
        } else {
            "mismatch"@
        }),
        r.out@.len() == 6 <==> exists|k: int|
            0 <= k < plan_of(text@)->Ok_0.confirmations.len() && !(
            #[trigger] plan_of(text@)->Ok_0.confirmations[k]).checked,
        0 <= i < plan_of(text@)->Ok_0.confirmations.len() && !plan_of(
            text@,
        )->Ok_0.confirmations[i].checked ==> holds_text(
            r.out@[5]@,
            plan_of(text@)->Ok_0.confirmations[i].id,
        ),
{
    let p = plan_of(text@)->Ok_0;
    let none = Seq::<char>::empty();
    let lines = check_lines(path@, text@, p);
    assert(views(r.out@) == lines);
    assert(views(r.out@).len() == r.out@.len());
    assert(views(r.out@)[0] == r.out@[0]@);
    assert(views(r.out@)[2] == r.out@[2]@);
    assert(views(r.out@)[3] == r.out@[3]@);
    assert(r.out@[0]@ =~= ("plan: "@ + path@) + none);
    lemma_ids_where(p.confirmations, false);
    let ids = ids_where(p.confirmations, false);
    if ids.len() > 0 {
        lemma_ids_stand(p.confirmations, false);
        assert(views(r.out@)[5] == r.out@[5]@);
        if 0 <= i < p.confirmations.len() && !p.confirmations[i].checked {
            let id = p.confirmations[i].id;
            assert(ids.contains(id));
            let k = choose|k: int| 0 <= k < ids.len() && ids[k] == id;
            lemma_joined_holds(ids, ", "@, k);
            let list = joined(ids, ", "@);
            assert(r.out@[5]@ =~= ("unchecked: "@ + list) + none);
            lemma_holds_part("unchecked: "@, list, none, id);
        }
    }
    if exists|k: int| 0 <= k < p.confirmations.len() && !(#[trigger] p.confirmations[k]).checked {
        let k = choose|k: int| 0 <= k < p.confirmations.len() && !(#[trigger] p.confirmations[k]).checked;
        assert(ids.contains(p.confirmations[k].id));
    }
}

proof fn lemma_ids_stand(items: Seq<ConfirmationModel>, checked: bool)
    requires
        ids_where(items, checked).len() > 0,
    ensures
        exists|k: int| 0 <= k < items.len() && (#[trigger] items[k]).checked == checked,
    decreases items.len(),
{
    if items.last().checked == checked {
        assert(items[items.len() - 1].checked == checked);
    } else {
        lemma_ids_stand(items.drop_last(), checked);
        let k = choose|k: int|
            0 <= k < items.drop_last().len() && (#[trigger] items.drop_last()[k]).checked
                == checked;
        assert(items[k].checked == checked);
    }
}

/// An invocation for a plan works with the settings that it is given, under
/// the authorization that it is given.
pub proof fn law_settings_are_taken_over(
    session_name: &str,
    root: &str,
    options: &PlanAgentOptions,
    authorization: Authorization,
    r: AgentConfig,
)
    requires
        call_ensures(plan_agent_config, (session_name, root, options, authorization), r),
    ensures
        r.session_name@ == session_name@,
        r.workspace_root@ == root@,
        r.model@ == options.model@,
        r.max_turns == 20,
        r.turn_tool_call_limit == options.turn_tool_call_limit,
        r.tool_call_rate == options.tool_call_rate,
        r.session_tool_call_max == options.session_tool_call_max,
        views(r.extra_read_paths_cli@) == views(options.read_paths@),
        r.authorization == authorization,
{
}

/// What is stored of a plan is the plan: its body, its actions and its items,
/// with the hash and the path.
pub proof fn law_snapshots_hold_the_plan(path: &str, hash: &str, parsed: ParsedPlan, r: PlanSnapshot)
    requires
        call_ensures(make_snapshot, (path, hash, parsed), r),
    ensures
        r@.plan_sha256 == hash@,
        r@.canonical_path == path@,
        r@.body_markdown == parsed@.body_markdown,
        r@.actions == parsed@.actions,
        r@.confirmations == parsed@.confirmations,
{
}

/// Names for a new plan are tried eight times at most, and hold the suffix.
pub proof fn law_names_are_tried(names: &mut PlanNames, suffix: &str, r: Result<String, String>)
    requires
        call_ensures(PlanNames::propose, (names, suffix), r),
    ensures
        r is Ok <==> old(names)@ < 8,
        r is Ok ==> final(names)@ == old(names)@ + 1 && holds_text(r->Ok_0@, suffix@),
        r is Err ==> final(names)@ == old(names)@,
{
    if r is Ok {
        assert(r->Ok_0@ == ("plan-"@ + suffix@) + ".md"@);
    }
}

/// The planning agent is told the prompt of the user, behind its
/// instructions.
pub proof fn law_planners_are_told_the_prompt(prompt: &str, r: String)
    requires
        call_ensures(create_prompt, (prompt,), r),
    ensures
        r@.len() >= prompt@.len(),
        r@.skip(r@.len() - prompt@.len()) == prompt@,
        holds_text(r@, PLANNER_INSTRUCTIONS@),
{
    let none = Seq::<char>::empty();
    assert(r@.skip(r@.len() - prompt@.len()) =~= prompt@);
    assert(r@ =~= (none + PLANNER_INSTRUCTIONS@) + ("\n\nUser request: "@ + prompt@));
}

} // verus!
