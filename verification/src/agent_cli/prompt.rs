//! The messages that stand before the conversation: where the session is
//! rooted, what is remembered, and what the user asked to have at hand.
use vstd::prelude::*;
use vstd::string::*;

use crate::model::{deep, maybe};
use crate::sansio::deepseek::{clone_messages, clone_text, ChatMessage, MessageModel};
use crate::text::{
    cat3, contains, contains_str, decimal, decimal_of, list_contains, lossy, lossy_text, trim,
    trimmed, utf8_error, utf8_text, views,
};

verus! {

broadcast use crate::model::group_deep;

/// Files larger than this do not go into the system prompt; the model is told
/// where to read them.
pub const REFERENCE_MAX_BYTES: usize = 32 * 1024;

/// A file that the user refers to.
#[derive(Debug, PartialEq, Eq)]
pub struct ResolvedReference {
    pub abs_path: String,
    /// What it holds, unless it is too large.
    pub inline: Option<String>,
}

/// A [`ResolvedReference`] as a mathematical value.
#[verifier::ext_equal]
pub struct ReferenceModel {
    pub abs_path: Seq<char>,
    pub inline: Option<Seq<char>>,
}

impl View for ResolvedReference {
    type V = ReferenceModel;

    open spec fn view(&self) -> ReferenceModel {
        ReferenceModel { abs_path: self.abs_path@, inline: maybe(self.inline) }
    }
}

/// What becomes of a file that the user refers to.
pub open spec fn reference_of(abs_path: Seq<char>, bytes: Seq<u8>) -> Result<
    ReferenceModel,
    Seq<char>,
> {
    if bytes.len() > REFERENCE_MAX_BYTES {
        Ok(ReferenceModel { abs_path, inline: None })
    } else if vstd::utf8::valid_utf8(bytes) {
        Ok(ReferenceModel { abs_path, inline: Some(vstd::utf8::decode_utf8(bytes)) })
    } else {
        Err("--reference "@ + abs_path + ": not valid UTF-8: "@ + utf8_error(bytes))
    }
}

/// Decides what becomes of a file that the user refers to.
pub fn resolve_reference(abs_path: &str, bytes: &[u8]) -> (r: Result<ResolvedReference, String>)
    ensures
        match r {
            Ok(x) => reference_of(abs_path@, bytes@) == Ok::<ReferenceModel, Seq<char>>(x@),
            Err(e) => reference_of(abs_path@, bytes@) == Err::<ReferenceModel, Seq<char>>(e@),
        },
{
    if bytes.len() > REFERENCE_MAX_BYTES {
        return Ok(ResolvedReference { abs_path: abs_path.to_owned(), inline: None });
    }
    match utf8_text(bytes) {
        Ok(text) => {
            proof {
                vstd::utf8::encode_utf8_decode_utf8(text@);
            }
            Ok(ResolvedReference { abs_path: abs_path.to_owned(), inline: Some(text.to_owned()) })
        },
        Err(e) => {
            let mut out = cat3("--reference ", abs_path, ": not valid UTF-8: ");
            out.append(e.as_str());
            Err(out)
        },
    }
}

/// What the model is told of a file.
pub open spec fn reference_text(r: ReferenceModel) -> Seq<char> {
    match r.inline {
        Some(content) => "### "@ + r.abs_path + "\n\n"@ + content + "\n\n"@,
        None => "- "@ + r.abs_path
            + " — too large to inline; readable via the `read` tool at this absolute path\n"@,
    }
}

/// What the model is told of files, one behind the other.
pub open spec fn reference_texts(v: Seq<ReferenceModel>) -> Seq<char>
    decreases v.len(),
{
    if v.len() == 0 {
        Seq::empty()
    } else {
        reference_texts(v.drop_last()) + reference_text(v.last())
    }
}

fn write_reference(r: &ResolvedReference) -> (t: String)
    ensures
        t@ == reference_text(r@),
{
    match &r.inline {
        Some(content) => {
            let mut out = cat3("### ", r.abs_path.as_str(), "\n\n");
            out.append(content.as_str());
            out.append("\n\n");
            out
        },
        None => cat3(
            "- ",
            r.abs_path.as_str(),
            " — too large to inline; readable via the `read` tool at this absolute path\n",
        ),
    }
}

fn write_references(v: &Vec<ResolvedReference>) -> (t: String)
    ensures
        t@ == "# Reference files\n\n"@ + reference_texts(deep(v@)),
{
    let mut out = "# Reference files\n\n".to_owned();
    let ghost head = out@;
    let ghost all = deep(v@);
    let mut i: usize = 0;
    assert(all.take(0) =~= Seq::empty());
    assert(head + reference_texts(all.take(0)) =~= head);
    while i < v.len()
        invariant
            i <= v@.len(),
            all == deep(v@),
            out@ == head + reference_texts(all.take(i as int)),
        decreases v@.len() - i,
    {
        let ghost before = reference_texts(all.take(i as int));
        proof {
            assert(all.take(i + 1).drop_last() =~= all.take(i as int));
            assert(all.take(i + 1).last() == v@[i as int]@);
        }
        let t = write_reference(&v[i]);
        out.append(t.as_str());
        assert(head + before + t@ =~= head + (before + t@));
        i = i + 1;
    }
    assert(all.take(all.len() as int) =~= all);
    out
}

/// A skill that can be loaded.
#[derive(Debug, PartialEq, Eq)]
pub struct SkillEntry {
    pub name: String,
    pub description: Option<String>,
    /// Its text is too large.
    pub oversized: bool,
    /// Its text cannot be read.
    pub broken: bool,
}

/// A [`SkillEntry`] as a mathematical value.
#[verifier::ext_equal]
pub struct SkillModel {
    pub name: Seq<char>,
    pub description: Option<Seq<char>>,
    pub oversized: bool,
    pub broken: bool,
}

impl View for SkillEntry {
    type V = SkillModel;

    open spec fn view(&self) -> SkillModel {
        SkillModel {
            name: self.name@,
            description: maybe(self.description),
            oversized: self.oversized,
            broken: self.broken,
        }
    }
}

/// What the model is told of a skill.
pub open spec fn skill_label(s: SkillModel) -> Seq<char> {
    if s.oversized {
        "(too large; skill_load will fail)"@
    } else if s.broken {
        "(cannot read SKILL.md)"@
    } else {
        match s.description {
            Some(d) => d,
            None => "(no description)"@,
        }
    }
}

/// The lines of a list of skills.
pub open spec fn skill_lines(v: Seq<SkillModel>) -> Seq<char>
    decreases v.len(),
{
    if v.len() == 0 {
        Seq::empty()
    } else {
        skill_lines(v.drop_last()) + ("- "@ + v.last().name + " — "@ + skill_label(v.last())
            + "\n"@)
    }
}

/// The list of skills that the model is shown.
pub open spec fn skills_text(v: Seq<SkillModel>) -> Seq<char> {
    "# Available skills\n\n"@ + skill_lines(v)
}

fn write_skill(s: &SkillEntry) -> (t: String)
    ensures
        t@ == "- "@ + s@.name + " — "@ + skill_label(s@) + "\n"@,
{
    let mut out = cat3("- ", s.name.as_str(), " — ");
    if s.oversized {
        out.append("(too large; skill_load will fail)");
    } else if s.broken {
        out.append("(cannot read SKILL.md)");
    } else {
        match &s.description {
            Some(d) => {
                out.append(d.as_str());
            },
            None => {
                out.append("(no description)");
            },
        }
    }
    out.append("\n");
    out
}

/// Writes the list of skills that the model is shown.
pub fn render_available_skills(entries: &Vec<SkillEntry>) -> (t: String)
    ensures
        t@ == skills_text(deep(entries@)),
{
    let mut out = "# Available skills\n\n".to_owned();
    let ghost head = out@;
    let ghost all = deep(entries@);
    let mut i: usize = 0;
    assert(all.take(0) =~= Seq::empty());
    assert(head + skill_lines(all.take(0)) =~= head);
    while i < entries.len()
        invariant
            i <= entries@.len(),
            all == deep(entries@),
            out@ == head + skill_lines(all.take(i as int)),
        decreases entries@.len() - i,
    {
        let ghost before = skill_lines(all.take(i as int));
        proof {
            assert(all.take(i + 1).drop_last() =~= all.take(i as int));
            assert(all.take(i + 1).last() == entries@[i as int]@);
        }
        let t = write_skill(&entries[i]);
        out.append(t.as_str());
        assert(head + before + t@ =~= head + (before + t@));
        i = i + 1;
    }
    assert(all.take(all.len() as int) =~= all);
    out
}

pub const SCRATCHPAD_HEAD: &'static str =
    "# Working notes\n\nYou may keep working notes / scratchpad files under `.attini/";

pub const SCRATCHPAD_TAIL: &'static str =
    "/scratchpad/` (relative to the workspace root). This per-session directory is not tracked by git and never appears in `git diff`. Use it for checklists, intermediate findings, or step lists that would otherwise clutter the conversation. Because files there are not tracked, `patch` writes are permitted but are shown for approval, like any other non-tracked write.\n";

/// Tells the model where it may keep notes.
pub fn render_scratchpad_note(session_name: &str) -> (r: String)
    ensures
        r@ == SCRATCHPAD_HEAD@ + session_name@ + SCRATCHPAD_TAIL@,
{
    cat3(SCRATCHPAD_HEAD, session_name, SCRATCHPAD_TAIL)
}

/// What git says, if it says anything.
pub open spec fn git_answer_of(success: bool, stdout: Seq<u8>) -> Option<Seq<char>> {
    let text = trimmed(lossy_text(stdout));
    if !success || text.len() == 0 {
        None
    } else {
        Some(text)
    }
}

/// What git says, if it says anything.
pub fn git_answer(success: bool, stdout: &[u8]) -> (r: Option<String>)
    ensures
        maybe(r) == git_answer_of(success, stdout@),
{
    if !success {
        return None;
    }
    let text = trim(lossy(stdout).as_str());
    if text.as_str().is_empty() {
        None
    } else {
        Some(text)
    }
}

/// What git knows of the workspace.
#[derive(Debug, PartialEq, Eq)]
pub struct GitFacts {
    pub toplevel: Option<String>,
    pub branch: Option<String>,
    pub git_dir: Option<String>,
}

/// A [`GitFacts`] as a mathematical value.
#[verifier::ext_equal]
pub struct GitModel {
    pub toplevel: Option<Seq<char>>,
    pub branch: Option<Seq<char>>,
    pub git_dir: Option<Seq<char>>,
}

impl View for GitFacts {
    type V = GitModel;

    open spec fn view(&self) -> GitModel {
        GitModel {
            toplevel: maybe(self.toplevel),
            branch: maybe(self.branch),
            git_dir: maybe(self.git_dir),
        }
    }
}

/// Whether the workspace is a linked worktree, going by its git directory.
pub open spec fn linked_worktree(git_dir: Option<Seq<char>>) -> bool {
    git_dir is Some && (contains(git_dir->0, "/worktrees/"@) || contains(
        git_dir->0,
        "\\worktrees\\"@,
    ))
}

/// Where the session is rooted.
pub open spec fn workspace_text(root: Seq<char>, git: GitModel) -> Seq<char> {
    "# Workspace context\n\n- Current directory: "@ + root + " (workspace root)\n"@ + (
    match git.toplevel {
        Some(top) => "- Git repository: "@ + top + "\n"@ + (match git.branch {
            Some(branch) => "- Current branch: "@ + branch + "\n"@,
            None => Seq::empty(),
        }) + (if linked_worktree(git.git_dir) {
            "- Linked worktree\n"@
        } else {
            Seq::empty()
        }),
        None => "- Not inside a git repository\n"@,
    })
}

/// Tells the model where the session is rooted.
pub fn render_workspace_context(root: &str, git: &GitFacts) -> (r: String)
    ensures
        r@ == workspace_text(root@, git@),
{
    let mut out = cat3(
        "# Workspace context\n\n- Current directory: ",
        root,
        " (workspace root)\n",
    );
    match &git.toplevel {
        Some(top) => {
            let mut about = cat3("- Git repository: ", top.as_str(), "\n");
            let ghost head = about@;
            match &git.branch {
                Some(branch) => {
                    about.append(cat3("- Current branch: ", branch.as_str(), "\n").as_str());
                },
                None => {
                    assert(head + Seq::<char>::empty() =~= head);
                },
            }
            let ghost body = about@;
            let linked = match &git.git_dir {
                Some(d) => contains_str(d.as_str(), "/worktrees/") || contains_str(
                    d.as_str(),
                    "\\worktrees\\",
                ),
                None => false,
            };
            if linked {
                about.append("- Linked worktree\n");
            } else {
                assert(body + Seq::<char>::empty() =~= body);
            }
            out.append(about.as_str());
        },
        None => {
            out.append("- Not inside a git repository\n");
        },
    }
    out
}

/// What goes before the conversation.
pub struct InitialContext {
    pub workspace_root: String,
    pub git: GitFacts,
    pub memory: Option<String>,
    /// Summaries of what was said before, oldest first.
    pub summaries: Vec<String>,
    pub skills: Vec<SkillEntry>,
    pub system_prompt: Option<String>,
    /// The text of the skill that the user chose.
    pub skill_body: Option<String>,
    pub references: Vec<ResolvedReference>,
    pub session_name: String,
    /// The conversation.
    pub records: Vec<ChatMessage>,
}

/// An [`InitialContext`] as a mathematical value.
#[verifier::ext_equal]
pub struct ContextModel {
    pub workspace_root: Seq<char>,
    pub git: GitModel,
    pub memory: Option<Seq<char>>,
    pub summaries: Seq<Seq<char>>,
    pub skills: Seq<SkillModel>,
    pub system_prompt: Option<Seq<char>>,
    pub skill_body: Option<Seq<char>>,
    pub references: Seq<ReferenceModel>,
    pub session_name: Seq<char>,
    pub records: Seq<MessageModel>,
}

impl View for InitialContext {
    type V = ContextModel;

    open spec fn view(&self) -> ContextModel {
        ContextModel {
            workspace_root: self.workspace_root@,
            git: self.git@,
            memory: maybe(self.memory),
            summaries: views(self.summaries@),
            skills: deep(self.skills@),
            system_prompt: maybe(self.system_prompt),
            skill_body: maybe(self.skill_body),
            references: deep(self.references@),
            session_name: self.session_name@,
            records: deep(self.records@),
        }
    }
}

/// A system message, where there is a text for it.
pub open spec fn system_if(s: Option<Seq<char>>) -> Seq<MessageModel> {
    match s {
        Some(s) => seq![MessageModel::System(s)],
        None => Seq::empty(),
    }
}

/// The message that holds a summary. Where there are several, it says which
/// it is.
pub open spec fn summary_message(summaries: Seq<Seq<char>>, i: int) -> MessageModel {
    MessageModel::System(
        (if summaries.len() > 1 {
            "# Prior conversation summary (part "@ + decimal((i + 1) as nat) + " of "@ + decimal(
                summaries.len(),
            ) + ")\n\n"@
        } else {
            "# Prior conversation summary\n\n"@
        }) + summaries[i],
    )
}

/// The messages that hold summaries.
pub open spec fn summary_messages(summaries: Seq<Seq<char>>) -> Seq<MessageModel> {
    Seq::new(summaries.len(), |i: int| summary_message(summaries, i))
}

/// The conversation with what goes before it.
pub open spec fn initial_messages(c: ContextModel) -> Seq<MessageModel> {
    seq![MessageModel::System(workspace_text(c.workspace_root, c.git))] + system_if(c.memory)
        + summary_messages(c.summaries) + system_if(
        if c.skills.len() > 0 {
            Some(skills_text(c.skills))
        } else {
            None
        },
    ) + system_if(c.system_prompt) + system_if(c.skill_body) + system_if(
        if c.references.len() > 0 {
            Some("# Reference files\n\n"@ + reference_texts(c.references))
        } else {
            None
        },
    ) + seq![
        MessageModel::System(SCRATCHPAD_HEAD@ + c.session_name + SCRATCHPAD_TAIL@),
    ] + c.records
}

fn push_system(out: &mut Vec<ChatMessage>, s: Option<String>)
    ensures
        deep(final(out)@) == deep(old(out)@) + system_if(maybe(s)),
{
    let ghost before = deep(out@);
    match s {
        Some(s) => {
            out.push(ChatMessage::System(s));
            assert(deep(out@) =~= before + seq![MessageModel::System(s@)]);
        },
        None => {
            assert(deep(out@) =~= before + Seq::<MessageModel>::empty());
        },
    }
}

fn push_summaries(out: &mut Vec<ChatMessage>, summaries: &Vec<String>)
    ensures
        deep(final(out)@) == deep(old(out)@) + summary_messages(views(summaries@)),
{
    let ghost before = deep(out@);
    let ghost all = summary_messages(views(summaries@));
    let total: usize = summaries.len();
    let mut i: usize = 0;
    assert(before + all.take(0) =~= before);
    while i < total
        invariant
            i <= total,
            total == summaries@.len(),
            all == summary_messages(views(summaries@)),
            deep(out@) == before + all.take(i as int),
        decreases total - i,
    {
        let ghost now = deep(out@);
        let mut text = if total > 1 {
            let mut head = cat3(
                "# Prior conversation summary (part ",
                decimal_of(i as u64 + 1).as_str(),
                " of ",
            );
            head.append(decimal_of(total as u64).as_str());
            head.append(")\n\n");
            head
        } else {
            "# Prior conversation summary\n\n".to_owned()
        };
        assert(views(summaries@)[i as int] == summaries@[i as int]@);
        text.append(summaries[i].as_str());
        out.push(ChatMessage::System(text));
        assert(all[i as int] == MessageModel::System(text@));
        assert(before + all.take(i + 1) =~= now.push(all[i as int]));
        i = i + 1;
    }
    assert(all.take(all.len() as int) =~= all);
}

/// Puts together the conversation with what goes before it.
pub fn build_initial_messages(c: &InitialContext) -> (r: Vec<ChatMessage>)
    ensures
        deep(r@) == initial_messages(c@),
{
    let mut out: Vec<ChatMessage> = Vec::new();
    out.push(
        ChatMessage::System(render_workspace_context(c.workspace_root.as_str(), &c.git)),
    );
    assert(deep(out@) =~= seq![MessageModel::System(workspace_text(c@.workspace_root, c@.git))]);
    push_system(&mut out, clone_text(&c.memory));
    push_summaries(&mut out, &c.summaries);
    assert(c@.skills.len() == c.skills@.len());
    let skills = if c.skills.len() > 0 {
        Some(render_available_skills(&c.skills))
    } else {
        None
    };
    push_system(&mut out, skills);
    push_system(&mut out, clone_text(&c.system_prompt));
    push_system(&mut out, clone_text(&c.skill_body));
    assert(c@.references.len() == c.references@.len());
    let references = if c.references.len() > 0 {
        Some(write_references(&c.references))
    } else {
        None
    };
    push_system(&mut out, references);
    let ghost before = deep(out@);
    out.push(ChatMessage::System(render_scratchpad_note(c.session_name.as_str())));
    assert(deep(out@) =~= before + seq![
        MessageModel::System(SCRATCHPAD_HEAD@ + c@.session_name + SCRATCHPAD_TAIL@),
    ]);
    let ghost head = out@;
    let mut records = clone_messages(&c.records);
    let ghost all = records@;
    out.append(&mut records);
    assert(deep(out@) =~= deep(head) + deep(all));
    out
}

/// Each path once, in the order in which they first come.
pub open spec fn each_once(paths: Seq<Seq<char>>) -> Seq<Seq<char>>
    decreases paths.len(),
{
    if paths.len() == 0 {
        Seq::empty()
    } else {
        let before = each_once(paths.drop_last());
        if before.contains(paths.last()) {
            before
        } else {
            before.push(paths.last())
        }
    }
}

/// Keeps each path once, in the order in which they first come.
pub fn distinct_roots(paths: &Vec<String>) -> (r: Vec<String>)
    ensures
        views(r@) == each_once(views(paths@)),
{
    let ghost all = views(paths@);
    let mut out: Vec<String> = Vec::new();
    let mut i: usize = 0;
    assert(all.take(0) =~= Seq::empty());
    assert(views(out@) =~= Seq::empty());
    while i < paths.len()
        invariant
            i <= paths@.len(),
            all == views(paths@),
            views(out@) == each_once(all.take(i as int)),
        decreases paths@.len() - i,
    {
        let ghost before = views(out@);
        proof {
            assert(all.take(i + 1).drop_last() =~= all.take(i as int));
            assert(all.take(i + 1).last() == paths@[i as int]@);
        }
        if !list_contains(&out, paths[i].as_str()) {
            out.push(paths[i].clone());
            assert(views(out@) =~= before.push(paths@[i as int]@));
        }
        i = i + 1;
    }
    assert(all.take(all.len() as int) =~= all);
    out
}

/// The paths that may be read besides the workspace, before they are
/// resolved: those that the rules allow, those of the command line, and the
/// references that are too large for the prompt.
pub fn read_candidates(
    allowed: &Vec<String>,
    from_cli: &Vec<String>,
    references: &Vec<ResolvedReference>,
) -> (r: Vec<String>)
    ensures
        views(r@) == views(allowed@) + views(from_cli@) + large_references(deep(references@)),
{
    let mut out = crate::sansio::deepseek::clone_texts(allowed);
    let mut more = crate::sansio::deepseek::clone_texts(from_cli);
    let ghost a = out@;
    let ghost b = more@;
    out.append(&mut more);
    assert(views(out@) =~= views(a) + views(b));
    let ghost head = views(out@);
    let ghost all = deep(references@);
    let mut i: usize = 0;
    assert(all.take(0) =~= Seq::empty());
    assert(head + large_references(all.take(0)) =~= head);
    while i < references.len()
        invariant
            i <= references@.len(),
            all == deep(references@),
            views(out@) == head + large_references(all.take(i as int)),
        decreases references@.len() - i,
    {
        let ghost now = views(out@);
        proof {
            assert(all.take(i + 1).drop_last() =~= all.take(i as int));
            assert(all.take(i + 1).last() == references@[i as int]@);
        }
        if references[i].inline.is_none() {
            out.push(references[i].abs_path.clone());
            assert(views(out@) =~= now.push(references@[i as int].abs_path@));
            assert(head + large_references(all.take(i as int)).push(
                references@[i as int].abs_path@,
            ) =~= now.push(references@[i as int].abs_path@));
        }
        i = i + 1;
    }
    assert(all.take(all.len() as int) =~= all);
    out
}

/// The paths of the references that are too large for the prompt.
pub open spec fn large_references(v: Seq<ReferenceModel>) -> Seq<Seq<char>>
    decreases v.len(),
{
    if v.len() == 0 {
        Seq::empty()
    } else if v.last().inline is None {
        large_references(v.drop_last()).push(v.last().abs_path)
    } else {
        large_references(v.drop_last())
    }
}

} // verus!
