//! What holds of the texts that the model and the user are told.
use vstd::prelude::*;

use super::prompt::{
    build_initial_messages, distinct_roots, each_once, git_answer, initial_messages,
    large_references, linked_worktree, read_candidates, reference_text, reference_texts,
    render_workspace_context, resolve_reference, skill_lines, skills_text, summary_messages,
    system_if, workspace_text, ContextModel, GitFacts, InitialContext, ReferenceModel,
    ResolvedReference, SkillModel, SCRATCHPAD_HEAD, SCRATCHPAD_TAIL,
};
use super::prose::{
    abbreviate_args, assistant_lines, assistant_prose, call_line, chars_from, first_kept,
    lemma_first_kept, message_prose, on_lines, render_records_prose, render_summary_block,
    render_summary_transcript, short_args, summary_block, summary_blocks, truncate_prose,
};
use super::summary::{Compaction, SUMMARIZER_SYSTEM_PROMPT, ask_request, count_words, pick_summary_text, plan_compaction, summary_note, summary_or_err, summary_record, trigger_note, words_upto};
use crate::curl::CallResult;
use crate::model::{deep, maybe};
use crate::sansio::deepseek::{CallModel, ChatMessage, ChatRequest, MessageModel};
use crate::session::{ChatMessageWithTs, RecordModel, SessionRecord, messages_of};
use crate::text::{decimal, joined, lossy_text, trimmed, views, white_space};

verus! {

/// Whether a text holds another, in one piece.
pub open spec fn holds_text(s: Seq<char>, p: Seq<char>) -> bool {
    exists|a: Seq<char>, b: Seq<char>| s == #[trigger] ((a + p) + b)
}

proof fn lemma_holds(a: Seq<char>, p: Seq<char>, b: Seq<char>)
    ensures
        holds_text((a + p) + b, p),
{
}

/// A text holds what a text that it holds holds.
pub proof fn lemma_holds_inner(s: Seq<char>, p: Seq<char>, q: Seq<char>)
    requires
        holds_text(s, p),
        holds_text(p, q),
    ensures
        holds_text(s, q),
{
    let (a, b) = choose|a: Seq<char>, b: Seq<char>| s == #[trigger] ((a + p) + b);
    let (c, d) = choose|c: Seq<char>, d: Seq<char>| p == #[trigger] ((c + q) + d);
    assert(s =~= ((a + c) + q) + (d + b));
}

/// A text holds what its parts hold.
pub proof fn lemma_holds_part(a: Seq<char>, p: Seq<char>, b: Seq<char>, q: Seq<char>)
    requires
        holds_text(p, q),
    ensures
        holds_text((a + p) + b, q),
{
    lemma_holds_inner((a + p) + b, p, q);
}

/// A file that is small enough goes into the prompt with all that it holds;
/// of a larger one only the path does; and one that is no text is refused.
pub proof fn law_references_are_resolved(
    path: &str,
    bytes: &[u8],
    r: Result<ResolvedReference, String>,
)
    requires
        call_ensures(resolve_reference, (path, bytes), r),
    ensures
        bytes@.len() > 32 * 1024 ==> r is Ok && r->Ok_0.inline is None,
        r is Err <==> bytes@.len() <= 32 * 1024 && !vstd::utf8::valid_utf8(bytes@),
        r is Ok ==> r->Ok_0.abs_path@ == path@,
        bytes@.len() <= 32 * 1024 && r is Ok ==> r->Ok_0.inline is Some && r->Ok_0.inline->0@
            == vstd::utf8::decode_utf8(bytes@),
        r is Err ==> holds_text(r->Err_0@, path@),
{
    if r is Err {
        let rest = ": not valid UTF-8: "@ + crate::text::utf8_error(bytes@);
        lemma_holds("--reference "@, path@, rest);
        assert(r->Err_0@ =~= ("--reference "@ + path@) + rest);
    }
}

/// What the model is told of a file holds its path, and what the file holds
/// where that is at hand.
pub proof fn law_references_are_told(v: Seq<ReferenceModel>, i: int)
    requires
        0 <= i < v.len(),
    ensures
        holds_text(reference_texts(v), v[i].abs_path),
        v[i].inline is Some ==> holds_text(reference_texts(v), v[i].inline->0),
    decreases v.len(),
{
    let before = reference_texts(v.drop_last());
    let last = reference_text(v.last());
    let none = Seq::<char>::empty();
    if i < v.len() - 1 {
        law_references_are_told(v.drop_last(), i);
        assert(v.drop_last()[i] == v[i]);
        assert((none + before) + last =~= reference_texts(v));
        lemma_holds_part(none, before, last, v[i].abs_path);
        if v[i].inline is Some {
            lemma_holds_part(none, before, last, v[i].inline->0);
        }
    } else {
        let path = v[i].abs_path;
        match v[i].inline {
            Some(content) => {
                assert(reference_texts(v) =~= ((before + "### "@) + path) + ("\n\n"@ + content
                    + "\n\n"@));
                assert(reference_texts(v) =~= ((before + "### "@ + path + "\n\n"@) + content)
                    + "\n\n"@);
            },
            None => {
                assert(reference_texts(v) =~= ((before + "- "@) + path)
                    + " — too large to inline; readable via the `read` tool at this absolute path\n"@);
            },
        }
    }
}

/// The list of skills names each of them, with what it is for.
pub proof fn law_skills_are_listed(v: Seq<SkillModel>, i: int)
    requires
        0 <= i < v.len(),
    ensures
        holds_text(skill_lines(v), v[i].name),
        !v[i].oversized && !v[i].broken && v[i].description is Some ==> holds_text(
            skill_lines(v),
            v[i].description->0,
        ),
    decreases v.len(),
{
    let before = skill_lines(v.drop_last());
    let none = Seq::<char>::empty();
    let label = super::prompt::skill_label(v.last());
    let last = "- "@ + v.last().name + " — "@ + label + "\n"@;
    assert((none + before) + last =~= skill_lines(v));
    if i < v.len() - 1 {
        law_skills_are_listed(v.drop_last(), i);
        assert(v.drop_last()[i] == v[i]);
        lemma_holds_part(none, before, last, v[i].name);
        if !v[i].oversized && !v[i].broken && v[i].description is Some {
            lemma_holds_part(none, before, last, v[i].description->0);
        }
    } else {
        assert(skill_lines(v) =~= ((before + "- "@) + v[i].name) + (" — "@ + label + "\n"@));
        assert(skill_lines(v) =~= ((before + "- "@ + v[i].name + " — "@) + label) + "\n"@);
    }
}

/// Where the parts of a conversation start that stand before what was
/// recorded of it: the list of skills, the system prompt, the text of the
/// chosen skill, the references and the note behind them.
pub open spec fn context_places(c: ContextModel) -> (int, int, int, int, int) {
    let s: int = 1 + (if c.memory is Some { 1int } else { 0int }) + c.summaries.len();
    let p: int = s + (if c.skills.len() > 0 { 1int } else { 0int });
    let b: int = p + (if c.system_prompt is Some { 1int } else { 0int });
    let f: int = b + (if c.skill_body is Some { 1int } else { 0int });
    let n: int = f + (if c.references.len() > 0 { 1int } else { 0int });
    (s, p, b, f, n)
}

#[verifier::rlimit(60)]
proof fn lemma_context(c: ContextModel)
    ensures
        ({
            let all = initial_messages(c);
            let (s, p, b, f, n) = context_places(c);
            &&& all.len() == n + 1 + c.records.len()
            &&& all[0] == MessageModel::System(workspace_text(c.workspace_root, c.git))
            &&& c.memory is Some ==> all[1] == MessageModel::System(c.memory->0)
            &&& forall|i: int|
                0 <= i < c.summaries.len() ==> all[s - c.summaries.len() + i] == (
                #[trigger] summary_messages(c.summaries)[i])
            &&& c.skills.len() > 0 ==> all[s] == MessageModel::System(skills_text(c.skills))
            &&& c.system_prompt is Some ==> all[p] == MessageModel::System(c.system_prompt->0)
            &&& c.skill_body is Some ==> all[b] == MessageModel::System(c.skill_body->0)
            &&& c.references.len() > 0 ==> all[f] == MessageModel::System(
                "# Reference files\n\n"@ + reference_texts(c.references),
            )
            &&& all[n] == MessageModel::System(
                SCRATCHPAD_HEAD@ + c.session_name + SCRATCHPAD_TAIL@,
            )
            &&& all.skip(n + 1) == c.records
        }),
{
    let (s, p, b, f, n) = context_places(c);
    let a0 = seq![MessageModel::System(workspace_text(c.workspace_root, c.git))];
    let a1 = a0 + system_if(c.memory);
    let a2 = a1 + summary_messages(c.summaries);
    let a3 = a2 + system_if(
        if c.skills.len() > 0 {
            Some(skills_text(c.skills))
        } else {
            None
        },
    );
    let a4 = a3 + system_if(c.system_prompt);
    let a5 = a4 + system_if(c.skill_body);
    let a6 = a5 + system_if(
        if c.references.len() > 0 {
            Some("# Reference files\n\n"@ + reference_texts(c.references))
        } else {
            None
        },
    );
    let a7 = a6 + seq![
        MessageModel::System(SCRATCHPAD_HEAD@ + c.session_name + SCRATCHPAD_TAIL@),
    ];
    let all = a7 + c.records;
    assert(all == initial_messages(c));
    assert(a2.len() == s && a3.len() == p && a4.len() == b && a5.len() == f && a6.len() == n);
    assert(all.skip(n + 1) =~= c.records);
    assert forall|i: int| 0 <= i < c.summaries.len() implies all[s - c.summaries.len() + i] == (
    #[trigger] summary_messages(c.summaries)[i]) by {
        assert(a2[s - c.summaries.len() + i] == summary_messages(c.summaries)[i]);
    }
}

/// A conversation starts with where the session is rooted and ends with what
/// was recorded of it. Between them stand, each where there is one and in
/// this order: what is remembered, the summaries from the oldest to the
/// newest, the list of skills, the system prompt, the text of the chosen
/// skill, the references and the note on the session's own directory.
pub proof fn law_conversations_start_with_their_context(c: &InitialContext, r: Vec<ChatMessage>)
    requires
        call_ensures(build_initial_messages, (c,), r),
    ensures
        ({
            let (s, p, b, f, n) = context_places(c@);
            &&& r@.len() == n + 1 + c.records@.len()
            &&& deep(r@).skip(n + 1) == deep(c.records@)
            &&& r@[0]@ is System && holds_text(r@[0]@->System_0, c.workspace_root@)
            &&& c.memory is Some ==> r@[1]@ == MessageModel::System(c.memory->0@)
            &&& c.system_prompt is Some ==> r@[p]@ == MessageModel::System(c.system_prompt->0@)
            &&& c.skill_body is Some ==> r@[b]@ == MessageModel::System(c.skill_body->0@)
            &&& r@[n]@ is System && holds_text(r@[n]@->System_0, c.session_name@)
        }),
{
    let (s, p, b, f, n) = context_places(c@);
    lemma_context(c@);
    assert(deep(r@).len() == r@.len());
    assert(deep(c.records@).len() == c.records@.len());
    assert(r@[0]@ == deep(r@)[0]);
    assert(r@[n]@ == deep(r@)[n]);
    let text = workspace_text(c@.workspace_root, c@.git);
    let head = "# Workspace context\n\n- Current directory: "@;
    assert(text =~= (head + c@.workspace_root) + text.skip((head + c@.workspace_root).len() as int));
    lemma_holds(SCRATCHPAD_HEAD@, c.session_name@, SCRATCHPAD_TAIL@);
    if c.memory is Some {
        assert(r@[1]@ == deep(r@)[1]);
    }
    if c.system_prompt is Some {
        assert(r@[p]@ == deep(r@)[p]);
    }
    if c.skill_body is Some {
        assert(r@[b]@ == deep(r@)[b]);
    }
}

/// Each summary, each skill and each reference is told before the
/// conversation, in a message of its kind.
pub proof fn law_context_is_told(c: &InitialContext, r: Vec<ChatMessage>, i: int)
    requires
        call_ensures(build_initial_messages, (c,), r),
    ensures
        ({
            let (s, p, b, f, n) = context_places(c@);
            &&& 0 <= i < c.summaries@.len() ==> {
                let m = r@[s - c.summaries@.len() + i]@;
                m is System && holds_text(m->System_0, c.summaries@[i]@)
            }
            &&& 0 <= i < c.skills@.len() ==> r@[s]@ is System && holds_text(
                r@[s]@->System_0,
                c.skills@[i].name@,
            )
            &&& 0 <= i < c.references@.len() ==> r@[f]@ is System && holds_text(
                r@[f]@->System_0,
                c.references@[i].abs_path@,
            )
            &&& 0 <= i < c.references@.len() && c.references@[i].inline is Some ==> holds_text(
                r@[f]@->System_0,
                c.references@[i].inline->0@,
            )
        }),
{
    let (s, p, b, f, n) = context_places(c@);
    let none = Seq::<char>::empty();
    lemma_context(c@);
    assert(deep(r@).len() == r@.len());
    if 0 <= i < c.summaries@.len() {
        let at = s - c.summaries@.len() + i;
        assert(r@[at]@ == deep(r@)[at]);
        assert(c@.summaries[i] == c.summaries@[i]@);
        let t = summary_messages(c@.summaries)[i]->System_0;
        let front = t.take(t.len() - c@.summaries[i].len());
        assert(t =~= (front + c@.summaries[i]) + none);
    }
    if 0 <= i < c.skills@.len() {
        assert(r@[s]@ == deep(r@)[s]);
        assert(c@.skills[i] == c.skills@[i]@);
        law_skills_are_listed(c@.skills, i);
        let lines = skill_lines(c@.skills);
        assert(("# Available skills\n\n"@ + lines) + none =~= skills_text(c@.skills));
        lemma_holds_part("# Available skills\n\n"@, lines, none, c@.skills[i].name);
    }
    if 0 <= i < c.references@.len() {
        let texts = reference_texts(c@.references);
        assert(r@[f]@ == deep(r@)[f]);
        assert(c@.references[i] == c.references@[i]@);
        law_references_are_told(c@.references, i);
        assert(("# Reference files\n\n"@ + texts) + none =~= "# Reference files\n\n"@ + texts);
        lemma_holds_part("# Reference files\n\n"@, texts, none, c@.references[i].abs_path);
        if c@.references[i].inline is Some {
            lemma_holds_part("# Reference files\n\n"@, texts, none, c@.references[i].inline->0);
        }
    }
}

/// Whether a reference with that path is too large for the prompt.
pub open spec fn too_large(v: Seq<ReferenceModel>, path: Seq<char>) -> bool {
    exists|k: int| 0 <= k < v.len() && (#[trigger] v[k]).inline is None && v[k].abs_path == path
}

/// The paths that may be read are those that the rules allow, then those of
/// the command line, then the references that are too large: each of them,
/// and no others.
pub proof fn law_paths_to_read(
    allowed: &Vec<String>,
    from_cli: &Vec<String>,
    references: &Vec<ResolvedReference>,
    r: Vec<String>,
)
    requires
        call_ensures(read_candidates, (allowed, from_cli, references), r),
    ensures
        r@.len() >= allowed@.len() + from_cli@.len(),
        forall|i: int| 0 <= i < allowed@.len() ==> (#[trigger] r@[i])@ == allowed@[i]@,
        forall|i: int|
            0 <= i < from_cli@.len() ==> (#[trigger] from_cli@[i])@ == r@[allowed@.len() + i]@,
        forall|k: int|
            0 <= k < references@.len() && (#[trigger] references@[k]).inline is None
                ==> large_references(deep(references@)).contains(references@[k].abs_path@),
        forall|i: int|
            allowed@.len() + from_cli@.len() <= i < r@.len() ==> too_large(
                deep(references@),
                (#[trigger] r@[i])@,
            ),
        views(r@).skip((allowed@.len() + from_cli@.len()) as int) == large_references(
            deep(references@),
        ),
{
    let big = large_references(deep(references@));
    let all = views(allowed@) + views(from_cli@) + big;
    assert(all == views(r@));
    assert(all.len() == r@.len());
    lemma_large(deep(references@));
    assert forall|i: int| 0 <= i < allowed@.len() implies (#[trigger] r@[i])@ == allowed@[i]@ by {
        assert(views(r@)[i] == r@[i]@);
    }
    assert forall|i: int| 0 <= i < from_cli@.len() implies (#[trigger] from_cli@[i])@
        == r@[allowed@.len() + i]@ by {
        assert(views(r@)[allowed@.len() + i] == r@[allowed@.len() + i]@);
    }
    assert(all.skip((allowed@.len() + from_cli@.len()) as int) =~= big);
    assert forall|k: int|
        0 <= k < references@.len() && (
        #[trigger] references@[k]).inline is None implies big.contains(
        references@[k].abs_path@,
    ) by {
        assert(deep(references@)[k] == references@[k]@);
    }
    assert forall|i: int| allowed@.len() + from_cli@.len() <= i < r@.len() implies too_large(
        deep(references@),
        (#[trigger] r@[i])@,
    ) by {
        assert(views(r@)[i] == r@[i]@);
        assert(big[i - allowed@.len() - from_cli@.len()] == r@[i]@);
    }
}

proof fn lemma_large(v: Seq<ReferenceModel>)
    ensures
        forall|k: int|
            0 <= k < v.len() && (#[trigger] v[k]).inline is None ==> large_references(v).contains(
                v[k].abs_path,
            ),
        forall|i: int|
            0 <= i < large_references(v).len() ==> too_large(v, #[trigger] large_references(v)[i]),
    decreases v.len(),
{
    if v.len() > 0 {
        let w = v.drop_last();
        lemma_large(w);
        let before = large_references(w);
        let all = large_references(v);
        assert forall|k: int| 0 <= k < v.len() && (#[trigger] v[k]).inline is None implies
            all.contains(v[k].abs_path) by {
            if k < w.len() {
                assert(w[k] == v[k]);
                let j = choose|j: int| 0 <= j < before.len() && before[j] == v[k].abs_path;
                assert(all[j] == v[k].abs_path);
            } else {
                assert(all[before.len() as int] == v[k].abs_path);
            }
        }
        assert forall|i: int| 0 <= i < all.len() implies too_large(v, #[trigger] all[i]) by {
            if i < before.len() {
                assert(too_large(w, before[i]));
                let k = choose|k: int|
                    0 <= k < w.len() && (#[trigger] w[k]).inline is None && w[k].abs_path
                        == before[i];
                assert(v[k] == w[k]);
            } else {
                assert(v[v.len() - 1].inline is None);
            }
        }
    }
}

/// Of paths that come more than once each is kept once, and none is dropped.
/// They stay in the order in which they first come.
pub proof fn law_roots_are_kept_once(paths: &Vec<String>, r: Vec<String>)
    requires
        call_ensures(distinct_roots, (paths,), r),
    ensures
        forall|i: int|
            0 <= i < paths@.len() ==> views(r@).contains((#[trigger] paths@[i])@),
        forall|i: int| 0 <= i < r@.len() ==> views(paths@).contains((#[trigger] r@[i])@),
        forall|i: int, j: int|
            0 <= i < j < r@.len() ==> (#[trigger] r@[i])@ != (#[trigger] r@[j])@,
        (forall|i: int, j: int|
            0 <= i < j < paths@.len() ==> (#[trigger] paths@[i])@ != (#[trigger] paths@[j])@)
            ==> views(r@) == views(paths@),
{
    let v = views(paths@);
    let w = views(r@);
    lemma_once(v);
    assert(w.len() == r@.len());
    assert forall|i: int| 0 <= i < paths@.len() implies w.contains((#[trigger] paths@[i])@) by {
        assert(v[i] == paths@[i]@);
    }
    assert forall|i: int| 0 <= i < r@.len() implies v.contains((#[trigger] r@[i])@) by {
        assert(w[i] == r@[i]@);
    }
    assert forall|i: int, j: int| 0 <= i < j < r@.len() implies (#[trigger] r@[i])@ != (
    #[trigger] r@[j])@ by {
        assert(w[i] == r@[i]@ && w[j] == r@[j]@);
    }
    if forall|i: int, j: int|
        0 <= i < j < paths@.len() ==> (#[trigger] paths@[i])@ != (#[trigger] paths@[j])@ {
        assert forall|i: int, j: int| 0 <= i < j < v.len() implies (#[trigger] v[i]) != (
        #[trigger] v[j]) by {
            assert(v[i] == paths@[i]@ && v[j] == paths@[j]@);
        }
    }
}

proof fn lemma_once(v: Seq<Seq<char>>)
    ensures
        forall|i: int| 0 <= i < v.len() ==> each_once(v).contains(#[trigger] v[i]),
        forall|i: int| 0 <= i < each_once(v).len() ==> v.contains(#[trigger] each_once(v)[i]),
        forall|i: int, j: int|
            0 <= i < j < each_once(v).len() ==> (#[trigger] each_once(v)[i]) != (
            #[trigger] each_once(v)[j]),
        (forall|i: int, j: int| 0 <= i < j < v.len() ==> (#[trigger] v[i]) != (#[trigger] v[j]))
            ==> each_once(v) == v,
    decreases v.len(),
{
    if v.len() > 0 {
        let w = v.drop_last();
        lemma_once(w);
        let before = each_once(w);
        let all = each_once(v);
        assert forall|i: int| 0 <= i < v.len() implies all.contains(#[trigger] v[i]) by {
            if i < w.len() {
                assert(w[i] == v[i]);
                let j = choose|j: int| 0 <= j < before.len() && before[j] == w[i];
                assert(all[j] == v[i]);
            } else if !before.contains(v.last()) {
                assert(all[before.len() as int] == v[i]);
            }
        }
        assert forall|i: int| 0 <= i < all.len() implies v.contains(#[trigger] all[i]) by {
            if i < before.len() {
                assert(w.contains(before[i]));
                let j = choose|j: int| 0 <= j < w.len() && w[j] == before[i];
                assert(v[j] == all[i]);
            }
        }
        if forall|i: int, j: int| 0 <= i < j < v.len() ==> (#[trigger] v[i]) != (#[trigger] v[j]) {
            assert forall|i: int, j: int| 0 <= i < j < w.len() implies (#[trigger] w[i]) != (
            #[trigger] w[j]) by {
                assert(v[i] == w[i] && v[j] == w[j]);
            }
            assert(before == w);
            assert(!before.contains(v.last())) by {
                if before.contains(v.last()) {
                    let j = choose|j: int| 0 <= j < w.len() && w[j] == v.last();
                    assert(v[j] == v[v.len() - 1]);
                }
            }
            assert(all =~= v);
        }
    }
}

/// Lines hold each of the texts that they are made of.
pub proof fn lemma_on_lines(parts: Seq<Seq<char>>, i: int)
    requires
        0 <= i < parts.len(),
    ensures
        holds_text(on_lines(parts), parts[i]),
    decreases parts.len(),
{
    let before = on_lines(parts.drop_last());
    if i < parts.len() - 1 {
        lemma_on_lines(parts.drop_last(), i);
        assert(parts.drop_last()[i] == parts[i]);
        let none = Seq::<char>::empty();
        let rest = parts.last() + "\n"@;
        assert((none + before) + rest =~= on_lines(parts));
        lemma_holds_part(none, before, rest, parts[i]);
    } else {
        assert((before + parts[i]) + "\n"@ == on_lines(parts));
    }
}

/// Joined texts hold each of them.
pub proof fn lemma_joined_holds(parts: Seq<Seq<char>>, sep: Seq<char>, i: int)
    requires
        0 <= i < parts.len(),
    ensures
        holds_text(joined(parts, sep), parts[i]),
    decreases parts.len(),
{
    let none = Seq::<char>::empty();
    if parts.len() == 1 {
        assert((none + parts[0]) + none =~= parts[0]);
    } else {
        let before = joined(parts.drop_last(), sep);
        if i < parts.len() - 1 {
            lemma_joined_holds(parts.drop_last(), sep, i);
            assert(parts.drop_last()[i] == parts[i]);
            let rest = sep + parts.last();
            assert((none + before) + rest =~= joined(parts, sep));
            lemma_holds_part(none, before, rest, parts[i]);
        } else {
            assert((before + sep + parts[i]) + none =~= joined(parts, sep));
        }
    }
}

/// What an assistant message says stands in a transcript, and so does the
/// name of each tool that it calls, with the arguments in short.
pub proof fn law_assistants_are_told(says: Seq<char>, calls: Seq<CallModel>, i: int)
    ensures
        says.len() > 0 ==> holds_text(assistant_prose(says, calls), says),
        0 <= i < calls.len() ==> holds_text(assistant_prose(says, calls), calls[i].function_name),
        0 <= i < calls.len() ==> holds_text(
            assistant_prose(says, calls),
            short_args(calls[i].arguments_json),
        ),
        says.len() == 0 && calls.len() == 0 ==> assistant_prose(says, calls).len() == 0,
{
    let lines = assistant_lines(says, calls);
    let all = joined(lines, "\n"@);
    let none = Seq::<char>::empty();
    if says.len() > 0 {
        assert(lines[0] == says);
        lemma_joined_holds(lines, "\n"@, 0);
        lemma_holds_part("assistant: "@, all, "\n"@, says);
    }
    if 0 <= i < calls.len() {
        let at = lines.len() - calls.len() + i;
        let c = calls[i];
        let line = call_line(c);
        assert(lines[at] == line);
        lemma_joined_holds(lines, "\n"@, at);
        lemma_holds_part("assistant: "@, all, "\n"@, line);
        let args = short_args(c.arguments_json);
        let head = "  [tool call: "@;
        if args.len() == 0 {
            assert((head + c.function_name) + "]"@ == line);
            assert(((head + c.function_name + "]"@) + args) + none =~= line);
        } else {
            assert((head + c.function_name) + (" ("@ + args + ")]"@) =~= line);
            assert(((head + c.function_name + " ("@) + args) + ")]"@ == line);
        }
        lemma_holds_inner(assistant_prose(says, calls), line, c.function_name);
        lemma_holds_inner(assistant_prose(says, calls), line, args);
    }
}

/// Arguments in short are on one line and no longer than the line has room
/// for. Arguments that are short and on one line stand as they are, without
/// the white space around them.
pub proof fn law_arguments_in_short(args: &str, r: String)
    requires
        call_ensures(abbreviate_args, (args,), r),
    ensures
        r@.len() <= 91,
        !r@.contains('\n'),
        trimmed(args@).len() <= 90 && !trimmed(args@).contains('\n') ==> r@ == trimmed(args@),
        trimmed(args@).len() > 90 ==> r@.len() == 91 && r@.last() == '…',
        forall|i: int|
            0 <= i < trimmed(args@).len() && i < 90 && #[trigger] trimmed(args@)[i] != '\n'
                ==> r@[i] == trimmed(args@)[i],
{
    let t = trimmed(args@);
    if t.len() <= 90 && !t.contains('\n') {
        assert forall|i: int| 0 <= i < t.len() implies t[i] != '\n' by {
            if t[i] == '\n' {
                assert(t.contains('\n'));
            }
        }
        assert(r@ =~= t);
    }
}

/// A transcript for an observer tells every message: what the system and the
/// user said, what the assistant said and which tools it called, and what the
/// tools gave back, as far as it is short.
pub proof fn law_every_message_is_told(records: &Vec<ChatMessageWithTs>, r: String, i: int, q: int)
    requires
        call_ensures(render_records_prose, (records,), r),
        0 <= i < records@.len(),
    ensures
        match records@[i].message@ {
            MessageModel::System(s) => holds_text(r@, trimmed(s)),
            MessageModel::User(s) => holds_text(r@, trimmed(s)),
            MessageModel::Assistant { content, tool_calls, .. } => {
                &&& trimmed(content).len() > 0 ==> holds_text(r@, trimmed(content))
                &&& 0 <= q < tool_calls.len() ==> holds_text(r@, tool_calls[q].function_name)
            },
            MessageModel::Tool { content, .. } => trimmed(content).len() <= 200 ==> holds_text(
                r@,
                trimmed(content),
            ),
        },
{
    let messages = messages_of(records@);
    let m = records@[i].message@;
    assert(messages[i] == m);
    let parts = messages.map_values(|m: MessageModel| message_prose(m));
    lemma_on_lines(parts, i);
    assert(parts[i] == message_prose(m));
    let none = Seq::<char>::empty();
    match m {
        MessageModel::System(s) => {
            lemma_holds("[system] "@, trimmed(s), "\n"@);
            lemma_holds_inner(r@, parts[i], trimmed(s));
        },
        MessageModel::User(s) => {
            lemma_holds("user: "@, trimmed(s), "\n"@);
            lemma_holds_inner(r@, parts[i], trimmed(s));
        },
        MessageModel::Assistant { content, tool_calls, .. } => {
            law_assistants_are_told(trimmed(content), tool_calls, q);
            if trimmed(content).len() > 0 {
                lemma_holds_inner(r@, parts[i], trimmed(content));
            }
            if 0 <= q < tool_calls.len() {
                lemma_holds_inner(r@, parts[i], tool_calls[q].function_name);
            }
        },
        MessageModel::Tool { content, .. } => {
            lemma_holds(
                "  [tool result: "@,
                super::prose::brief(trimmed(content), 200),
                "]\n"@,
            );
            if trimmed(content).len() <= 200 {
                lemma_holds_inner(r@, parts[i], trimmed(content));
            }
        },
    }
}

/// A text that is cut keeps its first characters, as many as it may have, and
/// says how many are missing. One that is no longer stays as it is.
pub proof fn law_cut_texts_keep_their_start(s: &str, max: usize, r: String)
    requires
        call_ensures(truncate_prose, (s, max), r),
    ensures
        s@.len() <= max ==> r@ == s@,
        s@.len() > max ==> r@.len() > max && r@.take(max as int) == s@.take(max as int)
            && holds_text(r@, decimal((s@.len() - max) as nat)),
{
    if s@.len() > max {
        let head = s@.take(max as int);
        let n = decimal((s@.len() - max) as nat);
        lemma_holds(head + "…[truncated "@, n, " chars]"@);
        assert(r@.take(max as int) =~= head);
        assert("…[truncated "@.len() + n.len() > 0) by {
            assert(n.len() > 0);
        }
    }
}

/// A record that is to be summed up stands in the transcript as it is, apart
/// from white space around it, where it is no longer than a record may be.
pub proof fn law_short_records_are_summed_up_whole(rec: &ChatMessageWithTs, r: String, q: int)
    requires
        call_ensures(render_summary_block, (rec,), r),
    ensures
        match rec.message@ {
            MessageModel::System(s) => trimmed(s).len() <= 16_000 ==> holds_text(r@, trimmed(s)),
            MessageModel::User(s) => trimmed(s).len() <= 16_000 ==> holds_text(r@, trimmed(s)),
            MessageModel::Assistant { content, tool_calls, .. } => {
                &&& 0 < trimmed(content).len() <= 16_000 ==> holds_text(r@, trimmed(content))
                &&& 0 <= q < tool_calls.len() ==> holds_text(r@, tool_calls[q].function_name)
            },
            MessageModel::Tool { content, .. } => trimmed(content).len() <= 200 ==> holds_text(
                r@,
                trimmed(content),
            ),
        },
{
    match rec.message@ {
        MessageModel::System(s) => {
            if trimmed(s).len() <= 16_000 {
                lemma_holds("[system] "@, trimmed(s), "\n"@);
            }
        },
        MessageModel::User(s) => {
            if trimmed(s).len() <= 16_000 {
                lemma_holds("user: "@, trimmed(s), "\n"@);
            }
        },
        MessageModel::Assistant { content, tool_calls, .. } => {
            law_assistants_are_told(
                super::prose::truncated(trimmed(content), 16_000),
                tool_calls,
                q,
            );
        },
        MessageModel::Tool { content, .. } => {
            if trimmed(content).len() <= 200 {
                lemma_holds("  [tool result: "@, trimmed(content), "]\n"@);
            }
        },
    }
}

/// A transcript that is to be summed up holds the newest records, each in
/// full as it is written for it: every record behind one that it holds, and
/// all of them where they fit together.
pub proof fn law_newest_records_are_summed_up(records: &Vec<ChatMessageWithTs>, r: String, i: int)
    requires
        call_ensures(render_summary_transcript, (records,), r),
        0 <= i < records@.len(),
        chars_from(summary_blocks(messages_of(records@)), i) <= 200_000,
    ensures
        holds_text(r@, summary_block(records@[i].message@)),
{
    let messages = messages_of(records@);
    let blocks = summary_blocks(messages);
    let n = blocks.len() as int;
    assert(chars_from(blocks, n) == 0);
    lemma_first_kept(blocks, n);
    let k = first_kept(blocks, n);
    if i < k {
        lemma_more_chars(blocks, i, k - 1);
    }
    assert(blocks[i] == summary_block(records@[i].message@));
    assert(blocks.skip(k)[i - k] == blocks[i]);
    lemma_on_lines(blocks.skip(k), i - k);
    let lines = on_lines(blocks.skip(k));
    let none = Seq::<char>::empty();
    let note = if k > 0 {
        super::prose::DROPPED_NOTE@
    } else {
        none
    };
    assert((note + lines) + none =~= r@);
    lemma_holds_part(note, lines, none, blocks[i]);
}

proof fn lemma_more_chars(blocks: Seq<Seq<char>>, i: int, k: int)
    requires
        0 <= i <= k,
    ensures
        chars_from(blocks, i) >= chars_from(blocks, k),
    decreases k - i,
{
    if i < k {
        lemma_more_chars(blocks, i + 1, k);
    }
}

/// The summary in an answer is what the answer says, without the white space
/// around it, whatever it reasons; only where it says nothing is it what it
/// reasons; and only where both are blank is there none.
pub proof fn law_answers_come_before_reasoning(result: &CallResult, r: Option<String>)
    requires
        call_ensures(pick_summary_text, (result,), r),
    ensures
        trimmed(result.content@).len() > 0 ==> r is Some && r->0@ == trimmed(result.content@),
        trimmed(result.content@).len() == 0 && result.reasoning_content is Some && trimmed(
            result.reasoning_content->0@,
        ).len() > 0 ==> r is Some && r->0@ == trimmed(result.reasoning_content->0@),
        r is None <==> trimmed(result.content@).len() == 0 && (result.reasoning_content is None
            || trimmed(result.reasoning_content->0@).len() == 0),
{
    assert(maybe(r) is Some <==> r is Some);
    assert(result@.reasoning_content is Some <==> result.reasoning_content is Some);
}

/// An answer without a summary is an error, and nothing else is.
pub proof fn law_blank_answers_are_errors(result: &CallResult, r: Result<String, String>)
    requires
        call_ensures(summary_or_err, (result,), r),
    ensures
        r is Err <==> trimmed(result.content@).len() == 0 && (result.reasoning_content is None
            || trimmed(result.reasoning_content->0@).len() == 0),
        trimmed(result.content@).len() > 0 ==> r is Ok && r->Ok_0@ == trimmed(result.content@),
{
    assert(result@.reasoning_content is Some <==> result.reasoning_content is Some);
}

/// A summary is asked for without tools, of the records before the cut and of
/// no others, and remembers the times of the first and the last of them.
pub proof fn law_summaries_are_asked_for(
    model: &str,
    records: &Vec<ChatMessageWithTs>,
    max_tokens: Option<u64>,
    r: Option<Compaction>,
)
    requires
        call_ensures(plan_compaction, (model, records, max_tokens), r),
    ensures
        records@.len() <= 10 ==> r is None,
        r matches Some(c) ==> {
            let k = c.record_count as int;
            &&& 0 < k <= records@.len()
            &&& c.request@.model == model@
            &&& c.request@.max_tokens == max_tokens
            &&& c.request@.tools.len() == 0
            &&& c.request@.messages.len() == 2
            &&& c.request@.messages[0] == MessageModel::System(SUMMARIZER_SYSTEM_PROMPT@)
            &&& c.request@.messages[1] is User
            &&& forall|i: int|
                0 <= i < k && chars_from(
                    summary_blocks(messages_of(records@).take(k)),
                    i,
                ) <= 200_000 ==> holds_text(
                    c.request@.messages[1]->User_0,
                    summary_block((#[trigger] records@[i]).message@),
                )
            &&& c.since_ts == records@[0].ts
            &&& c.cutoff_ts == records@[k - 1].ts
        },
{
    if let Some(c) = r {
        let k = c.record_count as int;
        let messages = messages_of(records@).take(k);
        let blocks = summary_blocks(messages);
        let n = blocks.len() as int;
        let text = c.request@.messages[1]->User_0;
        assert forall|i: int|
            0 <= i < k && chars_from(blocks, i) <= 200_000 implies holds_text(
            text,
            summary_block((#[trigger] records@[i]).message@),
        ) by {
            assert(chars_from(blocks, n) == 0);
            lemma_first_kept(blocks, n);
            let f = first_kept(blocks, n);
            if i < f {
                lemma_more_chars(blocks, i, f - 1);
            }
            assert(messages[i] == records@[i].message@);
            assert(blocks.skip(f)[i - f] == blocks[i]);
            lemma_on_lines(blocks.skip(f), i - f);
            let lines = on_lines(blocks.skip(f));
            let none = Seq::<char>::empty();
            let note = if f > 0 {
                super::prose::DROPPED_NOTE@
            } else {
                none
            };
            assert((note + lines) + none =~= text);
            lemma_holds_part(note, lines, none, blocks[i]);
        }
    }
}

/// A question about a session goes to the model without tools, in one message
/// that holds the question and what an earlier answer said, where there are
/// such.
pub proof fn law_questions_are_asked(
    model: &str,
    records: &Vec<ChatMessageWithTs>,
    question: Option<&str>,
    prior: Option<&str>,
    max_tokens: Option<u64>,
    r: ChatRequest,
)
    requires
        call_ensures(ask_request, (model, records, question, prior, max_tokens), r),
    ensures
        r@.model == model@,
        r@.max_tokens == max_tokens,
        r@.tools.len() == 0,
        r@.messages.len() == 1,
        r@.messages[0] is System,
        question is Some ==> holds_text(r@.messages[0]->System_0, question->0@),
        prior is Some ==> holds_text(r@.messages[0]->System_0, prior->0@),
        holds_text(
            r@.messages[0]->System_0,
            super::prose::records_prose(messages_of(records@)),
        ),
{
    let text = r@.messages[0]->System_0;
    let none = Seq::<char>::empty();
    let a = super::summary::ASK_SYSTEM_PROMPT@;
    let p = match prior {
        Some(p) => super::summary::PRIOR_HEAD@ + p@ + super::summary::PRIOR_TAIL@,
        None => none,
    };
    let q = match question {
        Some(q) => "\n\nThe user's question is: "@ + q@ + "\n"@,
        None => none,
    };
    let b = "\n\n--- BEGIN SESSION TRANSCRIPT (prose) ---\n\n"@;
    let t = super::prose::records_prose(messages_of(records@));
    let e = "\n--- END SESSION TRANSCRIPT ---\n"@;
    assert(text == a + p + q + b + t + e);
    assert(text == ((a + p + q + b) + t) + e);
    if let Some(x) = prior {
        assert(text =~= (a + p) + (q + b + t + e));
        lemma_holds(super::summary::PRIOR_HEAD@, x@, super::summary::PRIOR_TAIL@);
        lemma_holds_part(a, p, q + b + t + e, x@);
    }
    if let Some(x) = question {
        assert(text =~= ((a + p) + q) + (b + t + e));
        lemma_holds("\n\nThe user's question is: "@, x@, "\n"@);
        lemma_holds_part(a + p, q, b + t + e, x@);
    }
}

/// Two texts with white space between them have the words of both.
pub proof fn law_words_add_up(a: Seq<char>, c: char, b: Seq<char>)
    requires
        white_space(c),
    ensures
        words_upto(a.push(c) + b, (a.len() + 1 + b.len()) as int) == words_upto(
            a,
            a.len() as int,
        ) + words_upto(b, b.len() as int),
{
    let s = a.push(c) + b;
    lemma_same_words(a, s, a.len() as int);
    assert(s[a.len() as int] == c);
    assert(words_upto(s, (a.len() + 1) as int) == words_upto(a, a.len() as int));
    lemma_words_behind(s, b, (a.len() + 1) as int, b.len() as int);
}

proof fn lemma_same_words(a: Seq<char>, s: Seq<char>, n: int)
    requires
        0 <= n <= a.len() <= s.len(),
        forall|i: int| 0 <= i < a.len() ==> a[i] == s[i],
    ensures
        words_upto(a, n) == words_upto(s, n),
    decreases n,
{
    if n > 0 {
        lemma_same_words(a, s, n - 1);
    }
}

proof fn lemma_words_behind(s: Seq<char>, b: Seq<char>, at: int, n: int)
    requires
        0 < at,
        0 <= n <= b.len(),
        s.len() == at + b.len(),
        white_space(s[at - 1]),
        forall|i: int| 0 <= i < b.len() ==> b[i] == s[at + i],
    ensures
        words_upto(s, at + n) == words_upto(s, at) + words_upto(b, n),
    decreases n,
{
    if n > 0 {
        lemma_words_behind(s, b, at, n - 1);
        assert(b[n - 1] == s[at + n - 1]);
        if n > 1 {
            assert(b[n - 2] == s[at + n - 2]);
        }
    }
}

/// A text without white space is one word, and blanks are none.
pub proof fn law_words_are_what_stands_between_blanks(s: Seq<char>)
    ensures
        s.len() > 0 && (forall|i: int| 0 <= i < s.len() ==> !white_space(#[trigger] s[i]))
            ==> words_upto(s, s.len() as int) == 1,
        (forall|i: int| 0 <= i < s.len() ==> white_space(#[trigger] s[i])) ==> words_upto(
            s,
            s.len() as int,
        ) == 0,
    decreases s.len(),
{
    if s.len() > 0 {
        let t = s.drop_last();
        law_words_are_what_stands_between_blanks(t);
        lemma_same_words(t, s, t.len() as int);
        assert(forall|i: int| 0 <= i < t.len() ==> #[trigger] t[i] == s[i]);
        assert(words_upto(s, 0) == 0);
    }
}

/// The words of a text are counted.
pub proof fn law_words_are_counted(s: &str, r: usize)
    requires
        call_ensures(count_words, (s,), r),
    ensures
        r == words_upto(s@, s@.len() as int),
{
}

/// Where the session is rooted is told with the repository and the branch,
/// where there are such; without a repository that is told.
pub proof fn law_the_workspace_is_told(root: &str, git: &GitFacts, r: String)
    requires
        call_ensures(render_workspace_context, (root, git), r),
    ensures
        holds_text(r@, "- Current directory: "@ + root@),
        git@.toplevel is Some ==> holds_text(r@, "- Git repository: "@ + git@.toplevel->0),
        git@.toplevel is Some && git@.branch is Some ==> holds_text(
            r@,
            "- Current branch: "@ + git@.branch->0,
        ),
        git@.toplevel is None ==> holds_text(r@, "- Not inside a git repository\n"@),
{
    let none = Seq::<char>::empty();
    reveal_strlit("# Workspace context\n\n- Current directory: ");
    reveal_strlit("# Workspace context\n\n");
    reveal_strlit("- Current directory: ");
    let title = "# Workspace context\n\n"@;
    assert("# Workspace context\n\n- Current directory: "@ =~= title + "- Current directory: "@);
    let dir = "- Current directory: "@ + root@;
    let tail = " (workspace root)\n"@;
    match git@.toplevel {
        Some(top) => {
            let repo = "- Git repository: "@ + top;
            let branch = match git@.branch {
                Some(b) => "- Current branch: "@ + b,
                None => none,
            };
            let nl = if git@.branch is Some {
                "\n"@
            } else {
                none
            };
            let linked = if linked_worktree(git@.git_dir) {
                "- Linked worktree\n"@
            } else {
                none
            };
            assert(r@ =~= (title + dir) + (tail + repo + "\n"@ + branch + nl + linked));
            assert(r@ =~= ((title + dir + tail) + repo) + ("\n"@ + branch + nl + linked));
            assert(r@ =~= ((title + dir + tail + repo + "\n"@) + branch) + (nl + linked));
        },
        None => {
            assert(r@ =~= (title + dir) + (tail + "- Not inside a git repository\n"@));
            assert(r@ =~= ((title + dir + tail) + "- Not inside a git repository\n"@) + none);
        },
    }
}

/// What git says counts where it succeeded and said something.
pub proof fn law_git_must_succeed(success: bool, stdout: &[u8], r: Option<String>)
    requires
        call_ensures(git_answer, (success, stdout), r),
    ensures
        r is Some <==> success && trimmed(lossy_text(stdout@)).len() > 0,
        r is Some ==> r->0@ == trimmed(lossy_text(stdout@)),
{
    assert(maybe(r) is Some <==> r is Some);
}

/// A summary is recorded as it is, with the time at which it was made and the
/// times of the first and the last record that it sums up.
pub proof fn law_summaries_are_recorded(c: &Compaction, text: String, ts: u64, r: SessionRecord)
    requires
        call_ensures(summary_record, (c, text, ts), r),
    ensures
        r@ matches RecordModel::Summary { ts: at, since_ts, cutoff_ts, text: said } && at == ts
            && since_ts == c.since_ts && cutoff_ts == c.cutoff_ts && said == text@,
{
}

/// The user is told how many records were summed up and in how many words,
/// and before that how large the last prompt was.
pub proof fn law_summaries_are_announced(
    count: usize,
    text: &str,
    tokens: u64,
    after: String,
    before: String,
)
    requires
        call_ensures(summary_note, (count, text), after),
        call_ensures(trigger_note, (tokens,), before),
    ensures
        holds_text(after@, decimal(count as nat)),
        holds_text(after@, decimal(words_upto(text@, text@.len() as int))),
        holds_text(before@, decimal(tokens as nat)),
        holds_text(before@, decimal(16_384)),
{
    let a = "[compaction] applied. summarised "@;
    let n = decimal(count as nat);
    let b = " records into ~"@;
    let w = decimal(words_upto(text@, text@.len() as int));
    let e = " words."@;
    assert(after@ =~= (a + n) + (b + w + e));
    assert(after@ =~= ((a + n + b) + w) + e);
    let c = "[compaction] previous prompt was "@;
    let t = decimal(tokens as nat);
    let d = " tokens (threshold "@;
    let m = decimal(16_384);
    let f = "), summarising..."@;
    assert(before@ =~= (c + t) + (d + m + f));
    assert(before@ =~= ((c + t + d) + m) + f);
}

} // verus!
