//! What holds of the arguments of tool calls.
use vstd::prelude::*;

use super::errors::{ToolErrorModel, ToolExecutionError};
use super::submit::{
    argv_error, command_arg, command_error, command_has, confirmation_arg, confirmation_error,
    confirmation_has, patch_arg, patch_error, patch_has, path_error, submit_error,
    PlanProposeInvocation, SubmitPlanInvocation,
};
use super::tools::{
    edit_path, edits_at, string_element, targets, CommandInvocation, EditModel, PatchInvocation,
    ReadOnlyModel, ReadOnlyTool, SkillLoadInvocation, SubagentRunInvocation,
};
use crate::json::{member, parsed, read_list, unsigned, JsonDoc, NodeModel};
use crate::model::{deep, lemma_first_none, lemma_none_before};
use crate::plan::{valid_id, CommandActionModel};
use crate::text::{byte_len, digits_value, trimmed, unsigned_value, IntError};

verus! {

/// Whether an object has a member of that name which is that string.
pub open spec fn has_text(doc: Seq<NodeModel>, i: int, name: Seq<char>, s: Seq<char>) -> bool {
    &&& member(doc, i, name) matches Ok(Some(j)) && doc[j].kind is String && doc[j].text == s
}

/// Whether an object has a member of that name which is a string.
pub open spec fn has_some_text(doc: Seq<NodeModel>, i: int, name: Seq<char>) -> bool {
    &&& member(doc, i, name) matches Ok(Some(j)) && doc[j].kind is String
}

/// Whether a member of that name is a truth value, where there is one.
pub open spec fn flag_fits(doc: Seq<NodeModel>, i: int, name: Seq<char>) -> bool {
    match member(doc, i, name) {
        Ok(Some(j)) => doc[j].kind is Boolean,
        Ok(None) => true,
        Err(_) => false,
    }
}

/// Whether a member of that name is there and says `true`.
pub open spec fn flag_set(doc: Seq<NodeModel>, i: int, name: Seq<char>) -> bool {
    &&& member(doc, i, name) matches Ok(Some(j)) && doc[j].raw == "true"@
}

/// Whether a member of that name writes that number, or is absent and the
/// number is the usual one.
pub open spec fn has_count(
    doc: Seq<NodeModel>,
    i: int,
    name: Seq<char>,
    usual: int,
    n: int,
) -> bool {
    match member(doc, i, name) {
        Ok(Some(j)) => doc[j].kind is Integer && unsigned_value(doc[j].raw, usize::MAX as int)
            == Ok::<int, IntError>(n),
        Ok(None) => n == usual,
        Err(_) => false,
    }
}

/// A call that lists files names the directory. It is recursive, and shows
/// hidden files, only where it says so; it lists as many entries as it says,
/// or 200.
pub proof fn law_reading_a_list_call(
    name: &str,
    doc: &JsonDoc,
    r: Result<ReadOnlyTool, ToolExecutionError>,
)
    requires
        name@ == "list"@,
        doc.wf(),
        call_ensures(ReadOnlyTool::from_json, (name, doc), r),
    ensures
        r matches Ok(t) ==> (t@ matches ReadOnlyModel::List {
            path,
            recursive,
            max_entries,
            include_hidden,
        } && {
            &&& has_text(doc@, 0, "path"@, path)
            &&& recursive == flag_set(doc@, 0, "recursive"@)
            &&& include_hidden == flag_set(doc@, 0, "include_hidden"@)
            &&& has_count(doc@, 0, "max_entries"@, 200, max_entries as int)
        }),
        has_some_text(doc@, 0, "path"@) && flag_fits(doc@, 0, "recursive"@) && flag_fits(
            doc@,
            0,
            "include_hidden"@,
        ) && member(doc@, 0, "max_entries"@) == Ok::<Option<int>, Seq<char>>(None) ==> r is Ok,
        !has_some_text(doc@, 0, "path"@) ==> r is Err && r->Err_0@ is ArgumentsParseFailed,
{
    lemma_numbers(doc@, usize::MAX as int);
}

proof fn lemma_number(s: Seq<char>, max: int)
    requires
        max >= 0,
    ensures
        digits_value(s, max) matches Ok(n) ==> 0 <= n <= max,
    decreases s.len(),
{
    if s.len() > 0 {
        lemma_number(s.drop_last(), max);
    }
}

/// A number that is read is within its limit.
pub proof fn lemma_numbers(doc: Seq<NodeModel>, max: int)
    requires
        max >= 0,
    ensures
        forall|j: int|
            (#[trigger] unsigned(doc, j, max)) is Ok ==> 0 <= unsigned(doc, j, max)->Ok_0 <= max,
{
    assert forall|j: int| (#[trigger] unsigned(doc, j, max)) is Ok implies 0 <= unsigned(
        doc,
        j,
        max,
    )->Ok_0 <= max by {
        lemma_number(doc[j].raw, max);
        lemma_number(doc[j].raw.skip(1), max);
    }
}

proof fn lemma_tools()
    ensures
        "list"@ != "read"@,
        "list"@ != "search"@,
        "read"@ != "search"@,
{
    reveal_strlit("list");
    reveal_strlit("read");
    reveal_strlit("search");
    assert("list"@[0] != "read"@[0]);
    assert("list"@.len() == 4 && "read"@.len() == 4 && "search"@.len() == 6);
}

/// A call that reads a file names it, and the first and the last line where
/// it wants a part: two numbers, no more and no fewer.
pub proof fn law_reading_a_read_call(
    name: &str,
    doc: &JsonDoc,
    r: Result<ReadOnlyTool, ToolExecutionError>,
)
    requires
        name@ == "read"@,
        doc.wf(),
        call_ensures(ReadOnlyTool::from_json, (name, doc), r),
    ensures
        r matches Ok(t) ==> (t@ matches ReadOnlyModel::Read { path, line_range } && {
            &&& has_text(doc@, 0, "path"@, path)
            &&& match member(doc@, 0, "line_range"@) {
                Ok(Some(j)) => {
                    &&& doc@[j].kind is Array
                    &&& doc@[j].elements.len() == 2
                    &&& line_range is Some
                    &&& unsigned_value(doc@[doc@[j].elements[0]].raw, usize::MAX as int) == Ok::<
                        int,
                        IntError,
                    >((line_range->0).0 as int)
                    &&& unsigned_value(doc@[doc@[j].elements[1]].raw, usize::MAX as int) == Ok::<
                        int,
                        IntError,
                    >((line_range->0).1 as int)
                },
                _ => line_range is None,
            }
        }),
        has_some_text(doc@, 0, "path"@) && member(doc@, 0, "line_range"@) == Ok::<
            Option<int>,
            Seq<char>,
        >(None) ==> r is Ok,
        member(doc@, 0, "line_range"@) matches Ok(Some(j)) ==> (doc@[j].kind is Array
            && doc@[j].elements.len() != 2 ==> r is Err),
        !has_some_text(doc@, 0, "path"@) ==> r is Err && r->Err_0@ is ArgumentsParseFailed,
{
    lemma_tools();
    lemma_numbers(doc@, usize::MAX as int);
}

/// A call that searches names the pattern, and a part of the tree where it
/// wants one. It tells case apart only where it says so, and gives as many
/// results as it says, or 50.
pub proof fn law_reading_a_search_call(
    name: &str,
    doc: &JsonDoc,
    r: Result<ReadOnlyTool, ToolExecutionError>,
)
    requires
        name@ == "search"@,
        doc.wf(),
        call_ensures(ReadOnlyTool::from_json, (name, doc), r),
    ensures
        r matches Ok(t) ==> (t@ matches ReadOnlyModel::Search {
            pattern,
            path_prefix,
            case_sensitive,
            max_results,
        } && {
            &&& has_text(doc@, 0, "pattern"@, pattern)
            &&& path_prefix is Some ==> has_text(doc@, 0, "path_prefix"@, path_prefix->0)
            &&& path_prefix is None ==> !has_some_text(doc@, 0, "path_prefix"@)
            &&& case_sensitive == flag_set(doc@, 0, "case_sensitive"@)
            &&& has_count(doc@, 0, "max_results"@, 50, max_results as int)
        }),
        has_some_text(doc@, 0, "pattern"@) && member(doc@, 0, "path_prefix"@) == Ok::<
            Option<int>,
            Seq<char>,
        >(None) && flag_fits(doc@, 0, "case_sensitive"@) && member(doc@, 0, "max_results"@) == Ok::<
            Option<int>,
            Seq<char>,
        >(None) ==> r is Ok,
        !has_some_text(doc@, 0, "pattern"@) ==> r is Err && r->Err_0@ is ArgumentsParseFailed,
{
    lemma_tools();
    lemma_numbers(doc@, usize::MAX as int);
}

/// A read-only call is read out of its arguments, and only under a name that
/// a read-only tool has.
pub proof fn law_reading_a_read_only_call(
    name: &str,
    arguments: &str,
    r: Result<ReadOnlyTool, ToolExecutionError>,
)
    requires
        call_ensures(ReadOnlyTool::parse, (name, arguments), r),
    ensures
        r is Ok ==> parsed(arguments@) is Ok && match r->Ok_0@ {
            ReadOnlyModel::List { path, .. } => name@ == "list"@ && has_text(
                parsed(arguments@)->Ok_0,
                0,
                "path"@,
                path,
            ),
            ReadOnlyModel::Read { path, .. } => name@ == "read"@ && has_text(
                parsed(arguments@)->Ok_0,
                0,
                "path"@,
                path,
            ),
            ReadOnlyModel::Search { pattern, .. } => name@ == "search"@ && has_text(
                parsed(arguments@)->Ok_0,
                0,
                "pattern"@,
                pattern,
            ),
        },
        name@ != "list"@ && name@ != "read"@ && name@ != "search"@ ==> r is Err
            && r->Err_0@ is UnknownTool,
        (name@ == "list"@ || name@ == "read"@ || name@ == "search"@) && parsed(arguments@) is Err
            ==> r is Err && r->Err_0@ == ToolErrorModel::ArgumentsParseFailed(
            parsed(arguments@)->Err_0,
        ),
{
    lemma_tools();
}

/// Whether an edit is what stands at that place of a document.
pub open spec fn edit_stands(doc: Seq<NodeModel>, i: int, e: EditModel) -> bool {
    match e {
        EditModel::Add { path, content } => has_text(doc, i, "kind"@, "add"@) && has_text(
            doc,
            i,
            "path"@,
            path,
        ) && has_text(doc, i, "content"@, content),
        EditModel::Update { path, before, after } => has_text(doc, i, "kind"@, "update"@)
            && has_text(doc, i, "path"@, path) && has_text(doc, i, "before"@, before) && has_text(
            doc,
            i,
            "after"@,
            after,
        ),
    }
}

/// The path of an edit.
pub open spec fn path_of(e: EditModel) -> Seq<char> {
    match e {
        EditModel::Add { path, .. } => path,
        EditModel::Update { path, .. } => path,
    }
}

/// What an edit writes.
pub open spec fn new_text(e: EditModel) -> Seq<char> {
    match e {
        EditModel::Add { content, .. } => content,
        EditModel::Update { after, .. } => after,
    }
}

proof fn lemma_edits(doc: Seq<NodeModel>, at: Seq<int>)
    ensures
        edits_at(doc, at) matches Ok(edits) ==> {
            &&& edits.len() == at.len()
            &&& forall|k: int|
                0 <= k < at.len() ==> edit_stands(doc, at[k], #[trigger] edits[k]) && byte_len(
                    new_text(edits[k]),
                ) <= 1_048_576
            &&& forall|i: int, j: int|
                0 <= i < j < at.len() ==> path_of(#[trigger] edits[i]) != path_of(
                    #[trigger] edits[j],
                )
        },
    decreases at.len(),
{
    if at.len() > 0 {
        let front = at.drop_last();
        lemma_edits(doc, front);
        if let Ok(edits) = edits_at(doc, at) {
            let earlier = edits_at(doc, front)->Ok_0;
            let n = front.len() as int;
            assert(edits == earlier.push(edits.last()));
            assert forall|k: int| 0 <= k < at.len() implies edit_stands(
                doc,
                at[k],
                #[trigger] edits[k],
            ) && byte_len(new_text(edits[k])) <= 1_048_576 by {
                if k < n {
                    assert(front[k] == at[k]);
                    assert(earlier[k] == edits[k]);
                }
            }
            assert forall|i: int, j: int| 0 <= i < j < at.len() implies path_of(
                #[trigger] edits[i],
            ) != path_of(#[trigger] edits[j]) by {
                assert(earlier[i] == edits[i]);
                if j < n {
                    assert(earlier[j] == edits[j]);
                } else {
                    assert(!targets(earlier, path_of(edits[j])));
                    assert(edit_path(earlier[i]) == path_of(edits[i]));
                }
            }
        }
    }
}

proof fn lemma_edits_read(doc: Seq<NodeModel>, at: Seq<int>, edits: Seq<EditModel>)
    requires
        edits.len() == at.len(),
        forall|k: int|
            0 <= k < at.len() ==> edit_stands(doc, at[k], #[trigger] edits[k]) && byte_len(
                new_text(edits[k]),
            ) <= 1_048_576,
        forall|i: int, j: int|
            0 <= i < j < at.len() ==> path_of(#[trigger] edits[i]) != path_of(#[trigger] edits[j]),
    ensures
        edits_at(doc, at) == Ok::<Seq<EditModel>, ToolErrorModel>(edits),
    decreases at.len(),
{
    if at.len() == 0 {
        assert(edits =~= Seq::empty());
    } else {
        let front = at.drop_last();
        let earlier = edits.drop_last();
        assert forall|k: int| 0 <= k < front.len() implies edit_stands(
            doc,
            front[k],
            #[trigger] earlier[k],
        ) && byte_len(new_text(earlier[k])) <= 1_048_576 by {
            assert(front[k] == at[k] && earlier[k] == edits[k]);
        }
        assert forall|i: int, j: int| 0 <= i < j < front.len() implies path_of(
            #[trigger] earlier[i],
        ) != path_of(#[trigger] earlier[j]) by {
            assert(earlier[i] == edits[i] && earlier[j] == edits[j]);
        }
        lemma_edits_read(doc, front, earlier);
        let n = front.len() as int;
        assert(edit_stands(doc, at[n], edits[n]));
        assert(!targets(earlier, path_of(edits[n]))) by {
            if targets(earlier, path_of(edits[n])) {
                let k = choose|k: int|
                    0 <= k < earlier.len() && edit_path(#[trigger] earlier[k]) == path_of(edits[n]);
                assert(earlier[k] == edits[k]);
            }
        }
        reveal_strlit("add");
        reveal_strlit("update");
        assert("add"@.len() == 3 && "update"@.len() == 6);
        assert(edits =~= earlier.push(edits[n]));
    }
}

/// A patch that is accepted is what stands in the document, edit for edit and
/// in order: one at least and 20 at most, each for a path of its own, none
/// writing more than a mebibyte.
pub proof fn law_reading_a_patch(doc: &JsonDoc, r: Result<PatchInvocation, ToolExecutionError>)
    requires
        doc.wf(),
        call_ensures(PatchInvocation::from_json, (doc,), r),
    ensures
        r matches Ok(p) ==> (member(doc@, 0, "edits"@) matches Ok(Some(j)) && {
            &&& doc@[j].kind is Array
            &&& p.edits@.len() == doc@[j].elements.len()
            &&& 1 <= p.edits@.len() <= 20
            &&& forall|k: int|
                0 <= k < p.edits@.len() ==> edit_stands(
                    doc@,
                    doc@[j].elements[k],
                    (#[trigger] p.edits@[k])@,
                ) && byte_len(new_text(p.edits@[k]@)) <= 1_048_576
            &&& forall|i: int, k: int|
                0 <= i < k < p.edits@.len() ==> path_of((#[trigger] p.edits@[i])@) != path_of(
                    (#[trigger] p.edits@[k])@,
                )
        }),
{
    if let Ok(p) = r {
        let j = member(doc@, 0, "edits"@)->Ok_0->0;
        lemma_edits(doc@, doc@[j].elements);
        assert(deep(p.edits@).len() == p.edits@.len());
        assert(forall|k: int| 0 <= k < p.edits@.len() ==> deep(p.edits@)[k] == #[trigger] p.edits@[k]@);
        assert forall|k: int| 0 <= k < p.edits@.len() implies edit_stands(
            doc@,
            doc@[j].elements[k],
            (#[trigger] p.edits@[k])@,
        ) && byte_len(new_text(p.edits@[k]@)) <= 1_048_576 by {
            assert(deep(p.edits@)[k] == p.edits@[k]@);
        }
        assert forall|i: int, k: int| 0 <= i < k < p.edits@.len() implies path_of(
            (#[trigger] p.edits@[i])@,
        ) != path_of((#[trigger] p.edits@[k])@) by {
            assert(deep(p.edits@)[i] == p.edits@[i]@);
            assert(deep(p.edits@)[k] == p.edits@[k]@);
        }
    }
}

/// Edits within the limits, each for a path of its own, are accepted.
pub proof fn law_fitting_patches_are_accepted(
    doc: &JsonDoc,
    r: Result<PatchInvocation, ToolExecutionError>,
    j: int,
    edits: Seq<EditModel>,
)
    requires
        doc.wf(),
        call_ensures(PatchInvocation::from_json, (doc,), r),
        member(doc@, 0, "edits"@) == Ok::<Option<int>, Seq<char>>(Some(j)),
        doc@[j].kind is Array,
        edits.len() == doc@[j].elements.len(),
        1 <= edits.len() <= 20,
        forall|k: int|
            0 <= k < edits.len() ==> edit_stands(doc@, doc@[j].elements[k], #[trigger] edits[k])
                && byte_len(new_text(edits[k])) <= 1_048_576,
        forall|i: int, k: int|
            0 <= i < k < edits.len() ==> path_of(#[trigger] edits[i]) != path_of(
                #[trigger] edits[k],
            ),
    ensures
        r is Ok,
        r->Ok_0@ == edits,
{
    lemma_edits_read(doc@, doc@[j].elements, edits);
}

/// A command is the words that stand in the arguments, all of them and in
/// order, and there is one at least. Where all that stands there are words it
/// is accepted.
pub proof fn law_reading_a_command(doc: &JsonDoc, r: Result<CommandInvocation, ToolExecutionError>)
    requires
        doc.wf(),
        call_ensures(CommandInvocation::from_json, (doc,), r),
    ensures
        r matches Ok(c) ==> (member(doc@, 0, "argv"@) matches Ok(Some(j)) && {
            &&& doc@[j].kind is Array
            &&& c.argv@.len() == doc@[j].elements.len()
            &&& c.argv@.len() > 0
            &&& forall|k: int|
                0 <= k < c.argv@.len() ==> doc@[#[trigger] doc@[j].elements[k]].kind is String
                    && doc@[doc@[j].elements[k]].text == c.argv@[k]@
        }),
        member(doc@, 0, "argv"@) matches Ok(Some(j)) ==> (doc@[j].kind is Array
            && doc@[j].elements.len() > 0 && (forall|k: int|
            0 <= k < doc@[j].elements.len() ==> doc@[#[trigger] doc@[j].elements[k]].kind is String)
            ==> r is Ok),
{
    if let Ok(Some(j)) = member(doc@, 0, "argv"@) {
        if doc@[j].kind is Array {
            lemma_words(doc@, doc@[j].elements, |k: int| string_element(doc@, k));
            if let Ok(c) = r {
                assert forall|k: int| 0 <= k < c.argv@.len() implies doc@[
                #[trigger] doc@[j].elements[k]].kind is String && doc@[doc@[j].elements[k]].text
                    == c.argv@[k]@ by {
                    assert(c@[k] == c.argv@[k]@);
                }
            }
        }
    }
}

proof fn lemma_words(
    doc: Seq<NodeModel>,
    at: Seq<int>,
    read: spec_fn(int) -> Result<Seq<char>, ToolErrorModel>,
)
    requires
        forall|k: int| #[trigger] read(k) == string_element(doc, k),
    ensures
        read_list(at, read) is Ok ==> read_list(at, read)->Ok_0.len() == at.len(),
        read_list(at, read) is Ok ==> forall|k: int|
            0 <= k < at.len() ==> doc[#[trigger] at[k]].kind is String && doc[at[k]].text
                == read_list(at, read)->Ok_0[k],
        (forall|k: int| 0 <= k < at.len() ==> doc[#[trigger] at[k]].kind is String) ==> read_list(
            at,
            read,
        ) is Ok,
    decreases at.len(),
{
    if at.len() > 0 {
        let front = at.drop_last();
        lemma_words(doc, front, read);
        assert(forall|k: int| 0 <= k < front.len() ==> #[trigger] front[k] == at[k]);
        if read_list(at, read) is Ok {
            let words = read_list(at, read)->Ok_0;
            let earlier = read_list(front, read)->Ok_0;
            assert(read(at.last()) == string_element(doc, at.last()));
            assert(words == earlier.push(read(at.last())->Ok_0));
            assert forall|k: int| 0 <= k < at.len() implies doc[
            #[trigger] at[k]].kind is String && doc[at[k]].text == read_list(at, read)->Ok_0[k] by {
                if k < front.len() {
                    assert(front[k] == at[k]);
                    assert(earlier[k] == words[k]);
                } else {
                    assert(words[k] == doc[at.last()].text);
                }
            }
        }
        if forall|k: int| 0 <= k < at.len() ==> doc[#[trigger] at[k]].kind is String {
            assert forall|k: int| 0 <= k < front.len() implies doc[
            #[trigger] front[k]].kind is String by {
                assert(front[k] == at[k]);
            }
            assert(doc[at[at.len() - 1]].kind is String);
        }
    }
}

/// A skill is asked for by the name that stands in the arguments, unless that
/// is blank.
pub proof fn law_reading_a_skill(doc: &JsonDoc, r: Result<SkillLoadInvocation, ToolExecutionError>)
    requires
        doc.wf(),
        call_ensures(SkillLoadInvocation::from_json, (doc,), r),
    ensures
        r matches Ok(s) ==> has_text(doc@, 0, "name"@, s.name@) && trimmed(s.name@).len() > 0,
        member(doc@, 0, "name"@) matches Ok(Some(j)) ==> (doc@[j].kind is String && trimmed(
            doc@[j].text,
        ).len() > 0 ==> r is Ok),
{
}

/// A child agent is asked for with the prompt that stands in the arguments,
/// unless that is blank, and under the name that stands there, unless that is
/// blank; it may do without a name.
pub proof fn law_reading_a_subagent(
    doc: &JsonDoc,
    r: Result<SubagentRunInvocation, ToolExecutionError>,
)
    requires
        doc.wf(),
        call_ensures(SubagentRunInvocation::from_json, (doc,), r),
    ensures
        r matches Ok(s) ==> {
            &&& has_text(doc@, 0, "prompt"@, s.prompt@)
            &&& trimmed(s.prompt@).len() > 0
            &&& s.session_name is Some ==> has_text(doc@, 0, "session_name"@, s.session_name->0@)
                && trimmed(s.session_name->0@).len() > 0
            &&& s.session_name is None ==> !has_some_text(doc@, 0, "session_name"@)
        },
        member(doc@, 0, "prompt"@) matches Ok(Some(j)) ==> (doc@[j].kind is String && trimmed(
            doc@[j].text,
        ).len() > 0 && member(doc@, 0, "session_name"@) == Ok::<Option<int>, Seq<char>>(None)
            ==> r is Ok && r->Ok_0.session_name is None),
{
    if let Ok(s) = r {
        assert(s@.session_name is Some <==> s.session_name is Some);
    }
}

/// A submitted plan that is accepted has no more than 32 items to confirm and
/// 128 actions of each kind. Each of them has a valid id that no other has and
/// a description; no item takes the name that stands for all of them; no two
/// patches are for one path, and no two commands are the same.
pub proof fn law_accepted_plans_are_in_order(
    p: &SubmitPlanInvocation,
    r: Result<(), ToolExecutionError>,
)
    requires
        call_ensures(SubmitPlanInvocation::validate, (p,), r),
        r is Ok,
    ensures
        p@.confirmations.len() <= 32,
        p@.patches.len() <= 128,
        p@.commands.len() <= 128,
        forall|i: int|
            0 <= i < p@.confirmations.len() ==> (#[trigger] p@.confirmations[i]).id != "all-ok"@
                && valid_id(p@.confirmations[i].id) && trimmed(
                p@.confirmations[i].description,
            ).len() > 0,
        forall|i: int|
            0 <= i < p@.patches.len() ==> valid_id((#[trigger] p@.patches[i]).id) && trimmed(
                p@.patches[i].path,
            ).len() > 0 && trimmed(p@.patches[i].description).len() > 0,
        forall|i: int|
            0 <= i < p@.commands.len() ==> valid_id((#[trigger] p@.commands[i]).id)
                && p@.commands[i].argv.len() > 0 && trimmed(p@.commands[i].description).len() > 0,
        forall|i: int, j: int|
            0 <= i < j < p@.confirmations.len() ==> (#[trigger] p@.confirmations[i]).id != (
            #[trigger] p@.confirmations[j]).id,
        forall|i: int, j: int|
            0 <= i < j < p@.patches.len() ==> (#[trigger] p@.patches[i]).id != (
            #[trigger] p@.patches[j]).id && p@.patches[i].path != p@.patches[j].path,
        forall|i: int, j: int|
            0 <= i < j < p@.commands.len() ==> (#[trigger] p@.commands[i]).id != (
            #[trigger] p@.commands[j]).id && p@.commands[i].argv != p@.commands[j].argv,
        forall|i: int, j: int|
            0 <= i < p@.confirmations.len() && 0 <= j < p@.patches.len() ==> (
            #[trigger] p@.confirmations[i]).id != (#[trigger] p@.patches[j]).id,
        forall|i: int, j: int|
            0 <= i < p@.confirmations.len() && 0 <= j < p@.commands.len() ==> (
            #[trigger] p@.confirmations[i]).id != (#[trigger] p@.commands[j]).id,
        forall|i: int, j: int|
            0 <= i < p@.patches.len() && 0 <= j < p@.commands.len() ==> (
            #[trigger] p@.patches[i]).id != (#[trigger] p@.commands[j]).id,
{
    let m = p@;
    let nc = m.confirmations.len() as int;
    let np = m.patches.len() as int;
    let nk = m.commands.len() as int;
    assert forall|i: int| 0 <= i < nc implies #[trigger] confirmation_error(m, i) is None by {
        lemma_none_before(nc, |i: int| confirmation_error(m, i), i);
    }
    assert forall|i: int| 0 <= i < np implies #[trigger] patch_error(m, i) is None by {
        lemma_none_before(np, |i: int| patch_error(m, i), i);
    }
    assert forall|i: int| 0 <= i < np implies #[trigger] path_error(m, i) is None by {
        lemma_none_before(np, |i: int| path_error(m, i), i);
    }
    assert forall|i: int| 0 <= i < nk implies #[trigger] command_error(m, i) is None by {
        lemma_none_before(nk, |i: int| command_error(m, i), i);
    }
    assert forall|i: int| 0 <= i < nk implies #[trigger] argv_error(m, i) is None by {
        lemma_none_before(nk, |i: int| argv_error(m, i), i);
    }
    assert forall|i: int| 0 <= i < nc implies (#[trigger] m.confirmations[i]).id != "all-ok"@
        && valid_id(m.confirmations[i].id) && trimmed(m.confirmations[i].description).len() > 0 by {
        assert(confirmation_error(m, i) is None);
    }
    assert forall|i: int| 0 <= i < np implies valid_id((#[trigger] m.patches[i]).id) && trimmed(
        m.patches[i].path,
    ).len() > 0 && trimmed(m.patches[i].description).len() > 0 by {
        assert(patch_error(m, i) is None);
    }
    assert forall|i: int| 0 <= i < nk implies valid_id((#[trigger] m.commands[i]).id)
        && m.commands[i].argv.len() > 0 && trimmed(m.commands[i].description).len() > 0 by {
        assert(command_error(m, i) is None);
    }
    assert forall|i: int, j: int| 0 <= i < j < nc implies (#[trigger] m.confirmations[i]).id != (
    #[trigger] m.confirmations[j]).id by {
        assert(confirmation_error(m, j) is None);
        assert(!confirmation_has(m, m.confirmations[j].id, j));
    }
    assert forall|i: int, j: int| 0 <= i < j < np implies (#[trigger] m.patches[i]).id != (
    #[trigger] m.patches[j]).id && m.patches[i].path != m.patches[j].path by {
        assert(patch_error(m, j) is None);
        assert(!patch_has(m, m.patches[j].id, j));
        assert(path_error(m, j) is None);
    }
    assert forall|i: int, j: int| 0 <= i < j < nk implies (#[trigger] m.commands[i]).id != (
    #[trigger] m.commands[j]).id && m.commands[i].argv != m.commands[j].argv by {
        assert(command_error(m, j) is None);
        assert(!command_has(m, m.commands[j].id, j));
        assert(argv_error(m, j) is None);
    }
    assert forall|i: int, j: int| 0 <= i < nc && 0 <= j < np implies (
    #[trigger] m.confirmations[i]).id != (#[trigger] m.patches[j]).id by {
        assert(patch_error(m, j) is None);
        assert(!confirmation_has(m, m.patches[j].id, nc));
    }
    assert forall|i: int, j: int| 0 <= i < nc && 0 <= j < nk implies (
    #[trigger] m.confirmations[i]).id != (#[trigger] m.commands[j]).id by {
        assert(command_error(m, j) is None);
        assert(!confirmation_has(m, m.commands[j].id, nc));
    }
    assert forall|i: int, j: int| 0 <= i < np && 0 <= j < nk implies (
    #[trigger] m.patches[i]).id != (#[trigger] m.commands[j]).id by {
        assert(command_error(m, j) is None);
        assert(!patch_has(m, m.commands[j].id, np));
    }
}

/// A submitted plan that is in order in all of these ways is accepted.
pub proof fn law_plans_in_order_are_accepted(
    p: &SubmitPlanInvocation,
    r: Result<(), ToolExecutionError>,
)
    requires
        call_ensures(SubmitPlanInvocation::validate, (p,), r),
        p@.confirmations.len() <= 32,
        p@.patches.len() <= 128,
        p@.commands.len() <= 128,
        forall|i: int|
            0 <= i < p@.confirmations.len() ==> (#[trigger] p@.confirmations[i]).id != "all-ok"@
                && valid_id(p@.confirmations[i].id) && trimmed(
                p@.confirmations[i].description,
            ).len() > 0,
        forall|i: int|
            0 <= i < p@.patches.len() ==> valid_id((#[trigger] p@.patches[i]).id) && trimmed(
                p@.patches[i].path,
            ).len() > 0 && trimmed(p@.patches[i].description).len() > 0,
        forall|i: int|
            0 <= i < p@.commands.len() ==> valid_id((#[trigger] p@.commands[i]).id)
                && p@.commands[i].argv.len() > 0 && trimmed(p@.commands[i].description).len() > 0,
        forall|i: int, j: int|
            0 <= i < j < p@.confirmations.len() ==> (#[trigger] p@.confirmations[i]).id != (
            #[trigger] p@.confirmations[j]).id,
        forall|i: int, j: int|
            0 <= i < j < p@.patches.len() ==> (#[trigger] p@.patches[i]).id != (
            #[trigger] p@.patches[j]).id && p@.patches[i].path != p@.patches[j].path,
        forall|i: int, j: int|
            0 <= i < j < p@.commands.len() ==> (#[trigger] p@.commands[i]).id != (
            #[trigger] p@.commands[j]).id && p@.commands[i].argv != p@.commands[j].argv,
        forall|i: int, j: int|
            0 <= i < p@.confirmations.len() && 0 <= j < p@.patches.len() ==> (
            #[trigger] p@.confirmations[i]).id != (#[trigger] p@.patches[j]).id,
        forall|i: int, j: int|
            0 <= i < p@.confirmations.len() && 0 <= j < p@.commands.len() ==> (
            #[trigger] p@.confirmations[i]).id != (#[trigger] p@.commands[j]).id,
        forall|i: int, j: int|
            0 <= i < p@.patches.len() && 0 <= j < p@.commands.len() ==> (
            #[trigger] p@.patches[i]).id != (#[trigger] p@.commands[j]).id,
    ensures
        r is Ok,
{
    let m = p@;
    let nc = m.confirmations.len() as int;
    let np = m.patches.len() as int;
    let nk = m.commands.len() as int;
    let f = |i: int| confirmation_error(m, i);
    assert forall|i: int| 0 <= i < nc implies #[trigger] f(i) is None by {
        assert(valid_id(m.confirmations[i].id));
    }
    lemma_first_none(nc, f);
    let g = |i: int| patch_error(m, i);
    assert forall|i: int| 0 <= i < np implies #[trigger] g(i) is None by {
        assert(valid_id(m.patches[i].id));
    }
    lemma_first_none(np, g);
    let h = |i: int| path_error(m, i);
    assert forall|i: int| 0 <= i < np implies #[trigger] h(i) is None by {
        assert(valid_id(m.patches[i].id));
    }
    lemma_first_none(np, h);
    let a = |i: int| command_error(m, i);
    assert forall|i: int| 0 <= i < nk implies #[trigger] a(i) is None by {
        assert(valid_id(m.commands[i].id));
    }
    lemma_first_none(nk, a);
    let b = |i: int| argv_error(m, i);
    assert forall|i: int| 0 <= i < nk implies #[trigger] b(i) is None by {
        assert(valid_id(m.commands[i].id));
    }
    lemma_first_none(nk, b);
}

/// A plan that is read is validated. Its body is what stands in the arguments,
/// and is not blank.
pub proof fn law_reading_a_submitted_plan(
    doc: &JsonDoc,
    r: Result<SubmitPlanInvocation, ToolExecutionError>,
)
    requires
        doc.wf(),
        call_ensures(SubmitPlanInvocation::from_json, (doc,), r),
    ensures
        r matches Ok(p) ==> has_text(doc@, 0, "body_markdown"@, p.body_markdown@) && trimmed(
            p.body_markdown@,
        ).len() > 0 && submit_error(p@) is None,
        r matches Ok(p) ==> (member(doc@, 0, "confirmations"@) == Ok::<Option<int>, Seq<char>>(None)
            ==> p@.confirmations.len() == 0),
        r matches Ok(p) ==> (member(doc@, 0, "patches"@) == Ok::<Option<int>, Seq<char>>(None)
            ==> p@.patches.len() == 0),
        r matches Ok(p) ==> (member(doc@, 0, "commands"@) == Ok::<Option<int>, Seq<char>>(None)
            ==> p@.commands.len() == 0),
        r matches Ok(p) ==> (member(doc@, 0, "confirmations"@) matches Ok(Some(j)) ==> {
            &&& p@.confirmations.len() == doc@[j].elements.len()
            &&& forall|k: int|
                0 <= k < p@.confirmations.len() ==> has_text(
                    doc@,
                    doc@[j].elements[k],
                    "id"@,
                    (#[trigger] p@.confirmations[k]).id,
                ) && has_text(
                    doc@,
                    doc@[j].elements[k],
                    "description"@,
                    p@.confirmations[k].description,
                )
        }),
        r matches Ok(p) ==> (member(doc@, 0, "patches"@) matches Ok(Some(j)) ==> {
            &&& p@.patches.len() == doc@[j].elements.len()
            &&& forall|k: int|
                0 <= k < p@.patches.len() ==> has_text(
                    doc@,
                    doc@[j].elements[k],
                    "id"@,
                    (#[trigger] p@.patches[k]).id,
                ) && has_text(doc@, doc@[j].elements[k], "path"@, p@.patches[k].path) && has_text(
                    doc@,
                    doc@[j].elements[k],
                    "description"@,
                    p@.patches[k].description,
                )
        }),
        r matches Ok(p) ==> (member(doc@, 0, "commands"@) matches Ok(Some(j)) ==> {
            &&& p@.commands.len() == doc@[j].elements.len()
            &&& forall|k: int|
                0 <= k < p@.commands.len() ==> has_text(
                    doc@,
                    doc@[j].elements[k],
                    "id"@,
                    (#[trigger] p@.commands[k]).id,
                ) && has_text(
                    doc@,
                    doc@[j].elements[k],
                    "description"@,
                    p@.commands[k].description,
                ) && words_stand(doc@, doc@[j].elements[k], p@.commands[k].argv)
        }),
{
    if let Ok(p) = r {
        if let Ok(Some(j)) = member(doc@, 0, "confirmations"@) {
            lemma_each(doc@[j].elements, |k: int| confirmation_arg(doc@, k));
        }
        if let Ok(Some(j)) = member(doc@, 0, "patches"@) {
            lemma_each(doc@[j].elements, |k: int| patch_arg(doc@, k));
        }
        if let Ok(Some(j)) = member(doc@, 0, "commands"@) {
            let at = doc@[j].elements;
            let read = |k: int| command_arg(doc@, k);
            lemma_each(at, read);
            assert(read_list(at, read) == Ok::<Seq<CommandActionModel>, ToolErrorModel>(
                p@.commands,
            ));
            assert forall|k: int| 0 <= k < p@.commands.len() implies has_text(
                doc@,
                at[k],
                "id"@,
                (#[trigger] p@.commands[k]).id,
            ) && has_text(doc@, at[k], "description"@, p@.commands[k].description) && words_stand(
                doc@,
                at[k],
                p@.commands[k].argv,
            ) by {
                assert(read(at[k]) == Ok::<CommandActionModel, ToolErrorModel>(p@.commands[k]));
                let a = member(doc@, at[k], "argv"@)->Ok_0->0;
                lemma_words(doc@, doc@[a].elements, |x: int| string_element(doc@, x));
            }
        }
    }
}

/// Whether the words are those that stand under `argv` at that place, all of
/// them and in order.
pub open spec fn words_stand(doc: Seq<NodeModel>, i: int, argv: Seq<Seq<char>>) -> bool {
    &&& member(doc, i, "argv"@) matches Ok(Some(a)) && {
        &&& doc[a].kind is Array
        &&& argv.len() == doc[a].elements.len()
        &&& forall|k: int|
            0 <= k < argv.len() ==> doc[#[trigger] doc[a].elements[k]].kind is String
                && doc[doc[a].elements[k]].text == argv[k]
    }
}

proof fn lemma_each<T>(at: Seq<int>, read: spec_fn(int) -> Result<T, ToolErrorModel>)
    ensures
        read_list(at, read) matches Ok(v) ==> {
            &&& v.len() == at.len()
            &&& forall|k: int|
                0 <= k < v.len() ==> read(at[k]) == Ok::<T, ToolErrorModel>(#[trigger] v[k])
        },
    decreases at.len(),
{
    if at.len() > 0 {
        let front = at.drop_last();
        lemma_each(front, read);
        if let Ok(v) = read_list(at, read) {
            let earlier = read_list(front, read)->Ok_0;
            assert(v == earlier.push(v.last()));
            assert forall|k: int| 0 <= k < v.len() implies read(at[k]) == Ok::<T, ToolErrorModel>(
                #[trigger] v[k],
            ) by {
                if k < front.len() {
                    assert(front[k] == at[k]);
                    assert(earlier[k] == v[k]);
                }
            }
        }
    }
}

/// A drafted plan is read and validated as a submitted one is.
pub proof fn law_drafts_are_read_like_plans(
    arguments: &str,
    draft: Result<PlanProposeInvocation, ToolExecutionError>,
    plan: Result<SubmitPlanInvocation, ToolExecutionError>,
)
    requires
        call_ensures(PlanProposeInvocation::parse, (arguments,), draft),
        call_ensures(SubmitPlanInvocation::parse, (arguments,), plan),
    ensures
        draft is Ok <==> plan is Ok,
        draft is Ok ==> draft->Ok_0@ == plan->Ok_0@,
{
}

/// Arguments that are no JSON are refused with what is said against them;
/// a patch is otherwise read out of the document that they hold.
pub proof fn law_patch_arguments_are_parsed(
    arguments: &str,
    r: Result<PatchInvocation, ToolExecutionError>,
    doc: &JsonDoc,
    read: Result<PatchInvocation, ToolExecutionError>,
)
    requires
        call_ensures(PatchInvocation::parse, (arguments,), r),
    ensures
        parsed(arguments@) is Err ==> r is Err && r->Err_0@ == ToolErrorModel::ArgumentsParseFailed(
            parsed(arguments@)->Err_0,
        ),
        doc.wf() && parsed(arguments@) == Ok::<Seq<NodeModel>, Seq<char>>(doc@) && call_ensures(
            PatchInvocation::from_json,
            (doc,),
            read,
        ) ==> (r is Ok <==> read is Ok) && (r is Ok ==> r->Ok_0@ == read->Ok_0@) && (r is Err
            ==> r->Err_0@ == read->Err_0@),
{
}

/// Arguments that are no JSON are refused with what is said against them;
/// a command is otherwise read out of the document that they hold.
pub proof fn law_command_arguments_are_parsed(
    arguments: &str,
    r: Result<CommandInvocation, ToolExecutionError>,
    doc: &JsonDoc,
    read: Result<CommandInvocation, ToolExecutionError>,
)
    requires
        call_ensures(CommandInvocation::parse, (arguments,), r),
    ensures
        parsed(arguments@) is Err ==> r is Err && r->Err_0@ == ToolErrorModel::ArgumentsParseFailed(
            parsed(arguments@)->Err_0,
        ),
        doc.wf() && parsed(arguments@) == Ok::<Seq<NodeModel>, Seq<char>>(doc@) && call_ensures(
            CommandInvocation::from_json,
            (doc,),
            read,
        ) ==> (r is Ok <==> read is Ok) && (r is Ok ==> r->Ok_0@ == read->Ok_0@) && (r is Err
            ==> r->Err_0@ == read->Err_0@),
{
}

/// Arguments that are no JSON are refused with what is said against them;
/// the name of a skill is otherwise read out of the document that they hold.
pub proof fn law_skill_arguments_are_parsed(
    arguments: &str,
    r: Result<SkillLoadInvocation, ToolExecutionError>,
    doc: &JsonDoc,
    read: Result<SkillLoadInvocation, ToolExecutionError>,
)
    requires
        call_ensures(SkillLoadInvocation::parse, (arguments,), r),
    ensures
        parsed(arguments@) is Err ==> r is Err && r->Err_0@ == ToolErrorModel::ArgumentsParseFailed(
            parsed(arguments@)->Err_0,
        ),
        doc.wf() && parsed(arguments@) == Ok::<Seq<NodeModel>, Seq<char>>(doc@) && call_ensures(
            SkillLoadInvocation::from_json,
            (doc,),
            read,
        ) ==> (r is Ok <==> read is Ok) && (r is Ok ==> r->Ok_0@ == read->Ok_0@) && (r is Err
            ==> r->Err_0@ == read->Err_0@),
{
}

/// Arguments that are no JSON are refused with what is said against them;
/// a submitted plan is otherwise read out of the document that they hold.
pub proof fn law_plan_arguments_are_parsed(
    arguments: &str,
    r: Result<SubmitPlanInvocation, ToolExecutionError>,
    doc: &JsonDoc,
    read: Result<SubmitPlanInvocation, ToolExecutionError>,
)
    requires
        call_ensures(SubmitPlanInvocation::parse, (arguments,), r),
    ensures
        parsed(arguments@) is Err ==> r is Err && r->Err_0@ == ToolErrorModel::ArgumentsParseFailed(
            parsed(arguments@)->Err_0,
        ),
        doc.wf() && parsed(arguments@) == Ok::<Seq<NodeModel>, Seq<char>>(doc@) && call_ensures(
            SubmitPlanInvocation::from_json,
            (doc,),
            read,
        ) ==> (r is Ok <==> read is Ok) && (r is Ok ==> r->Ok_0@ == read->Ok_0@) && (r is Err
            ==> r->Err_0@ == read->Err_0@),
{
}

} // verus!
