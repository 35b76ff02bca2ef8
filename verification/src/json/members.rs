//! What holds of the values that are read out of a document.
use vstd::prelude::*;
use vstd::string::*;

use super::{
    indices, member, member_index, quoted, write_array, write_string_array, JsonDoc, JsonError,
};
use crate::text::{joined, unsigned_value, views, IntError};

verus! {

proof fn lemma_first_member(names: Seq<Seq<char>>, values: Seq<int>, name: Seq<char>)
    requires
        names.len() == values.len(),
    ensures
        member_index(names, values, name) is None ==> !names.contains(name),
        member_index(names, values, name) matches Some(v) ==> exists|k: int|
            0 <= k < names.len() && #[trigger] names[k] == name && values[k] == v && forall|j: int|
                0 <= j < k ==> #[trigger] names[j] != name,
    decreases names.len(),
{
    if names.len() > 0 {
        if names[0] == name {
            assert(values[0] == member_index(names, values, name)->0);
        } else {
            let n = names.skip(1);
            let v = values.skip(1);
            lemma_first_member(n, v, name);
            match member_index(n, v, name) {
                None => {
                    if names.contains(name) {
                        let k = choose|k: int| 0 <= k < names.len() && names[k] == name;
                        assert(n[k - 1] == name);
                    }
                },
                Some(x) => {
                    let k = choose|k: int|
                        0 <= k < n.len() && #[trigger] n[k] == name && v[k] == x && forall|j: int|
                            0 <= j < k ==> #[trigger] n[j] != name;
                    assert(names[k + 1] == name && values[k + 1] == x);
                    assert forall|j: int| 0 <= j < k + 1 implies #[trigger] names[j] != name by {
                        if j > 0 {
                            assert(n[j - 1] == names[j]);
                        }
                    }
                },
            }
        }
    }
}

/// The member of an object with a name is the first that has it; there is
/// none exactly if no member has it. Only an object has members.
pub proof fn law_members_are_found(
    doc: &JsonDoc,
    i: usize,
    name: &str,
    r: Result<Option<usize>, JsonError>,
)
    requires
        doc.wf(),
        i < doc@.len(),
        call_ensures(JsonDoc::member, (doc, i, name), r),
    ensures
        r is Ok <==> doc@[i as int].kind is Object,
        r matches Ok(None) ==> !doc@[i as int].names.contains(name@),
        r matches Ok(Some(j)) ==> exists|k: int|
            0 <= k < doc@[i as int].names.len() && #[trigger] doc@[i as int].names[k] == name@
                && doc@[i as int].values[k] == j && forall|l: int|
                0 <= l < k ==> #[trigger] doc@[i as int].names[l] != name@,
{
    let n = doc@[i as int];
    assert(super::node_wf(doc@, n));
    lemma_first_member(n.names, n.values, name@);
}

/// A member that must be there is found where it is, and missed where it is
/// not.
pub proof fn law_required_members(
    doc: &JsonDoc,
    i: usize,
    name: &str,
    r: Result<usize, JsonError>,
)
    requires
        doc.wf(),
        i < doc@.len(),
        call_ensures(JsonDoc::required, (doc, i, name), r),
    ensures
        r matches Ok(j) ==> member(doc@, i as int, name@) == Ok::<Option<int>, Seq<char>>(
            Some(j as int),
        ),
        r is Err <==> !(doc@[i as int].kind is Object) || !doc@[i as int].names.contains(name@),
{
    let n = doc@[i as int];
    assert(super::node_wf(doc@, n));
    lemma_first_member(n.names, n.values, name@);
}

/// A string is read as the characters that it stands for, and nothing but a
/// string is.
pub proof fn law_strings_are_read(doc: &JsonDoc, i: usize, r: Result<String, JsonError>)
    requires
        i < doc@.len(),
        call_ensures(JsonDoc::string, (doc, i), r),
    ensures
        r is Ok <==> doc@[i as int].kind is String,
        r is Ok ==> r->Ok_0@ == doc@[i as int].text,
{
}

/// A string or a null is read; a null is no string.
pub proof fn law_nulls_are_no_strings(
    doc: &JsonDoc,
    i: usize,
    r: Result<Option<String>, JsonError>,
)
    requires
        i < doc@.len(),
        call_ensures(JsonDoc::nullable_string, (doc, i), r),
    ensures
        doc@[i as int].kind is Null ==> r is Ok && r->Ok_0 is None,
        doc@[i as int].kind is String ==> r is Ok && r->Ok_0 is Some && r->Ok_0->0@
            == doc@[i as int].text,
        !(doc@[i as int].kind is Null) && !(doc@[i as int].kind is String) ==> r is Err,
{
}

/// A truth value is read from `true` and `false` alone.
pub proof fn law_truth_values_are_read(doc: &JsonDoc, i: usize, r: Result<bool, JsonError>)
    requires
        i < doc@.len(),
        call_ensures(JsonDoc::boolean, (doc, i), r),
    ensures
        r is Ok <==> doc@[i as int].kind is Boolean,
        r is Ok ==> r->Ok_0 == (doc@[i as int].raw == "true"@),
{
}

/// A number is read from an integer that fits, as the number that it writes.
pub proof fn law_numbers_are_read(doc: &JsonDoc, i: usize, max: u64, r: Result<u64, JsonError>)
    requires
        i < doc@.len(),
        call_ensures(JsonDoc::unsigned, (doc, i, max), r),
    ensures
        r is Ok ==> doc@[i as int].kind is Integer && r->Ok_0 <= max && unsigned_value(
            doc@[i as int].raw,
            max as int,
        ) == Ok::<int, IntError>(r->Ok_0 as int),
        doc@[i as int].kind is Integer && unsigned_value(doc@[i as int].raw, max as int) is Ok
            ==> r is Ok,
{
}

/// The elements of an array are all of them, in order, and nothing but an
/// array has any.
pub proof fn law_elements_are_found(doc: &JsonDoc, i: usize, r: Result<&Vec<usize>, JsonError>)
    requires
        doc.wf(),
        i < doc@.len(),
        call_ensures(JsonDoc::elements, (doc, i), r),
    ensures
        r is Ok <==> doc@[i as int].kind is Array,
        r is Ok ==> indices(r->Ok_0@) == doc@[i as int].elements,
{
}

/// An array is written with a comma between each two of its elements, which
/// stand as they are.
pub proof fn law_arrays_are_written(items: &Vec<String>, r: String)
    requires
        call_ensures(write_array, (items,), r),
    ensures
        items@.len() == 0 ==> r@ == "[]"@,
        items@.len() == 1 ==> r@ == "["@ + items@[0]@ + "]"@,
        items@.len() == 2 ==> r@ == "["@ + items@[0]@ + ","@ + items@[1]@ + "]"@,
{
    let v = views(items@);
    assert(v.len() == items@.len());
    reveal_strlit("[]");
    reveal_strlit("[");
    reveal_strlit("]");
    if items@.len() == 0 {
        assert(r@ =~= "[]"@);
    } else if items@.len() == 1 {
        assert(v[0] == items@[0]@);
    } else if items@.len() == 2 {
        assert(v[0] == items@[0]@ && v[1] == items@[1]@);
        let front = v.drop_last();
        assert(front.len() == 1 && front[0] == v[0]);
        assert(joined(front, ","@) == v[0]);
        assert(joined(v, ","@) == v[0] + ","@ + v[1]);
        assert(r@ =~= "["@ + items@[0]@ + ","@ + items@[1]@ + "]"@);
    }
}

/// A list of texts is written as the array of the JSON strings that hold
/// them.
pub proof fn law_lists_of_texts_are_written(
    items: &Vec<String>,
    r: String,
    parts: &Vec<String>,
    array: String,
)
    requires
        call_ensures(write_string_array, (items,), r),
        call_ensures(write_array, (parts,), array),
        parts@.len() == items@.len(),
        forall|i: int| 0 <= i < items@.len() ==> (#[trigger] parts@[i])@ == quoted(items@[i]@),
    ensures
        r@ == array@,
{
    assert(views(parts@) =~= views(items@).map_values(|s: Seq<char>| quoted(s)));
}

} // verus!
