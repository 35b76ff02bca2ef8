//! Reading and writing JSON.
//!
//! `nojson` parses a text and indexes its values. [`JsonDoc`] holds those
//! values as plain data, in the order in which they start in the text, so
//! that the rest of the crate reads a document without the parser at hand.
//! A value is named by its index; index 0 is the outermost value.
use vstd::prelude::*;
use vstd::string::*;

pub mod members;
pub mod value;

use value::{faithful, holds_written, written};

use crate::model::maybe;
use crate::text::{
    decimal, decimal_of, int_error_text, join, joined, parse_unsigned, same, unsigned_value, views,
};

verus! {

/// What kind of value a JSON value is.
#[derive(Debug, Clone, Copy, PartialEq, Eq, Structural)]
pub enum JsonKind {
    Null,
    Boolean,
    Integer,
    Float,
    String,
    Array,
    Object,
}

/// The name of a kind.
pub open spec fn kind_name(k: JsonKind) -> Seq<char> {
    match k {
        JsonKind::Null => "Null"@,
        JsonKind::Boolean => "Boolean"@,
        JsonKind::Integer => "Integer"@,
        JsonKind::Float => "Float"@,
        JsonKind::String => "String"@,
        JsonKind::Array => "Array"@,
        JsonKind::Object => "Object"@,
    }
}

impl JsonKind {
    /// The name of the kind.
    pub fn name(&self) -> (r: &'static str)
        ensures
            r@ == kind_name(*self),
    {
        match self {
            JsonKind::Null => "Null",
            JsonKind::Boolean => "Boolean",
            JsonKind::Integer => "Integer",
            JsonKind::Float => "Float",
            JsonKind::String => "String",
            JsonKind::Array => "Array",
            JsonKind::Object => "Object",
        }
    }
}

/// A text that `nojson` has parsed, with the index of its values.
#[verifier::external_type_specification]
#[verifier::external_body]
pub struct ExRawJsonOwned(nojson::RawJsonOwned);

/// The text that a parsed document holds.
pub uninterp spec fn raw_text(raw: nojson::RawJsonOwned) -> Seq<char>;

/// What `RawJsonOwned::parse` says against a text, if anything.
pub uninterp spec fn json_syntax_error(text: Seq<char>) -> Option<Seq<char>>;

/// How many values `RawJsonOwned::get_value_by_index` finds in a text.
pub uninterp spec fn json_count(text: Seq<char>) -> nat;

/// The kind that `RawJsonValue::kind` gives for the value with that index.
pub uninterp spec fn json_kind(text: Seq<char>, index: int) -> JsonKind;

/// The byte position that `RawJsonValue::position` gives.
pub uninterp spec fn json_position(text: Seq<char>, index: int) -> nat;

/// The part of the text that `RawJsonValue::as_raw_str` gives.
pub uninterp spec fn json_slice(text: Seq<char>, index: int) -> Seq<char>;

/// The characters that `RawJsonValue::to_unquoted_string_str` gives for a
/// string.
pub uninterp spec fn json_unquoted(text: Seq<char>, index: int) -> Seq<char>;

/// The indices of the elements that `RawJsonValue::to_array` gives.
pub uninterp spec fn json_elements(text: Seq<char>, index: int) -> Seq<int>;

/// The indices of the names and values that `RawJsonValue::to_object` gives.
pub uninterp spec fn json_pairs(text: Seq<char>, index: int) -> Seq<(int, int)>;

/// `RawJsonOwned::parse` keeps the text that it is given, and either indexes
/// its values or says why the text is not JSON. There is always a value with
/// index 0 in a text that it accepts. The compact text of a value is JSON, and
/// what is indexed is that value, each part of it with its own text; no more
/// is said of texts that are written otherwise.
#[verifier::external_body]
fn raw_parse(text: &str) -> (r: Result<nojson::RawJsonOwned, String>)
    ensures
        match r {
            Ok(raw) => raw_text(raw) == text@ && json_syntax_error(text@) is None && json_count(
                text@,
            ) > 0 && holds_written(indexed(raw_text(raw)), text@),
            Err(e) => json_syntax_error(text@) == Some(e@) && !written(text@),
        },
{
    nojson::RawJsonOwned::parse(text).map_err(|e| e.to_string())
}

/// `RawJsonOwned::get_value_by_index` finds a value exactly at the indices
/// below the number of values, which a `Vec` holds.
#[verifier::external_body]
fn raw_has(raw: &nojson::RawJsonOwned, index: usize) -> (r: bool)
    ensures
        r == (index < json_count(raw_text(*raw))),
        r ==> index < usize::MAX,
{
    raw.get_value_by_index(index).is_some()
}

/// `RawJsonValue::kind` of the value with that index.
#[verifier::external_body]
fn raw_kind(raw: &nojson::RawJsonOwned, index: usize) -> (r: JsonKind)
    requires
        index < json_count(raw_text(*raw)),
    ensures
        r == json_kind(raw_text(*raw), index as int),
{
    match raw.get_value_by_index(index).unwrap().kind() {
        nojson::JsonValueKind::Null => JsonKind::Null,
        nojson::JsonValueKind::Boolean => JsonKind::Boolean,
        nojson::JsonValueKind::Integer => JsonKind::Integer,
        nojson::JsonValueKind::Float => JsonKind::Float,
        nojson::JsonValueKind::String => JsonKind::String,
        nojson::JsonValueKind::Array => JsonKind::Array,
        nojson::JsonValueKind::Object => JsonKind::Object,
    }
}

/// `RawJsonValue::position` of the value with that index.
#[verifier::external_body]
fn raw_position(raw: &nojson::RawJsonOwned, index: usize) -> (r: usize)
    requires
        index < json_count(raw_text(*raw)),
    ensures
        r == json_position(raw_text(*raw), index as int),
{
    raw.get_value_by_index(index).unwrap().position()
}

/// `RawJsonValue::as_raw_str` of the value with that index.
#[verifier::external_body]
fn raw_slice(raw: &nojson::RawJsonOwned, index: usize) -> (r: String)
    requires
        index < json_count(raw_text(*raw)),
    ensures
        r@ == json_slice(raw_text(*raw), index as int),
{
    raw.get_value_by_index(index).unwrap().as_raw_str().to_string()
}

/// `RawJsonValue::to_unquoted_string_str` of the string with that index. It
/// fails on nothing but a value of another kind.
#[verifier::external_body]
fn raw_unquoted(raw: &nojson::RawJsonOwned, index: usize) -> (r: String)
    requires
        index < json_count(raw_text(*raw)),
        json_kind(raw_text(*raw), index as int) is String,
    ensures
        r@ == json_unquoted(raw_text(*raw), index as int),
{
    raw.get_value_by_index(index).unwrap().to_unquoted_string_str().unwrap().into_owned()
}

/// `RawJsonValue::to_array` of the array with that index, each element by its
/// index. It fails on nothing but a value of another kind. The elements stand
/// behind the array in the index.
#[verifier::external_body]
fn raw_elements(raw: &nojson::RawJsonOwned, index: usize) -> (r: Vec<usize>)
    requires
        index < json_count(raw_text(*raw)),
        json_kind(raw_text(*raw), index as int) is Array,
    ensures
        r@.map_values(|i: usize| i as int) == json_elements(raw_text(*raw), index as int),
        forall|k: int| 0 <= k < r@.len() ==> index < #[trigger] r@[k] < json_count(raw_text(*raw)),
{
    raw.get_value_by_index(index).unwrap().to_array().unwrap().map(|v| v.index()).collect()
}

/// `RawJsonValue::to_object` of the object with that index, each name and
/// value by its index. It fails on nothing but a value of another kind. Names
/// and values stand behind the object in the index, and the names are strings.
#[verifier::external_body]
fn raw_pairs(raw: &nojson::RawJsonOwned, index: usize) -> (r: Vec<(usize, usize)>)
    requires
        index < json_count(raw_text(*raw)),
        json_kind(raw_text(*raw), index as int) is Object,
    ensures
        r@.map_values(|p: (usize, usize)| (p.0 as int, p.1 as int)) == json_pairs(
            raw_text(*raw),
            index as int,
        ),
        forall|k: int|
            0 <= k < r@.len() ==> index < (#[trigger] r@[k]).0 < json_count(raw_text(*raw)) && index
                < r@[k].1 < json_count(raw_text(*raw)) && json_kind(
                raw_text(*raw),
                r@[k].0 as int,
            ) is String,
{
    let object = raw.get_value_by_index(index).unwrap().to_object().unwrap();
    object.map(|(k, v)| (k.index(), v.index())).collect()
}

/// One value of a document, with its place in the text.
#[derive(Debug)]
pub struct JsonNode {
    pub kind: JsonKind,
    /// Byte position in the text.
    pub position: usize,
    /// The value as it is written in the text.
    pub raw: String,
    /// The characters of a string; empty for any other kind.
    pub text: String,
    /// The elements of an array, by index.
    pub elements: Vec<usize>,
    /// The names of the members of an object.
    pub names: Vec<String>,
    /// The values of the members of an object, by index.
    pub values: Vec<usize>,
}

/// A [`JsonNode`] as a mathematical value.
#[verifier::ext_equal]
pub struct NodeModel {
    pub kind: JsonKind,
    pub position: nat,
    pub raw: Seq<char>,
    pub text: Seq<char>,
    pub elements: Seq<int>,
    pub names: Seq<Seq<char>>,
    pub values: Seq<int>,
}

/// Indices as mathematical integers.
pub open spec fn indices(v: Seq<usize>) -> Seq<int> {
    v.map_values(|i: usize| i as int)
}

impl View for JsonNode {
    type V = NodeModel;

    open spec fn view(&self) -> NodeModel {
        NodeModel {
            kind: self.kind,
            position: self.position as nat,
            raw: self.raw@,
            text: self.text@,
            elements: indices(self.elements@),
            names: views(self.names@),
            values: indices(self.values@),
        }
    }
}

/// The values of a JSON text, in the order in which they start.
#[derive(Debug)]
pub struct JsonDoc {
    pub nodes: Vec<JsonNode>,
}

impl View for JsonDoc {
    type V = Seq<NodeModel>;

    open spec fn view(&self) -> Seq<NodeModel> {
        self.nodes@.map_values(|n: JsonNode| n@)
    }
}

/// Whether every index in a document names one of its values.
pub open spec fn doc_wf(doc: Seq<NodeModel>) -> bool {
    &&& doc.len() > 0
    &&& forall|i: int| 0 <= i < doc.len() ==> node_wf(doc, #[trigger] doc[i])
}

/// Whether every index in a node names a value of the document.
pub open spec fn node_wf(doc: Seq<NodeModel>, n: NodeModel) -> bool {
    &&& n.names.len() == n.values.len()
    &&& forall|k: int| 0 <= k < n.elements.len() ==> 0 <= #[trigger] n.elements[k] < doc.len()
    &&& forall|k: int| 0 <= k < n.values.len() ==> 0 <= #[trigger] n.values[k] < doc.len()
}

/// The value with that index, as `nojson` reads it out of the text.
pub open spec fn parsed_node(text: Seq<char>, i: int) -> NodeModel {
    let kind = json_kind(text, i);
    let pairs = if kind is Object {
        json_pairs(text, i)
    } else {
        Seq::empty()
    };
    NodeModel {
        kind,
        position: json_position(text, i),
        raw: json_slice(text, i),
        text: if kind is String {
            json_unquoted(text, i)
        } else {
            Seq::empty()
        },
        elements: if kind is Array {
            json_elements(text, i)
        } else {
            Seq::empty()
        },
        names: pairs.map_values(|p: (int, int)| json_unquoted(text, p.0)),
        values: pairs.map_values(|p: (int, int)| p.1),
    }
}

/// All values of a text, as `nojson` reads them out of it.
pub open spec fn indexed(text: Seq<char>) -> Seq<NodeModel> {
    Seq::new(json_count(text), |i: int| parsed_node(text, i))
}

/// The document that a text holds, or what is said against the text.
pub open spec fn parsed(text: Seq<char>) -> Result<Seq<NodeModel>, Seq<char>> {
    match json_syntax_error(text) {
        Some(message) => Err(message),
        None => Ok(indexed(text)),
    }
}

/// Reads one value out of a parsed text.
fn read_node(raw: &nojson::RawJsonOwned, index: usize) -> (r: JsonNode)
    requires
        index < json_count(raw_text(*raw)),
    ensures
        r@ == parsed_node(raw_text(*raw), index as int),
        forall|k: int|
            0 <= k < r.elements@.len() ==> #[trigger] r.elements@[k] < json_count(raw_text(*raw)),
        forall|k: int|
            0 <= k < r.values@.len() ==> #[trigger] r.values@[k] < json_count(raw_text(*raw)),
{
    let ghost text = raw_text(*raw);
    let kind = raw_kind(raw, index);
    let position = raw_position(raw, index);
    let slice = raw_slice(raw, index);
    let unquoted = match kind {
        JsonKind::String => raw_unquoted(raw, index),
        _ => String::new(),
    };
    let elements: Vec<usize> = match kind {
        JsonKind::Array => raw_elements(raw, index),
        _ => Vec::new(),
    };
    let pairs: Vec<(usize, usize)> = match kind {
        JsonKind::Object => raw_pairs(raw, index),
        _ => Vec::new(),
    };
    let mut names: Vec<String> = Vec::new();
    let mut values: Vec<usize> = Vec::new();
    let mut k: usize = 0;
    while k < pairs.len()
        invariant
            k <= pairs@.len(),
            text == raw_text(*raw),
            names@.len() == k,
            values@.len() == k,
            forall|j: int|
                0 <= j < pairs@.len() ==> (#[trigger] pairs@[j]).0 < json_count(text) && pairs@[j].1
                    < json_count(text) && json_kind(text, pairs@[j].0 as int) is String,
            forall|j: int|
                0 <= j < k ==> (#[trigger] names@[j])@ == json_unquoted(text, pairs@[j].0 as int),
            forall|j: int| 0 <= j < k ==> #[trigger] values@[j] == pairs@[j].1,
        decreases pairs@.len() - k,
    {
        let pair = pairs[k];
        names.push(raw_unquoted(raw, pair.0));
        values.push(pair.1);
        k = k + 1;
    }
    let node = JsonNode { kind, position, raw: slice, text: unquoted, elements, names, values };
    proof {
        let m = parsed_node(text, index as int);
        let ps = if kind is Object {
            json_pairs(text, index as int)
        } else {
            Seq::empty()
        };
        assert(ps =~= pairs@.map_values(|p: (usize, usize)| (p.0 as int, p.1 as int)));
        assert(node@.elements =~= m.elements);
        assert(node@.names =~= m.names);
        assert(node@.values =~= m.values);
    }
    node
}

/// What an object's members are looked up by: the value of the first member
/// with that name.
pub open spec fn member_index(
    names: Seq<Seq<char>>,
    values: Seq<int>,
    name: Seq<char>,
) -> Option<int>
    decreases names.len(),
{
    if names.len() == 0 || values.len() == 0 {
        None
    } else if names[0] == name {
        Some(values[0])
    } else {
        member_index(names.skip(1), values.skip(1), name)
    }
}

/// What is said against a value that does not fit.
pub open spec fn invalid_text(n: NodeModel, why: Seq<char>) -> Seq<char> {
    "JSON "@ + kind_name(n.kind) + " at byte position "@ + decimal(n.position) + " is invalid: "@
        + why
}

/// What is said against a value that is not of the kind that was expected.
pub open spec fn wrong_kind_text(n: NodeModel, expected: JsonKind) -> Seq<char> {
    invalid_text(n, "expected "@ + kind_name(expected) + ", but found "@ + kind_name(n.kind))
}

/// What is said against an object that lacks a member.
pub open spec fn missing_text(n: NodeModel, name: Seq<char>) -> Seq<char> {
    invalid_text(n, "required member '"@ + name + "' is missing"@)
}

/// The member of that name, if the object has one.
pub open spec fn member(doc: Seq<NodeModel>, i: int, name: Seq<char>) -> Result<
    Option<int>,
    Seq<char>,
> {
    if doc[i].kind is Object {
        Ok(member_index(doc[i].names, doc[i].values, name))
    } else {
        Err(wrong_kind_text(doc[i], JsonKind::Object))
    }
}

/// The member of that name, which must be there.
pub open spec fn required(doc: Seq<NodeModel>, i: int, name: Seq<char>) -> Result<int, Seq<char>> {
    match member(doc, i, name) {
        Err(e) => Err(e),
        Ok(None) => Err(missing_text(doc[i], name)),
        Ok(Some(j)) => Ok(j),
    }
}

/// The elements of an array.
pub open spec fn elements(doc: Seq<NodeModel>, i: int) -> Result<Seq<int>, Seq<char>> {
    if doc[i].kind is Array {
        Ok(doc[i].elements)
    } else {
        Err(wrong_kind_text(doc[i], JsonKind::Array))
    }
}

/// The characters of a string.
pub open spec fn string(doc: Seq<NodeModel>, i: int) -> Result<Seq<char>, Seq<char>> {
    if doc[i].kind is String {
        Ok(doc[i].text)
    } else {
        Err(wrong_kind_text(doc[i], JsonKind::String))
    }
}

/// The characters of a string, or nothing for a null.
pub open spec fn nullable_string(doc: Seq<NodeModel>, i: int) -> Result<
    Option<Seq<char>>,
    Seq<char>,
> {
    if doc[i].kind is Null {
        Ok(None)
    } else {
        match string(doc, i) {
            Err(e) => Err(e),
            Ok(s) => Ok(Some(s)),
        }
    }
}

/// A truth value.
pub open spec fn boolean(doc: Seq<NodeModel>, i: int) -> Result<bool, Seq<char>> {
    if doc[i].kind is Boolean {
        Ok(doc[i].raw == "true"@)
    } else {
        Err(wrong_kind_text(doc[i], JsonKind::Boolean))
    }
}

/// An unsigned integer of at most `max`.
pub open spec fn unsigned(doc: Seq<NodeModel>, i: int, max: int) -> Result<int, Seq<char>> {
    if doc[i].kind is Integer {
        match unsigned_value(doc[i].raw, max) {
            Ok(n) => Ok(n),
            Err(e) => Err(invalid_text(doc[i], int_error_text(e))),
        }
    } else {
        Err(wrong_kind_text(doc[i], JsonKind::Integer))
    }
}

/// What `read` gives for each of those places, in order; the first failure
/// decides.
pub open spec fn read_list<T, E>(at: Seq<int>, read: spec_fn(int) -> Result<T, E>) -> Result<
    Seq<T>,
    E,
>
    decreases at.len(),
{
    if at.len() == 0 {
        Ok(Seq::empty())
    } else {
        match read_list(at.drop_last(), read) {
            Err(e) => Err(e),
            Ok(rest) => match read(at.last()) {
                Err(e) => Err(e),
                Ok(t) => Ok(rest.push(t)),
            },
        }
    }
}

/// A place that cannot be read decides the result of the whole list.
pub proof fn lemma_read_list_error<T, E>(
    at: Seq<int>,
    read: spec_fn(int) -> Result<T, E>,
    k: int,
)
    requires
        0 <= k <= at.len(),
        read_list(at.take(k), read) is Err,
    ensures
        read_list(at, read) == read_list(at.take(k), read),
    decreases at.len() - k,
{
    if k < at.len() {
        assert(at.take(k + 1).drop_last() =~= at.take(k));
        lemma_read_list_error(at, read, k + 1);
    } else {
        assert(at.take(k) =~= at);
    }
}

/// One more place of a list.
pub proof fn lemma_read_list_step<T, E>(
    at: Seq<int>,
    read: spec_fn(int) -> Result<T, E>,
    k: int,
)
    requires
        0 <= k < at.len(),
        read_list(at.take(k), read) is Ok,
    ensures
        match read(at[k]) {
            Ok(t) => read_list(at.take(k + 1), read) == Ok::<Seq<T>, E>(
                read_list(at.take(k), read)->Ok_0.push(t),
            ),
            Err(e) => read_list(at, read) == Err::<Seq<T>, E>(e),
        },
{
    assert(at.take(k + 1).drop_last() =~= at.take(k));
    assert(at.take(k + 1).last() == at[k]);
    if read(at[k]) is Err {
        lemma_read_list_error(at, read, k + 1);
    }
}

/// What is said against a JSON text or one of its values.
#[derive(Debug, PartialEq, Eq)]
pub struct JsonError {
    pub message: String,
}

impl View for JsonError {
    type V = Seq<char>;

    open spec fn view(&self) -> Seq<char> {
        self.message@
    }
}

impl JsonDoc {
    /// Whether every index in the document names one of its values.
    pub open spec fn wf(&self) -> bool {
        doc_wf(self@)
    }

    /// Parses a JSON text.
    pub fn parse(text: &str) -> (r: Result<JsonDoc, JsonError>)
        ensures
            match r {
                Ok(doc) => doc.wf() && parsed(text@) == Ok::<Seq<NodeModel>, Seq<char>>(doc@),
                Err(e) => parsed(text@) == Err::<Seq<NodeModel>, Seq<char>>(e@),
            },
            faithful(text@),
    {
        let raw = match raw_parse(text) {
            Ok(raw) => raw,
            Err(message) => return Err(JsonError { message }),
        };
        let mut nodes: Vec<JsonNode> = Vec::new();
        let mut i: usize = 0;
        while raw_has(&raw, i)
            invariant
                raw_text(raw) == text@,
                i <= json_count(text@),
                nodes@.len() == i,
                forall|j: int| 0 <= j < i ==> (#[trigger] nodes@[j])@ == parsed_node(text@, j),
                forall|j: int, k: int|
                    0 <= j < i && 0 <= k < nodes@[j].elements@.len()
                        ==> #[trigger] nodes@[j].elements@[k] < json_count(text@),
                forall|j: int, k: int|
                    0 <= j < i && 0 <= k < nodes@[j].values@.len()
                        ==> #[trigger] nodes@[j].values@[k] < json_count(text@),
            decreases json_count(text@) - i,
        {
            nodes.push(read_node(&raw, i));
            i = i + 1;
        }
        let doc = JsonDoc { nodes };
        proof {
            assert(doc@ =~= indexed(text@));
            assert forall|j: int| 0 <= j < doc@.len() implies node_wf(doc@, #[trigger] doc@[j]) by {
                assert(doc@[j] == doc.nodes@[j]@);
                assert forall|k: int| 0 <= k < doc@[j].elements.len() implies 0
                    <= #[trigger] doc@[j].elements[k] < doc@.len() by {
                    assert(doc@[j].elements[k] == doc.nodes@[j].elements@[k]);
                }
                assert forall|k: int| 0 <= k < doc@[j].values.len() implies 0
                    <= #[trigger] doc@[j].values[k] < doc@.len() by {
                    assert(doc@[j].values[k] == doc.nodes@[j].values@[k]);
                }
                assert(doc@[j].names.len() == doc@[j].values.len());
            }
        }
        Ok(doc)
    }

    /// What is said against a value that does not fit.
    pub fn invalid(&self, i: usize, why: &str) -> (r: JsonError)
        requires
            i < self@.len(),
        ensures
            r@ == invalid_text(self@[i as int], why@),
    {
        let node = &self.nodes[i];
        let mut message = "JSON ".to_owned();
        message.append(node.kind.name());
        message.append(" at byte position ");
        let position = decimal_of(node.position as u64);
        message.append(position.as_str());
        message.append(" is invalid: ");
        message.append(why);
        JsonError { message }
    }

    /// What is said against a value that is not of the kind expected.
    fn wrong_kind(&self, i: usize, expected: JsonKind) -> (r: JsonError)
        requires
            i < self@.len(),
        ensures
            r@ == wrong_kind_text(self@[i as int], expected),
    {
        let mut why = "expected ".to_owned();
        why.append(expected.name());
        why.append(", but found ");
        why.append(self.nodes[i].kind.name());
        self.invalid(i, why.as_str())
    }

    /// The member of that name, if the object has one.
    pub fn member(&self, i: usize, name: &str) -> (r: Result<Option<usize>, JsonError>)
        requires
            self.wf(),
            i < self@.len(),
        ensures
            match r {
                Ok(Some(j)) => j < self@.len() && member(self@, i as int, name@) == Ok::<
                    Option<int>,
                    Seq<char>,
                >(Some(j as int)),
                Ok(None) => member(self@, i as int, name@) == Ok::<Option<int>, Seq<char>>(None),
                Err(e) => member(self@, i as int, name@) == Err::<Option<int>, Seq<char>>(e@),
            },
    {
        let node = &self.nodes[i];
        assert(node_wf(self@, self@[i as int]));
        let ghost ns = node@.names;
        let ghost vs = node@.values;
        match node.kind {
            JsonKind::Object => {},
            _ => {
                return Err(self.wrong_kind(i, JsonKind::Object));
            },
        }
        let mut k: usize = 0;
        assert(ns.skip(0) =~= ns);
        assert(vs.skip(0) =~= vs);
        while k < node.names.len()
            invariant
                k <= node.names@.len(),
                self.wf(),
                i < self@.len(),
                *node == self.nodes@[i as int],
                ns == node@.names,
                vs == node@.values,
                node_wf(self@, node@),
                node.kind is Object,
                member_index(ns.skip(k as int), vs.skip(k as int), name@) == member_index(
                    ns,
                    vs,
                    name@,
                ),
            decreases node.names@.len() - k,
        {
            assert(ns.skip(k as int)[0] == node.names@[k as int]@);
            assert(vs.skip(k as int)[0] == node.values@[k as int]);
            if same(node.names[k].as_str(), name) {
                assert(vs[k as int] == node.values@[k as int]);
                return Ok(Some(node.values[k]));
            }
            assert(ns.skip(k as int).skip(1) =~= ns.skip(k + 1));
            assert(vs.skip(k as int).skip(1) =~= vs.skip(k + 1));
            k = k + 1;
        }
        Ok(None)
    }

    /// The member of that name, which must be there.
    pub fn required(&self, i: usize, name: &str) -> (r: Result<usize, JsonError>)
        requires
            self.wf(),
            i < self@.len(),
        ensures
            match r {
                Ok(j) => j < self@.len() && required(self@, i as int, name@) == Ok::<
                    int,
                    Seq<char>,
                >(j as int),
                Err(e) => required(self@, i as int, name@) == Err::<int, Seq<char>>(e@),
            },
    {
        match self.member(i, name) {
            Err(e) => Err(e),
            Ok(Some(j)) => Ok(j),
            Ok(None) => {
                let mut why = "required member '".to_owned();
                why.append(name);
                why.append("' is missing");
                Err(self.invalid(i, why.as_str()))
            },
        }
    }

    /// The elements of an array.
    pub fn elements(&self, i: usize) -> (r: Result<&Vec<usize>, JsonError>)
        requires
            self.wf(),
            i < self@.len(),
        ensures
            match r {
                Ok(v) => elements(self@, i as int) == Ok::<Seq<int>, Seq<char>>(indices(v@))
                    && forall|k: int| 0 <= k < v@.len() ==> #[trigger] v@[k] < self@.len(),
                Err(e) => elements(self@, i as int) == Err::<Seq<int>, Seq<char>>(e@),
            },
    {
        let node = &self.nodes[i];
        assert(node_wf(self@, self@[i as int]));
        match node.kind {
            JsonKind::Array => {
                proof {
                    assert forall|k: int| 0 <= k < node.elements@.len() implies (
                    #[trigger] node.elements@[k]) < self@.len() by {
                        assert(node@.elements[k] == node.elements@[k]);
                    }
                }
                Ok(&node.elements)
            },
            _ => Err(self.wrong_kind(i, JsonKind::Array)),
        }
    }

    /// The characters of a string.
    pub fn string(&self, i: usize) -> (r: Result<String, JsonError>)
        requires
            i < self@.len(),
        ensures
            match r {
                Ok(s) => string(self@, i as int) == Ok::<Seq<char>, Seq<char>>(s@),
                Err(e) => string(self@, i as int) == Err::<Seq<char>, Seq<char>>(e@),
            },
    {
        let node = &self.nodes[i];
        match node.kind {
            JsonKind::String => Ok(node.text.clone()),
            _ => Err(self.wrong_kind(i, JsonKind::String)),
        }
    }

    /// The characters of a string, or nothing for a null.
    pub fn nullable_string(&self, i: usize) -> (r: Result<Option<String>, JsonError>)
        requires
            i < self@.len(),
        ensures
            match r {
                Ok(Some(s)) => nullable_string(self@, i as int) == Ok::<
                    Option<Seq<char>>,
                    Seq<char>,
                >(Some(s@)),
                Ok(None) => nullable_string(self@, i as int) == Ok::<Option<Seq<char>>, Seq<char>>(
                    None,
                ),
                Err(e) => nullable_string(self@, i as int) == Err::<Option<Seq<char>>, Seq<char>>(
                    e@,
                ),
            },
    {
        match self.nodes[i].kind {
            JsonKind::Null => Ok(None),
            _ => match self.string(i) {
                Ok(s) => Ok(Some(s)),
                Err(e) => Err(e),
            },
        }
    }

    /// A truth value.
    pub fn boolean(&self, i: usize) -> (r: Result<bool, JsonError>)
        requires
            i < self@.len(),
        ensures
            match r {
                Ok(b) => boolean(self@, i as int) == Ok::<bool, Seq<char>>(b),
                Err(e) => boolean(self@, i as int) == Err::<bool, Seq<char>>(e@),
            },
    {
        let node = &self.nodes[i];
        match node.kind {
            JsonKind::Boolean => Ok(same(node.raw.as_str(), "true")),
            _ => Err(self.wrong_kind(i, JsonKind::Boolean)),
        }
    }

    /// An unsigned integer of at most `max`.
    pub fn unsigned(&self, i: usize, max: u64) -> (r: Result<u64, JsonError>)
        requires
            i < self@.len(),
        ensures
            match r {
                Ok(n) => n <= max && unsigned(self@, i as int, max as int) == Ok::<int, Seq<char>>(
                    n as int,
                ),
                Err(e) => unsigned(self@, i as int, max as int) == Err::<int, Seq<char>>(e@),
            },
    {
        let node = &self.nodes[i];
        match node.kind {
            JsonKind::Integer => match parse_unsigned(node.raw.as_str(), max) {
                Ok(n) => Ok(n),
                Err(e) => {
                    let why = e.text();
                    Err(self.invalid(i, why.as_str()))
                },
            },
            _ => Err(self.wrong_kind(i, JsonKind::Integer)),
        }
    }
}

/// The hexadecimal digit `d`, in lower case.
pub open spec fn hex_digit(d: int) -> char {
    if d < 10 {
        crate::text::digit(d)
    } else if d == 10 {
        'a'
    } else if d == 11 {
        'b'
    } else if d == 12 {
        'c'
    } else if d == 13 {
        'd'
    } else if d == 14 {
        'e'
    } else {
        'f'
    }
}

/// How one character stands inside a JSON string.
pub open spec fn escaped_char(c: char) -> Seq<char> {
    if c == '"' || c == '\\' {
        seq!['\\', c]
    } else if c == '\n' {
        seq!['\\', 'n']
    } else if c == '\r' {
        seq!['\\', 'r']
    } else if c == '\t' {
        seq!['\\', 't']
    } else if c == '\u{8}' {
        seq!['\\', 'b']
    } else if c == '\u{c}' {
        seq!['\\', 'f']
    } else if 32 > c as int {
        seq!['\\', 'u', '0', '0', hex_digit(c as int / 16), hex_digit(c as int % 16)]
    } else {
        seq![c]
    }
}

/// How characters stand inside a JSON string.
pub open spec fn escaped(s: Seq<char>) -> Seq<char>
    decreases s.len(),
{
    if s.len() == 0 {
        Seq::empty()
    } else {
        escaped(s.drop_last()) + escaped_char(s.last())
    }
}

/// The JSON string that holds `s`.
pub open spec fn quoted(s: Seq<char>) -> Seq<char> {
    seq!['"'] + escaped(s) + seq!['"']
}

/// `nojson::Json` writes a string between quotes and escapes quotes,
/// backslashes and control characters.
#[verifier::external_body]
pub(crate) fn quote(s: &str) -> (r: String)
    ensures
        r@ == quoted(s@),
{
    nojson::Json(s).to_string()
}

/// The JSON array with those elements.
pub open spec fn array_text(items: Seq<Seq<char>>) -> Seq<char> {
    "["@ + joined(items, ","@) + "]"@
}

/// Writes a JSON array of elements that are written already.
pub fn write_array(items: &Vec<String>) -> (r: String)
    ensures
        r@ == array_text(views(items@)),
{
    let mut out = "[".to_owned();
    let inner = join(items, ",");
    out.append(inner.as_str());
    out.append("]");
    out
}

/// The JSON value for a string that may be absent.
pub open spec fn quoted_or_null(s: Option<Seq<char>>) -> Seq<char> {
    match s {
        Some(s) => quoted(s),
        None => "null"@,
    }
}

/// Writes a string, or `null` where there is none.
pub fn quote_or_null(s: &Option<String>) -> (r: String)
    ensures
        r@ == quoted_or_null(maybe(*s)),
{
    match s {
        Some(s) => quote(s.as_str()),
        None => "null".to_owned(),
    }
}

/// The JSON array of strings.
pub open spec fn string_array_text(items: Seq<Seq<char>>) -> Seq<char> {
    array_text(items.map_values(|s: Seq<char>| quoted(s)))
}

/// Writes a JSON array of strings.
pub fn write_string_array(items: &Vec<String>) -> (r: String)
    ensures
        r@ == string_array_text(views(items@)),
{
    let mut parts: Vec<String> = Vec::new();
    let mut i: usize = 0;
    while i < items.len()
        invariant
            i <= items@.len(),
            parts@.len() == i,
            forall|k: int| 0 <= k < i ==> (#[trigger] parts@[k])@ == quoted(items@[k]@),
        decreases items@.len() - i,
    {
        parts.push(quote(items[i].as_str()));
        i = i + 1;
    }
    assert(views(parts@) =~= views(items@).map_values(|s: Seq<char>| quoted(s)));
    write_array(&parts)
}

} // verus!
