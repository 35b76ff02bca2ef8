//! JSON values, the compact text that stands for each, and how a document
//! holds them.
use vstd::prelude::*;
use vstd::string::*;

use super::{
    array_text, elements, escaped, escaped_char, member, member_index, parsed, quoted, read_list,
    required, string, string_array_text, NodeModel,
};
use crate::text::{
    decimal, digit, digit_value, digits_value, is_digit, joined, unsigned_value, IntError,
};

verus! {

/// A JSON value. Numbers are unsigned integers.
pub enum JsonValue {
    Null,
    Bool(bool),
    Number(nat),
    Text(Seq<char>),
    List(Seq<JsonValue>),
    Members(Seq<(Seq<char>, JsonValue)>),
}

/// The texts of the first `n` values.
pub open spec fn json_texts(items: Seq<JsonValue>, n: nat) -> Seq<Seq<char>>
    decreases items, n,
{
    if n == 0 || n > items.len() {
        Seq::empty()
    } else {
        json_texts(items, (n - 1) as nat).push(json_text(items[n - 1]))
    }
}

/// The texts of the first `n` members.
pub open spec fn member_texts(items: Seq<(Seq<char>, JsonValue)>, n: nat) -> Seq<Seq<char>>
    decreases items, n,
{
    if n == 0 || n > items.len() {
        Seq::empty()
    } else {
        member_texts(items, (n - 1) as nat).push(
            quoted(items[n - 1].0) + ":"@ + json_text(items[n - 1].1),
        )
    }
}

/// The text of a value, without white space.
pub open spec fn json_text(v: JsonValue) -> Seq<char>
    decreases v, 0nat,
{
    match v {
        JsonValue::Null => "null"@,
        JsonValue::Bool(b) => if b {
            "true"@
        } else {
            "false"@
        },
        JsonValue::Number(n) => decimal(n),
        JsonValue::Text(s) => quoted(s),
        JsonValue::List(items) => array_text(json_texts(items, items.len())),
        JsonValue::Members(items) => "{"@ + joined(member_texts(items, items.len()), ","@) + "}"@,
    }
}

/// Whether lists and objects are nested no deeper than that.
pub open spec fn shallow(v: JsonValue, depth: nat) -> bool
    decreases depth,
{
    match v {
        JsonValue::List(items) => depth > 0 && forall|i: int|
            0 <= i < items.len() ==> shallow(#[trigger] items[i], (depth - 1) as nat),
        JsonValue::Members(items) => depth > 0 && forall|i: int|
            0 <= i < items.len() ==> shallow((#[trigger] items[i]).1, (depth - 1) as nat),
        _ => true,
    }
}

/// Whether a document holds that value at that place, as it is written.
pub open spec fn holds(doc: Seq<NodeModel>, i: int, v: JsonValue) -> bool
    decreases v,
{
    &&& 0 <= i < doc.len()
    &&& doc[i].raw == json_text(v)
    &&& match v {
        JsonValue::Null => doc[i].kind is Null,
        JsonValue::Bool(_) => doc[i].kind is Boolean,
        JsonValue::Number(_) => doc[i].kind is Integer,
        JsonValue::Text(s) => doc[i].kind is String && doc[i].text == s,
        JsonValue::List(items) => {
            &&& doc[i].kind is Array
            &&& doc[i].elements.len() == items.len()
            &&& forall|k: int|
                0 <= k < items.len() ==> holds(doc, doc[i].elements[k], #[trigger] items[k])
        },
        JsonValue::Members(items) => {
            &&& doc[i].kind is Object
            &&& doc[i].names.len() == items.len()
            &&& doc[i].values.len() == items.len()
            &&& forall|k: int|
                0 <= k < items.len() ==> doc[i].names[k] == (#[trigger] items[k]).0 && holds(
                    doc,
                    doc[i].values[k],
                    items[k].1,
                )
        },
    }
}

/// How deep lists and objects may be nested.
pub const MAX_DEPTH: usize = 128;

/// Whether a text is the compact text of a value.
pub open spec fn written(text: Seq<char>) -> bool {
    exists|v: JsonValue| text == #[trigger] json_text(v) && shallow(v, MAX_DEPTH as nat)
}

/// Whether a document holds every value whose compact text that is.
pub open spec fn holds_written(doc: Seq<NodeModel>, text: Seq<char>) -> bool {
    forall|v: JsonValue|
        text == #[trigger] json_text(v) && shallow(v, MAX_DEPTH as nat) ==> holds(doc, 0, v)
}

/// Whether a text reads back as the value that it was written for, if it was
/// written for one.
pub open spec fn faithful(text: Seq<char>) -> bool {
    match parsed(text) {
        Ok(doc) => holds_written(doc, text),
        Err(_) => !written(text),
    }
}

/// What a faithful text reads back as.
pub proof fn lemma_reads_back(text: Seq<char>, v: JsonValue)
    requires
        faithful(text),
        text == json_text(v),
        shallow(v, MAX_DEPTH as nat),
    ensures
        parsed(text) is Ok,
        holds(parsed(text)->Ok_0, 0, v),
{
    assert(written(text));
}

/// The member of that name, where no earlier one has it.
pub proof fn lemma_member_at(names: Seq<Seq<char>>, values: Seq<int>, k: int)
    requires
        0 <= k < names.len(),
        names.len() == values.len(),
        forall|j: int| 0 <= j < k ==> #[trigger] names[j] != names[k],
    ensures
        member_index(names, values, names[k]) == Some(values[k]),
    decreases k,
{
    if k > 0 {
        assert(names[0] != names[k]);
        lemma_member_at(names.skip(1), values.skip(1), k - 1);
        assert(names.skip(1)[k - 1] == names[k]);
        assert(values.skip(1)[k - 1] == values[k]);
    }
}

/// Whether the members before the `k`-th have other names.
pub open spec fn first_of_name(items: Seq<(Seq<char>, JsonValue)>, k: int) -> bool {
    forall|j: int| 0 <= j < k ==> (#[trigger] items[j]).0 != items[k].0
}

/// A document that holds an object has its members.
pub proof fn lemma_has_member(
    doc: Seq<NodeModel>,
    i: int,
    items: Seq<(Seq<char>, JsonValue)>,
    k: int,
)
    requires
        holds(doc, i, JsonValue::Members(items)),
        0 <= k < items.len(),
        first_of_name(items, k),
    ensures
        member(doc, i, items[k].0) == Ok::<Option<int>, Seq<char>>(Some(doc[i].values[k])),
        required(doc, i, items[k].0) == Ok::<int, Seq<char>>(doc[i].values[k]),
        holds(doc, doc[i].values[k], items[k].1),
{
    let names = doc[i].names;
    assert(doc[i].names[k] == items[k].0);
    assert forall|j: int| 0 <= j < k implies #[trigger] names[j] != names[k] by {
        assert(names[j] == items[j].0);
    }
    lemma_member_at(names, doc[i].values, k);
}

/// A document that holds a list of values reads back as the list.
pub proof fn lemma_reads_list<T, E>(
    doc: Seq<NodeModel>,
    i: int,
    items: Seq<JsonValue>,
    read: spec_fn(int) -> Result<T, E>,
    out: Seq<T>,
)
    requires
        holds(doc, i, JsonValue::List(items)),
        out.len() == items.len(),
        forall|k: int|
            0 <= k < items.len() ==> read(doc[i].elements[k]) == Ok::<T, E>(#[trigger] out[k]),
    ensures
        elements(doc, i) == Ok::<Seq<int>, Seq<char>>(doc[i].elements),
        read_list(doc[i].elements, read) == Ok::<Seq<T>, E>(out),
{
    let at = doc[i].elements;
    lemma_reads_each(at, read, out, at.len() as int);
    assert(at.take(at.len() as int) =~= at);
    assert(out.take(at.len() as int) =~= out);
}

proof fn lemma_reads_each<T, E>(
    at: Seq<int>,
    read: spec_fn(int) -> Result<T, E>,
    out: Seq<T>,
    n: int,
)
    requires
        0 <= n <= at.len(),
        at.len() == out.len(),
        forall|k: int| 0 <= k < at.len() ==> read(at[k]) == Ok::<T, E>(#[trigger] out[k]),
    ensures
        read_list(at.take(n), read) == Ok::<Seq<T>, E>(out.take(n)),
    decreases n,
{
    if n == 0 {
        assert(at.take(0) =~= Seq::empty());
        assert(out.take(0) =~= Seq::empty());
    } else {
        lemma_reads_each(at, read, out, n - 1);
        assert(at.take(n).drop_last() =~= at.take(n - 1));
        assert(at.take(n).last() == at[n - 1]);
        assert(read(at[n - 1]) == Ok::<T, E>(out[n - 1]));
        assert(out.take(n) =~= out.take(n - 1).push(out[n - 1]));
    }
}

/// A decimal number reads back as the number.
pub proof fn lemma_decimal_reads_back(n: nat, max: int)
    requires
        n <= max,
    ensures
        digits_value(decimal(n), max) == Ok::<int, IntError>(n as int),
        unsigned_value(decimal(n), max) == Ok::<int, IntError>(n as int),
    decreases n,
{
    let s = decimal(n);
    if n < 10 {
        assert(s.drop_last() =~= Seq::empty());
        assert(digits_value(s.drop_last(), max) == Ok::<int, IntError>(0));
        assert(s.last() == digit(n as int));
        assert(is_digit(digit(n as int)) && digit_value(digit(n as int)) == n);
    } else {
        lemma_decimal_reads_back(n / 10, max);
        assert(s.drop_last() =~= decimal(n / 10));
        let d = (n % 10) as int;
        assert(s.last() == digit(d));
        assert(is_digit(digit(d)) && digit_value(digit(d)) == d);
        assert((n / 10) * 10 + n % 10 == n);
    }
    lemma_decimal_starts_with_digit(n);
}

proof fn lemma_decimal_starts_with_digit(n: nat)
    ensures
        decimal(n).len() > 0,
        decimal(n)[0] != '+',
    decreases n,
{
    if n >= 10 {
        lemma_decimal_starts_with_digit(n / 10);
    }
}

/// Whether a character stands for itself in a JSON string.
pub open spec fn plain_char(c: char) -> bool {
    c != '"' && c != '\\' && c as int >= 32
}

/// A text of characters that stand for themselves, as a JSON string.
pub proof fn lemma_quoted_plain(s: Seq<char>)
    requires
        forall|i: int| 0 <= i < s.len() ==> plain_char(#[trigger] s[i]),
    ensures
        quoted(s) == seq!['"'] + s + seq!['"'],
{
    lemma_escaped_plain(s);
}

proof fn lemma_escaped_plain(s: Seq<char>)
    requires
        forall|i: int| 0 <= i < s.len() ==> plain_char(#[trigger] s[i]),
    ensures
        escaped(s) == s,
    decreases s.len(),
{
    if s.len() == 0 {
        assert(escaped(s) =~= s);
    } else {
        lemma_escaped_plain(s.drop_last());
        assert(plain_char(s.last()));
        assert(s =~= s.drop_last() + seq![s.last()]);
    }
}

/// A JSON string holds no line feed.
pub proof fn lemma_quoted_is_one_line(s: Seq<char>)
    ensures
        forall|i: int| 0 <= i < quoted(s).len() ==> #[trigger] quoted(s)[i] != '\n',
        quoted(s).len() >= 2,
        quoted(s)[0] == '"',
        quoted(s).last() == '"',
    decreases s.len(),
{
    lemma_escaped_is_one_line(s);
    let q = quoted(s);
    assert forall|i: int| 0 <= i < q.len() implies #[trigger] q[i] != '\n' by {
        if 0 < i < q.len() - 1 {
            assert(q[i] == escaped(s)[i - 1]);
        }
    }
}

proof fn lemma_escaped_is_one_line(s: Seq<char>)
    ensures
        forall|i: int| 0 <= i < escaped(s).len() ==> #[trigger] escaped(s)[i] != '\n',
    decreases s.len(),
{
    if s.len() > 0 {
        lemma_escaped_is_one_line(s.drop_last());
        let a = escaped(s.drop_last());
        let b = escaped_char(s.last());
        assert forall|i: int| 0 <= i < escaped(s).len() implies #[trigger] escaped(s)[i] != '\n' by {
            if i < a.len() {
                assert(escaped(s)[i] == a[i]);
            } else {
                assert(escaped(s)[i] == b[i - a.len()]);
            }
        }
    }
}

/// Texts as a list of JSON strings.
pub open spec fn text_list(v: Seq<Seq<char>>) -> JsonValue {
    JsonValue::List(v.map_values(|s: Seq<char>| JsonValue::Text(s)))
}

/// What is written for texts is the text of the list.
pub proof fn lemma_text_list(v: Seq<Seq<char>>)
    ensures
        string_array_text(v) == json_text(text_list(v)),
{
    let items = v.map_values(|s: Seq<char>| JsonValue::Text(s));
    lemma_json_texts(
        items,
        v.map_values(|s: Seq<char>| quoted(s)),
        items.len(),
    );
    assert(json_texts(items, items.len()) =~= v.map_values(|s: Seq<char>| quoted(s)));
}

/// The texts of values, one by one.
pub proof fn lemma_json_texts(items: Seq<JsonValue>, texts: Seq<Seq<char>>, n: nat)
    requires
        n <= items.len(),
        texts.len() == items.len(),
        forall|k: int| 0 <= k < items.len() ==> #[trigger] texts[k] == json_text(items[k]),
    ensures
        json_texts(items, n) == texts.take(n as int),
    decreases n,
{
    if n == 0 {
        assert(texts.take(0) =~= Seq::empty());
    } else {
        lemma_json_texts(items, texts, (n - 1) as nat);
        assert(texts[n - 1] == json_text(items[n - 1]));
        assert(texts.take(n as int) =~= texts.take(n - 1).push(texts[n - 1]));
    }
}

/// A document that holds a list of strings reads back as the strings.
pub proof fn lemma_text_list_reads_back<E>(
    doc: Seq<NodeModel>,
    i: int,
    v: Seq<Seq<char>>,
    read: spec_fn(int) -> Result<Seq<char>, E>,
)
    requires
        holds(doc, i, text_list(v)),
        forall|k: int, s: Seq<char>|
            #![trigger holds(doc, k, JsonValue::Text(s))]
            holds(doc, k, JsonValue::Text(s)) ==> read(k) == Ok::<Seq<char>, E>(s),
    ensures
        elements(doc, i) == Ok::<Seq<int>, Seq<char>>(doc[i].elements),
        read_list(doc[i].elements, read) == Ok::<Seq<Seq<char>>, E>(v),
{
    let items = v.map_values(|s: Seq<char>| JsonValue::Text(s));
    assert forall|k: int| 0 <= k < items.len() implies read(doc[i].elements[k]) == Ok::<
        Seq<char>,
        E,
    >(#[trigger] v[k]) by {
        assert(items[k] == JsonValue::Text(v[k]));
        assert(holds(doc, doc[i].elements[k], items[k]));
    }
    lemma_reads_list(doc, i, items, read, v);
}

/// The text of an object with one member.
pub proof fn lemma_one_member(a: Seq<char>, x: JsonValue)
    ensures
        json_text(JsonValue::Members(seq![(a, x)])) == "{"@ + (quoted(a) + ":"@ + json_text(x))
            + "}"@,
{
    let items = seq![(a, x)];
    reveal_with_fuel(member_texts, 2);
    assert(member_texts(items, 1) =~= seq![quoted(a) + ":"@ + json_text(x)]);
}

/// The text of an object whose last member comes behind others.
pub proof fn lemma_one_more_member(
    items: Seq<(Seq<char>, JsonValue)>,
    a: Seq<char>,
    x: JsonValue,
    body: Seq<char>,
)
    requires
        items.len() > 0,
        json_text(JsonValue::Members(items)) == "{"@ + body + "}"@,
    ensures
        json_text(JsonValue::Members(items.push((a, x)))) == "{"@ + (body + ","@ + (quoted(a) + ":"@
            + json_text(x))) + "}"@,
{
    let more = items.push((a, x));
    let n = items.len();
    lemma_member_texts_prefix(items, more, n);
    let parts = member_texts(items, n);
    let all = member_texts(more, n + 1);
    assert(all =~= parts.push(quoted(a) + ":"@ + json_text(x)));
    lemma_member_texts_len(items, n);
    assert(all.drop_last() =~= parts);
    let inner = joined(parts, ","@);
    reveal_strlit("{");
    reveal_strlit("}");
    let t = "{"@ + body + "}"@;
    assert("{"@ + inner + "}"@ == t);
    assert(("{"@ + inner + "}"@).subrange(1, t.len() - 1) =~= inner);
    assert(t.subrange(1, t.len() - 1) =~= body);
}

/// How the text of a member and what stands before it come apart.
pub proof fn lemma_flat(
    open: Seq<char>,
    body: Seq<char>,
    comma: Seq<char>,
    name: Seq<char>,
    colon: Seq<char>,
    value: Seq<char>,
    close: Seq<char>,
)
    ensures
        open + (body + comma + (name + colon + value)) + close == (open + body) + (comma + name
            + colon) + value + close,
        open + (body + comma + (name + colon + value)) == (open + body) + (comma + name + colon)
            + value,
        open + (name + colon + value) == (open + name + colon) + value,
{
    assert(open + (body + comma + (name + colon + value)) =~= (open + body) + (comma + name + colon)
        + value);
    assert(open + (body + comma + (name + colon + value)) + close =~= (open + body) + (comma + name
        + colon) + value + close);
    assert(open + (name + colon + value) =~= (open + name + colon) + value);
}

proof fn lemma_member_texts_len(items: Seq<(Seq<char>, JsonValue)>, n: nat)
    requires
        n <= items.len(),
    ensures
        member_texts(items, n).len() == n,
    decreases n,
{
    if n > 0 {
        lemma_member_texts_len(items, (n - 1) as nat);
    }
}

proof fn lemma_member_texts_prefix(
    items: Seq<(Seq<char>, JsonValue)>,
    more: Seq<(Seq<char>, JsonValue)>,
    n: nat,
)
    requires
        n <= items.len() <= more.len(),
        forall|k: int| 0 <= k < items.len() ==> #[trigger] more[k] == items[k],
    ensures
        member_texts(more, n) == member_texts(items, n),
    decreases n,
{
    if n > 0 {
        lemma_member_texts_prefix(items, more, (n - 1) as nat);
        assert(more[n - 1] == items[n - 1]);
    }
}

/// Whether no line feed stands in a text.
pub open spec fn flat(s: Seq<char>) -> bool {
    forall|i: int| 0 <= i < s.len() ==> #[trigger] s[i] != '\n'
}

/// Texts without a line feed, put together, have none.
pub proof fn lemma_flat_add(a: Seq<char>, b: Seq<char>)
    requires
        flat(a),
        flat(b),
    ensures
        flat(a + b),
{
    assert forall|i: int| 0 <= i < (a + b).len() implies #[trigger] (a + b)[i] != '\n' by {
        if i < a.len() {
            assert((a + b)[i] == a[i]);
        } else {
            assert((a + b)[i] == b[i - a.len()]);
        }
    }
}

proof fn lemma_flat_joined(parts: Seq<Seq<char>>, sep: Seq<char>)
    requires
        flat(sep),
        forall|i: int| 0 <= i < parts.len() ==> flat(#[trigger] parts[i]),
    ensures
        flat(joined(parts, sep)),
    decreases parts.len(),
{
    if parts.len() > 1 {
        lemma_flat_joined(parts.drop_last(), sep);
        lemma_flat_add(joined(parts.drop_last(), sep), sep);
        assert(flat(parts[parts.len() - 1]));
        lemma_flat_add(joined(parts.drop_last(), sep) + sep, parts.last());
    } else if parts.len() == 1 {
        assert(flat(parts[0]));
    }
}

/// A number is written without a line feed.
pub proof fn lemma_flat_decimal(n: nat)
    ensures
        flat(decimal(n)),
    decreases n,
{
    if n >= 10 {
        lemma_flat_decimal(n / 10);
    }
}

proof fn lemma_flat_texts(items: Seq<JsonValue>, n: nat)
    requires
        n <= items.len(),
    ensures
        forall|i: int|
            0 <= i < json_texts(items, n).len() ==> flat(#[trigger] json_texts(items, n)[i]),
    decreases items, n,
{
    if n > 0 {
        lemma_flat_texts(items, (n - 1) as nat);
        lemma_json_text_is_flat(items[n - 1]);
        let before = json_texts(items, (n - 1) as nat);
        assert forall|i: int| 0 <= i < json_texts(items, n).len() implies flat(
            #[trigger] json_texts(items, n)[i],
        ) by {
            if i < before.len() {
                assert(json_texts(items, n)[i] == before[i]);
            }
        }
    }
}

proof fn lemma_flat_member_texts(items: Seq<(Seq<char>, JsonValue)>, n: nat)
    requires
        n <= items.len(),
    ensures
        forall|i: int|
            0 <= i < member_texts(items, n).len() ==> flat(#[trigger] member_texts(items, n)[i]),
    decreases items, n,
{
    if n > 0 {
        lemma_flat_member_texts(items, (n - 1) as nat);
        lemma_json_text_is_flat(items[n - 1].1);
        lemma_quoted_is_one_line(items[n - 1].0);
        reveal_strlit(":");
        lemma_flat_add(quoted(items[n - 1].0), ":"@);
        lemma_flat_add(quoted(items[n - 1].0) + ":"@, json_text(items[n - 1].1));
        let before = member_texts(items, (n - 1) as nat);
        assert forall|i: int| 0 <= i < member_texts(items, n).len() implies flat(
            #[trigger] member_texts(items, n)[i],
        ) by {
            if i < before.len() {
                assert(member_texts(items, n)[i] == before[i]);
            }
        }
    }
}

/// The compact text of a value holds no line feed.
pub proof fn lemma_json_text_is_flat(v: JsonValue)
    ensures
        flat(json_text(v)),
    decreases v, 0nat,
{
    reveal_strlit("null");
    reveal_strlit("true");
    reveal_strlit("false");
    reveal_strlit("[");
    reveal_strlit("]");
    reveal_strlit("{");
    reveal_strlit("}");
    reveal_strlit(",");
    match v {
        JsonValue::Number(n) => lemma_flat_decimal(n),
        JsonValue::Text(s) => lemma_quoted_is_one_line(s),
        JsonValue::List(items) => {
            let texts = json_texts(items, items.len());
            lemma_flat_texts(items, items.len());
            lemma_flat_joined(texts, ","@);
            lemma_flat_add("["@, joined(texts, ","@));
            lemma_flat_add("["@ + joined(texts, ","@), "]"@);
        },
        JsonValue::Members(items) => {
            let texts = member_texts(items, items.len());
            lemma_flat_member_texts(items, items.len());
            lemma_flat_joined(texts, ","@);
            lemma_flat_add("{"@, joined(texts, ","@));
            lemma_flat_add("{"@ + joined(texts, ","@), "}"@);
        },
        _ => {},
    }
}

} // verus!
