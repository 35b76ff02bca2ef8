//! What holds of operations on text.
use vstd::prelude::*;

use super::{
    contains_str, decimal_of, ends_with, find_from, find_sub, join, joined, lemma_find_from,
    lemma_find_sub, list_contains, occurs_at, parse_unsigned, replace, replaced, split, split_at,
    starts_with, trim, trimmed, trimmed_end, trimmed_start, views, white_space, IntError,
};

verus! {

/// Trimming a text cuts white space off both of its ends, as much as there is
/// and nothing else: what is left stands in the text from `i` up to `j`.
pub proof fn law_trimming_cuts_white_space(s: Seq<char>) -> (r: (int, int))
    ensures
        0 <= r.0 <= r.1 <= s.len(),
        trimmed(s) == s.subrange(r.0, r.1),
        forall|k: int| 0 <= k < r.0 ==> white_space(#[trigger] s[k]),
        forall|k: int| r.1 <= k < s.len() ==> white_space(#[trigger] s[k]),
        r.0 < r.1 ==> !white_space(s[r.0]) && !white_space(s[r.1 - 1]),
{
    let i = lemma_start(s);
    let t = s.skip(i);
    let j = lemma_end(t);
    assert(t.take(j) =~= s.subrange(i, i + j));
    assert forall|k: int| i + j <= k < s.len() implies white_space(#[trigger] s[k]) by {
        assert(t[k - i] == s[k]);
    }
    if j > 0 {
        assert(t[0] == s[i]);
        assert(t[j - 1] == s[i + j - 1]);
    }
    (i, i + j)
}

proof fn lemma_start(s: Seq<char>) -> (k: int)
    ensures
        0 <= k <= s.len(),
        trimmed_start(s) == s.skip(k),
        forall|i: int| 0 <= i < k ==> white_space(#[trigger] s[i]),
        k < s.len() ==> !white_space(s[k]),
    decreases s.len(),
{
    if s.len() > 0 && white_space(s[0]) {
        let t = s.skip(1);
        let k = lemma_start(t);
        assert(t.skip(k) =~= s.skip(k + 1));
        assert forall|i: int| 0 <= i < k + 1 implies white_space(#[trigger] s[i]) by {
            if i > 0 {
                assert(t[i - 1] == s[i]);
            }
        }
        if k < t.len() {
            assert(t[k] == s[k + 1]);
        }
        k + 1
    } else {
        assert(s.skip(0) =~= s);
        0
    }
}

proof fn lemma_end(s: Seq<char>) -> (n: int)
    ensures
        0 <= n <= s.len(),
        trimmed_end(s) == s.take(n),
        forall|i: int| n <= i < s.len() ==> white_space(#[trigger] s[i]),
        n > 0 ==> !white_space(s[n - 1]),
    decreases s.len(),
{
    if s.len() > 0 && white_space(s.last()) {
        let t = s.drop_last();
        let n = lemma_end(t);
        assert(t.take(n) =~= s.take(n));
        assert forall|i: int| n <= i < s.len() implies white_space(#[trigger] s[i]) by {
            if i < t.len() {
                assert(t[i] == s[i]);
            }
        }
        n
    } else {
        assert(s.take(s.len() as int) =~= s);
        s.len() as int
    }
}

/// A text that is split at a character is cut at each of its occurrences: the
/// character stands in no piece, and the pieces joined by it are the text.
pub proof fn law_split_texts_join_back(s: Seq<char>, c: char)
    ensures
        split_at(s, c).len() > 0,
        joined(split_at(s, c), seq![c]) == s,
        forall|i: int, j: int|
            0 <= i < split_at(s, c).len() && 0 <= j < split_at(s, c)[i].len() ==> (
            #[trigger] split_at(s, c)[i][j]) != c,
    decreases s.len(),
{
    let end = find_from(s, c, 0);
    lemma_find_from(s, c, 0);
    let parts = split_at(s, c);
    let sep = seq![c];
    if end >= s.len() {
        assert(parts == seq![s]);
    } else {
        let rest = s.skip(end + 1);
        law_split_texts_join_back(rest, c);
        let more = split_at(rest, c);
        assert(parts == seq![s.take(end)] + more);
        lemma_joined_first(s.take(end), more, sep);
        assert(s.take(end) + sep + rest =~= s);
        assert forall|i: int, j: int| 0 <= i < parts.len() && 0 <= j < parts[i].len() implies (
        #[trigger] parts[i][j]) != c by {
            if i > 0 {
                assert(parts[i] == more[i - 1]);
                assert(more[i - 1][j] != c);
            }
        }
    }
}

proof fn lemma_joined_first(first: Seq<char>, rest: Seq<Seq<char>>, sep: Seq<char>)
    requires
        rest.len() > 0,
    ensures
        joined(seq![first] + rest, sep) == first + sep + joined(rest, sep),
    decreases rest.len(),
{
    let all = seq![first] + rest;
    if rest.len() == 1 {
        let one = seq![first];
        assert(all.drop_last() =~= one);
        assert(joined(one, sep) == one[0]);
        assert(all.last() == rest[0]);
        assert(joined(all, sep) =~= first + sep + rest[0]);
        assert(joined(rest, sep) =~= rest[0]);
    } else {
        lemma_joined_first(first, rest.drop_last(), sep);
        assert(all.drop_last() =~= seq![first] + rest.drop_last());
        assert(joined(all, sep) =~= first + sep + joined(rest, sep));
    }
}

/// A text in which that character stands between two others has the pieces of
/// both.
pub proof fn law_pieces_add_up(a: Seq<char>, b: Seq<char>, c: char)
    ensures
        split_at(a + seq![c] + b, c) == split_at(a, c) + split_at(b, c),
    decreases a.len(),
{
    let s = a + seq![c] + b;
    let end = find_from(a, c, 0);
    lemma_find_from(a, c, 0);
    lemma_find_from(s, c, 0);
    let at = find_from(s, c, 0);
    assert(s[a.len() as int] == c);
    if end >= a.len() {
        assert(at == a.len()) by {
            if at < a.len() {
                assert(s[at] == a[at]);
            } else if at > a.len() {
                assert(s[a.len() as int] != c);
            }
        }
        assert(s.take(at) =~= a);
        assert(s.skip(at + 1) =~= b);
        assert(split_at(s, c) =~= split_at(a, c) + split_at(b, c));
    } else {
        assert(at == end) by {
            if at < end {
                assert(s[at] == a[at]);
            } else if end < at {
                assert(s[end] == a[end]);
            }
        }
        let rest = a.skip(end + 1);
        law_pieces_add_up(rest, b, c);
        assert(s.take(at) =~= a.take(end));
        assert(s.skip(at + 1) =~= rest + seq![c] + b);
        assert(split_at(s, c) =~= split_at(a, c) + split_at(b, c));
    }
}

/// A text that is trimmed is cut at both ends, and nowhere else.
pub proof fn law_trimming(s: &str, r: String)
    requires
        call_ensures(trim, (s,), r),
    ensures
        r@.len() <= s@.len(),
        r@.len() > 0 ==> !white_space(r@[0]) && !white_space(r@.last()),
        s@.len() > 0 && !white_space(s@[0]) && !white_space(s@.last()) ==> r@ == s@,
        (forall|i: int| 0 <= i < s@.len() ==> white_space(#[trigger] s@[i])) ==> r@.len() == 0,
{
    let (i, j) = law_trimming_cuts_white_space(s@);
    assert(r@ == s@.subrange(i, j));
    if s@.len() > 0 && !white_space(s@[0]) && !white_space(s@.last()) {
        if i > 0 {
            assert(white_space(s@[0]));
        }
        if j < s@.len() {
            assert(white_space(s@[s@.len() - 1]));
        }
        assert(r@ =~= s@);
    }
    if forall|i: int| 0 <= i < s@.len() ==> white_space(#[trigger] s@[i]) {
        if i < j {
            assert(white_space(s@[i]));
        }
    }
}

/// A number that is written is read as the same number.
pub proof fn law_numbers_read_back(n: u64, max: u64, s: String, text: &str, r: Result<u64, IntError>)
    requires
        call_ensures(decimal_of, (n,), s),
        text@ == s@,
        call_ensures(parse_unsigned, (text, max), r),
        n <= max,
    ensures
        r == Ok::<u64, IntError>(n),
{
    crate::json::value::lemma_decimal_reads_back(n as nat, max as int);
}

/// Texts are joined with a separator between each two of them, and split
/// where the separator stands: what is split joins back.
pub proof fn law_splitting_and_joining(s: &str, c: char, parts: Vec<String>, sep: &str, r: String)
    requires
        call_ensures(split, (s, c), parts),
        call_ensures(join, (&parts, sep), r),
        sep@ == seq![c],
    ensures
        r@ == s@,
        forall|i: int| 0 <= i < parts@.len() ==> !(#[trigger] parts@[i])@.contains(c),
{
    law_split_texts_join_back(s@, c);
    lemma_no_separator(s@, c);
    assert forall|i: int| 0 <= i < parts@.len() implies !(#[trigger] parts@[i])@.contains(c) by {
        assert(views(parts@)[i] == parts@[i]@);
    }
}

proof fn lemma_no_separator(s: Seq<char>, c: char)
    ensures
        forall|i: int| 0 <= i < split_at(s, c).len() ==> !(#[trigger] split_at(s, c)[i]).contains(c),
    decreases s.len(),
{
    let end = find_from(s, c, 0);
    lemma_find_from(s, c, 0);
    let all = split_at(s, c);
    if end >= s.len() {
        assert(all == seq![s]);
        if s.contains(c) {
            let k = choose|k: int| 0 <= k < s.len() && s[k] == c;
            assert(s[k] != c);
        }
    } else {
        let rest = split_at(s.skip(end + 1), c);
        lemma_no_separator(s.skip(end + 1), c);
        assert(all == seq![s.take(end)] + rest);
        assert forall|i: int| 0 <= i < all.len() implies !(#[trigger] all[i]).contains(c) by {
            if i == 0 {
                if s.take(end).contains(c) {
                    let k = choose|k: int| 0 <= k < end && s.take(end)[k] == c;
                    assert(s[k] == c);
                }
            } else {
                assert(all[i] == rest[i - 1]);
            }
        }
    }
}

/// A text starts with another where that stands at its start, ends with it
/// where that stands at its end, and holds it where that stands anywhere.
pub proof fn law_texts_within_texts(s: &str, p: &str, starts: bool, ends: bool, within: bool)
    requires
        call_ensures(starts_with, (s, p), starts),
        call_ensures(ends_with, (s, p), ends),
        call_ensures(contains_str, (s, p), within),
    ensures
        starts <==> p@.len() <= s@.len() && s@.subrange(0, p@.len() as int) == p@,
        ends <==> p@.len() <= s@.len() && s@.subrange(s@.len() - p@.len(), s@.len() as int) == p@,
        within <==> exists|at: int|
            0 <= at <= s@.len() - p@.len() && #[trigger] s@.subrange(at, at + p@.len()) == p@,
{
    if p@.len() <= s@.len() {
        assert(s@.subrange(0, p@.len() as int) =~= s@.take(p@.len() as int));
        assert(s@.subrange(s@.len() - p@.len(), s@.len() as int) =~= s@.skip(s@.len() - p@.len()));
    }
    lemma_find_sub(s@, p@, 0);
    if within {
        let at = find_sub(s@, p@, 0)->0;
        assert(s@.subrange(at, at + p@.len()) == p@);
    }
    if exists|at: int|
        0 <= at <= s@.len() - p@.len() && #[trigger] s@.subrange(at, at + p@.len()) == p@ {
        let at = choose|at: int|
            0 <= at <= s@.len() - p@.len() && #[trigger] s@.subrange(at, at + p@.len()) == p@;
        assert(occurs_at(s@, p@, at));
    }
}

/// The first of the texts to be replaced gives way to the other, and so do
/// those behind it; a text without any stays as it is.
pub proof fn law_texts_are_replaced(s: &str, from: &str, to: &str, r: String)
    requires
        call_ensures(replace, (s, from, to), r),
        from@.len() > 0,
    ensures
        (forall|at: int| !occurs_at(s@, from@, at)) ==> r@ == s@,
        forall|i: int| #[trigger]
            occurs_at(s@, from@, i) && (forall|j: int| 0 <= j < i ==> !occurs_at(s@, from@, j))
                ==> r@ == s@.take(i) + to@ + replaced(s@.skip(i + from@.len()), from@, to@),
{
    lemma_find_sub(s@, from@, 0);
}

/// A list holds a text exactly if one of its texts is the same.
pub proof fn law_lists_hold_texts(v: &Vec<String>, s: &str, r: bool)
    requires
        call_ensures(list_contains, (v, s), r),
    ensures
        r <==> exists|i: int| 0 <= i < v@.len() && (#[trigger] v@[i])@ == s@,
{
    if r {
        let i = choose|i: int| 0 <= i < views(v@).len() && views(v@)[i] == s@;
        assert(v@[i]@ == s@);
    }
    if exists|i: int| 0 <= i < v@.len() && (#[trigger] v@[i])@ == s@ {
        let i = choose|i: int| 0 <= i < v@.len() && (#[trigger] v@[i])@ == s@;
        assert(views(v@)[i] == s@);
    }
}

} // verus!
