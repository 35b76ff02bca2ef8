//! Strings as sequences of characters.
//!
//! The rest of the crate states its contracts over `Seq<char>`. This module
//! holds the operations on text that they share: comparison, trimming,
//! splitting, joining, and decimal numbers.
use vstd::prelude::*;
use vstd::string::*;

pub mod laws;

verus! {

/// `String::push` appends one character.
pub assume_specification[ std::string::String::push ](s: &mut std::string::String, c: char)
    ensures
        final(s)@ == old(s)@.push(c),
;

/// `str`'s `==` holds exactly when both strings have the same characters.
#[verifier::external_body]
pub(crate) fn same(a: &str, b: &str) -> (r: bool)
    ensures
        r == (a@ == b@),
{
    a == b
}

/// What the error of `std::str::from_utf8` says of bytes.
pub uninterp spec fn utf8_error(bytes: Seq<u8>) -> Seq<char>;

/// `std::str::from_utf8` accepts exactly the valid UTF-8 sequences, and the
/// string that it gives is made of those bytes.
#[verifier::external_body]
pub(crate) fn utf8_text(bytes: &[u8]) -> (r: Result<&str, String>)
    ensures
        match r {
            Ok(s) => vstd::utf8::valid_utf8(bytes@) && s.spec_bytes() == bytes@,
            Err(e) => !vstd::utf8::valid_utf8(bytes@) && e@ == utf8_error(bytes@),
        },
{
    std::str::from_utf8(bytes).map_err(|e| e.to_string())
}

/// The characters with the Unicode property `White_Space`.
pub open spec fn white_space(c: char) -> bool {
    ||| '\u{9}' <= c <= '\u{d}'
    ||| c == '\u{20}'
    ||| c == '\u{85}'
    ||| c == '\u{a0}'
    ||| c == '\u{1680}'
    ||| '\u{2000}' <= c <= '\u{200a}'
    ||| c == '\u{2028}'
    ||| c == '\u{2029}'
    ||| c == '\u{202f}'
    ||| c == '\u{205f}'
    ||| c == '\u{3000}'
}

/// Whether `c` is white space.
pub fn is_white_space(c: char) -> (r: bool)
    ensures
        r == white_space(c),
{
    ('\u{9}' <= c && c <= '\u{d}') || c == '\u{20}' || c == '\u{85}' || c == '\u{a0}' || c
        == '\u{1680}' || ('\u{2000}' <= c && c <= '\u{200a}') || c == '\u{2028}' || c == '\u{2029}'
        || c == '\u{202f}' || c == '\u{205f}' || c == '\u{3000}'
}

/// The characters of `s`, one by one.
pub fn chars_of(s: &str) -> (r: Vec<char>)
    ensures
        r@ == s@,
{
    let mut out: Vec<char> = Vec::new();
    for c in it: s.chars()
        invariant
            out@ == it.seq().take(it.index()),
            it.seq() == s@,
    {
        out.push(c);
    }
    out
}

/// The string made of the characters of `v` from `from` up to `to`.
pub fn string_of(v: &Vec<char>, from: usize, to: usize) -> (r: String)
    requires
        from <= to <= v@.len(),
    ensures
        r@ == v@.subrange(from as int, to as int),
{
    let mut out = String::new();
    let mut i: usize = from;
    while i < to
        invariant
            from <= i <= to <= v@.len(),
            out@ == v@.subrange(from as int, i as int),
        decreases to - i,
    {
        out.push(v[i]);
        i = i + 1;
    }
    out
}

/// `s` without its leading white space.
pub open spec fn trimmed_start(s: Seq<char>) -> Seq<char>
    decreases s.len(),
{
    if s.len() > 0 && white_space(s[0]) {
        trimmed_start(s.skip(1))
    } else {
        s
    }
}

/// `s` without its trailing white space.
pub open spec fn trimmed_end(s: Seq<char>) -> Seq<char>
    decreases s.len(),
{
    if s.len() > 0 && white_space(s.last()) {
        trimmed_end(s.drop_last())
    } else {
        s
    }
}

/// `s` without white space on either side.
pub open spec fn trimmed(s: Seq<char>) -> Seq<char> {
    trimmed_end(trimmed_start(s))
}

/// White space in front of a text is cut off, and nothing else.
pub proof fn lemma_trimmed_start(a: Seq<char>, x: Seq<char>)
    requires
        forall|i: int| 0 <= i < a.len() ==> white_space(#[trigger] a[i]),
        x.len() == 0 || !white_space(x[0]),
    ensures
        trimmed_start(a + x) == x,
    decreases a.len(),
{
    if a.len() > 0 {
        assert((a + x)[0] == a[0]);
        assert((a + x).skip(1) =~= a.skip(1) + x);
        lemma_trimmed_start(a.skip(1), x);
    } else {
        assert(a + x =~= x);
    }
}

/// White space behind a text is cut off, and nothing else.
pub proof fn lemma_trimmed_end(x: Seq<char>, b: Seq<char>)
    requires
        forall|i: int| 0 <= i < b.len() ==> white_space(#[trigger] b[i]),
        x.len() == 0 || !white_space(x.last()),
    ensures
        trimmed_end(x + b) == x,
    decreases b.len(),
{
    if b.len() > 0 {
        assert((x + b).last() == b.last());
        assert((x + b).drop_last() =~= x + b.drop_last());
        lemma_trimmed_end(x, b.drop_last());
    } else {
        assert(x + b =~= x);
    }
}

/// White space around a text is cut off, and nothing else.
pub proof fn lemma_trimmed(a: Seq<char>, x: Seq<char>, b: Seq<char>)
    requires
        forall|i: int| 0 <= i < a.len() ==> white_space(#[trigger] a[i]),
        forall|i: int| 0 <= i < b.len() ==> white_space(#[trigger] b[i]),
        x.len() > 0,
        !white_space(x[0]),
        !white_space(x.last()),
    ensures
        trimmed(a + x + b) == x,
{
    assert((x + b)[0] == x[0]);
    assert(a + x + b =~= a + (x + b));
    lemma_trimmed_start(a, x + b);
    lemma_trimmed_end(x, b);
}

/// `s` without the trailing characters equal to `c`.
pub open spec fn trimmed_end_of(s: Seq<char>, c: char) -> Seq<char>
    decreases s.len(),
{
    if s.len() > 0 && s.last() == c {
        trimmed_end_of(s.drop_last(), c)
    } else {
        s
    }
}

/// The index just behind the last character in `v[from..to]` that is not
/// white space, or `from`.
fn end_of_text(v: &Vec<char>, from: usize, to: usize) -> (r: usize)
    requires
        from <= to <= v@.len(),
    ensures
        from <= r <= to,
        v@.subrange(from as int, r as int) == trimmed_end(v@.subrange(from as int, to as int)),
{
    let mut end: usize = to;
    while from < end && is_white_space(v[end - 1])
        invariant
            from <= end <= to <= v@.len(),
            trimmed_end(v@.subrange(from as int, end as int)) == trimmed_end(
                v@.subrange(from as int, to as int),
            ),
        decreases end,
    {
        proof {
            assert(v@.subrange(from as int, end as int).drop_last() =~= v@.subrange(
                from as int,
                end - 1,
            ));
        }
        end = end - 1;
    }
    end
}

/// The index of the first character of `v` that is not white space.
fn start_of_text(v: &Vec<char>) -> (r: usize)
    ensures
        r <= v@.len(),
        v@.skip(r as int) == trimmed_start(v@),
{
    let mut start: usize = 0;
    assert(v@.skip(0) =~= v@);
    while start < v.len() && is_white_space(v[start])
        invariant
            start <= v@.len(),
            trimmed_start(v@.skip(start as int)) == trimmed_start(v@),
        decreases v@.len() - start,
    {
        proof {
            assert(v@.skip(start as int).skip(1) =~= v@.skip(start + 1));
        }
        start = start + 1;
    }
    start
}

/// `s` without white space on either side.
pub fn trim(s: &str) -> (r: String)
    ensures
        r@ == trimmed(s@),
{
    let v = chars_of(s);
    let start = start_of_text(&v);
    let end = end_of_text(&v, start, v.len());
    assert(v@.skip(start as int) =~= v@.subrange(start as int, v@.len() as int));
    string_of(&v, start, end)
}

/// `s` without its trailing white space.
pub fn trim_end(s: &str) -> (r: String)
    ensures
        r@ == trimmed_end(s@),
{
    let v = chars_of(s);
    let end = end_of_text(&v, 0, v.len());
    assert(v@.subrange(0, v@.len() as int) =~= v@);
    string_of(&v, 0, end)
}

/// `s` without the trailing characters equal to `c`.
pub fn trim_end_of(s: &str, c: char) -> (r: String)
    ensures
        r@ == trimmed_end_of(s@, c),
{
    let v = chars_of(s);
    let mut end: usize = v.len();
    assert(v@.take(v@.len() as int) =~= v@);
    while 0 < end && v[end - 1] == c
        invariant
            end <= v@.len(),
            trimmed_end_of(v@.take(end as int), c) == trimmed_end_of(s@, c),
        decreases end,
    {
        proof {
            assert(v@.take(end as int).drop_last() =~= v@.take(end - 1));
        }
        end = end - 1;
    }
    assert(v@.take(end as int) =~= v@.subrange(0, end as int));
    string_of(&v, 0, end)
}

/// The index of the first occurrence of `c` in `s` at or behind `from`, or
/// the length of `s`.
pub open spec fn find_from(s: Seq<char>, c: char, from: int) -> int
    decreases s.len() - from,
{
    if from < 0 || from >= s.len() {
        s.len() as int
    } else if s[from] == c {
        from
    } else {
        find_from(s, c, from + 1)
    }
}

/// What `find_from` finds: an index where `c` stands, with no `c` before it.
pub proof fn lemma_find_from(s: Seq<char>, c: char, from: int)
    requires
        0 <= from <= s.len(),
    ensures
        from <= find_from(s, c, from) <= s.len(),
        find_from(s, c, from) < s.len() ==> s[find_from(s, c, from)] == c,
        forall|i: int| from <= i < find_from(s, c, from) ==> s[i] != c,
    decreases s.len() - from,
{
    if from < s.len() && s[from] != c {
        lemma_find_from(s, c, from + 1);
    }
}

/// The index of the first `c` in `v` at or behind `from`, or `v.len()`.
pub fn find_char(v: &Vec<char>, c: char, from: usize) -> (r: usize)
    requires
        from <= v@.len(),
    ensures
        r == find_from(v@, c, from as int),
        from <= r <= v@.len(),
        r < v@.len() ==> v@[r as int] == c,
        forall|i: int| from <= i < r ==> v@[i] != c,
{
    let mut i: usize = from;
    while i < v.len() && v[i] != c
        invariant
            from <= i <= v@.len(),
            find_from(v@, c, i as int) == find_from(v@, c, from as int),
            forall|j: int| from <= j < i ==> v@[j] != c,
        decreases v@.len() - i,
    {
        i = i + 1;
    }
    i
}

/// Whether `s` starts with `prefix`.
pub open spec fn has_prefix(s: Seq<char>, prefix: Seq<char>) -> bool {
    prefix.len() <= s.len() && s.take(prefix.len() as int) == prefix
}

/// Whether `s` ends with `suffix`.
pub open spec fn has_suffix(s: Seq<char>, suffix: Seq<char>) -> bool {
    suffix.len() <= s.len() && s.skip(s.len() - suffix.len()) == suffix
}

/// Whether the characters of `p` stand in `v` from `at` on.
pub fn stands_at(v: &Vec<char>, at: usize, p: &Vec<char>) -> (r: bool)
    requires
        at <= v@.len(),
    ensures
        r == has_prefix(v@.skip(at as int), p@),
{
    let n: usize = v.len();
    if p.len() > n - at {
        return false;
    }
    let mut i: usize = 0;
    while i < p.len()
        invariant
            at <= n == v@.len(),
            p@.len() <= n - at,
            i <= p@.len(),
            forall|j: int| 0 <= j < i ==> v@[at + j] == p@[j],
        decreases p@.len() - i,
    {
        if v[at + i] != p[i] {
            assert(v@.skip(at as int).take(p@.len() as int)[i as int] != p@[i as int]);
            return false;
        }
        i = i + 1;
    }
    assert(v@.skip(at as int).take(p@.len() as int) =~= p@);
    true
}

/// Whether `s` starts with `prefix`.
pub fn starts_with(s: &str, prefix: &str) -> (r: bool)
    ensures
        r == has_prefix(s@, prefix@),
{
    let v = chars_of(s);
    let p = chars_of(prefix);
    assert(v@.skip(0) =~= v@);
    stands_at(&v, 0, &p)
}

/// Whether `s` ends with `suffix`.
pub fn ends_with(s: &str, suffix: &str) -> (r: bool)
    ensures
        r == has_suffix(s@, suffix@),
{
    let v = chars_of(s);
    let p = chars_of(suffix);
    if p.len() > v.len() {
        return false;
    }
    let at: usize = v.len() - p.len();
    assert(v@.skip(at as int).take(p@.len() as int) =~= v@.skip(at as int));
    stands_at(&v, at, &p)
}

/// The views of a sequence of strings.
pub open spec fn views(v: Seq<String>) -> Seq<Seq<char>> {
    v.map_values(|s: String| s@)
}

/// The parts, with `sep` between each two of them.
pub open spec fn joined(parts: Seq<Seq<char>>, sep: Seq<char>) -> Seq<char>
    decreases parts.len(),
{
    if parts.len() == 0 {
        Seq::empty()
    } else if parts.len() == 1 {
        parts[0]
    } else {
        joined(parts.drop_last(), sep) + sep + parts.last()
    }
}

/// Joins `parts` with `sep` between each two of them.
pub fn join(parts: &Vec<String>, sep: &str) -> (r: String)
    ensures
        r@ == joined(views(parts@), sep@),
{
    let mut out = String::new();
    let mut i: usize = 0;
    let ghost all = views(parts@);
    while i < parts.len()
        invariant
            i <= parts@.len(),
            all == views(parts@),
            out@ == joined(all.take(i as int), sep@),
        decreases parts@.len() - i,
    {
        proof {
            assert(all.take(i + 1).drop_last() =~= all.take(i as int));
            assert(all.take(i + 1).last() == parts@[i as int]@);
        }
        if i > 0 {
            out.append(sep);
        } else {
            assert(Seq::<char>::empty() + parts@[i as int]@ =~= parts@[i as int]@);
        }
        out.append(parts[i].as_str());
        i = i + 1;
    }
    assert(all.take(all.len() as int) =~= all);
    out
}

/// The decimal digit `d`.
pub open spec fn digit(d: int) -> char {
    if d == 0 {
        '0'
    } else if d == 1 {
        '1'
    } else if d == 2 {
        '2'
    } else if d == 3 {
        '3'
    } else if d == 4 {
        '4'
    } else if d == 5 {
        '5'
    } else if d == 6 {
        '6'
    } else if d == 7 {
        '7'
    } else if d == 8 {
        '8'
    } else {
        '9'
    }
}

/// `n` in decimal notation, without leading zeros.
pub open spec fn decimal(n: nat) -> Seq<char>
    decreases n,
{
    if n < 10 {
        seq![digit(n as int)]
    } else {
        decimal(n / 10).push(digit((n % 10) as int))
    }
}

/// The decimal digit `d`.
fn digit_char(d: u64) -> (r: char)
    requires
        d < 10,
    ensures
        r == digit(d as int),
{
    if d == 0 {
        '0'
    } else if d == 1 {
        '1'
    } else if d == 2 {
        '2'
    } else if d == 3 {
        '3'
    } else if d == 4 {
        '4'
    } else if d == 5 {
        '5'
    } else if d == 6 {
        '6'
    } else if d == 7 {
        '7'
    } else if d == 8 {
        '8'
    } else {
        '9'
    }
}

/// Writes `n` in decimal notation.
pub fn decimal_of(n: u64) -> (r: String)
    ensures
        r@ == decimal(n as nat),
    decreases n,
{
    let mut out = if n < 10 {
        String::new()
    } else {
        decimal_of(n / 10)
    };
    out.push(digit_char(n % 10));
    assert(Seq::<char>::empty().push(digit(n as int)) =~= seq![digit(n as int)]);
    out
}

/// `n` in decimal notation, with a minus sign where it is negative.
pub open spec fn signed_decimal(n: int) -> Seq<char> {
    if n < 0 {
        seq!['-'] + decimal((-n) as nat)
    } else {
        decimal(n as nat)
    }
}

/// Writes `n` in decimal notation, with a minus sign where it is negative.
pub fn signed_decimal_of(n: i64) -> (r: String)
    ensures
        r@ == signed_decimal(n as int),
{
    if n < 0 {
        let m: u64 = if n == i64::MIN {
            0x8000_0000_0000_0000u64
        } else {
            (-n) as u64
        };
        let mut out = String::new();
        out.push('-');
        let d = decimal_of(m);
        out.append(d.as_str());
        assert(Seq::<char>::empty().push('-') =~= seq!['-']);
        out
    } else {
        decimal_of(n as u64)
    }
}

/// Why a text is not an unsigned integer.
#[derive(Debug, Clone, Copy, PartialEq, Eq, Structural)]
pub enum IntError {
    Empty,
    InvalidDigit,
    Overflow,
}

/// What the error says in words.
pub open spec fn int_error_text(e: IntError) -> Seq<char> {
    match e {
        IntError::Empty => "cannot parse integer from empty string"@,
        IntError::InvalidDigit => "invalid digit found in string"@,
        IntError::Overflow => "number too large to fit in target type"@,
    }
}

impl IntError {
    /// What the error says in words.
    pub fn text(&self) -> (r: String)
        ensures
            r@ == int_error_text(*self),
    {
        match self {
            IntError::Empty => "cannot parse integer from empty string".to_owned(),
            IntError::InvalidDigit => "invalid digit found in string".to_owned(),
            IntError::Overflow => "number too large to fit in target type".to_owned(),
        }
    }
}

/// The value of a decimal digit.
pub open spec fn digit_value(c: char) -> int {
    c as int - '0' as int
}

/// Whether `c` is a decimal digit.
pub open spec fn is_digit(c: char) -> bool {
    '0' <= c <= '9'
}

/// The number that the digits of `s` write, read from the left and at most
/// `max`; the first character that stops the reading decides the error.
pub open spec fn digits_value(s: Seq<char>, max: int) -> Result<int, IntError>
    decreases s.len(),
{
    if s.len() == 0 {
        Ok(0)
    } else {
        match digits_value(s.drop_last(), max) {
            Err(e) => Err(e),
            Ok(v) => if !is_digit(s.last()) {
                Err(IntError::InvalidDigit)
            } else if v * 10 + digit_value(s.last()) > max {
                Err(IntError::Overflow)
            } else {
                Ok(v * 10 + digit_value(s.last()))
            },
        }
    }
}

/// The unsigned integer that `s` writes: decimal digits, with a plus sign in
/// front where there is one, and no more than `max`.
pub open spec fn unsigned_value(s: Seq<char>, max: int) -> Result<int, IntError> {
    if s.len() == 0 {
        Err(IntError::Empty)
    } else if s.len() > 1 && s[0] == '+' {
        digits_value(s.skip(1), max)
    } else {
        digits_value(s, max)
    }
}

/// An error of the reading of a prefix is the error of the whole.
proof fn lemma_digits_error(s: Seq<char>, i: int, max: int)
    requires
        0 <= i <= s.len(),
        digits_value(s.take(i), max) is Err,
    ensures
        digits_value(s, max) == digits_value(s.take(i), max),
    decreases s.len() - i,
{
    if i < s.len() {
        assert(s.take(i + 1).drop_last() =~= s.take(i));
        lemma_digits_error(s, i + 1, max);
    } else {
        assert(s.take(i) =~= s);
    }
}

/// Reads an unsigned integer of at most `max`.
pub fn parse_unsigned(s: &str, max: u64) -> (r: Result<u64, IntError>)
    ensures
        match r {
            Ok(n) => n <= max && unsigned_value(s@, max as int) == Ok::<int, IntError>(n as int),
            Err(e) => unsigned_value(s@, max as int) == Err::<int, IntError>(e),
        },
{
    let v = chars_of(s);
    if v.len() == 0 {
        return Err(IntError::Empty);
    }
    let from: usize = if v.len() > 1 && v[0] == '+' {
        1
    } else {
        0
    };
    let ghost d = v@.skip(from as int);
    proof {
        assert(v@.skip(0) =~= v@);
        assert(d.take(0) =~= Seq::<char>::empty());
    }
    let mut n: u64 = 0;
    let mut i: usize = from;
    while i < v.len()
        invariant
            from <= i <= v@.len(),
            d == v@.skip(from as int),
            n <= max,
            digits_value(d.take(i - from), max as int) == Ok::<int, IntError>(n as int),
            unsigned_value(s@, max as int) == digits_value(d, max as int),
        decreases v@.len() - i,
    {
        let c = v[i];
        proof {
            assert(d.take(i - from + 1).drop_last() =~= d.take(i - from));
            assert(d.take(i - from + 1).last() == c);
        }
        if !('0' <= c && c <= '9') {
            proof {
                lemma_digits_error(d, i - from + 1, max as int);
            }
            return Err(IntError::InvalidDigit);
        }
        let x: u64 = c as u64 - '0' as u64;
        if n > max / 10 || x > max || n * 10 > max - x {
            proof {
                lemma_digits_error(d, i - from + 1, max as int);
            }
            return Err(IntError::Overflow);
        }
        n = n * 10 + x;
        i = i + 1;
    }
    assert(d.take(d.len() as int) =~= d);
    Ok(n)
}

/// Whether `p` stands in `s` at `at`.
pub open spec fn occurs_at(s: Seq<char>, p: Seq<char>, at: int) -> bool {
    0 <= at && at + p.len() <= s.len() && s.subrange(at, at + p.len()) == p
}

/// The index of the first occurrence of `p` in `s` at or behind `from`.
pub open spec fn find_sub(s: Seq<char>, p: Seq<char>, from: int) -> Option<int>
    decreases s.len() + 1 - from,
{
    if from < 0 || from + p.len() > s.len() {
        None
    } else if occurs_at(s, p, from) {
        Some(from)
    } else {
        find_sub(s, p, from + 1)
    }
}

/// What `find_sub` finds: an occurrence, with none before it.
pub proof fn lemma_find_sub(s: Seq<char>, p: Seq<char>, from: int)
    requires
        0 <= from,
    ensures
        match find_sub(s, p, from) {
            Some(i) => from <= i && occurs_at(s, p, i) && forall|j: int|
                from <= j < i ==> !occurs_at(s, p, j),
            None => forall|j: int| from <= j ==> !occurs_at(s, p, j),
        },
    decreases s.len() + 1 - from,
{
    if from + p.len() <= s.len() && !occurs_at(s, p, from) {
        lemma_find_sub(s, p, from + 1);
    }
}

/// The index of the first occurrence of `p` in `v` at or behind `from`.
pub fn find_str(v: &Vec<char>, p: &Vec<char>, from: usize) -> (r: Option<usize>)
    requires
        from <= v@.len(),
    ensures
        match r {
            Some(i) => find_sub(v@, p@, from as int) == Some(i as int) && from <= i && i
                + p@.len() <= v@.len(),
            None => find_sub(v@, p@, from as int) is None,
        },
{
    let n: usize = v.len();
    let mut i: usize = from;
    while p.len() <= n - i
        invariant
            from <= i <= n == v@.len(),
            find_sub(v@, p@, i as int) == find_sub(v@, p@, from as int),
        decreases n - i,
    {
        let here = stands_at(v, i, p);
        proof {
            assert(v@.skip(i as int).take(p@.len() as int) =~= v@.subrange(
                i as int,
                i + p@.len(),
            ));
            assert(here == occurs_at(v@, p@, i as int));
        }
        if here {
            return Some(i);
        }
        proof {
            if i == n {
                assert(v@.subrange(i as int, i + p@.len()) =~= p@);
            }
        }
        i = i + 1;
    }
    None
}

/// Whether `p` occurs in `s`.
pub open spec fn contains(s: Seq<char>, p: Seq<char>) -> bool {
    find_sub(s, p, 0) is Some
}

/// Whether `p` occurs in `s`.
pub fn contains_str(s: &str, p: &str) -> (r: bool)
    ensures
        r == contains(s@, p@),
{
    find_str(&chars_of(s), &chars_of(p), 0).is_some()
}

/// `s` with `to` in place of every occurrence of `from`, read from the left.
pub open spec fn replaced(s: Seq<char>, from: Seq<char>, to: Seq<char>) -> Seq<char>
    decreases s.len(),
    via replaced_shrinks
{
    match find_sub(s, from, 0) {
        Some(i) => if from.len() > 0 {
            s.take(i) + to + replaced(s.skip(i + from.len()), from, to)
        } else {
            s
        },
        None => s,
    }
}

#[via_fn]
proof fn replaced_shrinks(s: Seq<char>, from: Seq<char>, to: Seq<char>) {
    lemma_find_sub(s, from, 0);
}

/// Puts `to` in place of every occurrence of `from`, which is not empty.
pub fn replace(s: &str, from: &str, to: &str) -> (r: String)
    ensures
        r@ == replaced(s@, from@, to@),
    decreases s@.len(),
{
    let v = chars_of(s);
    let p = chars_of(from);
    let n: usize = v.len();
    match find_str(&v, &p, 0) {
        None => s.to_owned(),
        Some(i) => {
            if p.len() == 0 {
                return s.to_owned();
            }
            let mut out = string_of(&v, 0, i);
            let rest = string_of(&v, i + p.len(), n);
            assert(v@.subrange(0, i as int) =~= v@.take(i as int));
            assert(v@.subrange(i + p@.len(), n as int) =~= v@.skip(i + p@.len()));
            out.append(to);
            out.append(replace(rest.as_str(), from, to).as_str());
            out
        },
    }
}

/// The length of a text in bytes, as UTF-8.
pub open spec fn byte_len(s: Seq<char>) -> usize {
    vstd::utf8::encode_utf8(s).len() as usize
}

/// Two texts are encoded one behind the other.
pub proof fn lemma_encode_add(a: Seq<char>, b: Seq<char>)
    ensures
        vstd::utf8::encode_utf8(a + b) == vstd::utf8::encode_utf8(a) + vstd::utf8::encode_utf8(b),
    decreases a.len(),
{
    if a.len() == 0 {
        assert(a + b =~= b);
        assert(vstd::utf8::encode_utf8(a) + vstd::utf8::encode_utf8(b)
            =~= vstd::utf8::encode_utf8(b));
    } else {
        assert((a + b).drop_first() =~= a.drop_first() + b);
        assert((a + b)[0] == a[0]);
        lemma_encode_add(a.drop_first(), b);
        assert(vstd::utf8::encode_utf8(a + b) =~= vstd::utf8::encode_utf8(a)
            + vstd::utf8::encode_utf8(b));
    }
}

/// The lines of a text, each with its line feed; the last may lack one.
pub open spec fn lines_of(s: Seq<char>) -> Seq<Seq<char>>
    decreases s.len(),
    via lines_of_shrinks
{
    if s.len() == 0 {
        Seq::empty()
    } else {
        let end = find_from(s, '\n', 0);
        if end >= s.len() {
            seq![s]
        } else {
            seq![s.take(end + 1)] + lines_of(s.skip(end + 1))
        }
    }
}

#[via_fn]
proof fn lines_of_shrinks(s: Seq<char>) {
    lemma_find_from(s, '\n', 0);
}

/// Splits a text into its lines, each with its line feed.
pub fn split_lines(s: &str) -> (r: Vec<String>)
    ensures
        views(r@) == lines_of(s@),
{
    let v = chars_of(s);
    let mut out: Vec<String> = Vec::new();
    let mut from: usize = 0;
    proof {
        assert(v@.skip(0) =~= v@);
        assert(views(out@) + lines_of(v@) =~= lines_of(v@));
    }
    while from < v.len()
        invariant
            from <= v@.len(),
            views(out@) + lines_of(v@.skip(from as int)) == lines_of(v@),
        decreases v@.len() - from,
    {
        let end = find_char(&v, '\n', from);
        let ghost rest = v@.skip(from as int);
        proof {
            lemma_find_shifted(v@, '\n', from as int, from as int);
            lemma_find_from(rest, '\n', 0);
        }
        let to: usize = if end < v.len() {
            end + 1
        } else {
            end
        };
        let line = string_of(&v, from, to);
        let ghost before = views(out@);
        out.push(line);
        proof {
            assert(views(out@) =~= before.push(line@));
            if end < v@.len() {
                assert(rest.take(end - from + 1) =~= v@.subrange(from as int, to as int));
                assert(rest.skip(end - from + 1) =~= v@.skip(to as int));
                assert(before.push(line@) + lines_of(v@.skip(to as int)) =~= before + (seq![line@]
                    + lines_of(v@.skip(to as int))));
            } else {
                assert(rest =~= v@.subrange(from as int, to as int));
                assert(v@.skip(to as int) =~= Seq::empty());
                assert(before.push(line@) + Seq::<Seq<char>>::empty() =~= before + seq![line@]);
            }
        }
        from = to;
    }
    proof {
        assert(v@.skip(from as int) =~= Seq::empty());
        assert(views(out@) + Seq::<Seq<char>>::empty() =~= views(out@));
    }
    out
}

/// Whether a piece of text is one line: a line feed ends it, or stands
/// nowhere in it.
pub open spec fn one_line(s: Seq<char>) -> bool {
    s.len() > 0 && forall|i: int| 0 <= i < s.len() - 1 ==> #[trigger] s[i] != '\n'
}

/// Whether pieces of text are lines: each is one line, and only the last may
/// lack its line feed.
pub open spec fn are_lines(lines: Seq<Seq<char>>) -> bool {
    forall|i: int|
        0 <= i < lines.len() ==> one_line(#[trigger] lines[i]) && (i < lines.len() - 1 ==> lines[i].last()
            == '\n')
}

/// The pieces, one behind the other.
pub open spec fn concatenated(parts: Seq<Seq<char>>) -> Seq<char>
    decreases parts.len(),
{
    if parts.len() == 0 {
        Seq::empty()
    } else {
        concatenated(parts.drop_last()) + parts.last()
    }
}

/// One piece followed by others.
pub proof fn lemma_concatenated_first(first: Seq<char>, rest: Seq<Seq<char>>)
    ensures
        concatenated(seq![first] + rest) == first + concatenated(rest),
    decreases rest.len(),
{
    let all = seq![first] + rest;
    if rest.len() == 0 {
        assert(all.drop_last() =~= Seq::empty());
        assert(all.last() == first);
        assert(concatenated(Seq::<Seq<char>>::empty()) =~= Seq::empty());
        assert(concatenated(rest) =~= Seq::empty());
        assert(concatenated(all) =~= first + concatenated(rest));
    } else {
        assert(all.drop_last() =~= seq![first] + rest.drop_last());
        lemma_concatenated_first(first, rest.drop_last());
        assert(concatenated(all) =~= first + concatenated(rest));
    }
}

/// The lines of a text are lines, and make up the text.
pub proof fn lemma_lines_of(s: Seq<char>)
    ensures
        are_lines(lines_of(s)),
        concatenated(lines_of(s)) == s,
    decreases s.len(),
{
    lemma_find_from(s, '\n', 0);
    if s.len() > 0 {
        let end = find_from(s, '\n', 0);
        if end >= s.len() {
            assert(seq![s] =~= seq![s] + Seq::<Seq<char>>::empty());
            lemma_concatenated_first(s, Seq::empty());
            assert(concatenated(lines_of(s)) =~= s);
        } else {
            let rest = s.skip(end + 1);
            lemma_lines_of(rest);
            lemma_concatenated_first(s.take(end + 1), lines_of(rest));
            assert(s.take(end + 1) + rest =~= s);
            let all = lines_of(s);
            assert forall|i: int| 0 <= i < all.len() implies one_line(#[trigger] all[i]) && (i
                < all.len() - 1 ==> all[i].last() == '\n') by {
                if i > 0 {
                    assert(all[i] == lines_of(rest)[i - 1]);
                }
            }
        }
    }
}

/// Where the first line feed of a text that starts with one line is.
proof fn lemma_find_in_line(line: Seq<char>, rest: Seq<char>, from: int)
    requires
        one_line(line),
        line.last() == '\n',
        0 <= from < line.len(),
    ensures
        find_from(line + rest, '\n', from) == line.len() - 1,
    decreases line.len() - from,
{
    assert((line + rest)[from] == line[from]);
    if from < line.len() - 1 {
        lemma_find_in_line(line, rest, from + 1);
    }
}

/// Lines put together are split again into the same lines.
pub proof fn lemma_lines_of_concatenated(lines: Seq<Seq<char>>)
    requires
        are_lines(lines),
    ensures
        lines_of(concatenated(lines)) == lines,
    decreases lines.len(),
{
    if lines.len() == 0 {
    } else {
        let first = lines[0];
        let rest = lines.skip(1);
        assert(lines =~= seq![first] + rest);
        lemma_concatenated_first(first, rest);
        let s = concatenated(lines);
        assert(one_line(first));
        if first.last() == '\n' {
            lemma_find_in_line(first, concatenated(rest), 0);
            assert(s.take(first.len() as int) =~= first);
            assert(s.skip(first.len() as int) =~= concatenated(rest));
            assert forall|i: int| 0 <= i < rest.len() implies one_line(#[trigger] rest[i]) && (i
                < rest.len() - 1 ==> rest[i].last() == '\n') by {
                assert(rest[i] == lines[i + 1]);
            }
            lemma_lines_of_concatenated(rest);
        } else {
            assert(lines.len() == 1);
            assert(rest =~= Seq::empty());
            assert(s =~= first);
            lemma_find_from(s, '\n', 0);
            assert(find_from(s, '\n', 0) >= s.len());
            assert(lines =~= seq![s]);
        }
    }
}

/// The lines of two texts, the first of which ends with a whole line.
pub proof fn lemma_lines_of_add(a: Seq<char>, b: Seq<char>)
    requires
        a.len() > 0,
        a.last() == '\n',
    ensures
        lines_of(a + b) == lines_of(a) + lines_of(b),
{
    lemma_lines_of(a);
    lemma_lines_of(b);
    let la = lines_of(a);
    let lb = lines_of(b);
    assert(la.len() > 0);
    assert(la.last().last() == a.last()) by {
        assert(one_line(la[la.len() - 1]));
        assert(concatenated(la) == concatenated(la.drop_last()) + la.last());
    }
    let all = la + lb;
    assert forall|i: int| 0 <= i < all.len() implies one_line(#[trigger] all[i]) && (i < all.len() - 1
        ==> all[i].last() == '\n') by {
        if i < la.len() {
            assert(all[i] == la[i]);
        } else {
            assert(all[i] == lb[i - la.len()]);
        }
    }
    lemma_concatenated_add(la, lb);
    lemma_lines_of_concatenated(all);
}

/// Two lists of pieces, one behind the other.
pub proof fn lemma_concatenated_add(a: Seq<Seq<char>>, b: Seq<Seq<char>>)
    ensures
        concatenated(a + b) == concatenated(a) + concatenated(b),
    decreases b.len(),
{
    if b.len() == 0 {
        assert(a + b =~= a);
        assert(concatenated(a) + concatenated(b) =~= concatenated(a));
    } else {
        assert((a + b).drop_last() =~= a + b.drop_last());
        assert((a + b).last() == b.last());
        lemma_concatenated_add(a, b.drop_last());
        assert(concatenated(a + b) =~= concatenated(a) + concatenated(b));
    }
}

/// Where a character is found does not depend on what was cut off before.
proof fn lemma_find_shifted(s: Seq<char>, c: char, cut: int, from: int)
    requires
        0 <= cut <= from <= s.len(),
    ensures
        find_from(s.skip(cut), c, from - cut) == find_from(s, c, from) - cut,
    decreases s.len() - from,
{
    if from < s.len() {
        assert(s.skip(cut)[from - cut] == s[from]);
        if s[from] != c {
            lemma_find_shifted(s, c, cut, from + 1);
        }
    }
}

/// What `String::from_utf8_lossy` makes of bytes: the text that they encode,
/// with a replacement character wherever they encode none.
pub uninterp spec fn lossy_text(bytes: Seq<u8>) -> Seq<char>;

/// `String::from_utf8_lossy` decodes valid UTF-8 as it is, and puts
/// replacement characters where the bytes are not valid.
#[verifier::external_body]
pub(crate) fn lossy(bytes: &[u8]) -> (r: String)
    ensures
        r@ == lossy_text(bytes@),
        vstd::utf8::valid_utf8(bytes@) ==> r@ == vstd::utf8::decode_utf8(bytes@),
{
    String::from_utf8_lossy(bytes).into_owned()
}

/// The last `n` characters of a text.
pub open spec fn last_chars(s: Seq<char>, n: int) -> Seq<char> {
    if s.len() > n {
        s.skip(s.len() - n)
    } else {
        s
    }
}

/// The last `n` characters of a text.
pub fn tail_of(s: &str, n: usize) -> (r: String)
    ensures
        r@ == last_chars(s@, n as int),
{
    let v = chars_of(s);
    if v.len() > n {
        assert(v@.subrange(v@.len() - n, v@.len() as int) =~= v@.skip(v@.len() - n));
        string_of(&v, v.len() - n, v.len())
    } else {
        s.to_owned()
    }
}

/// The pieces of a text between the occurrences of `c`: always at least one.
pub open spec fn split_at(s: Seq<char>, c: char) -> Seq<Seq<char>>
    decreases s.len(),
    via split_at_shrinks
{
    let end = find_from(s, c, 0);
    if end >= s.len() {
        seq![s]
    } else {
        seq![s.take(end)] + split_at(s.skip(end + 1), c)
    }
}

#[via_fn]
proof fn split_at_shrinks(s: Seq<char>, c: char) {
    lemma_find_from(s, c, 0);
}

/// Splits a text at every `c`.
pub fn split(s: &str, c: char) -> (r: Vec<String>)
    ensures
        views(r@) == split_at(s@, c),
{
    let v = chars_of(s);
    let mut out: Vec<String> = Vec::new();
    let mut from: usize = 0;
    proof {
        assert(v@.skip(0) =~= v@);
        assert(views(out@) + split_at(v@, c) =~= split_at(v@, c));
    }
    loop
        invariant
            from <= v@.len(),
            v@ == s@,
            views(out@) + split_at(v@.skip(from as int), c) == split_at(v@, c),
        decreases v@.len() - from,
    {
        let end = find_char(&v, c, from);
        let ghost rest = v@.skip(from as int);
        proof {
            lemma_find_shifted(v@, c, from as int, from as int);
            lemma_find_from(rest, c, 0);
        }
        let piece = string_of(&v, from, end);
        let ghost before = views(out@);
        out.push(piece);
        assert(views(out@) =~= before.push(piece@));
        if end == v.len() {
            proof {
                assert(rest =~= v@.subrange(from as int, end as int));
                assert(before.push(piece@) =~= before + seq![piece@]);
            }
            return out;
        }
        proof {
            assert(rest.take(end - from) =~= v@.subrange(from as int, end as int));
            assert(rest.skip(end - from + 1) =~= v@.skip(end + 1));
            assert(before.push(piece@) + split_at(v@.skip(end + 1), c) =~= before + (seq![piece@]
                + split_at(v@.skip(end + 1), c)));
        }
        from = end + 1;
    }
}

/// A line feed behind a text that lacks one stands behind its last line.
pub proof fn lemma_line_feed_behind(s: Seq<char>)
    requires
        s.len() > 0,
        s.last() != '\n',
    ensures
        lines_of(s).len() > 0,
        lines_of(s.push('\n')) == lines_of(s).drop_last().push(lines_of(s).last().push('\n')),
{
    lemma_lines_of(s);
    let lines = lines_of(s);
    assert(lines.len() > 0);
    let n = lines.len() - 1;
    let last = lines.last();
    assert(one_line(lines[n]));
    assert(concatenated(lines) == concatenated(lines.drop_last()) + last);
    assert(last.last() == s.last());
    let now = lines.drop_last().push(last.push('\n'));
    assert(now.drop_last() =~= lines.drop_last());
    assert(concatenated(now) =~= s.push('\n'));
    assert forall|i: int| 0 <= i < now.len() implies one_line(#[trigger] now[i]) && (i < now.len() - 1
        ==> now[i].last() == '\n') by {
        if i < n {
            assert(now[i] == lines[i]);
        } else {
            let line = now[i];
            assert forall|k: int| 0 <= k < line.len() - 1 implies #[trigger] line[k] != '\n' by {
                assert(line[k] == last[k]);
            }
        }
    }
    lemma_lines_of_concatenated(now);
}

proof fn lemma_trimmed_start_push(s: Seq<char>, c: char)
    requires
        white_space(c),
    ensures
        trimmed_start(s.push(c)) == if trimmed_start(s).len() > 0 {
            trimmed_start(s).push(c)
        } else {
            Seq::empty()
        },
    decreases s.len(),
{
    if s.len() == 0 {
        assert(s.push(c).skip(1) =~= Seq::empty());
        assert(trimmed_start(s.push(c).skip(1)) =~= Seq::empty());
    } else if white_space(s[0]) {
        assert(s.push(c)[0] == s[0]);
        assert(s.push(c).skip(1) =~= s.skip(1).push(c));
        lemma_trimmed_start_push(s.skip(1), c);
    } else {
        assert(s.push(c)[0] == s[0]);
    }
}

/// A line feed behind a text does not matter once it is trimmed.
pub proof fn lemma_trimmed_line_feed(s: Seq<char>)
    ensures
        trimmed(s.push('\n')) == trimmed(s),
{
    lemma_trimmed_start_push(s, '\n');
    let x = trimmed_start(s);
    if x.len() > 0 {
        assert(x.push('\n').drop_last() =~= x);
    } else {
        assert(x =~= Seq::empty());
    }
}

/// Two texts, one behind the other.
pub fn cat(a: &str, b: &str) -> (r: String)
    ensures
        r@ == a@ + b@,
{
    let mut out = a.to_owned();
    out.append(b);
    out
}

/// Three texts, one behind the other.
pub fn cat3(a: &str, b: &str, c: &str) -> (r: String)
    ensures
        r@ == a@ + b@ + c@,
{
    let mut out = cat(a, b);
    out.append(c);
    out
}

/// Whether a text comes before another one in lexicographic order.
pub open spec fn text_before(a: Seq<char>, b: Seq<char>) -> bool
    decreases a.len(),
{
    if b.len() == 0 {
        false
    } else if a.len() == 0 {
        true
    } else {
        a[0] < b[0] || (a[0] == b[0] && text_before(a.skip(1), b.skip(1)))
    }
}

/// Whether a text comes before another one in lexicographic order.
pub fn comes_before(a: &str, b: &str) -> (r: bool)
    ensures
        r == text_before(a@, b@),
{
    let x = chars_of(a);
    let y = chars_of(b);
    let mut i: usize = 0;
    assert(x@.skip(0) =~= x@);
    assert(y@.skip(0) =~= y@);
    while i < x.len() && i < y.len() && x[i] == y[i]
        invariant
            i <= x@.len(),
            i <= y@.len(),
            text_before(x@.skip(i as int), y@.skip(i as int)) == text_before(a@, b@),
        decreases x@.len() - i,
    {
        proof {
            assert(x@.skip(i as int).skip(1) =~= x@.skip(i + 1));
            assert(y@.skip(i as int).skip(1) =~= y@.skip(i + 1));
        }
        i = i + 1;
    }
    if i == y.len() {
        false
    } else if i == x.len() {
        true
    } else {
        x[i] < y[i]
    }
}

/// One of two texts comes before the other, unless they are the same.
pub proof fn lemma_text_order(a: Seq<char>, b: Seq<char>)
    ensures
        a == b || text_before(a, b) || text_before(b, a),
        !(text_before(a, b) && text_before(b, a)),
        text_before(a, b) ==> a != b,
    decreases a.len(),
{
    if a.len() > 0 && b.len() > 0 {
        lemma_text_order(a.skip(1), b.skip(1));
        if a[0] == b[0] && a.skip(1) == b.skip(1) {
            assert(a =~= seq![a[0]] + a.skip(1));
            assert(b =~= seq![b[0]] + b.skip(1));
        }
    } else if a.len() == 0 && b.len() == 0 {
        assert(a =~= b);
    }
}

/// What comes before something that comes before a text comes before it.
pub proof fn lemma_text_order_transitive(a: Seq<char>, b: Seq<char>, c: Seq<char>)
    requires
        text_before(a, b),
        text_before(b, c),
    ensures
        text_before(a, c),
    decreases a.len(),
{
    if a.len() > 0 && a[0] == b[0] && b[0] == c[0] {
        lemma_text_order_transitive(a.skip(1), b.skip(1), c.skip(1));
    }
}

/// Whether texts are in lexicographic order, each once.
pub open spec fn ordered(v: Seq<Seq<char>>) -> bool {
    forall|i: int, j: int|
        0 <= i < j < v.len() ==> text_before(#[trigger] v[i], #[trigger] v[j])
}

/// Puts a text in its place among ordered ones, unless it is there already.
pub fn insert_ordered(v: &mut Vec<String>, s: &str)
    requires
        ordered(views(old(v)@)),
    ensures
        ordered(views(final(v)@)),
        forall|t: Seq<char>|
            #[trigger] views(final(v)@).contains(t) <==> views(old(v)@).contains(t) || t == s@,
{
    let ghost before = views(v@);
    let mut i: usize = 0;
    while i < v.len() && comes_before(v[i].as_str(), s)
        invariant
            i <= v@.len(),
            before == views(v@),
            forall|k: int| 0 <= k < i ==> text_before(#[trigger] before[k], s@),
        decreases v@.len() - i,
    {
        assert(before[i as int] == v@[i as int]@);
        i = i + 1;
    }
    if i < v.len() {
        assert(before[i as int] == v@[i as int]@);
        if same(v[i].as_str(), s) {
            assert(before[i as int] == s@);
            return ;
        }
    }
    v.insert(i, s.to_owned());
    let ghost after = views(v@);
    proof {
        assert(after =~= before.insert(i as int, s@));
        if i < before.len() {
            lemma_text_order(before[i as int], s@);
        }
        assert forall|a: int, b: int| 0 <= a < b < after.len() implies text_before(
            #[trigger] after[a],
            #[trigger] after[b],
        ) by {
            if a < i && b > i {
                assert(after[a] == before[a] && after[b] == before[b - 1]);
            } else if a < i && b < i {
                assert(after[a] == before[a] && after[b] == before[b]);
            } else if a > i {
                assert(after[a] == before[a - 1] && after[b] == before[b - 1]);
            } else if a == i {
                assert(after[b] == before[b - 1]);
                if b - 1 > i {
                    assert(text_before(before[i as int], before[b - 1]));
                    lemma_text_order_transitive(s@, before[i as int], before[b - 1]);
                }
            }
        }
        assert forall|t: Seq<char>| #[trigger] after.contains(t) <==> before.contains(t) || t
            == s@ by {
            if before.contains(t) {
                let k = choose|k: int| 0 <= k < before.len() && before[k] == t;
                if k < i {
                    assert(after[k] == t);
                } else {
                    assert(after[k + 1] == t);
                }
            }
            if t == s@ {
                assert(after[i as int] == t);
            }
            if after.contains(t) {
                let k = choose|k: int| 0 <= k < after.len() && after[k] == t;
                if k < i {
                    assert(before[k] == t);
                } else if k > i {
                    assert(before[k - 1] == t);
                }
            }
        }
    }
}

/// How `{:?}` writes a string: between quotes, with escapes.
pub uninterp spec fn debug_text(s: Seq<char>) -> Seq<char>;

/// `str`'s `Debug` writes the string between quotes and escapes what is not
/// printable.
#[verifier::external_body]
pub(crate) fn debug_of(s: &str) -> (r: String)
    ensures
        r@ == debug_text(s@),
{
    format!("{:?}", s)
}

/// How `{:?}` writes a list of strings.
pub open spec fn debug_list_text(v: Seq<Seq<char>>) -> Seq<char> {
    "["@ + joined(v.map_values(|s: Seq<char>| debug_text(s)), ", "@) + "]"@
}

/// Writes a list of strings as `{:?}` does.
pub fn debug_list_of(v: &Vec<String>) -> (r: String)
    ensures
        r@ == debug_list_text(views(v@)),
{
    let mut parts: Vec<String> = Vec::new();
    let mut i: usize = 0;
    while i < v.len()
        invariant
            i <= v@.len(),
            parts@.len() == i,
            forall|k: int| 0 <= k < i ==> (#[trigger] parts@[k])@ == debug_text(v@[k]@),
        decreases v@.len() - i,
    {
        parts.push(debug_of(v[i].as_str()));
        i = i + 1;
    }
    assert(views(parts@) =~= views(v@).map_values(|s: Seq<char>| debug_text(s)));
    let mut out = "[".to_owned();
    out.append(join(&parts, ", ").as_str());
    out.append("]");
    out
}

/// Whether two lists hold the same texts.
pub fn same_list(a: &Vec<String>, b: &Vec<String>) -> (r: bool)
    ensures
        r == (views(a@) == views(b@)),
{
    if a.len() != b.len() {
        assert(views(a@).len() != views(b@).len());
        return false;
    }
    let mut i: usize = 0;
    while i < a.len()
        invariant
            i <= a@.len() == b@.len(),
            forall|k: int| 0 <= k < i ==> (#[trigger] a@[k])@ == b@[k]@,
        decreases a@.len() - i,
    {
        if !same(a[i].as_str(), b[i].as_str()) {
            assert(views(a@)[i as int] != views(b@)[i as int]);
            return false;
        }
        i = i + 1;
    }
    assert(views(a@) =~= views(b@));
    true
}

/// Whether a list holds that text.
pub fn list_contains(v: &Vec<String>, s: &str) -> (r: bool)
    ensures
        r == views(v@).contains(s@),
{
    let mut i: usize = 0;
    while i < v.len()
        invariant
            i <= v@.len(),
            forall|k: int| 0 <= k < i ==> (#[trigger] views(v@)[k]) != s@,
        decreases v@.len() - i,
    {
        if same(v[i].as_str(), s) {
            assert(views(v@)[i as int] == s@);
            return true;
        }
        i = i + 1;
    }
    false
}

} // verus!
