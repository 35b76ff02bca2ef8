//! The seal of a plan file.
//!
//! One line of the file holds the SHA-256 of all the others. The file is
//! approved as long as that hash fits.
use vstd::prelude::*;
use vstd::string::*;
use vstd::utf8::*;

use super::{PlanError, PlanErrorModel};
use crate::json::hex_digit;
use crate::model::{first_some, lemma_first_at, lemma_first_found, lemma_first_none};
use crate::text::{
    chars_of, concatenated, ends_with, has_prefix, has_suffix, lemma_lines_of,
    lemma_lines_of_concatenated, lemma_trimmed, lines_of, one_line, same, split_lines, starts_with,
    string_of, trim, trimmed, utf8_text, views,
};

verus! {

/// What a seal line starts with.
pub const SEAL_PREFIX: &'static str = "<!-- ATTINI-CONFIRMATIONS-SHA256:";

/// What a seal line ends with.
pub const SEAL_SUFFIX: &'static str = "-->";

/// The digest that SHA-256 gives for those bytes.
pub uninterp spec fn sha256_digest(bytes: Seq<u8>) -> Seq<u8>;

/// `sha2::Sha256::digest` computes the SHA-256 digest, which is 32 bytes long.
#[verifier::external_body]
fn sha256(bytes: &[u8]) -> (r: Vec<u8>)
    ensures
        r@ == sha256_digest(bytes@),
        r@.len() == 32,
{
    <sha2::Sha256 as sha2::Digest>::digest(bytes).to_vec()
}

/// Bytes in hexadecimal notation, two lower-case digits each.
pub open spec fn hex_text(bytes: Seq<u8>) -> Seq<char>
    decreases bytes.len(),
{
    if bytes.len() == 0 {
        Seq::empty()
    } else {
        hex_text(bytes.drop_last()) + seq![
            hex_digit(bytes.last() as int / 16),
            hex_digit(bytes.last() as int % 16),
        ]
    }
}

/// The hexadecimal digit `d`, in lower case.
pub(super) fn hex_char(d: u8) -> (r: char)
    requires
        d < 16,
    ensures
        r == hex_digit(d as int),
{
    if d == 0 {
        '0'
    } else if d == 1 {
        '1'
    } else if d == 2 {
        '2'
    } else if d == 3 {
        '3'
    } else if d == 4 {
        '4'
    } else if d == 5 {
        '5'
    } else if d == 6 {
        '6'
    } else if d == 7 {
        '7'
    } else if d == 8 {
        '8'
    } else if d == 9 {
        '9'
    } else if d == 10 {
        'a'
    } else if d == 11 {
        'b'
    } else if d == 12 {
        'c'
    } else if d == 13 {
        'd'
    } else if d == 14 {
        'e'
    } else {
        'f'
    }
}

/// Writes bytes in hexadecimal notation.
pub fn hex(bytes: &Vec<u8>) -> (r: String)
    ensures
        r@ == hex_text(bytes@),
{
    let mut out = String::new();
    let mut i: usize = 0;
    while i < bytes.len()
        invariant
            i <= bytes@.len(),
            out@ == hex_text(bytes@.take(i as int)),
        decreases bytes@.len() - i,
    {
        let b = bytes[i];
        let ghost before = out@;
        proof {
            assert(bytes@.take(i + 1).drop_last() =~= bytes@.take(i as int));
            assert(bytes@.take(i + 1).last() == b);
        }
        out.push(hex_char(b / 16));
        out.push(hex_char(b % 16));
        proof {
            assert(out@ =~= before + seq![hex_digit(b as int / 16), hex_digit(b as int % 16)]);
        }
        i = i + 1;
    }
    assert(bytes@.take(bytes@.len() as int) =~= bytes@);
    out
}

/// Whether a character is a hexadecimal digit, in either case.
pub open spec fn is_hex(c: char) -> bool {
    ('0' <= c <= '9') || ('a' <= c <= 'f') || ('A' <= c <= 'F')
}

/// Hexadecimal notation is made of two lower-case digits for each byte.
proof fn lemma_hex_text(bytes: Seq<u8>)
    ensures
        hex_text(bytes).len() == 2 * bytes.len(),
        forall|i: int|
            0 <= i < hex_text(bytes).len() ==> is_hex(#[trigger] hex_text(bytes)[i]) && lower(
                hex_text(bytes)[i],
            ) == hex_text(bytes)[i],
    decreases bytes.len(),
{
    if bytes.len() > 0 {
        lemma_hex_text(bytes.drop_last());
    }
}

/// Whether a line is a seal line.
pub open spec fn is_seal(line: Seq<char>) -> bool {
    has_prefix(line, SEAL_PREFIX@)
}

/// The lines that are no seal lines, one behind the other.
pub open spec fn kept(lines: Seq<Seq<char>>) -> Seq<char>
    decreases lines.len(),
{
    if lines.len() == 0 {
        Seq::empty()
    } else if is_seal(lines.last()) {
        kept(lines.drop_last())
    } else {
        kept(lines.drop_last()) + lines.last()
    }
}

/// A text without its seal lines.
pub open spec fn without_seal(text: Seq<char>) -> Seq<char> {
    kept(lines_of(text))
}

/// The seal that fits a text.
pub open spec fn seal_of(text: Seq<char>) -> Seq<char> {
    hex_text(sha256_digest(encode_utf8(without_seal(text))))
}

/// Leaves the seal lines of a text out.
fn remove_seal_line(text: &str) -> (r: String)
    ensures
        r@ == without_seal(text@),
{
    let lines = split_lines(text);
    let ghost all = views(lines@);
    let mut out = String::new();
    let mut i: usize = 0;
    while i < lines.len()
        invariant
            i <= lines@.len(),
            all == views(lines@),
            out@ == kept(all.take(i as int)),
        decreases lines@.len() - i,
    {
        proof {
            assert(all.take(i + 1).drop_last() =~= all.take(i as int));
            assert(all.take(i + 1).last() == lines@[i as int]@);
        }
        if !starts_with(lines[i].as_str(), SEAL_PREFIX) {
            out.append(lines[i].as_str());
        }
        i = i + 1;
    }
    assert(all.take(all.len() as int) =~= all);
    out
}

/// The seal that fits the text of a file: the SHA-256 of everything but the
/// seal line, as 64 hexadecimal digits.
pub fn seal_hash(raw: &[u8]) -> (r: Result<String, PlanError>)
    ensures
        match r {
            Ok(hash) => valid_utf8(raw@) && hash@ == seal_of(decode_utf8(raw@)) && is_hash(hash@),
            Err(e) => !valid_utf8(raw@) && e@ == PlanErrorModel::NotUtf8,
        },
{
    match utf8_text(raw) {
        Ok(text) => {
            proof {
                encode_utf8_decode_utf8(text@);
            }
            Ok(seal_of_text(text))
        },
        Err(_) => Err(PlanError::NotUtf8),
    }
}

/// The seal that fits a text.
pub(super) fn seal_of_text(text: &str) -> (r: String)
    ensures
        r@ == seal_of(text@),
        is_hash(r@),
{
    let rest = remove_seal_line(text);
    let digest = sha256(rest.as_str().as_bytes());
    proof {
        lemma_hex_text(digest@);
    }
    hex(&digest)
}

/// The seal line for a hash.
pub open spec fn seal_line(hash: Seq<char>) -> Seq<char> {
    SEAL_PREFIX@ + " "@ + hash + " "@ + SEAL_SUFFIX@
}

/// The index of the first seal line.
pub open spec fn first_seal(lines: Seq<Seq<char>>) -> Option<int> {
    first_some(
        lines.len() as int,
        |i: int|
            if is_seal(lines[i]) {
                Some(i)
            } else {
                None
            },
    )
}

/// The lines with a seal in place of the first seal line, or behind the last
/// line where there is none.
pub open spec fn sealed_lines(lines: Seq<Seq<char>>, hash: Seq<char>) -> Seq<Seq<char>> {
    match first_seal(lines) {
        Some(k) => lines.update(k, seal_line(hash) + "\n"@),
        None => lines.push(seal_line(hash) + "\n"@),
    }
}

/// A text with a seal in place of its first seal line, or at its end.
pub open spec fn with_seal(text: Seq<char>, hash: Seq<char>) -> Seq<char> {
    concatenated(sealed_lines(lines_of(text), hash))
}

/// Puts a seal in place of the first seal line, or at the end.
pub(super) fn replace_or_insert_seal(text: &str, hash: &str) -> (r: String)
    ensures
        r@ == with_seal(text@, hash@),
{
    let mut line = SEAL_PREFIX.to_owned();
    line.append(" ");
    line.append(hash);
    line.append(" ");
    line.append(SEAL_SUFFIX);
    line.append("\n");
    let lines = split_lines(text);
    let ghost all = views(lines@);
    let ghost f = |i: int|
        if is_seal(all[i]) {
            Some(i)
        } else {
            None
        };
    let mut found = false;
    let ghost mut at: int = 0;
    let mut out = String::new();
    let mut i: usize = 0;
    let ghost target = sealed_lines(all, hash@);
    while i < lines.len()
        invariant
            i <= lines@.len(),
            all == views(lines@),
            f == (|i: int|
                if is_seal(all[i]) {
                    Some(i)
                } else {
                    None
                }),
            line@ == seal_line(hash@) + "\n"@,
            target == sealed_lines(all, hash@),
            !found ==> forall|j: int| 0 <= j < i ==> #[trigger] f(j) is None,
            found ==> 0 <= at < i && first_seal(all) == Some(at),
            out@ == concatenated(
                if found {
                    all.update(at, line@).take(i as int)
                } else {
                    all.take(i as int)
                },
            ),
        decreases lines@.len() - i,
    {
        assert(all[i as int] == lines@[i as int]@);
        if !found && starts_with(lines[i].as_str(), SEAL_PREFIX) {
            found = true;
            proof {
                at = i as int;
                lemma_first_at(all.len() as int, f, i as int);
                let now = all.update(at, line@);
                assert(now.take(i + 1).drop_last() =~= all.take(i as int));
                assert(now.take(i + 1).last() == line@);
            }
            out.append(line.as_str());
        } else {
            proof {
                if found {
                    let now = all.update(at, line@);
                    assert(now.take(i + 1).drop_last() =~= now.take(i as int));
                    assert(now.take(i + 1).last() == all[i as int]);
                } else {
                    assert(all.take(i + 1).drop_last() =~= all.take(i as int));
                    assert(all.take(i + 1).last() == all[i as int]);
                }
            }
            out.append(lines[i].as_str());
        }
        i = i + 1;
    }
    if !found {
        proof {
            lemma_first_none(all.len() as int, f);
            assert(target.drop_last() =~= all);
            assert(all.take(all.len() as int) =~= all);
        }
        out.append(line.as_str());
    } else {
        assert(all.update(at, line@).take(all.len() as int) =~= target);
    }
    out
}

/// An ASCII letter in lower case; any other character as it is.
pub open spec fn lower(c: char) -> char {
    if c == 'A' {
        'a'
    } else if c == 'B' {
        'b'
    } else if c == 'C' {
        'c'
    } else if c == 'D' {
        'd'
    } else if c == 'E' {
        'e'
    } else if c == 'F' {
        'f'
    } else {
        c
    }
}

/// The part of a line that may be a stored hash: what stands between the
/// prefix and the suffix of a seal line, without white space around it.
pub open spec fn seal_body(line: Seq<char>) -> Option<Seq<char>> {
    let t = trimmed(line);
    if has_prefix(t, SEAL_PREFIX@) {
        let rest = trimmed(t.skip(SEAL_PREFIX@.len() as int));
        Some(
            if has_suffix(rest, SEAL_SUFFIX@) {
                trimmed(rest.take(rest.len() - SEAL_SUFFIX@.len()))
            } else {
                rest
            },
        )
    } else {
        None
    }
}

/// The hash that a line stores, in lower case: 64 hexadecimal digits.
pub open spec fn stored_in(line: Seq<char>) -> Option<Seq<char>> {
    match seal_body(line) {
        Some(body) => if body.len() == 64 && forall|i: int|
            0 <= i < body.len() ==> is_hex(#[trigger] body[i]) {
            Some(body.map_values(|c: char| lower(c)))
        } else {
            None
        },
        None => None,
    }
}

/// The hash that a text stores: the first that a line of it stores.
pub open spec fn stored_seal(text: Seq<char>) -> Option<Seq<char>> {
    let lines = lines_of(text);
    first_some(lines.len() as int, |i: int| stored_in(lines[i]))
}

fn lower_char(c: char) -> (r: char)
    ensures
        r == lower(c),
{
    if c == 'A' {
        'a'
    } else if c == 'B' {
        'b'
    } else if c == 'C' {
        'c'
    } else if c == 'D' {
        'd'
    } else if c == 'E' {
        'e'
    } else if c == 'F' {
        'f'
    } else {
        c
    }
}

/// 64 hexadecimal digits in lower case, if that is what the text is.
fn hash_of_body(body: &str) -> (r: Option<String>)
    ensures
        match r {
            Some(h) => body@.len() == 64 && (forall|i: int|
                0 <= i < body@.len() ==> is_hex(#[trigger] body@[i])) && h@ == body@.map_values(
                |c: char| lower(c),
            ),
            None => !(body@.len() == 64 && forall|i: int|
                0 <= i < body@.len() ==> is_hex(#[trigger] body@[i])),
        },
{
    let v = chars_of(body);
    if v.len() != 64 {
        return None;
    }
    let mut out = String::new();
    let mut i: usize = 0;
    let ghost low = body@.map_values(|c: char| lower(c));
    while i < v.len()
        invariant
            i <= v@.len() == 64,
            v@ == body@,
            low == body@.map_values(|c: char| lower(c)),
            forall|k: int| 0 <= k < i ==> is_hex(#[trigger] body@[k]),
            out@ == low.take(i as int),
        decreases v@.len() - i,
    {
        let c = v[i];
        if !(('0' <= c && c <= '9') || ('a' <= c && c <= 'f') || ('A' <= c && c <= 'F')) {
            assert(!is_hex(body@[i as int]));
            return None;
        }
        out.push(lower_char(c));
        assert(low.take(i + 1) =~= low.take(i as int).push(low[i as int]));
        i = i + 1;
    }
    assert(low.take(64) =~= low);
    Some(out)
}

/// The hash that a line stores, if it stores one.
fn stored_hash(line: &str) -> (r: Option<String>)
    ensures
        match r {
            Some(h) => stored_in(line@) == Some(h@),
            None => stored_in(line@) is None,
        },
{
    let t = trim(line);
    if !starts_with(t.as_str(), SEAL_PREFIX) {
        return None;
    }
    let v = chars_of(t.as_str());
    let n = SEAL_PREFIX.unicode_len();
    let rest = trim(string_of(&v, n, v.len()).as_str());
    assert(t@.subrange(n as int, t@.len() as int) =~= t@.skip(n as int));
    let body = if ends_with(rest.as_str(), SEAL_SUFFIX) {
        let w = chars_of(rest.as_str());
        let m: usize = w.len() - SEAL_SUFFIX.unicode_len();
        assert(rest@.subrange(0, m as int) =~= rest@.take(m as int));
        trim(string_of(&w, 0, m).as_str())
    } else {
        rest
    };
    hash_of_body(body.as_str())
}

/// The hash that a text stores, if it stores one.
fn extract_stored_seal(text: &str) -> (r: Option<String>)
    ensures
        match r {
            Some(h) => stored_seal(text@) == Some(h@),
            None => stored_seal(text@) is None,
        },
{
    let lines = split_lines(text);
    let ghost all = views(lines@);
    let ghost f = |i: int| stored_in(all[i]);
    let mut i: usize = 0;
    while i < lines.len()
        invariant
            i <= lines@.len(),
            all == views(lines@),
            all == lines_of(text@),
            f == (|i: int| stored_in(all[i])),
            forall|j: int| 0 <= j < i ==> #[trigger] f(j) is None,
        decreases lines@.len() - i,
    {
        assert(all[i as int] == lines@[i as int]@);
        if let Some(h) = stored_hash(lines[i].as_str()) {
            proof {
                lemma_first_at(all.len() as int, f, i as int);
            }
            return Some(h);
        }
        i = i + 1;
    }
    proof {
        lemma_first_none(all.len() as int, f);
    }
    None
}

/// Whether a text carries the seal that fits it.
pub open spec fn sealed(text: Seq<char>) -> bool {
    stored_seal(text) == Some(seal_of(text))
}

/// Whether the stored seal is there and fits the text.
pub fn verify_seal(raw: &str) -> (r: Result<bool, PlanError>)
    ensures
        r is Ok,
        r->Ok_0 == sealed(raw@),
{
    let stored = extract_stored_seal(raw);
    let computed = seal_of_text(raw);
    match stored {
        Some(h) => Ok(same(h.as_str(), computed.as_str())),
        None => Ok(false),
    }
}

/// Whether no line of a text hides a seal behind white space: every line
/// that shows one once it is trimmed is a seal line as it stands.
pub open spec fn no_hidden_seal(text: Seq<char>) -> bool {
    forall|i: int|
        0 <= i < lines_of(text).len() ==> is_seal(lines_of(text)[i]) || seal_body(
            #[trigger] lines_of(text)[i],
        ) is None
}

/// Whether a hash is one that a seal line can store.
pub open spec fn is_hash(h: Seq<char>) -> bool {
    h.len() == 64 && forall|i: int|
        0 <= i < h.len() ==> is_hex(#[trigger] h[i]) && lower(h[i]) == h[i]
}

/// A seal line stores its hash.
pub proof fn lemma_seal_line_stores(h: Seq<char>)
    requires
        is_hash(h),
    ensures
        is_seal(seal_line(h) + "\n"@),
        stored_in(seal_line(h) + "\n"@) == Some(h),
        one_line(seal_line(h) + "\n"@),
        (seal_line(h) + "\n"@).last() == '\n',
{
    reveal_strlit("<!-- ATTINI-CONFIRMATIONS-SHA256:");
    reveal_strlit("-->");
    reveal_strlit(" ");
    reveal_strlit("\n");
    let line = seal_line(h) + "\n"@;
    let t = seal_line(h);
    let n = SEAL_PREFIX@.len() as int;
    assert(Seq::<char>::empty() + t + "\n"@ =~= line);
    lemma_trimmed(Seq::empty(), t, "\n"@);
    assert(t.take(n) =~= SEAL_PREFIX@);
    assert(line.take(n) =~= SEAL_PREFIX@);
    let inner = h + " "@ + SEAL_SUFFIX@;
    assert(t.skip(n) =~= " "@ + inner + Seq::<char>::empty());
    lemma_trimmed(" "@, inner, Seq::empty());
    assert(inner.skip(inner.len() - SEAL_SUFFIX@.len()) =~= SEAL_SUFFIX@);
    assert(inner.take(inner.len() - SEAL_SUFFIX@.len()) =~= Seq::<char>::empty() + h + " "@);
    assert(is_hex(h[0]) && is_hex(h[63]));
    lemma_trimmed(Seq::empty(), h, " "@);
    assert(h.map_values(|c: char| lower(c)) =~= h);
    assert forall|i: int| 0 <= i < line.len() - 1 implies #[trigger] line[i] != '\n' by {
        if n + 1 <= i < n + 65 {
            assert(line[i] == h[i - n - 1]);
            assert(is_hex(h[i - n - 1]));
        } else if i < n {
            assert(line[i] == SEAL_PREFIX@[i]);
        }
    }
}

/// The lines that are kept do not change where one seal line replaces another.
proof fn lemma_kept_update(lines: Seq<Seq<char>>, k: int, line: Seq<char>)
    requires
        0 <= k < lines.len(),
        is_seal(lines[k]),
        is_seal(line),
    ensures
        kept(lines.update(k, line)) == kept(lines),
    decreases lines.len(),
{
    let now = lines.update(k, line);
    if k == lines.len() - 1 {
        assert(now.drop_last() =~= lines.drop_last());
    } else {
        assert(now.drop_last() =~= lines.drop_last().update(k, line));
        assert(now.last() == lines.last());
        lemma_kept_update(lines.drop_last(), k, line);
    }
}

/// A text that has a seal line and hides none is sealed once the hash that
/// fits it stands in its seal line.
pub proof fn law_with_seal_is_sealed(text: Seq<char>)
    requires
        first_seal(lines_of(text)) is Some,
        no_hidden_seal(text),
        is_hash(seal_of(text)),
    ensures
        sealed(with_seal(text, seal_of(text))),
        without_seal(with_seal(text, seal_of(text))) == without_seal(text),
{
    let h = seal_of(text);
    let lines = lines_of(text);
    let f = |i: int|
        if is_seal(lines[i]) {
            Some(i)
        } else {
            None
        };
    let line = seal_line(h) + "\n"@;
    lemma_lines_of(text);
    lemma_seal_line_stores(h);
    let k = lemma_first_found(lines.len() as int, f);
    assert(first_seal(lines) == Some(k));
    let now = lines.update(k, line);
    assert forall|i: int| 0 <= i < now.len() implies one_line(#[trigger] now[i]) && (i < now.len() - 1
        ==> now[i].last() == '\n') by {
        if i != k {
            assert(now[i] == lines[i]);
        }
    }
    lemma_lines_of_concatenated(now);
    lemma_kept_update(lines, k, line);
    let g = |i: int| stored_in(now[i]);
    assert forall|i: int| 0 <= i < k implies #[trigger] g(i) is None by {
        assert(now[i] == lines[i]);
        assert(f(i) is None);
    }
    lemma_first_at(now.len() as int, g, k);
}

/// Texts that carry the same seal and are sealed by it have the same digest
/// once their seal lines are left out: nothing but a collision of SHA-256
/// lets another text pass under a seal.
pub proof fn law_same_seal_same_digest(a: Seq<char>, b: Seq<char>)
    requires
        sealed(a),
        sealed(b),
        stored_seal(a) == stored_seal(b),
    ensures
        sha256_digest(encode_utf8(without_seal(a))) == sha256_digest(encode_utf8(without_seal(b))),
{
    lemma_hex_injective(
        sha256_digest(encode_utf8(without_seal(a))),
        sha256_digest(encode_utf8(without_seal(b))),
    );
}

/// Bytes that are written alike in hexadecimal notation are the same.
proof fn lemma_hex_injective(a: Seq<u8>, b: Seq<u8>)
    requires
        hex_text(a) == hex_text(b),
    ensures
        a == b,
    decreases a.len(),
{
    lemma_hex_text(a);
    lemma_hex_text(b);
    if a.len() > 0 {
        let ha = hex_text(a);
        let hb = hex_text(b);
        assert(ha.take(ha.len() - 2) =~= hex_text(a.drop_last()));
        assert(hb.take(hb.len() - 2) =~= hex_text(b.drop_last()));
        assert(ha[ha.len() - 1] == hex_digit(a.last() as int % 16));
        assert(hb[hb.len() - 1] == hex_digit(b.last() as int % 16));
        assert(ha[ha.len() - 2] == hex_digit(a.last() as int / 16));
        assert(hb[hb.len() - 2] == hex_digit(b.last() as int / 16));
        lemma_hex_injective(a.drop_last(), b.drop_last());
        assert(a =~= a.drop_last().push(a.last()));
        assert(b =~= b.drop_last().push(b.last()));
    } else {
        assert(a =~= b);
    }
}

} // verus!
