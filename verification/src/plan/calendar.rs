//! Dates of the Gregorian calendar, in UTC.
use vstd::prelude::*;
use vstd::string::*;

use super::seal::hex_char;
use crate::json::hex_digit;
use crate::text::{decimal, decimal_of};

verus! {

/// Whether a year has a 29th of February.
pub open spec fn leap(y: int) -> bool {
    y % 4 == 0 && (y % 100 != 0 || y % 400 == 0)
}

/// How many days a month has.
pub open spec fn days_in_month(y: int, m: int) -> int {
    if m == 2 {
        if leap(y) {
            29
        } else {
            28
        }
    } else if m == 4 || m == 6 || m == 9 || m == 11 {
        30
    } else {
        31
    }
}

/// How many days of the year lie before a month.
pub open spec fn days_before_month(y: int, m: int) -> int
    decreases m,
{
    if m <= 1 {
        0
    } else {
        days_before_month(y, m - 1) + days_in_month(y, m - 1)
    }
}

/// How many days lie between 1970-01-01 and the first day of a year.
pub open spec fn days_before_year(y: int) -> int {
    365 * (y - 1) + (y - 1) / 4 - (y - 1) / 100 + (y - 1) / 400 - 719162
}

/// Whether a date is one of the calendar, from the year 1 on.
pub open spec fn is_date(y: int, m: int, d: int) -> bool {
    1 <= y && 1 <= m <= 12 && 1 <= d <= days_in_month(y, m)
}

/// How many days lie between 1970-01-01 and a date.
pub open spec fn day_number(y: int, m: int, d: int) -> int {
    days_before_year(y) + days_before_month(y, m) + d - 1
}

/// A year is 366 days long where it is a leap year, and 365 days otherwise.
pub proof fn law_year_length(y: int)
    requires
        1 <= y,
    ensures
        days_before_year(y + 1) - days_before_year(y) == if leap(y) {
            366int
        } else {
            365int
        },
        days_before_month(y, 12) + days_in_month(y, 12) == if leap(y) {
            366int
        } else {
            365int
        },
{
    reveal_with_fuel(days_before_month, 12);
    let z = y - 1;
    assert(y % 4 == 0 <==> y / 4 == z / 4 + 1) by (nonlinear_arith)
        requires
            z == y - 1,
    ;
    assert(y % 4 != 0 ==> y / 4 == z / 4) by (nonlinear_arith)
        requires
            z == y - 1,
    ;
    assert(y % 100 == 0 <==> y / 100 == z / 100 + 1) by (nonlinear_arith)
        requires
            z == y - 1,
    ;
    assert(y % 100 != 0 ==> y / 100 == z / 100) by (nonlinear_arith)
        requires
            z == y - 1,
    ;
    assert(y % 400 == 0 <==> y / 400 == z / 400 + 1) by (nonlinear_arith)
        requires
            z == y - 1,
    ;
    assert(y % 400 != 0 ==> y / 400 == z / 400) by (nonlinear_arith)
        requires
            z == y - 1,
    ;
    assert(y % 400 == 0 ==> y % 100 == 0) by (nonlinear_arith);
    assert(y % 100 == 0 ==> y % 4 == 0) by (nonlinear_arith);
}

/// Months follow one another within a year.
proof fn lemma_months(y: int, a: int, b: int)
    requires
        1 <= a <= b <= 13,
    ensures
        days_before_month(y, a) <= days_before_month(y, b),
        a < b ==> days_before_month(y, a) + days_in_month(y, a) <= days_before_month(y, b),
    decreases b - a,
{
    if a < b {
        lemma_months(y, a, b - 1);
    }
}

/// Years follow one another.
proof fn lemma_years(a: int, b: int)
    requires
        1 <= a <= b,
    ensures
        days_before_year(a) <= days_before_year(b),
        a < b ==> days_before_year(a + 1) <= days_before_year(b),
    decreases b - a,
{
    if a < b {
        law_year_length(b - 1);
        lemma_years(a, b - 1);
    }
}

/// Two dates with the same number of days behind 1970-01-01 are the same
/// date.
pub proof fn law_dates_are_unique(y: int, m: int, d: int, y2: int, m2: int, d2: int)
    requires
        is_date(y, m, d),
        is_date(y2, m2, d2),
        day_number(y, m, d) == day_number(y2, m2, d2),
    ensures
        y == y2 && m == m2 && d == d2,
{
    law_year_length(y);
    law_year_length(y2);
    lemma_months(y, m, 12);
    lemma_months(y2, m2, 12);
    lemma_months(y, 1, m);
    lemma_months(y2, 1, m2);
    if y < y2 {
        lemma_years(y, y2);
    } else if y2 < y {
        lemma_years(y2, y);
    } else if m < m2 {
        lemma_months(y, m, m2);
    } else if m2 < m {
        lemma_months(y, m2, m);
    }
}

/// Whether the first three of those numbers name a day, in the year `y`; the
/// first of them holds the year up to a multiple of 2^32.
pub open spec fn names_day(t: (u32, u32, u32, u32, u32, u32), y: int, day: int) -> bool {
    &&& is_date(y, t.1 as int, t.2 as int)
    &&& day_number(y, t.1 as int, t.2 as int) == day
    &&& t.0 == y % 0x1_0000_0000
}

/// The parts of a day count: 400, 100, 4 and single years, and the rest.
proof fn lemma_year_parts(a: int, b: int, c: int, d: int)
    requires
        0 <= a,
        0 <= b <= 3,
        0 <= c <= 24,
        0 <= d <= 3,
    ensures
        ({
            let y = 400 * a + 100 * b + 4 * c + d + 1;
            &&& days_before_year(y) == 146097 * a + 36524 * b + 1461 * c + 365 * d - 719162
            &&& leap(y) == (d == 3 && (c != 24 || b == 3))
        }),
{
    let z = 400 * a + 100 * b + 4 * c + d;
    assert(z / 4 == 100 * a + 25 * b + c);
    assert(z / 100 == 4 * a + b);
    assert(z / 400 == a);
    let y = z + 1;
    assert(y % 4 == 0 <==> d == 3);
    assert(y % 100 == 0 <==> 4 * c + d == 99);
    assert(y % 400 == 0 <==> 100 * b + 4 * c + d == 399);
}

/// How many days a month has.
fn month_length(is_leap: bool, m: u32, Ghost(y): Ghost<int>) -> (r: u64)
    requires
        is_leap == leap(y),
    ensures
        r == days_in_month(y, m as int),
{
    if m == 2 {
        if is_leap {
            29
        } else {
            28
        }
    } else if m == 4 || m == 6 || m == 9 || m == 11 {
        30
    } else {
        31
    }
}

/// The year of a day, the days of that year before it, and whether it is a
/// leap year.
fn year_of(day: u64) -> (r: (u64, u64, bool))
    requires
        day <= u64::MAX / 86400,
    ensures
        1 <= r.0,
        days_before_year(r.0 as int) + r.1 == day,
        r.2 == leap(r.0 as int),
        r.1 < if leap(r.0 as int) {
            366int
        } else {
            365int
        },
{
    let n: u64 = day + 719162;
    let n400: u64 = n / 146097;
    let r1: u64 = n % 146097;
    let n100: u64 = if r1 / 36524 > 3 {
        3
    } else {
        r1 / 36524
    };
    let r2: u64 = r1 - n100 * 36524;
    let n4: u64 = r2 / 1461;
    let r3: u64 = r2 % 1461;
    let n1: u64 = if r3 / 365 > 3 {
        3
    } else {
        r3 / 365
    };
    let doy: u64 = r3 - n1 * 365;
    let year: u64 = 400 * n400 + 100 * n100 + 4 * n4 + n1 + 1;
    proof {
        lemma_year_parts(n400 as int, n100 as int, n4 as int, n1 as int);
    }
    (year, doy, n1 == 3 && (n4 != 24 || n100 == 3))
}

/// The month and day of the month for a number of days of a year.
fn month_of(is_leap: bool, doy: u64, Ghost(y): Ghost<int>) -> (r: (u32, u32))
    requires
        1 <= y,
        is_leap == leap(y),
        doy < if leap(y) {
            366int
        } else {
            365int
        },
    ensures
        is_date(y, r.0 as int, r.1 as int),
        days_before_month(y, r.0 as int) + r.1 - 1 == doy,
{
    proof {
        law_year_length(y);
    }
    let mut m: u32 = 1;
    let mut rest: u64 = doy;
    let mut length: u64 = month_length(is_leap, m, Ghost(y));
    while rest >= length
        invariant
            1 <= m <= 12,
            is_leap == leap(y),
            length == days_in_month(y, m as int),
            doy == days_before_month(y, m as int) + rest,
            doy < days_before_month(y, 12) + days_in_month(y, 12),
        decreases 12 - m,
    {
        assert(m < 12);
        rest = rest - length;
        m = m + 1;
        length = month_length(is_leap, m, Ghost(y));
    }
    (m, (rest + 1) as u32)
}

/// The date and time of day of a moment given in seconds behind the start of
/// 1970. The year wraps around at the end of `u32`.
pub fn unix_to_ymdhms(secs: u64) -> (r: (u32, u32, u32, u32, u32, u32))
    ensures
        exists|y: int| #[trigger] names_day(r, y, secs as int / 86400),
        r.3 == (secs % 86400) / 3600,
        r.4 == (secs % 3600) / 60,
        r.5 == secs % 60,
{
    let day: u64 = secs / 86400;
    let (year, doy, is_leap) = year_of(day);
    let (m, d) = month_of(is_leap, doy, Ghost(year as int));
    let h: u32 = (secs % 86400 / 3600) as u32;
    let mi: u32 = (secs % 3600 / 60) as u32;
    let s: u32 = (secs % 60) as u32;
    let y: u32 = (year % 0x1_0000_0000) as u32;
    let r = (y, m, d, h, mi, s);
    assert(names_day(r, year as int, secs as int / 86400));
    r
}

/// A number in decimal notation, filled up with zeros in front.
pub open spec fn padded(n: nat, width: int) -> Seq<char> {
    zeros(width - decimal(n).len()) + decimal(n)
}

/// That many zeros.
pub open spec fn zeros(n: int) -> Seq<char> {
    if n > 0 {
        Seq::new(n as nat, |i: int| '0')
    } else {
        Seq::empty()
    }
}

/// Writes a number in decimal notation, filled up with zeros in front.
fn pad(n: u32, width: usize) -> (r: String)
    ensures
        r@ == padded(n as nat, width as int),
{
    let digits = decimal_of(n as u64);
    let len = digits.as_str().unicode_len();
    let mut out = String::new();
    let mut i: usize = len;
    while i < width
        invariant
            len == decimal(n as nat).len(),
            len <= i,
            i <= width || i == len,
            out@ == zeros(i - len),
        decreases width - i,
    {
        out.push('0');
        assert(zeros(i + 1 - len) =~= zeros(i - len).push('0'));
        i = i + 1;
    }
    assert(zeros(width - len) =~= out@);
    out.append(digits.as_str());
    out
}

/// A number below 2^24 in hexadecimal notation with six digits.
pub open spec fn hex6(n: int) -> Seq<char> {
    seq![
        hex_digit(n / 0x10_0000 % 16),
        hex_digit(n / 0x1_0000 % 16),
        hex_digit(n / 0x1000 % 16),
        hex_digit(n / 0x100 % 16),
        hex_digit(n / 0x10 % 16),
        hex_digit(n % 16),
    ]
}

/// The name suffix for a moment: date, time of day, and the low 24 bits of
/// the nanoseconds.
pub open spec fn suffix_text(t: (u32, u32, u32, u32, u32, u32), nanos: int) -> Seq<char> {
    padded(t.0 as nat, 4) + padded(t.1 as nat, 2) + padded(t.2 as nat, 2) + "-"@ + padded(
        t.3 as nat,
        2,
    ) + padded(t.4 as nat, 2) + padded(t.5 as nat, 2) + "-"@ + hex6(nanos % 0x100_0000)
}

/// `YYYYMMDD-HHMMSS-<6hex>` suffix for the name of a managed plan, for a
/// moment given in seconds and nanoseconds behind the start of 1970.
pub fn plan_timestamp_suffix(secs: u64, subsec_nanos: u32) -> (r: String)
    ensures
        exists|t: (u32, u32, u32, u32, u32, u32), y: int|
            #![trigger suffix_text(t, subsec_nanos as int), names_day(t, y, secs as int / 86400)]
            {
                &&& r@ == suffix_text(t, subsec_nanos as int)
                &&& names_day(t, y, secs as int / 86400)
                &&& t.3 == (secs % 86400) / 3600
                &&& t.4 == (secs % 3600) / 60
                &&& t.5 == secs % 60
            },
{
    let (y, mo, d, h, mi, s) = unix_to_ymdhms(secs);
    let n: u32 = subsec_nanos % 0x100_0000;
    let mut out = pad(y, 4);
    out.append(pad(mo, 2).as_str());
    out.append(pad(d, 2).as_str());
    out.append("-");
    out.append(pad(h, 2).as_str());
    out.append(pad(mi, 2).as_str());
    out.append(pad(s, 2).as_str());
    out.append("-");
    let ghost head = out@;
    out.push(hex_char((n / 0x10_0000 % 16) as u8));
    out.push(hex_char((n / 0x1_0000 % 16) as u8));
    out.push(hex_char((n / 0x1000 % 16) as u8));
    out.push(hex_char((n / 0x100 % 16) as u8));
    out.push(hex_char((n / 0x10 % 16) as u8));
    out.push(hex_char((n % 16) as u8));
    proof {
        assert(out@ =~= head + hex6(n as int));
        let t = (y, mo, d, h, mi, s);
        assert(out@ == suffix_text(t, subsec_nanos as int));
    }
    out
}

} // verus!
