//! Calendar dates and times, and how they are written as digits: the year
//! as chrono's `%Y` writes it, two-digit fields, English month names, and
//! the compact `YYYYMMDDHHMMSS` timestamp.

use vstd::prelude::*;

use chrono::{Datelike, Timelike};

use crate::text::push_char;

verus! {

/// Leap years of the proleptic Gregorian calendar.
pub open spec fn is_leap_year(year: int) -> bool {
    year % 4 == 0 && (year % 100 != 0 || year % 400 == 0)
}

/// The number of days in `month` of `year`.
pub open spec fn days_in_month(year: int, month: int) -> int {
    if month == 2 {
        if is_leap_year(year) {
            29
        } else {
            28
        }
    } else if month == 4 || month == 6 || month == 9 || month == 11 {
        30
    } else {
        31
    }
}

/// A date that chrono's `NaiveDate` can hold: a year from -262143 to
/// 262142, a month from 1 to 12, a day that exists in that month.
pub open spec fn valid_calendar_date(year: i32, month: u32, day: u32) -> bool {
    &&& -262143 <= year <= 262142
    &&& 1 <= month <= 12
    &&& 1 <= day <= days_in_month(year as int, month as int)
}

/// The decimal digit `d` (0 to 9) as a character.
pub open spec fn digit_char(d: int) -> char {
    if d == 0 {
        '0'
    } else if d == 1 {
        '1'
    } else if d == 2 {
        '2'
    } else if d == 3 {
        '3'
    } else if d == 4 {
        '4'
    } else if d == 5 {
        '5'
    } else if d == 6 {
        '6'
    } else if d == 7 {
        '7'
    } else if d == 8 {
        '8'
    } else {
        '9'
    }
}

/// `n` (below 100) in two digits, zero-padded.
pub open spec fn two_digits(n: int) -> Seq<char> {
    seq![digit_char(n / 10), digit_char(n % 10)]
}

/// `n` (0 to 9999) in four digits, zero-padded.
pub open spec fn four_digits(n: int) -> Seq<char> {
    seq![digit_char(n / 1000), digit_char((n / 100) % 10), digit_char((n / 10) % 10), digit_char(n % 10)]
}

/// The English name of month `m` (1 to 12).
pub open spec fn month_name_of(m: int) -> Seq<char> {
    if m == 1 {
        "January"@
    } else if m == 2 {
        "February"@
    } else if m == 3 {
        "March"@
    } else if m == 4 {
        "April"@
    } else if m == 5 {
        "May"@
    } else if m == 6 {
        "June"@
    } else if m == 7 {
        "July"@
    } else if m == 8 {
        "August"@
    } else if m == 9 {
        "September"@
    } else if m == 10 {
        "October"@
    } else if m == 11 {
        "November"@
    } else {
        "December"@
    }
}

/// The decimal digits of `n`, without leading zeros.
pub open spec fn decimal(n: nat) -> Seq<char>
    decreases n,
{
    if n < 10 {
        seq![digit_char(n as int)]
    } else {
        decimal(n / 10).push(digit_char((n % 10) as int))
    }
}

/// `s` with zeros put in front until it is `width` long.
pub open spec fn zero_padded(s: Seq<char>, width: nat) -> Seq<char> {
    if s.len() < width {
        Seq::new((width - s.len()) as nat, |i: int| '0') + s
    } else {
        s
    }
}

/// The year as chrono's `%Y` writes it: four zero-padded digits from 0 to
/// 9999, otherwise a sign followed by at least four digits.
pub open spec fn year_text(year: int) -> Seq<char> {
    if 0 <= year <= 9999 {
        four_digits(year)
    } else if year < 0 {
        seq!['-'] + zero_padded(decimal((-year) as nat), 4)
    } else {
        seq!['+'] + zero_padded(decimal(year as nat), 4)
    }
}

fn digit_to_char(d: u32) -> (c: char)
    requires
        d < 10,
    ensures
        c == digit_char(d as int),
{
    if d == 0 {
        '0'
    } else if d == 1 {
        '1'
    } else if d == 2 {
        '2'
    } else if d == 3 {
        '3'
    } else if d == 4 {
        '4'
    } else if d == 5 {
        '5'
    } else if d == 6 {
        '6'
    } else if d == 7 {
        '7'
    } else if d == 8 {
        '8'
    } else {
        '9'
    }
}

fn push_decimal(out: &mut String, n: u64)
    ensures
        final(out)@ == old(out)@ + decimal(n as nat),
    decreases n,
{
    if n >= 10 {
        push_decimal(out, n / 10);
    }
    push_char(out, digit_to_char((n % 10) as u32));
    assert(final(out)@ =~= old(out)@ + decimal(n as nat));
}

/// Writes `n` in decimal, as `u64::to_string` does.
pub fn decimal_text(n: u64) -> (r: String)
    ensures
        r@ == decimal(n as nat),
{
    let mut out = String::new();
    push_decimal(&mut out, n);
    out
}

proof fn lemma_decimal_len(n: nat)
    ensures
        n < 10 ==> decimal(n).len() == 1,
        10 <= n < 100 ==> decimal(n).len() == 2,
        100 <= n < 1000 ==> decimal(n).len() == 3,
        1000 <= n ==> decimal(n).len() >= 4,
    decreases n,
{
    if n >= 10 {
        lemma_decimal_len(n / 10);
    }
}

fn push_two_digits(out: &mut String, n: u32)
    requires
        n < 100,
    ensures
        final(out)@ == old(out)@ + two_digits(n as int),
{
    push_char(out, digit_to_char(n / 10));
    push_char(out, digit_to_char((n % 10) as u32));
}

/// Writes `year` as chrono's `%Y` does.
pub fn year_to_text(year: i32) -> (r: String)
    ensures
        r@ == year_text(year as int),
{
    let mut out = String::new();
    if 0 <= year && year <= 9999 {
        let y = year as u32;
        push_char(&mut out, digit_to_char(y / 1000));
        push_char(&mut out, digit_to_char((y / 100) % 10));
        push_char(&mut out, digit_to_char((y / 10) % 10));
        push_char(&mut out, digit_to_char(y % 10));
        return out;
    }
    let magnitude: u32 = if year < 0 {
        push_char(&mut out, '-');
        (0i64 - year as i64) as u32
    } else {
        push_char(&mut out, '+');
        year as u32
    };
    let ghost head = out@;
    proof {
        lemma_decimal_len(magnitude as nat);
    }
    let zeros: u32 = if magnitude < 10 {
        3
    } else if magnitude < 100 {
        2
    } else if magnitude < 1000 {
        1
    } else {
        0
    };
    let mut k: u32 = 0;
    while k < zeros
        invariant
            k <= zeros <= 3,
            out@ == head + Seq::new(k as nat, |i: int| '0'),
        decreases zeros - k,
    {
        push_char(&mut out, '0');
        k = k + 1;
        assert(out@ =~= head + Seq::new(k as nat, |i: int| '0'));
    }
    push_decimal(&mut out, magnitude as u64);
    assert(out@ =~= head + zero_padded(decimal(magnitude as nat), 4));
    out
}

/// A local date and time as chrono reports it, field by field.
#[derive(Debug, Clone, Copy)]
pub struct LocalDateTime {
    pub year: i32,
    pub month: u32,
    pub day: u32,
    pub hour: u32,
    pub minute: u32,
    pub second: u32,
    /// From 1,000,000,000 on, the time lies in a leap second.
    pub nanosecond: u32,
}

/// The ranges chrono's fields keep: a valid calendar date, hour below 24,
/// minute and second below 60, nanosecond below 2,000,000,000.
pub open spec fn is_valid_date_time(t: LocalDateTime) -> bool {
    &&& valid_calendar_date(t.year, t.month, t.day)
    &&& t.hour < 24
    &&& t.minute < 60
    &&& t.second < 60
    &&& t.nanosecond < 2_000_000_000
}

/// chrono's `Local::now()`, read out through its `Datelike` and `Timelike`
/// accessors. What time it is depends on the clock and the time zone, so
/// only the ranges that chrono documents for these fields are stated.
#[verifier::external_body]
pub(crate) fn local_now() -> (r: LocalDateTime)
    ensures
        is_valid_date_time(r),
{
    let now = chrono::Local::now();
    LocalDateTime {
        year: now.year(),
        month: now.month(),
        day: now.day(),
        hour: now.hour(),
        minute: now.minute(),
        second: now.second(),
        nanosecond: now.nanosecond(),
    }
}

/// The seconds as chrono's `%S` writes them: a leap second counts as 60.
pub open spec fn shown_second(t: LocalDateTime) -> int {
    t.second + t.nanosecond / 1_000_000_000
}

/// `t` as chrono's `%Y%m%d%H%M%S` writes it.
pub open spec fn timestamp_text(t: LocalDateTime) -> Seq<char> {
    year_text(t.year as int) + two_digits(t.month as int) + two_digits(t.day as int) + two_digits(
        t.hour as int,
    ) + two_digits(t.minute as int) + two_digits(shown_second(t))
}

/// Writes `t` as `YYYYMMDDHHMMSS`, the form chrono's `%Y%m%d%H%M%S` gives.
pub fn compact_timestamp(t: &LocalDateTime) -> (r: String)
    requires
        is_valid_date_time(*t),
    ensures
        r@ == timestamp_text(*t),
{
    let mut out = year_to_text(t.year);
    push_two_digits(&mut out, t.month);
    push_two_digits(&mut out, t.day);
    push_two_digits(&mut out, t.hour);
    push_two_digits(&mut out, t.minute);
    push_two_digits(&mut out, t.second + t.nanosecond / 1_000_000_000);
    out
}

/// Whether `c` is a decimal digit.
pub open spec fn is_digit(c: char) -> bool {
    '0' <= c <= '9'
}

/// For a year from 0 to 9999 the timestamp is 14 decimal digits.
pub proof fn lemma_timestamp_is_fourteen_digits(t: LocalDateTime)
    requires
        is_valid_date_time(t),
        0 <= t.year <= 9999,
    ensures
        timestamp_text(t).len() == 14,
        forall|i: int| 0 <= i < 14 ==> is_digit(#[trigger] timestamp_text(t)[i]),
{
    let s = timestamp_text(t);
    assert forall|i: int| 0 <= i < 14 implies is_digit(#[trigger] s[i]) by {
        assert(forall|d: int| is_digit(#[trigger] digit_char(d)));
    }
}

/// Distinct digits are written as distinct characters.
proof fn lemma_digit_char_injective(a: int, b: int)
    requires
        0 <= a <= 9,
        0 <= b <= 9,
        digit_char(a) == digit_char(b),
    ensures
        a == b,
{
}

/// Two numbers below 100 with the same two digits are equal.
proof fn lemma_two_digits_injective(a: int, b: int)
    requires
        0 <= a < 100,
        0 <= b < 100,
        two_digits(a) == two_digits(b),
    ensures
        a == b,
{
    assert(two_digits(a)[0] == two_digits(b)[0]);
    assert(two_digits(a)[1] == two_digits(b)[1]);
    lemma_digit_char_injective(a / 10, b / 10);
    lemma_digit_char_injective(a % 10, b % 10);
}

/// Two numbers from 0 to 9999 with the same four digits are equal.
proof fn lemma_four_digits_injective(a: int, b: int)
    requires
        0 <= a <= 9999,
        0 <= b <= 9999,
        four_digits(a) == four_digits(b),
    ensures
        a == b,
{
    assert(four_digits(a)[0] == four_digits(b)[0]);
    assert(four_digits(a)[1] == four_digits(b)[1]);
    assert(four_digits(a)[2] == four_digits(b)[2]);
    assert(four_digits(a)[3] == four_digits(b)[3]);
    lemma_digit_char_injective(a / 1000, b / 1000);
    lemma_digit_char_injective((a / 100) % 10, (b / 100) % 10);
    lemma_digit_char_injective((a / 10) % 10, (b / 10) % 10);
    lemma_digit_char_injective(a % 10, b % 10);
}

/// A timestamp tells its time apart from every other: two readings with a
/// year from 0 to 9999 give the same timestamp only when they agree on
/// year, month, day, hour, minute and second. Copies stamped at different
/// seconds, on one day or on different days, get different names.
pub proof fn lemma_timestamp_identifies_time(a: LocalDateTime, b: LocalDateTime)
    requires
        is_valid_date_time(a),
        is_valid_date_time(b),
        0 <= a.year <= 9999,
        0 <= b.year <= 9999,
        timestamp_text(a) == timestamp_text(b),
    ensures
        a.year == b.year,
        a.month == b.month,
        a.day == b.day,
        a.hour == b.hour,
        a.minute == b.minute,
        shown_second(a) == shown_second(b),
{
    let ta = timestamp_text(a);
    let tb = timestamp_text(b);
    assert(ta.subrange(0, 4) == four_digits(a.year as int));
    assert(tb.subrange(0, 4) == four_digits(b.year as int));
    lemma_four_digits_injective(a.year as int, b.year as int);
    assert(ta.subrange(4, 6) == two_digits(a.month as int));
    assert(tb.subrange(4, 6) == two_digits(b.month as int));
    lemma_two_digits_injective(a.month as int, b.month as int);
    assert(ta.subrange(6, 8) == two_digits(a.day as int));
    assert(tb.subrange(6, 8) == two_digits(b.day as int));
    lemma_two_digits_injective(a.day as int, b.day as int);
    assert(ta.subrange(8, 10) == two_digits(a.hour as int));
    assert(tb.subrange(8, 10) == two_digits(b.hour as int));
    lemma_two_digits_injective(a.hour as int, b.hour as int);
    assert(ta.subrange(10, 12) == two_digits(a.minute as int));
    assert(tb.subrange(10, 12) == two_digits(b.minute as int));
    lemma_two_digits_injective(a.minute as int, b.minute as int);
    assert(ta.subrange(12, 14) == two_digits(shown_second(a)));
    assert(tb.subrange(12, 14) == two_digits(shown_second(b)));
    lemma_two_digits_injective(shown_second(a), shown_second(b));
}

} // verus!
