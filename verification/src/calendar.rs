//! Dates of the Gregorian calendar and the names that releases get from them.

use crate::text::{
    all_digits, bytes_before, decimal, is_alphanumeric, is_digit, lemma_before_behind,
    lemma_before_extended, lemma_decimal_digits, lemma_decimal_len, lemma_order_of_bytes,
    lemma_padded_order, padded, padded_text, text_before,
};
use crate::validate::{lemma_identifier_is_ascii, valid_identifier};
use vstd::prelude::*;
use vstd::utf8::{encode_utf8, is_ascii_chars, is_ascii_chars_encode_utf8};

verus! {

// ---------------------------------------------------------------------------
// Dates
// ---------------------------------------------------------------------------

pub open spec fn is_leap(year: int) -> bool {
    year % 4 == 0 && (year % 100 != 0 || year % 400 == 0)
}

pub open spec fn days_in_month(year: int, month: int) -> int {
    if month == 2 {
        if is_leap(year) {
            29
        } else {
            28
        }
    } else if month == 4 || month == 6 || month == 9 || month == 11 {
        30
    } else {
        31
    }
}

/// The days of `year` before the first of `month`.
pub open spec fn days_before_month(year: int, month: int) -> int
    decreases month,
{
    if month <= 1 {
        0
    } else {
        days_before_month(year, month - 1) + days_in_month(year, month - 1)
    }
}

/// The days from the first of January of year 1 to the first of January of
/// `year`.
pub open spec fn days_before_year(year: int) -> int {
    365 * (year - 1) + (year - 1) / 4 - (year - 1) / 100 + (year - 1) / 400
}

pub open spec fn valid_date(year: int, month: int, day: int) -> bool {
    1 <= month <= 12 && 1 <= day <= days_in_month(year, month)
}

/// The days from the first of January 1970 to a date.
pub open spec fn day_number(year: int, month: int, day: int) -> int {
    days_before_year(year) + days_before_month(year, month) + day - 1 - 719_162
}

proof fn lemma_months(year: int)
    ensures
        days_before_month(year, 1) == 0,
        days_before_month(year, 2) == 31,
        days_before_month(year, 3) == 59 + leap_day(year),
        days_before_month(year, 4) == 90 + leap_day(year),
        days_before_month(year, 5) == 120 + leap_day(year),
        days_before_month(year, 6) == 151 + leap_day(year),
        days_before_month(year, 7) == 181 + leap_day(year),
        days_before_month(year, 8) == 212 + leap_day(year),
        days_before_month(year, 9) == 243 + leap_day(year),
        days_before_month(year, 10) == 273 + leap_day(year),
        days_before_month(year, 11) == 304 + leap_day(year),
        days_before_month(year, 12) == 334 + leap_day(year),
{
    reveal_with_fuel(days_before_month, 13);
}

spec fn leap_day(year: int) -> int {
    if is_leap(year) {
        1
    } else {
        0
    }
}

/// The year of an era of 400 years in which its day `doe` falls, counting
/// years from March.
proof fn lemma_year_of_era(doe: int, yoe: int)
    requires
        0 <= doe <= 146_096,
        yoe == (doe - doe / 1_460 + doe / 36_524 - doe / 146_096) / 365,
    ensures
        0 <= yoe <= 399,
        0 <= doe - (365 * yoe + yoe / 4 - yoe / 100),
        doe - (365 * yoe + yoe / 4 - yoe / 100) <= 365,
        doe - (365 * yoe + yoe / 4 - yoe / 100) == 365 ==> yoe % 4 == 3 && (yoe % 100 != 99 || yoe
            == 399),
{
    let century = doe / 36_524;
    assert(0 <= century <= 4);
}

/// The day of a year of the March calendar is the day of a month.
proof fn lemma_month_of_year(year: int, doy: int, mp: int, d: int, m: int, y: int)
    requires
        0 <= doy <= 365,
        mp == (5 * doy + 2) / 153,
        d == doy - (153 * mp + 2) / 5 + 1,
        m == (if mp < 10 {
            mp + 3
        } else {
            mp - 9
        }),
        y == (if m <= 2 {
            year + 1
        } else {
            year
        }),
        doy == 365 ==> is_leap(year + 1),
    ensures
        valid_date(y, m, d),
        m >= 3 ==> days_before_month(y, m) + d - 1 == doy + 59 + leap_day(y),
        m <= 2 ==> days_before_month(y, m) + d - 1 == doy - 306,
{
    lemma_months(y);
    assert(0 <= mp <= 11);
    assert(mp == 0 || mp == 1 || mp == 2 || mp == 3 || mp == 4 || mp == 5 || mp == 6 || mp == 7
        || mp == 8 || mp == 9 || mp == 10 || mp == 11);
}

/// The days before the year after `yoe + 400 * era`.
proof fn lemma_days_before_next_year(yoe: int, era: int, year: int)
    requires
        0 <= yoe <= 399,
        0 <= era,
        year == yoe + era * 400,
    ensures
        days_before_year(year + 1) == 146_097 * era + 365 * yoe + yoe / 4 - yoe / 100,
        days_before_year(year + 1) == days_before_year(year) + 365 + leap_day(year),
        is_leap(year + 1) <==> (yoe % 4 == 3 && (yoe % 100 != 99 || yoe == 399)),
{
    assert(year / 4 == yoe / 4 + era * 100);
    assert(year / 100 == yoe / 100 + era * 4);
    assert(year / 400 == era);
    lemma_leap_step(year);
    assert((year + 1) % 4 == (yoe + 1) % 4);
    assert((year + 1) % 100 == (yoe + 1) % 100);
    assert((year + 1) % 400 == (yoe + 1) % 400);
}

proof fn lemma_leap_step(year: int)
    ensures
        year / 4 - (year - 1) / 4 == (if year % 4 == 0 {
            1int
        } else {
            0
        }),
        year / 100 - (year - 1) / 100 == (if year % 100 == 0 {
            1int
        } else {
            0
        }),
        year / 400 - (year - 1) / 400 == (if year % 400 == 0 {
            1int
        } else {
            0
        }),
        year % 400 == 0 ==> year % 100 == 0,
        year % 100 == 0 ==> year % 4 == 0,
{
}

/// The date of the day `days` days after the first of January 1970.
pub fn civil_from_days(days: u64) -> (r: (u64, u64, u64))
    requires
        days <= 300_000_000_000_000,
    ensures
        valid_date(r.0 as int, r.1 as int, r.2 as int),
        day_number(r.0 as int, r.1 as int, r.2 as int) == days,
        r.0 <= 1_000_000_000_000,
{
    let z: u64 = days + 719_468;
    let era: u64 = z / 146_097;
    let doe: u64 = z % 146_097;
    assert(doe / 1_460 <= 100 && doe / 146_096 <= 1);
    let yoe: u64 = (doe - doe / 1_460 + doe / 36_524 - doe / 146_096) / 365;
    proof {
        lemma_year_of_era(doe as int, yoe as int);
    }
    let year: u64 = yoe + era * 400;
    let doy: u64 = doe - (365 * yoe + yoe / 4 - yoe / 100);
    let mp: u64 = (5 * doy + 2) / 153;
    assert(mp <= 11);
    let d: u64 = doy - (153 * mp + 2) / 5 + 1;
    let m: u64 = if mp < 10 {
        mp + 3
    } else {
        mp - 9
    };
    let y: u64 = if m <= 2 {
        year + 1
    } else {
        year
    };
    proof {
        lemma_days_before_next_year(yoe as int, era as int, year as int);
        lemma_month_of_year(year as int, doy as int, mp as int, d as int, m as int, y as int);
        assert(146_097 * era + doe == days + 719_468);
    }
    (y, m, d)
}

// ---------------------------------------------------------------------------
// Release names
// ---------------------------------------------------------------------------

/// The name of a release made `seconds` and `nanos` after the Unix epoch, on
/// the date `year`-`month`-`day`.
pub open spec fn release_name(
    year: nat,
    month: nat,
    day: nat,
    seconds: nat,
    nanos: nat,
) -> Seq<char> {
    padded(year, 4) + padded(month, 2) + padded(day, 2) + "-"@
        + padded((seconds % 86_400) / 3_600, 2)
        + padded((seconds % 3_600) / 60, 2) + padded(seconds % 60, 2) + "-"@ + padded(nanos, 9)
}

/// `text` is the name of a release made `seconds` and `nanos` after the Unix
/// epoch: the date, the time of day and the nanoseconds, in UTC.
pub open spec fn names_release(text: Seq<char>, seconds: nat, nanos: nat) -> bool {
    exists|year: nat, month: nat, day: nat|
        {
            &&& valid_date(year as int, month as int, day as int)
            &&& day_number(year as int, month as int, day as int) == seconds / 86_400
            &&& text == #[trigger] release_name(year, month, day, seconds, nanos)
        }
}

proof fn lemma_padded_plain(value: nat, width: nat)
    ensures
        all_digits(padded(value, width)),
        padded(value, width).len() >= width,
        padded(value, width).len() == width || padded(value, width) == decimal(value),
{
    lemma_decimal_digits(value);
    let digits = decimal(value);
    assert forall|i: int| 0 <= i < padded(value, width).len() implies is_digit(
        #[trigger] padded(value, width)[i],
    ) by {
        if digits.len() < width && i >= width - digits.len() {
            assert(padded(value, width)[i] == digits[i - (width - digits.len())]);
        }
    }
}

proof fn lemma_release_name_is_identifier(
    year: nat,
    month: nat,
    day: nat,
    seconds: nat,
    nanos: nat,
)
    requires
        year <= 1_000_000_000_000,
        month <= 12,
        day <= 31,
        nanos < 1_000_000_000,
    ensures
        valid_identifier(release_name(year, month, day, seconds, nanos)),
{
    reveal_strlit("-");
    reveal_strlit("_-");
    let text = release_name(year, month, day, seconds, nanos);
    let a = padded(year, 4);
    let b = padded(month, 2);
    let c = padded(day, 2);
    let h = padded((seconds % 86_400) / 3_600, 2);
    let m = padded((seconds % 3_600) / 60, 2);
    let s = padded(seconds % 60, 2);
    let n = padded(nanos, 9);
    lemma_padded_plain(year, 4);
    lemma_padded_plain(month, 2);
    lemma_padded_plain(day, 2);
    lemma_padded_plain((seconds % 86_400) / 3_600, 2);
    lemma_padded_plain((seconds % 3_600) / 60, 2);
    lemma_padded_plain(seconds % 60, 2);
    lemma_padded_plain(nanos, 9);
    lemma_pow10();
    lemma_decimal_len(year, 13);
    lemma_decimal_len(month, 2);
    lemma_decimal_len(day, 2);
    lemma_decimal_len((seconds % 86_400) / 3_600, 2);
    lemma_decimal_len((seconds % 3_600) / 60, 2);
    lemma_decimal_len(seconds % 60, 2);
    lemma_decimal_len(nanos, 9);
    assert(text.len() <= 40);
    assert forall|i: int| 0 <= i < text.len() implies is_digit(#[trigger] text[i]) || text[i]
        == '-' by {
        let p1 = a + b;
        let p2 = p1 + c;
        let p3 = p2 + "-"@;
        let p4 = p3 + h;
        let p5 = p4 + m;
        let p6 = p5 + s;
        let p7 = p6 + "-"@;
        if i < a.len() {
            assert(text[i] == a[i]);
        } else if i < p1.len() {
            assert(text[i] == b[i - a.len()]);
        } else if i < p2.len() {
            assert(text[i] == c[i - p1.len()]);
        } else if i < p3.len() {
            assert(text[i] == '-');
        } else if i < p4.len() {
            assert(text[i] == h[i - p3.len()]);
        } else if i < p5.len() {
            assert(text[i] == m[i - p4.len()]);
        } else if i < p6.len() {
            assert(text[i] == s[i - p5.len()]);
        } else if i < p7.len() {
            assert(text[i] == '-');
        } else {
            assert(text[i] == n[i - p7.len()]);
        }
    }
    assert("_-"@[1] == '-');
    assert forall|i: int| 0 <= i < text.len() implies is_alphanumeric(#[trigger] text[i])
        || "_-"@.contains(text[i]) by {
        assert(is_digit(text[i]) || text[i] == '-');
    }
    assert(is_ascii_chars(text)) by {
        assert forall|i: int| 0 <= i < text.len() implies '\0' <= #[trigger] text[i] <= '\u{7f}' by {
            assert(is_digit(text[i]) || text[i] == '-');
        }
    }
    is_ascii_chars_encode_utf8(text);
    assert(text[0] == a[0]);
}

proof fn lemma_pow10()
    ensures
        vstd::arithmetic::power::pow(10, 2) == 100,
        vstd::arithmetic::power::pow(10, 4) == 10_000,
        vstd::arithmetic::power::pow(10, 9) == 1_000_000_000,
        vstd::arithmetic::power::pow(10, 13) == 10_000_000_000_000,
{
    reveal_with_fuel(vstd::arithmetic::power::pow, 14);
}

/// The name of a release made at a time: seconds and nanoseconds since the
/// Unix epoch.
pub fn release_id(seconds: u64, nanos: u32) -> (r: String)
    ensures
        names_release(r@, seconds as nat, nanos as nat),
        nanos < 1_000_000_000 ==> valid_identifier(r@),
{
    let days: u64 = seconds / 86_400;
    let (year, month, day) = civil_from_days(days);
    proof {
        if nanos < 1_000_000_000 {
            lemma_release_name_is_identifier(
                year as nat,
                month as nat,
                day as nat,
                seconds as nat,
                nanos as nat,
            );
        }
    }
    let r = padded_text(year, 4).concat(padded_text(month, 2).as_str()).concat(
        padded_text(day, 2).as_str(),
    ).concat("-").concat(padded_text((seconds % 86_400) / 3_600, 2).as_str()).concat(
        padded_text((seconds % 3_600) / 60, 2).as_str(),
    ).concat(padded_text(seconds % 60, 2).as_str()).concat("-").concat(
        padded_text(nanos as u64, 9).as_str(),
    );
    assert(r@ == release_name(year as nat, month as nat, day as nat, seconds as nat, nanos as nat));
    r
}

// ---------------------------------------------------------------------------
// The order of release names
// ---------------------------------------------------------------------------

/// A date comes before another.
spec fn earlier(a: (int, int, int), b: (int, int, int)) -> bool {
    a.0 < b.0 || (a.0 == b.0 && (a.1 < b.1 || (a.1 == b.1 && a.2 < b.2)))
}

proof fn lemma_years_grow(a: int, b: int)
    requires
        1 <= a < b,
    ensures
        days_before_year(a) + 365 + leap_day(a) <= days_before_year(b),
    decreases b - a,
{
    lemma_leap_step(b - 1);
    if a < b - 1 {
        lemma_years_grow(a, b - 1);
    }
}

/// A date falls into its year.
proof fn lemma_date_in_year(year: int, month: int, day: int)
    requires
        valid_date(year, month, day),
    ensures
        0 <= days_before_month(year, month) + day - 1 < 365 + leap_day(year),
{
    lemma_months(year);
    assert(month == 1 || month == 2 || month == 3 || month == 4 || month == 5 || month == 6
        || month == 7 || month == 8 || month == 9 || month == 10 || month == 11 || month == 12);
}

proof fn lemma_months_grow(year: int, a: int, b: int)
    requires
        1 <= a < b <= 12,
    ensures
        days_before_month(year, a) + days_in_month(year, a) <= days_before_month(year, b),
    decreases b - a,
{
    if a < b - 1 {
        lemma_months_grow(year, a, b - 1);
    }
}

/// An earlier date has a smaller number.
proof fn lemma_day_number_grows(a: (int, int, int), b: (int, int, int))
    requires
        valid_date(a.0, a.1, a.2),
        valid_date(b.0, b.1, b.2),
        1 <= a.0,
        1 <= b.0,
        earlier(a, b),
    ensures
        day_number(a.0, a.1, a.2) < day_number(b.0, b.1, b.2),
{
    if a.0 < b.0 {
        lemma_years_grow(a.0, b.0);
        lemma_date_in_year(a.0, a.1, a.2);
        lemma_date_in_year(b.0, b.1, b.2);
    } else if a.1 < b.1 {
        lemma_months_grow(a.0, a.1, b.1);
    }
}

/// A day from 1970 on, and before the year 10000, has a year of four digits.
proof fn lemma_year_of_day(year: int, month: int, day: int)
    requires
        valid_date(year, month, day),
        0 <= year,
        0 <= day_number(year, month, day) < 2_932_897,
    ensures
        1970 <= year <= 9999,
{
    lemma_date_in_year(year, month, day);
    if year >= 10_000 {
        assert(days_before_year(10_000) == 3_652_059);
        if year > 10_000 {
            lemma_years_grow(10_000, year);
        }
    }
    if year < 1970 {
        assert(days_before_year(1970) == 719_162);
        if year == 0 {
            assert(days_before_year(0) == -366);
        } else {
            lemma_years_grow(year, 1970);
        }
    }
}

proof fn lemma_padded_len(value: nat, width: nat)
    requires
        width > 0,
        value < vstd::arithmetic::power::pow(10, width),
    ensures
        padded(value, width).len() == width,
{
    lemma_decimal_len(value, width);
}

/// Three numbers, written with a fixed number of digits each, are ordered as the
/// numbers are.
proof fn lemma_three_in_order(a: (nat, nat, nat), b: (nat, nat, nat), width: nat)
    requires
        padded(a.0, width).len() == width,
        padded(b.0, width).len() == width,
        padded(a.1, 2).len() == 2,
        padded(b.1, 2).len() == 2,
        padded(a.2, 2).len() == 2,
        padded(b.2, 2).len() == 2,
        earlier((a.0 as int, a.1 as int, a.2 as int), (b.0 as int, b.1 as int, b.2 as int)),
    ensures
        text_before(
            padded(a.0, width) + padded(a.1, 2) + padded(a.2, 2),
            padded(b.0, width) + padded(b.1, 2) + padded(b.2, 2),
        ),
{
    let (p, q, s) = (padded(a.0, width), padded(a.1, 2), padded(a.2, 2));
    let (t, u, v) = (padded(b.0, width), padded(b.1, 2), padded(b.2, 2));
    if a.0 < b.0 {
        lemma_padded_order(a.0, b.0, width);
        lemma_before_extended(p, t, q, u);
        lemma_before_extended(p + q, t + u, s, v);
    } else if a.1 < b.1 {
        lemma_padded_order(a.1, b.1, 2);
        lemma_before_behind(p, q, u);
        lemma_before_extended(p + q, t + u, s, v);
    } else {
        lemma_padded_order(a.2, b.2, 2);
        lemma_before_behind(p + q, s, v);
    }
}

spec fn date_text(year: nat, month: nat, day: nat) -> Seq<char> {
    padded(year, 4) + padded(month, 2) + padded(day, 2)
}

spec fn time_text(seconds: nat) -> Seq<char> {
    padded((seconds % 86_400) / 3_600, 2) + padded((seconds % 3_600) / 60, 2) + padded(
        seconds % 60,
        2,
    )
}

/// The parts of a release name all have their fixed length.
proof fn lemma_parts_of_name(year: nat, month: nat, day: nat, seconds: nat, nanos: nat)
    requires
        year <= 9999,
        month <= 12,
        day <= 31,
        nanos < 1_000_000_000,
    ensures
        release_name(year, month, day, seconds, nanos) == date_text(year, month, day) + ("-"@ + (
        time_text(seconds) + ("-"@ + padded(nanos, 9)))),
        padded(year, 4).len() == 4,
        padded(month, 2).len() == 2,
        padded(day, 2).len() == 2,
        padded((seconds % 86_400) / 3_600, 2).len() == 2,
        padded((seconds % 3_600) / 60, 2).len() == 2,
        padded(seconds % 60, 2).len() == 2,
        padded(nanos, 9).len() == 9,
        release_name(year, month, day, seconds, nanos).len() == 25,
{
    reveal_strlit("-");
    lemma_pow10();
    lemma_padded_len(year, 4);
    lemma_padded_len(month, 2);
    lemma_padded_len(day, 2);
    lemma_padded_len((seconds % 86_400) / 3_600, 2);
    lemma_padded_len((seconds % 3_600) / 60, 2);
    lemma_padded_len(seconds % 60, 2);
    lemma_padded_len(nanos, 9);
    assert(release_name(year, month, day, seconds, nanos) =~= date_text(year, month, day) + ("-"@
        + (time_text(seconds) + ("-"@ + padded(nanos, 9)))));
}

/// Before the year 10000 a release name has 25 bytes, all of them ASCII.
pub proof fn lemma_release_name_has_25_bytes(text: Seq<char>, seconds: nat, nanos: nat)
    requires
        names_release(text, seconds, nanos),
        seconds < 253_402_300_800,
        nanos < 1_000_000_000,
    ensures
        is_ascii_chars(text),
        text.len() == 25,
        encode_utf8(text).len() == 25,
{
    let (year, month, day) = choose|year: nat, month: nat, day: nat|
        {
            &&& valid_date(year as int, month as int, day as int)
            &&& day_number(year as int, month as int, day as int) == seconds / 86_400
            &&& text == #[trigger] release_name(year, month, day, seconds, nanos)
        };
    lemma_year_of_day(year as int, month as int, day as int);
    lemma_parts_of_name(year, month, day, seconds, nanos);
    lemma_release_name_is_identifier(year, month, day, seconds, nanos);
    lemma_identifier_is_ascii(text);
    is_ascii_chars_encode_utf8(text);
}

/// Of two releases made at different times, before the year 10000, the later one
/// has the name that comes later, in the order of texts and of bytes.
pub proof fn lemma_release_names_sort_by_time(
    a: Seq<char>,
    first: (nat, nat),
    b: Seq<char>,
    second: (nat, nat),
)
    requires
        names_release(a, first.0, first.1),
        names_release(b, second.0, second.1),
        first.1 < 1_000_000_000,
        second.1 < 1_000_000_000,
        first.0 < second.0 || (first.0 == second.0 && first.1 < second.1),
        second.0 < 253_402_300_800,
    ensures
        text_before(a, b),
        bytes_before(encode_utf8(a), encode_utf8(b)),
{
    lemma_release_name_has_25_bytes(a, first.0, first.1);
    lemma_release_name_has_25_bytes(b, second.0, second.1);
    lemma_order_of_bytes(a, b);
    let (y1, m1, d1) = choose|year: nat, month: nat, day: nat|
        {
            &&& valid_date(year as int, month as int, day as int)
            &&& day_number(year as int, month as int, day as int) == first.0 / 86_400
            &&& a == #[trigger] release_name(year, month, day, first.0, first.1)
        };
    let (y2, m2, d2) = choose|year: nat, month: nat, day: nat|
        {
            &&& valid_date(year as int, month as int, day as int)
            &&& day_number(year as int, month as int, day as int) == second.0 / 86_400
            &&& b == #[trigger] release_name(year, month, day, second.0, second.1)
        };
    lemma_year_of_day(y1 as int, m1 as int, d1 as int);
    lemma_year_of_day(y2 as int, m2 as int, d2 as int);
    lemma_parts_of_name(y1, m1, d1, first.0, first.1);
    lemma_parts_of_name(y2, m2, d2, second.0, second.1);
    let day1 = (y1 as int, m1 as int, d1 as int);
    let day2 = (y2 as int, m2 as int, d2 as int);
    let rest1 = "-"@ + (time_text(first.0) + ("-"@ + padded(first.1, 9)));
    let rest2 = "-"@ + (time_text(second.0) + ("-"@ + padded(second.1, 9)));
    if earlier(day2, day1) {
        lemma_day_number_grows(day2, day1);
    }
    if earlier(day1, day2) {
        lemma_three_in_order((y1, m1, d1), (y2, m2, d2), 4);
        lemma_before_extended(date_text(y1, m1, d1), date_text(y2, m2, d2), rest1, rest2);
    } else {
        assert(day1 == day2);
        assert(first.0 / 86_400 == second.0 / 86_400);
        lemma_later_in_the_day(first, second);
        lemma_before_behind(date_text(y1, m1, d1), rest1, rest2);
    }
}

/// The rest of a release name, on one day.
proof fn lemma_later_in_the_day(first: (nat, nat), second: (nat, nat))
    requires
        first.0 / 86_400 == second.0 / 86_400,
        first.0 < second.0 || (first.0 == second.0 && first.1 < second.1),
        padded((first.0 % 86_400) / 3_600, 2).len() == 2,
        padded((first.0 % 3_600) / 60, 2).len() == 2,
        padded(first.0 % 60, 2).len() == 2,
        padded((second.0 % 86_400) / 3_600, 2).len() == 2,
        padded((second.0 % 3_600) / 60, 2).len() == 2,
        padded(second.0 % 60, 2).len() == 2,
        padded(first.1, 9).len() == 9,
        padded(second.1, 9).len() == 9,
    ensures
        text_before(
            "-"@ + (time_text(first.0) + ("-"@ + padded(first.1, 9))),
            "-"@ + (time_text(second.0) + ("-"@ + padded(second.1, 9))),
        ),
{
    let tail1 = "-"@ + padded(first.1, 9);
    let tail2 = "-"@ + padded(second.1, 9);
    if first.0 < second.0 {
        let t1 = (
            (first.0 % 86_400) / 3_600,
            (first.0 % 3_600) / 60,
            first.0 % 60,
        );
        let t2 = (
            (second.0 % 86_400) / 3_600,
            (second.0 % 3_600) / 60,
            second.0 % 60,
        );
        lemma_clock(first.0);
        lemma_clock(second.0);
        lemma_three_in_order(t1, t2, 2);
        lemma_before_extended(time_text(first.0), time_text(second.0), tail1, tail2);
    } else {
        lemma_padded_order(first.1, second.1, 9);
        lemma_before_behind("-"@, padded(first.1, 9), padded(second.1, 9));
        lemma_before_behind(time_text(first.0), tail1, tail2);
    }
    lemma_before_behind("-"@, time_text(first.0) + tail1, time_text(second.0) + tail2);
}

/// The hour, the minute and the second make up the time of day.
proof fn lemma_clock(seconds: nat)
    ensures
        seconds % 86_400 == ((seconds % 86_400) / 3_600) * 3_600 + ((seconds % 3_600) / 60) * 60
            + seconds % 60,
        (seconds % 3_600) / 60 < 60,
        seconds % 60 < 60,
{
    assert((seconds % 86_400) % 3_600 == seconds % 3_600);
    assert((seconds % 3_600) % 60 == seconds % 60);
}

} // verus!
