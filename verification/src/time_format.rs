//! Locale-dependent rendering of timestamps.
use vstd::arithmetic::div_mod::{
    lemma_div_denominator, lemma_div_multiples_vanish_fancy, lemma_hoist_over_denominator, lemma_mod_multiples_vanish, lemma_fundamental_div_mod, lemma_fundamental_div_mod_converse,
    lemma_mod_pos_bound,
};
use crate::text::{
    ascii_lower, decimal, decimal_pad2, push_decimal, push_decimal_pad2, push_signed_decimal,
    push_str, signed_decimal, starts_with, starts_with_text, to_ascii_lowercase,
};
use crate::types::TimestampMillis;
use vstd::prelude::*;

verus! {

#[derive(Debug, Clone, Copy, PartialEq, Eq, Structural)]
pub enum DateTimeFormatStyle {
    EnUs,
    EnGb,
    Iso8601,
    JaJp,
}

/// The style for a lower-cased locale tag.
pub open spec fn locale_style(lower: Seq<char>) -> DateTimeFormatStyle {
    if starts_with(lower, "en-us"@) {
        DateTimeFormatStyle::EnUs
    } else if starts_with(lower, "ja"@) {
        DateTimeFormatStyle::JaJp
    } else if starts_with(lower, "en-gb"@) || starts_with(lower, "en-au"@) || starts_with(
        lower,
        "en-in"@,
    ) {
        DateTimeFormatStyle::EnGb
    } else {
        DateTimeFormatStyle::Iso8601
    }
}

/// Division of `a` by `b > 0` rounding toward zero, as Rust's `/` does.
pub open spec fn trunc_div(a: int, b: int) -> int {
    if a >= 0 {
        a / b
    } else {
        -((-a) / b)
    }
}

/// `x` where it fits in an `i32`, else the nearest bound.
pub open spec fn clamp_i32(x: int) -> int {
    if x < i32::MIN {
        i32::MIN as int
    } else if x > i32::MAX {
        i32::MAX as int
    } else {
        x
    }
}

/// `x` where it fits in a `u32`, else 0.
pub open spec fn u32_or_zero(x: int) -> int {
    if 0 <= x <= u32::MAX {
        x
    } else {
        0
    }
}

/// Year, month and day of a count of days since 1970-01-01, by the proleptic
/// Gregorian calendar in 400-year eras of 146097 days, with years starting on
/// 1 March. `lemma_civil_from_days_is_the_calendar_date` shows that this is the
/// calendar date: a valid date whose `days_from_civil` is the count.
pub open spec fn civil_from_days_spec(days: int) -> (int, int, int) {
    let z = days + 719_468;
    let era = floor_div(z, 146_097);
    let day_of_era = z - era * 146_097;
    let year_of_era = (day_of_era - day_of_era / 1_460 + day_of_era / 36_524 - day_of_era / 146_096)
        / 365;
    let day_of_year = day_of_era - (365 * year_of_era + year_of_era / 4 - year_of_era / 100);
    let month_prime = trunc_div(5 * day_of_year + 2, 153);
    let day = day_of_year - trunc_div(153 * month_prime + 2, 5) + 1;
    let month = month_prime + if month_prime < 10 { 3int } else { -9int };
    let year = year_of_era + era * 400 + if month <= 2 { 1int } else { 0int };
    (clamp_i32(year), u32_or_zero(month), u32_or_zero(day))
}

/// The day within its year (counted from 1 March) of a day within a 400-year era.
proof fn lemma_day_of_year_in_range(doe: int)
    requires
        0 <= doe <= 146_096,
    ensures
        ({
            let yoe = (doe - doe / 1_460 + doe / 36_524 - doe / 146_096) / 365;
            let doy = doe - (365 * yoe + yoe / 4 - yoe / 100);
            &&& 0 <= doy <= 365
            &&& 0 <= yoe <= 399
            &&& doy == 365 ==> is_leap_year(yoe + 1)
        }),
{
    if doe < 146_096 {
        let c = doe / 36_524;
        let e = doe % 36_524;
        let q = e / 1_461;
        let f = e % 1_461;
        assert(doe == 36_524 * c + e && 0 <= e < 36_524);
        assert(e == 1_461 * q + f && 0 <= f < 1_461);
        assert(0 <= c <= 3);
        assert(0 <= q <= 24);
        let g = 24 * c + q + f;
        assert(doe == 1_460 * (25 * c + q) + g);
        let adj: int = if g >= 1_460 { 1 } else { 0 };
        assert(doe / 1_460 == 25 * c + q + adj);
        assert(doe / 146_096 == 0);
        let t = f - adj;
        assert(0 <= t <= 1_459);
        let k = t / 365;
        assert(0 <= k <= 3);
        let a = doe - doe / 1_460 + doe / 36_524 - doe / 146_096;
        assert(a == 365 * (100 * c + 4 * q) + t);
        let yoe = a / 365;
        assert(yoe == 100 * c + 4 * q + k);
        assert(yoe / 4 == 25 * c + q);
        assert(yoe / 100 == c);
        let doy = doe - (365 * yoe + yoe / 4 - yoe / 100);
        assert(doy == f - 365 * k);
        if doy == 365 {
            assert(f == 1_460 && k == 3);
            assert(q <= 23);
            assert((yoe + 1) % 4 == 0);
            assert((yoe + 1) % 100 != 0);
        }
    } else {
        let yoe = (doe - doe / 1_460 + doe / 36_524 - doe / 146_096) / 365;
        assert(yoe == 399);
    }
}

/// Whether a year of the proleptic Gregorian calendar has 366 days.
pub open spec fn is_leap_year(y: int) -> bool {
    (y % 4 == 0 && y % 100 != 0) || y % 400 == 0
}

/// The number of days in a month of a year.
pub open spec fn days_in_month(y: int, m: int) -> int {
    if m == 2 {
        if is_leap_year(y) {
            29
        } else {
            28
        }
    } else if m == 4 || m == 6 || m == 9 || m == 11 {
        30
    } else {
        31
    }
}

/// The days of the year before the first of month `m`.
pub open spec fn days_before_month(y: int, m: int) -> int {
    let common: int = if m == 1 {
        0
    } else if m == 2 {
        31
    } else if m == 3 {
        59
    } else if m == 4 {
        90
    } else if m == 5 {
        120
    } else if m == 6 {
        151
    } else if m == 7 {
        181
    } else if m == 8 {
        212
    } else if m == 9 {
        243
    } else if m == 10 {
        273
    } else if m == 11 {
        304
    } else {
        334
    };
    common + if m > 2 && is_leap_year(y) { 1int } else { 0int }
}

/// The number of leap years before year `y`, counted from a fixed origin.
pub open spec fn leap_years_before(y: int) -> int {
    (y - 1) / 4 - (y - 1) / 100 + (y - 1) / 400
}

/// The days from 1 January 1970 to 1 January of year `y` (negative before 1970).
pub open spec fn days_before_year(y: int) -> int {
    365 * (y - 1970) + leap_years_before(y) - leap_years_before(1970)
}

/// The days from 1 January 1970 to the date.
pub open spec fn days_from_civil(y: int, m: int, d: int) -> int {
    days_before_year(y) + days_before_month(y, m) + d - 1
}

/// The days to 1 March of the year `400 * era + yoe`, counted as the era algorithm
/// counts them.
proof fn lemma_march_first(era: int, yoe: int)
    requires
        0 <= yoe <= 399,
    ensures
        days_before_year(400 * era + yoe) + 59 + (if is_leap_year(400 * era + yoe) { 1int } else { 0int })
            == era * 146_097 + 365 * yoe + yoe / 4 - yoe / 100 - 719_468,
{
    let y = 400 * era + yoe;
    assert((y - 1) / 4 == (yoe - 1) / 4 + 100 * era) by {
        lemma_hoist_over_denominator(yoe - 1, 100 * era, 4);
    }
    assert((y - 1) / 100 == (yoe - 1) / 100 + 4 * era) by {
        lemma_hoist_over_denominator(yoe - 1, 4 * era, 100);
    }
    assert((y - 1) / 400 == (yoe - 1) / 400 + era) by {
        lemma_hoist_over_denominator(yoe - 1, era, 400);
    }
    assert(y % 4 == yoe % 4) by {
        lemma_mod_multiples_vanish(100 * era, yoe, 4);
    }
    assert(y % 100 == yoe % 100) by {
        lemma_mod_multiples_vanish(4 * era, yoe, 100);
    }
    assert(y % 400 == yoe % 400) by {
        lemma_mod_multiples_vanish(era, yoe, 400);
    }
    assert(leap_years_before(1970) == 477);
    lemma_leaps_in_era(yoe);
}

/// Leap years before year `t` of an era, with `t` itself if it is one.
proof fn lemma_leaps_in_era(t: int)
    requires
        0 <= t <= 399,
    ensures
        leap_years_before(t) + (if is_leap_year(t) { 1int } else { 0int }) == t / 4 - t / 100,
{
    assert((t - 1) / 400 + (if t % 400 == 0 { 1int } else { 0int }) == 0);
    assert((t - 1) / 4 + (if t % 4 == 0 { 1int } else { 0int }) == t / 4);
    assert((t - 1) / 100 + (if t % 100 == 0 { 1int } else { 0int }) == t / 100);
}

/// One step up in floor division: it grows by one exactly at a multiple.
proof fn lemma_div_step(x: int, d: int)
    requires
        d > 0,
    ensures
        (x + 1) / d == x / d + (if (x + 1) % d == 0 { 1int } else { 0int }),
{
    let q = x / d;
    let r = x % d;
    lemma_fundamental_div_mod(x, d);
    lemma_mod_pos_bound_int(x, d);
    assert(x == d * q + r);
    if r + 1 < d {
        lemma_div_multiples_vanish_fancy(q, r + 1, d);
        lemma_mod_multiples_vanish(q, r + 1, d);
        assert(x + 1 == d * q + (r + 1));
        lemma_fundamental_div_mod_converse(r + 1, d, 0, r + 1);
        assert((x + 1) / d == q);
        assert((x + 1) % d == r + 1);
    } else {
        lemma_div_multiples_vanish_fancy(q + 1, 0, d);
        lemma_mod_multiples_vanish(q + 1, 0, d);
        assert(x + 1 == d * (q + 1) + 0) by (nonlinear_arith)
            requires x == d * q + r, r + 1 == d;
        assert((x + 1) / d == q + 1);
        assert((x + 1) % d == 0);
    }
}

/// `x % d` of a positive divisor lies in `0..d`.
proof fn lemma_mod_pos_bound_int(x: int, d: int)
    requires
        d > 0,
    ensures
        0 <= x % d < d,
{
}

/// The year after `y` starts `365` days later, `366` after a leap year.
proof fn lemma_next_year(y: int)
    ensures
        days_before_year(y + 1) == days_before_year(y) + 365 + if is_leap_year(y) { 1int } else { 0int },
{
    lemma_div_step(y - 1, 4);
    lemma_div_step(y - 1, 100);
    lemma_div_step(y - 1, 400);
}

/// Every date the calendar yields names a real month, from 1 to 12, and a day from
/// 1 to 31.
pub proof fn lemma_calendar_date_in_range(days: int)
    ensures
        1 <= civil_from_days_spec(days).1 <= 12,
        1 <= civil_from_days_spec(days).2 <= 31,
{
    let z = days + 719_468;
    let era = floor_div(z, 146_097);
    let day_of_era = z - era * 146_097;
    lemma_fundamental_div_mod(z, 146_097);
    assert(0 <= day_of_era <= 146_096);
    lemma_day_of_year_in_range(day_of_era);
    let year_of_era = (day_of_era - day_of_era / 1_460 + day_of_era / 36_524 - day_of_era
        / 146_096) / 365;
    let day_of_year = day_of_era - (365 * year_of_era + year_of_era / 4 - year_of_era / 100);
    assert(0 <= day_of_year <= 365);
    let month_prime = trunc_div(5 * day_of_year + 2, 153);
    assert(month_prime == (5 * day_of_year + 2) / 153);
    assert(0 <= month_prime <= 11);
    let day = day_of_year - trunc_div(153 * month_prime + 2, 5) + 1;
    assert(153 * month_prime <= 5 * day_of_year + 2 < 153 * month_prime + 153);
    assert(1 <= day <= 31);
}

/// The calendar's date is the date that many days after 1 January 1970 in the
/// proleptic Gregorian calendar: a real month, a day within that month, and a day
/// count from 1970-01-01 equal to `days` (for every day count whose year fits in an
/// `i32`).
pub proof fn lemma_civil_from_days_is_the_calendar_date(days: int)
    requires
        -700_000_000_000 <= days <= 700_000_000_000,
    ensures
        ({
            let (y, m, d) = civil_from_days_spec(days);
            &&& 1 <= m <= 12
            &&& 1 <= d <= days_in_month(y, m)
            &&& days_from_civil(y, m, d) == days
        }),
{
    let z = days + 719_468;
    let era = floor_div(z, 146_097);
    let doe = z - era * 146_097;
    lemma_fundamental_div_mod(z, 146_097);
    assert(0 <= doe <= 146_096);
    assert(-4_800_000 <= era <= 4_800_000);
    lemma_day_of_year_in_range(doe);
    let yoe = (doe - doe / 1_460 + doe / 36_524 - doe / 146_096) / 365;
    let doy = doe - (365 * yoe + yoe / 4 - yoe / 100);
    let mp = trunc_div(5 * doy + 2, 153);
    assert(mp == (5 * doy + 2) / 153);
    assert(153 * mp <= 5 * doy + 2 < 153 * mp + 153);
    assert(0 <= mp <= 11);
    let start = trunc_div(153 * mp + 2, 5);
    assert(start == (153 * mp + 2) / 5);
    let day = doy - start + 1;
    let month = mp + if mp < 10 { 3int } else { -9int };
    let y0 = 400 * era + yoe;
    let year = yoe + era * 400 + if month <= 2 { 1int } else { 0int };
    assert(civil_from_days_spec(days) == (year, month, day));
    lemma_march_first(era, yoe);
    if mp < 10 {
        assert(year == y0);
        assert(days_before_month(year, month) == 59 + start + if is_leap_year(y0) { 1int } else { 0int });
        assert(1 <= day <= days_in_month(year, month));
    } else {
        assert(year == y0 + 1);
        lemma_next_year(y0);
        assert(days_before_month(year, month) + 306 == start);
        if doy == 365 {
            assert(is_leap_year(yoe + 1));
            lemma_mod_multiples_vanish(100 * era, yoe + 1, 4);
            lemma_mod_multiples_vanish(4 * era, yoe + 1, 100);
            lemma_mod_multiples_vanish(era, yoe + 1, 400);
            assert(is_leap_year(year));
        }
        assert(1 <= day <= days_in_month(year, month));
    }
}

/// Minutes since the epoch in local time: the timestamp (capped at `i128::MAX`)
/// in whole minutes, shifted by the offset.
pub open spec fn local_minutes_of(ts: nat, utc_offset_minutes: int) -> int {
    (if ts <= i128::MAX { ts as int } else { i128::MAX as int }) / 60_000 + utc_offset_minutes
}

pub open spec fn local_day(ts: nat, utc_offset_minutes: int) -> int {
    floor_div(local_minutes_of(ts, utc_offset_minutes), 1_440)
}

pub open spec fn minute_of_day_of(ts: nat, utc_offset_minutes: int) -> int {
    local_minutes_of(ts, utc_offset_minutes) - local_day(ts, utc_offset_minutes) * 1_440
}

pub open spec fn month_name(month: int) -> Seq<char> {
    if month == 1 {
        "Jan"@
    } else if month == 2 {
        "Feb"@
    } else if month == 3 {
        "Mar"@
    } else if month == 4 {
        "Apr"@
    } else if month == 5 {
        "May"@
    } else if month == 6 {
        "Jun"@
    } else if month == 7 {
        "Jul"@
    } else if month == 8 {
        "Aug"@
    } else if month == 9 {
        "Sep"@
    } else if month == 10 {
        "Oct"@
    } else if month == 11 {
        "Nov"@
    } else {
        "Dec"@
    }
}

/// The English month abbreviations, from January.
pub open spec fn english_month_abbreviations() -> Seq<Seq<char>> {
    seq![
        "Jan"@, "Feb"@, "Mar"@, "Apr"@, "May"@, "Jun"@, "Jul"@, "Aug"@, "Sep"@, "Oct"@, "Nov"@,
        "Dec"@,
    ]
}

/// Each month of the year is shown by its English three-letter abbreviation, and
/// different months by different names.
pub proof fn lemma_month_names_are_english_abbreviations(m: int, n: int)
    requires
        1 <= m <= 12,
        1 <= n <= 12,
    ensures
        month_name(m) == english_month_abbreviations()[m - 1],
        month_name(m).len() == 3,
        m != n ==> month_name(m) != month_name(n),
{
    reveal_strlit("Jan");
    reveal_strlit("Feb");
    reveal_strlit("Mar");
    reveal_strlit("Apr");
    reveal_strlit("May");
    reveal_strlit("Jun");
    reveal_strlit("Jul");
    reveal_strlit("Aug");
    reveal_strlit("Sep");
    reveal_strlit("Oct");
    reveal_strlit("Nov");
    reveal_strlit("Dec");
    let a = month_name(m);
    let b = month_name(n);
    if m != n {
        assert(a[0] != b[0] || a[1] != b[1] || a[2] != b[2]);
    }
}

/// The hour on a twelve-hour clock, and its suffix.
pub open spec fn hour_12_spec(hour: int) -> (int, Seq<char>) {
    (if hour % 12 == 0 { 12 } else { hour % 12 }, if hour < 12 { "AM"@ } else { "PM"@ })
}

/// The rendering of a date and time in a style.
pub open spec fn render(
    style: DateTimeFormatStyle,
    year: int,
    month: int,
    day: int,
    hour: int,
    minute: int,
) -> Seq<char> {
    match style {
        DateTimeFormatStyle::EnUs => month_name(month) + " "@ + decimal(day as nat) + ", "@
            + signed_decimal(year) + ", "@ + decimal(hour_12_spec(hour).0 as nat) + ":"@
            + decimal_pad2(minute as nat) + " "@ + hour_12_spec(hour).1,
        DateTimeFormatStyle::EnGb => decimal(day as nat) + " "@ + month_name(month) + " "@
            + signed_decimal(year) + ", "@ + decimal_pad2(hour as nat) + ":"@ + decimal_pad2(
            minute as nat,
        ),
        DateTimeFormatStyle::JaJp => signed_decimal(year) + "/"@ + decimal_pad2(month as nat)
            + "/"@ + decimal_pad2(day as nat) + " "@ + decimal_pad2(hour as nat) + ":"@
            + decimal_pad2(minute as nat),
        DateTimeFormatStyle::Iso8601 => signed_decimal(year) + "-"@ + decimal_pad2(month as nat)
            + "-"@ + decimal_pad2(day as nat) + " "@ + decimal_pad2(hour as nat) + ":"@
            + decimal_pad2(minute as nat),
    }
}

/// The timestamp rendered in the locale's style at the given UTC offset.
pub open spec fn formatted_timestamp(ts: nat, locale: Seq<char>, utc_offset_minutes: int) -> Seq<
    char,
> {
    let date = civil_from_days_spec(local_day(ts, utc_offset_minutes));
    let m = minute_of_day_of(ts, utc_offset_minutes);
    render(locale_style(ascii_lower(locale)), date.0, date.1, date.2, m / 60, m % 60)
}

/// Division rounding toward negative infinity.
pub open spec fn floor_div(a: int, b: int) -> int {
    if b > 0 {
        a / b
    } else {
        (-a) / (-b)
    }
}

/// The clock part of every formatted time is a real time of day: the hour lies in
/// 0..24 (1..=12 on a twelve-hour clock) and the minute in 0..60.
pub proof fn lemma_clock_in_range(ts: nat, utc_offset_minutes: int)
    ensures
        0 <= minute_of_day_of(ts, utc_offset_minutes) < 1_440,
        0 <= minute_of_day_of(ts, utc_offset_minutes) / 60 < 24,
        0 <= minute_of_day_of(ts, utc_offset_minutes) % 60 < 60,
        1 <= hour_12_spec(minute_of_day_of(ts, utc_offset_minutes) / 60).0 <= 12,
{
    let lm = local_minutes_of(ts, utc_offset_minutes);
    lemma_fundamental_div_mod(lm, 1_440);
    let m = minute_of_day_of(ts, utc_offset_minutes);
    assert(m == lm % 1_440);
    assert(0 <= lm % 1_440 < 1_440);
}

/// Relates Rust's truncating division by a positive divisor to floor division.
proof fn lemma_floor_div_from_truncation(a: int, b: int, q: int, r: int)
    requires
        b > 0,
        q == (if a >= 0 { a / b } else { -((-a) / b) }),
        r == (if a >= 0 { a % b } else { -((-a) % b) }),
    ensures
        floor_div(a, b) == (if r != 0 && (r > 0) != (b > 0) { q - 1 } else { q }),
{
    if a < 0 {
        let na = -a;
        let k = na / b;
        let s = na % b;
        assert(na == b * k + s) by { lemma_fundamental_div_mod(na, b); }
        assert(0 <= s < b) by { lemma_mod_pos_bound(na, b); }
        if s == 0 {
            assert(a == (-k) * b + 0) by (nonlinear_arith)
                requires na == b * k + s, na == -a, s == 0;
            lemma_fundamental_div_mod_converse(a, b, -k, 0);
        } else {
            assert(a == (-k - 1) * b + (b - s)) by (nonlinear_arith)
                requires na == b * k + s, na == -a;
            lemma_fundamental_div_mod_converse(a, b, -k - 1, b - s);
        }
    } else {
        assert(0 <= a % b < b) by { lemma_mod_pos_bound(a, b); }
    }
}

fn div_floor(left: i128, right: i128) -> (r: i128)
    requires
        right > 0,
    ensures
        r == floor_div(left as int, right as int),
{
    let quotient = left / right;
    let remainder = left % right;
    proof {
        lemma_floor_div_from_truncation(left as int, right as int, quotient as int, remainder as int);
    }
    if remainder != 0 && (remainder > 0) != (right > 0) {
        proof {
            let na = -(left as int);
            let b = right as int;
            assert(b >= 2);
            assert(na / b <= na / 2) by {
                vstd::arithmetic::div_mod::lemma_div_is_ordered_by_denominator(na, 2, b);
            }
            assert(na / 2 < 0x8000_0000_0000_0000_0000_0000_0000_0000) by (nonlinear_arith)
                requires na <= 0x8000_0000_0000_0000_0000_0000_0000_0000;
        }
        quotient - 1
    } else {
        quotient
    }
}


impl DateTimeFormatStyle {
    /// The style for a locale tag, matched case-insensitively by prefix.
    pub fn from_locale(locale: &str) -> (r: Self)
        ensures
            r == locale_style(ascii_lower(locale@)),
    {
        let normalized = to_ascii_lowercase(locale);
        if starts_with_text(normalized.as_str(), "en-us") {
            DateTimeFormatStyle::EnUs
        } else if starts_with_text(normalized.as_str(), "ja") {
            DateTimeFormatStyle::JaJp
        } else if starts_with_text(normalized.as_str(), "en-gb") || starts_with_text(
            normalized.as_str(),
            "en-au",
        ) || starts_with_text(normalized.as_str(), "en-in") {
            DateTimeFormatStyle::EnGb
        } else {
            DateTimeFormatStyle::Iso8601
        }
    }
}

fn hour_12(hour: u32) -> (r: (u32, &'static str))
    ensures
        r.0 == hour_12_spec(hour as int).0,
        r.1@ == hour_12_spec(hour as int).1,
{
    let suffix = if hour < 12 {
        "AM"
    } else {
        "PM"
    };
    let display_hour = match hour % 12 {
        0 => 12,
        value => value,
    };
    (display_hour, suffix)
}

fn month_name_short(month: u32) -> (r: &'static str)
    ensures
        r@ == month_name(month as int),
{
    match month {
        1 => "Jan",
        2 => "Feb",
        3 => "Mar",
        4 => "Apr",
        5 => "May",
        6 => "Jun",
        7 => "Jul",
        8 => "Aug",
        9 => "Sep",
        10 => "Oct",
        11 => "Nov",
        _ => "Dec",
    }
}


/// Rust's truncating division of `z - 146096` (for `z < 0`) is floor division of `z`.
proof fn lemma_era_floor(z: int)
    ensures
        floor_div(z, 146_097) == (if z >= 0 { z / 146_097 } else { -((146_096 - z) / 146_097) }),
        146_097 * floor_div(z, 146_097) <= z < 146_097 * floor_div(z, 146_097) + 146_097,
{
    let n: int = 146_097;
    lemma_fundamental_div_mod(z, n);
    lemma_mod_pos_bound_any(z, n);
    if z < 0 {
        let w = -z;
        let k = w / n;
        let s = w % n;
        lemma_fundamental_div_mod(w, n);
        lemma_mod_pos_bound(w, n);
        if s == 0 {
            assert(146_096 - z == k * n + 146_096) by (nonlinear_arith)
                requires w == n * k + s, s == 0, w == -z, n == 146_097;
            lemma_fundamental_div_mod_converse(146_096 - z, n, k, 146_096);
            assert(z == (-k) * n + 0) by (nonlinear_arith) requires w == n * k + s, s == 0, w == -z;
            lemma_fundamental_div_mod_converse(z, n, -k, 0);
        } else {
            assert(146_096 - z == (k + 1) * n + (s - 1)) by (nonlinear_arith)
                requires w == n * k + s, w == -z, n == 146_097;
            lemma_fundamental_div_mod_converse(146_096 - z, n, k + 1, s - 1);
            assert(z == (-k - 1) * n + (n - s)) by (nonlinear_arith) requires w == n * k + s, w == -z;
            lemma_fundamental_div_mod_converse(z, n, -k - 1, n - s);
        }
    }
}

proof fn lemma_mod_pos_bound_any(z: int, n: int)
    requires
        n > 0,
    ensures
        0 <= z % n < n,
{
    vstd::arithmetic::div_mod::lemma_mod_bound(z, n);
}

/// Year, month and day of a count of days since 1970-01-01.
fn civil_from_days(days_since_unix_epoch: i64) -> (r: (i32, u32, u32))
    requires
        days_since_unix_epoch <= i64::MAX - 719_468,
    ensures
        (r.0 as int, r.1 as int, r.2 as int) == civil_from_days_spec(days_since_unix_epoch as int),
{
    let adjusted_days = days_since_unix_epoch + 719_468;
    proof {
        lemma_era_floor(adjusted_days as int);
    }
    let era = (if adjusted_days >= 0 {
        adjusted_days
    } else {
        adjusted_days - 146_096
    }) / 146_097;
    let ghost e = floor_div(adjusted_days as int, 146_097);
    assert(era == e);
    assert(e * 400 <= 0x7fff_ffff_ffff_ffff && e * 400 >= -0x7fff_ffff_ffff_ffff) by (nonlinear_arith)
        requires
            146_097 * e <= adjusted_days < 146_097 * e + 146_097,
            adjusted_days <= i64::MAX,
            adjusted_days >= i64::MIN;
    let day_of_era = adjusted_days - era * 146_097;
    assert(0 <= day_of_era < 146_097);
    let year_of_era = (day_of_era - day_of_era / 1_460 + day_of_era / 36_524 - day_of_era / 146_096)
        / 365;
    assert(0 <= year_of_era <= 400);
    let mut year = year_of_era + era * 400;
    let day_of_year = day_of_era - (365 * year_of_era + year_of_era / 4 - year_of_era / 100);
    let month_prime = (5 * day_of_year + 2) / 153;
    let day = day_of_year - (153 * month_prime + 2) / 5 + 1;
    let month = month_prime + if month_prime < 10 {
        3
    } else {
        -9
    };
    year += if month <= 2 {
        1
    } else {
        0
    };
    let y: i32 = if year < i32::MIN as i64 {
        i32::MIN
    } else if year > i32::MAX as i64 {
        i32::MAX
    } else {
        year as i32
    };
    let m: u32 = if 0 <= month && month <= u32::MAX as i64 {
        month as u32
    } else {
        0
    };
    let d: u32 = if 0 <= day && day <= u32::MAX as i64 {
        day as u32
    } else {
        0
    };
    (y, m, d)
}


/// The timestamp as a date and time in the locale's style, at the given offset from
/// UTC in minutes. Timestamps whose local day count comes within 719468 days of
/// `i64::MAX` are out of range.
pub fn format_timestamp_for_locale(
    timestamp: TimestampMillis,
    locale: &str,
    utc_offset_minutes: i32,
) -> (r: String)
    requires
        local_day(timestamp.0 as nat, utc_offset_minutes as int) <= i64::MAX - 719_468,
    ensures
        r@ == formatted_timestamp(timestamp.0 as nat, locale@, utc_offset_minutes as int),
{
    let style = DateTimeFormatStyle::from_locale(locale);
    let timestamp_millis: i128 = if timestamp.0 <= i128::MAX as u128 {
        timestamp.0 as i128
    } else {
        i128::MAX
    };
    proof {
        lemma_div_denominator(timestamp_millis as int, 1_000, 60);
    }
    let local_minutes = timestamp_millis / 1_000 / 60 + utc_offset_minutes as i128;
    let ghost lm = local_minutes_of(timestamp.0 as nat, utc_offset_minutes as int);
    assert(local_minutes == lm);
    let days = div_floor(local_minutes, 1_440);
    proof {
        lemma_fundamental_div_mod(lm, 1_440);
        lemma_mod_pos_bound_any(lm, 1_440);
    }
    let minute_of_day = local_minutes - days * 1_440;
    assert(0 <= minute_of_day < 1_440);
    let hour = (minute_of_day / 60) as u32;
    let minute = (minute_of_day % 60) as u32;
    let days: i64 = if days < i64::MIN as i128 {
        i64::MIN
    } else if days > i64::MAX as i128 {
        i64::MAX
    } else {
        days as i64
    };
    let (year, month, day) = civil_from_days(days);
    let mut out = String::new();
    match style {
        DateTimeFormatStyle::EnUs => {
            let (display_hour, suffix) = hour_12(hour);
            push_str(&mut out, month_name_short(month));
            push_str(&mut out, " ");
            push_decimal(&mut out, day as u128);
            push_str(&mut out, ", ");
            push_signed_decimal(&mut out, year as i64);
            push_str(&mut out, ", ");
            push_decimal(&mut out, display_hour as u128);
            push_str(&mut out, ":");
            push_decimal_pad2(&mut out, minute as u128);
            push_str(&mut out, " ");
            push_str(&mut out, suffix);
        },
        DateTimeFormatStyle::EnGb => {
            push_decimal(&mut out, day as u128);
            push_str(&mut out, " ");
            push_str(&mut out, month_name_short(month));
            push_str(&mut out, " ");
            push_signed_decimal(&mut out, year as i64);
            push_str(&mut out, ", ");
            push_decimal_pad2(&mut out, hour as u128);
            push_str(&mut out, ":");
            push_decimal_pad2(&mut out, minute as u128);
        },
        DateTimeFormatStyle::JaJp => {
            push_signed_decimal(&mut out, year as i64);
            push_str(&mut out, "/");
            push_decimal_pad2(&mut out, month as u128);
            push_str(&mut out, "/");
            push_decimal_pad2(&mut out, day as u128);
            push_str(&mut out, " ");
            push_decimal_pad2(&mut out, hour as u128);
            push_str(&mut out, ":");
            push_decimal_pad2(&mut out, minute as u128);
        },
        DateTimeFormatStyle::Iso8601 => {
            push_signed_decimal(&mut out, year as i64);
            push_str(&mut out, "-");
            push_decimal_pad2(&mut out, month as u128);
            push_str(&mut out, "-");
            push_decimal_pad2(&mut out, day as u128);
            push_str(&mut out, " ");
            push_decimal_pad2(&mut out, hour as u128);
            push_str(&mut out, ":");
            push_decimal_pad2(&mut out, minute as u128);
        },
    }
    proof {
        let m = minute_of_day_of(timestamp.0 as nat, utc_offset_minutes as int);
        assert(m == minute_of_day);
        assert(out@ =~= render(style, year as int, month as int, day as int, m / 60, m % 60));
    }
    out
}

} // verus!
