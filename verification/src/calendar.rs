//! Calendar arithmetic: seconds since the UNIX epoch for a compact
//! `YYYY-MM-DDTHHMMSS` stamp, by Howard Hinnant's `days_from_civil`.

use vstd::prelude::*;
use vstd::string::StringSliceAdditionalSpecFns;

verus! {

/// Gregorian leap year.
pub open spec fn is_leap_year(y: int) -> bool {
    y % 4 == 0 && (y % 100 != 0 || y % 400 == 0)
}

pub open spec fn year_length(y: int) -> int {
    if is_leap_year(y) {
        366
    } else {
        365
    }
}

/// Days from 1970-01-01 to January 1st of year `y` (negative before 1970).
pub open spec fn days_to_year(y: int) -> int
    decreases (if y >= 1970 { y - 1970 } else { 1970 - y }),
{
    if y == 1970 {
        0
    } else if y > 1970 {
        days_to_year(y - 1) + year_length(y - 1)
    } else {
        days_to_year(y + 1) - year_length(y)
    }
}

/// Days in month `m` (1..=12) of year `y`.
pub open spec fn month_length(y: int, m: int) -> int {
    if m == 2 {
        if is_leap_year(y) {
            29
        } else {
            28
        }
    } else if m == 4 || m == 6 || m == 9 || m == 11 {
        30
    } else {
        31
    }
}

/// Days in year `y` before the first of month `m`.
pub open spec fn days_before_month(y: int, m: int) -> int
    decreases m,
{
    if m <= 1 {
        0
    } else {
        days_before_month(y, m - 1) + month_length(y, m - 1)
    }
}

/// `y-m-d` is a date of the proleptic Gregorian calendar.
pub open spec fn is_valid_date(y: int, m: int, d: int) -> bool {
    1 <= m <= 12 && 1 <= d <= month_length(y, m)
}

/// The number of days from 1970-01-01 to `y-m-d`.
pub open spec fn epoch_day(y: int, m: int, d: int) -> int {
    days_to_year(y) + days_before_month(y, m) + d - 1
}

/// The year counted from March that `y-m` falls in.
pub open spec fn march_year(y: int, m: int) -> int {
    if m <= 2 {
        y - 1
    } else {
        y
    }
}

/// The month counted from March (0 for March, 11 for February).
pub open spec fn march_month(m: int) -> int {
    if m > 2 {
        m - 3
    } else {
        m + 9
    }
}

/// Day of the March-based year on which March-based month `x` starts.
pub open spec fn march_month_start(x: int) -> int {
    (153 * x + 2) / 5
}

/// Days from 0000-03-01 to March 1st of year `y`, in 400-year eras.
pub open spec fn march_year_start(y: int) -> int {
    let era = y / 400;
    let yoe = y % 400;
    era * 146097 + yoe * 365 + yoe / 4 - yoe / 100
}

/// The value `days_from_civil` computes, in exact arithmetic.
pub open spec fn civil_days(y: int, m: int, d: int) -> int {
    march_year_start(march_year(y, m)) + march_month_start(march_month(m)) + d - 1 - 719468
}

/// The inputs on which `days_from_civil` runs without overflow.
pub open spec fn days_from_civil_defined(y: int, m: int, d: int) -> bool {
    let y2 = march_year(y, m);
    let x = march_month(m);
    let yoe = y2 % 400;
    let doy = march_month_start(x) + d - 1;
    &&& y2 >= i64::MIN + 399
    &&& y2 <= i64::MAX
    &&& 153 * x + 2 <= u32::MAX
    &&& march_month_start(x) + d >= 1
    &&& march_month_start(x) + d <= u32::MAX
    &&& yoe * 365 + yoe / 4 - yoe / 100 + doy <= u32::MAX
    &&& i64::MIN <= (y2 / 400) * 146097 <= i64::MAX
    &&& i64::MIN <= civil_days(y, m, d) + 719468 <= i64::MAX
    &&& i64::MIN <= civil_days(y, m, d)
}

/// Rounding `y - 399` towards zero, for negative `y`, is rounding `y` down.
proof fn lemma_era_of_negative(y: int)
    requires
        y < 0,
    ensures
        -((399 - y) / 400) == y / 400,
{
    let a = -y;
    assert(a > 0);
    let q = (a + 399) / 400;
    let r = (a + 399) % 400;
    assert(a + 399 == 400 * q + r && 0 <= r < 400) by (nonlinear_arith)
        requires
            q == (a + 399) / 400,
            r == (a + 399) % 400,
    ;
    assert(-a == 400 * (-q) + (399 - r));
    assert(-a / 400 == -q) by (nonlinear_arith)
        requires
            -a == 400 * (-q) + (399 - r),
            0 <= 399 - r < 400,
    ;
}

/// Howard Hinnant's `days_from_civil`: the number of days from 1970-01-01
/// to `y-m-d` (see `law_days_from_civil_counts_days` for the calendar).
pub fn days_from_civil(y: i64, m: u32, d: u32) -> (r: i64)
    requires
        days_from_civil_defined(y as int, m as int, d as int),
    ensures
        r as int == civil_days(y as int, m as int, d as int),
{
    let y = if m <= 2 {
        y - 1
    } else {
        y
    };
    let era = if y >= 0 {
        y
    } else {
        y - 399
    } / 400;
    proof {
        if y < 0 {
            lemma_era_of_negative(y as int);
        }
        assert(era as int == (y as int) / 400);
        assert(y as int - era as int * 400 == (y as int) % 400) by (nonlinear_arith)
            requires
                era as int == (y as int) / 400,
        ;
    }
    let yoe = (y - era * 400) as u32;
    let doy = (153 * (if m > 2 {
        m - 3
    } else {
        m + 9
    }) + 2) / 5 + d - 1;
    let doe = yoe * 365 + yoe / 4 - yoe / 100 + doy;
    era * 146_097 + (doe as i64) - 719_468
}

/// Whole eras do not change whether a year is a leap year.
proof fn lemma_leap_by_era(a: int, era: int)
    ensures
        is_leap_year(400 * era + a) == is_leap_year(a),
{
    vstd::arithmetic::div_mod::lemma_mod_multiples_vanish(100 * era, a, 4);
    vstd::arithmetic::div_mod::lemma_mod_multiples_vanish(4 * era, a, 100);
    vstd::arithmetic::div_mod::lemma_mod_multiples_vanish(era, a, 400);
    assert(4 * (100 * era) == 400 * era);
    assert(100 * (4 * era) == 400 * era);
}

/// Within an era, a year of the era starts `year_length` days after the
/// one before it.
proof fn lemma_year_of_era_step(yoe: int)
    requires
        0 <= yoe < 399,
    ensures
        (yoe + 1) * 365 + (yoe + 1) / 4 - (yoe + 1) / 100 - (yoe * 365 + yoe / 4 - yoe / 100)
            == year_length(yoe + 1),
{
}

/// Consecutive March-based years start `year_length` days apart: the year
/// from March of `y` holds the February of `y + 1`.
proof fn lemma_march_year_step(y: int)
    ensures
        march_year_start(y + 1) - march_year_start(y) == year_length(y + 1),
{
    let era = y / 400;
    let yoe = y % 400;
    vstd::arithmetic::div_mod::lemma_fundamental_div_mod(y, 400);
    assert(y == 400 * era + yoe && 0 <= yoe < 400);
    if yoe < 399 {
        vstd::arithmetic::div_mod::lemma_fundamental_div_mod_converse(y + 1, 400, era, yoe + 1);
        lemma_year_of_era_step(yoe);
        lemma_leap_by_era(yoe + 1, era);
    } else {
        vstd::arithmetic::div_mod::lemma_fundamental_div_mod_converse(y + 1, 400, era + 1, 0);
        lemma_leap_by_era(0, era + 1);
        assert(is_leap_year(0));
        assert(399int * 365 + 399int / 4 - 399int / 100 == 145731);
    }
}

/// `civil_days` of January 1st counts the days to that year.
proof fn lemma_civil_new_year(y: int)
    ensures
        civil_days(y, 1, 1) == days_to_year(y),
    decreases (if y >= 1970 { y - 1970 } else { 1970 - y }),
{
    assert(march_month_start(10) == 306);
    if y == 1970 {
        assert(march_year_start(1969) == 719162);
    } else if y > 1970 {
        lemma_civil_new_year(y - 1);
        lemma_march_year_step(y - 2);
    } else {
        lemma_civil_new_year(y + 1);
        lemma_march_year_step(y - 1);
    }
}

/// The days of `y` before month `m`, as March-based month starts count them.
proof fn lemma_civil_month_offset(y: int, m: int)
    requires
        1 <= m <= 12,
    ensures
        civil_days(y, m, 1) - civil_days(y, 1, 1) == days_before_month(y, m),
{
    assert(march_month_start(10) == 306);
    assert(march_month_start(11) == 337);
    assert(march_month_start(0) == 0);
    assert(march_month_start(1) == 31);
    assert(march_month_start(2) == 61);
    assert(march_month_start(3) == 92);
    assert(march_month_start(4) == 122);
    assert(march_month_start(5) == 153);
    assert(march_month_start(6) == 184);
    assert(march_month_start(7) == 214);
    assert(march_month_start(8) == 245);
    assert(march_month_start(9) == 275);
    if m >= 3 {
        lemma_march_year_step(y - 1);
    }
    reveal_with_fuel(days_before_month, 12);
}

/// `days_from_civil` counts days: on every date of the proleptic Gregorian
/// calendar, what it computes is the number of days from 1970-01-01.
pub proof fn law_days_from_civil_counts_days(y: int, m: int, d: int)
    requires
        is_valid_date(y, m, d),
    ensures
        civil_days(y, m, d) == epoch_day(y, m, d),
{
    lemma_civil_new_year(y);
    lemma_civil_month_offset(y, m);
}

/// The value of the digit byte at `i` of `b`.
pub open spec fn digit_value(b: Seq<u8>, i: int) -> int {
    b[i] - 48
}

pub open spec fn stamp_year(b: Seq<u8>) -> int {
    digit_value(b, 0) * 1000 + digit_value(b, 1) * 100 + digit_value(b, 2) * 10 + digit_value(b, 3)
}

pub open spec fn stamp_month(b: Seq<u8>) -> int {
    digit_value(b, 5) * 10 + digit_value(b, 6)
}

pub open spec fn stamp_day(b: Seq<u8>) -> int {
    digit_value(b, 8) * 10 + digit_value(b, 9)
}

pub open spec fn stamp_hour(b: Seq<u8>) -> int {
    digit_value(b, 11) * 10 + digit_value(b, 12)
}

pub open spec fn stamp_minute(b: Seq<u8>) -> int {
    digit_value(b, 13) * 10 + digit_value(b, 14)
}

pub open spec fn stamp_second(b: Seq<u8>) -> int {
    digit_value(b, 15) * 10 + digit_value(b, 16)
}

/// The byte positions of a `YYYY-MM-DDTHHMMSS` stamp that hold digits.
pub open spec fn is_stamp_digit_position(i: int) -> bool {
    0 <= i < 17 && i != 4 && i != 7 && i != 10
}

/// The stamps `const_str_to_unix` accepts: at least 17 bytes, no byte below
/// `'0'` where a digit belongs, and a day that `days_from_civil` can count.
pub open spec fn is_convertible_stamp(b: Seq<u8>) -> bool {
    &&& b.len() >= 17
    &&& forall|i: int| is_stamp_digit_position(i) ==> b[i] >= 48
    &&& days_from_civil_defined(stamp_year(b), stamp_month(b), stamp_day(b))
}

/// The seconds since the epoch of a `YYYY-MM-DDTHHMMSS` stamp, by
/// `civil_days`.
pub open spec fn stamp_seconds(b: Seq<u8>) -> int {
    civil_days(stamp_year(b), stamp_month(b), stamp_day(b)) * 86400 + stamp_hour(b) * 3600
        + stamp_minute(b) * 60 + stamp_second(b)
}

/// UNIX time of `y-m-d h:mi:s` UTC.
pub open spec fn unix_time(y: int, m: int, d: int, h: int, mi: int, s: int) -> int {
    epoch_day(y, m, d) * 86400 + h * 3600 + mi * 60 + s
}

/// The digit at byte `idx`.
pub fn digit_at(bytes: &[u8], idx: usize) -> (v: i64)
    requires
        idx < bytes@.len(),
        bytes@[idx as int] >= 48,
    ensures
        v as int == digit_value(bytes@, idx as int),
{
    (bytes[idx] - 48u8) as i64
}

/// Seconds since the UNIX epoch of a compact `YYYY-MM-DDTHHMMSS` UTC stamp.
/// On a stamp of ASCII digits that names a real date and time of day, this
/// is that date's UNIX time.
pub fn const_str_to_unix(s: &str) -> (t: i64)
    requires
        is_convertible_stamp(s.spec_bytes()),
    ensures
        t as int == stamp_seconds(s.spec_bytes()),
        ({
            let b = s.spec_bytes();
            is_valid_date(stamp_year(b), stamp_month(b), stamp_day(b)) ==> t as int == unix_time(
                stamp_year(b),
                stamp_month(b),
                stamp_day(b),
                stamp_hour(b),
                stamp_minute(b),
                stamp_second(b),
            )
        }),
{
    let bytes = s.as_bytes();
    let ghost b = s.spec_bytes();
    assert(is_stamp_digit_position(0) && is_stamp_digit_position(1) && is_stamp_digit_position(2)
        && is_stamp_digit_position(3) && is_stamp_digit_position(5) && is_stamp_digit_position(6)
        && is_stamp_digit_position(8) && is_stamp_digit_position(9) && is_stamp_digit_position(11)
        && is_stamp_digit_position(12) && is_stamp_digit_position(13) && is_stamp_digit_position(
        14,
    ) && is_stamp_digit_position(15) && is_stamp_digit_position(16));
    let y = digit_at(bytes, 0) * 1000 + digit_at(bytes, 1) * 100 + digit_at(bytes, 2) * 10
        + digit_at(bytes, 3);
    let m = digit_at(bytes, 5) * 10 + digit_at(bytes, 6);
    let d = digit_at(bytes, 8) * 10 + digit_at(bytes, 9);
    let h = digit_at(bytes, 11) * 10 + digit_at(bytes, 12);
    let mi = digit_at(bytes, 13) * 10 + digit_at(bytes, 14);
    let sec = digit_at(bytes, 15) * 10 + digit_at(bytes, 16);
    let days = days_from_civil(y, m as u32, d as u32);
    proof {
        lemma_civil_days_bounds(y as int, m as int, d as int);
        if is_valid_date(y as int, m as int, d as int) {
            law_days_from_civil_counts_days(y as int, m as int, d as int);
        }
    }
    days * 86_400 + h * 3600 + mi * 60 + sec
}

/// For the years and months a stamp can spell, `civil_days` stays small.
proof fn lemma_civil_days_bounds(y: int, m: int, d: int)
    requires
        0 <= y <= 207 * 1111,
        0 <= m <= 2277,
        0 <= d <= 2277,
    ensures
        -800000 <= civil_days(y, m, d) <= 100000000,
{
    let y2 = march_year(y, m);
    let era = y2 / 400;
    let yoe = y2 % 400;
    vstd::arithmetic::div_mod::lemma_fundamental_div_mod(y2, 400);
    assert(-1 <= era <= 575);
    assert(0 <= yoe < 400);
    assert(-146097 <= era * 146097 <= 575 * 146097) by (nonlinear_arith)
        requires
            -1 <= era <= 575,
    ;
    assert(0 <= yoe * 365 <= 399 * 365) by (nonlinear_arith)
        requires
            0 <= yoe < 400,
    ;
}

} // verus!
