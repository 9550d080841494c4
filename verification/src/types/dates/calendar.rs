use crate::types::dates::datetime::{
    is_timestamp_millis, MAX_TIMESTAMP_MILLIS, MILLIS_PER_DAY, MIN_TIMESTAMP_MILLIS,
};
use chrono::Datelike;
use vstd::prelude::*;

verus! {

/// The earliest year of the calendar.
pub const MIN_YEAR: i32 = -262143;

/// The latest year of the calendar.
pub const MAX_YEAR: i32 = 262142;

/// The year, in the proleptic Gregorian calendar and in UTC, of the instant
/// `millis` milliseconds after the Unix epoch: what `chrono::Datelike::year`
/// returns for that `DateTime<Utc>`.
pub uninterp spec fn civil_year(millis: int) -> int;

/// The month of the instant `millis`, counted from zero: what
/// `chrono::Datelike::month0` returns for that `DateTime<Utc>`.
pub uninterp spec fn civil_month0(millis: int) -> int;

/// The day of the month of the instant `millis`, counted from one: what
/// `chrono::Datelike::day` returns for that `DateTime<Utc>`.
pub uninterp spec fn civil_day(millis: int) -> int;

/// The instant at which the given day of the calendar begins in UTC, in
/// milliseconds since the Unix epoch, where the calendar has such a day:
/// the timestamp of what `chrono::NaiveDate::from_ymd_opt` returns.
pub uninterp spec fn midnight_of(year: int, month: int, day: int) -> Option<int>;

/// Reads the year of an instant with `chrono::Datelike::year`, on the
/// `DateTime<Utc>` that `DateTime::from_timestamp_millis` makes of it. Every
/// year lies between chrono's first and last year.
#[verifier::external_body]
pub(crate) fn chrono_year(millis: i64) -> (r: i32)
    requires
        is_timestamp_millis(millis as int),
    ensures
        r == civil_year(millis as int),
        MIN_YEAR <= r <= MAX_YEAR,
{
    chrono::DateTime::<chrono::Utc>::from_timestamp_millis(millis).unwrap().year()
}

/// Reads the month of an instant with `chrono::Datelike::month0`, which
/// counts the twelve months from zero.
#[verifier::external_body]
pub(crate) fn chrono_month0(millis: i64) -> (r: u32)
    requires
        is_timestamp_millis(millis as int),
    ensures
        r == civil_month0(millis as int),
        r < 12,
{
    chrono::DateTime::<chrono::Utc>::from_timestamp_millis(millis).unwrap().month0()
}

/// Reads the day of the month of an instant with `chrono::Datelike::day`,
/// which counts the days of a month from one.
#[verifier::external_body]
pub(crate) fn chrono_day(millis: i64) -> (r: u32)
    requires
        is_timestamp_millis(millis as int),
    ensures
        r == civil_day(millis as int),
        1 <= r <= 31,
{
    chrono::DateTime::<chrono::Utc>::from_timestamp_millis(millis).unwrap().day()
}

/// Looks a day up in the calendar with `chrono::NaiveDate::from_ymd_opt` and
/// returns the timestamp of its first instant in UTC. Chrono knows no day
/// outside its range of years, no month but the first to the twelfth and no
/// day that the month does not have. Every day it knows begins at a whole
/// number of days from the Unix epoch and fits into the range of timestamps
/// as a whole.
#[verifier::external_body]
pub(crate) fn chrono_midnight(year: i32, month: u32, day: u32) -> (r: Option<i64>)
    ensures
        match r {
            Some(v) => {
                &&& midnight_of(year as int, month as int, day as int) == Some(v as int)
                &&& MIN_YEAR <= year <= MAX_YEAR
                &&& 1 <= month <= 12
                &&& 1 <= day <= 31
                &&& MIN_TIMESTAMP_MILLIS <= v <= MAX_TIMESTAMP_MILLIS - (MILLIS_PER_DAY - 1)
                &&& v as int % MILLIS_PER_DAY as int == 0
            },
            None => midnight_of(year as int, month as int, day as int) is None,
        },
{
    match chrono::NaiveDate::from_ymd_opt(year, month, day) {
        Some(date) => Some(date.and_hms_opt(0, 0, 0).unwrap().and_utc().timestamp_millis()),
        None => None,
    }
}

/// The milliseconds that have passed of the day of the instant `millis`.
pub open spec fn millis_of_day(millis: int) -> int {
    millis % MILLIS_PER_DAY as int
}

/// The instant `time` milliseconds into the given day of the calendar, where
/// the calendar has such a day.
pub open spec fn civil_timestamp(year: int, month: int, day: int, time: int) -> Option<int> {
    match midnight_of(year, month, day) {
        Some(midnight) => Some(midnight + time),
        None => None,
    }
}

/// The instant that stands `months` months after `millis` in the calendar
/// (before it, for a negative number): same day of the month, same time of
/// day. There is none where the month that is reached has no such day, or
/// lies outside the calendar, or lies before the year zero without being a
/// January.
pub open spec fn months_after(millis: int, months: int) -> Option<int> {
    let total = civil_year(millis) * 12 + civil_month0(millis) + months;
    if total < 0 && total % 12 != 0 {
        None
    } else if !(i32::MIN <= total / 12 <= i32::MAX) {
        None
    } else {
        civil_timestamp(total / 12, total % 12 + 1, civil_day(millis), millis_of_day(millis))
    }
}

/// The instant that stands `years` years after `millis` in the calendar
/// (before it, for a negative number): same month, same day, same time of
/// day. There is none where the year that is reached has no such day or lies
/// outside the calendar.
pub open spec fn years_after(millis: int, years: int) -> Option<int> {
    let year = civil_year(millis) + years;
    if !(i32::MIN <= year <= i32::MAX) {
        None
    } else {
        civil_timestamp(year, civil_month0(millis) + 1, civil_day(millis), millis_of_day(millis))
    }
}

/// The milliseconds that have passed of the day of the instant `millis`.
pub(crate) fn time_of_day(millis: i64) -> (r: i64)
    requires
        is_timestamp_millis(millis as int),
    ensures
        r == millis_of_day(millis as int),
        0 <= r < MILLIS_PER_DAY,
{
    if millis >= 0 {
        millis % MILLIS_PER_DAY
    } else {
        let back: i64 = (-(millis + 1)) % MILLIS_PER_DAY;
        assert(millis as int % MILLIS_PER_DAY as int == MILLIS_PER_DAY - 1 - back) by {
            let d = MILLIS_PER_DAY as int;
            let n = -(millis as int + 1);
            let q = n / d;
            assert(n == q * d + back) by (nonlinear_arith)
                requires
                    q == n / d,
                    back == n % d,
                    d > 0,
            ;
            assert(millis as int == (-q - 1) * d + (d - 1 - back)) by (nonlinear_arith)
                requires
                    n == q * d + back,
                    n == -(millis as int + 1),
            ;
            vstd::arithmetic::div_mod::lemma_fundamental_div_mod_converse(
                millis as int,
                d,
                -q - 1,
                d - 1 - back,
            );
        }
        MILLIS_PER_DAY - 1 - back
    }
}

/// `n` divided by the positive number `d`, rounded down.
pub(crate) fn div_floor(n: i64, d: i64) -> (r: i64)
    requires
        d > 0,
        n > i64::MIN,
    ensures
        r == n as int / d as int,
{
    if n >= 0 {
        n / d
    } else {
        let back: i64 = -n;
        let q: i64 = back / d;
        let rest: i64 = back % d;
        assert(back as int == q * d + rest) by (nonlinear_arith)
            requires
                q == back as int / d as int,
                rest == back as int % d as int,
                d > 0,
        ;
        if rest == 0 {
            assert(n as int == (-q) * d + 0) by (nonlinear_arith)
                requires
                    back as int == q * d + rest,
                    rest == 0,
                    back == -n,
            ;
            proof {
                vstd::arithmetic::div_mod::lemma_fundamental_div_mod_converse(
                    n as int,
                    d as int,
                    -q as int,
                    0,
                );
            }
            -q
        } else {
            assert(n as int == (-q - 1) * d + (d - rest)) by (nonlinear_arith)
                requires
                    back as int == q * d + rest,
                    back == -n,
            ;
            proof {
                vstd::arithmetic::div_mod::lemma_fundamental_div_mod_converse(
                    n as int,
                    d as int,
                    -q - 1,
                    d - rest,
                );
            }
            -q - 1
        }
    }
}

/// The instant `time` milliseconds into the day that stands `months` months
/// after the month `month0` of `year`, on the day `day` of that month.
pub(crate) fn add_months(year: i32, month0: u32, day: u32, time: i64, months: i64) -> (r: Option<
    i64,
>)
    requires
        MIN_YEAR <= year <= MAX_YEAR,
        month0 < 12,
        0 <= time < MILLIS_PER_DAY,
        -0x1_0000_0000 <= months <= 0x1_0000_0000,
    ensures
        ({
            let total = year * 12 + month0 + months;
            match r {
                Some(v) => !(total < 0 && total % 12 != 0) && (i32::MIN <= total / 12 <= i32::MAX)
                    && civil_timestamp(total / 12, total % 12 + 1, day as int, time as int)
                    == Some(v as int) && is_timestamp_millis(v as int),
                None => (total < 0 && total % 12 != 0) || !(i32::MIN <= total / 12 <= i32::MAX)
                    || civil_timestamp(total / 12, total % 12 + 1, day as int, time as int)
                    is None,
            }
        }),
{
    let total: i64 = (year as i64) * 12 + (month0 as i64) + months;
    let final_year: i64;
    let final_month0: i64;
    if total >= 0 {
        final_year = total / 12;
        final_month0 = total % 12;
    } else {
        let back: i64 = -total;
        if back % 12 != 0 {
            assert(total as int % 12 != 0) by {
                if total as int % 12 == 0 {
                    let q = total as int / 12;
                    assert(total as int == q * 12) by (nonlinear_arith)
                        requires
                            q == total as int / 12,
                            total as int % 12 == 0,
                    ;
                    assert(back as int == (-q) * 12);
                    vstd::arithmetic::div_mod::lemma_fundamental_div_mod_converse(
                        back as int,
                        12,
                        -q,
                        0,
                    );
                }
            }
            return None;
        }
        final_year = -(back / 12);
        final_month0 = 0;
        assert(total as int / 12 == final_year && total as int % 12 == 0) by {
            let q = back as int / 12;
            assert(back as int == q * 12) by (nonlinear_arith)
                requires
                    q == back as int / 12,
                    back as int % 12 == 0,
            ;
            vstd::arithmetic::div_mod::lemma_fundamental_div_mod_converse(total as int, 12, -q, 0);
        }
    }
    if final_year < (i32::MIN as i64) || final_year > (i32::MAX as i64) {
        return None;
    }
    match chrono_midnight(final_year as i32, (final_month0 + 1) as u32, day) {
        Some(midnight) => Some(midnight + time),
        None => None,
    }
}

} // verus!
