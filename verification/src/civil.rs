//! The proleptic Gregorian calendar, counted in days since 1970-01-01.

use vstd::prelude::*;

verus! {

/// Is `y` a leap year of the Gregorian calendar?
pub open spec fn is_leap_year(y: int) -> bool {
    y % 4 == 0 && (y % 100 != 0 || y % 400 == 0)
}

/// Number of days in the year `y`.
pub open spec fn year_length(y: int) -> int {
    if is_leap_year(y) {
        366
    } else {
        365
    }
}

/// Number of days in the month `m` (1 to 12) of the year `y`.
pub open spec fn days_in_month(y: int, m: int) -> int {
    if m == 2 {
        if is_leap_year(y) {
            29
        } else {
            28
        }
    } else if m == 4 || m == 6 || m == 9 || m == 11 {
        30
    } else {
        31
    }
}

/// Number of days of the year `y` that lie before the first of the month `m`.
pub open spec fn days_before_month(y: int, m: int) -> int
    decreases m,
{
    if m <= 1 {
        0
    } else {
        days_before_month(y, m - 1) + days_in_month(y, m - 1)
    }
}

/// Number of days from 0001-01-01 to the first day of the year `y`.
pub open spec fn days_before_year(y: int) -> int {
    365 * (y - 1) + (y - 1) / 4 - (y - 1) / 100 + (y - 1) / 400
}

/// Number of days from 1970-01-01 to day `d` of the month `m` of the year `y`.
pub open spec fn days_since_epoch(y: int, m: int, d: int) -> int {
    days_before_year(y) - days_before_year(1970) + days_before_month(y, m) + d - 1
}

/// Does the calendar hold the date `y`-`m`-`d`?
pub open spec fn valid_date(y: int, m: int, d: int) -> bool {
    1 <= m <= 12 && 1 <= d <= days_in_month(y, m)
}

/// The year, counted from March, that the month `m` of the year `y` belongs to.
pub open spec fn march_year(y: int, m: int) -> int {
    if m <= 2 {
        y - 1
    } else {
        y
    }
}

/// The machine's limits on a date: its day number and the first day of its
/// 400-year era are 64-bit numbers.
pub open spec fn countable_date(y: int, m: int, d: int) -> bool {
    &&& i64::MIN <= (march_year(y, m) / 400) * 146097
    &&& i64::MIN <= days_since_epoch(y, m, d) <= i64::MAX - 719468
}

/// Number of days from the first of March to the first of the `mp`-th month
/// after it.
pub open spec fn days_before_march_month(mp: int) -> int {
    (153 * mp + 2) / 5
}

/// Number of days from the first of March of the first year of an era to the
/// first of March of its year `yoe`.
pub open spec fn days_before_year_of_era(yoe: int) -> int {
    365 * yoe + yoe / 4 - yoe / 100
}

/// Each year begins as many days after the one before it as that one is long.
pub proof fn law_next_year(y: int)
    ensures
        days_before_year(y + 1) == days_before_year(y) + year_length(y),
{
    assert(y / 4 - (y - 1) / 4 == if y % 4 == 0 {
        1int
    } else {
        0
    });
    assert(y / 100 - (y - 1) / 100 == if y % 100 == 0 {
        1int
    } else {
        0
    });
    assert(y / 400 - (y - 1) / 400 == if y % 400 == 0 {
        1int
    } else {
        0
    });
    assert(y % 100 == 0 ==> y % 4 == 0);
    assert(y % 400 == 0 ==> y % 100 == 0);
}

/// The first days of the months, counted from March.
proof fn lemma_month_offset(y: int, m: int)
    requires
        1 <= m <= 12,
    ensures
        m > 2 ==> days_before_month(y, m) == days_before_march_month(m - 3) + year_length(y) - 306,
        m <= 2 ==> days_before_month(y, m) == days_before_march_month(m + 9) - 306,
{
    reveal_with_fuel(days_before_month, 13);
}

/// The years of an era, counted from its first day.
proof fn lemma_year_offset(era: int, yoe: int)
    requires
        0 <= yoe < 400,
    ensures
        days_before_year(era * 400 + yoe + 1) == era * 146097 + days_before_year_of_era(yoe),
{
}

/// The day number of a date, counted by eras of 400 years that begin in March.
proof fn lemma_day_number(y: int, m: int, d: int, era: int, yoe: int)
    requires
        1 <= m <= 12,
        march_year(y, m) == era * 400 + yoe,
        0 <= yoe < 400,
    ensures
        days_since_epoch(y, m, d) == era * 146097 + days_before_year_of_era(yoe)
            + days_before_march_month(
            if m > 2 {
                m - 3
            } else {
                m + 9
            },
        ) + d - 1 - 719468,
{
    lemma_month_offset(y, m);
    lemma_year_offset(era, yoe);
    law_next_year(y);
}

/// The year of an era that its day `doe` falls in.
#[verifier::spinoff_prover]
proof fn lemma_year_of_era(doe: int)
    requires
        0 <= doe < 146097,
    ensures
        ({
            let yoe = (doe - doe / 1460 + doe / 36524 - doe / 146096) / 365;
            &&& 0 <= yoe < 400
            &&& days_before_year_of_era(yoe) <= doe
            &&& doe < days_before_year_of_era(yoe + 1) + (yoe + 1) / 400
        }),
{
    let q = doe / 1460;
    let s = doe % 1460;
    let c = doe / 36524;
    let yoe = (doe - q + c - doe / 146096) / 365;
    if doe == 146096 {
        assert(yoe == 399);
    } else {
        // Four years of the calendar are a day longer than 1460 days, but for
        // the centuries.
        let t = (s - q + c) / 365;
        assert(doe == 1460 * q + s);
        assert(yoe == 4 * q + t);
        assert(0 <= q <= 100 && 0 <= c <= 3);
        assert(-1 <= t <= 4);
        assert(yoe / 100 == c) by {
            if c == 0 {
            } else if c == 1 {
            } else if c == 2 {
            }
        }
        assert(yoe / 4 == if t == -1 {
            q - 1
        } else if t == 4 {
            q + 1
        } else {
            q
        });
    }
}

/// The length of the year `yoe` of an era, counted from March: the leap day, if
/// any, is its last day.
proof fn lemma_march_year_length(era: int, yoe: int)
    requires
        0 <= yoe < 400,
    ensures
        days_before_year_of_era(yoe + 1) + (yoe + 1) / 400 == days_before_year_of_era(yoe)
            + year_length(era * 400 + yoe + 1),
{
}

/// The month, counted from March, that the day `doy` of a year falls in.
proof fn lemma_month_of_year(y: int, doy: int)
    requires
        0 <= doy < year_length(y + 1),
    ensures
        ({
            let mp = (5 * doy + 2) / 153;
            let m = if mp < 10 {
                mp + 3
            } else {
                mp - 9
            };
            &&& 0 <= mp < 12
            &&& days_before_march_month(mp) <= doy
            &&& valid_date(
                if m <= 2 {
                    y + 1
                } else {
                    y
                },
                m,
                doy - days_before_march_month(mp) + 1,
            )
        }),
{
}

/// Days since 1970-01-01 for a civil date.
pub fn days_from_civil(y: i64, m: u32, d: u32) -> (days: i64)
    requires
        1 <= m <= 12,
        1 <= d,
        countable_date(y as int, m as int, d as int),
    ensures
        days == days_since_epoch(y as int, m as int, d as int),
{
    let ghost year = y;
    let y: i64 = if m <= 2 { y - 1 } else { y };
    let era: i64 = if y >= 0 { y } else { y - 399 } / 400;
    let yoe: u64 = (y - era * 400) as u64;
    let doy: u64 = (153 * (if m > 2 { m - 3 } else { m + 9 }) as u64 + 2) / 5 + d as u64 - 1;
    let doe: u64 = yoe * 365 + yoe / 4 - yoe / 100 + doy;
    proof {
        lemma_day_number(year as int, m as int, d as int, era as int, yoe as int);
    }
    era * 146097 + doe as i64 - 719468
}

/// Civil date (year, month, day) for days since 1970-01-01.
pub fn civil_from_days(z: i64) -> (date: (i64, u32, u32))
    requires
        z <= i64::MAX - 719468,
    ensures
        valid_date(date.0 as int, date.1 as int, date.2 as int),
        days_since_epoch(date.0 as int, date.1 as int, date.2 as int) == z,
{
    let z: i64 = z + 719468;
    let era: i64 = if z >= 0 { z } else { z - 146096 } / 146097;
    let doe: u64 = (z - era * 146097) as u64;
    proof {
        lemma_year_of_era(doe as int);
    }
    let yoe: u64 = (doe - doe / 1460 + doe / 36524 - doe / 146096) / 365;
    let y: i64 = yoe as i64 + era * 400;
    let doy: u64 = doe - (365 * yoe + yoe / 4 - yoe / 100);
    proof {
        lemma_march_year_length(era as int, yoe as int);
        lemma_month_of_year(y as int, doy as int);
    }
    let mp: u64 = (5 * doy + 2) / 153;
    let d: u64 = doy - (153 * mp + 2) / 5 + 1;
    let m: u64 = if mp < 10 { mp + 3 } else { mp - 9 };
    let year: i64 = if m <= 2 { y + 1 } else { y };
    proof {
        lemma_day_number(year as int, m as int, d as int, era as int, yoe as int);
    }
    (year, m as u32, d as u32)
}

/// Does the day number `z` fall in the year `y`?
pub open spec fn falls_in_year(z: int, y: int) -> bool {
    days_since_epoch(y, 1, 1) <= z < days_since_epoch(y + 1, 1, 1)
}

/// The year that the day number `z` falls in.
pub open spec fn civil_year(z: int) -> int {
    choose|y: int| falls_in_year(z, y)
}

/// The day of its year that the day number `z` is, counted from 1.
pub open spec fn day_in_year(z: int) -> int {
    z - days_since_epoch(civil_year(z), 1, 1) + 1
}

/// The first day of the earliest year that begins on a 64-bit day number.
pub const EARLIEST_YEAR_START: i64 = -9223372036854775600;

/// The day of its year, counted from 1, that the day `day` since 1970-01-01 is.
pub fn day_of_year(day: i64) -> (n: i64)
    requires
        EARLIEST_YEAR_START <= day <= i64::MAX - 719468,
    ensures
        n == day_in_year(day as int),
        1 <= n <= year_length(civil_year(day as int)),
{
    let (year, month, day_of_month) = civil_from_days(day);
    proof {
        let y = year as int;
        law_days_ordered(y, month as int, day_of_month as int, -25252734927764584, 1, 1);
        if y != -25252734927764584 {
            law_days_ordered(-25252734927764584, 1, 1, y, 1, 1);
        }
        assert(days_since_epoch(-25252734927764584, 1, 1) == EARLIEST_YEAR_START);
        law_day_of_date(y, month as int, day_of_month as int);
        law_next_year(y);
        lemma_year_offset(march_year(y, month as int) / 400, march_year(y, month as int) % 400);
        lemma_year_offset(march_year(y, 1) / 400, march_year(y, 1) % 400);
    }
    day - days_from_civil(year, 1, 1) + 1
}

/// A later year begins after the end of an earlier one.
proof fn lemma_years_ordered(a: int, b: int)
    requires
        a < b,
    ensures
        days_before_year(a + 1) <= days_before_year(b),
{
}

/// The months of a year lie one after the other within it.
proof fn lemma_months_ordered(y: int, a: int, b: int)
    requires
        1 <= a < b <= 12,
    ensures
        0 <= days_before_month(y, a),
        days_before_month(y, a) + days_in_month(y, a) <= days_before_month(y, b),
        days_before_month(y, b) + days_in_month(y, b) <= year_length(y),
{
    reveal_with_fuel(days_before_month, 13);
}

/// A valid date falls in its own year, on the day that its month and its day of
/// the month give.
pub proof fn law_day_of_date(y: int, m: int, d: int)
    requires
        valid_date(y, m, d),
    ensures
        civil_year(days_since_epoch(y, m, d)) == y,
        day_in_year(days_since_epoch(y, m, d)) == days_before_month(y, m) + d,
        1 <= day_in_year(days_since_epoch(y, m, d)) <= year_length(y),
{
    let z = days_since_epoch(y, m, d);
    law_next_year(y);
    if m < 12 {
        lemma_months_ordered(y, m, 12);
    } else {
        lemma_months_ordered(y, 1, m);
    }
    assert(days_before_month(y, 1) == 0);
    assert(days_before_month(y + 1, 1) == 0);
    assert(falls_in_year(z, y));
    let c = civil_year(z);
    assert(falls_in_year(z, c));
    assert(days_before_month(c, 1) == 0);
    assert(days_before_month(c + 1, 1) == 0);
    if c < y {
        lemma_years_ordered(c, y);
    }
    if y < c {
        lemma_years_ordered(y, c);
    }
}

/// Day numbers order dates as the calendar does: by year, then by month, then
/// by day.
pub proof fn law_days_ordered(y1: int, m1: int, d1: int, y2: int, m2: int, d2: int)
    requires
        valid_date(y1, m1, d1),
        valid_date(y2, m2, d2),
    ensures
        days_since_epoch(y1, m1, d1) < days_since_epoch(y2, m2, d2) <==> (y1 < y2 || (y1 == y2 && (
        m1 < m2 || (m1 == m2 && d1 < d2)))),
{
    law_day_of_date(y1, m1, d1);
    law_day_of_date(y2, m2, d2);
    law_next_year(y1);
    law_next_year(y2);
    if y1 < y2 {
        lemma_years_ordered(y1, y2);
    }
    if y2 < y1 {
        lemma_years_ordered(y2, y1);
    }
    if m1 < m2 {
        lemma_months_ordered(y1, m1, m2);
    }
    if m2 < m1 {
        lemma_months_ordered(y1, m2, m1);
    }
}

/// A day number has one date only: what `civil_from_days` gives for the number
/// of a valid date is that date again.
pub proof fn law_date_unique(y1: int, m1: int, d1: int, y2: int, m2: int, d2: int)
    requires
        valid_date(y1, m1, d1),
        valid_date(y2, m2, d2),
        days_since_epoch(y1, m1, d1) == days_since_epoch(y2, m2, d2),
    ensures
        y1 == y2,
        m1 == m2,
        d1 == d2,
{
    law_days_ordered(y1, m1, d1, y2, m2, d2);
    law_days_ordered(y2, m2, d2, y1, m1, d1);
}

/// The day after the last of a month is the first of the next month, and the
/// day after the last of December is the first of January.
pub proof fn law_month_follows(y: int, m: int)
    requires
        1 <= m <= 12,
    ensures
        days_since_epoch(y, m, days_in_month(y, m)) + 1 == if m < 12 {
            days_since_epoch(y, m + 1, 1)
        } else {
            days_since_epoch(y + 1, 1, 1)
        },
{
    if m == 12 {
        law_next_year(y);
        reveal_with_fuel(days_before_month, 13);
    }
}

/// The calendar from first principles: day 0 is 1970-01-01, days follow each
/// other within a month, a month follows the one before it after its 28 to 31
/// days, and January follows December. February has 29 days in the years that 4
/// divides, but for those that 100 divides and 400 does not.
pub proof fn law_calendar(y: int, m: int, d: int)
    ensures
        days_since_epoch(1970, 1, 1) == 0,
        days_since_epoch(y, m, d + 1) == days_since_epoch(y, m, d) + 1,
        1 <= m < 12 ==> days_since_epoch(y, m + 1, 1) == days_since_epoch(y, m, 1) + if m == 2 {
            if y % 4 == 0 && (y % 100 != 0 || y % 400 == 0) {
                29int
            } else {
                28
            }
        } else if m == 4 || m == 6 || m == 9 || m == 11 {
            30
        } else {
            31
        },
        days_since_epoch(y + 1, 1, 1) == days_since_epoch(y, 12, 1) + 31,
        valid_date(y, m, d) <==> 1 <= m <= 12 && 1 <= d <= if m == 2 {
            if y % 4 == 0 && (y % 100 != 0 || y % 400 == 0) {
                29int
            } else {
                28
            }
        } else if m == 4 || m == 6 || m == 9 || m == 11 {
            30
        } else {
            31
        },
{
    law_next_year(y);
    assert(days_before_month(1970, 1) == 0);
    reveal_with_fuel(days_before_month, 13);
}

/// Every day number is that of a date, and the day of the year that it is counts
/// from the first of January of that date's year.
pub proof fn law_every_day_has_date(z: int) -> (date: (int, int, int))
    ensures
        valid_date(date.0, date.1, date.2),
        days_since_epoch(date.0, date.1, date.2) == z,
        day_in_year(z) == z - days_since_epoch(date.0, 1, 1) + 1,
        days_since_epoch(date.0, 1, 1) <= z < days_since_epoch(date.0 + 1, 1, 1),
{
    let era = (z + 719468) / 146097;
    let doe = (z + 719468) % 146097;
    lemma_year_of_era(doe);
    let yoe = (doe - doe / 1460 + doe / 36524 - doe / 146096) / 365;
    let y = era * 400 + yoe;
    let doy = doe - days_before_year_of_era(yoe);
    lemma_march_year_length(era, yoe);
    lemma_month_of_year(y, doy);
    let mp = (5 * doy + 2) / 153;
    let m = if mp < 10 {
        mp + 3
    } else {
        mp - 9
    };
    let d = doy - days_before_march_month(mp) + 1;
    let year = if m <= 2 {
        y + 1
    } else {
        y
    };
    lemma_day_number(year, m, d, era, yoe);
    law_day_of_date(year, m, d);
    law_next_year(year);
    assert(days_before_month(year, 1) == 0);
    assert(days_before_month(year + 1, 1) == 0);
    (year, m, d)
}

} // verus!
