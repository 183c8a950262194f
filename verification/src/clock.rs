//! The wall clock: local date, minute of the day and offset from UTC.

use vstd::prelude::*;

use crate::civil::days_from_civil;
use crate::civil::law_days_ordered;
use crate::civil::{days_before_month, days_since_epoch, valid_date};

verus! {

/// The first day that the clock can show, -9999-01-01, in days since 1970-01-01.
pub const FIRST_DAY: i64 = -4371587;

/// The last day that the clock can show, 9999-12-31, in days since 1970-01-01.
pub const LAST_DAY: i64 = 2932896;

/// The minutes of a day.
pub const MINUTES_PER_DAY: u16 = 1440;

/// One reading of the local clock.
#[derive(Debug, Clone, Copy, PartialEq, Eq)]
pub struct LocalTime {
    /// Year of the local date.
    pub year: i16,
    /// Month of the local date, from 1.
    pub month: i8,
    /// Day of the month, from 1.
    pub day: i8,
    /// Hour of the local time of day.
    pub hour: i8,
    /// Minute of the hour.
    pub minute: i8,
    /// Offset of the local time from UTC, in seconds, east positive.
    pub offset_seconds: i32,
}

impl LocalTime {
    /// A reading that a clock can show.
    pub open spec fn well_formed(&self) -> bool {
        &&& -9999 <= self.year <= 9999
        &&& valid_date(self.year as int, self.month as int, self.day as int)
        &&& 0 <= self.hour < 24
        &&& 0 <= self.minute < 60
        &&& -93599 <= self.offset_seconds <= 93599
    }

    /// Days since 1970-01-01 for the local date.
    pub open spec fn spec_day_number(&self) -> int {
        days_since_epoch(self.year as int, self.month as int, self.day as int)
    }

    /// Minutes since local midnight.
    pub open spec fn spec_minute_of_day(&self) -> int {
        self.hour * 60 + self.minute
    }

    /// Days since 1970-01-01 for the local date.
    pub fn day_number(&self) -> (day: i64)
        requires
            self.well_formed(),
        ensures
            day == self.spec_day_number(),
            FIRST_DAY <= day <= LAST_DAY,
    {
        proof {
            lemma_clock_days(self.year as int, self.month as int, self.day as int);
        }
        days_from_civil(self.year as i64, self.month as u32, self.day as u32)
    }

    /// Minutes since local midnight.
    pub fn minute_of_day(&self) -> (minutes: u16)
        requires
            self.well_formed(),
        ensures
            minutes == self.spec_minute_of_day(),
            minutes < MINUTES_PER_DAY,
    {
        self.hour as u16 * 60 + self.minute as u16
    }
}

/// The days that the clock can show lie between the first and the last one.
proof fn lemma_clock_days(y: int, m: int, d: int)
    requires
        -9999 <= y <= 9999,
        valid_date(y, m, d),
    ensures
        FIRST_DAY <= days_since_epoch(y, m, d) <= LAST_DAY,
{
    reveal_with_fuel(days_before_month, 13);
    assert(days_since_epoch(-9999, 1, 1) == FIRST_DAY);
    assert(days_since_epoch(9999, 12, 31) == LAST_DAY);
    law_days_ordered(y, m, d, -9999, 1, 1);
    law_days_ordered(9999, 12, 31, y, m, d);
}

/// Reads the local clock: `jiff::Zoned::now` and the fields of the value that it
/// gives.
///
/// Trusted: the date is one of the calendar in the years -9999 to 9999, the hour
/// and the minute are those of a time of day, and the offset from UTC is at most
/// 25:59:59 either way. Which reading comes is the machine's business: two calls
/// may differ. The process panics, as `jiff` documents it, where the system
/// clock is set outside the years -9999 to 9999.
#[verifier::external_body]
fn zoned_now() -> (now: LocalTime)
    ensures
        now.well_formed(),
{
    let zoned = jiff::Zoned::now();
    LocalTime {
        year: zoned.year(),
        month: zoned.month(),
        day: zoned.day(),
        hour: zoned.hour(),
        minute: zoned.minute(),
        offset_seconds: zoned.offset().seconds(),
    }
}

/// Reads the clock in UTC: `jiff::Timestamp::now`, in whole seconds since
/// 1970-01-01T00:00:00Z.
///
/// Trusted: the number lies between those of the first and the last timestamp
/// of `jiff`. Two calls may differ. It panics where `zoned_now` does.
#[verifier::external_body]
fn timestamp_now() -> (second: i64)
    ensures
        valid_second(second as int),
{
    jiff::Timestamp::now().as_second()
}

/// The seconds since 1970-01-01T00:00:00Z that a timestamp can hold.
pub open spec fn valid_second(second: int) -> bool {
    -377705023201 <= second <= 253402207200
}

/// Is `second` what a reading of the clock in UTC gives?
pub closed spec fn clock_gives_second(second: i64) -> bool {
    call_ensures(timestamp_now, (), second)
}

/// Seconds since 1970-01-01T00:00:00Z, now.
pub fn utc_second() -> (second: i64)
    ensures
        clock_gives_second(second),
        valid_second(second as int),
{
    timestamp_now()
}

/// The whole minutes of an offset in seconds, rounded towards zero.
pub open spec fn whole_minutes(seconds: int) -> int {
    if seconds >= 0 {
        seconds / 60
    } else {
        -((-seconds) / 60)
    }
}

/// The whole minutes of an offset in seconds, rounded towards zero.
pub fn offset_minutes(seconds: i32) -> (minutes: i64)
    ensures
        minutes == whole_minutes(seconds as int),
{
    seconds as i64 / 60
}

/// Is `t` what a reading of the local clock gives?
pub closed spec fn clock_gives_time(t: LocalTime) -> bool {
    call_ensures(zoned_now, (), t)
}

/// Is `minutes` the offset from UTC of a reading of the clock?
pub open spec fn clock_shows_offset(minutes: int) -> bool {
    exists|t: LocalTime| #[trigger]
        clock_gives_time(t) && t.well_formed() && minutes == whole_minutes(t.offset_seconds as int)
}

/// Is `day` the local date of a reading of the clock?
pub open spec fn clock_shows_day(day: int) -> bool {
    exists|t: LocalTime| #[trigger]
        clock_gives_time(t) && t.well_formed() && day == t.spec_day_number()
}

/// Is `minutes` the minute of the day of a reading of the clock?
pub open spec fn clock_shows_minute(minutes: int) -> bool {
    exists|t: LocalTime| #[trigger]
        clock_gives_time(t) && t.well_formed() && minutes == t.spec_minute_of_day()
}

/// The system's current offset from UTC, in minutes, east positive.
pub fn local_utc_offset_minutes() -> (minutes: i64)
    ensures
        clock_shows_offset(minutes as int),
{
    let now = zoned_now();
    assert(clock_gives_time(now));
    offset_minutes(now.offset_seconds)
}

/// Days since 1970-01-01 for the current local date.
pub fn local_day() -> (day: i64)
    ensures
        clock_shows_day(day as int),
        FIRST_DAY <= day <= LAST_DAY,
{
    let now = zoned_now();
    assert(clock_gives_time(now));
    now.day_number()
}

/// The current local date, in days since 1970-01-01, and the minutes since local
/// midnight.
pub fn day_and_minutes() -> (r: (i64, u16))
    ensures
        clock_shows_day(r.0 as int),
        FIRST_DAY <= r.0 <= LAST_DAY,
        clock_shows_minute(r.1 as int),
        r.1 < MINUTES_PER_DAY,
{
    let now = zoned_now();
    assert(clock_gives_time(now));
    let minutes: u16 = now.minute_of_day();
    (local_day(), minutes)
}

/// What the predicates on the clock say of its readings: the date, the hours and
/// minutes since midnight, and the whole minutes of the offset.
pub proof fn law_clock_shows(value: int)
    ensures
        clock_shows_day(value) ==> exists|t: LocalTime| #[trigger]
            clock_gives_time(t) && t.well_formed() && value == days_since_epoch(
                t.year as int,
                t.month as int,
                t.day as int,
            ),
        clock_shows_minute(value) ==> exists|t: LocalTime| #[trigger]
            clock_gives_time(t) && t.well_formed() && value == 60 * t.hour + t.minute,
        clock_shows_offset(value) ==> exists|t: LocalTime|
            {
                &&& #[trigger] clock_gives_time(t)
                &&& t.well_formed()
                &&& t.offset_seconds >= 0 ==> 0 <= t.offset_seconds - 60 * value < 60
                &&& t.offset_seconds <= 0 ==> 0 <= 60 * value - t.offset_seconds < 60
            },
{
}

/// A reading is what the clock gives, and a second is what it gives in UTC.
proof fn law_clock_gives(t: LocalTime, second: i64)
    ensures
        clock_gives_time(t) <==> call_ensures(zoned_now, (), t),
        clock_gives_second(second) <==> call_ensures(timestamp_now, (), second),
{
}

/// A reading's day number is that of its date, and its minute of the day counts
/// sixty for each hour.
pub proof fn law_reading(t: LocalTime)
    ensures
        t.spec_day_number() == days_since_epoch(t.year as int, t.month as int, t.day as int),
        t.spec_minute_of_day() == 60 * t.hour + t.minute,
{
}

/// Offsets lose less than a minute, towards zero, and the same to either side.
pub proof fn law_whole_minutes(seconds: int)
    ensures
        seconds >= 0 ==> 0 <= seconds - 60 * whole_minutes(seconds) < 60,
        whole_minutes(-seconds) == -whole_minutes(seconds),
{
}

} // verus!
