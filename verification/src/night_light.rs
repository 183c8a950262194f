//! The night light schedule: when it is on, and when that changes next.

use vstd::prelude::*;

use crate::civil::{day_in_year, day_of_year, EARLIEST_YEAR_START};
use crate::clock::{day_and_minutes, local_day, local_utc_offset_minutes, utc_second};
use crate::clock::{clock_gives_second, clock_shows_day, clock_shows_minute};
use crate::clock::{clock_shows_offset, valid_second};
use crate::clock::{FIRST_DAY, LAST_DAY, MINUTES_PER_DAY};

verus! {

/// Seconds that a timer waits past a boundary, so that it fires after it.
pub const BOUNDARY_MARGIN_SECONDS: u64 = 30;

/// Seconds between two looks at the schedule while no boundary is in sight.
pub const POLAR_RECHECK_SECONDS: u64 = 21600;

/// The user's night light settings. `T` is the type of a colour temperature.
#[derive(Debug, Clone, Copy, PartialEq)]
pub struct Config<T> {
    /// Master toggle.
    pub enabled: bool,
    /// Apply the temperature at any time of day.
    pub always_on: bool,
    /// Follow sunset and sunrise instead of the manual schedule.
    pub auto_schedule: bool,
    /// Colour temperature to apply.
    pub temperature: T,
    /// Start of the manual schedule, local minutes after midnight.
    pub schedule_start_minutes: u16,
    /// End of the manual schedule, local minutes after midnight.
    pub schedule_end_minutes: u16,
}

/// Result of a sunrise/sunset computation for one day.
#[derive(Debug, Clone, Copy, PartialEq, Eq, Structural)]
pub enum SunCycle {
    /// Sunset and sunrise (local time, minutes after midnight, may wrap past midnight).
    Times {
        /// Sunset, local minutes after midnight.
        sunset: u16,
        /// Sunrise, local minutes after midnight.
        sunrise: u16,
    },
    /// The sun never rises on this day at this location (polar night).
    AlwaysDown,
    /// The sun never sets on this day at this location (midnight sun).
    AlwaysUp,
}

/// Is the minute `now` in the period from `start` up to, not including, `end`,
/// which wraps past midnight where `end` comes before `start`?
pub open spec fn in_night(now: int, start: int, end: int) -> bool {
    if start <= end {
        start <= now < end
    } else {
        now >= start || now < end
    }
}

impl SunCycle {
    /// Do both times lie within a day?
    pub open spec fn in_day(self) -> bool {
        self matches SunCycle::Times { sunset, sunrise } ==> sunset < MINUTES_PER_DAY && sunrise
            < MINUTES_PER_DAY
    }

    /// Is it night at the minute `now` of a day with this cycle?
    pub open spec fn night(self, now: int) -> bool {
        match self {
            SunCycle::AlwaysDown => true,
            SunCycle::AlwaysUp => false,
            SunCycle::Times { sunset, sunrise } => in_night(now, sunset as int, sunrise as int),
        }
    }

    /// The earlier of the sunset and the sunrise that come after the minute
    /// `now`, if any does.
    pub open spec fn boundary_after(self, now: int) -> Option<int> {
        match self {
            SunCycle::Times { sunset, sunrise } => if now < sunset && (sunset <= sunrise || sunrise
                <= now) {
                Some(sunset as int)
            } else if now < sunrise {
                Some(sunrise as int)
            } else {
                None
            },
            _ => None,
        }
    }

    /// Is it night at the minute `now` of a day with this cycle?
    pub fn is_night(&self, now: u16) -> (night: bool)
        ensures
            night == self.night(now as int),
    {
        match *self {
            SunCycle::AlwaysDown => true,
            SunCycle::AlwaysUp => false,
            SunCycle::Times { sunset, sunrise } => in_night_period(now, sunset, sunrise),
        }
    }

    /// The first boundary of the day, or the first one after the minute `after`.
    pub fn next_boundary(&self, after: Option<u16>) -> (boundary: Option<u16>)
        ensures
            self.boundary_after(
                match after {
                    Some(now) => now as int,
                    None => -1,
                },
            ) == match boundary {
                Some(b) => Some(b as int),
                None => None,
            },
    {
        match *self {
            SunCycle::AlwaysDown => None,
            SunCycle::AlwaysUp => None,
            SunCycle::Times { sunset, sunrise } => {
                let first: u16 = if sunset <= sunrise { sunset } else { sunrise };
                let second: u16 = if sunset <= sunrise { sunrise } else { sunset };
                match after {
                    None => Some(first),
                    Some(now) => if first > now {
                        Some(first)
                    } else if second > now {
                        Some(second)
                    } else {
                        None
                    },
                }
            },
        }
    }
}

/// Is the given minute-of-day inside the night period (start..end, wrapping past midnight)?
pub fn in_night_period(now: u16, start: u16, end: u16) -> (inside: bool)
    ensures
        inside == in_night(now as int, start as int, end as int),
{
    if start <= end {
        start <= now && now < end
    } else {
        now >= start || now < end
    }
}

/// The manual schedule, as the cycle of a sun that sets at its start and rises
/// at its end.
pub open spec fn manual_cycle<T>(config: Config<T>) -> SunCycle {
    SunCycle::Times {
        sunset: config.schedule_start_minutes,
        sunrise: config.schedule_end_minutes,
    }
}

/// Does the schedule follow the sun? It takes a location to do so.
pub open spec fn follows_sun<T, L>(config: Config<T>, location: Option<L>) -> bool {
    config.auto_schedule && location is Some
}

/// Is `cycle` the cycle that rules the day `day`: one that `sun_cycle` gives for
/// the day at the location, or the manual schedule?
pub open spec fn rules<T, L, F: Fn(i64, L) -> SunCycle>(
    config: Config<T>,
    location: Option<L>,
    sun_cycle: F,
    day: i64,
    cycle: SunCycle,
) -> bool {
    if follows_sun(config, location) {
        call_ensures(sun_cycle, (day, location->0), cycle)
    } else {
        cycle == manual_cycle(config)
    }
}

/// The cycle that rules the day `day`.
fn ruling_cycle<T, L: Copy, F: Fn(i64, L) -> SunCycle>(
    config: &Config<T>,
    location: Option<L>,
    sun_cycle: &F,
    day: i64,
) -> (cycle: SunCycle)
    requires
        follows_sun(*config, location) ==> call_requires(*sun_cycle, (day, location->0)),
    ensures
        rules(*config, location, *sun_cycle, day, cycle),
{
    if config.auto_schedule {
        match location {
            Some(place) => sun_cycle(day, place),
            None => SunCycle::Times {
                sunset: config.schedule_start_minutes,
                sunrise: config.schedule_end_minutes,
            },
        }
    } else {
        SunCycle::Times {
            sunset: config.schedule_start_minutes,
            sunrise: config.schedule_end_minutes,
        }
    }
}

/// The temperature to apply at a minute at which it is `night` or not.
pub open spec fn temperature_at<T>(config: Config<T>, night: bool) -> Option<T> {
    if config.enabled && (config.always_on || night) {
        Some(config.temperature)
    } else {
        None
    }
}

/// The night light temperature that is active at the minute `now` of the day
/// `day`, if any.
pub fn active_temperature_at<T: Copy, L: Copy, F: Fn(i64, L) -> SunCycle>(
    config: &Config<T>,
    location: Option<L>,
    sun_cycle: &F,
    day: i64,
    now: u16,
) -> (temperature: Option<T>)
    requires
        follows_sun(*config, location) ==> call_requires(*sun_cycle, (day, location->0)),
    ensures
        !config.enabled ==> temperature is None,
        config.enabled && config.always_on ==> temperature == Some(config.temperature),
        config.enabled && !config.always_on ==> exists|cycle: SunCycle| #[trigger]
            rules(*config, location, *sun_cycle, day, cycle) && temperature == temperature_at(
                *config,
                cycle.night(now as int),
            ),
{
    if !config.enabled {
        return None;
    }
    if config.always_on {
        return Some(config.temperature);
    }
    let cycle = ruling_cycle(config, location, sun_cycle, day);
    if cycle.is_night(now) {
        Some(config.temperature)
    } else {
        None
    }
}

/// Determine the currently active night light temperature, if any.
///
/// `location` is required for the automatic sunset-to-sunrise schedule, for
/// which `sun_cycle` gives the cycle of a day at a location. When absent, the
/// manual schedule is used.
pub fn active_temperature<T: Copy, L: Copy, F: Fn(i64, L) -> SunCycle>(
    config: &Config<T>,
    location: Option<L>,
    sun_cycle: &F,
) -> (temperature: Option<T>)
    requires
        forall|day: i64|
            follows_sun(*config, location) && FIRST_DAY <= day <= LAST_DAY ==> #[trigger]
            call_requires(*sun_cycle, (day, location->0)),
    ensures
        !config.enabled ==> temperature is None,
        config.enabled && config.always_on ==> temperature == Some(config.temperature),
        config.enabled && !config.always_on ==> exists|day: i64, now: u16, cycle: SunCycle|
            {
                &&& clock_shows_day(day as int)
                &&& #[trigger] clock_shows_minute(now as int)
                &&& #[trigger] rules(*config, location, *sun_cycle, day, cycle)
                &&& temperature == temperature_at(*config, cycle.night(now as int))
            },
{
    if !config.enabled {
        return None;
    }
    if config.always_on {
        return Some(config.temperature);
    }
    let (_, now) = day_and_minutes();
    let day: i64 = local_day();
    active_temperature_at(config, location, sun_cycle, day, now)
}

/// Seconds from the start of the minute `now` to the start of the minute
/// `boundary` of the same day, and the margin.
pub open spec fn wait_until(now: int, boundary: int) -> int {
    (boundary - now) * 60 + BOUNDARY_MARGIN_SECONDS
}

/// Seconds to wait, from the minute `now` of a day with the cycle `today`, for the
/// next boundary, if it comes on that day.
pub open spec fn wait_today(today: SunCycle, now: int) -> Option<int> {
    match today.boundary_after(now) {
        Some(boundary) => Some(wait_until(now, boundary)),
        None => None,
    }
}

/// Seconds to wait, from the minute `now` of a day, for the first boundary of the
/// day after it, or for another look at the schedule where that day has none.
pub open spec fn wait_tomorrow(tomorrow: SunCycle, now: int) -> int {
    match tomorrow.boundary_after(-1) {
        Some(boundary) => wait_until(now, MINUTES_PER_DAY + boundary),
        None => POLAR_RECHECK_SECONDS as int,
    }
}

/// Is `wait` the number of seconds to wait for the next boundary, from the minute
/// `now` of the day `day`?
pub open spec fn waits<T, L, F: Fn(i64, L) -> SunCycle>(
    config: Config<T>,
    location: Option<L>,
    sun_cycle: F,
    day: i64,
    now: int,
    wait: int,
) -> bool {
    exists|today: SunCycle| #[trigger]
        rules(config, location, sun_cycle, day, today) && match wait_today(today, now) {
            Some(seconds) => wait == seconds,
            None => exists|tomorrow: SunCycle| #[trigger]
                rules(config, location, sun_cycle, (day + 1) as i64, tomorrow) && wait
                    == wait_tomorrow(tomorrow, now),
        }
}

/// The seconds from the minute `now` of the day `day` until the next schedule
/// transition, if a timer is needed.
pub fn next_transition_at<T, L: Copy, F: Fn(i64, L) -> SunCycle>(
    config: &Config<T>,
    location: Option<L>,
    sun_cycle: &F,
    day: i64,
    now: u16,
) -> (wait: Option<u64>)
    requires
        day < i64::MAX,
        now < MINUTES_PER_DAY,
        follows_sun(*config, location) ==> call_requires(*sun_cycle, (day, location->0))
            && call_requires(*sun_cycle, ((day + 1) as i64, location->0)),
    ensures
        wait is Some <==> config.enabled && !config.always_on,
        wait matches Some(seconds) ==> waits(
            *config,
            location,
            *sun_cycle,
            day,
            now as int,
            seconds as int,
        ),
{
    if !config.enabled {
        return None;
    }
    if config.always_on {
        return None;
    }
    let today = ruling_cycle(config, location, sun_cycle, day);
    if let Some(boundary) = today.next_boundary(Some(now)) {
        let until: u64 = (boundary - now) as u64;
        return Some(until * 60 + BOUNDARY_MARGIN_SECONDS);
    }
    // Next boundary is tomorrow (or, for polar day/night, re-check later).

    let tomorrow = ruling_cycle(config, location, sun_cycle, day + 1);
    if let Some(boundary) = tomorrow.next_boundary(None) {
        let until: u64 = (MINUTES_PER_DAY - now) as u64 + boundary as u64;
        return Some(until * 60 + BOUNDARY_MARGIN_SECONDS);
    }
    Some(POLAR_RECHECK_SECONDS)
}

/// The seconds until the next schedule transition, if a timer is needed.
///
/// This drives the event loop timer that flips night light on/off at the
/// configured boundary even when nothing else changes.
pub fn next_transition<T, L: Copy, F: Fn(i64, L) -> SunCycle>(
    config: &Config<T>,
    location: Option<L>,
    sun_cycle: &F,
) -> (wait: Option<u64>)
    requires
        forall|day: i64|
            follows_sun(*config, location) && FIRST_DAY <= day <= LAST_DAY + 1 ==> #[trigger]
            call_requires(*sun_cycle, (day, location->0)),
    ensures
        wait is Some <==> config.enabled && !config.always_on,
        wait matches Some(seconds) ==> exists|day: i64, now: u16|
            {
                &&& #[trigger] clock_shows_day(day as int)
                &&& #[trigger] clock_shows_minute(now as int)
                &&& waits(*config, location, *sun_cycle, day, now as int, seconds as int)
            },
{
    if !config.enabled {
        return None;
    }
    if config.always_on {
        return None;
    }
    let (day, now) = day_and_minutes();
    next_transition_at(config, location, sun_cycle, day, now)
}

/// Within a day, the night period is the minutes less far past its start than
/// its end is, counted around midnight.
pub proof fn law_night_is_cyclic(now: int, start: int, end: int)
    requires
        0 <= now < MINUTES_PER_DAY,
        0 <= start < MINUTES_PER_DAY,
        0 <= end < MINUTES_PER_DAY,
    ensures
        in_night(now, start, end) <==> (now - start) % (MINUTES_PER_DAY as int) < (end - start) % (
        MINUTES_PER_DAY as int),
{
}

/// The period from `start` to `end` and the one from `end` to `start` share no
/// minute, and together hold every minute, unless both are the same minute and
/// both periods are empty.
pub proof fn law_night_and_day(now: int, start: int, end: int)
    ensures
        start != end ==> (in_night(now, start, end) <==> !in_night(now, end, start)),
        start == end ==> !in_night(now, start, end),
{
}

/// From one minute to the next boundary of the same day nothing changes, and at
/// the boundary night turns into day or day into night.
pub proof fn law_boundary_today(cycle: SunCycle, now: int, boundary: int)
    requires
        cycle.boundary_after(now) == Some(boundary),
    ensures
        now < boundary,
        forall|m: int| now <= m < boundary ==> #[trigger] cycle.night(m) == cycle.night(now),
        cycle matches SunCycle::Times { sunset, sunrise } && sunset != sunrise ==> cycle.night(
            boundary,
        ) != cycle.night(now),
{
}

/// Once no boundary is left in a day, nothing changes until it ends.
pub proof fn law_no_boundary_left(cycle: SunCycle, now: int, m: int)
    requires
        cycle.boundary_after(now) is None,
        now <= m,
    ensures
        cycle.night(m) == cycle.night(now),
{
}

/// Under the manual schedule the active temperature changes at the boundary that
/// the timer waits for, and nowhere before it. This holds of a start and an end
/// within a day that differ; where they are the same there is no night at all.
pub proof fn law_timer_flips<T, L, F: Fn(i64, L) -> SunCycle>(
    config: Config<T>,
    location: Option<L>,
    sun_cycle: F,
    day: i64,
    now: int,
    wait: int,
)
    requires
        config.enabled,
        !config.always_on,
        !follows_sun(config, location),
        config.schedule_start_minutes < MINUTES_PER_DAY,
        config.schedule_end_minutes < MINUTES_PER_DAY,
        config.schedule_start_minutes != config.schedule_end_minutes,
        0 <= now < MINUTES_PER_DAY,
        waits(config, location, sun_cycle, day, now, wait),
    ensures
        ({
            let cycle = manual_cycle(config);
            let minutes = (wait - BOUNDARY_MARGIN_SECONDS) / 60;
            &&& wait == wait_until(0, minutes)
            &&& 0 < minutes <= MINUTES_PER_DAY
            &&& forall|k: int|
                0 <= k < minutes ==> temperature_at(
                    config,
                    #[trigger] cycle.night((now + k) % (MINUTES_PER_DAY as int)),
                ) == temperature_at(config, cycle.night(now))
            &&& temperature_at(config, cycle.night((now + minutes) % (MINUTES_PER_DAY as int)))
                != temperature_at(config, cycle.night(now))
        }),
{
}

/// Whatever the cycles of two days are, the timer waits for a boundary at which
/// night turns into day or day into night, and nothing changes before it: not in
/// what is left of today, and not tomorrow before its first boundary. From
/// midnight on tomorrow's cycle counts, so what is said of tomorrow is said of
/// that cycle alone. This holds of times that differ; where they are the same
/// there is no night at all.
pub proof fn law_timer_follows_sun(today: SunCycle, tomorrow: SunCycle, now: int)
    requires
        today.in_day(),
        tomorrow.in_day(),
        today matches SunCycle::Times { sunset, sunrise } ==> sunset != sunrise,
        tomorrow matches SunCycle::Times { sunset, sunrise } ==> sunset != sunrise,
        0 <= now < MINUTES_PER_DAY,
    ensures
        match wait_today(today, now) {
            Some(wait) => exists|boundary: int|
                {
                    &&& now < boundary < MINUTES_PER_DAY
                    &&& wait == #[trigger] wait_until(now, boundary)
                    &&& forall|m: int|
                        now <= m < boundary ==> #[trigger] today.night(m) == today.night(now)
                    &&& today.night(boundary) != today.night(now)
                },
            None => {
                &&& forall|m: int|
                    now <= m < MINUTES_PER_DAY ==> #[trigger] today.night(m) == today.night(now)
                &&& tomorrow is Times ==> exists|boundary: int|
                    {
                        &&& 0 <= boundary < MINUTES_PER_DAY
                        &&& wait_tomorrow(tomorrow, now) == #[trigger] wait_until(
                            now,
                            MINUTES_PER_DAY + boundary,
                        )
                        &&& forall|m: int|
                            0 <= m < boundary ==> #[trigger] tomorrow.night(m) != tomorrow.night(
                                boundary,
                            )
                    }
                &&& !(tomorrow is Times) ==> wait_tomorrow(tomorrow, now) == POLAR_RECHECK_SECONDS
            },
        },
{
    match today.boundary_after(now) {
        Some(boundary) => {
            assert(wait_today(today, now) == Some(wait_until(now, boundary)));
        },
        None => {
            if let Some(boundary) = tomorrow.boundary_after(-1) {
                assert(wait_tomorrow(tomorrow, now) == wait_until(now, MINUTES_PER_DAY + boundary));
            }
        },
    }
}

/// A timer that is set at the second `s` of the minute `now` fires within a minute
/// and a half after the boundary begins, and not before half a minute has passed.
pub proof fn law_timer_margin(now: int, boundary: int, s: int)
    requires
        0 <= s < 60,
    ensures
        boundary * 60 + 30 <= now * 60 + s + wait_until(now, boundary) < boundary * 60 + 90,
{
}

/// With times within a day a timer never waits longer than to the end of the
/// next day, and always longer than its margin.
pub proof fn law_wait_bounded<T, L, F: Fn(i64, L) -> SunCycle>(
    config: Config<T>,
    location: Option<L>,
    sun_cycle: F,
    day: i64,
    now: int,
    wait: int,
)
    requires
        0 <= now < MINUTES_PER_DAY,
        forall|d: i64, cycle: SunCycle| #[trigger]
            rules(config, location, sun_cycle, d, cycle) ==> cycle.in_day(),
        waits(config, location, sun_cycle, day, now, wait),
    ensures
        BOUNDARY_MARGIN_SECONDS < wait < 2 * MINUTES_PER_DAY * 60 + BOUNDARY_MARGIN_SECONDS,
{
}

/// Where the sun crosses the horizon on one day at one place. `T` is the type of
/// a time in UTC.
#[derive(Debug, Clone, Copy, PartialEq)]
pub enum SolarDay<T> {
    /// The sun stays below the horizon.
    NeverRises,
    /// The sun stays above the horizon.
    NeverSets,
    /// The sun sets and rises.
    Crossings {
        /// Sunset.
        sunset: T,
        /// Sunrise.
        sunrise: T,
    },
}

/// Is `cycle` what a solar day comes to in local time, at an offset of
/// `offset` minutes from UTC? `to_local` gives the local minute of a time in
/// UTC; a minute past the end of the day counts from its start.
pub open spec fn is_local_cycle<T, W: Fn(T, i64) -> u16>(
    solar: SolarDay<T>,
    offset: i64,
    to_local: W,
    cycle: SunCycle,
) -> bool {
    match solar {
        SolarDay::NeverRises => cycle == SunCycle::AlwaysDown,
        SolarDay::NeverSets => cycle == SunCycle::AlwaysUp,
        SolarDay::Crossings { sunset, sunrise } => exists|a: u16, b: u16|
            #![trigger call_ensures(to_local, (sunset, offset), a), call_ensures(
                to_local,
                (sunrise, offset),
                b,
            )]
            {
                &&& call_ensures(to_local, (sunset, offset), a)
                &&& call_ensures(to_local, (sunrise, offset), b)
                &&& cycle == (SunCycle::Times {
                    sunset: a % MINUTES_PER_DAY,
                    sunrise: b % MINUTES_PER_DAY,
                })
            },
    }
}

/// Sunset and sunrise for a date at a location, at the UTC second `second` and at
/// an offset of `offset` minutes from UTC.
///
/// `solve` gives the crossings for a day of the year at a second and a location.
pub fn sun_cycle_at<L, T, S: Fn(i64, i64, L) -> SolarDay<T>, W: Fn(T, i64) -> u16>(
    day: i64,
    location: L,
    second: i64,
    offset: i64,
    solve: &S,
    to_local: &W,
) -> (cycle: SunCycle)
    requires
        EARLIEST_YEAR_START <= day <= i64::MAX - 719468,
        call_requires(*solve, (day_in_year(day as int) as i64, second, location)),
        forall|time: T| #[trigger] call_requires(*to_local, (time, offset)),
    ensures
        cycle.in_day(),
        exists|solar: SolarDay<T>| #[trigger]
            call_ensures(*solve, (day_in_year(day as int) as i64, second, location), solar)
                && is_local_cycle(solar, offset, *to_local, cycle),
{
    let n: i64 = day_of_year(day);
    match solve(n, second, location) {
        SolarDay::NeverRises => SunCycle::AlwaysDown,
        SolarDay::NeverSets => SunCycle::AlwaysUp,
        SolarDay::Crossings { sunset, sunrise } => {
            let sunset: u16 = to_local(sunset, offset);
            let sunrise: u16 = to_local(sunrise, offset);
            SunCycle::Times {
                sunset: sunset % MINUTES_PER_DAY,
                sunrise: sunrise % MINUTES_PER_DAY,
            }
        },
    }
}

/// Is `cycle` what the sun gives for the day `day` at a location: the crossings
/// that `solve` gives for that day of the year at a second that the clock gave,
/// in local time at an offset that the clock showed?
pub open spec fn sun_gives<L, T, S: Fn(i64, i64, L) -> SolarDay<T>, W: Fn(T, i64) -> u16>(
    day: i64,
    location: L,
    solve: S,
    to_local: W,
    cycle: SunCycle,
) -> bool {
    exists|second: i64, offset: i64, solar: SolarDay<T>|
        {
            &&& clock_gives_second(second)
            &&& valid_second(second as int)
            &&& clock_shows_offset(offset as int)
            &&& #[trigger] call_ensures(
                solve,
                (day_in_year(day as int) as i64, second, location),
                solar,
            )
            &&& #[trigger] is_local_cycle(solar, offset, to_local, cycle)
        }
}

/// Compute sunset and sunrise times for a date at a location.
///
/// `day` is days since 1970-01-01 (UTC). Times are returned in local minutes
/// after midnight, using the system's current UTC offset.
pub fn sun_cycle<L, T, S: Fn(i64, i64, L) -> SolarDay<T>, W: Fn(T, i64) -> u16>(
    day: i64,
    location: L,
    solve: &S,
    to_local: &W,
) -> (cycle: SunCycle)
    requires
        EARLIEST_YEAR_START <= day <= i64::MAX - 719468,
        forall|second: i64|
            valid_second(second as int) ==> #[trigger] call_requires(
                *solve,
                (day_in_year(day as int) as i64, second, location),
            ),
        forall|time: T, offset: i64|
            clock_shows_offset(offset as int) ==> #[trigger] call_requires(
                *to_local,
                (time, offset),
            ),
    ensures
        cycle.in_day(),
        sun_gives(day, location, *solve, *to_local, cycle),
{
    let second: i64 = utc_second();
    let offset: i64 = local_utc_offset_minutes();
    sun_cycle_at(day, location, second, offset, solve, to_local)
}

/// Is `cycle` the cycle that rules the day `day`: one that the sun gives for the
/// day at the location, or the manual schedule?
pub open spec fn rules_by_sun<
    T,
    L,
    U,
    S: Fn(i64, i64, L) -> SolarDay<U>,
    W: Fn(U, i64) -> u16,
>(
    config: Config<T>,
    location: Option<L>,
    solve: S,
    to_local: W,
    day: i64,
    cycle: SunCycle,
) -> bool {
    if follows_sun(config, location) {
        sun_gives(day, location->0, solve, to_local, cycle)
    } else {
        cycle == manual_cycle(config)
    }
}

/// Can the sun be asked for each day from `FIRST_DAY` to `last`, where the
/// schedule follows it?
pub open spec fn sun_answers<
    T,
    L,
    U,
    S: Fn(i64, i64, L) -> SolarDay<U>,
    W: Fn(U, i64) -> u16,
>(config: Config<T>, location: Option<L>, solve: S, to_local: W, last: int) -> bool {
    follows_sun(config, location) ==> {
        &&& forall|day: i64, second: i64|
            FIRST_DAY <= day <= last && valid_second(second as int) ==> #[trigger] call_requires(
                solve,
                (day_in_year(day as int) as i64, second, location->0),
            )
        &&& forall|time: U, offset: i64|
            clock_shows_offset(offset as int) ==> #[trigger] call_requires(to_local, (time, offset))
    }
}

/// Determine the currently active night light temperature, if any, where the
/// automatic schedule goes by the sunset and the sunrise of the local day.
///
/// `location` is required for the automatic sunset-to-sunrise schedule. When
/// absent, the manual schedule is used.
pub fn active_temperature_by_sun<
    T: Copy,
    L: Copy,
    U,
    S: Fn(i64, i64, L) -> SolarDay<U>,
    W: Fn(U, i64) -> u16,
>(config: &Config<T>, location: Option<L>, solve: &S, to_local: &W) -> (temperature: Option<T>)
    requires
        sun_answers(*config, location, *solve, *to_local, LAST_DAY as int),
    ensures
        !config.enabled ==> temperature is None,
        config.enabled && config.always_on ==> temperature == Some(config.temperature),
        config.enabled && !config.always_on ==> exists|day: i64, now: u16, cycle: SunCycle|
            {
                &&& clock_shows_day(day as int)
                &&& #[trigger] clock_shows_minute(now as int)
                &&& #[trigger] rules_by_sun(*config, location, *solve, *to_local, day, cycle)
                &&& temperature == temperature_at(*config, cycle.night(now as int))
            },
        config.enabled && !config.always_on && config.auto_schedule && location is Some ==> exists|
            day: i64,
            now: u16,
            second: i64,
            offset: i64,
            solar: SolarDay<U>,
        |
            {
                &&& #[trigger] clock_shows_day(day as int)
                &&& #[trigger] clock_shows_minute(now as int)
                &&& clock_gives_second(second)
                &&& #[trigger] clock_shows_offset(offset as int)
                &&& #[trigger] call_ensures(
                    *solve,
                    (day_in_year(day as int) as i64, second, location->Some_0),
                    solar,
                )
                &&& match solar {
                    SolarDay::NeverRises => temperature == Some(config.temperature),
                    SolarDay::NeverSets => temperature is None,
                    SolarDay::Crossings { sunset, sunrise } => exists|a: u16, b: u16|
                        {
                            &&& #[trigger] call_ensures(*to_local, (sunset, offset), a)
                            &&& #[trigger] call_ensures(*to_local, (sunrise, offset), b)
                            &&& temperature == if (now - a) % 1440 < (b - a) % 1440 {
                                Some(config.temperature)
                            } else {
                                None
                            }
                        },
                }
            },
{
    let ghost followed = follows_sun(*config, location);
    let sun = |day: i64, place: L| -> (cycle: SunCycle)
        requires
            followed,
            place == location->0,
            FIRST_DAY <= day <= LAST_DAY,
        ensures
            sun_gives(day, place, *solve, *to_local, cycle),
        { sun_cycle(day, place, solve, to_local) };
    let temperature = active_temperature(config, location, &sun);
    proof {
        if config.enabled && !config.always_on {
            let (day, now, cycle) = choose|day: i64, now: u16, cycle: SunCycle|
                {
                    &&& clock_shows_day(day as int)
                    &&& #[trigger] clock_shows_minute(now as int)
                    &&& #[trigger] rules(*config, location, sun, day, cycle)
                    &&& temperature == temperature_at(*config, cycle.night(now as int))
                };
            assert(rules_by_sun(*config, location, *solve, *to_local, day, cycle));
            if followed {
                law_temperature_by_sun(
                    *config,
                    location->0,
                    *solve,
                    *to_local,
                    day,
                    now as int,
                    cycle,
                );
                assert(clock_shows_day(day as int) && clock_shows_minute(now as int));
            }
        }
    }
    temperature
}

/// Is `wait` the number of seconds to wait for the next boundary, from the minute
/// `now` of the day `day`, where the automatic schedule goes by the sun?
pub open spec fn waits_by_sun<
    T,
    L,
    U,
    S: Fn(i64, i64, L) -> SolarDay<U>,
    W: Fn(U, i64) -> u16,
>(
    config: Config<T>,
    location: Option<L>,
    solve: S,
    to_local: W,
    day: i64,
    now: int,
    wait: int,
) -> bool {
    exists|today: SunCycle| #[trigger]
        rules_by_sun(config, location, solve, to_local, day, today) && match wait_today(
            today,
            now,
        ) {
            Some(seconds) => wait == seconds,
            None => exists|tomorrow: SunCycle| #[trigger]
                rules_by_sun(config, location, solve, to_local, (day + 1) as i64, tomorrow) && wait
                    == wait_tomorrow(tomorrow, now),
        }
}

/// The seconds until the next schedule transition, if a timer is needed, where
/// the automatic schedule goes by the sunset and the sunrise of each day.
pub fn next_transition_by_sun<
    T,
    L: Copy,
    U,
    S: Fn(i64, i64, L) -> SolarDay<U>,
    W: Fn(U, i64) -> u16,
>(config: &Config<T>, location: Option<L>, solve: &S, to_local: &W) -> (wait: Option<u64>)
    requires
        sun_answers(*config, location, *solve, *to_local, LAST_DAY + 1),
    ensures
        wait is Some <==> config.enabled && !config.always_on,
        wait matches Some(seconds) ==> exists|day: i64, now: u16|
            {
                &&& #[trigger] clock_shows_day(day as int)
                &&& #[trigger] clock_shows_minute(now as int)
                &&& waits_by_sun(
                    *config,
                    location,
                    *solve,
                    *to_local,
                    day,
                    now as int,
                    seconds as int,
                )
            },
{
    let ghost followed = follows_sun(*config, location);
    let sun = |day: i64, place: L| -> (cycle: SunCycle)
        requires
            followed,
            place == location->0,
            FIRST_DAY <= day <= LAST_DAY + 1,
        ensures
            sun_gives(day, place, *solve, *to_local, cycle),
        { sun_cycle(day, place, solve, to_local) };
    let wait = next_transition(config, location, &sun);
    proof {
        if let Some(seconds) = wait {
            let (day, now) = choose|day: i64, now: u16|
                {
                    &&& #[trigger] clock_shows_day(day as int)
                    &&& #[trigger] clock_shows_minute(now as int)
                    &&& waits(*config, location, sun, day, now as int, seconds as int)
                };
            let today = choose|today: SunCycle| #[trigger]
                rules(*config, location, sun, day, today) && match wait_today(today, now as int) {
                    Some(s) => seconds as int == s,
                    None => exists|tomorrow: SunCycle| #[trigger]
                        rules(*config, location, sun, (day + 1) as i64, tomorrow) && seconds as int
                            == wait_tomorrow(tomorrow, now as int),
                };
            assert(rules_by_sun(*config, location, *solve, *to_local, day, today));
            if wait_today(today, now as int) is None {
                let tomorrow = choose|tomorrow: SunCycle| #[trigger]
                    rules(*config, location, sun, (day + 1) as i64, tomorrow) && seconds as int
                        == wait_tomorrow(tomorrow, now as int);
                assert(rules_by_sun(
                    *config,
                    location,
                    *solve,
                    *to_local,
                    (day + 1) as i64,
                    tomorrow,
                ));
            }
            assert(waits_by_sun(
                *config,
                location,
                *solve,
                *to_local,
                day,
                now as int,
                seconds as int,
            ));
        }
    }
    wait
}

/// What the sun gives lies within a day.
pub proof fn law_sun_within_day<L, T, S: Fn(i64, i64, L) -> SolarDay<T>, W: Fn(T, i64) -> u16>(
    day: i64,
    location: L,
    solve: S,
    to_local: W,
    cycle: SunCycle,
)
    requires
        sun_gives(day, location, solve, to_local, cycle),
    ensures
        cycle.in_day(),
        cycle matches SunCycle::Times { sunset, sunrise } ==> sunset < 1440 && sunrise < 1440,
{
}

/// A timer that goes by the sun never waits longer than to the end of the next
/// day, and always longer than its margin; so does one under a manual schedule
/// within a day.
pub proof fn law_wait_bounded_by_sun<
    T,
    L,
    U,
    S: Fn(i64, i64, L) -> SolarDay<U>,
    W: Fn(U, i64) -> u16,
>(
    config: Config<T>,
    location: Option<L>,
    solve: S,
    to_local: W,
    day: i64,
    now: int,
    wait: int,
)
    requires
        0 <= now < MINUTES_PER_DAY,
        !follows_sun(config, location) ==> manual_cycle(config).in_day(),
        waits_by_sun(config, location, solve, to_local, day, now, wait),
    ensures
        BOUNDARY_MARGIN_SECONDS < wait < 2 * MINUTES_PER_DAY * 60 + BOUNDARY_MARGIN_SECONDS,
{
    assert forall|d: i64, cycle: SunCycle| #[trigger]
        rules_by_sun(config, location, solve, to_local, d, cycle) implies cycle.in_day() by {
        if follows_sun(config, location) {
            law_sun_within_day(d, location->0, solve, to_local, cycle);
        }
    }
}

/// The night period in so many words: the minutes from its start up to its end,
/// or, where it ends before it starts, all but those from its end up to its
/// start.
pub proof fn law_night_period(now: int, start: int, end: int)
    ensures
        start <= end ==> (in_night(now, start, end) <==> start <= now && now < end),
        end < start ==> (in_night(now, start, end) <==> !(end <= now && now < start)),
{
}

/// When a cycle has it night: always where the sun never rises, never where it
/// never sets, and otherwise from its sunset to its sunrise, counted around
/// midnight.
pub proof fn law_cycle_night(cycle: SunCycle, now: int)
    ensures
        match cycle {
            SunCycle::AlwaysDown => cycle.night(now),
            SunCycle::AlwaysUp => !cycle.night(now),
            SunCycle::Times { sunset, sunrise } => {
                &&& sunset <= sunrise ==> (cycle.night(now) <==> sunset <= now && now < sunrise)
                &&& sunrise < sunset ==> (cycle.night(now) <==> !(sunrise <= now && now < sunset))
                &&& 0 <= now < 1440 && sunset < 1440 && sunrise < 1440 ==> (cycle.night(now) <==> (
                now - sunset) % 1440 < (sunrise - sunset) % 1440)
            },
        },
{
}

/// A boundary is the first of the sunset and the sunrise that comes after the
/// minute `now`, and there is none only where both have passed or the sun does
/// neither.
pub proof fn law_boundary_is_first(cycle: SunCycle, now: int)
    ensures
        cycle.boundary_after(now) matches Some(b) ==> {
            &&& now < b
            &&& cycle matches SunCycle::Times { sunset, sunrise } && (b == sunset || b == sunrise)
                && (now < sunset ==> b <= sunset) && (now < sunrise ==> b <= sunrise)
        },
        cycle.boundary_after(now) is None ==> (cycle matches SunCycle::Times { sunset, sunrise }
            ==> sunset <= now && sunrise <= now),
{
}

/// A temperature is applied at night, or at any time if it always is, as long as
/// the night light is enabled; it is the one that is set.
pub proof fn law_temperature_applied<T>(config: Config<T>, night: bool)
    ensures
        temperature_at(config, night) is Some <==> config.enabled && (config.always_on || night),
        temperature_at(config, night) matches Some(t) ==> t == config.temperature,
{
}

/// Which cycle rules a day: what the sun gives for the day and the location where
/// the schedule is automatic and the location is known, and the manual times
/// otherwise.
pub proof fn law_ruling_cycle<T, L, F: Fn(i64, L) -> SunCycle>(
    config: Config<T>,
    location: Option<L>,
    sun_cycle: F,
    day: i64,
    cycle: SunCycle,
)
    requires
        rules(config, location, sun_cycle, day, cycle),
    ensures
        config.auto_schedule && location is Some ==> call_ensures(
            sun_cycle,
            (day, location->Some_0),
            cycle,
        ),
        !config.auto_schedule || location is None ==> (cycle matches SunCycle::Times {
            sunset,
            sunrise,
        } && sunset == config.schedule_start_minutes && sunrise == config.schedule_end_minutes),
{
}

/// Where a timer goes: to the earlier of the sunset and the sunrise that come
/// after the minute `now` of the day, if one does; otherwise to the earlier of
/// both on the next day; and where that day has neither, to another look in six
/// hours. It goes half a minute past the boundary.
pub proof fn law_timer_target<T, L, F: Fn(i64, L) -> SunCycle>(
    config: Config<T>,
    location: Option<L>,
    sun_cycle: F,
    day: i64,
    now: int,
    wait: int,
)
    requires
        day < i64::MAX,
        waits(config, location, sun_cycle, day, now, wait),
    ensures
        exists|today: SunCycle| #[trigger]
            rules(config, location, sun_cycle, day, today) && match today {
                SunCycle::Times { sunset, sunrise } => {
                    &&& now < sunset && (sunrise <= now || sunset <= sunrise) ==> wait == (sunset
                        - now) * 60 + 30
                    &&& now < sunrise && (sunset <= now || sunrise <= sunset) ==> wait == (sunrise
                        - now) * 60 + 30
                },
                _ => true,
            } && ((today matches SunCycle::Times { sunset, sunrise } ==> sunset <= now && sunrise
                <= now) ==> exists|tomorrow: SunCycle| #[trigger]
                rules(config, location, sun_cycle, (day + 1) as i64, tomorrow) && match tomorrow {
                    SunCycle::Times { sunset, sunrise } => {
                        &&& sunset <= sunrise ==> wait == (1440 - now + sunset) * 60 + 30
                        &&& sunrise <= sunset ==> wait == (1440 - now + sunrise) * 60 + 30
                    },
                    _ => wait == 6 * 60 * 60,
                }),
{
    let today = choose|today: SunCycle| #[trigger]
        rules(config, location, sun_cycle, day, today) && match wait_today(today, now) {
            Some(seconds) => wait == seconds,
            None => exists|tomorrow: SunCycle| #[trigger]
                rules(config, location, sun_cycle, (day + 1) as i64, tomorrow) && wait
                    == wait_tomorrow(tomorrow, now),
        };
    assert(rules(config, location, sun_cycle, day, today));
}

/// What a solar day comes to in local time: the local minutes of its sunset and of
/// its sunrise, each as the minute of a day, so that it is night exactly at the
/// minutes less far past the one than the other is, counted around midnight.
pub proof fn law_local_cycle<T, W: Fn(T, i64) -> u16>(
    solar: SolarDay<T>,
    offset: i64,
    to_local: W,
    cycle: SunCycle,
    now: int,
)
    requires
        is_local_cycle(solar, offset, to_local, cycle),
        0 <= now < 1440,
    ensures
        match solar {
            SolarDay::NeverRises => cycle is AlwaysDown && cycle.night(now),
            SolarDay::NeverSets => cycle is AlwaysUp && !cycle.night(now),
            SolarDay::Crossings { sunset, sunrise } => exists|a: u16, b: u16|
                {
                    &&& #[trigger] call_ensures(to_local, (sunset, offset), a)
                    &&& #[trigger] call_ensures(to_local, (sunrise, offset), b)
                    &&& cycle == (SunCycle::Times {
                        sunset: (a as int % 1440) as u16,
                        sunrise: (b as int % 1440) as u16,
                    })
                    &&& cycle.night(now) <==> (now - a) % 1440 < (b - a) % 1440
                },
        },
{
    if let SolarDay::Crossings { sunset, sunrise } = solar {
        let (a, b) = choose|a: u16, b: u16|
            {
                &&& #[trigger] call_ensures(to_local, (sunset, offset), a)
                &&& #[trigger] call_ensures(to_local, (sunrise, offset), b)
                &&& cycle == (SunCycle::Times {
                    sunset: a % MINUTES_PER_DAY,
                    sunrise: b % MINUTES_PER_DAY,
                })
            };
        let s = a as int % 1440;
        let r = b as int % 1440;
        assert((now - a) % 1440 == (now - s) % 1440);
        assert((b - a) % 1440 == (r - s) % 1440);
        assert(call_ensures(to_local, (sunset, offset), a));
        assert(call_ensures(to_local, (sunrise, offset), b));
    }
}

/// What the sun gives for a day: what `solve` gives for the day of the year, a
/// second of the clock and the location, its sunset and its sunrise each as the
/// local minute that `to_local` gives at an offset of the clock.
pub proof fn law_sun_gives<L, T, S: Fn(i64, i64, L) -> SolarDay<T>, W: Fn(T, i64) -> u16>(
    day: i64,
    location: L,
    solve: S,
    to_local: W,
    cycle: SunCycle,
)
    requires
        sun_gives(day, location, solve, to_local, cycle),
    ensures
        exists|second: i64, offset: i64, solar: SolarDay<T>|
            {
                &&& clock_gives_second(second)
                &&& #[trigger] clock_shows_offset(offset as int)
                &&& #[trigger] call_ensures(
                    solve,
                    (day_in_year(day as int) as i64, second, location),
                    solar,
                )
                &&& match solar {
                    SolarDay::NeverRises => cycle is AlwaysDown,
                    SolarDay::NeverSets => cycle is AlwaysUp,
                    SolarDay::Crossings { sunset, sunrise } => exists|a: u16, b: u16|
                        {
                            &&& #[trigger] call_ensures(to_local, (sunset, offset), a)
                            &&& #[trigger] call_ensures(to_local, (sunrise, offset), b)
                            &&& cycle == (SunCycle::Times {
                                sunset: (a as int % 1440) as u16,
                                sunrise: (b as int % 1440) as u16,
                            })
                        },
                }
            },
{
    let (second, offset, solar) = choose|second: i64, offset: i64, solar: SolarDay<T>|
        {
            &&& clock_gives_second(second)
            &&& valid_second(second as int)
            &&& clock_shows_offset(offset as int)
            &&& #[trigger] call_ensures(
                solve,
                (day_in_year(day as int) as i64, second, location),
                solar,
            )
            &&& #[trigger] is_local_cycle(solar, offset, to_local, cycle)
        };
    assert(clock_shows_offset(offset as int));
    law_local_cycle(solar, offset, to_local, cycle, 0);
}

/// Which cycle rules a day where the automatic schedule goes by the sun: the
/// manual times without a location or an automatic schedule, and otherwise the
/// local times of what `solve` gives for the day of the year, a second of the
/// clock and the location.
pub proof fn law_ruling_cycle_by_sun<
    T,
    L,
    U,
    S: Fn(i64, i64, L) -> SolarDay<U>,
    W: Fn(U, i64) -> u16,
>(
    config: Config<T>,
    location: Option<L>,
    solve: S,
    to_local: W,
    day: i64,
    cycle: SunCycle,
)
    requires
        rules_by_sun(config, location, solve, to_local, day, cycle),
    ensures
        !config.auto_schedule || location is None ==> (cycle matches SunCycle::Times {
            sunset,
            sunrise,
        } && sunset == config.schedule_start_minutes && sunrise == config.schedule_end_minutes),
        config.auto_schedule && location is Some ==> exists|
            second: i64,
            offset: i64,
            solar: SolarDay<U>,
        |
            {
                &&& clock_gives_second(second)
                &&& #[trigger] clock_shows_offset(offset as int)
                &&& #[trigger] call_ensures(
                    solve,
                    (day_in_year(day as int) as i64, second, location->Some_0),
                    solar,
                )
                &&& match solar {
                    SolarDay::NeverRises => cycle is AlwaysDown,
                    SolarDay::NeverSets => cycle is AlwaysUp,
                    SolarDay::Crossings { sunset, sunrise } => exists|a: u16, b: u16|
                        {
                            &&& #[trigger] call_ensures(to_local, (sunset, offset), a)
                            &&& #[trigger] call_ensures(to_local, (sunrise, offset), b)
                            &&& cycle == (SunCycle::Times {
                                sunset: (a as int % 1440) as u16,
                                sunrise: (b as int % 1440) as u16,
                            })
                        },
                }
            },
{
    if follows_sun(config, location) {
        law_sun_gives(day, location->0, solve, to_local, cycle);
    }
}

/// When the temperature is applied under a schedule that follows the sun: where
/// the crossings that `solve` gives for the day come to the local minutes `a` of
/// the sunset and `b` of the sunrise, exactly at the minutes that are less far
/// past `a` than `b` is, counted around midnight; at every minute where the sun
/// never rises; at none where it never sets.
pub proof fn law_temperature_by_sun<
    T,
    L,
    U,
    S: Fn(i64, i64, L) -> SolarDay<U>,
    W: Fn(U, i64) -> u16,
>(
    config: Config<T>,
    location: L,
    solve: S,
    to_local: W,
    day: i64,
    now: int,
    cycle: SunCycle,
)
    requires
        config.enabled,
        !config.always_on,
        config.auto_schedule,
        0 <= now < 1440,
        rules_by_sun(config, Some(location), solve, to_local, day, cycle),
    ensures
        exists|second: i64, offset: i64, solar: SolarDay<U>|
            {
                &&& clock_gives_second(second)
                &&& #[trigger] clock_shows_offset(offset as int)
                &&& #[trigger] call_ensures(
                    solve,
                    (day_in_year(day as int) as i64, second, location),
                    solar,
                )
                &&& match solar {
                    SolarDay::NeverRises => temperature_at(config, cycle.night(now)) == Some(
                        config.temperature,
                    ),
                    SolarDay::NeverSets => temperature_at(config, cycle.night(now)) is None,
                    SolarDay::Crossings { sunset, sunrise } => exists|a: u16, b: u16|
                        {
                            &&& #[trigger] call_ensures(to_local, (sunset, offset), a)
                            &&& #[trigger] call_ensures(to_local, (sunrise, offset), b)
                            &&& temperature_at(config, cycle.night(now)) == if (now - a) % 1440 < (b
                                - a) % 1440 {
                                Some(config.temperature)
                            } else {
                                None
                            }
                        },
                }
            },
{
    let (second, offset, solar) = choose|second: i64, offset: i64, solar: SolarDay<U>|
        {
            &&& clock_gives_second(second)
            &&& valid_second(second as int)
            &&& clock_shows_offset(offset as int)
            &&& #[trigger] call_ensures(
                solve,
                (day_in_year(day as int) as i64, second, location),
                solar,
            )
            &&& #[trigger] is_local_cycle(solar, offset, to_local, cycle)
        };
    assert(clock_shows_offset(offset as int));
    law_local_cycle(solar, offset, to_local, cycle, now);
}

/// Where a timer that goes by the sun goes: to the earlier of the sunset and the
/// sunrise that come after the minute `now` of the day, if one does; otherwise to
/// the earlier of both on the next day; and where that day has neither, to
/// another look in six hours. It goes half a minute past the boundary.
pub proof fn law_timer_target_by_sun<
    T,
    L,
    U,
    S: Fn(i64, i64, L) -> SolarDay<U>,
    W: Fn(U, i64) -> u16,
>(
    config: Config<T>,
    location: Option<L>,
    solve: S,
    to_local: W,
    day: i64,
    now: int,
    wait: int,
)
    requires
        day < i64::MAX,
        waits_by_sun(config, location, solve, to_local, day, now, wait),
    ensures
        exists|today: SunCycle| #[trigger]
            rules_by_sun(config, location, solve, to_local, day, today) && match today {
                SunCycle::Times { sunset, sunrise } => {
                    &&& now < sunset && (sunrise <= now || sunset <= sunrise) ==> wait == (sunset
                        - now) * 60 + 30
                    &&& now < sunrise && (sunset <= now || sunrise <= sunset) ==> wait == (sunrise
                        - now) * 60 + 30
                },
                _ => true,
            } && ((today matches SunCycle::Times { sunset, sunrise } ==> sunset <= now && sunrise
                <= now) ==> exists|tomorrow: SunCycle| #[trigger]
                rules_by_sun(config, location, solve, to_local, (day + 1) as i64, tomorrow)
                    && match tomorrow {
                    SunCycle::Times { sunset, sunrise } => {
                        &&& sunset <= sunrise ==> wait == (1440 - now + sunset) * 60 + 30
                        &&& sunrise <= sunset ==> wait == (1440 - now + sunrise) * 60 + 30
                    },
                    _ => wait == 6 * 60 * 60,
                }),
{
    let today = choose|today: SunCycle| #[trigger]
        rules_by_sun(config, location, solve, to_local, day, today) && match wait_today(
            today,
            now,
        ) {
            Some(seconds) => wait == seconds,
            None => exists|tomorrow: SunCycle| #[trigger]
                rules_by_sun(config, location, solve, to_local, (day + 1) as i64, tomorrow) && wait
                    == wait_tomorrow(tomorrow, now),
        };
    assert(rules_by_sun(config, location, solve, to_local, day, today));
}

/// A timer that goes by the sun wakes up at the first change. While the day has a
/// sunset or a sunrise left, nothing changes from the minute `now` up to the
/// minute waited for, and night turns into day or day into night there. Once it
/// has none left, nothing changes until midnight, nor on the next day before the
/// minute waited for, and there something does. This holds of times that differ;
/// where they are the same there is no night at all.
pub proof fn law_timer_flips_by_sun<
    T,
    L,
    U,
    S: Fn(i64, i64, L) -> SolarDay<U>,
    W: Fn(U, i64) -> u16,
>(
    config: Config<T>,
    location: Option<L>,
    solve: S,
    to_local: W,
    day: i64,
    now: int,
    wait: int,
)
    requires
        day < i64::MAX,
        0 <= now < 1440,
        waits_by_sun(config, location, solve, to_local, day, now, wait),
    ensures
        exists|today: SunCycle| #[trigger]
            rules_by_sun(config, location, solve, to_local, day, today) && {
                let minute = now + (wait - 30) / 60;
                if today matches SunCycle::Times { sunset, sunrise } && (now < sunset || now
                    < sunrise) {
                    &&& now < minute
                    &&& forall|m: int|
                        now <= m < minute ==> #[trigger] today.night(m) == today.night(now)
                    &&& today->sunset != today->sunrise ==> today.night(minute) != today.night(now)
                } else {
                    &&& forall|m: int|
                        now <= m < 1440 ==> #[trigger] today.night(m) == today.night(now)
                    &&& exists|tomorrow: SunCycle| #[trigger]
                        rules_by_sun(config, location, solve, to_local, (day + 1) as i64, tomorrow)
                            && if tomorrow is Times {
                            &&& 1440 <= minute
                            &&& tomorrow->sunset != tomorrow->sunrise ==> forall|m: int|
                                0 <= m < minute - 1440 ==> #[trigger] tomorrow.night(m)
                                    != tomorrow.night(minute - 1440)
                            &&& minute - 1440 == tomorrow->sunset || minute - 1440
                                == tomorrow->sunrise
                        } else {
                            wait == 6 * 60 * 60
                        }
                }
            },
{
    let today = choose|today: SunCycle| #[trigger]
        rules_by_sun(config, location, solve, to_local, day, today) && match wait_today(
            today,
            now,
        ) {
            Some(seconds) => wait == seconds,
            None => exists|tomorrow: SunCycle| #[trigger]
                rules_by_sun(config, location, solve, to_local, (day + 1) as i64, tomorrow) && wait
                    == wait_tomorrow(tomorrow, now),
        };
    assert(rules_by_sun(config, location, solve, to_local, day, today));
    law_boundary_is_first(today, now);
}

} // verus!
