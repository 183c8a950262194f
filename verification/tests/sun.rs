use night_light::civil::days_from_civil;
use night_light::civil::day_of_year;
use night_light::clock::{local_day, local_utc_offset_minutes};
use night_light::night_light::{
    active_temperature_by_sun, next_transition_by_sun, sun_cycle, sun_cycle_at, Config, SolarDay,
    SunCycle,
};

fn to_local(utc_minutes: f64, offset: i64) -> u16 {
    (utc_minutes + offset as f64).rem_euclid(1440.0) as u16
}

#[test]
fn sun_that_never_rises_is_always_down() {
    let solve = |_: i64, _: i64, _: ()| SolarDay::<f64>::NeverRises;
    assert_eq!(sun_cycle(0, (), &solve, &to_local), SunCycle::AlwaysDown);
}

#[test]
fn sun_that_never_sets_is_always_up() {
    let solve = |_: i64, _: i64, _: ()| SolarDay::<f64>::NeverSets;
    assert_eq!(sun_cycle(0, (), &solve, &to_local), SunCycle::AlwaysUp);
}

#[test]
fn crossings_are_moved_to_local_time() {
    let solve = |_: i64, _: i64, _: ()| SolarDay::Crossings { sunset: 1100.5, sunrise: 300.25 };
    assert_eq!(
        sun_cycle_at(0, (), 0, 120, &solve, &to_local),
        SunCycle::Times { sunset: 1220, sunrise: 420 }
    );
    assert_eq!(
        sun_cycle_at(0, (), 0, -330, &solve, &to_local),
        SunCycle::Times { sunset: 770, sunrise: 1410 }
    );
}

#[test]
fn the_end_of_the_day_counts_as_its_start() {
    let solve = |_: i64, _: i64, _: ()| SolarDay::Crossings { sunset: 1440u16, sunrise: 1439u16 };
    let as_is = |minutes: u16, _: i64| minutes;
    assert_eq!(
        sun_cycle(0, (), &solve, &as_is),
        SunCycle::Times { sunset: 0, sunrise: 1439 }
    );
}

#[test]
fn the_day_of_the_year_and_the_place_are_handed_on() {
    let solve = |n: i64, second: i64, place: (f64, f64)| {
        assert_eq!(place, (52.5, 13.4));
        assert_eq!(second, 77);
        SolarDay::Crossings { sunset: n as u16, sunrise: 0 }
    };
    let as_is = |minutes: u16, _: i64| minutes;
    let day = days_from_civil(2024, 12, 31);
    assert_eq!(
        sun_cycle_at(day, (52.5, 13.4), 77, 0, &solve, &as_is),
        SunCycle::Times { sunset: 366, sunrise: 0 }
    );
}

#[test]
fn the_clock_gives_the_second_and_the_offset() {
    let before = jiff::Timestamp::now().as_second();
    let offset = local_utc_offset_minutes();
    let solve = |_: i64, second: i64, _: ()| {
        assert!(before <= second && second <= jiff::Timestamp::now().as_second());
        SolarDay::Crossings { sunset: 5u16, sunrise: 6u16 }
    };
    let to_local = |minutes: u16, given: i64| {
        assert_eq!(given, offset);
        minutes
    };
    assert_eq!(
        sun_cycle(0, (), &solve, &to_local),
        SunCycle::Times { sunset: 5, sunrise: 6 }
    );
}

fn automatic() -> Config<f32> {
    Config {
        enabled: true,
        always_on: false,
        auto_schedule: true,
        temperature: 4000.0,
        schedule_start_minutes: 600,
        schedule_end_minutes: 600,
    }
}

#[test]
fn the_sun_of_the_local_day_rules_the_temperature() {
    let first = day_of_year(local_day());
    let down = |n: i64, _: i64, place: (f64, f64)| {
        assert_eq!(place, (78.2, 15.6));
        assert!(n == first || n == day_of_year(local_day()));
        SolarDay::<f64>::NeverRises
    };
    let up = |_: i64, _: i64, _: (f64, f64)| SolarDay::<f64>::NeverSets;
    let place = Some((78.2, 15.6));
    assert_eq!(active_temperature_by_sun(&automatic(), place, &down, &to_local), Some(4000.0));
    assert_eq!(active_temperature_by_sun(&automatic(), place, &up, &to_local), None);
    let off = Config { enabled: false, ..automatic() };
    assert_eq!(active_temperature_by_sun(&off, place, &down, &to_local), None);
    let always = Config { always_on: true, ..automatic() };
    assert_eq!(active_temperature_by_sun(&always, place, &up, &to_local), Some(4000.0));
}

#[test]
fn the_manual_schedule_rules_where_no_place_is_known() {
    let down = |_: i64, _: i64, _: (f64, f64)| SolarDay::<f64>::NeverRises;
    assert_eq!(active_temperature_by_sun(&automatic(), None, &down, &to_local), None);
}

#[test]
fn the_timer_goes_by_the_sun() {
    let place = Some((78.2, 15.6));
    let up = |_: i64, _: i64, _: (f64, f64)| SolarDay::<u16>::NeverSets;
    let late = |_: i64, _: i64, _: (f64, f64)| SolarDay::Crossings {
        sunset: 2879u16,
        sunrise: 1440u16,
    };
    let as_is = |minutes: u16, _: i64| minutes;
    assert_eq!(next_transition_by_sun(&automatic(), place, &up, &as_is), Some(21600));
    // 23:59 comes at any time of day but in the last minute, which waits for 00:00.
    let wait = next_transition_by_sun(&automatic(), place, &late, &as_is).unwrap();
    assert!(30 < wait && wait <= 1439 * 60 + 30);
    assert_eq!(wait % 60, 30);
    let off = Config { enabled: false, ..automatic() };
    assert_eq!(next_transition_by_sun(&off, place, &late, &as_is), None);
}
