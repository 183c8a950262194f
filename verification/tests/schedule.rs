use night_light::night_light::{
    active_temperature, active_temperature_at, in_night_period, next_transition,
    next_transition_at, Config, SunCycle,
};

/// A sun that sets at 20:00 and rises at 06:00, wherever and whenever.
fn sun(_day: i64, _location: (f64, f64)) -> SunCycle {
    SunCycle::Times { sunset: 1200, sunrise: 360 }
}

fn config() -> Config<f32> {
    Config {
        enabled: false,
        always_on: false,
        auto_schedule: false,
        temperature: 4000.0,
        schedule_start_minutes: 1320,
        schedule_end_minutes: 420,
    }
}

#[test]
fn always_on_applies_temperature_at_any_time() {
    let mut config = Config { enabled: true, always_on: true, auto_schedule: true, ..config() };

    // Regardless of the schedule mode or location, always-on must be
    // active at any time of day.
    for location in [None, Some((52.5, 13.4))] {
        assert_eq!(active_temperature(&config, location, &sun), Some(config.temperature));
    }

    config.auto_schedule = false;
    for location in [None, Some((52.5, 13.4))] {
        assert_eq!(active_temperature(&config, location, &sun), Some(config.temperature));
    }

    for now in 0..1440 {
        for location in [None, Some((52.5, 13.4))] {
            assert_eq!(
                active_temperature_at(&config, location, &sun, 0, now),
                Some(config.temperature)
            );
        }
    }
}

#[test]
fn always_on_still_requires_master_toggle() {
    let config = Config { enabled: false, always_on: true, ..config() };

    assert_eq!(active_temperature(&config, None, &sun), None);
    assert_eq!(next_transition(&config, None, &sun), None);
}

#[test]
fn always_on_needs_no_transition_timer() {
    let config = Config { enabled: true, always_on: true, ..config() };

    assert_eq!(next_transition(&config, None, &sun), None);
}

#[test]
fn night_period_wraps_past_midnight() {
    assert!(in_night_period(1320, 1320, 420));
    assert!(in_night_period(1439, 1320, 420));
    assert!(in_night_period(0, 1320, 420));
    assert!(in_night_period(419, 1320, 420));
    assert!(!in_night_period(420, 1320, 420));
    assert!(!in_night_period(1319, 1320, 420));
    assert!(in_night_period(100, 60, 120));
    assert!(!in_night_period(120, 60, 120));
    assert!(!in_night_period(59, 60, 120));
}

#[test]
fn empty_period_holds_no_minute() {
    for now in 0..1440 {
        assert!(!in_night_period(now, 600, 600));
    }
}

#[test]
fn night_and_day_complement_each_other() {
    for now in 0..1440 {
        assert_ne!(in_night_period(now, 1320, 420), in_night_period(now, 420, 1320));
    }
}

#[test]
fn manual_schedule_rules_without_a_location() {
    let config = Config { enabled: true, auto_schedule: true, ..config() };
    assert_eq!(active_temperature_at(&config, None, &sun, 0, 1319), None);
    assert_eq!(active_temperature_at(&config, None, &sun, 0, 1320), Some(4000.0));
    assert_eq!(active_temperature_at(&config, Some((52.5, 13.4)), &sun, 0, 1200), Some(4000.0));
    assert_eq!(active_temperature_at(&config, Some((52.5, 13.4)), &sun, 0, 400), None);
}

#[test]
fn manual_schedule_rules_when_chosen() {
    let config = Config { enabled: true, ..config() };
    assert_eq!(active_temperature_at(&config, Some((52.5, 13.4)), &sun, 0, 1200), None);
    assert_eq!(active_temperature_at(&config, Some((52.5, 13.4)), &sun, 0, 400), Some(4000.0));
}

#[test]
fn polar_night_and_midnight_sun_rule_the_whole_day() {
    let config = Config { enabled: true, auto_schedule: true, ..config() };
    let down = |_: i64, _: (f64, f64)| SunCycle::AlwaysDown;
    let up = |_: i64, _: (f64, f64)| SunCycle::AlwaysUp;
    for now in [0, 720, 1439] {
        assert_eq!(active_temperature_at(&config, Some((78.2, 15.6)), &down, 0, now), Some(4000.0));
        assert_eq!(active_temperature_at(&config, Some((78.2, 15.6)), &up, 0, now), None);
    }
    assert_eq!(active_temperature(&config, Some((78.2, 15.6)), &down), Some(4000.0));
    assert_eq!(active_temperature(&config, Some((78.2, 15.6)), &up), None);
    assert_eq!(next_transition(&config, Some((78.2, 15.6)), &up), Some(21600));
}

#[test]
fn sun_cycle_is_asked_for_the_day_and_the_place() {
    let config = Config { enabled: true, auto_schedule: true, ..config() };
    let ask = |day: i64, location: (f64, f64)| {
        assert_eq!(location, (52.5, 13.4));
        if day == 10 {
            SunCycle::AlwaysDown
        } else {
            SunCycle::AlwaysUp
        }
    };
    assert_eq!(active_temperature_at(&config, Some((52.5, 13.4)), &ask, 10, 0), Some(4000.0));
    assert_eq!(active_temperature_at(&config, Some((52.5, 13.4)), &ask, 11, 0), None);
}

#[test]
fn timer_waits_for_the_next_boundary_of_the_day() {
    let config = Config { enabled: true, ..config() };
    assert_eq!(next_transition_at(&config, None, &sun, 0, 0), Some(420 * 60 + 30));
    assert_eq!(next_transition_at(&config, None, &sun, 0, 419), Some(60 + 30));
    assert_eq!(next_transition_at(&config, None, &sun, 0, 420), Some(900 * 60 + 30));
    assert_eq!(next_transition_at(&config, None, &sun, 0, 1319), Some(60 + 30));
}

#[test]
fn timer_waits_for_the_first_boundary_of_tomorrow() {
    let config = Config { enabled: true, ..config() };
    // 22:00: the night ends at 07:00 tomorrow.
    assert_eq!(next_transition_at(&config, None, &sun, 0, 1320), Some(540 * 60 + 30));
    assert_eq!(next_transition_at(&config, None, &sun, 0, 1439), Some(421 * 60 + 30));
}

#[test]
fn timer_follows_the_sun_of_each_day() {
    let config = Config { enabled: true, auto_schedule: true, ..config() };
    let drifting = |day: i64, _: (f64, f64)| SunCycle::Times {
        sunset: 1200 + day as u16,
        sunrise: 360 - day as u16,
    };
    let berlin = Some((52.5, 13.4));
    assert_eq!(next_transition_at(&config, berlin, &drifting, 1, 100), Some(259 * 60 + 30));
    assert_eq!(next_transition_at(&config, berlin, &drifting, 1, 359), Some(842 * 60 + 30));
    assert_eq!(next_transition_at(&config, berlin, &drifting, 1, 1201), Some(597 * 60 + 30));
}

#[test]
fn timer_looks_again_while_the_sun_stays_put() {
    let config = Config { enabled: true, auto_schedule: true, ..config() };
    let down = |_: i64, _: (f64, f64)| SunCycle::AlwaysDown;
    let leaving = |day: i64, _: (f64, f64)| {
        if day == 0 {
            SunCycle::AlwaysDown
        } else {
            SunCycle::Times { sunset: 730, sunrise: 710 }
        }
    };
    assert_eq!(next_transition_at(&config, Some((78.2, 15.6)), &down, 0, 600), Some(6 * 3600));
    assert_eq!(
        next_transition_at(&config, Some((78.2, 15.6)), &leaving, 0, 600),
        Some((840 + 710) * 60 + 30)
    );
}

#[test]
fn timer_fires_where_the_temperature_changes() {
    let pairs: [(u16, u16); 5] = [(1320, 420), (420, 1320), (0, 600), (600, 0), (1439, 1)];
    for (start, end) in pairs {
        let config = Config {
            enabled: true,
            schedule_start_minutes: start,
            schedule_end_minutes: end,
            ..config()
        };
        let at = |minute: u64| {
            active_temperature_at(&config, None, &sun, 0, (minute % 1440) as u16)
        };
        for now in 0u16..1440 {
            let wait = next_transition_at(&config, None, &sun, 0, now).unwrap();
            assert_eq!(wait % 60, 30);
            let minutes = wait / 60;
            assert!(0 < minutes && minutes <= 1440);
            for k in 0..minutes {
                assert_eq!(at(now as u64 + k), at(now as u64));
            }
            assert_ne!(at(now as u64 + minutes), at(now as u64));
        }
    }
}

#[test]
fn timer_is_set_while_the_schedule_is_on() {
    let config = Config { enabled: true, ..config() };
    let wait = next_transition(&config, Some((52.5, 13.4)), &sun).unwrap();
    assert!(30 < wait && wait <= 1440 * 60 + 30);
    assert_eq!(next_transition(&Config { enabled: false, ..config }, None, &sun), None);
}
