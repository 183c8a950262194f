use night_light::civil::days_from_civil;
use night_light::clock::{
    day_and_minutes, local_day, local_utc_offset_minutes, offset_minutes, utc_second, LocalTime,
    FIRST_DAY, LAST_DAY, MINUTES_PER_DAY,
};

fn reading(year: i16, month: i8, day: i8, hour: i8, minute: i8) -> LocalTime {
    LocalTime { year, month, day, hour, minute, offset_seconds: 0 }
}

#[test]
fn readings_give_days_and_minutes() {
    let time = reading(2024, 2, 29, 23, 59);
    assert_eq!(time.day_number(), 19782);
    assert_eq!(time.minute_of_day(), 1439);
    assert_eq!(reading(1970, 1, 1, 0, 0).minute_of_day(), 0);
}

#[test]
fn clock_days_have_bounds() {
    assert_eq!(reading(-9999, 1, 1, 0, 0).day_number(), FIRST_DAY);
    assert_eq!(reading(9999, 12, 31, 0, 0).day_number(), LAST_DAY);
}

#[test]
fn offsets_round_towards_zero() {
    assert_eq!(offset_minutes(0), 0);
    assert_eq!(offset_minutes(3600), 60);
    assert_eq!(offset_minutes(19800), 330);
    assert_eq!(offset_minutes(-12600), -210);
    assert_eq!(offset_minutes(59), 0);
    assert_eq!(offset_minutes(-59), 0);
    assert_eq!(offset_minutes(-90), -1);
}

#[test]
fn local_day_is_the_date_of_the_local_clock() {
    let days = || {
        let date = jiff::Zoned::now().date();
        days_from_civil(date.year() as i64, date.month() as u32, date.day() as u32)
    };
    let before = days();
    let day = local_day();
    let after = days();
    assert!(before <= day && day <= after);
}

#[test]
fn day_and_minutes_is_the_local_time() {
    let minute = |zoned: &jiff::Zoned| {
        let date = zoned.date();
        let day = days_from_civil(date.year() as i64, date.month() as u32, date.day() as u32);
        day * 1440 + zoned.hour() as i64 * 60 + zoned.minute() as i64
    };
    // Two readings that straddle midnight may belong to different days.
    for _ in 0..3 {
        let before = minute(&jiff::Zoned::now());
        let (day, now) = day_and_minutes();
        let after = minute(&jiff::Zoned::now());
        assert!(now < MINUTES_PER_DAY);
        if before / 1440 == after / 1440 {
            let here = day * 1440 + now as i64;
            assert!(before <= here && here <= after);
            return;
        }
    }
}

#[test]
fn local_offset_is_that_of_the_local_clock() {
    let seconds = jiff::Zoned::now().offset().seconds();
    assert_eq!(local_utc_offset_minutes(), seconds as i64 / 60);
}

#[test]
fn utc_second_is_the_present_one() {
    let before = jiff::Timestamp::now().as_second();
    let second = utc_second();
    let after = jiff::Timestamp::now().as_second();
    assert!(before <= second && second <= after);
}
