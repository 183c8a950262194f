use night_light::civil::{civil_from_days, day_of_year, days_from_civil, EARLIEST_YEAR_START};

#[test]
fn epoch_is_day_zero() {
    assert_eq!(days_from_civil(1970, 1, 1), 0);
    assert_eq!(civil_from_days(0), (1970, 1, 1));
}

#[test]
fn known_dates_have_known_days() {
    let known: [((i64, u32, u32), i64); 9] = [
        ((1969, 12, 31), -1),
        ((1970, 2, 1), 31),
        ((2000, 2, 29), 11016),
        ((2000, 3, 1), 11017),
        ((2024, 2, 29), 19782),
        ((2024, 12, 31), 20088),
        ((1900, 3, 1), -25508),
        ((0, 3, 1), -719468),
        ((-1, 12, 31), -719529),
    ];
    for ((y, m, d), day) in known {
        assert_eq!(days_from_civil(y, m, d), day);
        assert_eq!(civil_from_days(day), (y, m, d));
    }
}

#[test]
fn dates_round_trip_day_by_day() {
    let mut last: (i64, u32, u32) = civil_from_days(-1_000_001);
    for day in -1_000_000i64..1_000_000 {
        let date = civil_from_days(day);
        assert!(last < date);
        assert_eq!(days_from_civil(date.0, date.1, date.2), day);
        last = date;
    }
}

#[test]
fn leap_days_exist_in_leap_years_only() {
    assert_eq!(civil_from_days(days_from_civil(2023, 2, 28) + 1), (2023, 3, 1));
    assert_eq!(civil_from_days(days_from_civil(2024, 2, 28) + 1), (2024, 2, 29));
    assert_eq!(civil_from_days(days_from_civil(1900, 2, 28) + 1), (1900, 3, 1));
    assert_eq!(civil_from_days(days_from_civil(2000, 2, 28) + 1), (2000, 2, 29));
}

#[test]
fn days_past_the_end_of_a_month_run_on() {
    assert_eq!(days_from_civil(2023, 2, 31), days_from_civil(2023, 3, 3));
}

#[test]
fn extreme_days_have_dates() {
    let last = i64::MAX - 719468;
    let (y, m, d) = civil_from_days(last);
    assert_eq!(days_from_civil(y, m, d), last);
    let (y, m, d) = civil_from_days(i64::MIN);
    assert_eq!(days_from_civil(y, m, d), i64::MIN);
    assert!(y < 0);
}

#[test]
fn days_of_the_year_count_from_one() {
    assert_eq!(day_of_year(0), 1);
    assert_eq!(day_of_year(-1), 365);
    assert_eq!(day_of_year(days_from_civil(2024, 2, 29)), 60);
    assert_eq!(day_of_year(days_from_civil(2024, 12, 31)), 366);
    assert_eq!(day_of_year(days_from_civil(2023, 12, 31)), 365);
    assert_eq!(day_of_year(days_from_civil(-3, 3, 1)), 60);
    assert_eq!(day_of_year(EARLIEST_YEAR_START), 1);
}
