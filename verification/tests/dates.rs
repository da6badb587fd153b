use railway_santinvoice::calendar::billing_period_before;
use railway_santinvoice::calendar::billing_period_by_reading;
use railway_santinvoice::calendar::days_in_month;
use railway_santinvoice::calendar::previous_billing_period;
use railway_santinvoice::calendar::shift_months;
use railway_santinvoice::calendar::Date;
use railway_santinvoice::calendar::Instant;
use railway_santinvoice::config::parse_date_env;
use railway_santinvoice::config::Environment;

fn date(year: i32, month: u32, day: u32) -> Date {
    Date::from_ymd_opt(year, month, day).unwrap()
}

fn environment(name: &str, value: &str) -> Environment {
    Environment {
        vars: vec![(name.to_string(), Ok(value.to_string()))],
    }
}

#[test]
fn dates_are_those_of_the_calendar() {
    assert!(Date::from_ymd_opt(2024, 2, 29).is_some());
    assert!(Date::from_ymd_opt(2023, 2, 29).is_none());
    assert!(Date::from_ymd_opt(1900, 2, 29).is_none());
    assert!(Date::from_ymd_opt(2000, 2, 29).is_some());
    assert!(Date::from_ymd_opt(2026, 4, 31).is_none());
    assert!(Date::from_ymd_opt(2026, 0, 1).is_none());
    assert!(Date::from_ymd_opt(2026, 13, 1).is_none());
    assert!(Date::from_ymd_opt(2026, 1, 0).is_none());
    assert!(Date::from_ymd_opt(-262_143, 1, 1).is_some());
    assert!(Date::from_ymd_opt(-262_144, 12, 31).is_none());
    assert!(Date::from_ymd_opt(262_142, 12, 31).is_some());
    assert!(Date::from_ymd_opt(262_143, 1, 1).is_none());
}

#[test]
fn the_day_before() {
    assert_eq!(date(2026, 9, 8).pred_opt(), Some(date(2026, 9, 7)));
    assert_eq!(date(2026, 3, 1).pred_opt(), Some(date(2026, 2, 28)));
    assert_eq!(date(2024, 3, 1).pred_opt(), Some(date(2024, 2, 29)));
    assert_eq!(date(2026, 1, 1).pred_opt(), Some(date(2025, 12, 31)));
    assert_eq!(date(-262_143, 1, 1).pred_opt(), None);
}

#[test]
fn days_later() {
    assert_eq!(
        date(2026, 12, 25).checked_add_days(14),
        Some(date(2027, 1, 8))
    );
    assert_eq!(
        date(2024, 2, 28).checked_add_days(1),
        Some(date(2024, 2, 29))
    );
    assert_eq!(date(2026, 7, 1).checked_add_days(0), Some(date(2026, 7, 1)));
    assert_eq!(
        date(2026, 1, 1).checked_add_days(365),
        Some(date(2027, 1, 1))
    );
    assert_eq!(date(262_142, 12, 31).checked_add_days(1), None);
    assert_eq!(date(2026, 1, 1).checked_add_days(u64::MAX), None);
}

#[test]
fn every_day_of_four_centuries_follows_the_one_before() {
    let mut day = date(1999, 12, 31);
    while day.year() < 2400 {
        let next = day.checked_add_days(1).unwrap();
        assert_eq!(next.pred_opt(), Some(day));
        let last = days_in_month(day.year(), day.month());
        assert_eq!(next.day() == 1, day.day() == last);
        day = next;
    }
}

#[test]
fn dates_are_written_with_four_digits_for_the_year() {
    assert_eq!(date(2026, 1, 9).to_string(), "2026-01-09");
    assert_eq!(date(7, 11, 30).to_string(), "0007-11-30");
    assert_eq!(date(0, 1, 1).to_string(), "0000-01-01");
    assert_eq!(date(-1, 1, 1).to_string(), "-0001-01-01");
    assert_eq!(date(10_000, 1, 1).to_string(), "+10000-01-01");
}

#[test]
fn dates_are_read_back() {
    for year in [0, 1, 999, 1600, 2024, 2026, 9999] {
        for month in 1..=12 {
            for day in [1, 28, days_in_month(year, month)] {
                let written = date(year, month, day);
                let env = environment("DAY", &written.to_string());
                assert_eq!(parse_date_env(&env, "DAY").unwrap(), written);
            }
        }
    }
}

#[test]
fn instants_are_written_in_utc() {
    let text = |second: u32, nano: u32| {
        Instant::new(date(2026, 9, 8), second, nano)
            .unwrap()
            .to_rfc3339()
    };
    assert_eq!(text(0, 0), "2026-09-08T00:00:00+00:00");
    assert_eq!(text(86_399, 0), "2026-09-08T23:59:59+00:00");
    assert_eq!(text(3_661, 500_000_000), "2026-09-08T01:01:01.500+00:00");
    assert_eq!(text(0, 1_000), "2026-09-08T00:00:00.000001+00:00");
    assert_eq!(text(0, 7), "2026-09-08T00:00:00.000000007+00:00");
    assert_eq!(text(86_399, 1_000_000_000), "2026-09-08T23:59:60+00:00");
    assert_eq!(
        text(86_399, 1_250_000_000),
        "2026-09-08T23:59:60.250+00:00"
    );
    assert!(Instant::new(date(2026, 9, 8), 86_400, 0).is_none());
    assert!(Instant::new(date(2026, 9, 8), 0, 1_000_000_000).is_none());
    assert!(Instant::new(date(2026, 9, 8), 0, 2_000_000_000).is_none());
}

#[test]
fn months_have_their_lengths() {
    let lengths = [31, 28, 31, 30, 31, 30, 31, 31, 30, 31, 30, 31];
    for month in 1..=12 {
        assert_eq!(days_in_month(2026, month), lengths[month as usize - 1]);
    }
    assert_eq!(days_in_month(2024, 2), 29);
    assert_eq!(days_in_month(2100, 2), 28);
    assert_eq!(days_in_month(2000, 2), 29);
}

#[test]
fn months_are_shifted_to_the_same_day_or_the_last() {
    let shifted = |y, m, d, offset| {
        let instant = Instant::new(date(y, m, d), 45_000, 1).unwrap();
        let r = shift_months(instant, offset).unwrap();
        assert_eq!(
            r.to_rfc3339().split('T').nth(1),
            instant.to_rfc3339().split('T').nth(1)
        );
        r.date()
    };
    assert_eq!(shifted(2026, 3, 31, -1), date(2026, 2, 28));
    assert_eq!(shifted(2024, 3, 31, -1), date(2024, 2, 29));
    assert_eq!(shifted(2026, 1, 15, -1), date(2025, 12, 15));
    assert_eq!(shifted(2026, 12, 1, 1), date(2027, 1, 1));
    assert_eq!(shifted(2026, 10, 31, -13), date(2025, 9, 30));
    assert_eq!(shifted(2026, 10, 31, 0), date(2026, 10, 31));
    assert_eq!(shifted(0, 1, 31, -1), date(-1, 12, 31));
}

#[test]
fn going_a_month_back_and_on_leads_back_to_a_day_of_every_month() {
    for day in 1..=28 {
        let instant = Instant::new(date(2026, 3, day), 0, 0).unwrap();
        let back = shift_months(instant, -1).unwrap();
        assert_eq!(shift_months(back, 1).unwrap(), instant);
    }
    let late = Instant::new(date(2026, 3, 31), 0, 0).unwrap();
    let back = shift_months(late, -1).unwrap();
    assert_ne!(shift_months(back, 1).unwrap(), late);
}

#[test]
fn the_period_before_the_end_of_a_long_month() {
    let period = previous_billing_period("2026-03-31T12:30:00Z").unwrap();
    assert_eq!(period.start, "2026-02-28T12:30:00+00:00");
    assert_eq!(period.end, "2026-03-31T12:30:00+00:00");
    assert_eq!(period.from, date(2026, 2, 28));
    assert_eq!(period.to, date(2026, 3, 30));
}

#[test]
fn the_boundary_counts_in_utc() {
    let period = previous_billing_period("2026-01-01T00:30:00+02:00").unwrap();
    assert_eq!(period.start, "2025-11-30T22:30:00+00:00");
    assert_eq!(period.end, "2025-12-31T22:30:00+00:00");
    assert_eq!(period.from, date(2025, 11, 30));
    assert_eq!(period.to, date(2025, 12, 30));
}

#[test]
fn the_earliest_and_the_latest_boundaries() {
    let early = previous_billing_period("0000-01-01T00:00:00+23:59").unwrap();
    assert_eq!(early.from, date(-1, 11, 30));
    assert_eq!(early.to, date(-1, 12, 30));
    let late = previous_billing_period("9999-12-31T23:59:59-23:59").unwrap();
    assert_eq!(late.from, date(9999, 12, 1));
    assert_eq!(late.to, date(9999, 12, 31));
}

#[test]
fn consecutive_billing_periods_meet() {
    let mut boundary = Instant::new(date(2026, 12, 31), 7_200, 0).unwrap();
    for _ in 0..30 {
        let later = billing_period_before(boundary).unwrap();
        boundary = Instant::new(later.from, 7_200, 0).unwrap();
        let earlier = billing_period_before(boundary).unwrap();
        assert_eq!(earlier.end, later.start);
        assert_eq!(earlier.to.checked_add_days(1), Some(later.from));
    }
}

#[test]
fn a_written_boundary_is_read_back() {
    for (second, nano) in [(0, 0), (86_399, 1_999_999_999), (1, 1), (59, 120_000_000)] {
        let boundary = Instant::new(date(2026, 9, 8), second, nano).unwrap();
        let period = previous_billing_period(&boundary.to_rfc3339()).unwrap();
        assert_eq!(period.end, boundary.to_rfc3339());
        assert_eq!(period.to, date(2026, 9, 7));
    }
}

#[test]
fn an_invalid_boundary_is_reported() {
    let failure = previous_billing_period("soon").unwrap_err();
    assert_eq!(
        failure.chain,
        [
            "Railway returned an invalid billing-period start",
            "premature end of input",
        ]
    );
    assert!(previous_billing_period("2026-09-08").is_err());
    assert!(previous_billing_period("2026-02-30T00:00:00Z").is_err());
}

#[test]
fn periods_go_by_the_reading() {
    let boundary = Instant::new(date(2026, 1, 1), 0, 0).unwrap();
    let period = billing_period_by_reading(Ok(boundary)).unwrap();
    assert_eq!(period.from, date(2025, 12, 1));
    assert_eq!(period.to, date(2025, 12, 31));
    let failure = billing_period_by_reading(Err("bad".to_string())).unwrap_err();
    assert_eq!(
        failure.chain,
        ["Railway returned an invalid billing-period start", "bad"]
    );
}

#[test]
fn the_period_before_a_start_ends_there() {
    for text in [
        "2026-12-31T02:00:00Z",
        "2024-03-30T23:59:60.5Z",
        "0002-01-01T00:00:00+01:00",
        "9999-12-31T23:59:59-23:59",
        "2026-03-01T00:00:00Z",
    ] {
        let later = previous_billing_period(text).unwrap();
        let earlier = previous_billing_period(&later.start).unwrap();
        assert_eq!(earlier.end, later.start);
        assert_eq!(earlier.to.checked_add_days(1), Some(later.from));
    }
    let first = previous_billing_period("0000-01-15T00:00:00Z").unwrap();
    assert_eq!(first.start, "-0001-12-15T00:00:00+00:00");
    assert!(previous_billing_period(&first.start).is_err());
}

#[test]
fn a_period_has_twenty_eight_to_thirty_one_days() {
    let mut boundary = date(2023, 12, 1);
    while boundary.year() < 2029 {
        let period = billing_period_before(Instant::new(boundary, 0, 0).unwrap()).unwrap();
        let mut days = 1;
        let mut day = period.from;
        while day != period.to {
            day = day.checked_add_days(1).unwrap();
            days += 1;
        }
        assert!((28..=31).contains(&days), "{boundary:?}");
        boundary = boundary.checked_add_days(1).unwrap();
    }
}
