use chrono::{Datelike, NaiveDate, Weekday};
use rtk_tracking::time::{MAX_DAY, MILLIS_PER_DAY, MIN_DAY};
use rtk_tracking::{Period, Timestamp};

fn at(millis: i64) -> Timestamp {
    Timestamp::from_millis(millis).expect("instant in range")
}

fn date(day: i64) -> NaiveDate {
    NaiveDate::from_epoch_days(day as i32).expect("date in range")
}

#[test]
fn days_agree_with_the_calendar() {
    let mut day = MIN_DAY;
    while day <= MAX_DAY {
        let noon = at(day * MILLIS_PER_DAY + MILLIS_PER_DAY / 2);
        assert_eq!(noon.day(), day);
        assert_eq!(Period::Day.start_day(noon), day);
        assert_eq!(noon.date_label(), date(day).format("%Y-%m-%d").to_string());
        assert_eq!(noon.month_label(), date(day).format("%Y-%m").to_string());
        day += 997;
    }
}

#[test]
fn weeks_start_on_mondays() {
    let mut day = MIN_DAY;
    while day <= MAX_DAY {
        let start = Period::Week.start_day(at(day * MILLIS_PER_DAY));
        assert!(start <= day && day <= start + 6);
        assert_eq!(date(start).weekday(), Weekday::Mon);
        assert_eq!(date(start + 6).weekday(), Weekday::Sun);
        day += 1009;
    }
}

#[test]
fn every_day_of_a_week_has_the_same_start() {
    // Monday 2024-01-15 is day 19737
    for offset in 0..7 {
        assert_eq!(Period::Week.start_day(at((19_737 + offset) * MILLIS_PER_DAY)), 19_737);
    }
    assert_eq!(Period::Week.start_day(at(19_736 * MILLIS_PER_DAY)), 19_730);
    assert_eq!(Period::Week.start_day(at(19_744 * MILLIS_PER_DAY)), 19_744);
}

#[test]
fn months_start_on_the_first() {
    let mut day = MIN_DAY;
    while day <= MAX_DAY {
        let start = Period::Month.start_day(at(day * MILLIS_PER_DAY + 1));
        assert!(start <= day);
        assert_eq!(date(start).day(), 1);
        assert_eq!(date(start).month(), date(day).month());
        assert_eq!(date(start).year(), date(day).year());
        day += 1013;
    }
}

#[test]
fn stored_form_agrees_with_the_calendar() {
    let mut day = MIN_DAY;
    while day <= MAX_DAY {
        let millis = day * MILLIS_PER_DAY + 45_296_789;
        let text = at(millis).to_rfc3339();
        let label = at(millis).date_label();
        assert_eq!(&text[..10], label);
        assert!(text.ends_with("T12:34:56.789+00:00"));
        assert_eq!(Timestamp::parse_rfc3339_or(&text, at(0)).millis(), millis);
        day += 10_007;
    }
}
