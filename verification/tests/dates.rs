use chrono::TimeZone;
use endsong::date::{date_input, history_dates, history_period, parse_date, DateError};

#[test]
#[allow(deprecated)]
fn lib_date_parser() {
    // correctly formatted input date
    assert_eq!(
        parse_date("2020-06-06").unwrap(),
        chrono::Local
            .datetime_from_str("2020-06-06T00:00:00Z", "%Y-%m-%dT%H:%M:%SZ")
            .unwrap()
            .timestamp_millis()
    );
    assert!(parse_date("2020-06-06").is_ok());

    // incorrectly formatted input date
    assert!(parse_date("feer3er3").is_err());
}

#[test]
fn date_input_appends_midnight() {
    assert_eq!(date_input("2020-06-06"), "2020-06-06T00:00:00Z");
    assert_eq!(date_input(""), "T00:00:00Z");
}

#[test]
fn parse_date_keywords() {
    assert!(parse_date("now").is_ok());
    assert!(parse_date("end").is_ok());
    assert_eq!(parse_date("start"), Ok(0));
    assert_eq!(parse_date("2020-13-40"), Err(DateError::Invalid));
}

#[test]
fn history_period_clamps() {
    let day = 86_400_000;
    // start before the first entry, end after the last
    assert_eq!(history_period(1000, 5000, Some(0), Some(Some(9000))), Some((1000, 5000)));
    // no end: a day from the start
    assert_eq!(history_period(1000, 5000, Some(2000), None), Some((2000, 2000 + day)));
    // invalid end
    assert_eq!(history_period(1000, 5000, Some(2000), Some(None)), None);
    // no start
    assert_eq!(history_period(1000, 5000, None, Some(Some(3000))), None);
}

#[test]
fn history_dates_from_text() {
    let midnight = |d: &str| {
        chrono::NaiveDate::parse_from_str(d, "%Y-%m-%d")
            .unwrap()
            .and_hms_opt(0, 0, 0)
            .unwrap()
            .and_local_timezone(chrono::Local)
            .unwrap()
            .timestamp_millis()
    };
    let first = midnight("2020-01-01");
    let last = midnight("2020-12-31");
    let day = 86_400_000;
    let jun = midnight("2020-06-06");
    assert_eq!(history_dates(first, last, Some("2020-06-06"), None), Some((jun, jun + day)));
    assert_eq!(
        history_dates(first, last, Some("2019-06-06"), Some("2021-01-01")),
        Some((first, last))
    );
    assert_eq!(history_dates(first, last, Some("June"), None), None);
    assert_eq!(history_dates(first, last, None, Some("2020-06-06")), None);
    assert_eq!(history_dates(first, last, Some("2020-06-06"), Some("never")), None);
}
