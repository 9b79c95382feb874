use datamodel::error::ErrorKind;
use datamodel::temporal::{to_date, to_datetime, to_time, Date, DateTime, TimeOfDay};
use datamodel::timestamp::{datetime_to_timestamp, timestamp_to_datetime, MAX_TIMESTAMP, MIN_TIMESTAMP};

fn date(year: i32, month: u8, day: u8) -> Date {
    Date { year, month, day }
}

#[test]
fn date_from_iso_text() {
    assert_eq!(to_date("2024-03-01", None).unwrap(), date(2024, 3, 1));
}

#[test]
fn date_from_fallback_formats() {
    assert_eq!(to_date("03/01/2024", None).unwrap(), date(2024, 3, 1));
    assert_eq!(to_date("2024/03/01", None).unwrap(), date(2024, 3, 1));
    assert_eq!(to_date("01.03.2024", None).unwrap(), date(2024, 3, 1));
    // month-first wins over day-first: the earlier format takes it
    assert_eq!(to_date("03-01-2024", None).unwrap(), date(2024, 3, 1));
    // only the day-first format can read a day above twelve in front
    assert_eq!(to_date("25-12-2024", None).unwrap(), date(2024, 12, 25));
}

#[test]
fn date_custom_format_is_tried_last() {
    assert_eq!(to_date("20240301", Some("%Y%m%d")).unwrap(), date(2024, 3, 1));
    assert_eq!(to_date("1 Mar 2024", Some("%d %b %Y")).unwrap(), date(2024, 3, 1));
    // a built-in format reads the text before the caller's hint would
    assert_eq!(to_date("03/01/2024", Some("%d/%m/%Y")).unwrap(), date(2024, 3, 1));
}

#[test]
fn empty_input_is_refused_first() {
    assert!(matches!(to_date("", None), Err(ErrorKind::EmptyInput)));
    assert!(matches!(to_date("   ", Some("%Y")), Err(ErrorKind::EmptyInput)));
    assert!(matches!(to_datetime("", Some("%Y-%m-%d")), Err(ErrorKind::EmptyInput)));
    assert!(matches!(to_datetime("\t\n", None), Err(ErrorKind::EmptyInput)));
    assert!(matches!(to_time(" ", None), Err(ErrorKind::EmptyInput)));
}

#[test]
fn unparseable_date_lists_every_format() {
    match to_date("not a date", Some("%Y")) {
        Err(ErrorKind::UnparseableTemporal { input, formats_tried }) => {
            assert_eq!(input, "not a date");
            assert_eq!(formats_tried.len(), 10);
            assert_eq!(formats_tried[0], "%Y-%m-%d");
            assert_eq!(formats_tried[8], "%d.%m.%Y");
            assert_eq!(formats_tried[9], "%Y");
        }
        other => panic!("unexpected {:?}", other),
    }
    match to_datetime("03/01/2024 noon", None) {
        Err(ErrorKind::UnparseableTemporal { formats_tried, .. }) => assert_eq!(formats_tried.len(), 9),
        other => panic!("unexpected {:?}", other),
    }
}

#[test]
fn datetime_from_date_only_text_is_midnight() {
    let midnight = TimeOfDay { hour: 0, minute: 0, second: 0, microsecond: 0 };
    for text in ["2024-03-01", "03/01/2024", "2024/03/01", "01.03.2024"] {
        let dt = to_datetime(text, None).unwrap();
        assert_eq!(dt, DateTime { date: date(2024, 3, 1), time: midnight }, "{}", text);
    }
    let dt = to_datetime("1 Mar 2024", Some("%d %b %Y")).unwrap();
    assert_eq!(dt, DateTime { date: date(2024, 3, 1), time: midnight });
    // the strict path reads a run of digits as a Unix timestamp first
    let dt = to_datetime("20240301", Some("%Y%m%d")).unwrap();
    assert_eq!(dt.date, date(1970, 8, 23));
    assert_eq!(dt.time, TimeOfDay { hour: 6, minute: 18, second: 21, microsecond: 0 });
}

#[test]
fn datetime_keeps_microseconds() {
    let dt = to_datetime("2024-03-01T10:20:30.123456", None).unwrap();
    assert_eq!(dt.date, date(2024, 3, 1));
    assert_eq!(dt.time, TimeOfDay { hour: 10, minute: 20, second: 30, microsecond: 123456 });
}

#[test]
fn datetime_leap_second_goes_through_rfc3339() {
    let dt = to_datetime("2016-12-31T23:59:60Z", None).unwrap();
    assert_eq!(dt.date, date(2016, 12, 31));
    assert_eq!(dt.time, TimeOfDay { hour: 23, minute: 59, second: 59, microsecond: 0 });
}

#[test]
fn datetime_custom_format() {
    let dt = to_datetime("03/01/2024 10:20", Some("%m/%d/%Y %H:%M")).unwrap();
    assert_eq!(dt.date, date(2024, 3, 1));
    assert_eq!(dt.time, TimeOfDay { hour: 10, minute: 20, second: 0, microsecond: 0 });
}

#[test]
fn time_from_iso_text() {
    let t = to_time("10:20:30.5", None).unwrap();
    assert_eq!(t, TimeOfDay { hour: 10, minute: 20, second: 30, microsecond: 500000 });
    assert!(to_time("25:00", None).is_err());
}

#[test]
fn time_from_fallback_and_custom_formats() {
    let t = to_time("2024-03-01T10:20:30.25", None).unwrap();
    assert_eq!(t, TimeOfDay { hour: 10, minute: 20, second: 30, microsecond: 250000 });
    let t = to_time("10:20 PM", Some("%I:%M %p")).unwrap();
    assert_eq!(t, TimeOfDay { hour: 22, minute: 20, second: 0, microsecond: 0 });
    assert!(matches!(to_time("noon", None), Err(ErrorKind::UnparseableTemporal { .. })));
}

#[test]
fn timestamp_epoch_and_known_instant() {
    let dt = timestamp_to_datetime(0, 0).unwrap();
    assert_eq!(dt.date, date(1970, 1, 1));
    assert_eq!(dt.time, TimeOfDay { hour: 0, minute: 0, second: 0, microsecond: 0 });
    let dt = timestamp_to_datetime(1_700_000_000, 500_000).unwrap();
    assert_eq!(dt.date, date(2023, 11, 14));
    assert_eq!(dt.time, TimeOfDay { hour: 22, minute: 13, second: 20, microsecond: 500_000 });
    let dt = timestamp_to_datetime(-1, 999_999).unwrap();
    assert_eq!(dt.date, date(1969, 12, 31));
    assert_eq!(dt.time, TimeOfDay { hour: 23, minute: 59, second: 59, microsecond: 999_999 });
}

#[test]
fn timestamp_round_trips() {
    for &(s, us) in &[(0i64, 0u32), (1_700_000_000, 123_456), (-86_401, 1), (951_782_400, 0)] {
        let dt = timestamp_to_datetime(s, us).unwrap();
        assert_eq!(datetime_to_timestamp(dt), (s, us));
    }
    let lo = timestamp_to_datetime(MIN_TIMESTAMP, 0).unwrap();
    assert_eq!(lo.date, date(-262143, 1, 1));
    assert_eq!(datetime_to_timestamp(lo), (MIN_TIMESTAMP, 0));
    let hi = timestamp_to_datetime(MAX_TIMESTAMP, 999_999).unwrap();
    assert_eq!(hi.date, date(262142, 12, 31));
    assert_eq!(datetime_to_timestamp(hi), (MAX_TIMESTAMP, 999_999));
}

#[test]
fn timestamp_carries_a_full_second() {
    let dt = timestamp_to_datetime(59, 1_000_000).unwrap();
    assert_eq!(dt.time, TimeOfDay { hour: 0, minute: 1, second: 0, microsecond: 0 });
}

#[test]
fn timestamp_out_of_range() {
    assert!(matches!(
        timestamp_to_datetime(MAX_TIMESTAMP + 1, 0),
        Err(ErrorKind::OutOfRange { seconds, microsecond: 0 }) if seconds == MAX_TIMESTAMP + 1
    ));
    assert!(matches!(timestamp_to_datetime(MIN_TIMESTAMP - 1, 0), Err(ErrorKind::OutOfRange { .. })));
    assert!(matches!(timestamp_to_datetime(MAX_TIMESTAMP, 1_000_000), Err(ErrorKind::OutOfRange { .. })));
    assert!(matches!(timestamp_to_datetime(i64::MAX, 0), Err(ErrorKind::OutOfRange { .. })));
}

#[test]
fn datetime_to_timestamp_known_values() {
    let dt = DateTime {
        date: date(2000, 2, 29),
        time: TimeOfDay { hour: 12, minute: 0, second: 1, microsecond: 7 },
    };
    assert_eq!(datetime_to_timestamp(dt), (951_825_601, 7));
}
