use ical::types::duration::parse_duration;
use ical::types::{resolve_zone, CalDate, CalDateTime, CalDateTimeError, Duration, TzId};

fn seconds(n: i64) -> Duration {
    Duration::seconds(n).unwrap()
}

#[test]
fn test_parse_duration() {
    assert!(parse_duration("P1D12W").is_err());
    assert!(parse_duration("P1W12D").is_err());
    assert_eq!(parse_duration("-P12W").unwrap(), seconds(-12 * 7 * 86400));
    assert_eq!(parse_duration("P12W").unwrap(), seconds(12 * 7 * 86400));
    assert_eq!(parse_duration("P12D").unwrap(), seconds(12 * 86400));
    assert_eq!(parse_duration("PT12H").unwrap(), seconds(12 * 3600));
    assert_eq!(parse_duration("PT12M").unwrap(), seconds(12 * 60));
    assert_eq!(parse_duration("PT12S").unwrap(), seconds(12));
    assert_eq!(parse_duration("PT10M12S").unwrap(), seconds(10 * 60 + 12));
    assert_eq!(
        parse_duration("P2DT10M12S").unwrap(),
        seconds(2 * 86400 + 10 * 60 + 12)
    );
    assert!(parse_duration("PT10S12M").is_err());
    // no part at all is the empty duration
    assert_eq!(parse_duration("P").unwrap(), Duration::zero());
}

#[test]
fn an_hour_and_a_week() {
    assert_eq!(parse_duration("PT1H").unwrap().num_seconds(), 3600);
    assert_eq!(parse_duration("P1W").unwrap().num_seconds(), 7 * 86400);
    assert_eq!(parse_duration("P1D12W").unwrap_err().0, "P1D12W");
    assert!(parse_duration("").is_err());
    assert!(parse_duration("1H").is_err());
    assert!(parse_duration("P1H").is_err());
    assert!(parse_duration("PT1H ").is_err());
    assert!(parse_duration("P99999999999999999999D").is_err());
    assert_eq!(parse_duration("+PT0S").unwrap().num_seconds(), 0);
}

#[test]
fn a_duration_is_written_with_its_parts() {
    assert_eq!(seconds(3600).format(), "PT1H");
    assert_eq!(seconds(900).format(), "PT15M");
    assert_eq!(seconds(9900).format(), "PT2H45M");
    assert_eq!(seconds(0).format(), "PT0S");
    assert_eq!(seconds(604800).format(), "P1W");
    assert_eq!(seconds(-86400 - 61).format(), "-P1DT1M1S");
    assert_eq!(seconds(86400 * 10).format(), "P10D");
    for n in [1, 59, 60, 3599, 86399, 86400, 604799, 1209600, 123456789] {
        assert_eq!(parse_duration(&seconds(n).format()).unwrap().num_seconds(), n);
        assert_eq!(parse_duration(&seconds(-n).format()).unwrap().num_seconds(), -n);
    }
}

#[test]
fn date_times_are_read_in_three_forms() {
    let floating = CalDateTime::parse("19980118T230000", None).unwrap();
    assert!(floating.timezone().is_local());
    assert_eq!(floating.format(), "19980118T230000");
    assert_eq!(floating.utc(), 885164400);
    let utc = CalDateTime::parse("19980119T070000Z", None).unwrap();
    assert!(utc.timezone().is_utc());
    assert_eq!(utc.format(), "19980119T070000Z");
    let zoned = CalDateTime::parse("19980119T020000", TzId::parse("America/New_York")).unwrap();
    assert_eq!(zoned.utc(), utc.utc());
    assert_eq!(zoned.format(), "19980119T020000");
    assert_eq!(zoned.utc_or_local().format(), "19980119T070000Z");
    assert_eq!(floating.utc_or_local().format(), "19980118T230000");
}

#[test]
fn a_local_time_in_a_gap_does_not_exist() {
    let r = CalDateTime::parse("20210328T023000", TzId::parse("Europe/Berlin"));
    assert_eq!(r.unwrap_err(), CalDateTimeError::LocalTimeGap);
    let r = CalDateTime::parse("2021-03-28", None);
    assert_eq!(
        r.unwrap_err(),
        CalDateTimeError::InvalidDatetimeFormat("2021-03-28".to_owned())
    );
}

#[test]
fn a_time_that_occurs_twice_is_the_earlier_one() {
    let dt = CalDateTime::parse("20211031T023000", TzId::parse("Europe/Berlin")).unwrap();
    assert_eq!(dt.utc(), CalDateTime::parse("20211031T003000Z", None).unwrap().utc());
}

#[test]
fn dates_are_read_in_two_forms() {
    let a = CalDate::parse("20070628", None).unwrap();
    let b = CalDate::parse("2007-06-28", None).unwrap();
    assert_eq!(a.naive_date(), b.naive_date());
    assert_eq!(a.naive_date(), 13692);
    assert_eq!(a.format(), "20070628");
    assert_eq!(a.succ_opt().unwrap().format(), "20070629");
    assert!(CalDate::parse("20070631", None).is_err());
    assert_eq!(a.as_datetime().unwrap().format(), "20070628T000000");
}

#[test]
fn adding_a_duration_keeps_the_zone() {
    let dt = CalDateTime::parse("20210327T120000", TzId::parse("Europe/Berlin")).unwrap();
    let later = dt.add(seconds(86400)).unwrap();
    // a day later the clock has moved by an hour
    assert_eq!(later.format(), "20210328T130000");
    assert_eq!(later.utc() - dt.utc(), 86400);
    assert_eq!(dt.date_floor() + 1, dt.date_ceil());
}

#[test]
fn a_timezone_is_found_by_hint_then_name_then_table() {
    assert_eq!(resolve_zone(Some("Europe/Berlin"), "HELLO_Europe/Berlin").unwrap().name(), "Europe/Berlin");
    assert_eq!(resolve_zone(None, "Europe/Berlin").unwrap().name(), "Europe/Berlin");
    assert_eq!(resolve_zone(Some("Nowhere"), "Europe/Paris").unwrap().name(), "Europe/Paris");
    assert_eq!(resolve_zone(None, "W. Europe Standard Time").unwrap().name(), "Europe/Berlin");
    assert_eq!(resolve_zone(None, "Pacific Standard Time").unwrap().name(), "America/Los_Angeles");
    assert!(resolve_zone(None, "Middle of Nowhere").is_none());
    assert!(TzId::parse("europe/berlin").is_none());
    assert_eq!(TzId::utc().name(), "UTC");
}

#[test]
fn a_date_plus_a_duration_is_a_date_time() {
    let berlin = ical::types::TzId::parse("Europe/Berlin");
    let day = ical::types::CalDate::parse("20200301", berlin).unwrap();
    let later = day.add(seconds(3600 * 10 + 30)).unwrap();
    assert_eq!(later.format(), "20200301T100030");
    assert_eq!(later.utc(), 1583053200 + 30);
    let floating = ical::types::CalDate::parse("20200301", None).unwrap();
    assert_eq!(floating.add(seconds(-1)).unwrap().format(), "20200229T235959");
    let last = ical::types::CalDate::parse("99991231", None).unwrap();
    assert!(last.add(seconds(86400)).is_none());
    assert_eq!(last.add(seconds(86399)).unwrap().format(), "99991231T235959");
}

#[test]
fn a_date_or_date_time_as_a_date_time() {
    let table = ical::types::TimezoneTable::new();
    let date = ical::types::CalDateOrDateTime::parse_prop(
        &ical::property::Property {
            name: "DTSTART".to_owned(),
            params: vec![("VALUE".to_owned(), vec!["DATE".to_owned()])],
            value: Some("20200301".to_owned()),
        },
        &table,
        "DATE-TIME",
    )
    .unwrap();
    assert_eq!(date.as_datetime().unwrap().format(), "20200301T000000");
    let moment = ical::types::CalDateOrDateTime::parse_prop(
        &ical::property::Property {
            name: "DTSTART".to_owned(),
            params: vec![],
            value: Some("20200301T101500Z".to_owned()),
        },
        &table,
        "DATE-TIME",
    )
    .unwrap();
    assert_eq!(moment.as_datetime().unwrap().format(), "20200301T101500Z");
}

#[test]
fn the_duration_of_a_property_without_a_value_is_nothing() {
    let with = |value: Option<&str>| ical::property::Property {
        name: "DURATION".to_owned(),
        params: vec![],
        value: value.map(|v| v.to_owned()),
    };
    assert_eq!(ical::parser::accessor::duration_of_value(&with(None)).unwrap(), None);
    assert_eq!(
        ical::parser::accessor::duration_of_value(&with(Some("PT1H"))).unwrap(),
        Some(seconds(3600))
    );
    assert_eq!(
        ical::parser::accessor::duration_of_value(&with(Some("P1D12W"))).unwrap_err(),
        ical::types::InvalidDuration("P1D12W".to_owned())
    );
    assert_eq!(
        ical::parser::accessor::duration_of_value(&with(Some(""))).unwrap_err(),
        ical::types::InvalidDuration("".to_owned())
    );
}

#[test]
fn a_date_time_is_made_from_what_was_read() {
    let floating = CalDateTime::from_readings("x", Some(86400), Some(5), None).unwrap();
    assert!(floating.timezone().is_local());
    assert_eq!((floating.utc(), floating.local()), (86400, 86400));
    assert_eq!(floating.format(), "19700102T000000");
    let utc = CalDateTime::from_readings("x", None, Some(86400), None).unwrap();
    assert!(utc.timezone().is_utc());
    assert_eq!(utc.format(), "19700102T000000Z");
    let berlin = ical::types::TzId::parse("Europe/Berlin");
    let zoned = CalDateTime::from_readings("x", Some(86400), None, berlin).unwrap();
    assert_eq!((zoned.utc(), zoned.local()), (86400 - 3600, 86400));
    let as_utc = CalDateTime::from_readings("x", Some(86400), None, Some(ical::types::TzId::utc())).unwrap();
    assert_eq!((as_utc.utc(), as_utc.local()), (86400, 86400));
    assert_eq!(
        CalDateTime::from_readings("x", None, None, None).unwrap_err(),
        ical::types::CalDateTimeError::InvalidDatetimeFormat("x".to_owned())
    );
    assert_eq!(
        CalDateTime::from_readings("x", Some(253_402_300_800), None, None).unwrap_err(),
        ical::types::CalDateTimeError::InvalidDatetimeFormat("x".to_owned())
    );
    assert_eq!(
        CalDateTime::from_readings("x", None, Some(-62_167_219_201), None).unwrap_err(),
        ical::types::CalDateTimeError::InvalidDatetimeFormat("x".to_owned())
    );
    assert!(CalDateTime::from_readings("x", Some(253_402_300_799), None, None).is_ok());
    assert!(CalDateTime::from_readings("x", None, Some(-62_167_219_200), None).is_ok());
}

#[test]
fn a_date_is_made_from_what_was_read() {
    let day = ical::types::CalDate::from_readings("x", Some(86400 * 3), Some(0), None).unwrap();
    assert_eq!(day.naive_date(), 3);
    assert_eq!(day.format(), "19700104");
    let dashed = ical::types::CalDate::from_readings("x", None, Some(-86400), None).unwrap();
    assert_eq!(dashed.naive_date(), -1);
    assert_eq!(dashed.format(), "19691231");
    assert_eq!(
        ical::types::CalDate::from_readings("x", None, None, None).unwrap_err(),
        ical::types::CalDateTimeError::InvalidDatetimeFormat("x".to_owned())
    );
    assert!(ical::types::CalDate::from_readings("x", Some(253_402_300_800), None, None).is_err());
}
