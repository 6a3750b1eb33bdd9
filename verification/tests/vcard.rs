use ical::types::{PartialDate, PartialDateAndOrTime, PartialDateTime, PartialTime};

fn date(year: Option<i32>, month: Option<u32>, day: Option<u32>) -> PartialDate {
    PartialDate { year, month, day }
}

fn time(hour: Option<u8>, minute: Option<u8>, second: Option<u8>) -> PartialTime {
    PartialTime { hour, minute, second, ..Default::default() }
}

fn offset(t: PartialTime, hour: Option<i8>, minute: Option<i8>) -> PartialTime {
    PartialTime { offset_hour: hour, offset_minute: minute, ..t }
}

#[test]
fn test_parse_date() {
    for (input, value) in [
        ("19850412", date(Some(1985), Some(4), Some(12))),
        ("1985-04-12", date(Some(1985), Some(4), Some(12))),
        ("1985-04", date(Some(1985), Some(4), None)),
        ("1985", date(Some(1985), None, None)),
        ("--0412", date(None, Some(4), Some(12))),
        ("--04-12", date(None, Some(4), Some(12))),
        ("--04", date(None, Some(4), None)),
        ("---12", date(None, None, Some(12))),
    ] {
        let parsed = PartialDate::parse(input).unwrap();
        assert!(!parsed.value().ends_with('-'));
        let roundtrip = PartialDate::parse(&parsed.value()).unwrap();
        assert_eq!(parsed, value);
        assert_eq!(roundtrip, value);
    }
}

#[test]
fn test_parse_date_invalid() {
    for input in ["19850432", "19851422", "198514222"] {
        assert!(PartialDate::parse(input).is_err());
    }
}

#[test]
fn test_parse_time() {
    for (input, value) in [
        ("102200", time(Some(10), Some(22), Some(0))),
        ("1022", time(Some(10), Some(22), None)),
        ("10", time(Some(10), None, None)),
        ("-2200", time(None, Some(22), Some(0))),
        ("--00", time(None, None, Some(0))),
        ("102200Z", offset(time(Some(10), Some(22), Some(0)), Some(0), Some(0))),
        ("102200-08", offset(time(Some(10), Some(22), Some(0)), Some(-8), None)),
        ("102200-0800", offset(time(Some(10), Some(22), Some(0)), Some(-8), Some(0))),
        ("10:22:00", time(Some(10), Some(22), Some(0))),
        ("10:22", time(Some(10), Some(22), None)),
        ("-:-:00", time(None, None, Some(0))),
        ("152746+0100", offset(time(Some(15), Some(27), Some(46)), Some(1), Some(0))),
        ("15:27:46+01", offset(time(Some(15), Some(27), Some(46)), Some(1), None)),
        ("15:27:46-05:00", offset(time(Some(15), Some(27), Some(46)), Some(-5), Some(0))),
    ] {
        let parsed = PartialTime::parse(input).unwrap();
        assert!(!parsed.value().ends_with('-'));
        let roundtrip = PartialTime::parse(&parsed.value()).unwrap();
        assert_eq!(parsed, value);
        assert_eq!(roundtrip, value);
    }
}

#[test]
fn test_parse_time_invalid() {
    for input in ["10-00", "250000", "236000", "235060", "100000+0070", "100000-4000"] {
        assert!(PartialTime::parse(input).is_err());
    }
}

#[test]
fn test_parse_datetime() {
    for (input, value) in [
        (
            "19961022T140000",
            PartialDateTime {
                date: date(Some(1996), Some(10), Some(22)),
                time: time(Some(14), Some(0), Some(0)),
            },
        ),
        (
            "--1022T1400",
            PartialDateTime { date: date(None, Some(10), Some(22)), time: time(Some(14), Some(0), None) },
        ),
        (
            "---22T14",
            PartialDateTime { date: date(None, None, Some(22)), time: time(Some(14), None, None) },
        ),
    ] {
        let parsed = PartialDateTime::parse(input).unwrap();
        assert_eq!(parsed, value);
        let roundtrip = PartialDateTime::parse(&parsed.value()).unwrap();
        assert_eq!(parsed, value);
        assert_eq!(roundtrip, value);
    }
    assert!(PartialDateTime::parse("19961022").is_err());
}

#[test]
fn test_parse_date_and_or_time() {
    for (input, value) in [
        ("19850412", PartialDateAndOrTime { date: Some(date(Some(1985), Some(4), Some(12))), time: None }),
        ("1985-04", PartialDateAndOrTime { date: Some(date(Some(1985), Some(4), None)), time: None }),
        ("1985", PartialDateAndOrTime { date: Some(date(Some(1985), None, None)), time: None }),
        ("--0412", PartialDateAndOrTime { date: Some(date(None, Some(4), Some(12))), time: None }),
        ("---12", PartialDateAndOrTime { date: Some(date(None, None, Some(12))), time: None }),
        (
            "---12T102200",
            PartialDateAndOrTime {
                date: Some(date(None, None, Some(12))),
                time: Some(time(Some(10), Some(22), Some(0))),
            },
        ),
        ("T102200", PartialDateAndOrTime { time: Some(time(Some(10), Some(22), Some(0))), date: None }),
        ("T1022", PartialDateAndOrTime { time: Some(time(Some(10), Some(22), None)), date: None }),
        ("T10", PartialDateAndOrTime { time: Some(time(Some(10), None, None)), date: None }),
        ("T-2200", PartialDateAndOrTime { time: Some(time(None, Some(22), Some(0))), date: None }),
        ("T--00", PartialDateAndOrTime { time: Some(time(None, None, Some(0))), date: None }),
        (
            "T102200Z",
            PartialDateAndOrTime {
                time: Some(offset(time(Some(10), Some(22), Some(0)), Some(0), Some(0))),
                date: None,
            },
        ),
        (
            "T102200-0800",
            PartialDateAndOrTime {
                time: Some(offset(time(Some(10), Some(22), Some(0)), Some(-8), Some(0))),
                date: None,
            },
        ),
    ] {
        let parsed = PartialDateAndOrTime::parse(input).unwrap();
        assert_eq!(parsed, value);
        let roundtrip = PartialDateAndOrTime::parse(&parsed.value()).unwrap();
        assert_eq!(parsed, value);
        assert_eq!(roundtrip, value);
    }
}

#[test]
fn partial_values_are_written_in_their_short_forms() {
    assert_eq!(date(Some(1985), Some(4), Some(12)).value(), "1985-04-12");
    assert_eq!(date(None, Some(4), None).value(), "--04");
    assert_eq!(date(None, None, Some(12)).value(), "---12");
    assert_eq!(time(None, Some(22), Some(0)).value(), "-2200");
    assert_eq!(offset(time(Some(10), None, None), Some(-8), Some(-30)).value(), "10-0830");
    assert_eq!(offset(time(Some(10), None, None), Some(0), Some(0)).value(), "10Z");
    assert_eq!(date(Some(7), None, None).value(), "0007");
}
