use ical::generator::Emitter;
use ical::line::LineReader;
use ical::parser::ical::component::{IcalCalendarBuilder, IcalEventBuilder};
use ical::parser::vcard::VcardContact;
use ical::parser::ComponentParser;
use ical::property::{Property, PropertyParser};
use ical::types::{CalDate, CalDateTimeError};

fn property(name: &str, params: Vec<(&str, Vec<&str>)>, value: Option<&str>) -> Property {
    Property {
        name: name.to_owned(),
        params: params
            .into_iter()
            .map(|(k, v)| (k.to_owned(), v.into_iter().map(|s| s.to_owned()).collect()))
            .collect(),
        value: value.map(|v| v.to_owned()),
    }
}

#[test]
fn a_folded_line_is_unfolded_to_what_it_was() {
    // 73 ASCII characters, then a character of two bytes and one of four
    // around the place of the fold
    let mut text = "X".repeat(73);
    text.push_str("äö𝄞ü");
    text.push_str(&"y".repeat(100));
    let folded = ical::generator::split_line(text.clone());
    assert!(folded.contains("\r\n "));
    for physical in folded.split("\r\n") {
        assert!(physical.chars().count() <= 75);
    }
    let mut bytes = folded.into_bytes();
    bytes.extend_from_slice(b"\r\n");
    let mut reader = LineReader::new(bytes);
    let line = reader.next().unwrap().unwrap();
    assert_eq!(line.as_str(), text);
    assert_eq!(line.number(), 1);
    assert!(reader.next().is_none());
}

#[test]
fn a_written_property_is_read_back() {
    let p = property(
        "ATTENDEE",
        vec![("CN", vec!["Jane Doe"]), ("ROLE", vec!["CHAIR", "OPT"])],
        Some(&format!("mailto:{}@example.com; a, b: c \\ d", "ä".repeat(80))),
    );
    let text = p.generate();
    let mut parser = PropertyParser::from_reader(text.clone().into_bytes());
    let q = parser.next().unwrap().unwrap();
    assert_eq!(q, p);
    assert!(parser.next().is_none());
    assert_eq!(q.generate(), text);
}

#[test]
fn names_are_read_in_upper_case() {
    let mut parser = PropertyParser::from_reader("x-straße;grüße=Grüße:Grüße\r\n".as_bytes().to_vec());
    let p = parser.next().unwrap().unwrap();
    assert_eq!(p, property("X-STRASSE", vec![("GRÜSSE", vec!["Grüße"])], Some("Grüße")));
    let mut parser = PropertyParser::from_reader(b"dtstart;tzid=Europe/Berlin:1\r\n".to_vec());
    let p = parser.next().unwrap().unwrap();
    assert_eq!(p, property("DTSTART", vec![("TZID", vec!["Europe/Berlin"])], Some("1")));
}

#[test]
fn a_written_contact_is_read_back() {
    let card = VcardContact::<true> {
        properties: vec![
            property("VERSION", vec![], Some("4.0")),
            property("UID", vec![], Some("urn:uuid:1")),
            property("FN", vec![("LANGUAGE", vec!["de"])], Some("Jürgen Müller")),
            property("NOTE", vec![], Some(&"long ".repeat(40))),
        ],
    };
    let text = card.generate();
    let mut reader = ComponentParser::<VcardContact<false>>::new(text.clone().into_bytes());
    let again = reader.next().unwrap().unwrap();
    assert_eq!(again.properties, card.properties);
    assert!(reader.next().is_none());
    assert_eq!(again.generate(), text);
}

#[test]
fn a_written_calendar_is_read_back() {
    let input = "BEGIN:VCALENDAR\r\nVERSION:2.0\r\nPRODID:test\r\n\
        BEGIN:VTIMEZONE\r\nTZID:Europe/Berlin\r\n\
        BEGIN:DAYLIGHT\r\nTZOFFSETFROM:+0100\r\nTZOFFSETTO:+0200\r\nDTSTART:19700329T020000\r\nEND:DAYLIGHT\r\n\
        BEGIN:STANDARD\r\nTZOFFSETFROM:+0200\r\nTZOFFSETTO:+0100\r\nDTSTART:19701025T030000\r\nEND:STANDARD\r\n\
        END:VTIMEZONE\r\n\
        BEGIN:VEVENT\r\nUID:e\r\nDTSTAMP:20200101T000000Z\r\nDTSTART;TZID=Europe/Berlin:20200301T100000\r\n\
        RRULE:FREQ=DAILY;COUNT=3\r\n\
        BEGIN:VALARM\r\nACTION:DISPLAY\r\nTRIGGER:-PT15M\r\nEND:VALARM\r\n\
        END:VEVENT\r\n\
        BEGIN:VALARM\r\nACTION:AUDIO\r\nEND:VALARM\r\n\
        BEGIN:VTODO\r\nUID:t\r\nDTSTAMP:20200101T000000Z\r\nBEGIN:VALARM\r\nACTION:DISPLAY\r\nEND:VALARM\r\nEND:VTODO\r\n\
        BEGIN:VJOURNAL\r\nUID:j\r\nDTSTAMP:20200101T000000Z\r\nEND:VJOURNAL\r\n\
        BEGIN:VFREEBUSY\r\nUID:f\r\nEND:VFREEBUSY\r\n\
        END:VCALENDAR\r\n";
    let cal = ComponentParser::<IcalCalendarBuilder>::new(input.as_bytes().to_vec())
        .expect_one()
        .unwrap();
    // the parts are written in the order of their kinds
    let text = cal.generate();
    let mut reader = ComponentParser::<IcalCalendarBuilder>::new(text.clone().into_bytes());
    let again = reader.next().unwrap().unwrap();
    assert!(reader.next().is_none());
    assert_eq!(again.generate(), text);
    assert_eq!(again.get_events().len(), 1);
    assert_eq!(again.get_events()[0].get_alarms().len(), 1);
    assert_eq!(again.get_timezones()[0].transitions.len(), 2);
    assert_eq!(text, input);
}

#[test]
fn an_event_tells_what_its_check_read() {
    let input = "BEGIN:VEVENT\r\nUID:e\r\nDTSTAMP:20200101T000000Z\r\nDTSTART:20200301T100000Z\r\n\
        DTEND:20200301T113000Z\r\nRRULE:FREQ=DAILY;COUNT=3\r\nEXDATE:20200302T100000Z\r\n\
        RDATE;VALUE=PERIOD:20200310T100000Z/PT1H,20200311T100000Z/20200311T110000Z\r\n\
        SUMMARY:Meeting\r\nEND:VEVENT\r\n";
    let ev = ComponentParser::<IcalEventBuilder>::new(input.as_bytes().to_vec())
        .expect_one()
        .unwrap();
    assert_eq!(ev.get_uid(), "e");
    assert_eq!(ev.get_summary(), Some("Meeting"));
    assert_eq!(ev.get_dtstamp().format(), "20200101T000000Z");
    assert_eq!(ev.get_dtstart().unwrap().format(), "20200301T100000Z");
    assert_eq!(ev.get_dtend().unwrap().format(), "20200301T113000Z");
    assert_eq!(ev.get_duration().unwrap().num_seconds(), 5400);
    assert_eq!(ev.get_rrule(), &vec!["FREQ=DAILY;COUNT=3".to_owned()]);
    assert!(ev.get_exrule().is_empty());
    let rdates: Vec<String> = ev.get_rdate().iter().map(|d| d.format()).collect();
    assert_eq!(rdates, vec!["20200310T100000Z", "20200311T100000Z"]);
    let exdates: Vec<String> = ev.get_exdate().iter().map(|d| d.format()).collect();
    assert_eq!(exdates, vec!["20200302T100000Z"]);
    assert!(ev.has_rruleset());
    let set = ev.get_rruleset().unwrap();
    assert_eq!(set.rrules, vec!["FREQ=DAILY;COUNT=3".to_owned()]);
    assert_eq!(set.rdates.len(), 2);
    assert_eq!(set.exdates.len(), 1);
    assert!(set.exrules.is_empty());

    let plain = "BEGIN:VEVENT\r\nUID:e\r\nDTSTAMP:20200101T000000Z\r\nDTSTART:20200301T100000Z\r\nEND:VEVENT\r\n";
    let ev = ComponentParser::<IcalEventBuilder>::new(plain.as_bytes().to_vec())
        .expect_one()
        .unwrap();
    assert!(!ev.has_rruleset());
    assert!(ev.get_rruleset().is_none());
    assert!(ev.get_dtend().is_none());
    assert!(ev.get_duration().is_none());
}

#[test]
fn the_date_of_a_contact_may_lack_its_year() {
    let (d, year) = CalDate::parse_vcard("19850412").unwrap();
    assert_eq!((d.format().as_str(), year), ("19850412", true));
    let (d, year) = CalDate::parse_vcard("1985-04-12").unwrap();
    assert_eq!((d.format().as_str(), year), ("19850412", true));
    let (d, year) = CalDate::parse_vcard("--0412").unwrap();
    assert_eq!((d.format().as_str(), year), ("19720412", false));
    assert_eq!(d.naive_date(), 832);
    let (d, year) = CalDate::parse_vcard("--0229").unwrap();
    assert_eq!((d.format().as_str(), year), ("19720229", false));
    assert_eq!(
        CalDate::parse_vcard("--0230").unwrap_err(),
        CalDateTimeError::ParseError("--0230".to_owned())
    );
    assert_eq!(
        CalDate::parse_vcard("--1301").unwrap_err(),
        CalDateTimeError::ParseError("--1301".to_owned())
    );
    assert_eq!(
        CalDate::parse_vcard("-0412").unwrap_err(),
        CalDateTimeError::InvalidDatetimeFormat("-0412".to_owned())
    );
    assert_eq!(
        CalDate::parse_vcard("--04a2").unwrap_err(),
        CalDateTimeError::InvalidDatetimeFormat("--04a2".to_owned())
    );
}

fn rdate_round_trip(input: &str) {
    let line = PropertyParser::from_reader(input.as_bytes().to_vec()).next().unwrap().unwrap();
    let mut timezones = ical::types::TimezoneTable::new();
    timezones.insert("America/New_York".to_owned(), None);
    let prop = ical::parser::rdate::IcalRDATEProperty::parse_prop(&line, &timezones).unwrap();
    let written = prop.to_property().generate();
    assert_eq!(written.trim().trim_end_matches(','), input.trim().trim_end_matches(','));
}

#[test]
fn roundtrip_of_a_date_time() {
    rdate_round_trip("RDATE:19970714T123000Z\r\n");
}

#[test]
fn roundtrip_of_a_date_time_in_a_timezone() {
    rdate_round_trip("RDATE;TZID=America/New_York:19970714T083000\r\n");
}

#[test]
fn roundtrip_of_a_period_with_an_end() {
    rdate_round_trip("RDATE;VALUE=PERIOD:19960403T020000Z/19960403T040000Z,\r\n");
}

#[test]
fn roundtrip_of_a_period_with_a_length() {
    rdate_round_trip("RDATE;VALUE=PERIOD:19960404T010000Z/PT3H\r\n");
}

#[test]
fn roundtrip_of_a_folded_list_of_dates() {
    rdate_round_trip(
        "RDATE;VALUE=DATE:19970101,19970120,19970217,19970421,19970526,19970704,1997\r\n 0901,19971014,19971128,19971129,19971225\r\n",
    );
}

#[test]
fn an_rdate_holds_its_values_and_its_timezone_identifier() {
    let line = PropertyParser::from_reader(
        b"RDATE;TZID=Europe/Berlin:19970714T083000,19970715T083000\r\n".to_vec(),
    )
    .next()
    .unwrap()
    .unwrap();
    let mut timezones = ical::types::TimezoneTable::new();
    let missing = ical::parser::rdate::IcalRDATEProperty::parse_prop(&line, &timezones);
    assert_eq!(
        missing.unwrap_err(),
        ical::parser::ParserError::DateTime(CalDateTimeError::InvalidTZID("Europe/Berlin".to_owned()))
    );
    timezones.insert("Europe/Berlin".to_owned(), ical::types::TzId::parse("Europe/Berlin"));
    let prop = ical::parser::rdate::IcalRDATEProperty::parse_prop(&line, &timezones).unwrap();
    assert_eq!(prop.0.len(), 2);
    assert_eq!(prop.1.as_deref(), Some("Europe/Berlin"));
    assert_eq!(prop.0[0].value_type(), "DATE-TIME");
    assert_eq!(prop.0[1].start().utc(), 868948200);
    let normal = prop.utc_or_local();
    assert_eq!(normal.1, None);
    assert_eq!(
        normal.to_property().generate(),
        "RDATE:19970714T063000Z,19970715T063000Z\r\n"
    );
    let bad = PropertyParser::from_reader(b"RDATE:19970714T083000,tomorrow\r\n".to_vec())
        .next()
        .unwrap()
        .unwrap();
    assert!(ical::parser::rdate::IcalRDATEProperty::parse_prop(&bad, &timezones).is_err());
}

#[test]
fn a_written_object_is_read_back() {
    let event = |extra: &str| {
        format!(
            "BEGIN:VEVENT\r\nUID:x\r\nDTSTAMP:20200101T000000Z\r\nDTSTART;TZID=Europe/Berlin:20200301T100000\r\n{}END:VEVENT\r\n",
            extra
        )
    };
    let input = format!(
        "BEGIN:VCALENDAR\r\nVERSION:2.0\r\n{}{}{}BEGIN:VTIMEZONE\r\nTZID:Europe/Berlin\r\nEND:VTIMEZONE\r\nEND:VCALENDAR\r\n",
        event("SUMMARY:second override\r\nRECURRENCE-ID;TZID=Europe/Berlin:20200303T100000\r\n"),
        event("SUMMARY:main\r\nRRULE:FREQ=DAILY;COUNT=3\r\n"),
        event("SUMMARY:first override\r\nRECURRENCE-ID;TZID=Europe/Berlin:20200302T100000\r\n"),
    );
    let object = ComponentParser::<ical::parser::ical::component::IcalCalendarObjectBuilder>::new(
        input.into_bytes(),
    )
    .expect_one()
    .unwrap();
    let text = object.generate();
    // the timezone definitions and the main instance come first
    assert_eq!(
        text,
        format!(
            "BEGIN:VCALENDAR\r\nVERSION:2.0\r\nBEGIN:VTIMEZONE\r\nTZID:Europe/Berlin\r\nEND:VTIMEZONE\r\n{}{}{}END:VCALENDAR\r\n",
            event("SUMMARY:main\r\nRRULE:FREQ=DAILY;COUNT=3\r\n"),
            event("SUMMARY:second override\r\nRECURRENCE-ID;TZID=Europe/Berlin:20200303T100000\r\n"),
            event("SUMMARY:first override\r\nRECURRENCE-ID;TZID=Europe/Berlin:20200302T100000\r\n"),
        )
    );
    let mut reader = ComponentParser::<ical::parser::ical::component::IcalCalendarObjectBuilder>::new(
        text.clone().into_bytes(),
    );
    let again = reader.next().unwrap().unwrap();
    assert!(reader.next().is_none());
    assert_eq!(again.generate(), text);
    assert_eq!(again.get_uid(), "x");
    let instances = again.expand_recurrence(None, None).unwrap();
    let summaries: Vec<_> = instances.iter().map(|e| e.get_summary().unwrap().to_owned()).collect();
    assert_eq!(summaries, vec!["main", "first override", "second override"]);
}

#[test]
fn an_empty_parameter_value_is_read_back_at_the_start_and_at_the_end() {
    for params in [
        vec![("K", vec![""])],
        vec![("K", vec!["", "a"])],
        vec![("K", vec!["a", ""])],
        vec![("K", vec!["", ""])],
        vec![("K", vec!["", "a", "b", ""]), ("L", vec![""]), ("M", vec!["x"])],
    ] {
        let p = property("X-TEST", params, Some("v"));
        let text = p.generate();
        let q = PropertyParser::from_reader(text.clone().into_bytes()).next().unwrap().unwrap();
        assert_eq!(q, p);
        assert_eq!(q.generate(), text);
    }
    assert_eq!(property("X", vec![("K", vec![""])], None).generate(), "X;K=:\r\n");
    // two commas in a row are read as one
    let p = property("X", vec![("K", vec!["a", "", "b"])], Some("v"));
    let q = PropertyParser::from_reader(p.generate().into_bytes()).next().unwrap().unwrap();
    assert_eq!(q, property("X", vec![("K", vec!["a", "b"])], Some("v")));
}
