use ical::parser::accessor::RecurIdRange;
use ical::parser::ical::component::{IcalCalendar, IcalCalendarBuilder, IcalEvent, IcalEventBuilder};
use ical::parser::{Component, ComponentMut, ComponentParser, ParserError};
use ical::types::{CalDateOrDateTime, TimezoneTable, TzId};

const BERLIN: &str = "BEGIN:VTIMEZONE\r\nTZID:Europe/Berlin\r\nX-LIC-LOCATION:Europe/Berlin\r\nBEGIN:DAYLIGHT\r\nTZNAME:CEST\r\nTZOFFSETFROM:+0100\r\nTZOFFSETTO:+0200\r\nDTSTART:19700329T020000\r\nRRULE:FREQ=YEARLY;BYMONTH=3;BYDAY=-1SU\r\nEND:DAYLIGHT\r\nBEGIN:STANDARD\r\nTZNAME:CET\r\nTZOFFSETFROM:+0200\r\nTZOFFSETTO:+0100\r\nDTSTART:19701025T030000\r\nRRULE:FREQ=YEARLY;BYMONTH=10;BYDAY=-1SU\r\nEND:STANDARD\r\nEND:VTIMEZONE\r\n";

fn calendar(body: &str) -> Result<IcalCalendar, ParserError> {
    let text = format!("BEGIN:VCALENDAR\r\nVERSION:2.0\r\nPRODID:test\r\n{}END:VCALENDAR\r\n", body);
    ComponentParser::<IcalCalendarBuilder>::new(text.into_bytes()).expect_one()
}

fn event(lines: &str) -> Result<IcalEvent, ParserError> {
    let text = format!("BEGIN:VEVENT\r\n{}END:VEVENT\r\n", lines);
    ComponentParser::<IcalEventBuilder>::new(text.into_bytes()).expect_one()
}

fn utc(text: &str) -> i64 {
    match CalDateOrDateTime::parse_prop(
        &ical::property::Property {
            name: "X".to_owned(),
            params: vec![],
            value: Some(text.to_owned()),
        },
        &TimezoneTable::new(),
        "DATE-TIME",
    )
    .unwrap()
    {
        CalDateOrDateTime::DateTime(dt) => dt.utc(),
        CalDateOrDateTime::Date(d) => d.naive_date() * 86400,
    }
}

#[test]
fn a_zoned_start_is_read_in_its_zone() {
    let body = format!(
        "{}BEGIN:VEVENT\r\nUID:1\r\nDTSTAMP:20201201T120000Z\r\nDTSTART;TZID=Europe/Berlin:20201206T170000\r\nEND:VEVENT\r\n",
        BERLIN
    );
    let cal = calendar(&body).unwrap();
    let events = cal.get_events();
    assert_eq!(events.len(), 1);
    match events[0].get_dtstart().unwrap() {
        CalDateOrDateTime::DateTime(dt) => {
            assert_eq!(dt.format(), "20201206T170000");
            assert_eq!(dt.utc(), utc("20201206T160000Z"));
            assert_eq!(dt.timezone(), ical::types::Timezone::Olson(TzId::parse("Europe/Berlin").unwrap()));
        }
        CalDateOrDateTime::Date(_) => panic!("a date-time was written"),
    }
}

#[test]
fn a_timezone_that_was_never_declared_is_a_fault() {
    let r = calendar("BEGIN:VEVENT\r\nUID:1\r\nDTSTAMP:20201201T120000Z\r\nDTSTART;TZID=Nowhere/Land:20201206T170000\r\nEND:VEVENT\r\n");
    assert_eq!(
        r.unwrap_err(),
        ParserError::DateTime(ical::types::CalDateTimeError::InvalidTZID("Nowhere/Land".to_owned()))
    );
}

#[test]
fn an_event_without_start_and_method_misses_its_start() {
    let r = event("UID:1\r\nDTSTAMP:20201201T120000Z\r\n");
    assert_eq!(r.unwrap_err(), ParserError::MissingProperty("DTSTART"));
    let r = event("UID:1\r\nDTSTAMP:20201201T120000Z\r\nMETHOD:PUBLISH\r\n");
    assert!(r.is_ok());
}

#[test]
fn an_event_with_end_and_duration_is_a_conflict() {
    let r = event("UID:1\r\nDTSTAMP:20201201T120000Z\r\nDTSTART:20201206T170000Z\r\nDTEND:20201206T180000Z\r\nDURATION:PT1H\r\n");
    assert_eq!(
        r.unwrap_err(),
        ParserError::PropertyConflict("both DTEND and DURATION are defined")
    );
}

#[test]
fn required_properties_may_not_be_missing_or_doubled() {
    assert_eq!(
        event("DTSTAMP:20201201T120000Z\r\nDTSTART:20201206T170000Z\r\n").unwrap_err(),
        ParserError::MissingProperty("UID")
    );
    assert_eq!(
        event("UID:1\r\nDTSTART:20201206T170000Z\r\n").unwrap_err(),
        ParserError::MissingProperty("DTSTAMP")
    );
    assert_eq!(
        event("UID:1\r\nUID:2\r\nDTSTAMP:20201201T120000Z\r\nDTSTART:20201206T170000Z\r\n").unwrap_err(),
        ParserError::PropertyConflict("Multiple instances of property")
    );
}

#[test]
fn a_recurrence_id_must_be_of_the_kind_of_the_start() {
    let r = event("UID:1\r\nDTSTAMP:20201201T120000Z\r\nDTSTART:20201206T170000Z\r\nRECURRENCE-ID;VALUE=DATE:20201206\r\n");
    assert_eq!(r.unwrap_err(), ParserError::DtstartNotMatchingRecurId);
    let r = event("UID:1\r\nDTSTAMP:20201201T120000Z\r\nDTSTART:20201206T170000Z\r\nRECURRENCE-ID:20201206T170000\r\n");
    assert_eq!(r.unwrap_err(), ParserError::DtstartNotMatchingRecurId);
    let r = event("UID:1\r\nDTSTAMP:20201201T120000Z\r\nDTSTART:20201206T170000Z\r\nRECURRENCE-ID;RANGE=THISANDFUTURE:20201206T170000Z\r\n");
    assert_eq!(r.unwrap().get_recurrence_id().unwrap().1, RecurIdRange::ThisAndFuture);
}

#[test]
fn a_bad_rule_or_date_is_a_fault() {
    let r = event("UID:1\r\nDTSTAMP:20201201T120000Z\r\nDTSTART:20201206T170000Z\r\nRRULE:FREQ=SOMETIMES\r\n");
    assert_eq!(r.unwrap_err(), ParserError::InvalidRecurrenceRule("FREQ=SOMETIMES".to_owned()));
    let r = event("UID:1\r\nDTSTAMP:20201201T120000Z\r\nDTSTART:2020-12-06 17:00\r\n");
    assert!(matches!(r.unwrap_err(), ParserError::DateTime(_)));
    let r = event("UID:1\r\nDTSTAMP:20201201T120000Z\r\nDTSTART:20201206T170000Z\r\nDURATION:P1D12W\r\n");
    assert!(matches!(r.unwrap_err(), ParserError::InvalidDuration(_)));
}

#[test]
fn version_and_scale_are_checked_where_they_are_read() {
    let version = |v: &str| ical::parser::accessor::IcalVersion::parse_prop(&ical::property::Property {
        name: "VERSION".to_owned(),
        params: vec![],
        value: Some(v.to_owned()),
    });
    assert_eq!(version("2.0").unwrap(), ical::parser::accessor::IcalVersion::Version2_0);
    assert_eq!(version("1.0").unwrap(), ical::parser::accessor::IcalVersion::Version1_0);
    assert_eq!(version("3.0").unwrap_err(), ParserError::InvalidVersion);
    let scale = |v: &str| ical::parser::accessor::Calscale::parse_prop(&ical::property::Property {
        name: "CALSCALE".to_owned(),
        params: vec![],
        value: Some(v.to_owned()),
    });
    assert_eq!(scale("gregorian").unwrap(), ical::parser::accessor::Calscale::Gregorian);
    assert_eq!(scale("JULIAN").unwrap_err(), ParserError::InvalidCalscale);
    // a calendar keeps its own properties as they are
    let text = "BEGIN:VCALENDAR\r\nVERSION:3.0\r\nCALSCALE:JULIAN\r\nEND:VCALENDAR\r\n";
    let cal = ComponentParser::<IcalCalendarBuilder>::new(text.as_bytes().to_vec()).expect_one().unwrap();
    assert_eq!(ical::generator::Emitter::generate(&cal), text);
}

#[test]
fn a_timezone_needs_its_identifier() {
    let r = calendar("BEGIN:VTIMEZONE\r\nX-LIC-LOCATION:Europe/Berlin\r\nEND:VTIMEZONE\r\n");
    assert_eq!(r.unwrap_err(), ParserError::MissingProperty("TZID"));
}

#[test]
fn a_yearly_event_with_an_override_of_its_third_instance() {
    let main = event("UID:1\r\nDTSTAMP:20200101T000000Z\r\nDTSTART:20200301T100000Z\r\nDURATION:PT1H\r\nSUMMARY:main\r\nRRULE:FREQ=YEARLY;COUNT=5\r\n").unwrap();
    let this = event("UID:1\r\nDTSTAMP:20200101T000000Z\r\nDTSTART:20220302T120000Z\r\nSUMMARY:moved\r\nRECURRENCE-ID:20220301T100000Z\r\n").unwrap();
    let out = main.expand_recurrence(None, None, &vec![this]);
    let summaries: Vec<_> = out.iter().map(|e| e.get_summary().unwrap().to_owned()).collect();
    assert_eq!(summaries, vec!["main", "main", "moved", "main", "main"]);
    let starts: Vec<_> = out.iter().map(|e| e.get_dtstart().unwrap().format()).collect();
    assert_eq!(
        starts,
        vec!["20200301T100000Z", "20210301T100000Z", "20220302T120000Z", "20230301T100000Z", "20240301T100000Z"]
    );
    // a made instance names itself and keeps the length of its template
    assert_eq!(out[1].get_recurrence_id().unwrap().0.format(), "20210301T100000Z");
    assert_eq!(out[1].get_duration().unwrap().num_seconds(), 3600);
    let names: Vec<_> = out[1].get_properties().iter().map(|p| p.name.clone()).collect();
    assert_eq!(names, vec!["UID", "DTSTAMP", "DTSTART", "DURATION", "SUMMARY", "RECURRENCE-ID"]);

    let future = event("UID:1\r\nDTSTAMP:20200101T000000Z\r\nDTSTART:20220302T120000Z\r\nSUMMARY:moved\r\nRECURRENCE-ID;RANGE=THISANDFUTURE:20220301T100000Z\r\n").unwrap();
    let out = main.expand_recurrence(None, None, &vec![future]);
    let summaries: Vec<_> = out.iter().map(|e| e.get_summary().unwrap().to_owned()).collect();
    assert_eq!(summaries, vec!["main", "main", "moved", "moved", "moved"]);
    assert_eq!(out[3].get_dtstart().unwrap().format(), "20230301T100000Z");
}

#[test]
fn expanding_twice_gives_the_same_ascending_instances() {
    let main = event("UID:1\r\nDTSTAMP:20200101T000000Z\r\nDTSTART:20200301T100000Z\r\nRRULE:FREQ=DAILY;COUNT=10\r\nEXDATE:20200303T100000Z\r\nRDATE:20200401T100000Z\r\n").unwrap();
    let a = main.expand_recurrence(Some(utc("20200302T000000Z")), Some(utc("20200501T000000Z")), &vec![]);
    let b = main.expand_recurrence(Some(utc("20200302T000000Z")), Some(utc("20200501T000000Z")), &vec![]);
    let starts = |v: &Vec<IcalEvent>| -> Vec<i64> { v.iter().map(|e| e.get_dtstart().unwrap().utc()).collect() };
    assert_eq!(starts(&a), starts(&b));
    assert!(starts(&a).windows(2).all(|w| w[0] < w[1]));
    assert_eq!(starts(&a).len(), 9);
    assert_eq!(starts(&a)[0], utc("20200302T100000Z"));
    assert_eq!(starts(&a)[1], utc("20200304T100000Z"));
    assert_eq!(*starts(&a).last().unwrap(), utc("20200401T100000Z"));
}

#[test]
fn an_event_that_does_not_recur_is_followed_by_its_overrides() {
    let main = event("UID:1\r\nDTSTAMP:20200101T000000Z\r\nDTSTART:20200301T100000Z\r\n").unwrap();
    let over = event("UID:1\r\nDTSTAMP:20200101T000000Z\r\nDTSTART:20200302T100000Z\r\nRECURRENCE-ID:20200301T100000Z\r\n").unwrap();
    let out = main.expand_recurrence(None, None, &vec![over]);
    assert_eq!(out.len(), 2);
    assert_eq!(out[0].get_dtstart().unwrap().format(), "20200301T100000Z");
    assert_eq!(out[1].get_dtstart().unwrap().format(), "20200302T100000Z");
}

#[test]
fn instances_of_a_whole_day_event_are_dates() {
    let main = event("UID:1\r\nDTSTAMP:19970901T130000Z\r\nDTSTART;VALUE=DATE:19971102\r\nRRULE:FREQ=YEARLY;COUNT=3\r\n").unwrap();
    let out = main.expand_recurrence(None, None, &vec![]);
    let starts: Vec<_> = out.iter().map(|e| e.get_dtstart().unwrap().format()).collect();
    assert_eq!(starts, vec!["19971102", "19981102", "19991102"]);
    assert!(out[0].get_dtstart().unwrap().is_date());
}

#[test]
fn expansion_is_capped() {
    let main = event("UID:1\r\nDTSTAMP:20200101T000000Z\r\nDTSTART:20200301T100000Z\r\nRRULE:FREQ=DAILY\r\n").unwrap();
    let out = main.expand_recurrence(None, None, &vec![]);
    assert_eq!(out.len(), 2048);
}

#[test]
fn a_draft_can_be_filled_by_hand() {
    let mut draft = IcalEventBuilder::new();
    for (name, value) in [("UID", "x"), ("DTSTAMP", "20200101T000000Z"), ("DTSTART", "20200301T100000")] {
        draft.add_property(ical::property::Property {
            name: name.to_owned(),
            params: vec![],
            value: Some(value.to_owned()),
        });
    }
    let ev = draft.build(&TimezoneTable::new()).unwrap();
    assert_eq!(ev.get_uid(), "x");
    assert!(ev.get_dtstart().unwrap().timezone().is_local());
}

#[test]
fn overrides_are_taken_in_the_order_of_their_recurrence_ids() {
    let main = event("UID:1\r\nDTSTAMP:20200101T000000Z\r\nDTSTART:20200301T100000Z\r\n").unwrap();
    let over = |recurid: &str, summary: &str| {
        event(&format!(
            "UID:1\r\nDTSTAMP:20200101T000000Z\r\nDTSTART:20200302T100000Z\r\nSUMMARY:{}\r\nRECURRENCE-ID:{}\r\n",
            summary, recurid
        ))
        .unwrap()
    };
    let overrides = vec![
        over("20200305T100000Z", "c"),
        over("20200303T100000Z", "a"),
        over("20200305T100000Z", "d"),
        over("20200304T100000Z", "b"),
    ];
    let out = main.expand_recurrence(None, None, &overrides);
    let summaries: Vec<_> = out.iter().map(|e| e.get_summary().unwrap_or("main").to_owned()).collect();
    // overrides that name the same instant keep their order
    assert_eq!(summaries, vec!["main", "a", "b", "c", "d"]);

    let sorted = ical::parser::ical::component::event::order::sort_by_recurid(overrides);
    let ids: Vec<_> = sorted.iter().map(|e| e.get_recurrence_id().unwrap().0.format()).collect();
    assert_eq!(
        ids,
        vec!["20200303T100000Z", "20200304T100000Z", "20200305T100000Z", "20200305T100000Z"]
    );

    // the first of two overrides of one instant is the instance
    let recurring = event("UID:1\r\nDTSTAMP:20200101T000000Z\r\nDTSTART:20200301T100000Z\r\nSUMMARY:main\r\nRRULE:FREQ=DAILY;COUNT=3\r\n").unwrap();
    let overrides = vec![
        over("20200303T100000Z", "late"),
        over("20200302T100000Z", "first"),
        over("20200302T100000Z", "second"),
    ];
    let out = recurring.expand_recurrence(None, None, &overrides);
    let summaries: Vec<_> = out.iter().map(|e| e.get_summary().unwrap().to_owned()).collect();
    assert_eq!(summaries, vec!["main", "first", "late"]);
}

#[test]
fn instances_are_made_for_the_instants_that_are_given() {
    let main = event("UID:1\r\nDTSTAMP:20200101T000000Z\r\nDTSTART:20200301T100000Z\r\nDURATION:PT1H\r\nSUMMARY:main\r\nRRULE:FREQ=DAILY\r\n").unwrap();
    let future = event("UID:1\r\nDTSTAMP:20200101T000000Z\r\nDTSTART:20200310T120000Z\r\nDURATION:PT2H\r\nSUMMARY:moved\r\nRECURRENCE-ID;RANGE=THISANDFUTURE:20200310T100000Z\r\n").unwrap();
    let t = |text: &str| utc(text);
    // an instant that does not ascend and one that lies out of range are left out
    let raw = vec![
        t("20200305T100000Z"),
        t("20200305T100000Z"),
        t("20200310T100000Z"),
        t("20200307T100000Z"),
        i64::MAX,
        t("20200320T100000Z"),
    ];
    let out = main.expand_instants(&raw, &vec![future]);
    let starts: Vec<_> = out.iter().map(|e| e.get_dtstart().unwrap().format()).collect();
    assert_eq!(starts, vec!["20200305T100000Z", "20200310T120000Z", "20200320T100000Z"]);
    let summaries: Vec<_> = out.iter().map(|e| e.get_summary().unwrap().to_owned()).collect();
    assert_eq!(summaries, vec!["main", "moved", "moved"]);
    let lengths: Vec<_> = out.iter().map(|e| e.get_duration().unwrap().num_seconds()).collect();
    assert_eq!(lengths, vec![3600, 7200, 7200]);
    assert_eq!(out[2].get_recurrence_id().unwrap().0.format(), "20200320T100000Z");
    // without instants there are no instances
    assert!(main.expand_instants(&vec![], &vec![]).is_empty());
    // an event that does not recur is given back, whatever the instants
    let single = event("UID:1\r\nDTSTAMP:20200101T000000Z\r\nDTSTART:20200301T100000Z\r\n").unwrap();
    assert_eq!(single.expand_instants(&raw, &vec![]).len(), 1);
}

#[test]
fn a_rule_with_a_character_that_is_not_ascii_is_no_rule() {
    let r = event("UID:1\r\nDTSTAMP:20200101T000000Z\r\nDTSTART:20200301T100000Z\r\nRRULE:FREQ=WEEKLY;BYDAY=\u{20ac}\r\n");
    assert_eq!(
        r.unwrap_err(),
        ParserError::InvalidRecurrenceRule("FREQ=WEEKLY;BYDAY=\u{20ac}".to_owned())
    );
    let r = event("UID:1\r\nDTSTAMP:20200101T000000Z\r\nDTSTART:20200301T100000Z\r\nEXRULE:FREQ=WEEKLY;BYDAY=M\u{e4}\r\n");
    assert_eq!(
        r.unwrap_err(),
        ParserError::InvalidRecurrenceRule("FREQ=WEEKLY;BYDAY=M\u{e4}".to_owned())
    );
    let r = event("UID:1\r\nDTSTAMP:20200101T000000Z\r\nDTSTART:20200301T100000Z\r\nRRULE:FREQ=WEEKLY;BYDAY=MO\r\n");
    assert!(r.is_ok());
}

#[test]
fn an_event_in_the_timezone_of_comparison_keeps_its_parameters() {
    let body = format!(
        "{}BEGIN:VEVENT\r\nUID:1\r\nDTSTAMP;X-A=1:20201201T120000Z\r\nDTSTART;X-B=b;TZID=Europe/Berlin;X-C=c,d:20201206T170000\r\nSUMMARY:s\r\nDTEND;VALUE=DATE-TIME;TZID=Europe/Berlin:20201206T180000\r\nEND:VEVENT\r\n",
        BERLIN
    );
    let cal = calendar(&body).unwrap();
    let mut draft = cal.mutable();
    let table = {
        let mut t = TimezoneTable::new();
        t.insert("Europe/Berlin".to_owned(), TzId::parse("Europe/Berlin"));
        t
    };
    let ev = draft.events.pop().unwrap().build(&table).unwrap();
    let normal = ev.to_utc_or_local();
    assert_eq!(
        ical::generator::Emitter::generate(&normal),
        "BEGIN:VEVENT\r\nUID:1\r\nDTSTAMP;X-A=1:20201201T120000Z\r\nDTSTART;X-B=b;X-C=c,d:20201206T160000Z\r\nSUMMARY:s\r\nDTEND;VALUE=DATE-TIME:20201206T170000Z\r\nEND:VEVENT\r\n"
    );
    let day = event("UID:1\r\nDTSTAMP:20201201T120000Z\r\nDTSTART;X-B=b;VALUE=DATE;X-C=c:20201206\r\n").unwrap();
    assert_eq!(
        ical::generator::Emitter::generate(&day.to_utc_or_local()),
        "BEGIN:VEVENT\r\nUID:1\r\nDTSTAMP:20201201T120000Z\r\nDTSTART;X-B=b;VALUE=DATE;X-C=c:20201206\r\nEND:VEVENT\r\n"
    );
}

#[test]
fn a_made_instance_keeps_the_place_of_the_duration() {
    let main = event("UID:1\r\nDURATION:PT1H\r\nDTSTAMP:20200101T000000Z\r\nDTSTART:20200301T100000Z\r\nSUMMARY:main\r\nRRULE:FREQ=DAILY;COUNT=2\r\n").unwrap();
    let out = main.expand_recurrence(None, None, &vec![]);
    assert_eq!(
        ical::generator::Emitter::generate(&out[1]),
        "BEGIN:VEVENT\r\nUID:1\r\nDURATION:PT1H\r\nDTSTAMP:20200101T000000Z\r\nDTSTART:20200302T100000Z\r\nSUMMARY:main\r\nRECURRENCE-ID:20200302T100000Z\r\nEND:VEVENT\r\n"
    );
    // an end gives the length, which is written at the end
    let ended = event("UID:1\r\nDTSTAMP:20200101T000000Z\r\nDTSTART:20200301T100000Z\r\nDTEND:20200301T113000Z\r\nRRULE:FREQ=DAILY;COUNT=2\r\n").unwrap();
    let out = ended.expand_recurrence(None, None, &vec![]);
    assert_eq!(
        ical::generator::Emitter::generate(&out[1]),
        "BEGIN:VEVENT\r\nUID:1\r\nDTSTAMP:20200101T000000Z\r\nDTSTART:20200302T100000Z\r\nRECURRENCE-ID:20200302T100000Z\r\nDURATION:PT1H30M\r\nEND:VEVENT\r\n"
    );
}
