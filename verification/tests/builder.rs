use ical::builder::{ical_param, ical_property, IcalCalendarBuilder, IcalEventBuilder};
use ical::generator::Emitter;
use ical::parser::ical::component::IcalTimeZone;
use ical::parser::ComponentParser;
use ical::property::Property;

#[test]
fn build_minimal_ical_event() {
    let ev = IcalEventBuilder::tzid("Europe/Berlin")
        .uid("UID_@_test")
        .changed("20201201T120423")
        .start("20201206T170000")
        .duration("PT2H45M0S")
        .build()
        .unwrap();
    let e = Emitter::generate(&ev);
    assert_eq!(
        e,
        "BEGIN:VEVENT\r\n\
        UID:UID_@_test\r\n\
        DTSTAMP;TZID=Europe/Berlin:20201201T120423\r\n\
        DTSTART;TZID=Europe/Berlin:20201206T170000\r\n\
        DURATION:PT2H45M0S\r\n\
        END:VEVENT\r\n"
    );
}

#[test]
fn build_whole_day_event() {
    let expect = "BEGIN:VEVENT\r\n\
   UID:20070423T123432Z-541111@example.com\r\n\
   DTSTAMP:20070423T123432Z\r\n\
   DTSTART;VALUE=DATE:20070628\r\n\
   DTEND;VALUE=DATE:20070709\r\n\
   SUMMARY:Festival International de Jazz de Montreal\r\n\
   TRANSP:TRANSPARENT\r\n\
   END:VEVENT\r\n\
  ";
    let event = IcalEventBuilder::tzid("America/Montreal")
        .uid("20070423T123432Z-541111@example.com")
        .changed_utc("20070423T123432Z")
        .start_day("20070628")
        .end_day("20070709")
        .set(ical_property(
            "SUMMARY",
            "Festival International de Jazz de Montreal",
        ))
        .set(ical_property("TRANSP", "TRANSPARENT"))
        .build()
        .unwrap();

    assert_eq!(expect, event.generate());
}

#[test]
fn build_frequent_ical_event() {
    let expect = "BEGIN:VEVENT\r\n\
   UID:19970901T130000Z-123403@example.com\r\n\
   DTSTAMP:19970901T130000Z\r\n\
   DTSTART;VALUE=DATE:19971102\r\n\
   RRULE:FREQ=YEARLY\r\n\
   SUMMARY:Our Blissful Anniversary\r\n\
   TRANSP:TRANSPARENT\r\n\
   CLASS:CONFIDENTIAL\r\n\
   CATEGORIES:ANNIVERSARY,PERSONAL,SPECIAL OCCASION\r\n\
   END:VEVENT\r\n\
  ";
    let event = IcalEventBuilder::tzid("America/Montreal")
        .uid("19970901T130000Z-123403@example.com")
        .changed_utc("19970901T130000Z")
        .one_day("19971102")
        .repeat_rule("FREQ=YEARLY")
        .set(ical_property("SUMMARY", "Our Blissful Anniversary"))
        .set(ical_property("TRANSP", "TRANSPARENT"))
        .set(ical_property("CLASS", "CONFIDENTIAL"))
        .set(ical_property(
            "CATEGORIES",
            "ANNIVERSARY,PERSONAL,SPECIAL OCCASION",
        ))
        .build()
        .unwrap();
    assert_eq!(expect, event.generate());
}

#[test]
fn a_parameter_is_a_key_with_values() {
    assert_eq!(ical_param("param3", "pvalue3"), ("param3".to_owned(), vec!["pvalue3".to_owned()]));
    let p = ical_property("NAME", "value");
    assert_eq!(p, Property { name: "NAME".to_owned(), params: vec![], value: Some("value".to_owned()) });
}

#[test]
fn a_calendar_is_built_step_by_step() {
    let event = IcalEventBuilder::tzid("Europe/Berlin")
        .uid("asdasd")
        .changed_utc("20250726T144426Z")
        .start("20250726T144426")
        .end("20250726T154426")
        .build()
        .unwrap();
    let tz = ComponentParser::<IcalTimeZone<false>>::new(
        b"BEGIN:VTIMEZONE\r\nTZID:Europe/Berlin\r\nEND:VTIMEZONE\r\n".to_vec(),
    )
    .expect_one()
    .unwrap();
    let cal = IcalCalendarBuilder::version("2.0")
        .gregorian()
        .prodid("example")
        .set(ical_property("X-HELLO", "Ok wow!"))
        .add_timezone(tz)
        .add_event(event)
        .build()
        .unwrap();
    assert_eq!(
        cal.generate(),
        "BEGIN:VCALENDAR\r\nVERSION:2.0\r\nCALSCALE:GREGORIAN\r\nPRODID:example\r\nX-HELLO:Ok wow!\r\n\
         BEGIN:VTIMEZONE\r\nTZID:Europe/Berlin\r\nEND:VTIMEZONE\r\n\
         BEGIN:VEVENT\r\nUID:asdasd\r\nDTSTAMP:20250726T144426Z\r\n\
         DTSTART;TZID=Europe/Berlin:20250726T144426\r\nDTEND;TZID=Europe/Berlin:20250726T154426\r\n\
         END:VEVENT\r\nEND:VCALENDAR\r\n"
    );
    assert_eq!(cal.timezone_table().get("Europe/Berlin").unwrap().unwrap().name(), "Europe/Berlin");
    assert!(cal.timezone_table().get("Europe/Paris").is_none());
}

#[test]
fn test_calendar_builder() {
    let cal = IcalCalendarBuilder::version("4.0")
        .gregorian()
        .prodid("github.com/lennart-k/ical-rs")
        .set(Property {
            name: "X-HELLO".to_string(),
            params: vec![],
            value: Some("Ok wow!".to_string()),
        })
        .add_event(
            IcalEventBuilder::tzid("Europe/Berlin")
                .uid("asdasd")
                .changed_utc("20250726T144426Z")
                .start("20250726T144426Z")
                .end("20250726T144426Z")
                .build()
                .unwrap(),
        )
        .build()
        .unwrap();
    assert_eq!(
        cal.generate(),
        "BEGIN:VCALENDAR\r\nVERSION:4.0\r\nCALSCALE:GREGORIAN\r\nPRODID:github.com/lennart-k/ical-rs\r\n\
         X-HELLO:Ok wow!\r\n\
         BEGIN:VEVENT\r\nUID:asdasd\r\nDTSTAMP:20250726T144426Z\r\n\
         DTSTART;TZID=Europe/Berlin:20250726T144426Z\r\nDTEND;TZID=Europe/Berlin:20250726T144426Z\r\n\
         END:VEVENT\r\nEND:VCALENDAR\r\n"
    );

    let ics = "BEGIN:VCALENDAR\r\nVERSION:2.0\r\nPRODID:everything\r\n\
         BEGIN:VTIMEZONE\r\nTZID:Europe/Berlin\r\nEND:VTIMEZONE\r\n\
         BEGIN:VEVENT\r\nUID:e1\r\nDTSTAMP:20250726T144426Z\r\nDTSTART:20250726T144426Z\r\nEND:VEVENT\r\n\
         BEGIN:VEVENT\r\nUID:e2\r\nDTSTAMP:20250726T144426Z\r\nDTSTART;VALUE=DATE:20250727\r\nEND:VEVENT\r\n\
         BEGIN:VALARM\r\nACTION:DISPLAY\r\nEND:VALARM\r\n\
         BEGIN:VTODO\r\nUID:t1\r\nDTSTAMP:20250726T144426Z\r\nEND:VTODO\r\n\
         BEGIN:VJOURNAL\r\nUID:j1\r\nDTSTAMP:20250726T144426Z\r\nEND:VJOURNAL\r\n\
         END:VCALENDAR\r\n";
    let ref_cal = ComponentParser::<ical::parser::ical::component::IcalCalendarBuilder>::new(
        ics.as_bytes().to_vec(),
    )
    .next()
    .unwrap()
    .unwrap();
    let mut parts = ical::parser::Component::mutable(ref_cal);
    let table = ical::types::TimezoneTable::new();
    let events = parts
        .events
        .drain(..)
        .map(|e| ical::parser::ComponentMut::build(e, &table).unwrap())
        .collect::<Vec<_>>();
    let todo = ical::parser::ComponentMut::build(parts.todos.pop().unwrap(), &table).unwrap();
    let alarm = ical::parser::ComponentMut::build(parts.alarms.pop().unwrap(), &table).unwrap();
    let timezone = ical::parser::ComponentMut::build(parts.timezones.pop().unwrap(), &table).unwrap();
    let journal = ical::parser::ComponentMut::build(parts.journals.pop().unwrap(), &table).unwrap();

    let cal = IcalCalendarBuilder::version("4.0")
        .noscale()
        .prodid("github.com/lennart-k/ical-rs")
        .add_events(events)
        .set(Property {
            name: "X-HELLO".to_string(),
            params: vec![],
            value: Some("Ok wow!".to_string()),
        })
        .add_todo(todo)
        .add_alarm(alarm)
        .add_timezone(timezone)
        .add_journal(journal)
        .build()
        .unwrap();
    assert_eq!(
        cal.generate(),
        "BEGIN:VCALENDAR\r\nVERSION:4.0\r\nPRODID:github.com/lennart-k/ical-rs\r\nX-HELLO:Ok wow!\r\n\
         BEGIN:VTIMEZONE\r\nTZID:Europe/Berlin\r\nEND:VTIMEZONE\r\n\
         BEGIN:VEVENT\r\nUID:e1\r\nDTSTAMP:20250726T144426Z\r\nDTSTART:20250726T144426Z\r\nEND:VEVENT\r\n\
         BEGIN:VEVENT\r\nUID:e2\r\nDTSTAMP:20250726T144426Z\r\nDTSTART;VALUE=DATE:20250727\r\nEND:VEVENT\r\n\
         BEGIN:VALARM\r\nACTION:DISPLAY\r\nEND:VALARM\r\n\
         BEGIN:VTODO\r\nUID:t1\r\nDTSTAMP:20250726T144426Z\r\nEND:VTODO\r\n\
         BEGIN:VJOURNAL\r\nUID:j1\r\nDTSTAMP:20250726T144426Z\r\nEND:VJOURNAL\r\n\
         END:VCALENDAR\r\n"
    );
}
