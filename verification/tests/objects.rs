use ical::generator::Emitter;
use ical::parser::ical::component::{
    CalendarInnerData, IcalCalendar, IcalCalendarBuilder, IcalCalendarObjectBuilder, IcalJournal,
    IcalTodo,
};
use ical::parser::{Component, ComponentMut, ComponentParser, ParserError};
use ical::property::{Property, PropertyParser};
use ical::types::TimezoneTable;

const BERLIN: &str = "BEGIN:VTIMEZONE\r\nTZID:Europe/Berlin\r\nEND:VTIMEZONE\r\n";
const PARIS: &str = "BEGIN:VTIMEZONE\r\nTZID:Europe/Paris\r\nEND:VTIMEZONE\r\n";

fn calendar(body: &str) -> Result<IcalCalendar, ParserError> {
    let text = format!("BEGIN:VCALENDAR\r\nVERSION:2.0\r\nPRODID:test\r\n{}END:VCALENDAR\r\n", body);
    ComponentParser::<IcalCalendarBuilder>::new(text.into_bytes()).expect_one()
}

fn event(uid: &str, extra: &str) -> String {
    format!("BEGIN:VEVENT\r\nUID:{}\r\nDTSTAMP:20200101T000000Z\r\nDTSTART:20200301T100000Z\r\n{}END:VEVENT\r\n", uid, extra)
}

#[test]
fn a_property_line_is_written_as_it_was_read() {
    let line = "DTSTART;TZID=Europe/Berlin:20201206T170000\r\n";
    let p = PropertyParser::from_reader(line.as_bytes().to_vec()).next().unwrap().unwrap();
    assert_eq!(p.generate(), line);
    let p = Property {
        name: "ATTENDEE".to_owned(),
        params: vec![
            ("CN".to_owned(), vec!["Doe, John".to_owned(), "\"kept; as it is\"".to_owned()]),
            ("ROLE".to_owned(), vec![]),
        ],
        value: None,
    };
    assert_eq!(p.generate(), "ATTENDEE;CN=Doe\\, John,\"kept; as it is\";ROLE=:\r\n");
}

#[test]
fn a_calendar_is_written_as_nested_blocks() {
    let body = format!("{}{}BEGIN:VTODO\r\nUID:t\r\nDTSTAMP:20200101T000000Z\r\nBEGIN:VALARM\r\nACTION:DISPLAY\r\nEND:VALARM\r\nEND:VTODO\r\n", BERLIN, event("e", ""));
    let cal = calendar(&body).unwrap();
    let text = cal.generate();
    assert_eq!(
        text,
        format!("BEGIN:VCALENDAR\r\nVERSION:2.0\r\nPRODID:test\r\n{}END:VCALENDAR\r\n", body)
    );
    // reading what was written and writing it again gives the same text
    let again = ComponentParser::<IcalCalendarBuilder>::new(text.clone().into_bytes())
        .expect_one()
        .unwrap();
    assert_eq!(again.generate(), text);
}

#[test]
fn a_checked_component_can_be_turned_back_into_a_draft() {
    let cal = calendar(&format!("{}{}", BERLIN, event("e", "BEGIN:VALARM\r\nACTION:AUDIO\r\nEND:VALARM\r\n"))).unwrap();
    let text = cal.generate();
    let mut draft = cal.mutable();
    assert_eq!(draft.events.len(), 1);
    assert_eq!(draft.events[0].alarms.len(), 1);
    assert_eq!(draft.timezones.len(), 1);
    let again = draft.clone_for_test().build(&TimezoneTable::new()).unwrap();
    assert_eq!(again.generate(), text);
    draft.events[0].set_property(Property {
        name: "UID".to_owned(),
        params: vec![],
        value: Some("changed".to_owned()),
    });
    draft.events[0].remove_property("DTSTART");
    assert_eq!(
        draft.build(&TimezoneTable::new()).unwrap_err(),
        ParserError::MissingProperty("DTSTART")
    );
}

trait CloneForTest {
    fn clone_for_test(&self) -> Self;
}

impl CloneForTest for IcalCalendarBuilder {
    fn clone_for_test(&self) -> Self {
        let mut text = String::from("BEGIN:VCALENDAR\r\n");
        for p in &self.properties {
            text += &p.generate();
        }
        for tz in &self.timezones {
            text += &tz.generate();
        }
        for ev in &self.events {
            text += "BEGIN:VEVENT\r\n";
            for p in &ev.properties {
                text += &p.generate();
            }
            for alarm in &ev.alarms {
                text += &alarm.generate();
            }
            text += "END:VEVENT\r\n";
        }
        text += "END:VCALENDAR\r\n";
        let mut parser = PropertyParser::from_reader(text.into_bytes());
        parser.next();
        let mut draft = IcalCalendarBuilder::new();
        draft.parse(&mut parser).unwrap();
        draft
    }
}

#[test]
fn a_calendar_is_split_by_unique_identifier() {
    let body = format!(
        "{}{}{}{}{}BEGIN:VTODO\r\nUID:t\r\nDTSTAMP:20200101T000000Z\r\nEND:VTODO\r\nBEGIN:VJOURNAL\r\nUID:j\r\nDTSTAMP:20200101T000000Z\r\nEND:VJOURNAL\r\nBEGIN:VFREEBUSY\r\nUID:f\r\nEND:VFREEBUSY\r\n",
        BERLIN,
        PARIS,
        event("b", "RRULE:FREQ=DAILY;COUNT=2\r\n"),
        event("a", "X-WHERE;TZID=Europe/Paris:here\r\n"),
        event("b", "RECURRENCE-ID:20200302T100000Z\r\nDESCRIPTION;TZID=Europe/Berlin:x\r\n"),
    );
    let parts = calendar(&body).unwrap().expand_calendar();
    assert_eq!(parts.len(), 5);
    let uids: Vec<Vec<String>> = parts
        .iter()
        .map(|c| c.get_events().iter().map(|e| e.get_uid().to_owned()).collect())
        .collect();
    assert_eq!(uids[0], vec!["a"]);
    assert_eq!(uids[1], vec!["b", "b"]);
    let zones = |c: &IcalCalendar| -> Vec<String> {
        c.get_timezones().iter().map(|tz| tz.get_tzid().to_owned()).collect()
    };
    assert_eq!(zones(&parts[0]), vec!["Europe/Paris"]);
    assert_eq!(zones(&parts[1]), vec!["Europe/Berlin"]);
    assert_eq!(parts[2].get_todos().len(), 1);
    assert_eq!(parts[3].get_journals().len(), 1);
    assert_eq!(parts[4].get_free_busys().len(), 1);
    assert!(zones(&parts[4]).is_empty());
    for part in &parts {
        assert_eq!(part.get_properties().len(), 2);
    }
}

fn object(body: &str) -> Result<ical::parser::ical::component::IcalCalendarObject, ParserError> {
    let text = format!("BEGIN:VCALENDAR\r\nVERSION:2.0\r\n{}END:VCALENDAR\r\n", body);
    ComponentParser::<IcalCalendarObjectBuilder>::new(text.into_bytes()).expect_one()
}

#[test]
fn an_object_tells_its_main_instance_from_its_overrides() {
    let body = format!(
        "{}{}",
        event("x", "SUMMARY:override\r\nRECURRENCE-ID:20200302T100000Z\r\n"),
        event("x", "SUMMARY:main\r\nRRULE:FREQ=DAILY;COUNT=3\r\n"),
    );
    let obj = object(&body).unwrap();
    assert_eq!(obj.get_uid(), "x");
    match obj.get_inner() {
        CalendarInnerData::Event(main, overrides) => {
            assert_eq!(main.get_summary(), Some("main"));
            assert_eq!(overrides.len(), 1);
        }
        _ => panic!("events were written"),
    }
    let instances = obj.expand_recurrence(None, None).unwrap();
    let summaries: Vec<_> = instances.iter().map(|e| e.get_summary().unwrap().to_owned()).collect();
    assert_eq!(summaries, vec!["main", "override", "main"]);
    // the main instance is written first
    assert!(obj.generate().find("SUMMARY:main").unwrap() < obj.generate().find("SUMMARY:override").unwrap());
}

#[test]
fn the_faults_of_an_object() {
    assert_eq!(object("").unwrap_err(), ParserError::NotComplete);
    assert_eq!(
        object(&format!("{}{}", event("x", ""), event("y", "RECURRENCE-ID:20200302T100000Z\r\n"))).unwrap_err(),
        ParserError::DifferingUIDs
    );
    assert_eq!(
        object(&format!("{}{}", event("x", ""), event("x", ""))).unwrap_err(),
        ParserError::MissingRecurId
    );
    assert_eq!(
        object(&format!(
            "{}{}",
            event("x", "RRULE:FREQ=DAILY;COUNT=3\r\n"),
            event("x", "RRULE:FREQ=DAILY;COUNT=2\r\n")
        ))
        .unwrap_err(),
        ParserError::MultipleMainObjects
    );
    assert_eq!(
        object(&format!("{}BEGIN:VTODO\r\nUID:x\r\nDTSTAMP:20200101T000000Z\r\nEND:VTODO\r\n", event("x", ""))).unwrap_err(),
        ParserError::InvalidComponent("VTODO".to_owned())
    );
    assert_eq!(
        object("BEGIN:VFREEBUSY\r\nEND:VFREEBUSY\r\n").unwrap_err(),
        ParserError::InvalidComponent("VFREEBUSY".to_owned())
    );
}

#[test]
fn to_dos_and_journal_entries_are_checked() {
    let read_todo = |body: &str| {
        let text = format!("BEGIN:VTODO\r\n{}END:VTODO\r\n", body);
        ComponentParser::<IcalTodo<false>>::new(text.into_bytes()).expect_one()
    };
    let todo = read_todo("UID:t\r\nDTSTAMP:20200101T000000Z\r\nDUE;TZID=Europe/Berlin:20200101T000000\r\nDURATION:PT1H\r\nBEGIN:VALARM\r\nTRIGGER;TZID=Europe/Paris:x\r\nEND:VALARM\r\n").unwrap();
    assert_eq!(todo.get_uid(), "t");
    assert_eq!(todo.get_dtstamp(), "20200101T000000Z");
    assert_eq!(todo.get_duration().unwrap().num_seconds(), 3600);
    assert!(todo.get_due().is_some());
    assert!(todo.get_dtstart().is_none());
    assert!(todo.get_rrule().is_none());
    assert!(todo.get_recurrence_id().is_none());
    assert_eq!(todo.get_tzids(), vec!["Europe/Berlin", "Europe/Paris"]);
    assert_eq!(read_todo("DTSTAMP:20200101T000000Z\r\n").unwrap_err(), ParserError::MissingProperty("UID"));
    assert_eq!(read_todo("UID:t\r\n").unwrap_err(), ParserError::MissingProperty("DTSTAMP"));
    assert!(matches!(
        read_todo("UID:t\r\nDTSTAMP:20200101T000000Z\r\nDURATION:soon\r\n").unwrap_err(),
        ParserError::InvalidDuration(_)
    ));
    let text = "BEGIN:VJOURNAL\r\nUID:j\r\nDTSTAMP:20200101T000000Z\r\nDTSTART;VALUE=DATE:20200101\r\nRECURRENCE-ID:20200101T000000Z\r\nEND:VJOURNAL\r\n";
    let r = ComponentParser::<IcalJournal<false>>::new(text.as_bytes().to_vec()).expect_one();
    assert_eq!(r.unwrap_err(), ParserError::DtstartNotMatchingRecurId);
}

#[test]
fn a_required_property_without_a_value_is_missing() {
    let todo = |lines: &str| {
        let text = format!("BEGIN:VTODO\r\n{}END:VTODO\r\n", lines);
        ComponentParser::<IcalTodo<false>>::new(text.into_bytes()).expect_one()
    };
    let journal = |lines: &str| {
        let text = format!("BEGIN:VJOURNAL\r\n{}END:VJOURNAL\r\n", lines);
        ComponentParser::<IcalJournal<false>>::new(text.into_bytes()).expect_one()
    };
    assert_eq!(todo("UID:1\r\nDTSTAMP:\r\n").unwrap_err(), ParserError::MissingProperty("DTSTAMP"));
    assert_eq!(todo("UID:\r\nDTSTAMP:\r\n").unwrap_err(), ParserError::MissingProperty("UID"));
    assert_eq!(todo("UID:\r\nDTSTAMP:20200101T000000Z\r\n").unwrap_err(), ParserError::MissingProperty("UID"));
    assert_eq!(todo("DTSTAMP:20200101T000000Z\r\n").unwrap_err(), ParserError::MissingProperty("UID"));
    assert_eq!(todo("UID:1\r\n").unwrap_err(), ParserError::MissingProperty("DTSTAMP"));
    assert_eq!(journal("UID:1\r\nDTSTAMP:\r\n").unwrap_err(), ParserError::MissingProperty("DTSTAMP"));
    assert_eq!(journal("UID:\r\nDTSTAMP:20200101T000000Z\r\n").unwrap_err(), ParserError::MissingProperty("UID"));
    assert_eq!(journal("UID:1\r\n").unwrap_err(), ParserError::MissingProperty("DTSTAMP"));
    assert_eq!(
        todo("UID:1\r\nUID:2\r\nDTSTAMP:20200101T000000Z\r\n").unwrap_err(),
        ParserError::PropertyConflict("Multiple instances of property")
    );
    // a duration without a value is no fault, a malformed one is
    let ok = todo("UID:1\r\nDTSTAMP:20200101T000000Z\r\nDURATION:\r\n").unwrap();
    assert_eq!(ok.get_uid(), "1");
    assert_eq!(ok.get_dtstamp(), "20200101T000000Z");
    assert!(ok.get_duration().is_none());
    assert_eq!(
        todo("UID:1\r\nDTSTAMP:20200101T000000Z\r\nDURATION:P1D12W\r\n").unwrap_err(),
        ParserError::InvalidDuration(ical::types::InvalidDuration("P1D12W".to_owned()))
    );
    let ok = journal("UID:j\r\nDTSTAMP:20200101T000000Z\r\n").unwrap();
    assert_eq!((ok.get_uid(), ok.get_dtstamp()), ("j", "20200101T000000Z"));
}
