use ical::parser::accessor::{IcalDTSTARTProperty, IcalRECURIDProperty, IcalUIDProperty, RecurIdRange};
use ical::parser::ical::component::IcalEventBuilder;
use ical::parser::rdate::IcalRDATEProperty;
use ical::parser::typed::{GetProperty, ICalProperty, ParseProp};
use ical::parser::ParserError;
use ical::property::Property;
use ical::types::{CalDateOrDateTime, Duration, TimezoneTable};

fn property(name: &str, params: Vec<(&str, &str)>, value: &str) -> Property {
    Property {
        name: name.to_owned(),
        params: params.into_iter().map(|(k, v)| (k.to_owned(), vec![v.to_owned()])).collect(),
        value: Some(value.to_owned()),
    }
}

fn draft(properties: Vec<Property>) -> IcalEventBuilder {
    IcalEventBuilder { properties, alarms: vec![] }
}

#[test]
fn a_kind_of_property_has_a_name_and_a_value_type() {
    assert_eq!((IcalUIDProperty::name(), IcalUIDProperty::default_value_type()), ("UID", "TEXT"));
    assert_eq!(
        (IcalDTSTARTProperty::name(), IcalDTSTARTProperty::default_value_type()),
        ("DTSTART", "DATE-TIME")
    );
    assert_eq!(
        (IcalRECURIDProperty::name(), IcalRECURIDProperty::default_value_type()),
        ("RECURRENCE-ID", "DATE-TIME")
    );
    assert_eq!(
        (IcalRDATEProperty::name(), IcalRDATEProperty::default_value_type()),
        ("RDATE", "DATE-TIME")
    );
}

#[test]
fn typed_values_are_read_from_a_component() {
    let table = TimezoneTable::new();
    let d = draft(vec![
        property("UID", vec![], "abc"),
        property("DTSTART", vec![("VALUE", "DATE")], "20200301"),
        property("RECURRENCE-ID", vec![("RANGE", "THISANDFUTURE")], "20200302T100000Z"),
        property("RDATE", vec![], "20200310T100000Z,20200311T100000Z"),
        property("RDATE", vec![("VALUE", "DATE")], "20200312"),
    ]);
    assert!(d.has_prop::<IcalUIDProperty>());
    assert_eq!(d.safe_get_required::<IcalUIDProperty>(&table).unwrap(), IcalUIDProperty("abc".to_owned()));
    let start = d.safe_get_required::<IcalDTSTARTProperty>(&table).unwrap();
    assert!(start.0.is_date());
    assert_eq!(start.0.format(), "20200301");
    let recurid = d.safe_get_optional::<IcalRECURIDProperty>(&table).unwrap().unwrap();
    assert_eq!(recurid.0.format(), "20200302T100000Z");
    assert_eq!(recurid.1, RecurIdRange::ThisAndFuture);
    let rdates = d.safe_get_all::<IcalRDATEProperty>(&table).unwrap();
    assert_eq!(rdates.len(), 2);
    assert_eq!(rdates[0].0.len(), 2);
    assert_eq!(rdates[1].0[0].value_type(), "DATE");
}

#[test]
fn a_missing_a_doubled_and_a_bad_property_are_faults() {
    let table = TimezoneTable::new();
    let empty = draft(vec![]);
    assert!(!empty.has_prop::<IcalDTSTARTProperty>());
    assert!(empty.safe_get_optional::<IcalDTSTARTProperty>(&table).unwrap().is_none());
    assert_eq!(
        empty.safe_get_required::<IcalDTSTARTProperty>(&table).unwrap_err(),
        ParserError::MissingProperty("DTSTART")
    );
    assert!(empty.safe_get_all::<IcalRDATEProperty>(&table).unwrap().is_empty());
    let doubled = draft(vec![property("UID", vec![], "a"), property("UID", vec![], "b")]);
    assert_eq!(
        doubled.safe_get_optional::<IcalUIDProperty>(&table).unwrap_err(),
        ParserError::PropertyConflict("Multiple instances of property")
    );
    let bad = draft(vec![
        property("RDATE", vec![], "20200310T100000Z"),
        property("RDATE", vec![], "soon"),
        property("DTSTART", vec![("TZID", "Nowhere/Else")], "20200301T100000"),
    ]);
    assert!(matches!(
        bad.safe_get_all::<IcalRDATEProperty>(&table).unwrap_err(),
        ParserError::DateTime(_)
    ));
    assert!(matches!(
        bad.safe_get_required::<IcalDTSTARTProperty>(&table).unwrap_err(),
        ParserError::DateTime(_)
    ));
}

#[test]
fn values_are_read_by_their_type() {
    let table = TimezoneTable::new();
    let p = property("X", vec![], "P1DT2H");
    assert_eq!(<String as ParseProp>::parse_prop(&p, &table, "TEXT").unwrap(), "P1DT2H");
    assert_eq!(
        <Duration as ParseProp>::parse_prop(&p, &table, "DURATION").unwrap().num_seconds(),
        86400 + 7200
    );
    assert!(matches!(
        <CalDateOrDateTime as ParseProp>::parse_prop(&p, &table, "DATE-TIME").unwrap_err(),
        ParserError::DateTime(_)
    ));
    let d = property("X", vec![], "20200301");
    assert!(<CalDateOrDateTime as ParseProp>::parse_prop(&d, &table, "DATE").unwrap().is_date());
    let absent = Property { name: "X".to_owned(), params: vec![], value: None };
    assert_eq!(<String as ParseProp>::parse_prop(&absent, &table, "TEXT").unwrap(), "");
    assert!(matches!(
        <Duration as ParseProp>::parse_prop(&absent, &table, "DURATION").unwrap_err(),
        ParserError::InvalidDuration(_)
    ));
}

#[test]
fn a_draft_tells_what_it_holds_before_it_is_checked() {
    let mut table = TimezoneTable::new();
    table.insert("Europe/Berlin".to_owned(), ical::types::TzId::parse("Europe/Berlin"));
    let d = draft(vec![
        property("UID", vec![], "abc"),
        property("DTSTAMP", vec![], "20200101T000000Z"),
        property("DTSTART", vec![("TZID", "Europe/Berlin")], "20200301T100000"),
        property("DTEND", vec![("TZID", "Europe/Berlin")], "20200301T113000"),
        property("DURATION", vec![], "PT90M"),
        property("RRULE", vec![], "FREQ=DAILY;COUNT=3"),
        property("EXDATE", vec![], "20200302T090000Z,20200303T090000Z"),
        property("RDATE", vec![("VALUE", "PERIOD")], "20200310T100000Z/PT1H"),
        property("RDATE", vec![], "20200311T100000Z,20200312T100000Z"),
    ]);
    assert_eq!(d.safe_get_uid().unwrap(), "abc");
    assert_eq!(d.safe_get_dtstamp(&table).unwrap().unwrap().format(), "20200101T000000Z");
    let start = d.safe_get_dtstart(&table).unwrap().unwrap();
    assert_eq!(start.utc(), 1583053200);
    assert_eq!(d.safe_get_dtend(&table).unwrap().unwrap().utc(), 1583053200 + 5400);
    assert_eq!(d.safe_get_duration().unwrap().unwrap().num_seconds(), 5400);
    assert_eq!(d.safe_get_rrule(&table).unwrap(), vec!["FREQ=DAILY;COUNT=3".to_owned()]);
    assert_eq!(d.safe_get_exdate(&table).unwrap().len(), 2);
    let rdates = d.safe_get_rdate(&table).unwrap();
    assert_eq!(rdates.len(), 3);
    assert_eq!(rdates[0].value_type(), "PERIOD");
    assert_eq!(rdates[0].format(), "20200310T100000Z/PT1H");
    assert_eq!(rdates[2].format(), "20200312T100000Z");
}

#[test]
fn a_draft_reports_what_it_lacks_or_cannot_read() {
    let table = TimezoneTable::new();
    let empty = draft(vec![]);
    assert_eq!(empty.safe_get_uid().unwrap_err(), ParserError::MissingUID);
    assert!(empty.safe_get_dtstamp(&table).unwrap().is_none());
    assert!(empty.safe_get_dtstart(&table).unwrap().is_none());
    assert!(empty.safe_get_dtend(&table).unwrap().is_none());
    assert!(empty.safe_get_duration().unwrap().is_none());
    assert!(empty.safe_get_exdate(&table).unwrap().is_empty());
    assert!(empty.safe_get_rdate(&table).unwrap().is_empty());
    assert!(empty.safe_get_rrule(&table).unwrap().is_empty());
    let no_value = draft(vec![Property { name: "UID".to_owned(), params: vec![], value: None }]);
    assert_eq!(no_value.safe_get_uid().unwrap_err(), ParserError::MissingUID);
    let bad = draft(vec![
        property("DTSTAMP", vec![], "yesterday"),
        property("DTSTART", vec![("TZID", "Europe/Berlin")], "20200301T100000"),
        property("DURATION", vec![], "P1D12W"),
        property("RRULE", vec![], "FREQ=DAILY"),
    ]);
    assert!(matches!(bad.safe_get_dtstamp(&table).unwrap_err(), ParserError::DateTime(_)));
    assert_eq!(
        bad.safe_get_dtstart(&table).unwrap_err(),
        ParserError::DateTime(ical::types::CalDateTimeError::InvalidTZID("Europe/Berlin".to_owned()))
    );
    assert!(matches!(bad.safe_get_duration().unwrap_err(), ParserError::InvalidDuration(_)));
    assert!(matches!(bad.safe_get_rrule(&table).unwrap_err(), ParserError::DateTime(_)));
    let rule_without_start = draft(vec![property("RRULE", vec![], "FREQ=DAILY")]);
    assert_eq!(
        rule_without_start.safe_get_rrule(&table).unwrap_err(),
        ParserError::MissingProperty("DTSTART")
    );
    let bad_rule = draft(vec![
        property("DTSTART", vec![], "20200301T100000Z"),
        property("RRULE", vec![], "FREQ=SOMETIMES"),
    ]);
    assert_eq!(
        bad_rule.safe_get_rrule(&table).unwrap_err(),
        ParserError::InvalidRecurrenceRule("FREQ=SOMETIMES".to_owned())
    );
}

#[test]
fn a_value_that_a_property_cannot_have_is_a_fault() {
    let table = TimezoneTable::new();
    let range = property("RECURRENCE-ID", vec![("RANGE", "THISANDPRIOR")], "20200302T100000Z");
    assert_eq!(
        IcalRECURIDProperty::parse_prop(&range, &table).unwrap_err(),
        ParserError::InvalidPropertyValue("THISANDPRIOR".to_owned())
    );
    let kind = property("DTSTART", vec![("VALUE", "TEXT")], "20200302T100000Z");
    assert_eq!(
        CalDateOrDateTime::parse_prop(&kind, &table, "DATE-TIME").unwrap_err(),
        ical::types::CalDateTimeError::InvalidValueType("TEXT".to_owned())
    );
    let period = property("RDATE", vec![("VALUE", "PERIOD")], "20200310T100000Z/soon");
    assert_eq!(
        IcalRDATEProperty::parse_prop(&period, &table).unwrap_err(),
        ParserError::DateTime(ical::types::CalDateTimeError::InvalidDurationFormat("soon".to_owned()))
    );
    let no_slash = property("RDATE", vec![("VALUE", "PERIOD")], "20200310T100000Z");
    assert_eq!(
        IcalRDATEProperty::parse_prop(&no_slash, &table).unwrap_err(),
        ParserError::DateTime(ical::types::CalDateTimeError::InvalidDatetimeFormat(
            "20200310T100000Z".to_owned()
        ))
    );
    assert_eq!(
        ical::types::PartialDate::parse("2020-13").unwrap_err(),
        ParserError::InvalidPropertyValue("2020-13".to_owned())
    );
}
