//! Reading single values from the draft of an event, before it is checked.
//! Nothing is asked of the draft: each getter reads the first property with
//! its name, or all of them, and reports what it finds.
use crate::parser::accessor::{duration_of_property, parse_duration_prop};
use crate::parser::ical::component::event::builder::{
    optional_date, parse_optional_date, start_instant, IcalEventBuilder,
};
use crate::parser::ical::component::event::rules::{
    dates_of_properties, dates_outcome, parse_date_lists, parse_rules, rules_of_properties,
};
use crate::parser::rdate::{rdate_of_property, IcalRDATEProperty};
use crate::parser::{
    find_property, get_named_properties_in, get_property_in, get_value_in, named_properties,
    property_value, ParserError, ParserErrorView,
};
use crate::property::PropertyView;
use crate::types::datetime::{datetime_of_property, CalDateTime, CalDateTimeView};
use crate::types::dateordatetime::{CalDateOrDateTime, CalDateOrDateTimeView};
use crate::types::period::{DateOrDateTimeOrPeriod, DateOrDateTimeOrPeriodView};
use crate::types::{Duration, TimezoneTable};
use vstd::prelude::*;

verus! {

/// The outcome of reading an optional date, as a plain value.
pub open spec fn optional_date_outcome(r: Result<Option<CalDateOrDateTime>, ParserError>) -> Result<
    Option<CalDateOrDateTimeView>,
    ParserErrorView,
> {
    match r {
        Ok(Some(v)) => Ok(Some(v@)),
        Ok(None) => Ok(None),
        Err(e) => Err(e@),
    }
}

/// The date-time that an optional property holds.
pub open spec fn optional_stamp(
    prop: Option<PropertyView>,
    timezones: Map<Seq<char>, Option<Seq<char>>>,
) -> Result<Option<CalDateTimeView>, ParserErrorView> {
    match prop {
        None => Ok(None),
        Some(p) => match datetime_of_property(p, timezones) {
            Err(e) => Err(ParserErrorView::DateTime(e)),
            Ok(v) => Ok(Some(v)),
        },
    }
}

/// The duration that an optional property holds.
pub open spec fn optional_duration(prop: Option<PropertyView>) -> Result<
    Option<int>,
    ParserErrorView,
> {
    match prop {
        None => Ok(None),
        Some(p) => match duration_of_property(p) {
            Err(e) => Err(e),
            Ok(v) => Ok(Some(v)),
        },
    }
}

/// The values that `RDATE` properties list, one property after the other,
/// behind the values `acc`.
pub open spec fn rdate_values(
    props: Seq<PropertyView>,
    timezones: Map<Seq<char>, Option<Seq<char>>>,
    acc: Seq<DateOrDateTimeOrPeriodView>,
) -> Result<Seq<DateOrDateTimeOrPeriodView>, ParserErrorView>
    decreases props.len(),
{
    if props.len() == 0 {
        Ok(acc)
    } else {
        match rdate_of_property(props[0], timezones) {
            Err(e) => Err(e),
            Ok(v) => rdate_values(props.drop_first(), timezones, acc + v.0),
        }
    }
}

/// The rules of a draft: its start is read first, and then each `RRULE`,
/// which must fit that start.
pub open spec fn rules_of_draft(
    props: Seq<PropertyView>,
    timezones: Map<Seq<char>, Option<Seq<char>>>,
) -> Result<Seq<Seq<char>>, ParserErrorView> {
    match optional_date(find_property(props, "DTSTART"@), timezones) {
        Err(e) => Err(e),
        Ok(start) => rules_of_properties(
            named_properties(props, "RRULE"@),
            start_instant(start),
            Seq::empty(),
        ),
    }
}

impl IcalEventBuilder {
    /// The unique identifier: the value of the first `UID`. A draft without
    /// one has no unique identifier.
    pub fn safe_get_uid(&self) -> (r: Result<&str, ParserError>)
        ensures
            match r {
                Ok(v) => property_value(self@.properties, "UID"@) == Some(v@),
                Err(e) => property_value(self@.properties, "UID"@) is None && e@
                    == ParserErrorView::MissingUID,
            },
    {
        match get_value_in(&self.properties, "UID") {
            Some(v) => Ok(v),
            None => Err(ParserError::MissingUID),
        }
    }

    /// The time stamp: the date-time of the first `DTSTAMP`, if there is one.
    pub fn safe_get_dtstamp(&self, timezones: &TimezoneTable) -> (r: Result<
        Option<CalDateTime>,
        ParserError,
    >)
        ensures
            match r {
                Ok(Some(v)) => optional_stamp(
                    find_property(self@.properties, "DTSTAMP"@),
                    timezones@,
                ) == Ok::<Option<CalDateTimeView>, ParserErrorView>(Some(v@)),
                Ok(None) => optional_stamp(find_property(self@.properties, "DTSTAMP"@), timezones@)
                    == Ok::<Option<CalDateTimeView>, ParserErrorView>(None),
                Err(e) => optional_stamp(find_property(self@.properties, "DTSTAMP"@), timezones@)
                    == Err::<Option<CalDateTimeView>, ParserErrorView>(e@),
            },
    {
        match get_property_in(&self.properties, "DTSTAMP") {
            None => Ok(None),
            Some(p) => match CalDateTime::parse_prop(p, timezones) {
                Ok(v) => Ok(Some(v)),
                Err(e) => Err(ParserError::DateTime(e)),
            },
        }
    }

    /// The start: the date or date-time of the first `DTSTART`, if there is
    /// one.
    pub fn safe_get_dtstart(&self, timezones: &TimezoneTable) -> (r: Result<
        Option<CalDateOrDateTime>,
        ParserError,
    >)
        ensures
            optional_date_outcome(r) == optional_date(
                find_property(self@.properties, "DTSTART"@),
                timezones@,
            ),
    {
        parse_optional_date(get_property_in(&self.properties, "DTSTART"), timezones)
    }

    /// The end: the date or date-time of the first `DTEND`, if there is one.
    pub fn safe_get_dtend(&self, timezones: &TimezoneTable) -> (r: Result<
        Option<CalDateOrDateTime>,
        ParserError,
    >)
        ensures
            optional_date_outcome(r) == optional_date(
                find_property(self@.properties, "DTEND"@),
                timezones@,
            ),
    {
        parse_optional_date(get_property_in(&self.properties, "DTEND"), timezones)
    }

    /// The length: the duration of the first `DURATION`, if there is one.
    pub fn safe_get_duration(&self) -> (r: Result<Option<Duration>, ParserError>)
        ensures
            match r {
                Ok(Some(d)) => optional_duration(find_property(self@.properties, "DURATION"@))
                    == Ok::<Option<int>, ParserErrorView>(Some(d.value())),
                Ok(None) => optional_duration(find_property(self@.properties, "DURATION"@)) == Ok::<
                    Option<int>,
                    ParserErrorView,
                >(None),
                Err(e) => optional_duration(find_property(self@.properties, "DURATION"@)) == Err::<
                    Option<int>,
                    ParserErrorView,
                >(e@),
            },
    {
        match get_property_in(&self.properties, "DURATION") {
            None => Ok(None),
            Some(p) => match parse_duration_prop(p) {
                Ok(d) => Ok(Some(d)),
                Err(e) => Err(e),
            },
        }
    }

    /// The excluded dates: what the `EXDATE` properties list, in order.
    pub fn safe_get_exdate(&self, timezones: &TimezoneTable) -> (r: Result<
        Vec<CalDateOrDateTime>,
        ParserError,
    >)
        ensures
            dates_outcome(r) == dates_of_properties(
                named_properties(self@.properties, "EXDATE"@),
                timezones@,
                false,
                Seq::empty(),
            ),
    {
        let found = get_named_properties_in(&self.properties, "EXDATE");
        parse_date_lists(&found, timezones, false)
    }

    /// The dates, date-times and periods at which the event recurs besides
    /// those of its rules: what the `RDATE` properties list, in order.
    pub fn safe_get_rdate(&self, timezones: &TimezoneTable) -> (r: Result<
        Vec<DateOrDateTimeOrPeriod>,
        ParserError,
    >)
        ensures
            match r {
                Ok(v) => rdate_values(
                    named_properties(self@.properties, "RDATE"@),
                    timezones@,
                    Seq::empty(),
                ) == Ok::<Seq<DateOrDateTimeOrPeriodView>, ParserErrorView>(v.deep_view()),
                Err(e) => rdate_values(
                    named_properties(self@.properties, "RDATE"@),
                    timezones@,
                    Seq::empty(),
                ) == Err::<Seq<DateOrDateTimeOrPeriodView>, ParserErrorView>(e@),
            },
    {
        let found = get_named_properties_in(&self.properties, "RDATE");
        let ghost all = found.deep_view();
        let mut out: Vec<DateOrDateTimeOrPeriod> = Vec::new();
        let mut i: usize = 0;
        assert(out.deep_view() =~= Seq::empty());
        assert(all.skip(0) =~= all);
        while i < found.len()
            invariant
                i <= found.len(),
                all == found.deep_view(),
                all == named_properties(self@.properties, "RDATE"@),
                rdate_values(all.skip(i as int), timezones@, out.deep_view()) == rdate_values(
                    all,
                    timezones@,
                    Seq::empty(),
                ),
            decreases found.len() - i,
        {
            let ghost rest = all.skip(i as int);
            assert(rest[0] == found[i as int]@);
            assert(rest.drop_first() =~= all.skip(i + 1));
            match IcalRDATEProperty::parse_prop(found[i], timezones) {
                Err(e) => {
                    return Err(e);
                },
                Ok(v) => {
                    let ghost before = out.deep_view();
                    let ghost added = v.0.deep_view();
                    let mut values = v.0;
                    out.append(&mut values);
                    assert(out.deep_view() =~= before + added);
                },
            }
            i += 1;
        }
        Ok(out)
    }

    /// The rules by which the event recurs, as they are written: see
    /// [`rules_of_draft`].
    pub fn safe_get_rrule(&self, timezones: &TimezoneTable) -> (r: Result<Vec<String>, ParserError>)
        ensures
            match r {
                Ok(rules) => rules_of_draft(self@.properties, timezones@) == Ok::<
                    Seq<Seq<char>>,
                    ParserErrorView,
                >(rules.deep_view()),
                Err(e) => rules_of_draft(self@.properties, timezones@) == Err::<
                    Seq<Seq<char>>,
                    ParserErrorView,
                >(e@),
            },
    {
        let start = match self.safe_get_dtstart(timezones) {
            Err(e) => {
                return Err(e);
            },
            Ok(Some(s)) => Some(s.utc()),
            Ok(None) => None,
        };
        let found = get_named_properties_in(&self.properties, "RRULE");
        parse_rules(&found, start)
    }
}

} // verus!
