//! The draft of an event and its check.
use crate::parser::{
    find_property, get_property_in, next_step, parse_block, Component, ComponentMut, Item, Parsed,
    ParserError, ParserErrorView, Step,
};
use crate::property::{lemma_push_deep_view, Property, PropertyParser, PropertyView};
use crate::types::TimezoneTable;
use crate::parser::accessor::{
    dated_property, duration_of_property, optional_once, parse_dated_prop, parse_duration_prop,
    property_text, recurid_fits, recurid_of_property, required_once, safe_get_optional,
    safe_get_required, text_of, IcalRECURIDProperty, RecurIdRange,
};
use crate::parser::ical::component::alarm::{verify_alarms, AlarmView, IcalAlarm};
use crate::parser::ical::component::event::rules::{
    dates_of_properties, parse_date_lists, parse_rules, rules_of_properties,
};
use crate::parser::ical::component::event::{EventView, IcalEvent};
use crate::parser::{get_named_properties_in, named_properties};
use crate::types::dateordatetime::{instant_of, CalDateOrDateTime, CalDateOrDateTimeView};
use crate::types::Duration;
use vstd::prelude::*;

verus! {

/// The draft of an event.
#[derive(Debug, Default)]
pub struct IcalEventBuilder {
    pub properties: Vec<Property>,
    /// The alarms of the event.
    pub alarms: Vec<IcalAlarm<false>>,
}

/// The draft of an event as a plain value.
pub struct EventBuilderView {
    pub properties: Seq<PropertyView>,
    pub alarms: Seq<AlarmView>,
}

impl View for IcalEventBuilder {
    type V = EventBuilderView;

    open spec fn view(&self) -> EventBuilderView {
        EventBuilderView {
            properties: self.properties.deep_view(),
            alarms: self.alarms.deep_view(),
        }
    }
}

impl DeepView for IcalEventBuilder {
    type V = EventBuilderView;

    open spec fn deep_view(&self) -> EventBuilderView {
        self@
    }
}

impl crate::property::Duplicate for IcalEventBuilder {
    fn duplicate(&self) -> (r: Self) {
        IcalEventBuilder {
            properties: crate::property::duplicate_vec(&self.properties),
            alarms: crate::property::duplicate_vec(&self.alarms),
        }
    }
}

impl IcalEventBuilder {
    /// A draft that holds nothing.
    pub fn new() -> (r: Self)
        ensures
            r@.properties == Seq::<PropertyView>::empty(),
            r@.alarms == Seq::<AlarmView>::empty(),
    {
        let r = IcalEventBuilder { properties: Vec::new(), alarms: Vec::new() };
        assert(r.properties.deep_view() =~= Seq::empty());
        assert(r.alarms.deep_view() =~= Seq::empty());
        r
    }
}

impl Component for IcalEventBuilder {
    type Unverified = IcalEventBuilder;

    open spec fn names() -> Seq<Seq<char>> {
        seq!["VEVENT"@]
    }

    open spec fn draft_of(v: EventBuilderView) -> EventBuilderView {
        v
    }

    open spec fn properties_of(v: EventBuilderView) -> Seq<PropertyView> {
        v.properties
    }

    fn mutable(self) -> (r: IcalEventBuilder) {
        let ghost before = self.alarms.deep_view();
        assert(crate::parser::views(self.alarms@) =~= before);
        let alarms = crate::parser::mutable_all(self.alarms);
        assert(alarms.deep_view() =~= before) by {
            assert(crate::parser::views(alarms@) =~= alarms.deep_view());
        }
        IcalEventBuilder { properties: self.properties, alarms }
    }

    fn is_name(name: &str) -> (r: bool) {
        let r = name.eq("VEVENT");
        assert(seq!["VEVENT"@][0] == "VEVENT"@);
        r
    }

    fn get_properties(&self) -> (r: &Vec<Property>) {
        &self.properties
    }
}

impl IcalEventBuilder {
    /// Removes every property with the given name.
    pub fn remove_property(&mut self, name: &str)
        ensures
            final(self)@ == (EventBuilderView {
                properties: crate::parser::other_properties(old(self)@.properties, name@),
                ..old(self)@
            }),
    {
        crate::parser::remove_property_in(&mut self.properties, name);
    }

    /// Puts a property in the place of every property of its name: those are
    /// removed and it is added at the end.
    pub fn set_property(&mut self, prop: Property)
        ensures
            final(self)@ == (EventBuilderView {
                properties: crate::parser::other_properties(
                    old(self)@.properties,
                    prop@.name,
                ).push(prop@),
                ..old(self)@
            }),
    {
        crate::parser::remove_property_in(&mut self.properties, prop.name.as_str());
        let ghost before = self.properties;
        let ghost item = prop;
        self.properties.push(prop);
        proof {
            lemma_push_deep_view(before, self.properties, item);
        }
    }
}

impl ComponentMut for IcalEventBuilder {
    type Verified = IcalEvent;

    open spec fn empty() -> EventBuilderView {
        EventBuilderView { properties: Seq::empty(), alarms: Seq::empty() }
    }

    open spec fn with_property(draft: EventBuilderView, property: PropertyView) -> EventBuilderView {
        EventBuilderView { properties: draft.properties.push(property), alarms: draft.alarms }
    }

    open spec fn sub_component(draft: EventBuilderView, name: Seq<char>, items: Seq<Item>) -> Parsed<
        EventBuilderView,
    > {
        if name == "VALARM"@ {
            let sub = parse_block(
                IcalAlarm::<false>::empty(),
                items,
                |d: AlarmView, p: PropertyView| IcalAlarm::<false>::with_property(d, p),
                |d: AlarmView, n: Seq<char>, i: Seq<Item>|
                    IcalAlarm::<false>::sub_component(d, n, i),
            );
            match sub.result {
                Ok(child) => Parsed {
                    result: Ok(
                        EventBuilderView {
                            properties: draft.properties,
                            alarms: draft.alarms.push(child),
                        },
                    ),
                    rest: sub.rest,
                },
                Err(e) => Parsed { result: Err(e), rest: sub.rest },
            }
        } else {
            Parsed { result: Err(ParserErrorView::InvalidComponent(name)), rest: items }
        }
    }

    open spec fn built(draft: EventBuilderView, timezones: Map<Seq<char>, Option<Seq<char>>>) -> Result<
        EventView,
        ParserErrorView,
    > {
        event_checked(draft, timezones)
    }

    fn fresh() -> (r: Self) {
        let r = IcalEventBuilder { properties: Vec::new(), alarms: Vec::new() };
        assert(r.properties.deep_view() =~= Seq::empty());
        assert(r.alarms.deep_view() =~= Seq::empty());
        r
    }

    fn add_sub_component(&mut self, value: &str, line_parser: &mut PropertyParser) -> (r: Result<
        (),
        ParserError,
    >) {
        if value.eq("VALARM") {
            let mut child = IcalAlarm::<false>::new();
            match child.parse(line_parser) {
                Err(e) => Err(e),
                Ok(()) => {
                    let ghost before = self.alarms;
                    let ghost item = child;
                    self.alarms.push(child);
                    proof {
                        lemma_push_deep_view(before, self.alarms, item);
                    }
                    Ok(())
                },
            }
        } else {
            Err(ParserError::InvalidComponent(value.to_owned()))
        }
    }

    fn add_property(&mut self, property: Property) {
        let ghost before = self.properties;
        let ghost item = property;
        self.properties.push(property);
        proof {
            lemma_push_deep_view(before, self.properties, item);
        }
    }

    fn build(self, timezones: &TimezoneTable) -> (r: Result<IcalEvent, ParserError>) {
        let times = match read_times(&self.properties, timezones) {
            Ok(t) => t,
            Err(e) => {
                return Err(e);
            },
        };
        let start = match &times.dtstart {
            Some(s) => Some(s.utc()),
            None => None,
        };
        let bundle = match read_bundle(&self.properties, timezones, start) {
            Ok(b) => b,
            Err(e) => {
                return Err(e);
            },
        };
        Ok(
            IcalEvent {
                uid: times.uid,
                dtstamp: times.dtstamp,
                dtstart: times.dtstart,
                dtend: times.dtend,
                duration: times.duration,
                rdates: bundle.rdates,
                rrules: bundle.rrules,
                exdates: bundle.exdates,
                exrules: bundle.exrules,
                recurid: times.recurid,
                summary: times.summary,
                properties: self.properties,
                alarms: verify_alarms(self.alarms),
            },
        )
    }

    fn parse(&mut self, line_parser: &mut PropertyParser) -> (r: Result<(), ParserError>) {
        loop
            invariant
                line_parser.bytes() == old(line_parser).bytes(),
                line_parser.remaining().len() <= old(line_parser).remaining().len(),
                parse_block(
                    self@,
                    line_parser.remaining(),
                    |d: EventBuilderView, p: PropertyView| Self::with_property(d, p),
                    |d: EventBuilderView, name: Seq<char>, items: Seq<Item>|
                        Self::sub_component(d, name, items),
                ) == parse_block(
                    old(self)@,
                    old(line_parser).remaining(),
                    |d: EventBuilderView, p: PropertyView| Self::with_property(d, p),
                    |d: EventBuilderView, name: Seq<char>, items: Seq<Item>|
                        Self::sub_component(d, name, items),
                ),
            decreases line_parser.remaining().len(),
        {
            match next_step(line_parser) {
                Err(e) => {
                    return Err(e);
                },
                Ok(Step::End) => {
                    return Ok(());
                },
                Ok(Step::Begin(name)) => {
                    match self.add_sub_component(name.as_str(), line_parser) {
                        Err(e) => {
                            return Err(e);
                        },
                        Ok(()) => {},
                    }
                },
                Ok(Step::Property(p)) => {
                    self.add_property(p);
                },
            }
        }
    }
}

/// The single values of an event.
pub struct EventTimes {
    pub uid: String,
    pub dtstamp: CalDateOrDateTime,
    pub dtstart: Option<CalDateOrDateTime>,
    pub recurid: Option<IcalRECURIDProperty>,
    pub dtend: Option<CalDateOrDateTime>,
    pub duration: Option<Duration>,
    pub summary: Option<String>,
}

/// The single values of an event as plain values.
pub struct EventTimesView {
    pub uid: Seq<char>,
    pub dtstamp: CalDateOrDateTimeView,
    pub dtstart: Option<CalDateOrDateTimeView>,
    pub recurid: Option<(CalDateOrDateTimeView, RecurIdRange)>,
    pub dtend: Option<CalDateOrDateTimeView>,
    pub duration: Option<int>,
    pub summary: Option<Seq<char>>,
}

impl View for EventTimes {
    type V = EventTimesView;

    open spec fn view(&self) -> EventTimesView {
        EventTimesView {
            uid: self.uid@,
            dtstamp: self.dtstamp@,
            dtstart: match self.dtstart {
                Some(v) => Some(v@),
                None => None,
            },
            recurid: match self.recurid {
                Some(v) => Some(v@),
                None => None,
            },
            dtend: match self.dtend {
                Some(v) => Some(v@),
                None => None,
            },
            duration: match self.duration {
                Some(d) => Some(d.value()),
                None => None,
            },
            summary: match self.summary {
                Some(s) => Some(s@),
                None => None,
            },
        }
    }
}

/// The date that an optional property holds.
pub open spec fn optional_date(
    prop: Option<PropertyView>,
    timezones: Map<Seq<char>, Option<Seq<char>>>,
) -> Result<Option<CalDateOrDateTimeView>, ParserErrorView> {
    match prop {
        None => Ok(None),
        Some(p) => match dated_property(p, timezones, "DATE-TIME"@) {
            Err(e) => Err(e),
            Ok(v) => Ok(Some(v)),
        },
    }
}

/// See [`optional_date`].
pub fn parse_optional_date(prop: Option<&Property>, timezones: &TimezoneTable) -> (r: Result<
    Option<CalDateOrDateTime>,
    ParserError,
>)
    ensures
        match r {
            Ok(Some(v)) => optional_date(option_view(prop), timezones@) == Ok::<
                Option<CalDateOrDateTimeView>,
                ParserErrorView,
            >(Some(v@)),
            Ok(None) => optional_date(option_view(prop), timezones@) == Ok::<
                Option<CalDateOrDateTimeView>,
                ParserErrorView,
            >(None),
            Err(e) => optional_date(option_view(prop), timezones@) == Err::<
                Option<CalDateOrDateTimeView>,
                ParserErrorView,
            >(e@),
        },
{
    match prop {
        None => Ok(None),
        Some(p) => match parse_dated_prop(p, timezones, "DATE-TIME") {
            Err(e) => Err(e),
            Ok(v) => Ok(Some(v)),
        },
    }
}

/// An optional property as a plain value.
pub open spec fn option_view(prop: Option<&Property>) -> Option<PropertyView> {
    match prop {
        Some(p) => Some(p@),
        None => None,
    }
}

/// The start of an event: its `DTSTART`, which may occur once. An event
/// without a `METHOD` must have one.
pub open spec fn start_of_event(
    props: Seq<PropertyView>,
    timezones: Map<Seq<char>, Option<Seq<char>>>,
) -> Result<Option<CalDateOrDateTimeView>, ParserErrorView> {
    match optional_once(props, "DTSTART"@) {
        Err(e) => Err(e),
        Ok(None) => if find_property(props, "METHOD"@) is None {
            Err(ParserErrorView::MissingProperty("DTSTART"@))
        } else {
            Ok(None)
        },
        Ok(Some(p)) => optional_date(Some(p), timezones),
    }
}

/// The `RECURRENCE-ID` of an event, which may occur once and must be of the
/// same kind as the start.
pub open spec fn recurid_of_event(
    props: Seq<PropertyView>,
    timezones: Map<Seq<char>, Option<Seq<char>>>,
    dtstart: Option<CalDateOrDateTimeView>,
) -> Result<Option<(CalDateOrDateTimeView, RecurIdRange)>, ParserErrorView> {
    match optional_once(props, "RECURRENCE-ID"@) {
        Err(e) => Err(e),
        Ok(None) => Ok(None),
        Ok(Some(p)) => match recurid_of_property(p, timezones) {
            Err(e) => Err(e),
            Ok(recurid) => if dtstart is Some && !recurid_fits(recurid.0, dtstart->0) {
                Err(ParserErrorView::DtstartNotMatchingRecurId)
            } else {
                Ok(Some(recurid))
            },
        },
    }
}

/// The end of an event: its `DTEND` or its `DURATION`, each of which may
/// occur once, and which exclude each other.
pub open spec fn end_of_event(
    props: Seq<PropertyView>,
    timezones: Map<Seq<char>, Option<Seq<char>>>,
) -> Result<(Option<CalDateOrDateTimeView>, Option<int>), ParserErrorView> {
    if find_property(props, "DTEND"@) is Some && find_property(props, "DURATION"@) is Some {
        Err(ParserErrorView::PropertyConflict("both DTEND and DURATION are defined"@))
    } else {
        match optional_once(props, "DTEND"@) {
            Err(e) => Err(e),
            Ok(end) => match optional_date(end, timezones) {
                Err(e) => Err(e),
                Ok(dtend) => match optional_once(props, "DURATION"@) {
                    Err(e) => Err(e),
                    Ok(None) => Ok((dtend, None)),
                    Ok(Some(p)) => match duration_of_property(p) {
                        Err(e) => Err(e),
                        Ok(d) => Ok((dtend, Some(d))),
                    },
                },
            },
        }
    }
}

/// The single values of an event: `DTSTAMP` and `UID` must each occur once,
/// then the start, the `RECURRENCE-ID`, the end and the `SUMMARY` follow.
pub open spec fn times_of(props: Seq<PropertyView>, timezones: Map<Seq<char>, Option<Seq<char>>>) -> Result<
    EventTimesView,
    ParserErrorView,
> {
    match required_once(props, "DTSTAMP"@) {
        Err(e) => Err(e),
        Ok(stamp) => match dated_property(stamp, timezones, "DATE-TIME"@) {
            Err(e) => Err(e),
            Ok(dtstamp) => match required_once(props, "UID"@) {
                Err(e) => Err(e),
                Ok(uid) => match start_of_event(props, timezones) {
                    Err(e) => Err(e),
                    Ok(dtstart) => match recurid_of_event(props, timezones, dtstart) {
                        Err(e) => Err(e),
                        Ok(recurid) => match end_of_event(props, timezones) {
                            Err(e) => Err(e),
                            Ok(end) => match optional_once(props, "SUMMARY"@) {
                                Err(e) => Err(e),
                                Ok(summary) => Ok(
                                    EventTimesView {
                                        uid: text_of(uid),
                                        dtstamp,
                                        dtstart,
                                        recurid,
                                        dtend: end.0,
                                        duration: end.1,
                                        summary: match summary {
                                            Some(p) => Some(text_of(p)),
                                            None => None,
                                        },
                                    },
                                ),
                            },
                        },
                    },
                },
            },
        }
    }
}

fn read_start(props: &Vec<Property>, timezones: &TimezoneTable) -> (r: Result<
    Option<CalDateOrDateTime>,
    ParserError,
>)
    ensures
        match r {
            Ok(Some(v)) => start_of_event(props.deep_view(), timezones@) == Ok::<
                Option<CalDateOrDateTimeView>,
                ParserErrorView,
            >(Some(v@)),
            Ok(None) => start_of_event(props.deep_view(), timezones@) == Ok::<
                Option<CalDateOrDateTimeView>,
                ParserErrorView,
            >(None),
            Err(e) => start_of_event(props.deep_view(), timezones@) == Err::<
                Option<CalDateOrDateTimeView>,
                ParserErrorView,
            >(e@),
        },
{
    match safe_get_optional(props, "DTSTART") {
        Err(e) => Err(e),
        Ok(None) => {
            if get_property_in(props, "METHOD").is_none() {
                Err(ParserError::MissingProperty("DTSTART"))
            } else {
                Ok(None)
            }
        },
        Ok(Some(p)) => parse_optional_date(Some(p), timezones),
    }
}

fn read_recurid(
    props: &Vec<Property>,
    timezones: &TimezoneTable,
    dtstart: &Option<CalDateOrDateTime>,
) -> (r: Result<Option<IcalRECURIDProperty>, ParserError>)
    ensures
        match r {
            Ok(Some(v)) => recurid_of_event(
                props.deep_view(),
                timezones@,
                optional_value(*dtstart),
            ) == Ok::<Option<(CalDateOrDateTimeView, RecurIdRange)>, ParserErrorView>(Some(v@)),
            Ok(None) => recurid_of_event(props.deep_view(), timezones@, optional_value(*dtstart))
                == Ok::<Option<(CalDateOrDateTimeView, RecurIdRange)>, ParserErrorView>(None),
            Err(e) => recurid_of_event(props.deep_view(), timezones@, optional_value(*dtstart))
                == Err::<Option<(CalDateOrDateTimeView, RecurIdRange)>, ParserErrorView>(e@),
        },
{
    match safe_get_optional(props, "RECURRENCE-ID") {
        Err(e) => Err(e),
        Ok(None) => Ok(None),
        Ok(Some(p)) => match IcalRECURIDProperty::parse_prop(p, timezones) {
            Err(e) => Err(e),
            Ok(recurid) => {
                match dtstart {
                    Some(start) => match recurid.validate_dtstart(start) {
                        Err(e) => {
                            return Err(e);
                        },
                        Ok(()) => {},
                    },
                    None => {},
                }
                Ok(Some(recurid))
            },
        },
    }
}

/// An optional date as a plain value.
pub open spec fn optional_ref(v: Option<&CalDateOrDateTime>) -> Option<CalDateOrDateTimeView> {
    match v {
        Some(x) => Some(x@),
        None => None,
    }
}

/// An optional date as a plain value.
pub open spec fn optional_value(v: Option<CalDateOrDateTime>) -> Option<CalDateOrDateTimeView> {
    match v {
        Some(x) => Some(x@),
        None => None,
    }
}

fn read_end(props: &Vec<Property>, timezones: &TimezoneTable) -> (r: Result<
    (Option<CalDateOrDateTime>, Option<Duration>),
    ParserError,
>)
    ensures
        match r {
            Ok((dtend, duration)) => end_of_event(props.deep_view(), timezones@) == Ok::<
                (Option<CalDateOrDateTimeView>, Option<int>),
                ParserErrorView,
            >(
                (
                    optional_value(dtend),
                    match duration {
                        Some(d) => Some(d.value()),
                        None => None,
                    },
                ),
            ),
            Err(e) => end_of_event(props.deep_view(), timezones@) == Err::<
                (Option<CalDateOrDateTimeView>, Option<int>),
                ParserErrorView,
            >(e@),
        },
{
    if get_property_in(props, "DTEND").is_some() && get_property_in(props, "DURATION").is_some() {
        return Err(ParserError::PropertyConflict("both DTEND and DURATION are defined"));
    }
    let end = match safe_get_optional(props, "DTEND") {
        Err(e) => {
            return Err(e);
        },
        Ok(p) => p,
    };
    let dtend = match parse_optional_date(end, timezones) {
        Err(e) => {
            return Err(e);
        },
        Ok(v) => v,
    };
    match safe_get_optional(props, "DURATION") {
        Err(e) => Err(e),
        Ok(None) => Ok((dtend, None)),
        Ok(Some(p)) => match parse_duration_prop(p) {
            Err(e) => Err(e),
            Ok(d) => Ok((dtend, Some(d))),
        },
    }
}

/// Reads the single values of an event: see [`times_of`].
pub fn read_times(props: &Vec<Property>, timezones: &TimezoneTable) -> (r: Result<
    EventTimes,
    ParserError,
>)
    ensures
        match r {
            Ok(t) => times_of(props.deep_view(), timezones@) == Ok::<
                EventTimesView,
                ParserErrorView,
            >(t@),
            Err(e) => times_of(props.deep_view(), timezones@) == Err::<
                EventTimesView,
                ParserErrorView,
            >(e@),
        },
{
    let stamp = match safe_get_required(props, "DTSTAMP") {
        Err(e) => {
            return Err(e);
        },
        Ok(p) => p,
    };
    let dtstamp = match parse_dated_prop(stamp, timezones, "DATE-TIME") {
        Err(e) => {
            return Err(e);
        },
        Ok(v) => v,
    };
    let uid = match safe_get_required(props, "UID") {
        Err(e) => {
            return Err(e);
        },
        Ok(p) => property_text(p),
    };
    let dtstart = match read_start(props, timezones) {
        Err(e) => {
            return Err(e);
        },
        Ok(v) => v,
    };
    let recurid = match read_recurid(props, timezones, &dtstart) {
        Err(e) => {
            return Err(e);
        },
        Ok(v) => v,
    };
    let (dtend, duration) = match read_end(props, timezones) {
        Err(e) => {
            return Err(e);
        },
        Ok(v) => v,
    };
    let summary = match safe_get_optional(props, "SUMMARY") {
        Err(e) => {
            return Err(e);
        },
        Ok(None) => None,
        Ok(Some(p)) => Some(property_text(p)),
    };
    Ok(EventTimes { uid, dtstamp, dtstart, recurid, dtend, duration, summary })
}

/// What an event says of its recurrence.
pub struct RecurrenceBundle {
    pub rdates: Vec<CalDateOrDateTime>,
    pub rrules: Vec<String>,
    pub exdates: Vec<CalDateOrDateTime>,
    pub exrules: Vec<String>,
}

/// A recurrence bundle as a plain value.
pub struct RecurrenceBundleView {
    pub rdates: Seq<CalDateOrDateTimeView>,
    pub rrules: Seq<Seq<char>>,
    pub exdates: Seq<CalDateOrDateTimeView>,
    pub exrules: Seq<Seq<char>>,
}

impl View for RecurrenceBundle {
    type V = RecurrenceBundleView;

    open spec fn view(&self) -> RecurrenceBundleView {
        RecurrenceBundleView {
            rdates: self.rdates.deep_view(),
            rrules: self.rrules.deep_view(),
            exdates: self.exdates.deep_view(),
            exrules: self.exrules.deep_view(),
        }
    }
}

/// The recurrence bundle of an event that starts at the instant `start`: the
/// dates of every `RDATE` (a period counts by its start) and `EXDATE`, and
/// the rules of every `RRULE` and `EXRULE`, which must fit the start.
pub open spec fn bundle_of(
    props: Seq<PropertyView>,
    timezones: Map<Seq<char>, Option<Seq<char>>>,
    start: Option<i64>,
) -> Result<RecurrenceBundleView, ParserErrorView> {
    match dates_of_properties(named_properties(props, "RDATE"@), timezones, true, Seq::empty()) {
        Err(e) => Err(e),
        Ok(rdates) => match dates_of_properties(
            named_properties(props, "EXDATE"@),
            timezones,
            false,
            Seq::empty(),
        ) {
            Err(e) => Err(e),
            Ok(exdates) => match rules_of_properties(
                named_properties(props, "RRULE"@),
                start,
                Seq::empty(),
            ) {
                Err(e) => Err(e),
                Ok(rrules) => match rules_of_properties(
                    named_properties(props, "EXRULE"@),
                    start,
                    Seq::empty(),
                ) {
                    Err(e) => Err(e),
                    Ok(exrules) => Ok(RecurrenceBundleView { rdates, rrules, exdates, exrules }),
                },
            },
        }
    }
}

/// Reads the recurrence bundle of an event: see [`bundle_of`].
pub fn read_bundle(props: &Vec<Property>, timezones: &TimezoneTable, start: Option<i64>) -> (r: Result<
    RecurrenceBundle,
    ParserError,
>)
    requires
        start matches Some(at) ==> crate::types::timezone::near_range(at as int),
    ensures
        match r {
            Ok(b) => bundle_of(props.deep_view(), timezones@, start) == Ok::<
                RecurrenceBundleView,
                ParserErrorView,
            >(b@) && rules_fit_start(b@.rrules, start) && rules_fit_start(b@.exrules, start),
            Err(e) => bundle_of(props.deep_view(), timezones@, start) == Err::<
                RecurrenceBundleView,
                ParserErrorView,
            >(e@),
        },
{
    let rdates = match parse_date_lists(&get_named_properties_in(props, "RDATE"), timezones, true) {
        Err(e) => {
            return Err(e);
        },
        Ok(v) => v,
    };
    let exdates = match parse_date_lists(
        &get_named_properties_in(props, "EXDATE"),
        timezones,
        false,
    ) {
        Err(e) => {
            return Err(e);
        },
        Ok(v) => v,
    };
    let rrules = match parse_rules(&get_named_properties_in(props, "RRULE"), start) {
        Err(e) => {
            return Err(e);
        },
        Ok(v) => v,
    };
    let exrules = match parse_rules(&get_named_properties_in(props, "EXRULE"), start) {
        Err(e) => {
            return Err(e);
        },
        Ok(v) => v,
    };
    proof {
        assert forall|i: int| 0 <= i < rrules.len() implies rrules.deep_view()[i] == rrules[i]@ by {}
        assert forall|i: int| 0 <= i < exrules.len() implies exrules.deep_view()[i]
            == exrules[i]@ by {}
    }
    Ok(RecurrenceBundle { rdates, rrules, exdates, exrules })
}

/// Whether every text is a rule for the start; without a start there must be
/// no rule.
pub open spec fn rules_fit_start(rules: Seq<Seq<char>>, start: Option<i64>) -> bool {
    match start {
        Some(at) => forall|i: int|
            0 <= i < rules.len() ==> crate::parser::ical::component::event::rules::accepted_rule(
                #[trigger] rules[i],
                at,
            ),
        None => rules.len() == 0,
    }
}

/// The instant at which an event starts, if it has a start.
pub open spec fn start_instant(dtstart: Option<CalDateOrDateTimeView>) -> Option<i64> {
    match dtstart {
        Some(s) => Some(instant_of(s) as i64),
        None => None,
    }
}

/// The check of an event: its single values and its recurrence bundle are
/// read, and the first fault among them is the fault of the event.
pub open spec fn event_checked(
    draft: EventBuilderView,
    timezones: Map<Seq<char>, Option<Seq<char>>>,
) -> Result<EventView, ParserErrorView> {
    match times_of(draft.properties, timezones) {
        Err(e) => Err(e),
        Ok(t) => match bundle_of(draft.properties, timezones, start_instant(t.dtstart)) {
            Err(e) => Err(e),
            Ok(b) => Ok(
                EventView {
                    uid: t.uid,
                    dtstamp: t.dtstamp,
                    dtstart: t.dtstart,
                    dtend: t.dtend,
                    duration: t.duration,
                    rdates: b.rdates,
                    rrules: b.rrules,
                    exdates: b.exdates,
                    exrules: b.exrules,
                    recurid: t.recurid,
                    summary: t.summary,
                    properties: draft.properties,
                    alarms: draft.alarms,
                },
            ),
        },
    }
}

} // verus!
