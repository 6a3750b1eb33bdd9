//! Building an event: timezone, identifier, time stamp, start, end.
use crate::builder::{ical_property, ical_property_with, plain, push_property, with_param};
use crate::parser::ical::component::event::builder::event_checked;
use crate::parser::ical::component::event::{EventBuilderView, IcalEvent};
use crate::parser::{build_outcome, ComponentMut, ParserError};
use crate::property::{Property, PropertyView};
use crate::types::timezone::{resolve_zone, resolved_zone};
use crate::types::TimezoneTable;
use vstd::prelude::*;

verus! {

/// The start of building an event: see [`IcalEventBuilder::tzid`].
pub struct IcalEventBuilder {
    tzid: String,
    properties: Vec<Property>,
}

impl IcalEventBuilder {
    /// The identifier of the timezone in which the times of the event are
    /// given.
    pub closed spec fn zone(&self) -> Seq<char> {
        self.tzid@
    }

    /// The properties that the event has so far.
    pub closed spec fn properties(&self) -> Seq<PropertyView> {
        self.properties.deep_view()
    }

    /// Starts an event whose times are given in the timezone `timezone`.
    pub fn tzid(timezone: &str) -> (r: Uid)
        ensures
            r.0.zone() == timezone@,
            r.0.properties() == Seq::<PropertyView>::empty(),
    {
        let properties: Vec<Property> = Vec::new();
        assert(properties.deep_view() =~= Seq::empty());
        Uid(IcalEventBuilder { tzid: timezone.to_owned(), properties })
    }

    fn add(self, property: Property) -> (r: IcalEventBuilder)
        ensures
            r.zone() == self.zone(),
            r.properties() == self.properties().push(property@),
    {
        let mut properties = self.properties;
        push_property(&mut properties, property);
        IcalEventBuilder { tzid: self.tzid, properties }
    }
}

/// An event that needs its unique identifier.
pub struct Uid(pub IcalEventBuilder);

/// An event that needs its time stamp.
pub struct DtStamp(pub IcalEventBuilder);

/// An event that needs its start.
pub struct DtStart(pub IcalEventBuilder);

/// An event that needs its end or its length.
pub struct DtEnd(pub IcalEventBuilder);

/// A whole-day event that needs its last day.
pub struct DtEndDate(pub IcalEventBuilder);

/// An event that can be checked or take more properties.
pub struct Finalizer(pub IcalEventBuilder);

impl Uid {
    /// Sets the `UID` of the event, which must be unique and must stay the
    /// same when the calendar is built again.
    pub fn uid(self, uid: &str) -> (r: DtStamp)
        ensures
            r.0.zone() == self.0.zone(),
            r.0.properties() == self.0.properties().push(plain("UID"@, uid@)),
    {
        DtStamp(self.0.add(ical_property("UID", uid)))
    }
}

impl DtStamp {
    /// Sets the `DTSTAMP` of the event, the time of its last change, in the
    /// timezone of the event.
    pub fn changed(self, dtstamp: &str) -> (r: DtStart)
        ensures
            r.0.zone() == self.0.zone(),
            r.0.properties() == self.0.properties().push(
                with_param("DTSTAMP"@, dtstamp@, "TZID"@, self.0.zone()),
            ),
    {
        let property = ical_property_with("DTSTAMP", dtstamp, "TZID", self.0.tzid.as_str());
        DtStart(self.0.add(property))
    }

    /// Sets the `DTSTAMP` of the event in UTC.
    pub fn changed_utc(self, dtstamp: &str) -> (r: DtStart)
        ensures
            r.0.zone() == self.0.zone(),
            r.0.properties() == self.0.properties().push(plain("DTSTAMP"@, dtstamp@)),
    {
        DtStart(self.0.add(ical_property("DTSTAMP", dtstamp)))
    }
}

impl DtStart {
    /// Sets the `DTSTART` of the event to a time in its timezone.
    pub fn start(self, dtstart: &str) -> (r: DtEnd)
        ensures
            r.0.zone() == self.0.zone(),
            r.0.properties() == self.0.properties().push(
                with_param("DTSTART"@, dtstart@, "TZID"@, self.0.zone()),
            ),
    {
        let property = ical_property_with("DTSTART", dtstart, "TZID", self.0.tzid.as_str());
        DtEnd(self.0.add(property))
    }

    /// Sets the `DTSTART` of an event of several whole days to its first
    /// day.
    pub fn start_day(self, day: &str) -> (r: DtEndDate)
        ensures
            r.0.zone() == self.0.zone(),
            r.0.properties() == self.0.properties().push(
                with_param("DTSTART"@, day@, "VALUE"@, "DATE"@),
            ),
    {
        DtEndDate(self.0.add(ical_property_with("DTSTART", day, "VALUE", "DATE")))
    }

    /// Sets the `DTSTART` of an event of one whole day.
    pub fn one_day(self, day: &str) -> (r: Finalizer)
        ensures
            r.0.zone() == self.0.zone(),
            r.0.properties() == self.0.properties().push(
                with_param("DTSTART"@, day@, "VALUE"@, "DATE"@),
            ),
    {
        Finalizer(self.0.add(ical_property_with("DTSTART", day, "VALUE", "DATE")))
    }
}

impl DtEndDate {
    /// Sets the `DTEND` of the event to the day after its last day.
    pub fn end_day(self, day: &str) -> (r: Finalizer)
        ensures
            r.0.zone() == self.0.zone(),
            r.0.properties() == self.0.properties().push(
                with_param("DTEND"@, day@, "VALUE"@, "DATE"@),
            ),
    {
        Finalizer(self.0.add(ical_property_with("DTEND", day, "VALUE", "DATE")))
    }
}

impl DtEnd {
    /// Sets the `DTEND` of the event to a time in its timezone.
    pub fn end(self, dtend: &str) -> (r: Finalizer)
        ensures
            r.0.zone() == self.0.zone(),
            r.0.properties() == self.0.properties().push(
                with_param("DTEND"@, dtend@, "TZID"@, self.0.zone()),
            ),
    {
        let property = ical_property_with("DTEND", dtend, "TZID", self.0.tzid.as_str());
        Finalizer(self.0.add(property))
    }

    /// Sets the `DURATION` of the event, such as `PT45M`.
    pub fn duration(self, duration: &str) -> (r: Finalizer)
        ensures
            r.0.zone() == self.0.zone(),
            r.0.properties() == self.0.properties().push(plain("DURATION"@, duration@)),
    {
        Finalizer(self.0.add(ical_property("DURATION", duration)))
    }
}

impl Finalizer {
    /// Checks the event as the parser would: see [`event_checked`]. The
    /// event has no alarms. The timezone table holds the timezone of the
    /// event alone, which stands for the timezone of the timezone database
    /// with that name, if there is one.
    pub fn build(self) -> (r: Result<IcalEvent, ParserError>)
        ensures
            build_outcome(r) == event_checked(
                EventBuilderView { properties: self.0.properties(), alarms: Seq::empty() },
                Map::<Seq<char>, Option<Seq<char>>>::empty().insert(
                    self.0.zone(),
                    resolved_zone(None, self.0.zone()),
                ),
            ),
    {
        let mut table = TimezoneTable::new();
        let zone = resolve_zone(None, self.0.tzid.as_str());
        table.insert(self.0.tzid, zone);
        let mut event = crate::parser::ical::component::IcalEventBuilder::new();
        event.properties = self.0.properties;
        assert(event@ == (EventBuilderView {
            properties: event.properties.deep_view(),
            alarms: Seq::empty(),
        })) by {
            assert(event@.alarms =~= Seq::empty());
        }
        event.build(&table)
    }

    /// Adds a property.
    pub fn set(self, property: Property) -> (r: Finalizer)
        ensures
            r.0.zone() == self.0.zone(),
            r.0.properties() == self.0.properties().push(property@),
    {
        Finalizer(self.0.add(property))
    }

    /// Adds an `RRULE`, which says when the event recurs.
    pub fn repeat_rule(self, rule: &str) -> (r: Finalizer)
        ensures
            r.0.zone() == self.0.zone(),
            r.0.properties() == self.0.properties().push(plain("RRULE"@, rule@)),
    {
        Finalizer(self.0.add(ical_property("RRULE", rule)))
    }
}

} // verus!
