//! Building a calendar: version, calendar scale, product, components.
use crate::builder::{ical_property, plain, push_property};
use crate::parser::ical::component::calendar::{CalendarView, IcalCalendar};
use crate::parser::ical::component::{
    IcalAlarm, IcalEvent, IcalFreeBusy, IcalJournal, IcalTimeZone, IcalTodo,
};
use crate::parser::{
    build_outcome, get_value_in, property_value, views, Component, ParserError, ParserErrorView,
};
use crate::property::{lemma_push_deep_view, Property, PropertyView};
use vstd::prelude::*;

verus! {

/// The start of building a calendar: see [`IcalCalendarBuilder::version`].
pub struct IcalCalendarBuilder {
    properties: Vec<Property>,
    events: Vec<IcalEvent>,
    alarms: Vec<IcalAlarm<true>>,
    todos: Vec<IcalTodo<true>>,
    journals: Vec<IcalJournal<true>>,
    timezones: Vec<IcalTimeZone<true>>,
}

/// A calendar that needs its calendar scale.
pub struct CalScale(pub IcalCalendarBuilder);

/// A calendar that needs its product identifier.
pub struct ProdId(pub IcalCalendarBuilder);

/// A calendar that can be put together or take properties and components.
pub struct Finalizer(pub IcalCalendarBuilder);

/// The calendar that holds the given properties and nothing else.
pub open spec fn bare_calendar(properties: Seq<PropertyView>) -> CalendarView {
    CalendarView {
        properties,
        events: Seq::empty(),
        alarms: Seq::empty(),
        todos: Seq::empty(),
        journals: Seq::empty(),
        free_busys: Seq::empty(),
        timezones: Seq::empty(),
    }
}

/// The properties of each of the components.
pub open spec fn properties_of_all<T: Component>(items: Seq<T::V>) -> Seq<Seq<PropertyView>> {
    items.map_values(|v: T::V| T::properties_of(v))
}

/// The fault of the first list of properties that lacks a `UID` or a
/// `DTSTAMP` with a value: the missing property, the `UID` before the
/// `DTSTAMP`.
pub open spec fn first_unstamped(items: Seq<Seq<PropertyView>>) -> Option<ParserErrorView>
    decreases items.len(),
{
    if items.len() == 0 {
        None
    } else if property_value(items[0], "UID"@) is None {
        Some(ParserErrorView::MissingProperty("UID"@))
    } else if property_value(items[0], "DTSTAMP"@) is None {
        Some(ParserErrorView::MissingProperty("DTSTAMP"@))
    } else {
        first_unstamped(items.drop_first())
    }
}

/// The fault of the first list of properties that lacks a `TZID` with a
/// value.
pub open spec fn first_unnamed_zone(items: Seq<Seq<PropertyView>>) -> Option<ParserErrorView>
    decreases items.len(),
{
    if items.len() == 0 {
        None
    } else if property_value(items[0], "TZID"@) is None {
        Some(ParserErrorView::MissingProperty("TZID"@))
    } else {
        first_unnamed_zone(items.drop_first())
    }
}

/// What putting a calendar together gives. The components were checked when
/// they were made, so all that is asked of them is what the accessors of a
/// calendar rely on: each timezone definition has a `TZID` with a value, and
/// each to-do and each journal entry has a `UID` and a `DTSTAMP` with a
/// value. The first
/// of them that lacks one is the fault, timezone definitions before to-dos
/// and to-dos before journal entries. Else the calendar holds the parts as
/// they are.
pub open spec fn assembled(v: CalendarView) -> Result<CalendarView, ParserErrorView> {
    match first_unnamed_zone(properties_of_all::<IcalTimeZone<true>>(v.timezones)) {
        Some(e) => Err(e),
        None => match first_unstamped(properties_of_all::<IcalTodo<true>>(v.todos)) {
            Some(e) => Err(e),
            None => match first_unstamped(properties_of_all::<IcalJournal<true>>(v.journals)) {
                Some(e) => Err(e),
                None => Ok(v),
            },
        },
    }
}

/// Looks for the first component that lacks a `UID` or a `DTSTAMP` with a
/// value: see
/// [`first_unstamped`].
pub fn check_stamped<T: Component>(items: &Vec<T>) -> (r: Result<(), ParserError>)
    ensures
        match r {
            Ok(_) => first_unstamped(properties_of_all::<T>(views(items@))) is None && forall|
                i: int,
            |
                0 <= i < items.len() ==> property_value(
                    T::properties_of(#[trigger] items[i]@),
                    "UID"@,
                ) is Some && property_value(T::properties_of(items[i]@), "DTSTAMP"@) is Some,
            Err(e) => first_unstamped(properties_of_all::<T>(views(items@))) == Some(e@),
        },
{
    let ghost all = properties_of_all::<T>(views(items@));
    let mut i: usize = 0;
    assert(all.skip(0) =~= all);
    while i < items.len()
        invariant
            i <= items.len(),
            all == properties_of_all::<T>(views(items@)),
            first_unstamped(all.skip(i as int)) == first_unstamped(all),
            forall|k: int|
                0 <= k < i ==> property_value(T::properties_of(#[trigger] items[k]@), "UID"@)
                    is Some && property_value(T::properties_of(items[k]@), "DTSTAMP"@) is Some,
        decreases items.len() - i,
    {
        let ghost rest = all.skip(i as int);
        assert(rest[0] == T::properties_of(items[i as int]@));
        let props = items[i].get_properties();
        if get_value_in(props, "UID").is_none() {
            return Err(ParserError::MissingProperty("UID"));
        }
        if get_value_in(props, "DTSTAMP").is_none() {
            return Err(ParserError::MissingProperty("DTSTAMP"));
        }
        assert(rest.drop_first() =~= all.skip(i + 1));
        i += 1;
    }
    assert(all.skip(i as int) =~= Seq::<Seq<PropertyView>>::empty());
    Ok(())
}

/// Looks for the first timezone definition that lacks a `TZID` with a
/// value: see [`first_unnamed_zone`].
pub fn check_named(items: &Vec<IcalTimeZone<true>>) -> (r: Result<(), ParserError>)
    ensures
        match r {
            Ok(_) => first_unnamed_zone(properties_of_all::<IcalTimeZone<true>>(views(items@)))
                is None && forall|i: int|
                0 <= i < items.len() ==> property_value(
                    (#[trigger] items[i]@).properties,
                    "TZID"@,
                ) is Some,
            Err(e) => first_unnamed_zone(properties_of_all::<IcalTimeZone<true>>(views(items@)))
                == Some(e@),
        },
{
    let ghost all = properties_of_all::<IcalTimeZone<true>>(views(items@));
    let mut i: usize = 0;
    assert(all.skip(0) =~= all);
    while i < items.len()
        invariant
            i <= items.len(),
            all == properties_of_all::<IcalTimeZone<true>>(views(items@)),
            first_unnamed_zone(all.skip(i as int)) == first_unnamed_zone(all),
            forall|k: int|
                0 <= k < i ==> property_value((#[trigger] items[k]@).properties, "TZID"@) is Some,
        decreases items.len() - i,
    {
        let ghost rest = all.skip(i as int);
        assert(rest[0] == items[i as int]@.properties);
        let props = items[i].get_properties();
        if get_value_in(props, "TZID").is_none() {
            return Err(ParserError::MissingProperty("TZID"));
        }
        assert(rest.drop_first() =~= all.skip(i + 1));
        i += 1;
    }
    assert(all.skip(i as int) =~= Seq::<Seq<PropertyView>>::empty());
    Ok(())
}

impl IcalCalendarBuilder {
    /// What was put into the calendar so far.
    pub closed spec fn parts(&self) -> CalendarView {
        CalendarView {
            properties: self.properties.deep_view(),
            events: self.events.deep_view(),
            alarms: self.alarms.deep_view(),
            todos: self.todos.deep_view(),
            journals: self.journals.deep_view(),
            free_busys: Seq::empty(),
            timezones: self.timezones.deep_view(),
        }
    }

    /// Starts a calendar of the given version of the format.
    pub fn version(version: &str) -> (r: CalScale)
        ensures
            r.0.parts() == bare_calendar(seq![plain("VERSION"@, version@)]),
    {
        let mut properties: Vec<Property> = Vec::new();
        assert(properties.deep_view() =~= Seq::empty());
        push_property(&mut properties, ical_property("VERSION", version));
        let r = IcalCalendarBuilder {
            properties,
            events: Vec::new(),
            alarms: Vec::new(),
            todos: Vec::new(),
            journals: Vec::new(),
            timezones: Vec::new(),
        };
        assert(r.parts().properties =~= seq![plain("VERSION"@, version@)]);
        assert(r.parts().events =~= Seq::empty());
        assert(r.parts().alarms =~= Seq::empty());
        assert(r.parts().todos =~= Seq::empty());
        assert(r.parts().journals =~= Seq::empty());
        assert(r.parts().timezones =~= Seq::empty());
        CalScale(r)
    }

    fn add(self, property: Property) -> (r: IcalCalendarBuilder)
        ensures
            r.parts() == (CalendarView {
                properties: self.parts().properties.push(property@),
                ..self.parts()
            }),
    {
        let mut cal = self;
        push_property(&mut cal.properties, property);
        cal
    }
}

impl CalScale {
    /// Sets the calendar scale to the Gregorian one.
    pub fn gregorian(self) -> (r: ProdId)
        ensures
            r.0.parts() == (CalendarView {
                properties: self.0.parts().properties.push(plain("CALSCALE"@, "GREGORIAN"@)),
                ..self.0.parts()
            }),
    {
        ProdId(self.0.add(ical_property("CALSCALE", "GREGORIAN")))
    }

    /// Sets the calendar scale to the given one.
    pub fn scale(self, scale: &str) -> (r: ProdId)
        ensures
            r.0.parts() == (CalendarView {
                properties: self.0.parts().properties.push(plain("CALSCALE"@, scale@)),
                ..self.0.parts()
            }),
    {
        ProdId(self.0.add(ical_property("CALSCALE", scale)))
    }

    /// Leaves the calendar scale out.
    pub fn noscale(self) -> (r: ProdId)
        ensures
            r.0.parts() == self.0.parts(),
    {
        ProdId(self.0)
    }
}

impl ProdId {
    /// Sets the `PRODID`, which names the product that made the calendar.
    pub fn prodid(self, prodid: &str) -> (r: Finalizer)
        ensures
            r.0.parts() == (CalendarView {
                properties: self.0.parts().properties.push(plain("PRODID"@, prodid@)),
                ..self.0.parts()
            }),
    {
        Finalizer(self.0.add(ical_property("PRODID", prodid)))
    }
}

impl Finalizer {
    /// Puts the calendar together: see [`assembled`].
    pub fn build(self) -> (r: Result<IcalCalendar, ParserError>)
        ensures
            build_outcome(r) == assembled(self.0.parts()),
    {
        let cal = self.0;
        assert(views(cal.timezones@) =~= cal.timezones.deep_view());
        assert(views(cal.todos@) =~= cal.todos.deep_view());
        assert(views(cal.journals@) =~= cal.journals.deep_view());
        match check_named(&cal.timezones) {
            Err(e) => {
                return Err(e);
            },
            Ok(_) => {},
        }
        match check_stamped::<IcalTodo<true>>(&cal.todos) {
            Err(e) => {
                return Err(e);
            },
            Ok(_) => {},
        }
        match check_stamped::<IcalJournal<true>>(&cal.journals) {
            Err(e) => {
                return Err(e);
            },
            Ok(_) => {},
        }
        let free_busys: Vec<IcalFreeBusy<true>> = Vec::new();
        assert(free_busys.deep_view() =~= Seq::empty());
        Ok(
            IcalCalendar::from_parts(
                cal.properties,
                cal.events,
                cal.alarms,
                cal.todos,
                cal.journals,
                free_busys,
                cal.timezones,
            ),
        )
    }

    /// Adds a property.
    pub fn set(self, property: Property) -> (r: Finalizer)
        ensures
            r.0.parts() == (CalendarView {
                properties: self.0.parts().properties.push(property@),
                ..self.0.parts()
            }),
    {
        Finalizer(self.0.add(property))
    }

    /// Adds an event.
    pub fn add_event(self, ev: IcalEvent) -> (r: Finalizer)
        ensures
            r.0.parts() == (CalendarView {
                events: self.0.parts().events.push(ev@),
                ..self.0.parts()
            }),
    {
        let mut cal = self.0;
        let ghost before = cal.events;
        let ghost pushed = ev;
        cal.events.push(ev);
        proof {
            lemma_push_deep_view(before, cal.events, pushed);
        }
        Finalizer(cal)
    }

    /// Adds events, in their order.
    pub fn add_events(self, evs: Vec<IcalEvent>) -> (r: Finalizer)
        ensures
            r.0.parts() == (CalendarView {
                events: self.0.parts().events + evs.deep_view(),
                ..self.0.parts()
            }),
    {
        let mut cal = self.0;
        let mut items = evs;
        let ghost before = cal.events.deep_view();
        let ghost added = items.deep_view();
        cal.events.append(&mut items);
        assert(cal.events.deep_view() =~= before + added);
        Finalizer(cal)
    }

    /// Adds an alarm.
    pub fn add_alarm(self, alarm: IcalAlarm<true>) -> (r: Finalizer)
        ensures
            r.0.parts() == (CalendarView {
                alarms: self.0.parts().alarms.push(alarm@),
                ..self.0.parts()
            }),
    {
        let mut cal = self.0;
        let ghost before = cal.alarms;
        let ghost pushed = alarm;
        cal.alarms.push(alarm);
        proof {
            lemma_push_deep_view(before, cal.alarms, pushed);
        }
        Finalizer(cal)
    }

    /// Adds alarms, in their order.
    pub fn add_alarms(self, alarms: Vec<IcalAlarm<true>>) -> (r: Finalizer)
        ensures
            r.0.parts() == (CalendarView {
                alarms: self.0.parts().alarms + alarms.deep_view(),
                ..self.0.parts()
            }),
    {
        let mut cal = self.0;
        let mut items = alarms;
        let ghost before = cal.alarms.deep_view();
        let ghost added = items.deep_view();
        cal.alarms.append(&mut items);
        assert(cal.alarms.deep_view() =~= before + added);
        Finalizer(cal)
    }

    /// Adds a to-do.
    pub fn add_todo(self, todo: IcalTodo<true>) -> (r: Finalizer)
        ensures
            r.0.parts() == (CalendarView {
                todos: self.0.parts().todos.push(todo@),
                ..self.0.parts()
            }),
    {
        let mut cal = self.0;
        let ghost before = cal.todos;
        let ghost pushed = todo;
        cal.todos.push(todo);
        proof {
            lemma_push_deep_view(before, cal.todos, pushed);
        }
        Finalizer(cal)
    }

    /// Adds to-dos, in their order.
    pub fn add_todos(self, todos: Vec<IcalTodo<true>>) -> (r: Finalizer)
        ensures
            r.0.parts() == (CalendarView {
                todos: self.0.parts().todos + todos.deep_view(),
                ..self.0.parts()
            }),
    {
        let mut cal = self.0;
        let mut items = todos;
        let ghost before = cal.todos.deep_view();
        let ghost added = items.deep_view();
        cal.todos.append(&mut items);
        assert(cal.todos.deep_view() =~= before + added);
        Finalizer(cal)
    }

    /// Adds a journal entry.
    pub fn add_journal(self, journal: IcalJournal<true>) -> (r: Finalizer)
        ensures
            r.0.parts() == (CalendarView {
                journals: self.0.parts().journals.push(journal@),
                ..self.0.parts()
            }),
    {
        let mut cal = self.0;
        let ghost before = cal.journals;
        let ghost pushed = journal;
        cal.journals.push(journal);
        proof {
            lemma_push_deep_view(before, cal.journals, pushed);
        }
        Finalizer(cal)
    }

    /// Adds journal entries, in their order.
    pub fn add_journals(self, journals: Vec<IcalJournal<true>>) -> (r: Finalizer)
        ensures
            r.0.parts() == (CalendarView {
                journals: self.0.parts().journals + journals.deep_view(),
                ..self.0.parts()
            }),
    {
        let mut cal = self.0;
        let mut items = journals;
        let ghost before = cal.journals.deep_view();
        let ghost added = items.deep_view();
        cal.journals.append(&mut items);
        assert(cal.journals.deep_view() =~= before + added);
        Finalizer(cal)
    }

    /// Adds a timezone definition.
    pub fn add_timezone(self, tz: IcalTimeZone<true>) -> (r: Finalizer)
        ensures
            r.0.parts() == (CalendarView {
                timezones: self.0.parts().timezones.push(tz@),
                ..self.0.parts()
            }),
    {
        let mut cal = self.0;
        let ghost before = cal.timezones;
        let ghost pushed = tz;
        cal.timezones.push(tz);
        proof {
            lemma_push_deep_view(before, cal.timezones, pushed);
        }
        Finalizer(cal)
    }

    /// Adds timezone definitions, in their order.
    pub fn add_timezones(self, tzs: Vec<IcalTimeZone<true>>) -> (r: Finalizer)
        ensures
            r.0.parts() == (CalendarView {
                timezones: self.0.parts().timezones + tzs.deep_view(),
                ..self.0.parts()
            }),
    {
        let mut cal = self.0;
        let mut items = tzs;
        let ghost before = cal.timezones.deep_view();
        let ghost added = items.deep_view();
        cal.timezones.append(&mut items);
        assert(cal.timezones.deep_view() =~= before + added);
        Finalizer(cal)
    }

    /// Adds a timezone definition; see [`Finalizer::add_timezone`].
    pub fn add_tz(self, tz: IcalTimeZone<true>) -> (r: Finalizer)
        ensures
            r.0.parts() == (CalendarView {
                timezones: self.0.parts().timezones.push(tz@),
                ..self.0.parts()
            }),
    {
        self.add_timezone(tz)
    }
}

} // verus!
