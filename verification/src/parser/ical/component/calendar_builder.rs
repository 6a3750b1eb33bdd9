//! The draft of a calendar.
use crate::parser::{
    next_step, parse_block, Component, ComponentMut, Item, Parsed, ParserError, ParserErrorView,
    Step,
};
use crate::property::{lemma_push_deep_view, Property, PropertyParser, PropertyView};
use crate::types::TimezoneTable;
use crate::parser::ical::component::alarm::{AlarmView, IcalAlarm};
use crate::parser::ical::component::event::{EventBuilderView, IcalEventBuilder};
use crate::parser::ical::component::freebusy::{FreeBusyView, IcalFreeBusy};
use crate::parser::ical::component::journal::{IcalJournal, JournalView};
use crate::parser::ical::component::timezone::{IcalTimeZone, TimeZoneView};
use crate::parser::ical::component::todo::{IcalTodo, TodoView};
use crate::parser::ical::component::calendar::{
    build_calendar, calendar_checked, CalendarView, IcalCalendar,
};
use vstd::prelude::*;

verus! {

/// The draft of a calendar.
#[derive(Debug, Default)]
pub struct IcalCalendarBuilder {
    pub properties: Vec<Property>,
    pub events: Vec<IcalEventBuilder>,
    pub alarms: Vec<IcalAlarm<false>>,
    pub todos: Vec<IcalTodo<false>>,
    pub journals: Vec<IcalJournal<false>>,
    pub free_busys: Vec<IcalFreeBusy<false>>,
    pub timezones: Vec<IcalTimeZone<false>>,
}

/// The draft of a calendar as a plain value.
pub struct CalendarBuilderView {
    pub properties: Seq<PropertyView>,
    pub events: Seq<EventBuilderView>,
    pub alarms: Seq<AlarmView>,
    pub todos: Seq<TodoView>,
    pub journals: Seq<JournalView>,
    pub free_busys: Seq<FreeBusyView>,
    pub timezones: Seq<TimeZoneView>,
}

impl View for IcalCalendarBuilder {
    type V = CalendarBuilderView;

    open spec fn view(&self) -> CalendarBuilderView {
        CalendarBuilderView {
            properties: self.properties.deep_view(),
            events: self.events.deep_view(),
            alarms: self.alarms.deep_view(),
            todos: self.todos.deep_view(),
            journals: self.journals.deep_view(),
            free_busys: self.free_busys.deep_view(),
            timezones: self.timezones.deep_view(),
        }
    }
}

impl IcalCalendarBuilder {
    /// A draft that holds nothing.
    pub fn new() -> (r: Self)
        ensures
            r@ == Self::empty(),
    {
        let r = IcalCalendarBuilder { properties: Vec::new(), events: Vec::new(), alarms: Vec::new(), todos: Vec::new(), journals: Vec::new(), free_busys: Vec::new(), timezones: Vec::new() };
        assert(r.properties.deep_view() =~= Seq::empty());
        assert(r.events.deep_view() =~= Seq::empty());
        assert(r.alarms.deep_view() =~= Seq::empty());
        assert(r.todos.deep_view() =~= Seq::empty());
        assert(r.journals.deep_view() =~= Seq::empty());
        assert(r.free_busys.deep_view() =~= Seq::empty());
        assert(r.timezones.deep_view() =~= Seq::empty());
        r
    }
}

impl Component for IcalCalendarBuilder {
    type Unverified = IcalCalendarBuilder;

    open spec fn names() -> Seq<Seq<char>> {
        seq!["VCALENDAR"@]
    }

    open spec fn draft_of(v: CalendarBuilderView) -> CalendarBuilderView {
        v
    }

    open spec fn properties_of(v: CalendarBuilderView) -> Seq<PropertyView> {
        v.properties
    }

    fn mutable(self) -> (r: IcalCalendarBuilder) {
        self
    }

    fn is_name(name: &str) -> (r: bool) {
        let r = name.eq("VCALENDAR");
        assert(seq!["VCALENDAR"@][0] == "VCALENDAR"@);
        r
    }

    fn get_properties(&self) -> (r: &Vec<Property>) {
        &self.properties
    }
}

impl ComponentMut for IcalCalendarBuilder {
    type Verified = IcalCalendar;

    open spec fn empty() -> CalendarBuilderView {
        CalendarBuilderView {
            properties: Seq::empty(),
            events: Seq::empty(),
            alarms: Seq::empty(),
            todos: Seq::empty(),
            journals: Seq::empty(),
            free_busys: Seq::empty(),
            timezones: Seq::empty(),
        }
    }

    open spec fn with_property(draft: CalendarBuilderView, property: PropertyView) -> CalendarBuilderView {
        CalendarBuilderView {
            properties: draft.properties.push(property),
            events: draft.events,
            alarms: draft.alarms,
            todos: draft.todos,
            journals: draft.journals,
            free_busys: draft.free_busys,
            timezones: draft.timezones,
        }
    }

    open spec fn sub_component(draft: CalendarBuilderView, name: Seq<char>, items: Seq<Item>) -> Parsed<
        CalendarBuilderView,
    > {
        if name == "VALARM"@ {
            let sub = parse_block(
                IcalAlarm::<false>::empty(),
                items,
                |d: AlarmView, p: PropertyView| IcalAlarm::<false>::with_property(d, p),
                |d: AlarmView, n: Seq<char>, i: Seq<Item>| IcalAlarm::<false>::sub_component(d, n, i),
            );
            match sub.result {
                Ok(child) => Parsed {
                    result: Ok(
                        CalendarBuilderView {
                            properties: draft.properties,
                            events: draft.events,
                            alarms: draft.alarms.push(child),
                            todos: draft.todos,
                            journals: draft.journals,
                            free_busys: draft.free_busys,
                            timezones: draft.timezones,
                        },
                    ),
                    rest: sub.rest,
                },
                Err(e) => Parsed { result: Err(e), rest: sub.rest },
            }
        } else if name == "VEVENT"@ {
            let sub = parse_block(
                IcalEventBuilder::empty(),
                items,
                |d: EventBuilderView, p: PropertyView| IcalEventBuilder::with_property(d, p),
                |d: EventBuilderView, n: Seq<char>, i: Seq<Item>| IcalEventBuilder::sub_component(d, n, i),
            );
            match sub.result {
                Ok(child) => Parsed {
                    result: Ok(
                        CalendarBuilderView {
                            properties: draft.properties,
                            events: draft.events.push(child),
                            alarms: draft.alarms,
                            todos: draft.todos,
                            journals: draft.journals,
                            free_busys: draft.free_busys,
                            timezones: draft.timezones,
                        },
                    ),
                    rest: sub.rest,
                },
                Err(e) => Parsed { result: Err(e), rest: sub.rest },
            }
        } else if name == "VTODO"@ {
            let sub = parse_block(
                IcalTodo::<false>::empty(),
                items,
                |d: TodoView, p: PropertyView| IcalTodo::<false>::with_property(d, p),
                |d: TodoView, n: Seq<char>, i: Seq<Item>| IcalTodo::<false>::sub_component(d, n, i),
            );
            match sub.result {
                Ok(child) => Parsed {
                    result: Ok(
                        CalendarBuilderView {
                            properties: draft.properties,
                            events: draft.events,
                            alarms: draft.alarms,
                            todos: draft.todos.push(child),
                            journals: draft.journals,
                            free_busys: draft.free_busys,
                            timezones: draft.timezones,
                        },
                    ),
                    rest: sub.rest,
                },
                Err(e) => Parsed { result: Err(e), rest: sub.rest },
            }
        } else if name == "VJOURNAL"@ {
            let sub = parse_block(
                IcalJournal::<false>::empty(),
                items,
                |d: JournalView, p: PropertyView| IcalJournal::<false>::with_property(d, p),
                |d: JournalView, n: Seq<char>, i: Seq<Item>| IcalJournal::<false>::sub_component(d, n, i),
            );
            match sub.result {
                Ok(child) => Parsed {
                    result: Ok(
                        CalendarBuilderView {
                            properties: draft.properties,
                            events: draft.events,
                            alarms: draft.alarms,
                            todos: draft.todos,
                            journals: draft.journals.push(child),
                            free_busys: draft.free_busys,
                            timezones: draft.timezones,
                        },
                    ),
                    rest: sub.rest,
                },
                Err(e) => Parsed { result: Err(e), rest: sub.rest },
            }
        } else if name == "VFREEBUSY"@ {
            let sub = parse_block(
                IcalFreeBusy::<false>::empty(),
                items,
                |d: FreeBusyView, p: PropertyView| IcalFreeBusy::<false>::with_property(d, p),
                |d: FreeBusyView, n: Seq<char>, i: Seq<Item>| IcalFreeBusy::<false>::sub_component(d, n, i),
            );
            match sub.result {
                Ok(child) => Parsed {
                    result: Ok(
                        CalendarBuilderView {
                            properties: draft.properties,
                            events: draft.events,
                            alarms: draft.alarms,
                            todos: draft.todos,
                            journals: draft.journals,
                            free_busys: draft.free_busys.push(child),
                            timezones: draft.timezones,
                        },
                    ),
                    rest: sub.rest,
                },
                Err(e) => Parsed { result: Err(e), rest: sub.rest },
            }
        } else if name == "VTIMEZONE"@ {
            let sub = parse_block(
                IcalTimeZone::<false>::empty(),
                items,
                |d: TimeZoneView, p: PropertyView| IcalTimeZone::<false>::with_property(d, p),
                |d: TimeZoneView, n: Seq<char>, i: Seq<Item>| IcalTimeZone::<false>::sub_component(d, n, i),
            );
            match sub.result {
                Ok(child) => Parsed {
                    result: Ok(
                        CalendarBuilderView {
                            properties: draft.properties,
                            events: draft.events,
                            alarms: draft.alarms,
                            todos: draft.todos,
                            journals: draft.journals,
                            free_busys: draft.free_busys,
                            timezones: draft.timezones.push(child),
                        },
                    ),
                    rest: sub.rest,
                },
                Err(e) => Parsed { result: Err(e), rest: sub.rest },
            }
        } else {
            Parsed { result: Err(ParserErrorView::InvalidComponent(name)), rest: items }
        }
    }

    open spec fn built(draft: CalendarBuilderView, timezones: Map<Seq<char>, Option<Seq<char>>>) -> Result<
        CalendarView,
        ParserErrorView,
    > {
        calendar_checked(draft)
    }

    fn fresh() -> (r: Self) {
        IcalCalendarBuilder::new()
    }

    fn add_sub_component(&mut self, value: &str, line_parser: &mut PropertyParser) -> (r: Result<
        (),
        ParserError,
    >) {
        if value.eq("VALARM") {
            let mut child = IcalAlarm::<false>::fresh();
            match child.parse(line_parser) {
                Err(e) => Err(e),
                Ok(()) => {
                    let ghost before = self.alarms;
                    let ghost item = child;
                    self.alarms.push(child);
                    proof {
                        lemma_push_deep_view(before, self.alarms, item);
                    }
                    Ok(())
                },
            }
        } else if value.eq("VEVENT") {
            let mut child = IcalEventBuilder::fresh();
            match child.parse(line_parser) {
                Err(e) => Err(e),
                Ok(()) => {
                    let ghost before = self.events;
                    let ghost item = child;
                    self.events.push(child);
                    proof {
                        lemma_push_deep_view(before, self.events, item);
                    }
                    Ok(())
                },
            }
        } else if value.eq("VTODO") {
            let mut child = IcalTodo::<false>::fresh();
            match child.parse(line_parser) {
                Err(e) => Err(e),
                Ok(()) => {
                    let ghost before = self.todos;
                    let ghost item = child;
                    self.todos.push(child);
                    proof {
                        lemma_push_deep_view(before, self.todos, item);
                    }
                    Ok(())
                },
            }
        } else if value.eq("VJOURNAL") {
            let mut child = IcalJournal::<false>::fresh();
            match child.parse(line_parser) {
                Err(e) => Err(e),
                Ok(()) => {
                    let ghost before = self.journals;
                    let ghost item = child;
                    self.journals.push(child);
                    proof {
                        lemma_push_deep_view(before, self.journals, item);
                    }
                    Ok(())
                },
            }
        } else if value.eq("VFREEBUSY") {
            let mut child = IcalFreeBusy::<false>::fresh();
            match child.parse(line_parser) {
                Err(e) => Err(e),
                Ok(()) => {
                    let ghost before = self.free_busys;
                    let ghost item = child;
                    self.free_busys.push(child);
                    proof {
                        lemma_push_deep_view(before, self.free_busys, item);
                    }
                    Ok(())
                },
            }
        } else if value.eq("VTIMEZONE") {
            let mut child = IcalTimeZone::<false>::fresh();
            match child.parse(line_parser) {
                Err(e) => Err(e),
                Ok(()) => {
                    let ghost before = self.timezones;
                    let ghost item = child;
                    self.timezones.push(child);
                    proof {
                        lemma_push_deep_view(before, self.timezones, item);
                    }
                    Ok(())
                },
            }
        } else {
            Err(ParserError::InvalidComponent(value.to_owned()))
        }
    }

    fn add_property(&mut self, property: Property) {
        let ghost before = self.properties;
        let ghost item = property;
        self.properties.push(property);
        proof {
            lemma_push_deep_view(before, self.properties, item);
        }
    }

    fn build(self, timezones: &TimezoneTable) -> (r: Result<IcalCalendar, ParserError>) {
        build_calendar(self)
    }

    fn parse(&mut self, line_parser: &mut PropertyParser) -> (r: Result<(), ParserError>) {
        loop
            invariant
                line_parser.bytes() == old(line_parser).bytes(),
                line_parser.remaining().len() <= old(line_parser).remaining().len(),
                parse_block(
                    self@,
                    line_parser.remaining(),
                    |d: CalendarBuilderView, p: PropertyView| Self::with_property(d, p),
                    |d: CalendarBuilderView, name: Seq<char>, items: Seq<Item>|
                        Self::sub_component(d, name, items),
                ) == parse_block(
                    old(self)@,
                    old(line_parser).remaining(),
                    |d: CalendarBuilderView, p: PropertyView| Self::with_property(d, p),
                    |d: CalendarBuilderView, name: Seq<char>, items: Seq<Item>|
                        Self::sub_component(d, name, items),
                ),
            decreases line_parser.remaining().len(),
        {
            match next_step(line_parser) {
                Err(e) => {
                    return Err(e);
                },
                Ok(Step::End) => {
                    return Ok(());
                },
                Ok(Step::Begin(name)) => {
                    match self.add_sub_component(name.as_str(), line_parser) {
                        Err(e) => {
                            return Err(e);
                        },
                        Ok(()) => {},
                    }
                },
                Ok(Step::Property(p)) => {
                    self.add_property(p);
                },
            }
        }
    }
}

} // verus!
