//! Calendars: the container of events, to-dos, journal entries, alarms,
//! statements of free and busy time and timezone definitions.
use crate::parser::ical::component::alarm::{verify_alarms, AlarmView, IcalAlarm};
use crate::parser::ical::component::calendar_builder::{CalendarBuilderView, IcalCalendarBuilder};
use crate::parser::ical::component::event::{EventView, IcalEvent, IcalEventBuilder};
use crate::parser::ical::component::freebusy::{FreeBusyView, IcalFreeBusy};
use crate::parser::ical::component::journal::{
    journal_valid, lemma_journal_checked_valid, IcalJournal, JournalView,
};
use crate::parser::ical::component::timezone::{
    timezone_valid, zone_of_definition, IcalTimeZone, TimeZoneView,
};
use crate::parser::ical::component::todo::{
    lemma_todo_checked_valid, todo_valid, IcalTodo, TodoView,
};
use crate::parser::{
    build_all, built_all, property_value, views, Component, ComponentMut, ParserError,
    ParserErrorView,
};
use crate::property::{lemma_push_deep_view, Property, PropertyView};
use crate::types::TimezoneTable;
use vstd::prelude::*;

verus! {

/// A checked calendar.
#[derive(Debug)]
pub struct IcalCalendar {
    pub(crate) properties: Vec<Property>,
    pub(crate) events: Vec<IcalEvent>,
    pub(crate) alarms: Vec<IcalAlarm<true>>,
    pub(crate) todos: Vec<IcalTodo<true>>,
    pub(crate) journals: Vec<IcalJournal<true>>,
    pub(crate) free_busys: Vec<IcalFreeBusy<true>>,
    pub(crate) timezones: Vec<IcalTimeZone<true>>,
    /// The timezone table of the calendar, which is made once from its
    /// timezone definitions.
    pub(crate) table: TimezoneTable,
}

/// A calendar as a plain value.
pub struct CalendarView {
    pub properties: Seq<PropertyView>,
    pub events: Seq<EventView>,
    pub alarms: Seq<AlarmView>,
    pub todos: Seq<TodoView>,
    pub journals: Seq<JournalView>,
    pub free_busys: Seq<FreeBusyView>,
    pub timezones: Seq<TimeZoneView>,
}

impl View for IcalCalendar {
    type V = CalendarView;

    closed spec fn view(&self) -> CalendarView {
        CalendarView {
            properties: self.properties.deep_view(),
            events: self.events.deep_view(),
            alarms: self.alarms.deep_view(),
            todos: self.todos.deep_view(),
            journals: self.journals.deep_view(),
            free_busys: self.free_busys.deep_view(),
            timezones: self.timezones.deep_view(),
        }
    }
}

impl DeepView for IcalCalendar {
    type V = CalendarView;

    open spec fn deep_view(&self) -> CalendarView {
        self@
    }
}

/// What every checked calendar fulfils: its to-dos, journal entries and
/// timezone definitions have the properties that their accessors rely on.
pub open spec fn calendar_valid(v: CalendarView) -> bool {
    &&& forall|i: int| 0 <= i < v.todos.len() ==> todo_valid(#[trigger] v.todos[i])
    &&& forall|i: int| 0 <= i < v.journals.len() ==> journal_valid(#[trigger] v.journals[i])
    &&& forall|i: int| 0 <= i < v.timezones.len() ==> timezone_valid(#[trigger] v.timezones[i])
}

/// The timezone table of the first `n` timezone definitions: each identifier
/// with the timezone that its definition stands for. A later definition
/// replaces an earlier one with the same identifier.
pub open spec fn timezone_table(defs: Seq<TimeZoneView>, n: int) -> Map<Seq<char>, Option<Seq<char>>>
    decreases n,
{
    if n <= 0 {
        Map::empty()
    } else {
        timezone_table(defs, n - 1).insert(
            property_value(defs[n - 1].properties, "TZID"@)->0,
            zone_of_definition(defs[n - 1]),
        )
    }
}

/// The check of a calendar. Its timezone definitions are checked first and
/// give the timezone table of the calendar. Then its events, to-dos and
/// journal entries are checked, each under that table. The first fault is
/// the fault of the calendar. Its own properties are kept as they are.
pub open spec fn calendar_checked(draft: CalendarBuilderView) -> Result<
    CalendarView,
    ParserErrorView,
> {
    match built_all::<IcalTimeZone<false>>(draft.timezones, Map::empty(), Seq::empty()) {
        Err(e) => Err(e),
        Ok(timezones) => {
            let table = timezone_table(timezones, timezones.len() as int);
            match built_all::<IcalEventBuilder>(draft.events, table, Seq::empty()) {
                Err(e) => Err(e),
                Ok(events) => match built_all::<IcalTodo<false>>(draft.todos, table, Seq::empty()) {
                    Err(e) => Err(e),
                    Ok(todos) => match built_all::<IcalJournal<false>>(
                        draft.journals,
                        table,
                        Seq::empty(),
                    ) {
                        Err(e) => Err(e),
                        Ok(journals) => Ok(
                            CalendarView {
                                properties: draft.properties,
                                events,
                                alarms: draft.alarms,
                                todos,
                                journals,
                                free_busys: draft.free_busys,
                                timezones,
                            },
                        ),
                    },
                },
            }
        },
    }
}

/// What [`built_all`] gives holds one checked component for each draft, in
/// order, behind what was there before.
pub proof fn lemma_built_all<D: ComponentMut>(
    drafts: Seq<D::V>,
    timezones: Map<Seq<char>, Option<Seq<char>>>,
    acc: Seq<<D::Verified as View>::V>,
)
    requires
        built_all::<D>(drafts, timezones, acc) is Ok,
    ensures
        built_all::<D>(drafts, timezones, acc)->Ok_0.len() == acc.len() + drafts.len(),
        forall|i: int|
            0 <= i < acc.len() ==> #[trigger] built_all::<D>(drafts, timezones, acc)->Ok_0[i]
                == acc[i],
        forall|i: int|
            0 <= i < drafts.len() ==> D::built(#[trigger] drafts[i], timezones) == Ok::<
                <D::Verified as View>::V,
                ParserErrorView,
            >(built_all::<D>(drafts, timezones, acc)->Ok_0[acc.len() + i]),
    decreases drafts.len(),
{
    if drafts.len() > 0 {
        let v = D::built(drafts[0], timezones)->Ok_0;
        let rest = drafts.drop_first();
        lemma_built_all::<D>(rest, timezones, acc.push(v));
        let out = built_all::<D>(drafts, timezones, acc)->Ok_0;
        assert forall|i: int| 0 <= i < acc.len() implies #[trigger] out[i] == acc[i] by {
            assert(acc.push(v)[i] == acc[i]);
        }
        assert forall|i: int| 0 <= i < drafts.len() implies D::built(
            #[trigger] drafts[i],
            timezones,
        ) == Ok::<<D::Verified as View>::V, ParserErrorView>(out[acc.len() + i]) by {
            if i == 0 {
                assert(out[acc.len() as int] == acc.push(v)[acc.len() as int]);
            } else {
                assert(rest[i - 1] == drafts[i]);
                assert(out[acc.push(v).len() + (i - 1)] == out[acc.len() + i]);
            }
        }
    }
}

/// The timezone table of a list of timezone definitions: see
/// [`timezone_table`].
pub fn build_table(timezones: &Vec<IcalTimeZone<true>>) -> (r: TimezoneTable)
    requires
        forall|i: int| 0 <= i < timezones.len() ==> timezone_valid(#[trigger] timezones[i]@),
    ensures
        r@ == timezone_table(timezones.deep_view(), timezones.len() as int),
{
    let mut table = TimezoneTable::new();
    let mut i: usize = 0;
    while i < timezones.len()
        invariant
            i <= timezones.len(),
            forall|k: int| 0 <= k < timezones.len() ==> timezone_valid(#[trigger] timezones[k]@),
            table@ == timezone_table(timezones.deep_view(), i as int),
        decreases timezones.len() - i,
    {
        assert(timezones.deep_view()[i as int] == timezones[i as int]@);
        let id = timezones[i].get_tzid();
        let zone = timezones[i].resolve();
        table.insert(id.to_owned(), zone);
        i += 1;
    }
    table
}

/// Passes a list of drafts of free and busy time as checked: such a
/// statement has no rule that it could break.
pub fn verify_free_busys(items: Vec<IcalFreeBusy<false>>) -> (r: Vec<IcalFreeBusy<true>>)
    ensures
        r.deep_view() == items.deep_view(),
{
    let ghost all = items.deep_view();
    let mut rest = crate::parser::reversed(items);
    let mut r: Vec<IcalFreeBusy<true>> = Vec::new();
    let ghost n = all.len();
    assert(r.deep_view() =~= all.take(0));
    while rest.len() > 0
        invariant
            n == all.len(),
            rest.len() + r.len() == n,
            forall|j: int| 0 <= j < rest.len() ==> #[trigger] rest[j]@ == all[n - 1 - j],
            r.deep_view() == all.take(r.len() as int),
        decreases rest.len(),
    {
        let ghost before = r;
        let item = rest.pop().unwrap();
        assert(item@ == all[before.len() as int]);
        let checked: IcalFreeBusy<true> = IcalFreeBusy { properties: item.properties };
        let ghost pushed = checked;
        r.push(checked);
        proof {
            lemma_push_deep_view(before, r, pushed);
            assert(r.deep_view() =~= all.take(r.len() as int));
        }
    }
    assert(all.take(n as int) =~= all);
    r
}

/// Checks the draft of a calendar: see [`calendar_checked`].
pub fn build_calendar(draft: IcalCalendarBuilder) -> (r: Result<IcalCalendar, ParserError>)
    ensures
        crate::parser::build_outcome(r) == calendar_checked(draft@),
{
    let ghost d = draft@;
    let empty = TimezoneTable::new();
    assert(views(draft.timezones@) =~= d.timezones);
    assert(views(draft.events@) =~= d.events);
    assert(views(draft.todos@) =~= d.todos);
    assert(views(draft.journals@) =~= d.journals);
    let timezones = match build_all::<IcalTimeZone<false>>(draft.timezones, &empty) {
        Err(e) => {
            return Err(e);
        },
        Ok(v) => v,
    };
    proof {
        assert(views(timezones@) =~= timezones.deep_view());
        lemma_built_all::<IcalTimeZone<false>>(d.timezones, Map::empty(), Seq::empty());
        assert forall|i: int| 0 <= i < timezones.len() implies timezone_valid(
            #[trigger] timezones[i]@,
        ) by {
            assert(timezones.deep_view()[0 + i] == timezones[i]@);
            assert(IcalTimeZone::<false>::built(d.timezones[i], Map::empty()) is Ok);
        }
    }
    let table = build_table(&timezones);
    let events = match build_all::<IcalEventBuilder>(draft.events, &table) {
        Err(e) => {
            return Err(e);
        },
        Ok(v) => v,
    };
    let todos = match build_all::<IcalTodo<false>>(draft.todos, &table) {
        Err(e) => {
            return Err(e);
        },
        Ok(v) => v,
    };
    let journals = match build_all::<IcalJournal<false>>(draft.journals, &table) {
        Err(e) => {
            return Err(e);
        },
        Ok(v) => v,
    };
    proof {
        assert(views(events@) =~= events.deep_view());
        assert(views(todos@) =~= todos.deep_view());
        assert(views(journals@) =~= journals.deep_view());
        lemma_built_all::<IcalTodo<false>>(d.todos, table@, Seq::empty());
        lemma_built_all::<IcalJournal<false>>(d.journals, table@, Seq::empty());
        assert forall|i: int| 0 <= i < todos.len() implies todo_valid(
            #[trigger] todos.deep_view()[i],
        ) by {
            assert(IcalTodo::<false>::built(d.todos[i], table@) == Ok::<TodoView, ParserErrorView>(
                todos.deep_view()[0 + i],
            ));
            lemma_todo_checked_valid(d.todos[i], table@);
        }
        assert forall|i: int| 0 <= i < journals.len() implies journal_valid(
            #[trigger] journals.deep_view()[i],
        ) by {
            assert(IcalJournal::<false>::built(d.journals[i], table@) == Ok::<
                JournalView,
                ParserErrorView,
            >(journals.deep_view()[0 + i]));
            lemma_journal_checked_valid(d.journals[i], table@);
        }
        assert forall|i: int| 0 <= i < timezones.len() implies timezone_valid(
            #[trigger] timezones.deep_view()[i],
        ) by {
            assert(timezones.deep_view()[i] == timezones[i]@);
        }
    }
    Ok(
        IcalCalendar {
            properties: draft.properties,
            events,
            alarms: verify_alarms(draft.alarms),
            todos,
            journals,
            free_busys: verify_free_busys(draft.free_busys),
            timezones,
            table,
        },
    )
}

impl Component for IcalCalendar {
    type Unverified = IcalCalendarBuilder;

    open spec fn names() -> Seq<Seq<char>> {
        seq!["VCALENDAR"@]
    }

    open spec fn draft_of(v: CalendarView) -> CalendarBuilderView {
        CalendarBuilderView {
            properties: v.properties,
            events: v.events.map_values(|e: EventView| IcalEvent::draft_of(e)),
            alarms: v.alarms,
            todos: v.todos,
            journals: v.journals,
            free_busys: v.free_busys,
            timezones: v.timezones,
        }
    }

    fn mutable(self) -> (r: IcalCalendarBuilder) {
        let ghost v = self@;
        proof {
            assert(views(self.events@) =~= v.events);
            assert(views(self.alarms@) =~= v.alarms);
            assert(views(self.todos@) =~= v.todos);
            assert(views(self.journals@) =~= v.journals);
            assert(views(self.free_busys@) =~= v.free_busys);
            assert(views(self.timezones@) =~= v.timezones);
        }
        let events = crate::parser::mutable_all(self.events);
        let alarms = crate::parser::mutable_all(self.alarms);
        let todos = crate::parser::mutable_all(self.todos);
        let journals = crate::parser::mutable_all(self.journals);
        let free_busys = crate::parser::mutable_all(self.free_busys);
        let timezones = crate::parser::mutable_all(self.timezones);
        proof {
            assert(events.deep_view() =~= views(events@));
            assert(alarms.deep_view() =~= views(alarms@));
            assert(todos.deep_view() =~= views(todos@));
            assert(journals.deep_view() =~= views(journals@));
            assert(free_busys.deep_view() =~= views(free_busys@));
            assert(timezones.deep_view() =~= views(timezones@));
            assert(alarms.deep_view() =~= v.alarms);
            assert(todos.deep_view() =~= v.todos);
            assert(journals.deep_view() =~= v.journals);
            assert(free_busys.deep_view() =~= v.free_busys);
            assert(timezones.deep_view() =~= v.timezones);
        }
        IcalCalendarBuilder {
            properties: self.properties,
            events,
            alarms,
            todos,
            journals,
            free_busys,
            timezones,
        }
    }

    open spec fn properties_of(v: CalendarView) -> Seq<PropertyView> {
        v.properties
    }

    fn is_name(name: &str) -> (r: bool) {
        let r = name.eq("VCALENDAR");
        assert(seq!["VCALENDAR"@][0] == "VCALENDAR"@);
        r
    }

    fn get_properties(&self) -> (r: &Vec<Property>) {
        &self.properties
    }
}

impl IcalCalendar {
    #[verifier::type_invariant]
    spec fn inv(self) -> bool {
        calendar_valid(self@) && self.table@ == timezone_table(
            self@.timezones,
            self@.timezones.len() as int,
        )
    }

    /// The calendar that holds the given properties and components. The
    /// to-dos, journal entries and timezone definitions must have the
    /// properties that their accessors rely on.
    pub fn from_parts(
        properties: Vec<Property>,
        events: Vec<IcalEvent>,
        alarms: Vec<IcalAlarm<true>>,
        todos: Vec<IcalTodo<true>>,
        journals: Vec<IcalJournal<true>>,
        free_busys: Vec<IcalFreeBusy<true>>,
        timezones: Vec<IcalTimeZone<true>>,
    ) -> (r: IcalCalendar)
        requires
            forall|i: int| 0 <= i < todos.len() ==> todo_valid(#[trigger] todos[i]@),
            forall|i: int| 0 <= i < journals.len() ==> journal_valid(#[trigger] journals[i]@),
            forall|i: int| 0 <= i < timezones.len() ==> timezone_valid(#[trigger] timezones[i]@),
        ensures
            r@ == (CalendarView {
                properties: properties.deep_view(),
                events: events.deep_view(),
                alarms: alarms.deep_view(),
                todos: todos.deep_view(),
                journals: journals.deep_view(),
                free_busys: free_busys.deep_view(),
                timezones: timezones.deep_view(),
            }),
    {
        proof {
            assert forall|i: int| 0 <= i < todos.len() implies todo_valid(
                #[trigger] todos.deep_view()[i],
            ) by {
                assert(todos.deep_view()[i] == todos[i]@);
            }
            assert forall|i: int| 0 <= i < journals.len() implies journal_valid(
                #[trigger] journals.deep_view()[i],
            ) by {
                assert(journals.deep_view()[i] == journals[i]@);
            }
            assert forall|i: int| 0 <= i < timezones.len() implies timezone_valid(
                #[trigger] timezones.deep_view()[i],
            ) by {
                assert(timezones.deep_view()[i] == timezones[i]@);
            }
        }
        let table = build_table(&timezones);
        IcalCalendar { properties, events, alarms, todos, journals, free_busys, timezones, table }
    }

    /// A calendar that holds nothing.
    pub fn new() -> (r: IcalCalendar)
        ensures
            r@.properties.len() == 0,
            r@.events.len() == 0,
            r@.alarms.len() == 0,
            r@.todos.len() == 0,
            r@.journals.len() == 0,
            r@.free_busys.len() == 0,
            r@.timezones.len() == 0,
    {
        IcalCalendar {
            properties: Vec::new(),
            events: Vec::new(),
            alarms: Vec::new(),
            todos: Vec::new(),
            journals: Vec::new(),
            free_busys: Vec::new(),
            timezones: Vec::new(),
            table: TimezoneTable::new(),
        }
    }

    /// The events.
    pub fn get_events(&self) -> (r: &Vec<IcalEvent>)
        ensures
            r.deep_view() == self@.events,
    {
        &self.events
    }

    /// The alarms.
    pub fn get_alarms(&self) -> (r: &Vec<IcalAlarm<true>>)
        ensures
            r.deep_view() == self@.alarms,
    {
        &self.alarms
    }

    /// The to-dos; each has the properties that its accessors rely on.
    pub fn get_todos(&self) -> (r: &Vec<IcalTodo<true>>)
        ensures
            r.deep_view() == self@.todos,
            forall|i: int| 0 <= i < r.len() ==> todo_valid(#[trigger] r[i]@),
    {
        proof {
            use_type_invariant(self);
            assert forall|i: int| 0 <= i < self.todos.len() implies todo_valid(
                #[trigger] self.todos[i]@,
            ) by {
                assert(self@.todos[i] == self.todos[i]@);
            }
        }
        &self.todos
    }

    /// The journal entries; each has the properties that its accessors rely
    /// on.
    pub fn get_journals(&self) -> (r: &Vec<IcalJournal<true>>)
        ensures
            r.deep_view() == self@.journals,
            forall|i: int| 0 <= i < r.len() ==> journal_valid(#[trigger] r[i]@),
    {
        proof {
            use_type_invariant(self);
            assert forall|i: int| 0 <= i < self.journals.len() implies journal_valid(
                #[trigger] self.journals[i]@,
            ) by {
                assert(self@.journals[i] == self.journals[i]@);
            }
        }
        &self.journals
    }

    /// The statements of free and busy time.
    pub fn get_free_busys(&self) -> (r: &Vec<IcalFreeBusy<true>>)
        ensures
            r.deep_view() == self@.free_busys,
    {
        &self.free_busys
    }

    /// The timezone definitions; each has an identifier.
    pub fn get_timezones(&self) -> (r: &Vec<IcalTimeZone<true>>)
        ensures
            r.deep_view() == self@.timezones,
            forall|i: int| 0 <= i < r.len() ==> timezone_valid(#[trigger] r[i]@),
    {
        proof {
            use_type_invariant(self);
            assert forall|i: int| 0 <= i < self.timezones.len() implies timezone_valid(
                #[trigger] self.timezones[i]@,
            ) by {
                assert(self@.timezones[i] == self.timezones[i]@);
            }
        }
        &self.timezones
    }

    /// The timezone table of the calendar: see [`timezone_table`]. The table
    /// was made when the calendar was; it is not made again.
    pub fn timezone_table(&self) -> (r: &TimezoneTable)
        ensures
            r@ == timezone_table(self@.timezones, self@.timezones.len() as int),
    {
        proof {
            use_type_invariant(self);
        }
        &self.table
    }
}

} // verus!
