//! Reading back what was written: calendars, calendar objects, contacts,
//! and the other components on their own.
use crate::generator::ical::{calendar_body, generated_properties};
use crate::generator::round_trip::{
    body_property, frame_line, lemma_upper_of_capitals, written_property,
};
use crate::generator::round_trip_blocks::{
    add_all, framed, lemma_block_items, lemma_block_text, lemma_generated_concat,
    lemma_parse_child, lemma_parse_end, lemma_parse_props, oks,
};
use crate::generator::round_trip_kinds::{
    alarm_body, alarm_list_lines, alarm_list_written, alarm_written, event_body, event_list_lines,
    event_list_written, event_written, free_busy_body, free_busy_list_lines,
    free_busy_list_written, free_busy_written, journal_body, journal_list_lines,
    journal_list_written, journal_written, lemma_alarm_block, lemma_alarm_list_front,
    lemma_alarm_list_text, lemma_event_block, lemma_event_list_front, lemma_event_list_text,
    lemma_free_busy_block, lemma_free_busy_list_front, lemma_free_busy_list_text,
    lemma_journal_block, lemma_journal_list_front, lemma_journal_list_text, lemma_kind_names,
    lemma_oks_concat, lemma_timezone_block, lemma_timezone_list_front, lemma_timezone_list_text,
    lemma_todo_block, lemma_todo_list_front, lemma_todo_list_text, timezone_body, contact_written,
    lemma_contact_block, lemma_contact_text, lemma_alarm_text, lemma_event_text,
    lemma_free_busy_text, lemma_journal_text, lemma_timezone_text, lemma_todo_text,
    timezone_list_lines, timezone_list_written, timezone_written, todo_body, todo_list_lines,
    todo_list_written, todo_written,
};
use crate::generator::{generated_all, Emitter};
use crate::parser::ical::component::alarm::{AlarmView, IcalAlarm};
use crate::parser::ical::component::calendar::{
    calendar_checked, lemma_built_all, timezone_table, CalendarView, IcalCalendar,
};
use crate::parser::ical::component::calendar_builder::{CalendarBuilderView, IcalCalendarBuilder};
use crate::parser::ical::component::calendar_object::{
    object_checked, CalendarInnerData, CalendarInnerDataView, CalendarObjectView,
    IcalCalendarObject,
};
use crate::parser::ical::component::calendar_object_laws::lemma_object_checked_again;
use crate::parser::ical::component::calendar_object_builder::{
    CalendarObjectBuilderView, IcalCalendarObjectBuilder,
};
use crate::parser::ical::component::event::builder::{EventBuilderView, IcalEventBuilder};
use crate::parser::ical::component::event::{EventView, IcalEvent};
use crate::parser::ical::component::freebusy::{FreeBusyView, IcalFreeBusy};
use crate::parser::ical::component::journal::{IcalJournal, JournalView};
use crate::parser::ical::component::timezone::{IcalTimeZone, TimeZoneView};
use crate::parser::ical::component::todo::{IcalTodo, TodoView};
use crate::parser::vcard::component::{ContactView, VcardContact};
use crate::parser::{
    built_all, is_header, next_component, parse_block, Component, ComponentMut, Item, Parsed,
    ParserErrorView,
};
use crate::property::{properties_of, PropertyError, PropertyView};
use vstd::prelude::*;
use vstd::utf8::encode_utf8;

verus! {

/// The lines in the block of a calendar: its properties, then the lines of
/// its timezone definitions, events, alarms, to-dos, journal entries and
/// statements of free and busy time.
pub open spec fn calendar_body_lines(v: CalendarView) -> Seq<PropertyView> {
    v.properties + timezone_list_lines(v.timezones) + event_list_lines(v.events) + alarm_list_lines(
        v.alarms,
    ) + todo_list_lines(v.todos) + journal_list_lines(v.journals) + free_busy_list_lines(
        v.free_busys,
    )
}

/// The lines of a calendar: its block between its `BEGIN` and its `END` line.
pub open spec fn calendar_lines(v: CalendarView) -> Seq<PropertyView> {
    framed("VCALENDAR"@, calendar_body_lines(v))
}

/// Whether a calendar holds only what is read back as it was written: body
/// properties, in itself and in every component that is nested in it.
pub open spec fn calendar_written(v: CalendarView) -> bool {
    &&& forall|i: int| 0 <= i < v.properties.len() ==> body_property(#[trigger] v.properties[i])
    &&& timezone_list_written(v.timezones)
    &&& event_list_written(v.events)
    &&& alarm_list_written(v.alarms)
    &&& todo_list_written(v.todos)
    &&& journal_list_written(v.journals)
    &&& free_busy_list_written(v.free_busys)
}

/// Whether each of the lines is a written property.
pub open spec fn all_written(lines: Seq<PropertyView>) -> bool {
    forall|i: int| 0 <= i < lines.len() ==> written_property(#[trigger] lines[i])
}

proof fn lemma_written_concat(a: Seq<PropertyView>, b: Seq<PropertyView>)
    requires
        all_written(a),
        all_written(b),
    ensures
        all_written(a + b),
{
    assert forall|i: int| 0 <= i < (a + b).len() implies written_property(#[trigger] (a + b)[i]) by {
        if i < a.len() {
            assert((a + b)[i] == a[i]);
        } else {
            assert((a + b)[i] == b[i - a.len()]);
        }
    }
}

proof fn lemma_calendar_add_all(d: CalendarBuilderView, props: Seq<PropertyView>)
    ensures
        add_all(
            d,
            props,
            |d: CalendarBuilderView, p: PropertyView| IcalCalendarBuilder::with_property(d, p),
        ) == (CalendarBuilderView {
            properties: d.properties + props,
            events: d.events,
            alarms: d.alarms,
            todos: d.todos,
            journals: d.journals,
            free_busys: d.free_busys,
            timezones: d.timezones,
        }),
    decreases props.len(),
{
    if props.len() == 0 {
        assert(d.properties + props =~= d.properties);
    } else {
        lemma_calendar_add_all(IcalCalendarBuilder::with_property(d, props[0]), props.drop_first());
        assert(d.properties.push(props[0]) + props.drop_first() =~= d.properties + props);
    }
}

proof fn lemma_calendar_timezone_list(
    d: CalendarBuilderView,
    children: Seq<TimeZoneView>,
    tail: Seq<Item>,
)
    requires
        timezone_list_written(children),
    ensures
        parse_block(
            d,
            oks(timezone_list_lines(children)) + tail,
            |d: CalendarBuilderView, p: PropertyView| IcalCalendarBuilder::with_property(d, p),
            |d: CalendarBuilderView, n: Seq<char>, i: Seq<Item>|
                IcalCalendarBuilder::sub_component(d, n, i),
        ) == parse_block(
            CalendarBuilderView {
                properties: d.properties,
                events: d.events,
                alarms: d.alarms,
                todos: d.todos,
                journals: d.journals,
                free_busys: d.free_busys,
                timezones: d.timezones + children,
            },
            tail,
            |d: CalendarBuilderView, p: PropertyView| IcalCalendarBuilder::with_property(d, p),
            |d: CalendarBuilderView, n: Seq<char>, i: Seq<Item>|
                IcalCalendarBuilder::sub_component(d, n, i),
        ),
    decreases children.len(),
{
    lemma_kind_names();
    if children.len() == 0 {
        assert(timezone_list_lines(children) =~= Seq::<PropertyView>::empty());
        assert(oks(timezone_list_lines(children)) + tail =~= tail);
        assert(d.timezones + children =~= d.timezones);
    } else {
        let c = children[0];
        let rest = children.drop_first();
        assert(timezone_written(c));
        assert(timezone_list_written(rest)) by {
            assert forall|i: int| 0 <= i < rest.len() implies timezone_written(
                #[trigger] rest[i],
            ) by {
                assert(rest[i] == children[i + 1]);
            }
        }
        lemma_timezone_list_front(children);
        let kind = "VTIMEZONE"@;
        let after = oks(timezone_list_lines(rest)) + tail;
        let end = seq![Ok::<PropertyView, PropertyError>(frame_line("END"@, kind))];
        let inner = oks(timezone_body(c)) + end;
        assert(oks(timezone_list_lines(children)) + tail =~= seq![
            Ok::<PropertyView, PropertyError>(frame_line("BEGIN"@, kind)),
        ] + (inner + after));
        assert(inner + after =~= oks(timezone_body(c)) + (end + after));
        lemma_timezone_block(c, after);
        let next = CalendarBuilderView {
            properties: d.properties,
            events: d.events,
            alarms: d.alarms,
            todos: d.todos,
            journals: d.journals,
            free_busys: d.free_busys,
            timezones: d.timezones.push(c),
        };
        assert(IcalCalendarBuilder::sub_component(d, kind, inner + after) == (Parsed {
            result: Ok::<CalendarBuilderView, ParserErrorView>(next),
            rest: after,
        }));
        lemma_parse_child(
            d,
            kind,
            inner,
            after,
            next,
            |d: CalendarBuilderView, p: PropertyView| IcalCalendarBuilder::with_property(d, p),
            |d: CalendarBuilderView, n: Seq<char>, i: Seq<Item>|
                IcalCalendarBuilder::sub_component(d, n, i),
        );
        lemma_calendar_timezone_list(next, rest, tail);
        assert(next.timezones + rest =~= d.timezones + children);
    }
}

proof fn lemma_calendar_event_list(
    d: CalendarBuilderView,
    children: Seq<EventView>,
    tail: Seq<Item>,
)
    requires
        event_list_written(children),
    ensures
        parse_block(
            d,
            oks(event_list_lines(children)) + tail,
            |d: CalendarBuilderView, p: PropertyView| IcalCalendarBuilder::with_property(d, p),
            |d: CalendarBuilderView, n: Seq<char>, i: Seq<Item>|
                IcalCalendarBuilder::sub_component(d, n, i),
        ) == parse_block(
            CalendarBuilderView {
                properties: d.properties,
                events: d.events + children.map_values(|e: EventView| IcalEvent::draft_of(e)),
                alarms: d.alarms,
                todos: d.todos,
                journals: d.journals,
                free_busys: d.free_busys,
                timezones: d.timezones,
            },
            tail,
            |d: CalendarBuilderView, p: PropertyView| IcalCalendarBuilder::with_property(d, p),
            |d: CalendarBuilderView, n: Seq<char>, i: Seq<Item>|
                IcalCalendarBuilder::sub_component(d, n, i),
        ),
    decreases children.len(),
{
    lemma_kind_names();
    if children.len() == 0 {
        assert(event_list_lines(children) =~= Seq::<PropertyView>::empty());
        assert(oks(event_list_lines(children)) + tail =~= tail);
        assert(d.events + children.map_values(|e: EventView| IcalEvent::draft_of(e)) =~= d.events);
    } else {
        let c = children[0];
        let rest = children.drop_first();
        assert(event_written(c));
        assert(event_list_written(rest)) by {
            assert forall|i: int| 0 <= i < rest.len() implies event_written(
                #[trigger] rest[i],
            ) by {
                assert(rest[i] == children[i + 1]);
            }
        }
        lemma_event_list_front(children);
        let kind = "VEVENT"@;
        let after = oks(event_list_lines(rest)) + tail;
        let end = seq![Ok::<PropertyView, PropertyError>(frame_line("END"@, kind))];
        let inner = oks(event_body(c)) + end;
        assert(oks(event_list_lines(children)) + tail =~= seq![
            Ok::<PropertyView, PropertyError>(frame_line("BEGIN"@, kind)),
        ] + (inner + after));
        assert(inner + after =~= oks(event_body(c)) + (end + after));
        lemma_event_block(c, after);
        let next = CalendarBuilderView {
            properties: d.properties,
            events: d.events.push(IcalEvent::draft_of(c)),
            alarms: d.alarms,
            todos: d.todos,
            journals: d.journals,
            free_busys: d.free_busys,
            timezones: d.timezones,
        };
        assert(IcalCalendarBuilder::sub_component(d, kind, inner + after) == (Parsed {
            result: Ok::<CalendarBuilderView, ParserErrorView>(next),
            rest: after,
        }));
        lemma_parse_child(
            d,
            kind,
            inner,
            after,
            next,
            |d: CalendarBuilderView, p: PropertyView| IcalCalendarBuilder::with_property(d, p),
            |d: CalendarBuilderView, n: Seq<char>, i: Seq<Item>|
                IcalCalendarBuilder::sub_component(d, n, i),
        );
        lemma_calendar_event_list(next, rest, tail);
        assert(next.events + rest.map_values(|e: EventView| IcalEvent::draft_of(e)) =~= d.events + children.map_values(|e: EventView| IcalEvent::draft_of(e)));
    }
}

proof fn lemma_calendar_alarm_list(
    d: CalendarBuilderView,
    children: Seq<AlarmView>,
    tail: Seq<Item>,
)
    requires
        alarm_list_written(children),
    ensures
        parse_block(
            d,
            oks(alarm_list_lines(children)) + tail,
            |d: CalendarBuilderView, p: PropertyView| IcalCalendarBuilder::with_property(d, p),
            |d: CalendarBuilderView, n: Seq<char>, i: Seq<Item>|
                IcalCalendarBuilder::sub_component(d, n, i),
        ) == parse_block(
            CalendarBuilderView {
                properties: d.properties,
                events: d.events,
                alarms: d.alarms + children,
                todos: d.todos,
                journals: d.journals,
                free_busys: d.free_busys,
                timezones: d.timezones,
            },
            tail,
            |d: CalendarBuilderView, p: PropertyView| IcalCalendarBuilder::with_property(d, p),
            |d: CalendarBuilderView, n: Seq<char>, i: Seq<Item>|
                IcalCalendarBuilder::sub_component(d, n, i),
        ),
    decreases children.len(),
{
    lemma_kind_names();
    if children.len() == 0 {
        assert(alarm_list_lines(children) =~= Seq::<PropertyView>::empty());
        assert(oks(alarm_list_lines(children)) + tail =~= tail);
        assert(d.alarms + children =~= d.alarms);
    } else {
        let c = children[0];
        let rest = children.drop_first();
        assert(alarm_written(c));
        assert(alarm_list_written(rest)) by {
            assert forall|i: int| 0 <= i < rest.len() implies alarm_written(
                #[trigger] rest[i],
            ) by {
                assert(rest[i] == children[i + 1]);
            }
        }
        lemma_alarm_list_front(children);
        let kind = "VALARM"@;
        let after = oks(alarm_list_lines(rest)) + tail;
        let end = seq![Ok::<PropertyView, PropertyError>(frame_line("END"@, kind))];
        let inner = oks(alarm_body(c)) + end;
        assert(oks(alarm_list_lines(children)) + tail =~= seq![
            Ok::<PropertyView, PropertyError>(frame_line("BEGIN"@, kind)),
        ] + (inner + after));
        assert(inner + after =~= oks(alarm_body(c)) + (end + after));
        lemma_alarm_block(c, after);
        let next = CalendarBuilderView {
            properties: d.properties,
            events: d.events,
            alarms: d.alarms.push(c),
            todos: d.todos,
            journals: d.journals,
            free_busys: d.free_busys,
            timezones: d.timezones,
        };
        assert(IcalCalendarBuilder::sub_component(d, kind, inner + after) == (Parsed {
            result: Ok::<CalendarBuilderView, ParserErrorView>(next),
            rest: after,
        }));
        lemma_parse_child(
            d,
            kind,
            inner,
            after,
            next,
            |d: CalendarBuilderView, p: PropertyView| IcalCalendarBuilder::with_property(d, p),
            |d: CalendarBuilderView, n: Seq<char>, i: Seq<Item>|
                IcalCalendarBuilder::sub_component(d, n, i),
        );
        lemma_calendar_alarm_list(next, rest, tail);
        assert(next.alarms + rest =~= d.alarms + children);
    }
}

proof fn lemma_calendar_todo_list(
    d: CalendarBuilderView,
    children: Seq<TodoView>,
    tail: Seq<Item>,
)
    requires
        todo_list_written(children),
    ensures
        parse_block(
            d,
            oks(todo_list_lines(children)) + tail,
            |d: CalendarBuilderView, p: PropertyView| IcalCalendarBuilder::with_property(d, p),
            |d: CalendarBuilderView, n: Seq<char>, i: Seq<Item>|
                IcalCalendarBuilder::sub_component(d, n, i),
        ) == parse_block(
            CalendarBuilderView {
                properties: d.properties,
                events: d.events,
                alarms: d.alarms,
                todos: d.todos + children,
                journals: d.journals,
                free_busys: d.free_busys,
                timezones: d.timezones,
            },
            tail,
            |d: CalendarBuilderView, p: PropertyView| IcalCalendarBuilder::with_property(d, p),
            |d: CalendarBuilderView, n: Seq<char>, i: Seq<Item>|
                IcalCalendarBuilder::sub_component(d, n, i),
        ),
    decreases children.len(),
{
    lemma_kind_names();
    if children.len() == 0 {
        assert(todo_list_lines(children) =~= Seq::<PropertyView>::empty());
        assert(oks(todo_list_lines(children)) + tail =~= tail);
        assert(d.todos + children =~= d.todos);
    } else {
        let c = children[0];
        let rest = children.drop_first();
        assert(todo_written(c));
        assert(todo_list_written(rest)) by {
            assert forall|i: int| 0 <= i < rest.len() implies todo_written(
                #[trigger] rest[i],
            ) by {
                assert(rest[i] == children[i + 1]);
            }
        }
        lemma_todo_list_front(children);
        let kind = "VTODO"@;
        let after = oks(todo_list_lines(rest)) + tail;
        let end = seq![Ok::<PropertyView, PropertyError>(frame_line("END"@, kind))];
        let inner = oks(todo_body(c)) + end;
        assert(oks(todo_list_lines(children)) + tail =~= seq![
            Ok::<PropertyView, PropertyError>(frame_line("BEGIN"@, kind)),
        ] + (inner + after));
        assert(inner + after =~= oks(todo_body(c)) + (end + after));
        lemma_todo_block(c, after);
        let next = CalendarBuilderView {
            properties: d.properties,
            events: d.events,
            alarms: d.alarms,
            todos: d.todos.push(c),
            journals: d.journals,
            free_busys: d.free_busys,
            timezones: d.timezones,
        };
        assert(IcalCalendarBuilder::sub_component(d, kind, inner + after) == (Parsed {
            result: Ok::<CalendarBuilderView, ParserErrorView>(next),
            rest: after,
        }));
        lemma_parse_child(
            d,
            kind,
            inner,
            after,
            next,
            |d: CalendarBuilderView, p: PropertyView| IcalCalendarBuilder::with_property(d, p),
            |d: CalendarBuilderView, n: Seq<char>, i: Seq<Item>|
                IcalCalendarBuilder::sub_component(d, n, i),
        );
        lemma_calendar_todo_list(next, rest, tail);
        assert(next.todos + rest =~= d.todos + children);
    }
}

proof fn lemma_calendar_journal_list(
    d: CalendarBuilderView,
    children: Seq<JournalView>,
    tail: Seq<Item>,
)
    requires
        journal_list_written(children),
    ensures
        parse_block(
            d,
            oks(journal_list_lines(children)) + tail,
            |d: CalendarBuilderView, p: PropertyView| IcalCalendarBuilder::with_property(d, p),
            |d: CalendarBuilderView, n: Seq<char>, i: Seq<Item>|
                IcalCalendarBuilder::sub_component(d, n, i),
        ) == parse_block(
            CalendarBuilderView {
                properties: d.properties,
                events: d.events,
                alarms: d.alarms,
                todos: d.todos,
                journals: d.journals + children,
                free_busys: d.free_busys,
                timezones: d.timezones,
            },
            tail,
            |d: CalendarBuilderView, p: PropertyView| IcalCalendarBuilder::with_property(d, p),
            |d: CalendarBuilderView, n: Seq<char>, i: Seq<Item>|
                IcalCalendarBuilder::sub_component(d, n, i),
        ),
    decreases children.len(),
{
    lemma_kind_names();
    if children.len() == 0 {
        assert(journal_list_lines(children) =~= Seq::<PropertyView>::empty());
        assert(oks(journal_list_lines(children)) + tail =~= tail);
        assert(d.journals + children =~= d.journals);
    } else {
        let c = children[0];
        let rest = children.drop_first();
        assert(journal_written(c));
        assert(journal_list_written(rest)) by {
            assert forall|i: int| 0 <= i < rest.len() implies journal_written(
                #[trigger] rest[i],
            ) by {
                assert(rest[i] == children[i + 1]);
            }
        }
        lemma_journal_list_front(children);
        let kind = "VJOURNAL"@;
        let after = oks(journal_list_lines(rest)) + tail;
        let end = seq![Ok::<PropertyView, PropertyError>(frame_line("END"@, kind))];
        let inner = oks(journal_body(c)) + end;
        assert(oks(journal_list_lines(children)) + tail =~= seq![
            Ok::<PropertyView, PropertyError>(frame_line("BEGIN"@, kind)),
        ] + (inner + after));
        assert(inner + after =~= oks(journal_body(c)) + (end + after));
        lemma_journal_block(c, after);
        let next = CalendarBuilderView {
            properties: d.properties,
            events: d.events,
            alarms: d.alarms,
            todos: d.todos,
            journals: d.journals.push(c),
            free_busys: d.free_busys,
            timezones: d.timezones,
        };
        assert(IcalCalendarBuilder::sub_component(d, kind, inner + after) == (Parsed {
            result: Ok::<CalendarBuilderView, ParserErrorView>(next),
            rest: after,
        }));
        lemma_parse_child(
            d,
            kind,
            inner,
            after,
            next,
            |d: CalendarBuilderView, p: PropertyView| IcalCalendarBuilder::with_property(d, p),
            |d: CalendarBuilderView, n: Seq<char>, i: Seq<Item>|
                IcalCalendarBuilder::sub_component(d, n, i),
        );
        lemma_calendar_journal_list(next, rest, tail);
        assert(next.journals + rest =~= d.journals + children);
    }
}

proof fn lemma_calendar_free_busy_list(
    d: CalendarBuilderView,
    children: Seq<FreeBusyView>,
    tail: Seq<Item>,
)
    requires
        free_busy_list_written(children),
    ensures
        parse_block(
            d,
            oks(free_busy_list_lines(children)) + tail,
            |d: CalendarBuilderView, p: PropertyView| IcalCalendarBuilder::with_property(d, p),
            |d: CalendarBuilderView, n: Seq<char>, i: Seq<Item>|
                IcalCalendarBuilder::sub_component(d, n, i),
        ) == parse_block(
            CalendarBuilderView {
                properties: d.properties,
                events: d.events,
                alarms: d.alarms,
                todos: d.todos,
                journals: d.journals,
                free_busys: d.free_busys + children,
                timezones: d.timezones,
            },
            tail,
            |d: CalendarBuilderView, p: PropertyView| IcalCalendarBuilder::with_property(d, p),
            |d: CalendarBuilderView, n: Seq<char>, i: Seq<Item>|
                IcalCalendarBuilder::sub_component(d, n, i),
        ),
    decreases children.len(),
{
    lemma_kind_names();
    if children.len() == 0 {
        assert(free_busy_list_lines(children) =~= Seq::<PropertyView>::empty());
        assert(oks(free_busy_list_lines(children)) + tail =~= tail);
        assert(d.free_busys + children =~= d.free_busys);
    } else {
        let c = children[0];
        let rest = children.drop_first();
        assert(free_busy_written(c));
        assert(free_busy_list_written(rest)) by {
            assert forall|i: int| 0 <= i < rest.len() implies free_busy_written(
                #[trigger] rest[i],
            ) by {
                assert(rest[i] == children[i + 1]);
            }
        }
        lemma_free_busy_list_front(children);
        let kind = "VFREEBUSY"@;
        let after = oks(free_busy_list_lines(rest)) + tail;
        let end = seq![Ok::<PropertyView, PropertyError>(frame_line("END"@, kind))];
        let inner = oks(free_busy_body(c)) + end;
        assert(oks(free_busy_list_lines(children)) + tail =~= seq![
            Ok::<PropertyView, PropertyError>(frame_line("BEGIN"@, kind)),
        ] + (inner + after));
        assert(inner + after =~= oks(free_busy_body(c)) + (end + after));
        lemma_free_busy_block(c, after);
        let next = CalendarBuilderView {
            properties: d.properties,
            events: d.events,
            alarms: d.alarms,
            todos: d.todos,
            journals: d.journals,
            free_busys: d.free_busys.push(c),
            timezones: d.timezones,
        };
        assert(IcalCalendarBuilder::sub_component(d, kind, inner + after) == (Parsed {
            result: Ok::<CalendarBuilderView, ParserErrorView>(next),
            rest: after,
        }));
        lemma_parse_child(
            d,
            kind,
            inner,
            after,
            next,
            |d: CalendarBuilderView, p: PropertyView| IcalCalendarBuilder::with_property(d, p),
            |d: CalendarBuilderView, n: Seq<char>, i: Seq<Item>|
                IcalCalendarBuilder::sub_component(d, n, i),
        );
        lemma_calendar_free_busy_list(next, rest, tail);
        assert(next.free_busys + rest =~= d.free_busys + children);
    }
}

/// The text of a calendar is the text of its lines, and its lines are written
/// properties.
pub proof fn lemma_calendar_text(v: CalendarView)
    requires
        calendar_written(v),
    ensures
        <IcalCalendar as Emitter>::generated(v) == generated_properties(calendar_lines(v)),
        all_written(calendar_lines(v)),
{
    lemma_kind_names();
    lemma_timezone_list_text(v.timezones);
    lemma_event_list_text(v.events);
    lemma_alarm_list_text(v.alarms);
    lemma_todo_list_text(v.todos);
    lemma_journal_list_text(v.journals);
    lemma_free_busy_list_text(v.free_busys);
    let l0 = v.properties;
    let l1 = l0 + timezone_list_lines(v.timezones);
    let l2 = l1 + event_list_lines(v.events);
    let l3 = l2 + alarm_list_lines(v.alarms);
    let l4 = l3 + todo_list_lines(v.todos);
    let l5 = l4 + journal_list_lines(v.journals);
    let l6 = l5 + free_busy_list_lines(v.free_busys);
    lemma_generated_concat(l0, timezone_list_lines(v.timezones));
    lemma_generated_concat(l1, event_list_lines(v.events));
    lemma_generated_concat(l2, alarm_list_lines(v.alarms));
    lemma_generated_concat(l3, todo_list_lines(v.todos));
    lemma_generated_concat(l4, journal_list_lines(v.journals));
    lemma_generated_concat(l5, free_busy_list_lines(v.free_busys));
    assert(all_written(l0)) by {
        assert forall|i: int| 0 <= i < l0.len() implies written_property(#[trigger] l0[i]) by {
            assert(body_property(v.properties[i]));
        }
    }
    lemma_written_concat(l0, timezone_list_lines(v.timezones));
    lemma_written_concat(l1, event_list_lines(v.events));
    lemma_written_concat(l2, alarm_list_lines(v.alarms));
    lemma_written_concat(l3, todo_list_lines(v.todos));
    lemma_written_concat(l4, journal_list_lines(v.journals));
    lemma_written_concat(l5, free_busy_list_lines(v.free_busys));
    assert(l6 == calendar_body_lines(v));
    assert(calendar_body(v) == generated_properties(l6));
    lemma_block_text("VCALENDAR"@, l6);
    let begin = seq![frame_line("BEGIN"@, "VCALENDAR"@)];
    let end = seq![frame_line("END"@, "VCALENDAR"@)];
    assert(all_written(begin));
    assert(all_written(end));
    lemma_written_concat(begin, l6);
    lemma_written_concat(begin + l6, end);
}

/// Reading the lines in the block of a calendar and its `END` line, into an
/// empty draft, gives the draft of the calendar, and leaves what stands
/// behind.
pub proof fn lemma_calendar_block(v: CalendarView, tail: Seq<Item>)
    requires
        calendar_written(v),
    ensures
        parse_block(
            IcalCalendarBuilder::empty(),
            oks(calendar_body_lines(v)) + (seq![
                Ok::<PropertyView, PropertyError>(frame_line("END"@, "VCALENDAR"@)),
            ] + tail),
            |d: CalendarBuilderView, p: PropertyView| IcalCalendarBuilder::with_property(d, p),
            |d: CalendarBuilderView, n: Seq<char>, i: Seq<Item>| IcalCalendarBuilder::sub_component(d, n, i),
        ) == (Parsed {
            result: Ok::<CalendarBuilderView, ParserErrorView>(IcalCalendar::draft_of(v)),
            rest: tail,
        }),
{
    let start = IcalCalendarBuilder::empty();
    let drafts = v.events.map_values(|e: EventView| IcalEvent::draft_of(e));
    let t6 = seq![Ok::<PropertyView, PropertyError>(frame_line("END"@, "VCALENDAR"@))] + tail;
    let t5 = oks(free_busy_list_lines(v.free_busys)) + t6;
    let t4 = oks(journal_list_lines(v.journals)) + t5;
    let t3 = oks(todo_list_lines(v.todos)) + t4;
    let t2 = oks(alarm_list_lines(v.alarms)) + t3;
    let t1 = oks(event_list_lines(v.events)) + t2;
    let t0 = oks(timezone_list_lines(v.timezones)) + t1;
    let l0 = v.properties;
    let l1 = l0 + timezone_list_lines(v.timezones);
    let l2 = l1 + event_list_lines(v.events);
    let l3 = l2 + alarm_list_lines(v.alarms);
    let l4 = l3 + todo_list_lines(v.todos);
    let l5 = l4 + journal_list_lines(v.journals);
    lemma_oks_concat(l0, timezone_list_lines(v.timezones));
    lemma_oks_concat(l1, event_list_lines(v.events));
    lemma_oks_concat(l2, alarm_list_lines(v.alarms));
    lemma_oks_concat(l3, todo_list_lines(v.todos));
    lemma_oks_concat(l4, journal_list_lines(v.journals));
    lemma_oks_concat(l5, free_busy_list_lines(v.free_busys));
    assert(oks(calendar_body_lines(v)) + t6 =~= oks(v.properties) + t0);
    assert forall|i: int| 0 <= i < v.properties.len() implies (#[trigger] v.properties[i]).name
        != "BEGIN"@ && v.properties[i].name != "END"@ by {
        assert(body_property(v.properties[i]));
    }
    lemma_parse_props(
        start,
        v.properties,
        t0,
        |d: CalendarBuilderView, p: PropertyView| IcalCalendarBuilder::with_property(d, p),
        |d: CalendarBuilderView, n: Seq<char>, i: Seq<Item>| IcalCalendarBuilder::sub_component(d, n, i),
    );
    lemma_calendar_add_all(start, v.properties);
    assert(Seq::<PropertyView>::empty() + v.properties =~= v.properties);
    let d0 = CalendarBuilderView {
        properties: v.properties,
        events: Seq::empty(),
        alarms: Seq::empty(),
        todos: Seq::empty(),
        journals: Seq::empty(),
        free_busys: Seq::empty(),
        timezones: Seq::empty(),
    };
    lemma_calendar_timezone_list(d0, v.timezones, t1);
    assert(Seq::<TimeZoneView>::empty() + v.timezones =~= v.timezones);
    let d1 = CalendarBuilderView {
        properties: d0.properties,
        events: d0.events,
        alarms: d0.alarms,
        todos: d0.todos,
        journals: d0.journals,
        free_busys: d0.free_busys,
        timezones: v.timezones,
    };
    lemma_calendar_event_list(d1, v.events, t2);
    assert(Seq::<EventBuilderView>::empty() + drafts =~= drafts);
    let d2 = CalendarBuilderView {
        properties: d1.properties,
        events: drafts,
        alarms: d1.alarms,
        todos: d1.todos,
        journals: d1.journals,
        free_busys: d1.free_busys,
        timezones: d1.timezones,
    };
    lemma_calendar_alarm_list(d2, v.alarms, t3);
    assert(Seq::<AlarmView>::empty() + v.alarms =~= v.alarms);
    let d3 = CalendarBuilderView {
        properties: d2.properties,
        events: d2.events,
        alarms: v.alarms,
        todos: d2.todos,
        journals: d2.journals,
        free_busys: d2.free_busys,
        timezones: d2.timezones,
    };
    lemma_calendar_todo_list(d3, v.todos, t4);
    assert(Seq::<TodoView>::empty() + v.todos =~= v.todos);
    let d4 = CalendarBuilderView {
        properties: d3.properties,
        events: d3.events,
        alarms: d3.alarms,
        todos: v.todos,
        journals: d3.journals,
        free_busys: d3.free_busys,
        timezones: d3.timezones,
    };
    lemma_calendar_journal_list(d4, v.journals, t5);
    assert(Seq::<JournalView>::empty() + v.journals =~= v.journals);
    let d5 = CalendarBuilderView {
        properties: d4.properties,
        events: d4.events,
        alarms: d4.alarms,
        todos: d4.todos,
        journals: v.journals,
        free_busys: d4.free_busys,
        timezones: d4.timezones,
    };
    lemma_calendar_free_busy_list(d5, v.free_busys, t6);
    assert(Seq::<FreeBusyView>::empty() + v.free_busys =~= v.free_busys);
    let d6 = CalendarBuilderView {
        properties: d5.properties,
        events: d5.events,
        alarms: d5.alarms,
        todos: d5.todos,
        journals: d5.journals,
        free_busys: v.free_busys,
        timezones: d5.timezones,
    };
    assert(d6 == IcalCalendar::draft_of(v));
    lemma_parse_end(
        d6,
        "VCALENDAR"@,
        tail,
        |d: CalendarBuilderView, p: PropertyView| IcalCalendarBuilder::with_property(d, p),
        |d: CalendarBuilderView, n: Seq<char>, i: Seq<Item>| IcalCalendarBuilder::sub_component(d, n, i),
    );
}

/// The draft of a checked calendar is the draft that was checked: the check
/// changes no property and no nested component.
pub proof fn lemma_checked_draft(d: CalendarBuilderView, v: CalendarView)
    requires
        calendar_checked(d) == Ok::<CalendarView, ParserErrorView>(v),
    ensures
        IcalCalendar::draft_of(v) == d,
{
    let timezones = built_all::<IcalTimeZone<false>>(d.timezones, Map::empty(), Seq::empty())->Ok_0;
    let table = timezone_table(timezones, timezones.len() as int);
    lemma_built_all::<IcalTimeZone<false>>(d.timezones, Map::empty(), Seq::empty());
    lemma_built_all::<IcalEventBuilder>(d.events, table, Seq::empty());
    lemma_built_all::<IcalTodo<false>>(d.todos, table, Seq::empty());
    lemma_built_all::<IcalJournal<false>>(d.journals, table, Seq::empty());
    assert(v.timezones =~= d.timezones) by {
        assert forall|i: int| 0 <= i < d.timezones.len() implies v.timezones[i] == d.timezones[i] by {
            assert(IcalTimeZone::<false>::built(d.timezones[i], Map::empty()) is Ok);
        }
    }
    assert(v.todos =~= d.todos) by {
        assert forall|i: int| 0 <= i < d.todos.len() implies v.todos[i] == d.todos[i] by {
            assert(IcalTodo::<false>::built(d.todos[i], table) is Ok);
        }
    }
    assert(v.journals =~= d.journals) by {
        assert forall|i: int| 0 <= i < d.journals.len() implies v.journals[i] == d.journals[i] by {
            assert(IcalJournal::<false>::built(d.journals[i], table) is Ok);
        }
    }
    let drafts = v.events.map_values(|e: EventView| IcalEvent::draft_of(e));
    assert(drafts =~= d.events) by {
        assert forall|i: int| 0 <= i < d.events.len() implies drafts[i] == d.events[i] by {
            assert(IcalEventBuilder::built(d.events[i], table) is Ok);
        }
    }
}

/// A calendar that is written and read again is the same calendar. Let `v`
/// be the calendar that the check gives for a draft, and let it hold only
/// body properties, in itself and in every component nested in it. Then the
/// text of `v`, as bytes, holds exactly one calendar, which is `v`: the
/// same properties in the same order, and the same nested components in the
/// same order with the same properties, at every level.
pub proof fn lemma_calendar_round_trip(d: CalendarBuilderView, v: CalendarView)
    requires
        calendar_checked(d) == Ok::<CalendarView, ParserErrorView>(v),
        calendar_written(v),
    ensures
        next_component::<IcalCalendarBuilder>(
            properties_of(encode_utf8(<IcalCalendar as Emitter>::generated(v))),
        ) == (Some(Ok::<CalendarView, ParserErrorView>(v)), Seq::<Item>::empty()),
{
    lemma_kind_names();
    lemma_calendar_text(v);
    lemma_block_items(
        "VCALENDAR"@,
        calendar_body_lines(v),
        <IcalCalendar as Emitter>::generated(v),
    );
    lemma_upper_of_capitals("VCALENDAR"@);
    assert(seq!["VCALENDAR"@][0] == "VCALENDAR"@);
    assert(is_header::<IcalCalendarBuilder>(frame_line("BEGIN"@, "VCALENDAR"@)));
    lemma_calendar_block(v, Seq::<Item>::empty());
    lemma_checked_draft(d, v);
}

/// The lines of the instances of an object: those of the main instance, then
/// those of the overrides.
pub open spec fn inner_lines(v: CalendarInnerDataView) -> Seq<PropertyView> {
    match v {
        CalendarInnerDataView::Event(main, overrides) => event_list_lines(seq![main] + overrides),
        CalendarInnerDataView::Todo(main, overrides) => todo_list_lines(seq![main] + overrides),
        CalendarInnerDataView::Journal(main, overrides) => journal_list_lines(
            seq![main] + overrides,
        ),
    }
}

/// Whether the instances of an object hold only what is read back as it was
/// written.
pub open spec fn inner_written(v: CalendarInnerDataView) -> bool {
    match v {
        CalendarInnerDataView::Event(main, overrides) => event_list_written(
            seq![main] + overrides,
        ),
        CalendarInnerDataView::Todo(main, overrides) => todo_list_written(seq![main] + overrides),
        CalendarInnerDataView::Journal(main, overrides) => journal_list_written(
            seq![main] + overrides,
        ),
    }
}

/// The lines in the block of a calendar object: its properties, then the
/// lines of its timezone definitions and of its instances.
pub open spec fn object_body_lines(v: CalendarObjectView) -> Seq<PropertyView> {
    v.properties + timezone_list_lines(v.timezones) + inner_lines(v.inner)
}

/// The lines of a calendar object: its block between its `BEGIN` and its
/// `END` line.
pub open spec fn object_lines(v: CalendarObjectView) -> Seq<PropertyView> {
    framed("VCALENDAR"@, object_body_lines(v))
}

/// Whether a calendar object holds only what is read back as it was written:
/// body properties, in itself and in every component that is nested in it.
pub open spec fn object_written(v: CalendarObjectView) -> bool {
    &&& forall|i: int| 0 <= i < v.properties.len() ==> body_property(#[trigger] v.properties[i])
    &&& timezone_list_written(v.timezones)
    &&& inner_written(v.inner)
}

proof fn lemma_generated_front<T: Emitter>(items: Seq<T::V>)
    requires
        items.len() > 0,
    ensures
        generated_all::<T>(items) == T::generated(items[0]) + generated_all::<T>(
            items.drop_first(),
        ),
    decreases items.len(),
{
    if items.len() == 1 {
        assert(items.drop_last() =~= Seq::<T::V>::empty());
        assert(items.drop_first() =~= Seq::<T::V>::empty());
        assert(generated_all::<T>(items.drop_last()) =~= Seq::<char>::empty());
        assert(generated_all::<T>(items.drop_first()) =~= Seq::<char>::empty());
        assert(items.last() == items[0]);
        assert(generated_all::<T>(items) =~= T::generated(items[0]) + generated_all::<T>(
            items.drop_first(),
        ));
    } else {
        let front = items.drop_last();
        lemma_generated_front::<T>(front);
        assert(front[0] == items[0]);
        assert(front.drop_first() =~= items.drop_first().drop_last());
        assert(items.drop_first().last() == items.last());
        assert(generated_all::<T>(items) =~= T::generated(items[0]) + generated_all::<T>(
            items.drop_first(),
        ));
    }
}

/// The text of the instances of an object is the text of their lines, and
/// their lines are written properties.
proof fn lemma_inner_text(v: CalendarInnerDataView)
    requires
        inner_written(v),
    ensures
        <CalendarInnerData as Emitter>::generated(v) == generated_properties(inner_lines(v)),
        all_written(inner_lines(v)),
{
    match v {
        CalendarInnerDataView::Event(main, overrides) => {
            let all = seq![main] + overrides;
            assert(all.drop_first() =~= overrides);
            lemma_generated_front::<IcalEvent>(all);
            lemma_event_list_text(all);
        },
        CalendarInnerDataView::Todo(main, overrides) => {
            let all = seq![main] + overrides;
            assert(all.drop_first() =~= overrides);
            lemma_generated_front::<IcalTodo<true>>(all);
            lemma_todo_list_text(all);
        },
        CalendarInnerDataView::Journal(main, overrides) => {
            let all = seq![main] + overrides;
            assert(all.drop_first() =~= overrides);
            lemma_generated_front::<IcalJournal<true>>(all);
            lemma_journal_list_text(all);
        },
    }
}

proof fn lemma_object_add_all(d: CalendarObjectBuilderView, props: Seq<PropertyView>)
    ensures
        add_all(
            d,
            props,
            |d: CalendarObjectBuilderView, p: PropertyView| IcalCalendarObjectBuilder::with_property(d, p),
        ) == (CalendarObjectBuilderView {
            properties: d.properties + props,
            events: d.events,
            todos: d.todos,
            journals: d.journals,
            timezones: d.timezones,
        }),
    decreases props.len(),
{
    if props.len() == 0 {
        assert(d.properties + props =~= d.properties);
    } else {
        lemma_object_add_all(IcalCalendarObjectBuilder::with_property(d, props[0]), props.drop_first());
        assert(d.properties.push(props[0]) + props.drop_first() =~= d.properties + props);
    }
}

proof fn lemma_object_timezone_list(
    d: CalendarObjectBuilderView,
    children: Seq<TimeZoneView>,
    tail: Seq<Item>,
)
    requires
        timezone_list_written(children),
    ensures
        parse_block(
            d,
            oks(timezone_list_lines(children)) + tail,
            |d: CalendarObjectBuilderView, p: PropertyView|
                IcalCalendarObjectBuilder::with_property(d, p),
            |d: CalendarObjectBuilderView, n: Seq<char>, i: Seq<Item>|
                IcalCalendarObjectBuilder::sub_component(d, n, i),
        ) == parse_block(
            CalendarObjectBuilderView {
                properties: d.properties,
                events: d.events,
                todos: d.todos,
                journals: d.journals,
                timezones: d.timezones + children,
            },
            tail,
            |d: CalendarObjectBuilderView, p: PropertyView|
                IcalCalendarObjectBuilder::with_property(d, p),
            |d: CalendarObjectBuilderView, n: Seq<char>, i: Seq<Item>|
                IcalCalendarObjectBuilder::sub_component(d, n, i),
        ),
    decreases children.len(),
{
    lemma_kind_names();
    if children.len() == 0 {
        assert(timezone_list_lines(children) =~= Seq::<PropertyView>::empty());
        assert(oks(timezone_list_lines(children)) + tail =~= tail);
        assert(d.timezones + children =~= d.timezones);
    } else {
        let c = children[0];
        let rest = children.drop_first();
        assert(timezone_written(c));
        assert(timezone_list_written(rest)) by {
            assert forall|i: int| 0 <= i < rest.len() implies timezone_written(
                #[trigger] rest[i],
            ) by {
                assert(rest[i] == children[i + 1]);
            }
        }
        lemma_timezone_list_front(children);
        let kind = "VTIMEZONE"@;
        let after = oks(timezone_list_lines(rest)) + tail;
        let end = seq![Ok::<PropertyView, PropertyError>(frame_line("END"@, kind))];
        let inner = oks(timezone_body(c)) + end;
        assert(oks(timezone_list_lines(children)) + tail =~= seq![
            Ok::<PropertyView, PropertyError>(frame_line("BEGIN"@, kind)),
        ] + (inner + after));
        assert(inner + after =~= oks(timezone_body(c)) + (end + after));
        lemma_timezone_block(c, after);
        let next = CalendarObjectBuilderView {
            properties: d.properties,
            events: d.events,
            todos: d.todos,
            journals: d.journals,
            timezones: d.timezones.push(c),
        };
        assert(IcalCalendarObjectBuilder::sub_component(d, kind, inner + after) == (Parsed {
            result: Ok::<CalendarObjectBuilderView, ParserErrorView>(next),
            rest: after,
        }));
        lemma_parse_child(
            d,
            kind,
            inner,
            after,
            next,
            |d: CalendarObjectBuilderView, p: PropertyView|
                IcalCalendarObjectBuilder::with_property(d, p),
            |d: CalendarObjectBuilderView, n: Seq<char>, i: Seq<Item>|
                IcalCalendarObjectBuilder::sub_component(d, n, i),
        );
        lemma_object_timezone_list(next, rest, tail);
        assert(next.timezones + rest =~= d.timezones + children);
    }
}

proof fn lemma_object_event_list(
    d: CalendarObjectBuilderView,
    children: Seq<EventView>,
    tail: Seq<Item>,
)
    requires
        event_list_written(children),
    ensures
        parse_block(
            d,
            oks(event_list_lines(children)) + tail,
            |d: CalendarObjectBuilderView, p: PropertyView|
                IcalCalendarObjectBuilder::with_property(d, p),
            |d: CalendarObjectBuilderView, n: Seq<char>, i: Seq<Item>|
                IcalCalendarObjectBuilder::sub_component(d, n, i),
        ) == parse_block(
            CalendarObjectBuilderView {
                properties: d.properties,
                events: d.events + children.map_values(|e: EventView| IcalEvent::draft_of(e)),
                todos: d.todos,
                journals: d.journals,
                timezones: d.timezones,
            },
            tail,
            |d: CalendarObjectBuilderView, p: PropertyView|
                IcalCalendarObjectBuilder::with_property(d, p),
            |d: CalendarObjectBuilderView, n: Seq<char>, i: Seq<Item>|
                IcalCalendarObjectBuilder::sub_component(d, n, i),
        ),
    decreases children.len(),
{
    lemma_kind_names();
    if children.len() == 0 {
        assert(event_list_lines(children) =~= Seq::<PropertyView>::empty());
        assert(oks(event_list_lines(children)) + tail =~= tail);
        assert(d.events + children.map_values(|e: EventView| IcalEvent::draft_of(e)) =~= d.events);
    } else {
        let c = children[0];
        let rest = children.drop_first();
        assert(event_written(c));
        assert(event_list_written(rest)) by {
            assert forall|i: int| 0 <= i < rest.len() implies event_written(
                #[trigger] rest[i],
            ) by {
                assert(rest[i] == children[i + 1]);
            }
        }
        lemma_event_list_front(children);
        let kind = "VEVENT"@;
        let after = oks(event_list_lines(rest)) + tail;
        let end = seq![Ok::<PropertyView, PropertyError>(frame_line("END"@, kind))];
        let inner = oks(event_body(c)) + end;
        assert(oks(event_list_lines(children)) + tail =~= seq![
            Ok::<PropertyView, PropertyError>(frame_line("BEGIN"@, kind)),
        ] + (inner + after));
        assert(inner + after =~= oks(event_body(c)) + (end + after));
        lemma_event_block(c, after);
        let next = CalendarObjectBuilderView {
            properties: d.properties,
            events: d.events.push(IcalEvent::draft_of(c)),
            todos: d.todos,
            journals: d.journals,
            timezones: d.timezones,
        };
        assert(IcalCalendarObjectBuilder::sub_component(d, kind, inner + after) == (Parsed {
            result: Ok::<CalendarObjectBuilderView, ParserErrorView>(next),
            rest: after,
        }));
        lemma_parse_child(
            d,
            kind,
            inner,
            after,
            next,
            |d: CalendarObjectBuilderView, p: PropertyView|
                IcalCalendarObjectBuilder::with_property(d, p),
            |d: CalendarObjectBuilderView, n: Seq<char>, i: Seq<Item>|
                IcalCalendarObjectBuilder::sub_component(d, n, i),
        );
        lemma_object_event_list(next, rest, tail);
        assert(next.events + rest.map_values(|e: EventView| IcalEvent::draft_of(e)) =~= d.events + children.map_values(|e: EventView| IcalEvent::draft_of(e)));
    }
}

proof fn lemma_object_todo_list(
    d: CalendarObjectBuilderView,
    children: Seq<TodoView>,
    tail: Seq<Item>,
)
    requires
        todo_list_written(children),
    ensures
        parse_block(
            d,
            oks(todo_list_lines(children)) + tail,
            |d: CalendarObjectBuilderView, p: PropertyView|
                IcalCalendarObjectBuilder::with_property(d, p),
            |d: CalendarObjectBuilderView, n: Seq<char>, i: Seq<Item>|
                IcalCalendarObjectBuilder::sub_component(d, n, i),
        ) == parse_block(
            CalendarObjectBuilderView {
                properties: d.properties,
                events: d.events,
                todos: d.todos + children,
                journals: d.journals,
                timezones: d.timezones,
            },
            tail,
            |d: CalendarObjectBuilderView, p: PropertyView|
                IcalCalendarObjectBuilder::with_property(d, p),
            |d: CalendarObjectBuilderView, n: Seq<char>, i: Seq<Item>|
                IcalCalendarObjectBuilder::sub_component(d, n, i),
        ),
    decreases children.len(),
{
    lemma_kind_names();
    if children.len() == 0 {
        assert(todo_list_lines(children) =~= Seq::<PropertyView>::empty());
        assert(oks(todo_list_lines(children)) + tail =~= tail);
        assert(d.todos + children =~= d.todos);
    } else {
        let c = children[0];
        let rest = children.drop_first();
        assert(todo_written(c));
        assert(todo_list_written(rest)) by {
            assert forall|i: int| 0 <= i < rest.len() implies todo_written(
                #[trigger] rest[i],
            ) by {
                assert(rest[i] == children[i + 1]);
            }
        }
        lemma_todo_list_front(children);
        let kind = "VTODO"@;
        let after = oks(todo_list_lines(rest)) + tail;
        let end = seq![Ok::<PropertyView, PropertyError>(frame_line("END"@, kind))];
        let inner = oks(todo_body(c)) + end;
        assert(oks(todo_list_lines(children)) + tail =~= seq![
            Ok::<PropertyView, PropertyError>(frame_line("BEGIN"@, kind)),
        ] + (inner + after));
        assert(inner + after =~= oks(todo_body(c)) + (end + after));
        lemma_todo_block(c, after);
        let next = CalendarObjectBuilderView {
            properties: d.properties,
            events: d.events,
            todos: d.todos.push(c),
            journals: d.journals,
            timezones: d.timezones,
        };
        assert(IcalCalendarObjectBuilder::sub_component(d, kind, inner + after) == (Parsed {
            result: Ok::<CalendarObjectBuilderView, ParserErrorView>(next),
            rest: after,
        }));
        lemma_parse_child(
            d,
            kind,
            inner,
            after,
            next,
            |d: CalendarObjectBuilderView, p: PropertyView|
                IcalCalendarObjectBuilder::with_property(d, p),
            |d: CalendarObjectBuilderView, n: Seq<char>, i: Seq<Item>|
                IcalCalendarObjectBuilder::sub_component(d, n, i),
        );
        lemma_object_todo_list(next, rest, tail);
        assert(next.todos + rest =~= d.todos + children);
    }
}

proof fn lemma_object_journal_list(
    d: CalendarObjectBuilderView,
    children: Seq<JournalView>,
    tail: Seq<Item>,
)
    requires
        journal_list_written(children),
    ensures
        parse_block(
            d,
            oks(journal_list_lines(children)) + tail,
            |d: CalendarObjectBuilderView, p: PropertyView|
                IcalCalendarObjectBuilder::with_property(d, p),
            |d: CalendarObjectBuilderView, n: Seq<char>, i: Seq<Item>|
                IcalCalendarObjectBuilder::sub_component(d, n, i),
        ) == parse_block(
            CalendarObjectBuilderView {
                properties: d.properties,
                events: d.events,
                todos: d.todos,
                journals: d.journals + children,
                timezones: d.timezones,
            },
            tail,
            |d: CalendarObjectBuilderView, p: PropertyView|
                IcalCalendarObjectBuilder::with_property(d, p),
            |d: CalendarObjectBuilderView, n: Seq<char>, i: Seq<Item>|
                IcalCalendarObjectBuilder::sub_component(d, n, i),
        ),
    decreases children.len(),
{
    lemma_kind_names();
    if children.len() == 0 {
        assert(journal_list_lines(children) =~= Seq::<PropertyView>::empty());
        assert(oks(journal_list_lines(children)) + tail =~= tail);
        assert(d.journals + children =~= d.journals);
    } else {
        let c = children[0];
        let rest = children.drop_first();
        assert(journal_written(c));
        assert(journal_list_written(rest)) by {
            assert forall|i: int| 0 <= i < rest.len() implies journal_written(
                #[trigger] rest[i],
            ) by {
                assert(rest[i] == children[i + 1]);
            }
        }
        lemma_journal_list_front(children);
        let kind = "VJOURNAL"@;
        let after = oks(journal_list_lines(rest)) + tail;
        let end = seq![Ok::<PropertyView, PropertyError>(frame_line("END"@, kind))];
        let inner = oks(journal_body(c)) + end;
        assert(oks(journal_list_lines(children)) + tail =~= seq![
            Ok::<PropertyView, PropertyError>(frame_line("BEGIN"@, kind)),
        ] + (inner + after));
        assert(inner + after =~= oks(journal_body(c)) + (end + after));
        lemma_journal_block(c, after);
        let next = CalendarObjectBuilderView {
            properties: d.properties,
            events: d.events,
            todos: d.todos,
            journals: d.journals.push(c),
            timezones: d.timezones,
        };
        assert(IcalCalendarObjectBuilder::sub_component(d, kind, inner + after) == (Parsed {
            result: Ok::<CalendarObjectBuilderView, ParserErrorView>(next),
            rest: after,
        }));
        lemma_parse_child(
            d,
            kind,
            inner,
            after,
            next,
            |d: CalendarObjectBuilderView, p: PropertyView|
                IcalCalendarObjectBuilder::with_property(d, p),
            |d: CalendarObjectBuilderView, n: Seq<char>, i: Seq<Item>|
                IcalCalendarObjectBuilder::sub_component(d, n, i),
        );
        lemma_object_journal_list(next, rest, tail);
        assert(next.journals + rest =~= d.journals + children);
    }
}

/// The text of a calendar object is the text of its lines, and its lines are
/// written properties.
pub proof fn lemma_object_text(v: CalendarObjectView)
    requires
        object_written(v),
    ensures
        <IcalCalendarObject as Emitter>::generated(v) == generated_properties(object_lines(v)),
        all_written(object_lines(v)),
{
    lemma_kind_names();
    lemma_timezone_list_text(v.timezones);
    lemma_inner_text(v.inner);
    let l0 = v.properties;
    let l1 = l0 + timezone_list_lines(v.timezones);
    let l2 = l1 + inner_lines(v.inner);
    lemma_generated_concat(l0, timezone_list_lines(v.timezones));
    lemma_generated_concat(l1, inner_lines(v.inner));
    assert(all_written(l0)) by {
        assert forall|i: int| 0 <= i < l0.len() implies written_property(#[trigger] l0[i]) by {
            assert(body_property(v.properties[i]));
        }
    }
    lemma_written_concat(l0, timezone_list_lines(v.timezones));
    lemma_written_concat(l1, inner_lines(v.inner));
    assert(l2 == object_body_lines(v));
    lemma_block_text("VCALENDAR"@, l2);
    let begin = seq![frame_line("BEGIN"@, "VCALENDAR"@)];
    let end = seq![frame_line("END"@, "VCALENDAR"@)];
    assert(all_written(begin));
    assert(all_written(end));
    lemma_written_concat(begin, l2);
    lemma_written_concat(begin + l2, end);
}

/// Reading the lines in the block of a calendar object and its `END` line,
/// into an empty draft, gives the draft of the object, and leaves what
/// stands behind.
pub proof fn lemma_object_block(v: CalendarObjectView, tail: Seq<Item>)
    requires
        object_written(v),
    ensures
        parse_block(
            IcalCalendarObjectBuilder::empty(),
            oks(object_body_lines(v)) + (seq![
                Ok::<PropertyView, PropertyError>(frame_line("END"@, "VCALENDAR"@)),
            ] + tail),
            |d: CalendarObjectBuilderView, p: PropertyView|
                IcalCalendarObjectBuilder::with_property(d, p),
            |d: CalendarObjectBuilderView, n: Seq<char>, i: Seq<Item>|
                IcalCalendarObjectBuilder::sub_component(d, n, i),
        ) == (Parsed {
            result: Ok::<CalendarObjectBuilderView, ParserErrorView>(
                IcalCalendarObject::draft_of(v),
            ),
            rest: tail,
        }),
{
    let start = IcalCalendarObjectBuilder::empty();
    let t2 = seq![Ok::<PropertyView, PropertyError>(frame_line("END"@, "VCALENDAR"@))] + tail;
    let t1 = oks(inner_lines(v.inner)) + t2;
    let t0 = oks(timezone_list_lines(v.timezones)) + t1;
    let l0 = v.properties;
    let l1 = l0 + timezone_list_lines(v.timezones);
    lemma_oks_concat(l0, timezone_list_lines(v.timezones));
    lemma_oks_concat(l1, inner_lines(v.inner));
    assert(oks(object_body_lines(v)) + t2 =~= oks(v.properties) + t0);
    assert forall|i: int| 0 <= i < v.properties.len() implies (#[trigger] v.properties[i]).name
        != "BEGIN"@ && v.properties[i].name != "END"@ by {
        assert(body_property(v.properties[i]));
    }
    lemma_parse_props(
        start,
        v.properties,
        t0,
        |d: CalendarObjectBuilderView, p: PropertyView|
            IcalCalendarObjectBuilder::with_property(d, p),
        |d: CalendarObjectBuilderView, n: Seq<char>, i: Seq<Item>|
            IcalCalendarObjectBuilder::sub_component(d, n, i),
    );
    lemma_object_add_all(start, v.properties);
    assert(Seq::<PropertyView>::empty() + v.properties =~= v.properties);
    let d0 = CalendarObjectBuilderView {
        properties: v.properties,
        events: Seq::empty(),
        todos: Seq::empty(),
        journals: Seq::empty(),
        timezones: Seq::empty(),
    };
    lemma_object_timezone_list(d0, v.timezones, t1);
    assert(Seq::<TimeZoneView>::empty() + v.timezones =~= v.timezones);
    let d1 = CalendarObjectBuilderView {
        properties: d0.properties,
        events: d0.events,
        todos: d0.todos,
        journals: d0.journals,
        timezones: v.timezones,
    };
    match v.inner {
        CalendarInnerDataView::Event(main, overrides) => {
            let all = seq![main] + overrides;
            let drafts = all.map_values(|e: EventView| IcalEvent::draft_of(e));
            lemma_object_event_list(d1, all, t2);
            assert(Seq::<EventBuilderView>::empty() + drafts =~= drafts);
        },
        CalendarInnerDataView::Todo(main, overrides) => {
            let all = seq![main] + overrides;
            lemma_object_todo_list(d1, all, t2);
            assert(Seq::<TodoView>::empty() + all =~= all);
        },
        CalendarInnerDataView::Journal(main, overrides) => {
            let all = seq![main] + overrides;
            lemma_object_journal_list(d1, all, t2);
            assert(Seq::<JournalView>::empty() + all =~= all);
        },
    }
    lemma_parse_end(
        IcalCalendarObject::draft_of(v),
        "VCALENDAR"@,
        tail,
        |d: CalendarObjectBuilderView, p: PropertyView|
            IcalCalendarObjectBuilder::with_property(d, p),
        |d: CalendarObjectBuilderView, n: Seq<char>, i: Seq<Item>|
            IcalCalendarObjectBuilder::sub_component(d, n, i),
    );
}

/// A calendar object that is written and read again is the same object. Let
/// `v` be the object that the check gives for a draft, and let it hold only
/// body properties, in itself and in every component nested in it. Then the
/// text of `v`, as bytes, holds exactly one calendar object, which is `v`:
/// the same properties, timezone definitions and instances, with the same
/// main instance.
pub proof fn lemma_object_round_trip(d: CalendarObjectBuilderView, v: CalendarObjectView)
    requires
        object_checked(d) == Ok::<CalendarObjectView, ParserErrorView>(v),
        object_written(v),
    ensures
        next_component::<IcalCalendarObjectBuilder>(
            properties_of(encode_utf8(<IcalCalendarObject as Emitter>::generated(v))),
        ) == (Some(Ok::<CalendarObjectView, ParserErrorView>(v)), Seq::<Item>::empty()),
{
    lemma_kind_names();
    lemma_object_text(v);
    lemma_block_items(
        "VCALENDAR"@,
        object_body_lines(v),
        <IcalCalendarObject as Emitter>::generated(v),
    );
    lemma_upper_of_capitals("VCALENDAR"@);
    assert(seq!["VCALENDAR"@][0] == "VCALENDAR"@);
    assert(is_header::<IcalCalendarObjectBuilder>(frame_line("BEGIN"@, "VCALENDAR"@)));
    lemma_object_block(v, Seq::<Item>::empty());
    lemma_object_checked_again(d, v);
}

/// A contact that is written and read again is the same contact. Let each
/// property of the contact `v` be a body property. Then the text of `v`, as
/// bytes, holds exactly one contact, which is `v`: the same properties in
/// the same order. So the contact that is read from the text of `v` is
/// written as that text again.
pub proof fn lemma_contact_round_trip(v: ContactView)
    requires
        contact_written(v),
    ensures
        next_component::<VcardContact<false>>(
            properties_of(encode_utf8(<VcardContact<true> as Emitter>::generated(v))),
        ) == (Some(Ok::<ContactView, ParserErrorView>(v)), Seq::<Item>::empty()),
{
    lemma_kind_names();
    lemma_contact_text(v);
    lemma_block_items("VCARD"@, v.properties, <VcardContact<true> as Emitter>::generated(v));
    lemma_upper_of_capitals("VCARD"@);
    assert(seq!["VCARD"@][0] == "VCARD"@);
    assert(is_header::<VcardContact<false>>(frame_line("BEGIN"@, "VCARD"@)));
    lemma_contact_block(v, Seq::<Item>::empty());
}

/// An alarm that is written and read again on its own is the same alarm. Let
/// each property of the alarm `v` be a body property. Then the text of `v`,
/// as bytes, holds exactly one alarm, which is `v`.
pub proof fn lemma_alarm_round_trip(v: AlarmView)
    requires
        alarm_written(v),
    ensures
        next_component::<IcalAlarm<false>>(
            properties_of(encode_utf8(<IcalAlarm<true> as Emitter>::generated(v))),
        ) == (Some(Ok::<AlarmView, ParserErrorView>(v)), Seq::<Item>::empty()),
{
    lemma_kind_names();
    lemma_alarm_text(v);
    lemma_block_items("VALARM"@, alarm_body(v), <IcalAlarm<true> as Emitter>::generated(v));
    lemma_upper_of_capitals("VALARM"@);
    assert(seq!["VALARM"@][0] == "VALARM"@);
    assert(is_header::<IcalAlarm<false>>(frame_line("BEGIN"@, "VALARM"@)));
    lemma_alarm_block(v, Seq::<Item>::empty());
}

/// A statement of free and busy time that is written and read again on its
/// own is the same statement. Let each property of the statement `v` be a
/// body property. Then the text of `v`, as bytes, holds exactly one
/// statement, which is `v`.
pub proof fn lemma_free_busy_round_trip(v: FreeBusyView)
    requires
        free_busy_written(v),
    ensures
        next_component::<IcalFreeBusy<false>>(
            properties_of(encode_utf8(<IcalFreeBusy<true> as Emitter>::generated(v))),
        ) == (Some(Ok::<FreeBusyView, ParserErrorView>(v)), Seq::<Item>::empty()),
{
    lemma_kind_names();
    lemma_free_busy_text(v);
    lemma_block_items("VFREEBUSY"@, free_busy_body(v), <IcalFreeBusy<true> as Emitter>::generated(v));
    lemma_upper_of_capitals("VFREEBUSY"@);
    assert(seq!["VFREEBUSY"@][0] == "VFREEBUSY"@);
    assert(is_header::<IcalFreeBusy<false>>(frame_line("BEGIN"@, "VFREEBUSY"@)));
    lemma_free_busy_block(v, Seq::<Item>::empty());
}

/// A journal entry that is written and read again on its own is the same
/// journal entry. Let `v` be the journal entry that the check gives for a
/// draft under the empty timezone table, and let each property of it be a
/// body property. Then the text of `v`, as bytes, holds exactly one journal
/// entry, which is `v`.
pub proof fn lemma_journal_round_trip(d: JournalView, v: JournalView)
    requires
        <IcalJournal<false> as ComponentMut>::built(d, Map::empty()) == Ok::<JournalView, ParserErrorView>(v),
        journal_written(v),
    ensures
        next_component::<IcalJournal<false>>(
            properties_of(encode_utf8(<IcalJournal<true> as Emitter>::generated(v))),
        ) == (Some(Ok::<JournalView, ParserErrorView>(v)), Seq::<Item>::empty()),
{
    lemma_kind_names();
    lemma_journal_text(v);
    lemma_block_items("VJOURNAL"@, journal_body(v), <IcalJournal<true> as Emitter>::generated(v));
    lemma_upper_of_capitals("VJOURNAL"@);
    assert(seq!["VJOURNAL"@][0] == "VJOURNAL"@);
    assert(is_header::<IcalJournal<false>>(frame_line("BEGIN"@, "VJOURNAL"@)));
    lemma_journal_block(v, Seq::<Item>::empty());
    assert(v == d);
}

/// A to-do that is written and read again on its own is the same to-do. Let
/// `v` be the to-do that the check gives for a draft under the empty timezone
/// table, and let it hold only body properties, in itself and in its alarms.
/// Then the text of `v`, as bytes, holds exactly one to-do, which is `v`.
pub proof fn lemma_todo_round_trip(d: TodoView, v: TodoView)
    requires
        <IcalTodo<false> as ComponentMut>::built(d, Map::empty()) == Ok::<TodoView, ParserErrorView>(v),
        todo_written(v),
    ensures
        next_component::<IcalTodo<false>>(
            properties_of(encode_utf8(<IcalTodo<true> as Emitter>::generated(v))),
        ) == (Some(Ok::<TodoView, ParserErrorView>(v)), Seq::<Item>::empty()),
{
    lemma_kind_names();
    lemma_todo_text(v);
    lemma_block_items("VTODO"@, todo_body(v), <IcalTodo<true> as Emitter>::generated(v));
    lemma_upper_of_capitals("VTODO"@);
    assert(seq!["VTODO"@][0] == "VTODO"@);
    assert(is_header::<IcalTodo<false>>(frame_line("BEGIN"@, "VTODO"@)));
    lemma_todo_block(v, Seq::<Item>::empty());
    assert(v == d);
}

/// A timezone definition that is written and read again on its own is the
/// same timezone definition. Let `v` be the timezone definition that the
/// check gives for a draft, and let it hold only body properties, in itself
/// and in its transitions. Then the text of `v`, as bytes, holds exactly one
/// timezone definition, which is `v`.
pub proof fn lemma_timezone_round_trip(d: TimeZoneView, v: TimeZoneView)
    requires
        <IcalTimeZone<false> as ComponentMut>::built(d, Map::empty()) == Ok::<TimeZoneView, ParserErrorView>(v),
        timezone_written(v),
    ensures
        next_component::<IcalTimeZone<false>>(
            properties_of(encode_utf8(<IcalTimeZone<true> as Emitter>::generated(v))),
        ) == (Some(Ok::<TimeZoneView, ParserErrorView>(v)), Seq::<Item>::empty()),
{
    lemma_kind_names();
    lemma_timezone_text(v);
    lemma_block_items("VTIMEZONE"@, timezone_body(v), <IcalTimeZone<true> as Emitter>::generated(v));
    lemma_upper_of_capitals("VTIMEZONE"@);
    assert(seq!["VTIMEZONE"@][0] == "VTIMEZONE"@);
    assert(is_header::<IcalTimeZone<false>>(frame_line("BEGIN"@, "VTIMEZONE"@)));
    lemma_timezone_block(v, Seq::<Item>::empty());
    assert(v == d);
}

/// An event that is written and read again on its own is the same event. Let
/// `v` be the event that the check gives for a draft under the empty timezone
/// table, and let it hold only body properties, in itself and in its alarms.
/// Then the text of `v`, as bytes, holds exactly one event, which is `v`.
pub proof fn lemma_event_round_trip(d: EventBuilderView, v: EventView)
    requires
        <IcalEventBuilder as ComponentMut>::built(d, Map::empty()) == Ok::<EventView, ParserErrorView>(v),
        event_written(v),
    ensures
        next_component::<IcalEventBuilder>(
            properties_of(encode_utf8(<IcalEvent as Emitter>::generated(v))),
        ) == (Some(Ok::<EventView, ParserErrorView>(v)), Seq::<Item>::empty()),
{
    lemma_kind_names();
    lemma_event_text(v);
    lemma_block_items("VEVENT"@, event_body(v), <IcalEvent as Emitter>::generated(v));
    lemma_upper_of_capitals("VEVENT"@);
    assert(seq!["VEVENT"@][0] == "VEVENT"@);
    assert(is_header::<IcalEventBuilder>(frame_line("BEGIN"@, "VEVENT"@)));
    lemma_event_block(v, Seq::<Item>::empty());
    assert(IcalEvent::draft_of(v) == d);
}

} // verus!
