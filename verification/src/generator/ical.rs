//! The text of the components of a calendar and of a contact.
use crate::generator::{begin_block, block, end_block, generate_all, generated_all, Emitter};
use crate::parser::ical::component::alarm::{AlarmView, IcalAlarm};
use crate::parser::ical::component::calendar::{CalendarView, IcalCalendar};
use crate::parser::ical::component::event::{EventView, IcalEvent};
use crate::parser::ical::component::freebusy::{FreeBusyView, IcalFreeBusy};
use crate::parser::ical::component::journal::{IcalJournal, JournalView};
use crate::parser::ical::component::timezone::{
    IcalTimeZone, IcalTimeZoneTransition, IcalTimeZoneTransitionType, TimeZoneView, TransitionView,
};
use crate::parser::ical::component::todo::{IcalTodo, TodoView};
use crate::parser::vcard::component::{ContactView, VcardContact};
use crate::parser::{views, Component};
use crate::property::{Property, PropertyView};
use vstd::prelude::*;

verus! {

/// The texts of the properties, one after the other.
pub open spec fn generated_properties(props: Seq<PropertyView>) -> Seq<char> {
    generated_all::<Property>(props)
}

/// Appends the texts of the properties to `out`.
pub fn generate_properties(out: &mut String, props: &Vec<Property>)
    ensures
        final(out)@ == old(out)@ + generated_properties(props.deep_view()),
{
    assert(views(props@) =~= props.deep_view());
    generate_all::<Property>(out, props);
}

impl<const VERIFIED: bool> Emitter for IcalAlarm<VERIFIED> {
    /// The text of an alarm: a `VALARM` block of its properties.
    open spec fn generated(v: AlarmView) -> Seq<char> {
        block("VALARM"@, generated_properties(v.properties))
    }

    fn generate(&self) -> (r: String) {
        let mut out = begin_block("VALARM");
        generate_properties(&mut out, &self.properties);
        end_block(&mut out, "VALARM", Ghost(generated_properties(self@.properties)));
        out
    }
}

impl<const VERIFIED: bool> Emitter for IcalFreeBusy<VERIFIED> {
    /// The text of a statement of free and busy time: a `VFREEBUSY` block of
    /// its properties.
    open spec fn generated(v: FreeBusyView) -> Seq<char> {
        block("VFREEBUSY"@, generated_properties(v.properties))
    }

    fn generate(&self) -> (r: String) {
        let mut out = begin_block("VFREEBUSY");
        generate_properties(&mut out, &self.properties);
        end_block(&mut out, "VFREEBUSY", Ghost(generated_properties(self@.properties)));
        out
    }
}

impl<const VERIFIED: bool> Emitter for IcalJournal<VERIFIED> {
    /// The text of a journal entry: a `VJOURNAL` block of its properties.
    open spec fn generated(v: JournalView) -> Seq<char> {
        block("VJOURNAL"@, generated_properties(v.properties))
    }

    fn generate(&self) -> (r: String) {
        let mut out = begin_block("VJOURNAL");
        generate_properties(&mut out, &self.properties);
        end_block(&mut out, "VJOURNAL", Ghost(generated_properties(self@.properties)));
        out
    }
}

impl<const VERIFIED: bool> Emitter for VcardContact<VERIFIED> {
    /// The text of a contact: a `VCARD` block of its properties.
    open spec fn generated(v: ContactView) -> Seq<char> {
        block("VCARD"@, generated_properties(v.properties))
    }

    fn generate(&self) -> (r: String) {
        let mut out = begin_block("VCARD");
        generate_properties(&mut out, &self.properties);
        end_block(&mut out, "VCARD", Ghost(generated_properties(self@.properties)));
        out
    }
}

/// The name under which a transition is written.
pub open spec fn transition_name(kind: IcalTimeZoneTransitionType) -> Seq<char> {
    match kind {
        IcalTimeZoneTransitionType::STANDARD => "STANDARD"@,
        IcalTimeZoneTransitionType::DAYLIGHT => "DAYLIGHT"@,
    }
}

impl<const VERIFIED: bool> Emitter for IcalTimeZoneTransition<VERIFIED> {
    /// The text of a transition: a `STANDARD` or `DAYLIGHT` block of its
    /// properties.
    open spec fn generated(v: TransitionView) -> Seq<char> {
        block(transition_name(v.transition), generated_properties(v.properties))
    }

    fn generate(&self) -> (r: String) {
        let key = match self.transition {
            IcalTimeZoneTransitionType::STANDARD => "STANDARD",
            IcalTimeZoneTransitionType::DAYLIGHT => "DAYLIGHT",
        };
        let mut out = begin_block(key);
        generate_properties(&mut out, &self.properties);
        end_block(&mut out, key, Ghost(generated_properties(self@.properties)));
        out
    }
}

impl<const VERIFIED: bool> Emitter for IcalTimeZone<VERIFIED> {
    /// The text of a timezone definition: a `VTIMEZONE` block of its
    /// properties and its transitions.
    open spec fn generated(v: TimeZoneView) -> Seq<char> {
        block(
            "VTIMEZONE"@,
            generated_properties(v.properties) + generated_all::<IcalTimeZoneTransition<VERIFIED>>(
                v.transitions,
            ),
        )
    }

    fn generate(&self) -> (r: String) {
        let mut out = begin_block("VTIMEZONE");
        generate_properties(&mut out, &self.properties);
        assert(views(self.transitions@) =~= self.transitions.deep_view());
        generate_all::<IcalTimeZoneTransition<VERIFIED>>(&mut out, &self.transitions);
        let ghost body = generated_properties(self@.properties) + generated_all::<
            IcalTimeZoneTransition<VERIFIED>,
        >(self@.transitions);
        assert(out@ =~= "BEGIN:"@ + "VTIMEZONE"@ + "\r\n"@ + body);
        end_block(&mut out, "VTIMEZONE", Ghost(body));
        out
    }
}

impl<const VERIFIED: bool> Emitter for IcalTodo<VERIFIED> {
    /// The text of a to-do: a `VTODO` block of its properties and its
    /// alarms.
    open spec fn generated(v: TodoView) -> Seq<char> {
        block(
            "VTODO"@,
            generated_properties(v.properties) + generated_all::<IcalAlarm<VERIFIED>>(v.alarms),
        )
    }

    fn generate(&self) -> (r: String) {
        let mut out = begin_block("VTODO");
        generate_properties(&mut out, &self.properties);
        assert(views(self.alarms@) =~= self.alarms.deep_view());
        generate_all::<IcalAlarm<VERIFIED>>(&mut out, &self.alarms);
        let ghost body = generated_properties(self@.properties) + generated_all::<
            IcalAlarm<VERIFIED>,
        >(self@.alarms);
        assert(out@ =~= "BEGIN:"@ + "VTODO"@ + "\r\n"@ + body);
        end_block(&mut out, "VTODO", Ghost(body));
        out
    }
}

impl Emitter for IcalEvent {
    /// The text of an event: a `VEVENT` block of its properties and its
    /// alarms.
    open spec fn generated(v: EventView) -> Seq<char> {
        block(
            "VEVENT"@,
            generated_properties(v.properties) + generated_all::<IcalAlarm<true>>(v.alarms),
        )
    }

    fn generate(&self) -> (r: String) {
        let mut out = begin_block("VEVENT");
        generate_properties(&mut out, self.get_properties());
        let alarms = self.get_alarms();
        assert(views(alarms@) =~= alarms.deep_view());
        generate_all::<IcalAlarm<true>>(&mut out, alarms);
        let ghost body = generated_properties(self@.properties) + generated_all::<IcalAlarm<true>>(
            self@.alarms,
        );
        assert(out@ =~= "BEGIN:"@ + "VEVENT"@ + "\r\n"@ + body);
        end_block(&mut out, "VEVENT", Ghost(body));
        out
    }
}

/// The body of a calendar: its properties, then its timezone definitions,
/// events, alarms, to-dos, journal entries and statements of free and busy
/// time.
pub open spec fn calendar_body(v: CalendarView) -> Seq<char> {
    generated_properties(v.properties) + generated_all::<IcalTimeZone<true>>(v.timezones)
        + generated_all::<IcalEvent>(v.events) + generated_all::<IcalAlarm<true>>(v.alarms)
        + generated_all::<IcalTodo<true>>(v.todos) + generated_all::<IcalJournal<true>>(v.journals)
        + generated_all::<IcalFreeBusy<true>>(v.free_busys)
}

impl Emitter for IcalCalendar {
    /// The text of a calendar: a `VCALENDAR` block of its body.
    open spec fn generated(v: CalendarView) -> Seq<char> {
        block("VCALENDAR"@, calendar_body(v))
    }

    #[verifier::rlimit(40)]
    fn generate(&self) -> (r: String) {
        let mut out = begin_block("VCALENDAR");
        let ghost head = out@;
        generate_properties(&mut out, self.get_properties());
        let ghost body = generated_properties(self@.properties);
        let timezones = self.get_timezones();
        assert(views(timezones@) =~= timezones.deep_view());
        generate_all::<IcalTimeZone<true>>(&mut out, timezones);
        proof {
            let next = body + generated_all::<IcalTimeZone<true>>(self@.timezones);
            assert(out@ =~= head + next);
            body = next;
        }
        let events = self.get_events();
        assert(views(events@) =~= events.deep_view());
        generate_all::<IcalEvent>(&mut out, events);
        proof {
            let next = body + generated_all::<IcalEvent>(self@.events);
            assert(out@ =~= head + next);
            body = next;
        }
        let alarms = self.get_alarms();
        assert(views(alarms@) =~= alarms.deep_view());
        generate_all::<IcalAlarm<true>>(&mut out, alarms);
        proof {
            let next = body + generated_all::<IcalAlarm<true>>(self@.alarms);
            assert(out@ =~= head + next);
            body = next;
        }
        let todos = self.get_todos();
        assert(views(todos@) =~= todos.deep_view());
        generate_all::<IcalTodo<true>>(&mut out, todos);
        proof {
            let next = body + generated_all::<IcalTodo<true>>(self@.todos);
            assert(out@ =~= head + next);
            body = next;
        }
        let journals = self.get_journals();
        assert(views(journals@) =~= journals.deep_view());
        generate_all::<IcalJournal<true>>(&mut out, journals);
        proof {
            let next = body + generated_all::<IcalJournal<true>>(self@.journals);
            assert(out@ =~= head + next);
            body = next;
        }
        let free_busys = self.get_free_busys();
        assert(views(free_busys@) =~= free_busys.deep_view());
        generate_all::<IcalFreeBusy<true>>(&mut out, free_busys);
        proof {
            let next = body + generated_all::<IcalFreeBusy<true>>(self@.free_busys);
            assert(out@ =~= head + next);
            body = next;
        }
        assert(body == calendar_body(self@));
        end_block(&mut out, "VCALENDAR", Ghost(body));
        out
    }
}

} // verus!
