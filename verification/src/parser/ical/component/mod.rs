//! The component kinds of a calendar.
pub mod alarm;
pub mod calendar;
pub mod calendar_builder;
pub mod calendar_object;
pub mod calendar_object_builder;
pub mod calendar_object_laws;
pub mod event;
pub mod expand;
pub mod freebusy;
pub mod journal;
pub mod timezone;
pub mod todo;

pub use crate::parser::ical::component::alarm::{AlarmView, IcalAlarm};
pub use crate::parser::ical::component::freebusy::{FreeBusyView, IcalFreeBusy};
pub use crate::parser::ical::component::journal::{IcalJournal, JournalView};
pub use crate::parser::ical::component::timezone::{
    IcalTimeZone, IcalTimeZoneTransition, IcalTimeZoneTransitionType, TimeZoneView, TransitionView,
};
pub use crate::parser::ical::component::todo::{IcalTodo, TodoView};
pub use crate::parser::ical::component::event::{EventView, IcalEvent, IcalEventBuilder};
pub use crate::parser::ical::component::calendar::{CalendarView, IcalCalendar};
pub use crate::parser::ical::component::calendar_builder::{CalendarBuilderView, IcalCalendarBuilder};
pub use crate::parser::ical::component::calendar_object::{
    CalendarInnerData, CalendarObjectView, IcalCalendarObject,
};
pub use crate::parser::ical::component::calendar_object_builder::IcalCalendarObjectBuilder;
