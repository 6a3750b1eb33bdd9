//! Events.
pub mod builder;
pub mod fallible;
pub mod order;
pub mod recurrence;
pub mod rules;

use crate::parser::accessor::{IcalRECURIDProperty, RecurIdRange};
use crate::parser::ical::component::alarm::{AlarmView, IcalAlarm};
use crate::parser::ical::component::event::builder::rules_fit_start;
use crate::parser::ical::component::todo::collect_alarm_tzids;
use crate::parser::{collect_tzids, Component};
use crate::property::{Property, PropertyView};
use crate::types::dateordatetime::{instant_of, CalDateOrDateTime, CalDateOrDateTimeView};
use crate::types::Duration;
use vstd::prelude::*;

pub use crate::parser::ical::component::event::builder::{EventBuilderView, IcalEventBuilder};

verus! {

/// A checked event: its properties as they were written, and the values that
/// its check read from them.
#[derive(Debug)]
pub struct IcalEvent {
    pub(crate) uid: String,
    pub(crate) dtstamp: CalDateOrDateTime,
    pub(crate) dtstart: Option<CalDateOrDateTime>,
    pub(crate) dtend: Option<CalDateOrDateTime>,
    pub(crate) duration: Option<Duration>,
    pub(crate) rdates: Vec<CalDateOrDateTime>,
    pub(crate) rrules: Vec<String>,
    pub(crate) exdates: Vec<CalDateOrDateTime>,
    pub(crate) exrules: Vec<String>,
    pub(crate) recurid: Option<IcalRECURIDProperty>,
    pub(crate) summary: Option<String>,
    pub(crate) properties: Vec<Property>,
    pub(crate) alarms: Vec<IcalAlarm<true>>,
}

/// An event as a plain value.
pub struct EventView {
    pub uid: Seq<char>,
    pub dtstamp: CalDateOrDateTimeView,
    pub dtstart: Option<CalDateOrDateTimeView>,
    pub dtend: Option<CalDateOrDateTimeView>,
    pub duration: Option<int>,
    pub rdates: Seq<CalDateOrDateTimeView>,
    pub rrules: Seq<Seq<char>>,
    pub exdates: Seq<CalDateOrDateTimeView>,
    pub exrules: Seq<Seq<char>>,
    pub recurid: Option<(CalDateOrDateTimeView, RecurIdRange)>,
    pub summary: Option<Seq<char>>,
    pub properties: Seq<PropertyView>,
    pub alarms: Seq<AlarmView>,
}

impl View for IcalEvent {
    type V = EventView;

    closed spec fn view(&self) -> EventView {
        EventView {
            uid: self.uid@,
            dtstamp: self.dtstamp@,
            dtstart: match self.dtstart {
                Some(v) => Some(v@),
                None => None,
            },
            dtend: match self.dtend {
                Some(v) => Some(v@),
                None => None,
            },
            duration: match self.duration {
                Some(d) => Some(d.value()),
                None => None,
            },
            rdates: self.rdates.deep_view(),
            rrules: self.rrules.deep_view(),
            exdates: self.exdates.deep_view(),
            exrules: self.exrules.deep_view(),
            recurid: match self.recurid {
                Some(v) => Some(v@),
                None => None,
            },
            summary: match self.summary {
                Some(s) => Some(s@),
                None => None,
            },
            properties: self.properties.deep_view(),
            alarms: self.alarms.deep_view(),
        }
    }
}

impl DeepView for IcalEvent {
    type V = EventView;

    open spec fn deep_view(&self) -> EventView {
        self@
    }
}

/// What every checked event fulfils: its rules fit its start, and an event
/// without a start has no rule.
pub open spec fn event_valid(v: EventView) -> bool {
    rules_fit_start(v.rrules, builder::start_instant(v.dtstart)) && rules_fit_start(
        v.exrules,
        builder::start_instant(v.dtstart),
    )
}

impl Component for IcalEvent {
    type Unverified = IcalEventBuilder;

    open spec fn names() -> Seq<Seq<char>> {
        seq!["VEVENT"@]
    }

    open spec fn draft_of(v: EventView) -> EventBuilderView {
        EventBuilderView { properties: v.properties, alarms: v.alarms }
    }

    fn mutable(self) -> (r: IcalEventBuilder) {
        let ghost before = self.alarms.deep_view();
        assert(crate::parser::views(self.alarms@) =~= before);
        let alarms = crate::parser::mutable_all(self.alarms);
        assert(alarms.deep_view() =~= before) by {
            assert(crate::parser::views(alarms@) =~= alarms.deep_view());
        }
        IcalEventBuilder { properties: self.properties, alarms }
    }

    open spec fn properties_of(v: EventView) -> Seq<PropertyView> {
        v.properties
    }

    fn is_name(name: &str) -> (r: bool) {
        let r = name.eq("VEVENT");
        assert(seq!["VEVENT"@][0] == "VEVENT"@);
        r
    }

    fn get_properties(&self) -> (r: &Vec<Property>) {
        &self.properties
    }
}

impl IcalEvent {
    #[verifier::type_invariant]
    spec fn inv(self) -> bool {
        event_valid(self@)
    }

    /// The unique identifier.
    pub fn get_uid(&self) -> (r: &str)
        ensures
            r@ == self@.uid,
    {
        self.uid.as_str()
    }

    /// The start.
    pub fn get_dtstart(&self) -> (r: Option<&CalDateOrDateTime>)
        ensures
            builder::optional_ref(r) == self@.dtstart,
    {
        match &self.dtstart {
            Some(v) => Some(v),
            None => None,
        }
    }

    /// The time stamp.
    pub fn get_dtstamp(&self) -> (r: &CalDateOrDateTime)
        ensures
            r@ == self@.dtstamp,
    {
        &self.dtstamp
    }

    /// The end.
    pub fn get_dtend(&self) -> (r: Option<&CalDateOrDateTime>)
        ensures
            builder::optional_ref(r) == self@.dtend,
    {
        match &self.dtend {
            Some(v) => Some(v),
            None => None,
        }
    }

    /// The dates on which the event recurs besides those of its rules; a
    /// period stands with its start.
    pub fn get_rdate(&self) -> (r: &Vec<CalDateOrDateTime>)
        ensures
            r.deep_view() == self@.rdates,
    {
        &self.rdates
    }

    /// The dates on which the event does not recur.
    pub fn get_exdate(&self) -> (r: &Vec<CalDateOrDateTime>)
        ensures
            r.deep_view() == self@.exdates,
    {
        &self.exdates
    }

    /// The rules by which the event recurs, as they are written. Each was
    /// accepted for the start of the event.
    pub fn get_rrule(&self) -> (r: &Vec<String>)
        ensures
            r.deep_view() == self@.rrules,
            rules_fit_start(self@.rrules, builder::start_instant(self@.dtstart)),
    {
        proof {
            use_type_invariant(self);
        }
        &self.rrules
    }

    /// The rules by which the event does not recur, as they are written. Each
    /// was accepted for the start of the event.
    pub fn get_exrule(&self) -> (r: &Vec<String>)
        ensures
            r.deep_view() == self@.exrules,
            rules_fit_start(self@.exrules, builder::start_instant(self@.dtstart)),
    {
        proof {
            use_type_invariant(self);
        }
        &self.exrules
    }

    /// What the event says of its recurrence, where it says anything.
    pub fn get_rruleset(&self) -> (r: Option<builder::RecurrenceBundle>)
        ensures
            match r {
                Some(b) => recurs(self@) && b@ == (builder::RecurrenceBundleView {
                    rdates: self@.rdates,
                    rrules: self@.rrules,
                    exdates: self@.exdates,
                    exrules: self@.exrules,
                }),
                None => !recurs(self@),
            },
    {
        if !self.has_rruleset() {
            return None;
        }
        Some(
            builder::RecurrenceBundle {
                rdates: crate::property::duplicate_vec(&self.rdates),
                rrules: crate::property::duplicate_vec(&self.rrules),
                exdates: crate::property::duplicate_vec(&self.exdates),
                exrules: crate::property::duplicate_vec(&self.exrules),
            },
        )
    }

    /// The `RECURRENCE-ID`, which tells an override from a main instance.
    pub fn get_recurrence_id(&self) -> (r: Option<&IcalRECURIDProperty>)
        ensures
            match r {
                Some(v) => self@.recurid == Some(v@),
                None => self@.recurid is None,
            },
    {
        match &self.recurid {
            Some(v) => Some(v),
            None => None,
        }
    }

    /// The summary.
    pub fn get_summary(&self) -> (r: Option<&str>)
        ensures
            match r {
                Some(s) => self@.summary == Some(s@),
                None => self@.summary is None,
            },
    {
        match &self.summary {
            Some(s) => Some(s.as_str()),
            None => None,
        }
    }

    /// The alarms.
    pub fn get_alarms(&self) -> (r: &Vec<IcalAlarm<true>>)
        ensures
            r.deep_view() == self@.alarms,
    {
        &self.alarms
    }

    /// How long the event lasts: the time from its start to its end where it
    /// has both, else its duration.
    pub fn get_duration(&self) -> (r: Option<Duration>)
        ensures
            match r {
                Some(d) => length_of(self@) == Some(d.value()),
                None => length_of(self@) is None,
            },
    {
        match (&self.dtend, &self.dtstart) {
            (Some(end), Some(start)) => Some(end.sub(start)),
            _ => match &self.duration {
                Some(d) => {
                    let seconds = d.num_seconds();
                    Duration::seconds(seconds)
                },
                None => None,
            },
        }
    }

    /// Whether the event says anything of its recurrence.
    pub fn has_rruleset(&self) -> (r: bool)
        ensures
            r == recurs(self@),
    {
        self.rrules.len() > 0 || self.rdates.len() > 0 || self.exrules.len() > 0
            || self.exdates.len() > 0
    }

    /// The timezone identifiers that the event names, each once: those of its
    /// properties, then those of its alarms.
    pub fn get_tzids(&self) -> (r: Vec<&str>)
        ensures
            r.deep_view() == crate::parser::ical::component::todo::alarm_tzids_onto(
                crate::parser::tzids_of(self@.properties),
                self@.alarms,
            ),
    {
        let mut out: Vec<&str> = Vec::new();
        assert(out.deep_view() =~= Seq::empty());
        collect_tzids(&self.properties, &mut out);
        collect_alarm_tzids(&self.alarms, &mut out);
        out
    }
}

/// How long an event lasts: see [`IcalEvent::get_duration`].
pub open spec fn length_of(v: EventView) -> Option<int> {
    if v.dtend is Some && v.dtstart is Some {
        Some(instant_of(v.dtend->0) - instant_of(v.dtstart->0))
    } else {
        v.duration
    }
}

/// Whether an event says anything of its recurrence: whether it has a rule, a
/// date, an exclusion rule or an excluded date.
pub open spec fn recurs(v: EventView) -> bool {
    v.rrules.len() > 0 || v.rdates.len() > 0 || v.exrules.len() > 0 || v.exdates.len() > 0
}

} // verus!
