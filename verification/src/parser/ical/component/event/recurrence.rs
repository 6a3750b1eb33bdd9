//! Expansion of a recurring event into its instances.
//!
//! The main instance of an event says when the event recurs. Its overrides
//! each replace one instance, which they name by its original start, the
//! `RECURRENCE-ID`. The expansion puts the overrides in the order of their
//! `RECURRENCE-ID`s and walks the instants of the recurrence set in ascending
//! order. An instant that an override names gives that override;
//! any other instant gives a new instance that is made from the template,
//! which is the main instance until an override that reaches into the future
//! takes its place.
use crate::parser::accessor::{
    dated_property_of, make_dated_property, normal_parameters, normal_params, recurid_property,
    IcalRECURIDProperty, RecurIdRange,
};
use crate::types::dateordatetime::date_or_datetime_text;
use crate::parser::ical::component::event::builder::start_instant;
use crate::parser::ical::component::event::order::{
    lemma_sorted_item, sort_by_recurid, sorted_by_recurid,
};
use crate::parser::ical::component::event::rules::{
    recurrence_instants, rrule_instants, MAX_INSTANCES,
};
use crate::parser::ical::component::event::{length_of, recurs, EventView, IcalEvent};
use crate::property::{duplicate_vec, lemma_push_deep_view, Duplicate, Property, PropertyView};
use crate::types::date::{CalDate, CalDateView};
use crate::types::dateordatetime::{
    instant_of, normal_value, same_moment, timezone_of, CalDateOrDateTime, CalDateOrDateTimeView,
};
use crate::types::datetime::{day_number, day_of, in_range, CalDateTime, CalDateTimeView};
use crate::types::duration::duration_text;
use crate::types::timezone::{near_range, normal_zone, MAX_TIMESTAMP, MIN_TIMESTAMP};
use vstd::prelude::*;

verus! {

/// The place of the first property with the given name, or the number of
/// properties where there is none.
pub open spec fn index_of_name(props: Seq<PropertyView>, name: Seq<char>) -> int
    decreases props.len(),
{
    if props.len() == 0 {
        0
    } else if props[0].name == name {
        0
    } else {
        1 + index_of_name(props.drop_first(), name)
    }
}

/// The properties with `p` in the place of the first property of its name and
/// without the later properties of that name; with `p` at the end where no
/// property has its name.
pub open spec fn replace_or_push(props: Seq<PropertyView>, p: PropertyView) -> Seq<PropertyView> {
    let pos = index_of_name(props, p.name);
    if pos >= props.len() {
        props.push(p)
    } else {
        props.take(pos).push(p) + crate::parser::other_properties(props.skip(pos + 1), p.name)
    }
}

/// See [`replace_or_push`].
pub fn replace_or_push_property(props: &mut Vec<Property>, p: Property)
    ensures
        final(props).deep_view() == replace_or_push(old(props).deep_view(), p@),
{
    let ghost all = props.deep_view();
    let mut pos: usize = 0;
    assert(all.skip(0) =~= all);
    while pos < props.len() && !props[pos].name.as_str().eq(p.name.as_str())
        invariant
            pos <= props.len(),
            *props == *old(props),
            all == props.deep_view(),
            pos + index_of_name(all.skip(pos as int), p@.name) == index_of_name(all, p@.name),
        decreases props.len() - pos,
    {
        assert(all.skip(pos as int)[0] == props[pos as int]@);
        assert(all.skip(pos as int).drop_first() =~= all.skip(pos + 1));
        pos += 1;
    }
    proof {
        if pos < props.len() {
            assert(all.skip(pos as int)[0] == props[pos as int]@);
        }
    }
    if pos >= props.len() {
        let ghost before = *props;
        let ghost item = p;
        props.push(p);
        proof {
            lemma_push_deep_view(before, *props, item);
        }
    } else {
        let mut tail = props.split_off(pos + 1);
        assert(tail.deep_view() =~= all.skip(pos + 1));
        crate::parser::remove_property_in(&mut tail, p.name.as_str());
        let _replaced = props.pop();
        assert(props.deep_view() =~= all.take(pos as int));
        let ghost head = *props;
        let ghost item = p;
        props.push(p);
        proof {
            lemma_push_deep_view(head, *props, item);
        }
        let ghost front = props.deep_view();
        let ghost back = tail.deep_view();
        props.append(&mut tail);
        assert(props.deep_view() =~= front + back);
    }
}

/// Whether a property says when an entry recurs, or when it ends: these are
/// not copied into an instance. The length of an instance is written as its
/// `DURATION`, so the `DTEND` of the template goes, and a `DURATION` stays
/// in its place.
pub open spec fn is_recurrence_name(name: Seq<char>) -> bool {
    name == "RRULE"@ || name == "RDATE"@ || name == "EXRULE"@ || name == "EXDATE"@ || name
        == "DTEND"@
}

/// The properties that an instance copies from its template.
pub open spec fn copied_properties(props: Seq<PropertyView>) -> Seq<PropertyView> {
    props.filter(|p: PropertyView| !is_recurrence_name(p.name))
}

/// See [`copied_properties`].
pub fn copy_properties(props: &Vec<Property>) -> (r: Vec<Property>)
    ensures
        r.deep_view() == copied_properties(props.deep_view()),
{
    let ghost all = props.deep_view();
    let ghost keep = |p: PropertyView| !is_recurrence_name(p.name);
    let mut r: Vec<Property> = Vec::new();
    let mut i: usize = 0;
    assert(all.take(0) =~= Seq::empty());
    assert(r.deep_view() =~= all.take(0).filter(keep));
    while i < props.len()
        invariant
            i <= props.len(),
            all == props.deep_view(),
            keep == (|p: PropertyView| !is_recurrence_name(p.name)),
            r.deep_view() == all.take(i as int).filter(keep),
        decreases props.len() - i,
    {
        proof {
            assert(all.take(i + 1) =~= all.take(i as int).push(all[i as int]));
            crate::parser::lemma_filter_push(all.take(i as int), all[i as int], keep);
            assert(all[i as int] == props[i as int]@);
        }
        let name = props[i].name.as_str();
        let skip = name.eq("RRULE") || name.eq("RDATE") || name.eq("EXRULE") || name.eq("EXDATE")
            || name.eq("DTEND");
        if !skip {
            let ghost before = r;
            let item = props[i].clone();
            let ghost pushed = item;
            r.push(item);
            proof {
                lemma_push_deep_view(before, r, pushed);
            }
        }
        i += 1;
    }
    assert(all.take(props.len() as int) =~= all);
    r
}

/// The `DURATION` property of a length in seconds.
pub open spec fn duration_property(seconds: int) -> PropertyView {
    PropertyView { name: "DURATION"@, params: Seq::empty(), value: Some(duration_text(seconds)) }
}

/// The start that an instance at the instant `t` has: a value of the same
/// kind and in the same timezone as the start of the main instance.
pub open spec fn candidate(main_start: CalDateOrDateTimeView, t: int) -> CalDateOrDateTimeView {
    match main_start {
        CalDateOrDateTimeView::Date(d) => CalDateOrDateTimeView::Date(
            CalDateView { day: day_of(t), timezone: d.timezone },
        ),
        CalDateOrDateTimeView::DateTime(dt) => CalDateOrDateTimeView::DateTime(
            CalDateTimeView { utc: t, local: t, timezone: dt.timezone },
        ),
    }
}

/// Whether an event is an override that names the moment `c` as the instance
/// that it replaces.
pub open spec fn names_moment(v: EventView, c: CalDateOrDateTimeView) -> bool {
    match v.recurid {
        Some(recurid) => same_moment(recurid.0, c),
        None => false,
    }
}

/// Whether an event is an override that reaches into the future.
pub open spec fn reaches_on(v: EventView) -> bool {
    match v.recurid {
        Some(recurid) => recurid.1 == RecurIdRange::ThisAndFuture,
        None => false,
    }
}

/// The place of the first override from `from` on whose `RECURRENCE-ID` names
/// the moment `c`, or the number of overrides where there is none.
pub open spec fn matching_override(overrides: Seq<EventView>, c: CalDateOrDateTimeView, from: int) -> int
    decreases overrides.len() - from,
{
    if from < 0 || from >= overrides.len() {
        overrides.len() as int
    } else if names_moment(overrides[from], c) {
        from
    } else {
        matching_override(overrides, c, from + 1)
    }
}

/// The properties of the instance that is made from a template for the start
/// `c`: the properties that are copied, with `DTSTART` and `RECURRENCE-ID` set
/// to `c`, and the length of the template as `DURATION`. Each of the three
/// stands in the place of the first property of its name, or at the end
/// where the template has none.
pub open spec fn instance_properties(
    props: Seq<PropertyView>,
    c: CalDateOrDateTimeView,
    length: Option<int>,
) -> Seq<PropertyView> {
    let with_start = replace_or_push(copied_properties(props), dated_property_of("DTSTART"@, c));
    let with_id = replace_or_push(with_start, recurid_property((c, RecurIdRange::This)));
    match length {
        Some(d) => replace_or_push(with_id, duration_property(d)),
        None => with_id,
    }
}

/// The instance that is made from a template for the start `c`. It has the
/// identifier, the time stamp and the summary of the template and lasts as
/// long; it starts at `c` and names `c` as the instance that it is; it has no
/// alarms and does not recur.
pub open spec fn synthesized(template: EventView, c: CalDateOrDateTimeView) -> EventView {
    EventView {
        uid: template.uid,
        dtstamp: template.dtstamp,
        dtstart: Some(c),
        dtend: None,
        duration: length_of(template),
        rdates: Seq::empty(),
        rrules: Seq::empty(),
        exdates: Seq::empty(),
        exrules: Seq::empty(),
        recurid: Some((c, RecurIdRange::This)),
        summary: template.summary,
        properties: instance_properties(template.properties, c, length_of(template)),
        alarms: Seq::empty(),
    }
}

/// The instance for the start `c`: the first override that names `c`, or an
/// instance made from the template.
pub open spec fn instance_at(
    overrides: Seq<EventView>,
    template: EventView,
    c: CalDateOrDateTimeView,
) -> EventView {
    let k = matching_override(overrides, c, 0);
    if k < overrides.len() {
        overrides[k]
    } else {
        synthesized(template, c)
    }
}

/// The template for the instants after the start `c`: the override that
/// names `c`, if it reaches into the future, else the template as it was.
pub open spec fn template_after(
    overrides: Seq<EventView>,
    template: EventView,
    c: CalDateOrDateTimeView,
) -> EventView {
    let k = matching_override(overrides, c, 0);
    if k < overrides.len() && reaches_on(overrides[k]) {
        overrides[k]
    } else {
        template
    }
}

/// The instances for the instants `instants`, behind the instances `acc`.
pub open spec fn walk(
    instants: Seq<i64>,
    main_start: CalDateOrDateTimeView,
    overrides: Seq<EventView>,
    template: EventView,
    acc: Seq<EventView>,
) -> Seq<EventView>
    decreases instants.len(),
{
    if instants.len() == 0 {
        acc
    } else {
        let c = candidate(main_start, instants[0] as int);
        walk(
            instants.drop_first(),
            main_start,
            overrides,
            template_after(overrides, template, c),
            acc.push(instance_at(overrides, template, c)),
        )
    }
}

/// `acc` followed by the instants of `raw` that a date-time can name and that
/// are later than every instant in front of them.
pub open spec fn ascending_onto(acc: Seq<i64>, raw: Seq<i64>) -> Seq<i64>
    decreases raw.len(),
{
    if raw.len() == 0 {
        acc
    } else if in_range(raw[0] as int) && (acc.len() == 0 || acc[acc.len() - 1] < raw[0]) {
        ascending_onto(acc.push(raw[0]), raw.drop_first())
    } else {
        ascending_onto(acc, raw.drop_first())
    }
}

/// The instants of `raw` in strictly ascending order: see [`ascending_onto`].
pub fn ascending(raw: &Vec<i64>) -> (r: Vec<i64>)
    ensures
        r@ == ascending_onto(Seq::empty(), raw@),
        r.len() <= raw.len(),
{
    let mut r: Vec<i64> = Vec::new();
    let mut i: usize = 0;
    assert(raw@.skip(0) =~= raw@);
    while i < raw.len()
        invariant
            i <= raw.len(),
            r.len() <= i,
            ascending_onto(r@, raw@.skip(i as int)) == ascending_onto(Seq::empty(), raw@),
        decreases raw.len() - i,
    {
        let ghost rest = raw@.skip(i as int);
        assert(rest[0] == raw@[i as int]);
        assert(rest.drop_first() =~= raw@.skip(i + 1));
        let t = raw[i];
        if MIN_TIMESTAMP <= t && t <= MAX_TIMESTAMP && (r.len() == 0 || r[r.len() - 1] < t) {
            r.push(t);
        }
        i += 1;
    }
    r
}

/// The instants of a list of dates.
pub open spec fn instants_of(dates: Seq<CalDateOrDateTimeView>) -> Seq<i64> {
    dates.map_values(|d: CalDateOrDateTimeView| instant_of(d) as i64)
}

/// See [`instants_of`].
pub fn date_instants(dates: &Vec<CalDateOrDateTime>) -> (r: Vec<i64>)
    ensures
        r@ == instants_of(dates.deep_view()),
        forall|i: int| 0 <= i < r.len() ==> near_range(#[trigger] r[i] as int),
{
    let mut r: Vec<i64> = Vec::new();
    let mut i: usize = 0;
    while i < dates.len()
        invariant
            i <= dates.len(),
            r.len() == i,
            forall|k: int|
                0 <= k < i ==> #[trigger] r[k] == instant_of(dates[k]@) && near_range(r[k] as int),
        decreases dates.len() - i,
    {
        r.push(dates[i].utc());
        i += 1;
    }
    assert(r@ =~= instants_of(dates.deep_view()));
    r
}

/// The bound of a window: the given instant, kept within the seconds that a
/// date-time can name, or `open` where no bound is given.
pub open spec fn bound(limit: Option<i64>, open: i64) -> i64 {
    match limit {
        None => open,
        Some(t) => if t < MIN_TIMESTAMP {
            MIN_TIMESTAMP
        } else if t > MAX_TIMESTAMP {
            MAX_TIMESTAMP
        } else {
            t
        },
    }
}

/// The instants that `rrule` finds for the recurrence set of an event within
/// a window, as it gives them.
pub open spec fn raw_instants(main: EventView, start: Option<i64>, end: Option<i64>) -> Seq<i64> {
    recurrence_instants(
        instant_of(main.dtstart->0) as i64,
        main.rrules,
        instants_of(main.rdates),
        main.exrules,
        instants_of(main.exdates),
        bound(start, MIN_TIMESTAMP),
        bound(end, MAX_TIMESTAMP),
        MAX_INSTANCES,
    )
}

/// The instants at which an event recurs within a window, in strictly
/// ascending order: the instants that `rrule` finds for its recurrence set,
/// without those that are out of range or out of order.
pub open spec fn occurrence_instants(main: EventView, start: Option<i64>, end: Option<i64>) -> Seq<
    i64,
> {
    ascending_onto(Seq::empty(), raw_instants(main, start, end))
}

/// An optional value in the timezone in which values are compared.
pub open spec fn normal_optional(v: Option<CalDateOrDateTimeView>) -> Option<CalDateOrDateTimeView> {
    match v {
        Some(x) => Some(normal_value(x)),
        None => None,
    }
}

/// The property of the given name that spells `v`, with the parameters of
/// the property `before` that it replaces: see [`normal_params`].
pub open spec fn rewritten_property(
    before: Option<PropertyView>,
    name: Seq<char>,
    v: CalDateOrDateTimeView,
) -> PropertyView {
    PropertyView {
        name,
        params: normal_params(
            match before {
                Some(p) => p.params,
                None => Seq::empty(),
            },
            v,
        ),
        value: Some(date_or_datetime_text(v)),
    }
}

/// The properties with the property of the given name rewritten to spell
/// `v`, where there is a value. The property keeps its place and its
/// parameters but `TZID`.
pub open spec fn rewritten(
    props: Seq<PropertyView>,
    name: Seq<char>,
    v: Option<CalDateOrDateTimeView>,
) -> Seq<PropertyView> {
    match v {
        Some(x) => replace_or_push(
            props,
            rewritten_property(crate::parser::find_property(props, name), name, x),
        ),
        None => props,
    }
}

/// The event with its start, time stamp, end, dates and excluded dates in the
/// timezone in which values are compared: UTC, or floating local time for
/// floating values. The properties `DTSTART`, `DTSTAMP` and `DTEND` are
/// rewritten to spell the new values: each keeps its place and its
/// parameters but `TZID`.
pub open spec fn normal_event(v: EventView) -> EventView {
    EventView {
        uid: v.uid,
        dtstamp: normal_value(v.dtstamp),
        dtstart: normal_optional(v.dtstart),
        dtend: normal_optional(v.dtend),
        duration: v.duration,
        rdates: v.rdates.map_values(|d: CalDateOrDateTimeView| normal_value(d)),
        rrules: v.rrules,
        exdates: v.exdates.map_values(|d: CalDateOrDateTimeView| normal_value(d)),
        exrules: v.exrules,
        recurid: v.recurid,
        summary: v.summary,
        properties: rewritten(
            rewritten(
                rewritten(v.properties, "DTSTART"@, normal_optional(v.dtstart)),
                "DTSTAMP"@,
                Some(normal_value(v.dtstamp)),
            ),
            "DTEND"@,
            normal_optional(v.dtend),
        ),
        alarms: v.alarms,
    }
}

/// The overrides as the expansion takes them: each in the timezone in which
/// values are compared, and all in the order of the instants that their
/// `RECURRENCE-ID`s name.
pub open spec fn normal_overrides(overrides: Seq<EventView>) -> Seq<EventView> {
    sorted_by_recurid(overrides.map_values(|o: EventView| normal_event(o)))
}

/// The instances of a recurring event within a window.
///
/// The main instance and its overrides are first put in the timezone in which
/// values are compared, and the overrides in the order of their
/// `RECURRENCE-ID`s. Where the main instance does not recur, or has no
/// start, the outcome is the main instance followed by the overrides. Else it
/// holds one instance for each instant at which the event recurs, in
/// ascending order.
pub open spec fn expanded(
    main: EventView,
    overrides: Seq<EventView>,
    start: Option<i64>,
    end: Option<i64>,
) -> Seq<EventView> {
    expanded_over(main, overrides, raw_instants(normal_event(main), start, end))
}

/// The instances of an event for the instants `raw` of its recurrence set;
/// see [`expanded`]. The instants are walked in ascending order: those that
/// are out of range or out of order are left out.
pub open spec fn expanded_over(main: EventView, overrides: Seq<EventView>, raw: Seq<i64>) -> Seq<
    EventView,
> {
    let normal = normal_event(main);
    let others = normal_overrides(overrides);
    if !recurs(normal) || normal.dtstart is None {
        seq![normal] + others
    } else {
        walk(
            ascending_onto(Seq::empty(), raw),
            normal.dtstart->0,
            others,
            normal,
            Seq::empty(),
        )
    }
}

fn normal_dates(dates: &Vec<CalDateOrDateTime>) -> (r: Vec<CalDateOrDateTime>)
    ensures
        r.deep_view() == dates.deep_view().map_values(|d: CalDateOrDateTimeView| normal_value(d)),
{
    let mut r: Vec<CalDateOrDateTime> = Vec::new();
    let mut i: usize = 0;
    while i < dates.len()
        invariant
            i <= dates.len(),
            r.len() == i,
            forall|k: int| 0 <= k < i ==> #[trigger] r[k]@ == normal_value(dates[k]@),
        decreases dates.len() - i,
    {
        r.push(dates[i].utc_or_local());
        i += 1;
    }
    assert(r.deep_view() =~= dates.deep_view().map_values(
        |d: CalDateOrDateTimeView| normal_value(d),
    ));
    r
}

fn normal_option(v: &Option<CalDateOrDateTime>) -> (r: Option<CalDateOrDateTime>)
    ensures
        crate::parser::ical::component::event::builder::optional_value(r) == normal_optional(
            crate::parser::ical::component::event::builder::optional_value(*v),
        ),
{
    match v {
        Some(x) => Some(x.utc_or_local()),
        None => None,
    }
}

fn rewrite(props: &mut Vec<Property>, name: &str, v: &Option<CalDateOrDateTime>)
    ensures
        final(props).deep_view() == rewritten(
            old(props).deep_view(),
            name@,
            crate::parser::ical::component::event::builder::optional_value(*v),
        ),
{
    match v {
        Some(x) => {
            let params = match crate::parser::get_property_in(props, name) {
                Some(p) => normal_parameters(&p.params, x),
                None => {
                    let none: Vec<(String, Vec<String>)> = Vec::new();
                    assert(none.deep_view() =~= Seq::empty());
                    normal_parameters(&none, x)
                },
            };
            let property = Property { name: name.to_owned(), params, value: Some(x.format()) };
            replace_or_push_property(props, property);
        },
        None => {},
    }
}

impl Duplicate for IcalEvent {
    fn duplicate(&self) -> (r: Self) {
        proof {
            use_type_invariant(self);
        }
        IcalEvent {
            uid: self.uid.clone(),
            dtstamp: self.dtstamp.clone(),
            dtstart: match &self.dtstart {
                Some(v) => Some(v.clone()),
                None => None,
            },
            dtend: match &self.dtend {
                Some(v) => Some(v.clone()),
                None => None,
            },
            duration: self.duration,
            rdates: duplicate_vec(&self.rdates),
            rrules: duplicate_vec(&self.rrules),
            exdates: duplicate_vec(&self.exdates),
            exrules: duplicate_vec(&self.exrules),
            recurid: match &self.recurid {
                Some(v) => Some(v.clone()),
                None => None,
            },
            summary: match &self.summary {
                Some(s) => Some(s.clone()),
                None => None,
            },
            properties: duplicate_vec(&self.properties),
            alarms: duplicate_vec(&self.alarms),
        }
    }
}

impl IcalEvent {
    /// The event in the timezone in which values are compared: see
    /// [`normal_event`].
    pub fn to_utc_or_local(self) -> (r: IcalEvent)
        ensures
            r@ == normal_event(self@),
    {
        proof {
            use_type_invariant(&self);
        }
        let dtstart = normal_option(&self.dtstart);
        let dtstamp = Some(self.dtstamp.utc_or_local());
        let dtend = normal_option(&self.dtend);
        let rdates = normal_dates(&self.rdates);
        let exdates = normal_dates(&self.exdates);
        let mut properties = self.properties;
        rewrite(&mut properties, "DTSTART", &dtstart);
        rewrite(&mut properties, "DTSTAMP", &dtstamp);
        rewrite(&mut properties, "DTEND", &dtend);
        IcalEvent {
            uid: self.uid,
            dtstamp: dtstamp.unwrap(),
            dtstart,
            dtend,
            duration: self.duration,
            rdates,
            rrules: self.rrules,
            exdates,
            exrules: self.exrules,
            recurid: self.recurid,
            summary: self.summary,
            properties,
            alarms: self.alarms,
        }
    }

    /// The start of an instance at the instant `t`: see [`candidate`].
    fn candidate_at(main_start: &CalDateOrDateTime, t: i64) -> (r: CalDateOrDateTime)
        requires
            in_range(t as int),
            timezone_of(main_start@) == normal_zone(timezone_of(main_start@)),
        ensures
            r@ == candidate(main_start@, t as int),
    {
        match main_start {
            CalDateOrDateTime::Date(d) => {
                let day = day_number(t);
                match CalDate::new(day, d.timezone().clone()) {
                    Some(date) => CalDateOrDateTime::Date(date),
                    None => main_start.clone(),
                }
            },
            CalDateOrDateTime::DateTime(dt) => {
                let made = if dt.timezone().is_local() {
                    CalDateTime::from_local(t)
                } else {
                    CalDateTime::from_utc(t)
                };
                match made {
                    Some(v) => CalDateOrDateTime::DateTime(v),
                    None => main_start.clone(),
                }
            },
        }
    }

    /// The instance that is made from this template for the start `c`: see
    /// [`synthesized`].
    pub fn instance(&self, c: &CalDateOrDateTime) -> (r: IcalEvent)
        ensures
            r@ == synthesized(self@, c@),
    {
        let length = self.get_duration();
        let mut properties = copy_properties(&self.properties);
        replace_or_push_property(&mut properties, make_dated_property("DTSTART", c));
        let recurid = IcalRECURIDProperty(c.clone(), RecurIdRange::This);
        replace_or_push_property(&mut properties, recurid.to_property());
        match &length {
            Some(d) => {
                let name = "DURATION";
                let params: Vec<(String, Vec<String>)> = Vec::new();
                assert(params.deep_view() =~= Seq::empty());
                let p = Property { name: name.to_owned(), params, value: Some(d.format()) };
                replace_or_push_property(&mut properties, p);
            },
            None => {},
        }
        let r = IcalEvent {
            uid: self.uid.clone(),
            dtstamp: self.dtstamp.clone(),
            dtstart: Some(c.clone()),
            dtend: None,
            duration: length,
            rdates: Vec::new(),
            rrules: Vec::new(),
            exdates: Vec::new(),
            exrules: Vec::new(),
            recurid: Some(recurid),
            summary: match &self.summary {
                Some(s) => Some(s.clone()),
                None => None,
            },
            properties,
            alarms: Vec::new(),
        };
        proof {
            assert(r.rdates.deep_view() =~= Seq::empty());
            assert(r.rrules.deep_view() =~= Seq::empty());
            assert(r.exdates.deep_view() =~= Seq::empty());
            assert(r.exrules.deep_view() =~= Seq::empty());
            assert(r.alarms.deep_view() =~= Seq::empty());
        }
        r
    }
}

/// See [`bound`].
fn window_bound(limit: Option<i64>, open: i64) -> (r: i64)
    requires
        in_range(open as int),
    ensures
        r == bound(limit, open),
        in_range(r as int),
{
    match limit {
        None => open,
        Some(t) => if t < MIN_TIMESTAMP {
            MIN_TIMESTAMP
        } else if t > MAX_TIMESTAMP {
            MAX_TIMESTAMP
        } else {
            t
        },
    }
}

/// See [`matching_override`].
fn find_override(overrides: &Vec<IcalEvent>, c: &CalDateOrDateTime) -> (r: usize)
    ensures
        r == matching_override(overrides.deep_view(), c@, 0),
        r <= overrides.len(),
        r < overrides.len() ==> names_moment(overrides[r as int]@, c@),
{
    let mut k: usize = 0;
    while k < overrides.len()
        invariant
            k <= overrides.len(),
            matching_override(overrides.deep_view(), c@, k as int) == matching_override(
                overrides.deep_view(),
                c@,
                0,
            ),
        decreases overrides.len() - k,
    {
        assert(overrides.deep_view()[k as int] == overrides[k as int]@);
        let names = match overrides[k].get_recurrence_id() {
            Some(recurid) => recurid.0.same_moment(c),
            None => false,
        };
        if names {
            return k;
        }
        k += 1;
    }
    k
}

/// The events in the timezone in which values are compared.
fn normal_events(events: &Vec<IcalEvent>) -> (r: Vec<IcalEvent>)
    ensures
        r.deep_view() == events.deep_view().map_values(|o: EventView| normal_event(o)),
{
    let mut r: Vec<IcalEvent> = Vec::new();
    let mut i: usize = 0;
    while i < events.len()
        invariant
            i <= events.len(),
            r.len() == i,
            forall|k: int| 0 <= k < i ==> #[trigger] r[k]@ == normal_event(events[k]@),
        decreases events.len() - i,
    {
        r.push(events[i].duplicate().to_utc_or_local());
        i += 1;
    }
    assert(r.deep_view() =~= events.deep_view().map_values(|o: EventView| normal_event(o)));
    r
}

/// The template that is in force: the main instance, or the override at the
/// given place.
pub open spec fn template_view(main: EventView, overrides: Seq<EventView>, at: Option<usize>) -> EventView {
    match at {
        None => main,
        Some(k) => overrides[k as int],
    }
}

impl IcalEvent {
    /// The instants at which the event recurs within a window: see
    /// [`occurrence_instants`].
    pub fn occurrences(&self, start: Option<i64>, end: Option<i64>) -> (r: Vec<i64>)
        requires
            self@.dtstart is Some,
        ensures
            r@ == occurrence_instants(self@, start, end),
            r.len() <= MAX_INSTANCES,
    {
        let raw = self.raw_occurrences(start, end);
        ascending(&raw)
    }

    /// The instants that `rrule` finds for the recurrence set of the event
    /// within a window: see [`raw_instants`].
    fn raw_occurrences(&self, start: Option<i64>, end: Option<i64>) -> (r: Vec<i64>)
        requires
            self@.dtstart is Some,
        ensures
            r@ == raw_instants(self@, start, end),
            r.len() <= MAX_INSTANCES,
    {
        proof {
            use_type_invariant(self);
        }
        let at = match &self.dtstart {
            Some(s) => s.utc(),
            None => 0,
        };
        let after = window_bound(start, MIN_TIMESTAMP);
        let before = window_bound(end, MAX_TIMESTAMP);
        let rdates = date_instants(&self.rdates);
        let exdates = date_instants(&self.exdates);
        proof {
            assert(start_instant(self@.dtstart) == Some(at));
            assert forall|i: int| 0 <= i < self.rrules.len() implies crate::parser::ical::component::event::rules::accepted_rule(
                #[trigger] self.rrules[i]@,
                at,
            ) by {
                assert(self@.rrules[i] == self.rrules[i]@);
            }
            assert forall|i: int| 0 <= i < self.exrules.len() implies crate::parser::ical::component::event::rules::accepted_rule(
                #[trigger] self.exrules[i]@,
                at,
            ) by {
                assert(self@.exrules[i] == self.exrules[i]@);
            }
        }
        rrule_instants(
            at,
            &self.rrules,
            &rdates,
            &self.exrules,
            &exdates,
            after,
            before,
            MAX_INSTANCES,
        )
    }

    /// The instances of the event within a window, given its overrides: see
    /// [`expanded`]. A window bound is an instant in seconds since 1970; it
    /// only says which instants are walked, not which override names which
    /// instant.
    pub fn expand_recurrence(
        &self,
        start: Option<i64>,
        end: Option<i64>,
        overrides: &Vec<IcalEvent>,
    ) -> (r: Vec<IcalEvent>)
        ensures
            r.deep_view() == expanded(self@, overrides.deep_view(), start, end),
    {
        let main = self.duplicate().to_utc_or_local();
        let raw = if main.has_rruleset() && main.dtstart.is_some() {
            main.raw_occurrences(start, end)
        } else {
            Vec::new()
        };
        self.expand_instants(&raw, overrides)
    }

    /// The instances of the event for the instants `raw` of its recurrence
    /// set, given its overrides: see [`expanded_over`].
    pub fn expand_instants(&self, raw: &Vec<i64>, overrides: &Vec<IcalEvent>) -> (r: Vec<IcalEvent>)
        ensures
            r.deep_view() == expanded_over(self@, overrides.deep_view(), raw@),
    {
        let main = self.duplicate().to_utc_or_local();
        let others = sort_by_recurid(normal_events(overrides));
        let ghost main_view = main@;
        let ghost other_views = others.deep_view();
        if !main.has_rruleset() || main.dtstart.is_none() {
            let mut r: Vec<IcalEvent> = Vec::new();
            r.push(main);
            let mut rest = others;
            r.append(&mut rest);
            assert(r.deep_view() =~= seq![main_view] + other_views);
            return r;
        }
        let instants = ascending(raw);
        let main_start = match &main.dtstart {
            Some(s) => s.clone(),
            None => main.dtstamp.clone(),
        };
        let mut events: Vec<IcalEvent> = Vec::new();
        let mut template: Option<usize> = None;
        let mut i: usize = 0;
        proof {
            assert(events.deep_view() =~= Seq::empty());
            assert(instants@.skip(0) =~= instants@);
            lemma_ascending_in_range(Seq::empty(), raw@);
        }
        while i < instants.len()
            invariant
                i <= instants.len(),
                main@ == main_view,
                others.deep_view() == other_views,
                main_start@ == main_view.dtstart->0,
                timezone_of(main_start@) == normal_zone(timezone_of(main_start@)),
                template matches Some(k) ==> k < others.len(),
                forall|j: int| 0 <= j < instants.len() ==> in_range(#[trigger] instants[j] as int),
                walk(
                    instants@.skip(i as int),
                    main_view.dtstart->0,
                    other_views,
                    template_view(main_view, other_views, template),
                    events.deep_view(),
                ) == walk(instants@, main_view.dtstart->0, other_views, main_view, Seq::empty()),
            decreases instants.len() - i,
        {
            let ghost rest = instants@.skip(i as int);
            assert(rest[0] == instants[i as int]);
            assert(rest.drop_first() =~= instants@.skip(i + 1));
            let c = IcalEvent::candidate_at(&main_start, instants[i]);
            let k = find_override(&others, &c);
            let ghost before = events;
            if k < others.len() {
                assert(other_views[k as int] == others[k as int]@);
                let item = others[k].duplicate();
                let reaches = match others[k].get_recurrence_id() {
                    Some(recurid) => match recurid.1 {
                        RecurIdRange::ThisAndFuture => true,
                        RecurIdRange::This => false,
                    },
                    None => false,
                };
                let ghost pushed = item;
                events.push(item);
                proof {
                    lemma_push_deep_view(before, events, pushed);
                }
                if reaches {
                    template = Some(k);
                }
            } else {
                let item = match template {
                    None => main.instance(&c),
                    Some(t) => {
                        assert(other_views[t as int] == others[t as int]@);
                        others[t].instance(&c)
                    },
                };
                let ghost pushed = item;
                events.push(item);
                proof {
                    lemma_push_deep_view(before, events, pushed);
                }
            }
            i += 1;
        }
        events
    }
}

/// Whether every instant is one that a date-time can name and each is later
/// than the one in front of it.
pub open spec fn strictly_ascending(s: Seq<i64>) -> bool {
    &&& forall|j: int| 0 <= j < s.len() ==> in_range(#[trigger] s[j] as int)
    &&& forall|j: int, k: int| 0 <= j < k < s.len() ==> #[trigger] s[j] < #[trigger] s[k]
}

/// What [`ascending_onto`] gives is strictly ascending.
pub proof fn lemma_ascending_in_range(acc: Seq<i64>, raw: Seq<i64>)
    requires
        strictly_ascending(acc),
    ensures
        strictly_ascending(ascending_onto(acc, raw)),
    decreases raw.len(),
{
    if raw.len() > 0 {
        if in_range(raw[0] as int) && (acc.len() == 0 || acc[acc.len() - 1] < raw[0]) {
            let next = acc.push(raw[0]);
            assert forall|j: int, k: int| 0 <= j < k < next.len() implies #[trigger] next[j]
                < #[trigger] next[k] by {
                if k == acc.len() && j < acc.len() - 1 {
                    assert(acc[j] < acc[acc.len() - 1]);
                }
            }
            lemma_ascending_in_range(next, raw.drop_first());
        } else {
            lemma_ascending_in_range(acc, raw.drop_first());
        }
    }
}

/// The template that is in force behind the first `n` instants, where
/// `template` is in force in front of the first.
pub open spec fn template_from(
    instants: Seq<i64>,
    main_start: CalDateOrDateTimeView,
    overrides: Seq<EventView>,
    template: EventView,
    n: int,
) -> EventView
    decreases n,
{
    if n <= 0 {
        template
    } else {
        template_after(
            overrides,
            template_from(instants, main_start, overrides, template, n - 1),
            candidate(main_start, instants[n - 1] as int),
        )
    }
}

proof fn lemma_template_shift(
    instants: Seq<i64>,
    main_start: CalDateOrDateTimeView,
    overrides: Seq<EventView>,
    template: EventView,
    n: int,
)
    requires
        0 <= n < instants.len(),
    ensures
        template_from(instants, main_start, overrides, template, n + 1) == template_from(
            instants.drop_first(),
            main_start,
            overrides,
            template_after(overrides, template, candidate(main_start, instants[0] as int)),
            n,
        ),
    decreases n,
{
    let rest = instants.drop_first();
    let next = template_after(overrides, template, candidate(main_start, instants[0] as int));
    if n > 0 {
        lemma_template_shift(instants, main_start, overrides, template, n - 1);
        assert(rest[n - 1] == instants[n]);
        assert(template_from(instants, main_start, overrides, template, n + 1) == template_after(
            overrides,
            template_from(instants, main_start, overrides, template, n),
            candidate(main_start, instants[n] as int),
        ));
        assert(template_from(rest, main_start, overrides, next, n) == template_after(
            overrides,
            template_from(rest, main_start, overrides, next, n - 1),
            candidate(main_start, rest[n - 1] as int),
        ));
    } else {
        assert(template_from(instants, main_start, overrides, template, 0) == template);
        assert(template_from(instants, main_start, overrides, template, 1) == template_after(
            overrides,
            template_from(instants, main_start, overrides, template, 0),
            candidate(main_start, instants[0] as int),
        ));
        assert(template_from(rest, main_start, overrides, next, 0) == next);
    }
}

/// The walk gives one instance for each instant, in the order of the
/// instants: the instance for the start of that instant under the template
/// that is in force there.
pub proof fn lemma_walk(
    instants: Seq<i64>,
    main_start: CalDateOrDateTimeView,
    overrides: Seq<EventView>,
    template: EventView,
    acc: Seq<EventView>,
)
    ensures
        walk(instants, main_start, overrides, template, acc).len() == acc.len() + instants.len(),
        forall|i: int|
            0 <= i < acc.len() ==> #[trigger] walk(instants, main_start, overrides, template, acc)[i]
                == acc[i],
        forall|i: int|
            0 <= i < instants.len() ==> #[trigger] walk(
                instants,
                main_start,
                overrides,
                template,
                acc,
            )[acc.len() + i] == instance_at(
                overrides,
                template_from(instants, main_start, overrides, template, i),
                candidate(main_start, instants[i] as int),
            ),
    decreases instants.len(),
{
    if instants.len() > 0 {
        let c = candidate(main_start, instants[0] as int);
        let next = template_after(overrides, template, c);
        let grown = acc.push(instance_at(overrides, template, c));
        let rest = instants.drop_first();
        lemma_walk(rest, main_start, overrides, next, grown);
        let out = walk(instants, main_start, overrides, template, acc);
        assert(out == walk(rest, main_start, overrides, next, grown));
        assert forall|i: int| 0 <= i < acc.len() implies #[trigger] out[i] == acc[i] by {
            assert(grown[i] == acc[i]);
        }
        assert forall|i: int| 0 <= i < instants.len() implies #[trigger] out[acc.len() + i]
            == instance_at(
            overrides,
            template_from(instants, main_start, overrides, template, i),
            candidate(main_start, instants[i] as int),
        ) by {
            if i == 0 {
                assert(out[acc.len() as int] == grown[acc.len() as int]);
            } else {
                assert(out[grown.len() + (i - 1)] == instance_at(
                    overrides,
                    template_from(rest, main_start, overrides, next, i - 1),
                    candidate(main_start, rest[i - 1] as int),
                ));
                lemma_template_shift(instants, main_start, overrides, template, i - 1);
                assert(rest[i - 1] == instants[i]);
            }
        }
    }
}

proof fn lemma_matching_override(overrides: Seq<EventView>, c: CalDateOrDateTimeView, from: int)
    requires
        0 <= from,
    ensures
        from <= matching_override(overrides, c, from) || matching_override(overrides, c, from)
            == overrides.len(),
        matching_override(overrides, c, from) <= overrides.len(),
        matching_override(overrides, c, from) < overrides.len() ==> names_moment(
            overrides[matching_override(overrides, c, from)],
            c,
        ),
    decreases overrides.len() - from,
{
    if from < overrides.len() && !names_moment(overrides[from], c) {
        lemma_matching_override(overrides, c, from + 1);
    }
}

/// Whether an event that recurs is expanded into instances: it says
/// something of its recurrence and has a start.
pub open spec fn is_recurring(main: EventView) -> bool {
    recurs(normal_event(main)) && normal_event(main).dtstart is Some
}

/// The start that the instance at the place `i` of an expansion has.
pub open spec fn occurrence_start(main: EventView, start: Option<i64>, end: Option<i64>, i: int) -> CalDateOrDateTimeView {
    candidate(
        normal_event(main).dtstart->0,
        occurrence_instants(normal_event(main), start, end)[i] as int,
    )
}

/// Whether the instant at the place `m` of an expansion is named by an
/// override that reaches into the future.
pub open spec fn reaching_override_at(
    main: EventView,
    overrides: Seq<EventView>,
    start: Option<i64>,
    end: Option<i64>,
    m: int,
) -> bool {
    let others = normal_overrides(overrides);
    let km = matching_override(others, occurrence_start(main, start, end, m), 0);
    km < others.len() && reaches_on(others[km])
}

/// Expanding the same event with the same overrides and the same window
/// gives the same instances, whenever it is done: two outcomes of the
/// expansion are equal. The instances follow the instants at which the event
/// recurs, one for each; these instants are strictly ascending, and each
/// instance names the start of its instant as the instance that it is.
pub proof fn lemma_expansion_is_determined_and_ascending(
    main: EventView,
    overrides: Seq<EventView>,
    start: Option<i64>,
    end: Option<i64>,
    first: Seq<EventView>,
    second: Seq<EventView>,
)
    requires
        first == expanded(main, overrides, start, end),
        second == expanded(main, overrides, start, end),
    ensures
        first == second,
        is_recurring(main) ==> first.len() == occurrence_instants(
            normal_event(main),
            start,
            end,
        ).len(),
        is_recurring(main) ==> strictly_ascending(
            occurrence_instants(normal_event(main), start, end),
        ),
        is_recurring(main) ==> forall|i: int|
            0 <= i < first.len() ==> names_moment(
                #[trigger] first[i],
                occurrence_start(main, start, end, i),
            ),
{
    if is_recurring(main) {
        let normal = normal_event(main);
        let others = normal_overrides(overrides);
        let instants = occurrence_instants(normal, start, end);
        let ms = normal.dtstart->0;
        lemma_walk(instants, ms, others, normal, Seq::empty());
        lemma_ascending_in_range(
            Seq::empty(),
            raw_instants(normal, start, end),
        );
        assert forall|i: int| 0 <= i < first.len() implies names_moment(
            #[trigger] first[i],
            occurrence_start(main, start, end, i),
        ) by {
            let c = candidate(ms, instants[i] as int);
            let template = template_from(instants, ms, others, normal, i);
            assert(first[0 + i] == instance_at(others, template, c));
            lemma_matching_override(others, c, 0);
        }
    }
}

/// An override comes before a made instance. Where the first override that
/// names the start of an instant stands at the place `k` of the overrides in
/// their order, the instance for that instant is exactly that override: one
/// of the overrides that were given, put in the timezone in which values are
/// compared. Where that override reaches into the future,
/// it is the template of every later instance that is made, up to the next
/// override that reaches into the future: such an instance is made from the
/// override and not from the main instance.
pub proof fn lemma_override_precedence(
    main: EventView,
    overrides: Seq<EventView>,
    start: Option<i64>,
    end: Option<i64>,
    i: int,
    j: int,
)
    requires
        is_recurring(main),
        0 <= i < j < expanded(main, overrides, start, end).len(),
    ensures
        ({
            let others = normal_overrides(overrides);
            let out = expanded(main, overrides, start, end);
            let k = matching_override(others, occurrence_start(main, start, end, i), 0);
            &&& k < others.len() ==> out[i] == others[k] && exists|n: int|
                0 <= n < overrides.len() && out[i] == normal_event(#[trigger] overrides[n])
            &&& (k < others.len() && reaches_on(others[k]) && (forall|m: int|
                i < m < j ==> !#[trigger] reaching_override_at(main, overrides, start, end, m))
                && matching_override(others, occurrence_start(main, start, end, j), 0)
                >= others.len()) ==> out[j] == synthesized(
                others[k],
                occurrence_start(main, start, end, j),
            )
        }),
{
    let normal = normal_event(main);
    let others = normal_overrides(overrides);
    let instants = occurrence_instants(normal, start, end);
    let ms = normal.dtstart->0;
    let out = expanded(main, overrides, start, end);
    lemma_walk(instants, ms, others, normal, Seq::empty());
    let ci = occurrence_start(main, start, end, i);
    let k = matching_override(others, ci, 0);
    lemma_matching_override(others, ci, 0);
    assert(out[0 + i] == instance_at(others, template_from(instants, ms, others, normal, i), ci));
    assert(out[0 + j] == instance_at(
        others,
        template_from(instants, ms, others, normal, j),
        occurrence_start(main, start, end, j),
    ));
    if k < others.len() {
        let given = overrides.map_values(|o: EventView| normal_event(o));
        lemma_sorted_item(given, k);
        let n = choose|n: int| 0 <= n < given.len() && given[n] == others[k];
        assert(out[i] == normal_event(overrides[n]));
    }
    if k < others.len() && reaches_on(others[k]) && (forall|m: int|
        i < m < j ==> !#[trigger] reaching_override_at(main, overrides, start, end, m)) {
        assert(template_from(instants, ms, others, normal, i + 1) == others[k]);
        lemma_template_kept(main, overrides, start, end, i + 1, j, others[k]);
    }
}

proof fn lemma_template_kept(
    main: EventView,
    overrides: Seq<EventView>,
    start: Option<i64>,
    end: Option<i64>,
    from: int,
    to: int,
    template: EventView,
)
    requires
        is_recurring(main),
        0 < from <= to,
        template_from(
            occurrence_instants(normal_event(main), start, end),
            normal_event(main).dtstart->0,
            normal_overrides(overrides),
            normal_event(main),
            from,
        ) == template,
        forall|m: int|
            from <= m < to ==> !#[trigger] reaching_override_at(main, overrides, start, end, m),
    ensures
        template_from(
            occurrence_instants(normal_event(main), start, end),
            normal_event(main).dtstart->0,
            normal_overrides(overrides),
            normal_event(main),
            to,
        ) == template,
    decreases to - from,
{
    if from < to {
        lemma_template_kept(main, overrides, start, end, from, to - 1, template);
        assert(!reaching_override_at(main, overrides, start, end, to - 1));
    }
}

} // verus!
