//! Splitting of a calendar into calendars of one entry each.
//!
//! Events, to-dos and journal entries are grouped by their unique
//! identifier, and the groups come in the order of their identifiers. Alarms
//! and statements of free and busy time each stand alone. Every part keeps
//! the properties of the calendar and the timezone definitions that it
//! names.
use crate::parser::ical::component::alarm::{AlarmView, IcalAlarm};
use crate::parser::ical::component::calendar::{CalendarView, IcalCalendar};
use crate::parser::ical::component::calendar_object::Instance;
use crate::parser::ical::component::event::{EventView, IcalEvent};
use crate::parser::ical::component::freebusy::{FreeBusyView, IcalFreeBusy};
use crate::parser::ical::component::journal::{journal_valid, IcalJournal, JournalView};
use crate::parser::ical::component::timezone::{timezone_valid, IcalTimeZone, TimeZoneView};
use crate::parser::ical::component::todo::{alarm_tzids_onto, todo_tzids, todo_valid, IcalTodo, TodoView};
use crate::parser::{property_value, tzids_of, views, Component};
use crate::property::{duplicate_vec, lemma_push_deep_view, Duplicate, Property, PropertyView};
use crate::text::to_chars;
use vstd::prelude::*;

verus! {

/// Components that can stand in a calendar of their own.
pub trait Member: View + Sized {
    /// The timezone identifiers that a component names.
    spec fn tzids_in(v: Self::V) -> Seq<Seq<char>>;

    /// A copy of the component.
    fn copy(&self) -> (r: Self)
        ensures
            r@ == self@,
    ;

    /// Whether the component names the timezone identifier.
    fn names_tzid(&self, tzid: &str) -> (r: bool)
        ensures
            r == Self::tzids_in(self@).contains(tzid@),
    ;
}

/// Whether a list of texts holds a text.
pub fn contains_text(list: &Vec<&str>, text: &str) -> (r: bool)
    ensures
        r == list.deep_view().contains(text@),
{
    let mut i: usize = 0;
    while i < list.len()
        invariant
            i <= list.len(),
            forall|j: int| 0 <= j < i ==> list.deep_view()[j] != text@,
        decreases list.len() - i,
    {
        assert(list.deep_view()[i as int] == list[i as int]@);
        if list[i].eq(text) {
            return true;
        }
        i += 1;
    }
    false
}

impl Member for IcalEvent {
    open spec fn tzids_in(v: EventView) -> Seq<Seq<char>> {
        alarm_tzids_onto(tzids_of(v.properties), v.alarms)
    }

    fn copy(&self) -> (r: Self) {
        self.duplicate()
    }

    fn names_tzid(&self, tzid: &str) -> (r: bool) {
        contains_text(&self.get_tzids(), tzid)
    }
}

impl Member for IcalTodo<true> {
    open spec fn tzids_in(v: TodoView) -> Seq<Seq<char>> {
        todo_tzids(v)
    }

    fn copy(&self) -> (r: Self) {
        self.duplicate()
    }

    fn names_tzid(&self, tzid: &str) -> (r: bool) {
        contains_text(&self.get_tzids(), tzid)
    }
}

impl Member for IcalJournal<true> {
    open spec fn tzids_in(v: JournalView) -> Seq<Seq<char>> {
        tzids_of(v.properties)
    }

    fn copy(&self) -> (r: Self) {
        self.duplicate()
    }

    fn names_tzid(&self, tzid: &str) -> (r: bool) {
        contains_text(&self.get_tzids(), tzid)
    }
}

impl Member for IcalAlarm<true> {
    open spec fn tzids_in(v: AlarmView) -> Seq<Seq<char>> {
        tzids_of(v.properties)
    }

    fn copy(&self) -> (r: Self) {
        self.duplicate()
    }

    fn names_tzid(&self, tzid: &str) -> (r: bool) {
        contains_text(&self.get_tzids(), tzid)
    }
}

impl Member for IcalFreeBusy<true> {
    open spec fn tzids_in(v: FreeBusyView) -> Seq<Seq<char>> {
        tzids_of(v.properties)
    }

    fn copy(&self) -> (r: Self) {
        self.duplicate()
    }

    fn names_tzid(&self, tzid: &str) -> (r: bool) {
        contains_text(&self.get_tzids(), tzid)
    }
}

/// Whether the first `n` components of a group name the timezone identifier.
pub open spec fn group_names<T: Member>(group: Seq<T::V>, tzid: Seq<char>, n: int) -> bool
    decreases n,
{
    if n <= 0 {
        false
    } else {
        group_names::<T>(group, tzid, n - 1) || T::tzids_in(group[n - 1]).contains(tzid)
    }
}

/// The identifier of a timezone definition.
pub open spec fn tzid_of(v: TimeZoneView) -> Seq<char> {
    property_value(v.properties, "TZID"@)->0
}

/// Those of the first `n` timezone definitions that a group names.
pub open spec fn used_timezones<T: Member>(timezones: Seq<TimeZoneView>, group: Seq<T::V>, n: int) -> Seq<
    TimeZoneView,
>
    decreases n,
{
    if n <= 0 {
        Seq::empty()
    } else {
        let before = used_timezones::<T>(timezones, group, n - 1);
        if group_names::<T>(group, tzid_of(timezones[n - 1]), group.len() as int) {
            before.push(timezones[n - 1])
        } else {
            before
        }
    }
}

fn group_uses<T: Member>(group: &Vec<T>, tzid: &str) -> (r: bool)
    ensures
        r == group_names::<T>(views(group@), tzid@, group.len() as int),
{
    let mut i: usize = 0;
    while i < group.len()
        invariant
            i <= group.len(),
            !group_names::<T>(views(group@), tzid@, i as int),
        decreases group.len() - i,
    {
        assert(views(group@)[i as int] == group[i as int]@);
        if group[i].names_tzid(tzid) {
            proof {
                lemma_group_names_grows::<T>(views(group@), tzid@, i + 1, group.len() as int);
            }
            return true;
        }
        i += 1;
    }
    false
}

proof fn lemma_group_names_grows<T: Member>(group: Seq<T::V>, tzid: Seq<char>, n: int, m: int)
    requires
        n <= m,
        group_names::<T>(group, tzid, n),
    ensures
        group_names::<T>(group, tzid, m),
    decreases m - n,
{
    if n < m {
        lemma_group_names_grows::<T>(group, tzid, n, m - 1);
    }
}

/// The timezone definitions that a group names: see [`used_timezones`].
pub fn select_timezones<T: Member>(timezones: &Vec<IcalTimeZone<true>>, group: &Vec<T>) -> (r: Vec<
    IcalTimeZone<true>,
>)
    requires
        forall|i: int| 0 <= i < timezones.len() ==> timezone_valid(#[trigger] timezones[i]@),
    ensures
        r.deep_view() == used_timezones::<T>(
            timezones.deep_view(),
            views(group@),
            timezones.len() as int,
        ),
        forall|i: int| 0 <= i < r.len() ==> timezone_valid(#[trigger] r[i]@),
{
    let mut r: Vec<IcalTimeZone<true>> = Vec::new();
    let mut i: usize = 0;
    assert(r.deep_view() =~= Seq::empty());
    while i < timezones.len()
        invariant
            i <= timezones.len(),
            forall|k: int| 0 <= k < timezones.len() ==> timezone_valid(#[trigger] timezones[k]@),
            r.deep_view() == used_timezones::<T>(timezones.deep_view(), views(group@), i as int),
            forall|k: int| 0 <= k < r.len() ==> timezone_valid(#[trigger] r[k]@),
        decreases timezones.len() - i,
    {
        assert(timezones.deep_view()[i as int] == timezones[i as int]@);
        if group_uses::<T>(group, timezones[i].get_tzid()) {
            let ghost before = r;
            let item = timezones[i].duplicate();
            assert(item@ == timezones[i as int]@);
            let ghost pushed = item;
            r.push(item);
            proof {
                lemma_push_deep_view(before, r, pushed);
                assert forall|k: int| 0 <= k < r.len() implies timezone_valid(#[trigger] r[k]@) by {
                    if k < before.len() {
                        assert(r[k] == before[k]);
                    }
                }
            }
        }
        i += 1;
    }
    r
}

/// Whether the text `a` comes before the text `b`: at the first place where
/// they differ `a` has the smaller character, or `a` ends there and `b` does
/// not.
pub open spec fn text_lt(a: Seq<char>, b: Seq<char>) -> bool
    decreases a.len(),
{
    if b.len() == 0 {
        false
    } else if a.len() == 0 {
        true
    } else if a[0] != b[0] {
        (a[0] as u32) < (b[0] as u32)
    } else {
        text_lt(a.drop_first(), b.drop_first())
    }
}

/// See [`text_lt`].
pub fn text_before(a: &str, b: &str) -> (r: bool)
    ensures
        r == text_lt(a@, b@),
{
    let x = to_chars(a);
    let y = to_chars(b);
    let mut i: usize = 0;
    assert(x@.skip(0) =~= x@);
    assert(y@.skip(0) =~= y@);
    while i < x.len() && i < y.len()
        invariant
            i <= x.len(),
            i <= y.len(),
            x@ == a@,
            y@ == b@,
            text_lt(x@.skip(i as int), y@.skip(i as int)) == text_lt(x@, y@),
        decreases x.len() - i,
    {
        let ghost xs = x@.skip(i as int);
        let ghost ys = y@.skip(i as int);
        assert(xs[0] == x@[i as int]);
        assert(ys[0] == y@[i as int]);
        assert(xs.drop_first() =~= x@.skip(i + 1));
        assert(ys.drop_first() =~= y@.skip(i + 1));
        let cx: char = x[i];
        let cy: char = y[i];
        if cx != cy {
            return (cx as u32) < (cy as u32);
        }
        i += 1;
    }
    i < y.len()
}

/// The identifiers `sorted` with `u` put in its place: in front of the
/// identifiers that come after it. An identifier that is there already is
/// not added.
pub open spec fn insert_ordered(sorted: Seq<Seq<char>>, u: Seq<char>) -> Seq<Seq<char>>
    decreases sorted.len(),
{
    if sorted.len() == 0 {
        seq![u]
    } else if sorted.last() == u {
        sorted
    } else if text_lt(sorted.last(), u) {
        sorted.push(u)
    } else {
        insert_ordered(sorted.drop_last(), u).push(sorted.last())
    }
}

/// The identifiers of the first `n` instances, each once, in order.
pub open spec fn ordered_uids<T: Instance>(items: Seq<T::V>, n: int) -> Seq<Seq<char>>
    decreases n,
{
    if n <= 0 {
        Seq::empty()
    } else {
        insert_ordered(ordered_uids::<T>(items, n - 1), T::uid_of(items[n - 1]))
    }
}

/// Those of the first `n` instances that have the identifier `uid`.
pub open spec fn members_with<T: Instance>(items: Seq<T::V>, uid: Seq<char>, n: int) -> Seq<T::V>
    decreases n,
{
    if n <= 0 {
        Seq::empty()
    } else {
        let before = members_with::<T>(items, uid, n - 1);
        if T::uid_of(items[n - 1]) == uid {
            before.push(items[n - 1])
        } else {
            before
        }
    }
}

proof fn lemma_insert_at(sorted: Seq<Seq<char>>, u: Seq<char>, pos: int)
    requires
        0 <= pos <= sorted.len(),
        forall|j: int| pos <= j < sorted.len() ==> sorted[j] != u && !text_lt(sorted[j], u),
    ensures
        insert_ordered(sorted, u) == insert_ordered(sorted.take(pos), u) + sorted.skip(pos),
    decreases sorted.len() - pos,
{
    if pos < sorted.len() {
        let shorter = sorted.drop_last();
        lemma_insert_at(shorter, u, pos);
        assert(shorter.take(pos) =~= sorted.take(pos));
        assert(shorter.skip(pos).push(sorted.last()) =~= sorted.skip(pos));
        assert(insert_ordered(sorted, u) == insert_ordered(shorter, u).push(sorted.last()));
        assert((insert_ordered(sorted.take(pos), u) + shorter.skip(pos)).push(sorted.last())
            =~= insert_ordered(sorted.take(pos), u) + sorted.skip(pos));
    } else {
        assert(sorted.take(pos) =~= sorted);
        assert(sorted.skip(pos) =~= Seq::<Seq<char>>::empty());
        assert(insert_ordered(sorted, u) + Seq::<Seq<char>>::empty() =~= insert_ordered(sorted, u));
    }
}

fn insert_uid(sorted: &mut Vec<String>, uid: &str)
    ensures
        final(sorted).deep_view() == insert_ordered(old(sorted).deep_view(), uid@),
{
    let ghost all = sorted.deep_view();
    let mut pos: usize = sorted.len();
    while pos > 0 && !sorted[pos - 1].as_str().eq(uid) && !text_before(
        sorted[pos - 1].as_str(),
        uid,
    )
        invariant
            pos <= sorted.len(),
            *sorted == *old(sorted),
            all == sorted.deep_view(),
            forall|j: int| pos <= j < sorted.len() ==> all[j] != uid@ && !text_lt(all[j], uid@),
        decreases pos,
    {
        assert(all[pos - 1] == sorted[pos - 1]@);
        pos -= 1;
    }
    proof {
        lemma_insert_at(all, uid@, pos as int);
        if pos > 0 {
            assert(all[pos - 1] == sorted[pos - 1]@);
            assert(all.take(pos as int).last() == all[pos - 1]);
        }
    }
    if pos > 0 && sorted[pos - 1].as_str().eq(uid) {
        assert(all.take(pos as int) + all.skip(pos as int) =~= all);
    } else {
        sorted.insert(pos, uid.to_owned());
        proof {
            assert(sorted.deep_view() =~= all.take(pos as int).push(uid@) + all.skip(pos as int));
            if pos > 0 {
                assert(insert_ordered(all.take(pos as int), uid@) == all.take(pos as int).push(
                    uid@,
                ));
            } else {
                assert(all.take(0) =~= Seq::<Seq<char>>::empty());
                assert(insert_ordered(all.take(0), uid@) =~= Seq::<Seq<char>>::empty().push(uid@));
            }
        }
    }
}

/// The identifiers of the instances, each once, in order: see
/// [`ordered_uids`].
pub fn collect_uids<T: Instance>(items: &Vec<T>) -> (r: Vec<String>)
    requires
        forall|i: int| 0 <= i < items.len() ==> T::usable(#[trigger] items[i]@),
    ensures
        r.deep_view() == ordered_uids::<T>(views(items@), items.len() as int),
{
    let mut r: Vec<String> = Vec::new();
    let mut i: usize = 0;
    assert(r.deep_view() =~= Seq::empty());
    while i < items.len()
        invariant
            i <= items.len(),
            forall|k: int| 0 <= k < items.len() ==> T::usable(#[trigger] items[k]@),
            r.deep_view() == ordered_uids::<T>(views(items@), i as int),
        decreases items.len() - i,
    {
        assert(views(items@)[i as int] == items[i as int]@);
        insert_uid(&mut r, items[i].uid());
        i += 1;
    }
    r
}

/// Copies of the instances that have the identifier `uid`: see
/// [`members_with`].
pub fn collect_members<T: Instance + Member>(items: &Vec<T>, uid: &str) -> (r: Vec<T>)
    requires
        forall|i: int| 0 <= i < items.len() ==> T::usable(#[trigger] items[i]@),
    ensures
        views(r@) == members_with::<T>(views(items@), uid@, items.len() as int),
        forall|i: int| 0 <= i < r.len() ==> T::usable(#[trigger] r[i]@),
{
    let mut r: Vec<T> = Vec::new();
    let mut i: usize = 0;
    assert(views(r@) =~= Seq::empty());
    while i < items.len()
        invariant
            i <= items.len(),
            forall|k: int| 0 <= k < items.len() ==> T::usable(#[trigger] items[k]@),
            views(r@) == members_with::<T>(views(items@), uid@, i as int),
            forall|k: int| 0 <= k < r.len() ==> T::usable(#[trigger] r[k]@),
        decreases items.len() - i,
    {
        assert(views(items@)[i as int] == items[i as int]@);
        if items[i].uid().eq(uid) {
            let ghost before = r;
            let item = items[i].copy();
            r.push(item);
            proof {
                assert(views(r@) =~= views(before@).push(items[i as int]@));
                assert forall|k: int| 0 <= k < r.len() implies T::usable(#[trigger] r[k]@) by {
                    if k < before.len() {
                        assert(r[k] == before[k]);
                    }
                }
            }
        }
        i += 1;
    }
    r
}

/// A calendar with the given properties and timezone definitions and
/// nothing else.
pub open spec fn bare_calendar(properties: Seq<PropertyView>, timezones: Seq<TimeZoneView>) -> CalendarView {
    CalendarView {
        properties,
        events: Seq::empty(),
        alarms: Seq::empty(),
        todos: Seq::empty(),
        journals: Seq::empty(),
        free_busys: Seq::empty(),
        timezones,
    }
}

/// The calendar of the events of a calendar that have the identifier `uid`.
pub open spec fn event_calendar(cal: CalendarView, uid: Seq<char>) -> CalendarView {
    let group = members_with::<IcalEvent>(cal.events, uid, cal.events.len() as int);
    CalendarView {
        events: group,
        ..bare_calendar(
            cal.properties,
            used_timezones::<IcalEvent>(cal.timezones, group, cal.timezones.len() as int),
        )
    }
}

/// The calendar of the to-dos of a calendar that have the identifier `uid`.
pub open spec fn todo_calendar(cal: CalendarView, uid: Seq<char>) -> CalendarView {
    let group = members_with::<IcalTodo<true>>(cal.todos, uid, cal.todos.len() as int);
    CalendarView {
        todos: group,
        ..bare_calendar(
            cal.properties,
            used_timezones::<IcalTodo<true>>(cal.timezones, group, cal.timezones.len() as int),
        )
    }
}

/// The calendar of the journal entries of a calendar that have the
/// identifier `uid`.
pub open spec fn journal_calendar(cal: CalendarView, uid: Seq<char>) -> CalendarView {
    let group = members_with::<IcalJournal<true>>(cal.journals, uid, cal.journals.len() as int);
    CalendarView {
        journals: group,
        ..bare_calendar(
            cal.properties,
            used_timezones::<IcalJournal<true>>(cal.timezones, group, cal.timezones.len() as int),
        )
    }
}

/// The calendar of one alarm of a calendar.
pub open spec fn alarm_calendar(cal: CalendarView, alarm: AlarmView) -> CalendarView {
    CalendarView {
        alarms: seq![alarm],
        ..bare_calendar(
            cal.properties,
            used_timezones::<IcalAlarm<true>>(cal.timezones, seq![alarm], cal.timezones.len() as int),
        )
    }
}

/// The calendar of one statement of free and busy time of a calendar.
pub open spec fn free_busy_calendar(cal: CalendarView, item: FreeBusyView) -> CalendarView {
    CalendarView {
        free_busys: seq![item],
        ..bare_calendar(
            cal.properties,
            used_timezones::<IcalFreeBusy<true>>(
                cal.timezones,
                seq![item],
                cal.timezones.len() as int,
            ),
        )
    }
}

/// The calendars of one entry each into which a calendar is split: one for
/// each identifier among its events, in the order of the identifiers; one for
/// each alarm; one for each identifier among its to-dos and one for each
/// among its journal entries, in order; and one for each statement of free
/// and busy time.
pub open spec fn expanded_calendar(cal: CalendarView) -> Seq<CalendarView> {
    ordered_uids::<IcalEvent>(cal.events, cal.events.len() as int).map_values(
        |u: Seq<char>| event_calendar(cal, u),
    ) + cal.alarms.map_values(|a: AlarmView| alarm_calendar(cal, a)) + ordered_uids::<
        IcalTodo<true>,
    >(cal.todos, cal.todos.len() as int).map_values(|u: Seq<char>| todo_calendar(cal, u))
        + ordered_uids::<IcalJournal<true>>(cal.journals, cal.journals.len() as int).map_values(
        |u: Seq<char>| journal_calendar(cal, u),
    ) + cal.free_busys.map_values(|f: FreeBusyView| free_busy_calendar(cal, f))
}

/// An empty list.
fn none<T: DeepView>() -> (r: Vec<T>)
    ensures
        r.deep_view() == Seq::<T::V>::empty(),
        r.len() == 0,
{
    let r: Vec<T> = Vec::new();
    assert(r.deep_view() =~= Seq::<T::V>::empty());
    r
}

/// A calendar with copies of the given properties and with the given
/// components.
fn part_with(
    properties: &Vec<Property>,
    events: Vec<IcalEvent>,
    alarms: Vec<IcalAlarm<true>>,
    todos: Vec<IcalTodo<true>>,
    journals: Vec<IcalJournal<true>>,
    free_busys: Vec<IcalFreeBusy<true>>,
    timezones: Vec<IcalTimeZone<true>>,
) -> (r: IcalCalendar)
    requires
        forall|i: int| 0 <= i < todos.len() ==> todo_valid(#[trigger] todos[i]@),
        forall|i: int| 0 <= i < journals.len() ==> journal_valid(#[trigger] journals[i]@),
        forall|i: int| 0 <= i < timezones.len() ==> timezone_valid(#[trigger] timezones[i]@),
    ensures
        r@ == (CalendarView {
            properties: properties.deep_view(),
            events: events.deep_view(),
            alarms: alarms.deep_view(),
            todos: todos.deep_view(),
            journals: journals.deep_view(),
            free_busys: free_busys.deep_view(),
            timezones: timezones.deep_view(),
        }),
{
    IcalCalendar::from_parts(
        duplicate_vec(properties),
        events,
        alarms,
        todos,
        journals,
        free_busys,
        timezones,
    )
}

impl IcalCalendar {
    /// Splits the calendar into calendars of one entry each: see
    /// [`expanded_calendar`].
    pub fn expand_calendar(self) -> (r: Vec<IcalCalendar>)
        ensures
            r.deep_view() == expanded_calendar(self@),
    {
        let ghost cal = self@;
        let mut out: Vec<IcalCalendar> = Vec::new();
        assert(out.deep_view() =~= Seq::empty());
        let timezones = self.get_timezones();
        // events
        let events = self.get_events();
        assert(views(events@) =~= cal.events);
        let uids = collect_uids::<IcalEvent>(events);
        let ghost event_uids = uids.deep_view();
        let mut i: usize = 0;
        while i < uids.len()
            invariant
                i <= uids.len(),
                self@ == cal,
                events.deep_view() == cal.events,
                views(events@) == cal.events,
                timezones.deep_view() == cal.timezones,
                forall|k: int| 0 <= k < timezones.len() ==> timezone_valid(#[trigger] timezones[k]@),
                uids.deep_view() == event_uids,
                out.deep_view() == event_uids.take(i as int).map_values(
                    |u: Seq<char>| event_calendar(cal, u),
                ),
            decreases uids.len() - i,
        {
            assert(event_uids[i as int] == uids[i as int]@);
            let group = collect_members::<IcalEvent>(events, uids[i].as_str());
            let zones = select_timezones::<IcalEvent>(timezones, &group);
            assert(views(group@) =~= group.deep_view());
            let part = part_with(self.get_properties(), group, none(), none(), none(), none(), zones);
            let ghost before = out;
            let ghost pushed = part;
            out.push(part);
            proof {
                lemma_push_deep_view(before, out, pushed);
                assert(pushed@ == event_calendar(cal, event_uids[i as int]));
                assert(out.deep_view() =~= event_uids.take(i + 1).map_values(
                    |u: Seq<char>| event_calendar(cal, u),
                ));
            }
            i += 1;
        }
        assert(event_uids.take(uids.len() as int) =~= event_uids);
        let ghost done_events = out.deep_view();
        // alarms
        let alarms = self.get_alarms();
        let mut i: usize = 0;
        assert(out.deep_view() =~= done_events + cal.alarms.take(0).map_values(
            |a: AlarmView| alarm_calendar(cal, a),
        ));
        while i < alarms.len()
            invariant
                i <= alarms.len(),
                self@ == cal,
                alarms.deep_view() == cal.alarms,
                timezones.deep_view() == cal.timezones,
                forall|k: int| 0 <= k < timezones.len() ==> timezone_valid(#[trigger] timezones[k]@),
                out.deep_view() == done_events + cal.alarms.take(i as int).map_values(
                    |a: AlarmView| alarm_calendar(cal, a),
                ),
            decreases alarms.len() - i,
        {
            assert(cal.alarms[i as int] == alarms[i as int]@);
            let mut group: Vec<IcalAlarm<true>> = Vec::new();
            group.push(alarms[i].copy());
            assert(views(group@) =~= seq![alarms[i as int]@]);
            assert(group.deep_view() =~= seq![alarms[i as int]@]);
            let zones = select_timezones::<IcalAlarm<true>>(timezones, &group);
            let part = part_with(self.get_properties(), none(), group, none(), none(), none(), zones);
            let ghost before = out;
            let ghost pushed = part;
            out.push(part);
            proof {
                lemma_push_deep_view(before, out, pushed);
                assert(pushed@ == alarm_calendar(cal, cal.alarms[i as int]));
                assert(out.deep_view() =~= done_events + cal.alarms.take(i + 1).map_values(
                    |a: AlarmView| alarm_calendar(cal, a),
                ));
            }
            i += 1;
        }
        assert(cal.alarms.take(alarms.len() as int) =~= cal.alarms);
        let ghost done_alarms = out.deep_view();
        // to-dos
        let todos = self.get_todos();
        assert(views(todos@) =~= cal.todos);
        let uids = collect_uids::<IcalTodo<true>>(todos);
        let ghost todo_uids = uids.deep_view();
        let mut i: usize = 0;
        assert(out.deep_view() =~= done_alarms + todo_uids.take(0).map_values(
            |u: Seq<char>| todo_calendar(cal, u),
        ));
        while i < uids.len()
            invariant
                i <= uids.len(),
                self@ == cal,
                views(todos@) == cal.todos,
                forall|k: int| 0 <= k < todos.len() ==> todo_valid(#[trigger] todos[k]@),
                timezones.deep_view() == cal.timezones,
                forall|k: int| 0 <= k < timezones.len() ==> timezone_valid(#[trigger] timezones[k]@),
                uids.deep_view() == todo_uids,
                out.deep_view() == done_alarms + todo_uids.take(i as int).map_values(
                    |u: Seq<char>| todo_calendar(cal, u),
                ),
            decreases uids.len() - i,
        {
            assert(todo_uids[i as int] == uids[i as int]@);
            let group = collect_members::<IcalTodo<true>>(todos, uids[i].as_str());
            let zones = select_timezones::<IcalTodo<true>>(timezones, &group);
            assert(views(group@) =~= group.deep_view());
            let part = part_with(self.get_properties(), none(), none(), group, none(), none(), zones);
            let ghost before = out;
            let ghost pushed = part;
            out.push(part);
            proof {
                lemma_push_deep_view(before, out, pushed);
                assert(pushed@ == todo_calendar(cal, todo_uids[i as int]));
                assert(out.deep_view() =~= done_alarms + todo_uids.take(i + 1).map_values(
                    |u: Seq<char>| todo_calendar(cal, u),
                ));
            }
            i += 1;
        }
        assert(todo_uids.take(uids.len() as int) =~= todo_uids);
        let ghost done_todos = out.deep_view();
        // journal entries
        let journals = self.get_journals();
        assert(views(journals@) =~= cal.journals);
        let uids = collect_uids::<IcalJournal<true>>(journals);
        let ghost journal_uids = uids.deep_view();
        let mut i: usize = 0;
        assert(out.deep_view() =~= done_todos + journal_uids.take(0).map_values(
            |u: Seq<char>| journal_calendar(cal, u),
        ));
        while i < uids.len()
            invariant
                i <= uids.len(),
                self@ == cal,
                views(journals@) == cal.journals,
                forall|k: int| 0 <= k < journals.len() ==> journal_valid(#[trigger] journals[k]@),
                timezones.deep_view() == cal.timezones,
                forall|k: int| 0 <= k < timezones.len() ==> timezone_valid(#[trigger] timezones[k]@),
                uids.deep_view() == journal_uids,
                out.deep_view() == done_todos + journal_uids.take(i as int).map_values(
                    |u: Seq<char>| journal_calendar(cal, u),
                ),
            decreases uids.len() - i,
        {
            assert(journal_uids[i as int] == uids[i as int]@);
            let group = collect_members::<IcalJournal<true>>(journals, uids[i].as_str());
            let zones = select_timezones::<IcalJournal<true>>(timezones, &group);
            assert(views(group@) =~= group.deep_view());
            let part = part_with(self.get_properties(), none(), none(), none(), group, none(), zones);
            let ghost before = out;
            let ghost pushed = part;
            out.push(part);
            proof {
                lemma_push_deep_view(before, out, pushed);
                assert(pushed@ == journal_calendar(cal, journal_uids[i as int]));
                assert(out.deep_view() =~= done_todos + journal_uids.take(i + 1).map_values(
                    |u: Seq<char>| journal_calendar(cal, u),
                ));
            }
            i += 1;
        }
        assert(journal_uids.take(uids.len() as int) =~= journal_uids);
        let ghost done_journals = out.deep_view();
        // free and busy time
        let free_busys = self.get_free_busys();
        let mut i: usize = 0;
        assert(out.deep_view() =~= done_journals + cal.free_busys.take(0).map_values(
            |f: FreeBusyView| free_busy_calendar(cal, f),
        ));
        while i < free_busys.len()
            invariant
                i <= free_busys.len(),
                self@ == cal,
                free_busys.deep_view() == cal.free_busys,
                timezones.deep_view() == cal.timezones,
                forall|k: int| 0 <= k < timezones.len() ==> timezone_valid(#[trigger] timezones[k]@),
                out.deep_view() == done_journals + cal.free_busys.take(i as int).map_values(
                    |f: FreeBusyView| free_busy_calendar(cal, f),
                ),
            decreases free_busys.len() - i,
        {
            assert(cal.free_busys[i as int] == free_busys[i as int]@);
            let mut group: Vec<IcalFreeBusy<true>> = Vec::new();
            group.push(free_busys[i].copy());
            assert(views(group@) =~= seq![free_busys[i as int]@]);
            assert(group.deep_view() =~= seq![free_busys[i as int]@]);
            let zones = select_timezones::<IcalFreeBusy<true>>(timezones, &group);
            let part = part_with(self.get_properties(), none(), none(), none(), none(), group, zones);
            let ghost before = out;
            let ghost pushed = part;
            out.push(part);
            proof {
                lemma_push_deep_view(before, out, pushed);
                assert(pushed@ == free_busy_calendar(cal, cal.free_busys[i as int]));
                assert(out.deep_view() =~= done_journals + cal.free_busys.take(i + 1).map_values(
                    |f: FreeBusyView| free_busy_calendar(cal, f),
                ));
            }
            i += 1;
        }
        assert(cal.free_busys.take(free_busys.len() as int) =~= cal.free_busys);
        out
    }
}

} // verus!
