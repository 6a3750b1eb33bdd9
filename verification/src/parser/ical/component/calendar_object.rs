//! Calendar objects: one entry of a calendar with the instances that
//! override single occurrences of it.
//!
//! An object holds instances of one kind (events, to-dos or journal entries)
//! that share one unique identifier. One of them is the main instance: the
//! first that says when the entry recurs, or the first of all where none
//! does. Every other instance is an override and names the occurrence that it
//! replaces by a `RECURRENCE-ID`.
use crate::generator::{begin_block, block, end_block, generate_all, generated_all, Emitter};
use crate::generator::ical::{generate_properties, generated_properties};
use crate::parser::ical::component::calendar::{
    build_table, lemma_built_all, timezone_table,
};
use crate::parser::ical::component::event::{
    recurs, EventBuilderView, EventView, IcalEvent, IcalEventBuilder,
};
use crate::parser::ical::component::journal::{
    journal_valid, lemma_journal_checked_valid, IcalJournal, JournalView,
};
use crate::parser::ical::component::timezone::{timezone_valid, IcalTimeZone, TimeZoneView};
use crate::parser::ical::component::todo::{
    lemma_todo_checked_valid, todo_valid, IcalTodo, TodoView,
};
use crate::parser::accessor::text_of;
use crate::parser::{
    build_all, built_all, find_property, views, Component, ComponentMut, ParserError,
    ParserErrorView,
};
use crate::property::{Property, PropertyView};
use crate::parser::ical::component::calendar_object_builder::{
    CalendarObjectBuilderView, IcalCalendarObjectBuilder,
};
use crate::types::TimezoneTable;
use vstd::prelude::*;

verus! {

/// An instance of an entry: an event, a to-do or a journal entry.
pub trait Instance: View + Sized {
    /// What the accessors of the instance rely on.
    spec fn usable(v: Self::V) -> bool;

    /// The unique identifier of an instance.
    spec fn uid_of(v: Self::V) -> Seq<char>;

    /// Whether an instance says when its entry recurs.
    spec fn carries_rules(v: Self::V) -> bool;

    /// Whether an instance names an occurrence that it replaces.
    spec fn is_override(v: Self::V) -> bool;

    /// The unique identifier.
    fn uid(&self) -> (r: &str)
        requires
            Self::usable(self@),
        ensures
            r@ == Self::uid_of(self@),
    ;

    /// Whether the instance says when its entry recurs.
    fn has_rules(&self) -> (r: bool)
        ensures
            r == Self::carries_rules(self@),
    ;

    /// Whether the instance names an occurrence that it replaces.
    fn has_recurrence_id(&self) -> (r: bool)
        ensures
            r == Self::is_override(self@),
    ;
}

impl Instance for IcalEvent {
    open spec fn usable(v: EventView) -> bool {
        true
    }

    open spec fn uid_of(v: EventView) -> Seq<char> {
        v.uid
    }

    open spec fn carries_rules(v: EventView) -> bool {
        recurs(v)
    }

    open spec fn is_override(v: EventView) -> bool {
        v.recurid is Some
    }

    fn uid(&self) -> (r: &str) {
        self.get_uid()
    }

    fn has_rules(&self) -> (r: bool) {
        self.has_rruleset()
    }

    fn has_recurrence_id(&self) -> (r: bool) {
        self.get_recurrence_id().is_some()
    }
}

impl Instance for IcalTodo<true> {
    open spec fn usable(v: TodoView) -> bool {
        todo_valid(v)
    }

    open spec fn uid_of(v: TodoView) -> Seq<char> {
        text_of(find_property(v.properties, "UID"@)->0)
    }

    open spec fn carries_rules(v: TodoView) -> bool {
        find_property(v.properties, "RRULE"@) is Some
    }

    open spec fn is_override(v: TodoView) -> bool {
        find_property(v.properties, "RECURRENCE-ID"@) is Some
    }

    fn uid(&self) -> (r: &str) {
        self.get_uid()
    }

    fn has_rules(&self) -> (r: bool) {
        self.get_rrule().is_some()
    }

    fn has_recurrence_id(&self) -> (r: bool) {
        self.get_recurrence_id().is_some()
    }
}

impl Instance for IcalJournal<true> {
    open spec fn usable(v: JournalView) -> bool {
        journal_valid(v)
    }

    open spec fn uid_of(v: JournalView) -> Seq<char> {
        text_of(find_property(v.properties, "UID"@)->0)
    }

    open spec fn carries_rules(v: JournalView) -> bool {
        find_property(v.properties, "RRULE"@) is Some
    }

    open spec fn is_override(v: JournalView) -> bool {
        find_property(v.properties, "RECURRENCE-ID"@) is Some
    }

    fn uid(&self) -> (r: &str) {
        self.get_uid()
    }

    fn has_rules(&self) -> (r: bool) {
        crate::parser::get_property_in(&self.properties, "RRULE").is_some()
    }

    fn has_recurrence_id(&self) -> (r: bool) {
        crate::parser::get_property_in(&self.properties, "RECURRENCE-ID").is_some()
    }
}

/// The place of the first instance from `from` on with another identifier
/// than the first of all, or the number of instances where all agree.
pub open spec fn first_stranger<T: Instance>(items: Seq<T::V>, from: int) -> int
    decreases items.len() - from,
{
    if from < 0 || from >= items.len() {
        items.len() as int
    } else if T::uid_of(items[from]) != T::uid_of(items[0]) {
        from
    } else {
        first_stranger::<T>(items, from + 1)
    }
}

/// The place of the first instance from `from` on that says when the entry
/// recurs, or the number of instances where none does.
pub open spec fn first_with_rules<T: Instance>(items: Seq<T::V>, from: int) -> int
    decreases items.len() - from,
{
    if from < 0 || from >= items.len() {
        items.len() as int
    } else if T::carries_rules(items[from]) {
        from
    } else {
        first_with_rules::<T>(items, from + 1)
    }
}

/// The place of the main instance: the first that says when the entry
/// recurs, or the first of all where none does.
pub open spec fn main_place<T: Instance>(items: Seq<T::V>) -> int {
    let with_rules = first_with_rules::<T>(items, 0);
    if with_rules < items.len() {
        with_rules
    } else {
        0
    }
}

/// The place of the first instance from `from` on that is neither the main
/// instance nor an override, or the number of instances where there is none.
pub open spec fn first_unnamed<T: Instance>(items: Seq<T::V>, main: int, from: int) -> int
    decreases items.len() - from,
{
    if from < 0 || from >= items.len() {
        items.len() as int
    } else if from != main && !T::is_override(items[from]) {
        from
    } else {
        first_unnamed::<T>(items, main, from + 1)
    }
}

/// The main instance and the overrides among the instances of an object,
/// which are not empty. Instances with different identifiers are a fault. An
/// instance beside the main instance that names no occurrence is a fault: a
/// second main instance where it says when the entry recurs, else an override
/// without a `RECURRENCE-ID`.
pub open spec fn object_parts<T: Instance>(items: Seq<T::V>) -> Result<
    (T::V, Seq<T::V>),
    ParserErrorView,
> {
    let main = main_place::<T>(items);
    let unnamed = first_unnamed::<T>(items, main, 0);
    if first_stranger::<T>(items, 0) < items.len() {
        Err(ParserErrorView::DifferingUIDs)
    } else if unnamed < items.len() {
        if T::carries_rules(items[unnamed]) {
            Err(ParserErrorView::MultipleMainObjects)
        } else {
            Err(ParserErrorView::MissingRecurId)
        }
    } else {
        Ok((items[main], items.remove(main)))
    }
}

/// Tells the main instance from the overrides: see [`object_parts`].
pub fn split_instances<T: Instance>(items: Vec<T>) -> (r: Result<(T, Vec<T>), ParserError>)
    requires
        items.len() > 0,
        forall|i: int| 0 <= i < items.len() ==> T::usable(#[trigger] items[i]@),
    ensures
        match r {
            Ok((main, overrides)) => object_parts::<T>(views(items@)) == Ok::<
                (T::V, Seq<T::V>),
                ParserErrorView,
            >((main@, views(overrides@))),
            Err(e) => object_parts::<T>(views(items@)) == Err::<
                (T::V, Seq<T::V>),
                ParserErrorView,
            >(e@),
        },
{
    let ghost all = views(items@);
    let mut i: usize = 0;
    while i < items.len()
        invariant
            i <= items.len(),
            items.len() > 0,
            all == views(items@),
            forall|k: int| 0 <= k < items.len() ==> T::usable(#[trigger] items[k]@),
            first_stranger::<T>(all, i as int) == first_stranger::<T>(all, 0),
        decreases items.len() - i,
    {
        if !items[i].uid().eq(items[0].uid()) {
            return Err(ParserError::DifferingUIDs);
        }
        i += 1;
    }
    let mut main: usize = 0;
    while main < items.len() && !items[main].has_rules()
        invariant
            main <= items.len(),
            all == views(items@),
            first_with_rules::<T>(all, main as int) == first_with_rules::<T>(all, 0),
        decreases items.len() - main,
    {
        main += 1;
    }
    if main >= items.len() {
        main = 0;
    }
    let mut j: usize = 0;
    while j < items.len()
        invariant
            j <= items.len(),
            main < items.len(),
            main == main_place::<T>(all),
            all == views(items@),
            first_stranger::<T>(all, 0) >= all.len(),
            first_unnamed::<T>(all, main as int, j as int) == first_unnamed::<T>(
                all,
                main as int,
                0,
            ),
        decreases items.len() - j,
    {
        if j != main && !items[j].has_recurrence_id() {
            if items[j].has_rules() {
                return Err(ParserError::MultipleMainObjects);
            } else {
                return Err(ParserError::MissingRecurId);
            }
        }
        j += 1;
    }
    let mut rest = items;
    let first = rest.remove(main);
    assert(views(rest@) =~= all.remove(main as int));
    Ok((first, rest))
}

/// The instances of a calendar object.
#[derive(Debug)]
pub enum CalendarInnerData {
    Event(IcalEvent, Vec<IcalEvent>),
    Todo(IcalTodo<true>, Vec<IcalTodo<true>>),
    Journal(IcalJournal<true>, Vec<IcalJournal<true>>),
}

/// The instances of a calendar object as plain values.
pub enum CalendarInnerDataView {
    Event(EventView, Seq<EventView>),
    Todo(TodoView, Seq<TodoView>),
    Journal(JournalView, Seq<JournalView>),
}

impl View for CalendarInnerData {
    type V = CalendarInnerDataView;

    open spec fn view(&self) -> CalendarInnerDataView {
        match self {
            CalendarInnerData::Event(main, overrides) => CalendarInnerDataView::Event(
                main@,
                overrides.deep_view(),
            ),
            CalendarInnerData::Todo(main, overrides) => CalendarInnerDataView::Todo(
                main@,
                overrides.deep_view(),
            ),
            CalendarInnerData::Journal(main, overrides) => CalendarInnerDataView::Journal(
                main@,
                overrides.deep_view(),
            ),
        }
    }
}

/// What the accessors of the instances of an object rely on.
pub open spec fn inner_valid(v: CalendarInnerDataView) -> bool {
    match v {
        CalendarInnerDataView::Event(_, _) => true,
        CalendarInnerDataView::Todo(main, overrides) => todo_valid(main) && forall|i: int|
            0 <= i < overrides.len() ==> todo_valid(#[trigger] overrides[i]),
        CalendarInnerDataView::Journal(main, overrides) => journal_valid(main) && forall|i: int|
            0 <= i < overrides.len() ==> journal_valid(#[trigger] overrides[i]),
    }
}

/// The unique identifier of the instances of an object: that of its main
/// instance.
pub open spec fn inner_uid(v: CalendarInnerDataView) -> Seq<char> {
    match v {
        CalendarInnerDataView::Event(main, _) => IcalEvent::uid_of(main),
        CalendarInnerDataView::Todo(main, _) => IcalTodo::<true>::uid_of(main),
        CalendarInnerDataView::Journal(main, _) => IcalJournal::<true>::uid_of(main),
    }
}

impl CalendarInnerData {
    /// The unique identifier of the instances.
    pub fn get_uid(&self) -> (r: &str)
        requires
            inner_valid(self@),
        ensures
            r@ == inner_uid(self@),
    {
        match self {
            CalendarInnerData::Event(main, _) => main.get_uid(),
            CalendarInnerData::Todo(main, _) => main.get_uid(),
            CalendarInnerData::Journal(main, _) => main.get_uid(),
        }
    }
}

impl Emitter for CalendarInnerData {
    /// The text of the instances: the main instance, then the overrides.
    open spec fn generated(v: CalendarInnerDataView) -> Seq<char> {
        match v {
            CalendarInnerDataView::Event(main, overrides) => IcalEvent::generated(main)
                + generated_all::<IcalEvent>(overrides),
            CalendarInnerDataView::Todo(main, overrides) => IcalTodo::<true>::generated(main)
                + generated_all::<IcalTodo<true>>(overrides),
            CalendarInnerDataView::Journal(main, overrides) => IcalJournal::<true>::generated(main)
                + generated_all::<IcalJournal<true>>(overrides),
        }
    }

    fn generate(&self) -> (r: String) {
        match self {
            CalendarInnerData::Event(main, overrides) => {
                let mut out = main.generate();
                assert(views(overrides@) =~= overrides.deep_view());
                generate_all::<IcalEvent>(&mut out, overrides);
                out
            },
            CalendarInnerData::Todo(main, overrides) => {
                let mut out = main.generate();
                assert(views(overrides@) =~= overrides.deep_view());
                generate_all::<IcalTodo<true>>(&mut out, overrides);
                out
            },
            CalendarInnerData::Journal(main, overrides) => {
                let mut out = main.generate();
                assert(views(overrides@) =~= overrides.deep_view());
                generate_all::<IcalJournal<true>>(&mut out, overrides);
                out
            },
        }
    }
}

/// A checked calendar object.
#[derive(Debug)]
pub struct IcalCalendarObject {
    pub(crate) properties: Vec<Property>,
    pub(crate) inner: CalendarInnerData,
    pub(crate) timezones: Vec<IcalTimeZone<true>>,
    /// The timezone table of the object, which is made once from its
    /// timezone definitions.
    pub(crate) table: TimezoneTable,
}

/// A calendar object as a plain value.
pub struct CalendarObjectView {
    pub properties: Seq<PropertyView>,
    pub inner: CalendarInnerDataView,
    pub timezones: Seq<TimeZoneView>,
}

impl View for IcalCalendarObject {
    type V = CalendarObjectView;

    closed spec fn view(&self) -> CalendarObjectView {
        CalendarObjectView {
            properties: self.properties.deep_view(),
            inner: self.inner@,
            timezones: self.timezones.deep_view(),
        }
    }
}

/// What every checked calendar object fulfils: its instances and its timezone
/// definitions have the properties that their accessors rely on.
pub open spec fn object_valid(v: CalendarObjectView) -> bool {
    inner_valid(v.inner) && forall|i: int|
        0 <= i < v.timezones.len() ==> timezone_valid(#[trigger] v.timezones[i])
}

/// The drafts of the instances of an object, the main instance first.
pub open spec fn inner_drafts(v: CalendarInnerDataView) -> (
    Seq<EventBuilderView>,
    Seq<TodoView>,
    Seq<JournalView>,
) {
    match v {
        CalendarInnerDataView::Event(main, overrides) => (
            (seq![main] + overrides).map_values(|e: EventView| IcalEvent::draft_of(e)),
            Seq::empty(),
            Seq::empty(),
        ),
        CalendarInnerDataView::Todo(main, overrides) => (
            Seq::empty(),
            seq![main] + overrides,
            Seq::empty(),
        ),
        CalendarInnerDataView::Journal(main, overrides) => (
            Seq::empty(),
            Seq::empty(),
            seq![main] + overrides,
        ),
    }
}

/// The instances of an object as drafts, the main instance first.
fn draft_instances<C: Component>(main: C, overrides: Vec<C>) -> (r: Vec<C::Unverified>)
    ensures
        views(r@) == (seq![main@] + views(overrides@)).map_values(|v: C::V| C::draft_of(v)),
{
    let ghost all = seq![main@] + views(overrides@);
    let mut items: Vec<C> = Vec::new();
    items.push(main);
    let mut rest = overrides;
    items.append(&mut rest);
    assert(views(items@) =~= all);
    crate::parser::mutable_all(items)
}

impl Component for IcalCalendarObject {
    type Unverified = IcalCalendarObjectBuilder;

    open spec fn names() -> Seq<Seq<char>> {
        seq!["VCALENDAR"@]
    }

    open spec fn draft_of(v: CalendarObjectView) -> CalendarObjectBuilderView {
        CalendarObjectBuilderView {
            properties: v.properties,
            events: inner_drafts(v.inner).0,
            todos: inner_drafts(v.inner).1,
            journals: inner_drafts(v.inner).2,
            timezones: v.timezones,
        }
    }

    fn mutable(self) -> (r: IcalCalendarObjectBuilder) {
        let ghost v = self@;
        assert(views(self.timezones@) =~= v.timezones);
        let timezones = crate::parser::mutable_all(self.timezones);
        assert(timezones.deep_view() =~= v.timezones) by {
            assert(timezones.deep_view() =~= views(timezones@));
        }
        let mut events: Vec<IcalEventBuilder> = Vec::new();
        let mut todos: Vec<IcalTodo<false>> = Vec::new();
        let mut journals: Vec<IcalJournal<false>> = Vec::new();
        proof {
            assert(events.deep_view() =~= Seq::empty());
            assert(todos.deep_view() =~= Seq::empty());
            assert(journals.deep_view() =~= Seq::empty());
        }
        match self.inner {
            CalendarInnerData::Event(main, overrides) => {
                assert(views(overrides@) =~= overrides.deep_view());
                events = draft_instances(main, overrides);
                assert(events.deep_view() =~= views(events@));
            },
            CalendarInnerData::Todo(main, overrides) => {
                assert(views(overrides@) =~= overrides.deep_view());
                todos = draft_instances(main, overrides);
                assert(todos.deep_view() =~= views(todos@));
                assert(todos.deep_view() =~= inner_drafts(v.inner).1);
            },
            CalendarInnerData::Journal(main, overrides) => {
                assert(views(overrides@) =~= overrides.deep_view());
                journals = draft_instances(main, overrides);
                assert(journals.deep_view() =~= views(journals@));
                assert(journals.deep_view() =~= inner_drafts(v.inner).2);
            },
        }
        IcalCalendarObjectBuilder { properties: self.properties, events, todos, journals, timezones }
    }

    open spec fn properties_of(v: CalendarObjectView) -> Seq<PropertyView> {
        v.properties
    }

    fn is_name(name: &str) -> (r: bool) {
        let r = name.eq("VCALENDAR");
        assert(seq!["VCALENDAR"@][0] == "VCALENDAR"@);
        r
    }

    fn get_properties(&self) -> (r: &Vec<Property>) {
        &self.properties
    }
}

impl IcalCalendarObject {
    #[verifier::type_invariant]
    spec fn inv(self) -> bool {
        object_valid(self@) && self.table@ == timezone_table(
            self@.timezones,
            self@.timezones.len() as int,
        )
    }

    /// The unique identifier of the object.
    pub fn get_uid(&self) -> (r: &str)
        ensures
            r@ == inner_uid(self@.inner),
    {
        proof {
            use_type_invariant(self);
        }
        self.inner.get_uid()
    }

    /// The instances of the object.
    pub fn get_inner(&self) -> (r: &CalendarInnerData)
        ensures
            r@ == self@.inner,
            inner_valid(r@),
    {
        proof {
            use_type_invariant(self);
        }
        &self.inner
    }

    /// The timezone definitions of the object.
    pub fn get_timezones(&self) -> (r: &Vec<IcalTimeZone<true>>)
        ensures
            r.deep_view() == self@.timezones,
            forall|i: int| 0 <= i < r.len() ==> timezone_valid(#[trigger] r[i]@),
    {
        proof {
            use_type_invariant(self);
            assert forall|i: int| 0 <= i < self.timezones.len() implies timezone_valid(
                #[trigger] self.timezones[i]@,
            ) by {
                assert(self@.timezones[i] == self.timezones[i]@);
            }
        }
        &self.timezones
    }

    /// The timezone table of the object: see [`timezone_table`]. The table
    /// was made when the object was; it is not made again.
    pub fn timezone_table(&self) -> (r: &TimezoneTable)
        ensures
            r@ == timezone_table(self@.timezones, self@.timezones.len() as int),
    {
        proof {
            use_type_invariant(self);
        }
        &self.table
    }

    /// The instances of the entry within a window where the object holds
    /// events: see [`crate::parser::ical::component::event::recurrence::expanded`];
    /// nothing for to-dos and journal entries.
    pub fn expand_recurrence(&self, start: Option<i64>, end: Option<i64>) -> (r: Option<
        Vec<IcalEvent>,
    >)
        ensures
            match self@.inner {
                CalendarInnerDataView::Event(main, overrides) => r is Some && r->0.deep_view()
                    == crate::parser::ical::component::event::recurrence::expanded(
                    main,
                    overrides,
                    start,
                    end,
                ),
                _ => r is None,
            },
    {
        match &self.inner {
            CalendarInnerData::Event(main, overrides) => Some(
                main.expand_recurrence(start, end, overrides),
            ),
            _ => None,
        }
    }
}

impl Emitter for IcalCalendarObject {
    /// The text of a calendar object: a `VCALENDAR` block of its properties,
    /// its timezone definitions and its instances.
    open spec fn generated(v: CalendarObjectView) -> Seq<char> {
        block(
            "VCALENDAR"@,
            generated_properties(v.properties) + generated_all::<IcalTimeZone<true>>(v.timezones)
                + CalendarInnerData::generated(v.inner),
        )
    }

    fn generate(&self) -> (r: String) {
        let mut out = begin_block("VCALENDAR");
        let ghost head = out@;
        generate_properties(&mut out, &self.properties);
        assert(views(self.timezones@) =~= self.timezones.deep_view());
        generate_all::<IcalTimeZone<true>>(&mut out, &self.timezones);
        let inner = self.inner.generate();
        out.append(inner.as_str());
        let ghost body = generated_properties(self@.properties) + generated_all::<
            IcalTimeZone<true>,
        >(self@.timezones) + CalendarInnerData::generated(self@.inner);
        assert(out@ =~= head + body);
        end_block(&mut out, "VCALENDAR", Ghost(body));
        out
    }
}

/// The instances of an object, told into the main instance and the
/// overrides. Instances of two kinds in one object are a fault, and so is an
/// object without instances.
pub open spec fn inner_of(
    events: Seq<EventView>,
    todos: Seq<TodoView>,
    journals: Seq<JournalView>,
) -> Result<CalendarInnerDataView, ParserErrorView> {
    if events.len() > 0 {
        if todos.len() > 0 {
            Err(ParserErrorView::InvalidComponent("VTODO"@))
        } else if journals.len() > 0 {
            Err(ParserErrorView::InvalidComponent("VJOURNAL"@))
        } else {
            match object_parts::<IcalEvent>(events) {
                Err(e) => Err(e),
                Ok(parts) => Ok(CalendarInnerDataView::Event(parts.0, parts.1)),
            }
        }
    } else if todos.len() > 0 {
        if journals.len() > 0 {
            Err(ParserErrorView::InvalidComponent("VJOURNAL"@))
        } else {
            match object_parts::<IcalTodo<true>>(todos) {
                Err(e) => Err(e),
                Ok(parts) => Ok(CalendarInnerDataView::Todo(parts.0, parts.1)),
            }
        }
    } else if journals.len() > 0 {
        match object_parts::<IcalJournal<true>>(journals) {
            Err(e) => Err(e),
            Ok(parts) => Ok(CalendarInnerDataView::Journal(parts.0, parts.1)),
        }
    } else {
        Err(ParserErrorView::NotComplete)
    }
}

/// The check of a calendar object. Its timezone definitions are checked
/// first and give its timezone table. Then its events, to-dos and journal
/// entries are checked under that table, and the main instance is told from
/// the overrides. The first fault is the fault of the object.
pub open spec fn object_checked(draft: CalendarObjectBuilderView) -> Result<
    CalendarObjectView,
    ParserErrorView,
> {
    match built_all::<IcalTimeZone<false>>(draft.timezones, Map::empty(), Seq::empty()) {
        Err(e) => Err(e),
        Ok(timezones) => {
            let table = timezone_table(timezones, timezones.len() as int);
            match built_all::<IcalEventBuilder>(draft.events, table, Seq::empty()) {
                Err(e) => Err(e),
                Ok(events) => match built_all::<IcalTodo<false>>(draft.todos, table, Seq::empty()) {
                    Err(e) => Err(e),
                    Ok(todos) => match built_all::<IcalJournal<false>>(
                        draft.journals,
                        table,
                        Seq::empty(),
                    ) {
                        Err(e) => Err(e),
                        Ok(journals) => match inner_of(events, todos, journals) {
                            Err(e) => Err(e),
                            Ok(inner) => Ok(
                                CalendarObjectView { properties: draft.properties, inner, timezones },
                            ),
                        },
                    },
                },
            }
        },
    }
}

fn tell_instances(
    events: Vec<IcalEvent>,
    todos: Vec<IcalTodo<true>>,
    journals: Vec<IcalJournal<true>>,
) -> (r: Result<CalendarInnerData, ParserError>)
    requires
        forall|i: int| 0 <= i < todos.len() ==> todo_valid(#[trigger] todos[i]@),
        forall|i: int| 0 <= i < journals.len() ==> journal_valid(#[trigger] journals[i]@),
    ensures
        match r {
            Ok(inner) => inner_of(events.deep_view(), todos.deep_view(), journals.deep_view())
                == Ok::<CalendarInnerDataView, ParserErrorView>(inner@) && inner_valid(inner@),
            Err(e) => inner_of(events.deep_view(), todos.deep_view(), journals.deep_view())
                == Err::<CalendarInnerDataView, ParserErrorView>(e@),
        },
{
    assert(views(events@) =~= events.deep_view());
    assert(views(todos@) =~= todos.deep_view());
    assert(views(journals@) =~= journals.deep_view());
    if events.len() > 0 {
        if todos.len() > 0 {
            let name = "VTODO";
            Err(ParserError::InvalidComponent(name.to_owned()))
        } else if journals.len() > 0 {
            let name = "VJOURNAL";
            Err(ParserError::InvalidComponent(name.to_owned()))
        } else {
            match split_instances::<IcalEvent>(events) {
                Err(e) => Err(e),
                Ok((main, overrides)) => {
                    assert(views(overrides@) =~= overrides.deep_view());
                    Ok(CalendarInnerData::Event(main, overrides))
                },
            }
        }
    } else if todos.len() > 0 {
        if journals.len() > 0 {
            let name = "VJOURNAL";
            Err(ParserError::InvalidComponent(name.to_owned()))
        } else {
            let ghost all = todos.deep_view();
            match split_instances::<IcalTodo<true>>(todos) {
                Err(e) => Err(e),
                Ok((main, overrides)) => {
                    proof {
                        assert(views(overrides@) =~= overrides.deep_view());
                        let m = main_place::<IcalTodo<true>>(all);
                        lemma_main_place::<IcalTodo<true>>(all);
                        assert(main@ == all[m]);
                        assert forall|i: int| 0 <= i < overrides.len() implies todo_valid(
                            #[trigger] overrides.deep_view()[i],
                        ) by {
                            if i < m {
                                assert(all.remove(m)[i] == all[i]);
                            } else {
                                assert(all.remove(m)[i] == all[i + 1]);
                            }
                        }
                    }
                    Ok(CalendarInnerData::Todo(main, overrides))
                },
            }
        }
    } else if journals.len() > 0 {
        let ghost all = journals.deep_view();
        match split_instances::<IcalJournal<true>>(journals) {
            Err(e) => Err(e),
            Ok((main, overrides)) => {
                proof {
                    assert(views(overrides@) =~= overrides.deep_view());
                    let m = main_place::<IcalJournal<true>>(all);
                    lemma_main_place::<IcalJournal<true>>(all);
                    assert(main@ == all[m]);
                    assert forall|i: int| 0 <= i < overrides.len() implies journal_valid(
                        #[trigger] overrides.deep_view()[i],
                    ) by {
                        if i < m {
                            assert(all.remove(m)[i] == all[i]);
                        } else {
                            assert(all.remove(m)[i] == all[i + 1]);
                        }
                    }
                }
                Ok(CalendarInnerData::Journal(main, overrides))
            },
        }
    } else {
        Err(ParserError::NotComplete)
    }
}

/// The main instance is one of the instances.
pub proof fn lemma_main_place<T: Instance>(items: Seq<T::V>)
    requires
        items.len() > 0,
    ensures
        0 <= main_place::<T>(items) < items.len(),
{
    lemma_first_with_rules::<T>(items, 0);
}

proof fn lemma_first_with_rules<T: Instance>(items: Seq<T::V>, from: int)
    requires
        0 <= from <= items.len(),
    ensures
        from <= first_with_rules::<T>(items, from) <= items.len(),
    decreases items.len() - from,
{
    if from < items.len() && !T::carries_rules(items[from]) {
        lemma_first_with_rules::<T>(items, from + 1);
    }
}

/// Checks the draft of a calendar object: see [`object_checked`].
pub fn build_object(draft: IcalCalendarObjectBuilder) -> (r: Result<IcalCalendarObject, ParserError>)
    ensures
        crate::parser::build_outcome(r) == object_checked(draft@),
{
    let ghost d = draft@;
    let empty = TimezoneTable::new();
    assert(views(draft.timezones@) =~= d.timezones);
    assert(views(draft.events@) =~= d.events);
    assert(views(draft.todos@) =~= d.todos);
    assert(views(draft.journals@) =~= d.journals);
    let timezones = match build_all::<IcalTimeZone<false>>(draft.timezones, &empty) {
        Err(e) => {
            return Err(e);
        },
        Ok(v) => v,
    };
    proof {
        assert(views(timezones@) =~= timezones.deep_view());
        lemma_built_all::<IcalTimeZone<false>>(d.timezones, Map::empty(), Seq::empty());
        assert forall|i: int| 0 <= i < timezones.len() implies timezone_valid(
            #[trigger] timezones[i]@,
        ) by {
            assert(timezones.deep_view()[0 + i] == timezones[i]@);
            assert(IcalTimeZone::<false>::built(d.timezones[i], Map::empty()) is Ok);
        }
    }
    let table = build_table(&timezones);
    let events = match build_all::<IcalEventBuilder>(draft.events, &table) {
        Err(e) => {
            return Err(e);
        },
        Ok(v) => v,
    };
    let todos = match build_all::<IcalTodo<false>>(draft.todos, &table) {
        Err(e) => {
            return Err(e);
        },
        Ok(v) => v,
    };
    let journals = match build_all::<IcalJournal<false>>(draft.journals, &table) {
        Err(e) => {
            return Err(e);
        },
        Ok(v) => v,
    };
    proof {
        assert(views(events@) =~= events.deep_view());
        assert(views(todos@) =~= todos.deep_view());
        assert(views(journals@) =~= journals.deep_view());
        lemma_built_all::<IcalTodo<false>>(d.todos, table@, Seq::empty());
        lemma_built_all::<IcalJournal<false>>(d.journals, table@, Seq::empty());
        assert forall|i: int| 0 <= i < todos.len() implies todo_valid(#[trigger] todos[i]@) by {
            assert(IcalTodo::<false>::built(d.todos[i], table@) == Ok::<TodoView, ParserErrorView>(
                todos.deep_view()[0 + i],
            ));
            lemma_todo_checked_valid(d.todos[i], table@);
        }
        assert forall|i: int| 0 <= i < journals.len() implies journal_valid(
            #[trigger] journals[i]@,
        ) by {
            assert(IcalJournal::<false>::built(d.journals[i], table@) == Ok::<
                JournalView,
                ParserErrorView,
            >(journals.deep_view()[0 + i]));
            lemma_journal_checked_valid(d.journals[i], table@);
        }
        assert forall|i: int| 0 <= i < timezones.len() implies timezone_valid(
            #[trigger] timezones.deep_view()[i],
        ) by {
            assert(timezones.deep_view()[i] == timezones[i]@);
        }
    }
    match tell_instances(events, todos, journals) {
        Err(e) => Err(e),
        Ok(inner) => Ok(IcalCalendarObject { properties: draft.properties, inner, timezones, table }),
    }
}

} // verus!
