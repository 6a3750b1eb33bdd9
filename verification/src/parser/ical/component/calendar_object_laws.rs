//! What holds of the check of a calendar object: an object that passed its
//! check passes it again, as the same object, when it is turned back into a
//! draft.
use crate::parser::ical::component::calendar::{lemma_built_all, timezone_table};
use crate::parser::ical::component::calendar_object::{
    first_stranger, first_unnamed, first_with_rules, inner_of, main_place, object_checked,
    object_parts, CalendarInnerDataView, CalendarObjectView, IcalCalendarObject, Instance,
};
use crate::parser::ical::component::calendar_object_builder::CalendarObjectBuilderView;
use crate::parser::ical::component::event::{EventView, IcalEvent, IcalEventBuilder};
use crate::parser::ical::component::journal::{IcalJournal, JournalView};
use crate::parser::ical::component::timezone::IcalTimeZone;
use crate::parser::ical::component::todo::{IcalTodo, TodoView};
use crate::parser::{built_all, Component, ComponentMut, ParserErrorView};
use vstd::prelude::*;

verus! {

proof fn lemma_first_stranger<T: Instance>(items: Seq<T::V>, from: int)
    requires
        0 <= from <= items.len(),
    ensures
        from <= first_stranger::<T>(items, from) <= items.len(),
        forall|k: int|
            from <= k < first_stranger::<T>(items, from) ==> T::uid_of(#[trigger] items[k])
                == T::uid_of(items[0]),
        first_stranger::<T>(items, from) < items.len() ==> T::uid_of(
            items[first_stranger::<T>(items, from)],
        ) != T::uid_of(items[0]),
    decreases items.len() - from,
{
    if from < items.len() && T::uid_of(items[from]) == T::uid_of(items[0]) {
        lemma_first_stranger::<T>(items, from + 1);
    }
}

proof fn lemma_first_rules<T: Instance>(items: Seq<T::V>, from: int)
    requires
        0 <= from <= items.len(),
    ensures
        from <= first_with_rules::<T>(items, from) <= items.len(),
        forall|k: int|
            from <= k < first_with_rules::<T>(items, from) ==> !T::carries_rules(
                #[trigger] items[k],
            ),
        first_with_rules::<T>(items, from) < items.len() ==> T::carries_rules(
            items[first_with_rules::<T>(items, from)],
        ),
    decreases items.len() - from,
{
    if from < items.len() && !T::carries_rules(items[from]) {
        lemma_first_rules::<T>(items, from + 1);
    }
}

proof fn lemma_first_unnamed<T: Instance>(items: Seq<T::V>, main: int, from: int)
    requires
        0 <= from <= items.len(),
    ensures
        from <= first_unnamed::<T>(items, main, from) <= items.len(),
        forall|k: int|
            from <= k < first_unnamed::<T>(items, main, from) ==> k == main || T::is_override(
                #[trigger] items[k],
            ),
        first_unnamed::<T>(items, main, from) < items.len() ==> first_unnamed::<T>(
            items,
            main,
            from,
        ) != main && !T::is_override(items[first_unnamed::<T>(items, main, from)]),
    decreases items.len() - from,
{
    if from < items.len() && (from == main || T::is_override(items[from])) {
        lemma_first_unnamed::<T>(items, main, from + 1);
    }
}

/// Telling the main instance from the overrides is not changed by putting
/// the main instance first: the instances of an object, written with the
/// main instance in front of the overrides, are told into the same main
/// instance and the same overrides.
pub proof fn lemma_object_parts_again<T: Instance>(items: Seq<T::V>, main: T::V, overrides: Seq<T::V>)
    requires
        items.len() > 0,
        object_parts::<T>(items) == Ok::<(T::V, Seq<T::V>), ParserErrorView>((main, overrides)),
    ensures
        object_parts::<T>(seq![main] + overrides) == Ok::<(T::V, Seq<T::V>), ParserErrorView>(
            (main, overrides),
        ),
{
    let m = main_place::<T>(items);
    lemma_first_rules::<T>(items, 0);
    lemma_first_stranger::<T>(items, 0);
    lemma_first_unnamed::<T>(items, m, 0);
    let again = seq![main] + overrides;
    assert(main == items[m]);
    assert(overrides == items.remove(m));
    assert(again.len() == items.len());
    assert forall|j: int| 1 <= j < again.len() implies #[trigger] again[j] == items[if j - 1 < m {
        j - 1
    } else {
        j
    }] by {
        assert(again[j] == overrides[j - 1]);
    }
    assert(T::uid_of(items[m]) == T::uid_of(items[0]));
    lemma_first_stranger::<T>(again, 0);
    lemma_first_rules::<T>(again, 0);
    lemma_first_unnamed::<T>(again, 0, 0);
    if first_stranger::<T>(again, 0) < again.len() {
        let j = first_stranger::<T>(again, 0);
        assert(j >= 1);
        assert(again[j] == items[if j - 1 < m {
            j - 1
        } else {
            j
        }]);
    }
    if m == 0 {
        assert(again =~= items);
    } else {
        assert(T::carries_rules(again[0]));
        assert(first_with_rules::<T>(again, 0) == 0);
    }
    assert(main_place::<T>(again) == 0);
    if first_unnamed::<T>(again, 0, 0) < again.len() {
        let j = first_unnamed::<T>(again, 0, 0);
        assert(j >= 1);
        let k = if j - 1 < m {
            j - 1
        } else {
            j
        };
        assert(again[j] == items[k]);
        assert(k != m);
        assert(T::is_override(items[k]));
    }
    assert(again.remove(0) =~= overrides);
}

/// Checking drafts one after the other gives the components that each draft
/// gives on its own.
proof fn lemma_built_each<D: ComponentMut>(
    drafts: Seq<D::V>,
    timezones: Map<Seq<char>, Option<Seq<char>>>,
    acc: Seq<<D::Verified as View>::V>,
    outs: Seq<<D::Verified as View>::V>,
)
    requires
        outs.len() == drafts.len(),
        forall|i: int|
            0 <= i < drafts.len() ==> D::built(#[trigger] drafts[i], timezones) == Ok::<
                <D::Verified as View>::V,
                ParserErrorView,
            >(outs[i]),
    ensures
        built_all::<D>(drafts, timezones, acc) == Ok::<
            Seq<<D::Verified as View>::V>,
            ParserErrorView,
        >(acc + outs),
    decreases drafts.len(),
{
    if drafts.len() == 0 {
        assert(acc + outs =~= acc);
    } else {
        let rest = drafts.drop_first();
        let more = outs.drop_first();
        assert(D::built(drafts[0], timezones) == Ok::<<D::Verified as View>::V, ParserErrorView>(
            outs[0],
        ));
        assert forall|i: int| 0 <= i < rest.len() implies D::built(
            #[trigger] rest[i],
            timezones,
        ) == Ok::<<D::Verified as View>::V, ParserErrorView>(more[i]) by {
            assert(rest[i] == drafts[i + 1]);
            assert(more[i] == outs[i + 1]);
        }
        lemma_built_each::<D>(rest, timezones, acc.push(outs[0]), more);
        assert(acc.push(outs[0]) + more =~= acc + outs);
    }
}

/// An item of the instances with the main instance first is one of the
/// instances.
proof fn lemma_again_item<V>(items: Seq<V>, m: int, j: int)
    requires
        0 <= m < items.len(),
        0 <= j < items.len(),
    ensures
        (seq![items[m]] + items.remove(m))[j] == items[if j == 0 {
            m
        } else if j - 1 < m {
            j - 1
        } else {
            j
        }],
{
    if j > 0 {
        assert((seq![items[m]] + items.remove(m))[j] == items.remove(m)[j - 1]);
    }
}

/// An object that passed its check passes it again when it is turned back
/// into a draft, and is then the same object: the check changes nothing in
/// what it accepts but the place of the main instance, which it puts first.
pub proof fn lemma_object_checked_again(d: CalendarObjectBuilderView, v: CalendarObjectView)
    requires
        object_checked(d) == Ok::<CalendarObjectView, ParserErrorView>(v),
    ensures
        object_checked(IcalCalendarObject::draft_of(v)) == Ok::<
            CalendarObjectView,
            ParserErrorView,
        >(v),
{
    let none = Map::<Seq<char>, Option<Seq<char>>>::empty();
    let timezones = built_all::<IcalTimeZone<false>>(d.timezones, none, Seq::empty())->Ok_0;
    let table = timezone_table(timezones, timezones.len() as int);
    lemma_built_all::<IcalTimeZone<false>>(d.timezones, none, Seq::empty());
    lemma_built_all::<IcalEventBuilder>(d.events, table, Seq::empty());
    lemma_built_all::<IcalTodo<false>>(d.todos, table, Seq::empty());
    lemma_built_all::<IcalJournal<false>>(d.journals, table, Seq::empty());
    let events = built_all::<IcalEventBuilder>(d.events, table, Seq::empty())->Ok_0;
    let todos = built_all::<IcalTodo<false>>(d.todos, table, Seq::empty())->Ok_0;
    let journals = built_all::<IcalJournal<false>>(d.journals, table, Seq::empty())->Ok_0;
    assert(v.timezones == timezones);
    assert(timezones =~= d.timezones) by {
        assert forall|i: int| 0 <= i < d.timezones.len() implies timezones[i]
            == d.timezones[i] by {
            assert(IcalTimeZone::<false>::built(d.timezones[i], none) is Ok);
        }
    }
    let again = IcalCalendarObject::draft_of(v);
    assert(again.timezones == d.timezones);
    assert(inner_of(events, todos, journals) == Ok::<CalendarInnerDataView, ParserErrorView>(
        v.inner,
    ));
    let no_events = Seq::<EventView>::empty();
    let no_todos = Seq::<TodoView>::empty();
    let no_journals = Seq::<JournalView>::empty();
    match v.inner {
        CalendarInnerDataView::Event(main, overrides) => {
            let m = main_place::<IcalEvent>(events);
            crate::parser::ical::component::calendar_object::lemma_main_place::<IcalEvent>(events);
            let outs = seq![main] + overrides;
            assert forall|j: int| 0 <= j < outs.len() implies IcalEventBuilder::built(
                #[trigger] again.events[j],
                table,
            ) == Ok::<EventView, ParserErrorView>(outs[j]) by {
                lemma_again_item(events, m, j);
                let k = if j == 0 {
                    m
                } else if j - 1 < m {
                    j - 1
                } else {
                    j
                };
                assert(outs[j] == events[k]);
                assert(IcalEventBuilder::built(d.events[k], table) == Ok::<
                    EventView,
                    ParserErrorView,
                >(events[0 + k]));
                assert(again.events[j] == IcalEvent::draft_of(outs[j]));
                assert(IcalEvent::draft_of(events[k]) == d.events[k]);
            }
            lemma_built_each::<IcalEventBuilder>(again.events, table, Seq::empty(), outs);
            assert(no_events + outs =~= outs);
            lemma_built_each::<IcalTodo<false>>(again.todos, table, Seq::empty(), no_todos);
            lemma_built_each::<IcalJournal<false>>(
                again.journals,
                table,
                Seq::empty(),
                no_journals,
            );
            assert(no_todos + no_todos =~= no_todos);
            assert(no_journals + no_journals =~= no_journals);
            lemma_object_parts_again::<IcalEvent>(events, main, overrides);
        },
        CalendarInnerDataView::Todo(main, overrides) => {
            let m = main_place::<IcalTodo<true>>(todos);
            crate::parser::ical::component::calendar_object::lemma_main_place::<IcalTodo<true>>(
                todos,
            );
            let outs = seq![main] + overrides;
            assert forall|j: int| 0 <= j < outs.len() implies IcalTodo::<false>::built(
                #[trigger] again.todos[j],
                table,
            ) == Ok::<TodoView, ParserErrorView>(outs[j]) by {
                lemma_again_item(todos, m, j);
                let k = if j == 0 {
                    m
                } else if j - 1 < m {
                    j - 1
                } else {
                    j
                };
                assert(outs[j] == todos[k]);
                assert(IcalTodo::<false>::built(d.todos[k], table) == Ok::<
                    TodoView,
                    ParserErrorView,
                >(todos[0 + k]));
            }
            lemma_built_each::<IcalTodo<false>>(again.todos, table, Seq::empty(), outs);
            assert(no_todos + outs =~= outs);
            lemma_built_each::<IcalEventBuilder>(again.events, table, Seq::empty(), no_events);
            lemma_built_each::<IcalJournal<false>>(
                again.journals,
                table,
                Seq::empty(),
                no_journals,
            );
            assert(no_events + no_events =~= no_events);
            assert(no_journals + no_journals =~= no_journals);
            lemma_object_parts_again::<IcalTodo<true>>(todos, main, overrides);
        },
        CalendarInnerDataView::Journal(main, overrides) => {
            let m = main_place::<IcalJournal<true>>(journals);
            crate::parser::ical::component::calendar_object::lemma_main_place::<IcalJournal<true>>(
                journals,
            );
            let outs = seq![main] + overrides;
            assert forall|j: int| 0 <= j < outs.len() implies IcalJournal::<false>::built(
                #[trigger] again.journals[j],
                table,
            ) == Ok::<JournalView, ParserErrorView>(outs[j]) by {
                lemma_again_item(journals, m, j);
                let k = if j == 0 {
                    m
                } else if j - 1 < m {
                    j - 1
                } else {
                    j
                };
                assert(outs[j] == journals[k]);
                assert(IcalJournal::<false>::built(d.journals[k], table) == Ok::<
                    JournalView,
                    ParserErrorView,
                >(journals[0 + k]));
            }
            lemma_built_each::<IcalJournal<false>>(again.journals, table, Seq::empty(), outs);
            assert(no_journals + outs =~= outs);
            lemma_built_each::<IcalEventBuilder>(again.events, table, Seq::empty(), no_events);
            lemma_built_each::<IcalTodo<false>>(again.todos, table, Seq::empty(), no_todos);
            assert(no_events + no_events =~= no_events);
            assert(no_todos + no_todos =~= no_todos);
            lemma_object_parts_again::<IcalJournal<true>>(journals, main, overrides);
        },
    }
}

} // verus!
