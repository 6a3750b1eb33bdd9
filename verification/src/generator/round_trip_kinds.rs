//! Reading back what was written: the kinds of components.
use crate::generator::ical::{generated_properties, transition_name};
use crate::generator::round_trip::{body_property, capitals, frame_line, written_property};
use crate::generator::round_trip_blocks::{
    add_all, framed, lemma_block_text, lemma_generated_concat, lemma_parse_child, lemma_parse_end,
    lemma_parse_props, oks,
};
use crate::generator::{generated_all, Emitter};
use crate::parser::ical::component::alarm::{AlarmView, IcalAlarm};
use crate::parser::ical::component::event::builder::{EventBuilderView, IcalEventBuilder};
use crate::parser::ical::component::event::{EventView, IcalEvent};
use crate::parser::ical::component::freebusy::{FreeBusyView, IcalFreeBusy};
use crate::parser::ical::component::journal::{IcalJournal, JournalView};
use crate::parser::ical::component::timezone::{
    IcalTimeZone, IcalTimeZoneTransition, TimeZoneView, TransitionView,
};
use crate::parser::ical::component::todo::{IcalTodo, TodoView};
use crate::parser::vcard::component::{ContactView, VcardContact};
use crate::parser::{parse_block, Component, ComponentMut, Item, Parsed, ParserErrorView};
use crate::property::{PropertyError, PropertyView};
use vstd::prelude::*;

verus! {

/// The names of the kinds of components are upper-case words that differ
/// from each other.
pub proof fn lemma_kind_names()
    ensures
        "VALARM"@ != "VEVENT"@,
        "VALARM"@ != "VTODO"@,
        "VALARM"@ != "VJOURNAL"@,
        "VALARM"@ != "VFREEBUSY"@,
        "VALARM"@ != "VTIMEZONE"@,
        "VEVENT"@ != "VTODO"@,
        "VEVENT"@ != "VJOURNAL"@,
        "VEVENT"@ != "VFREEBUSY"@,
        "VEVENT"@ != "VTIMEZONE"@,
        "VTODO"@ != "VJOURNAL"@,
        "VTODO"@ != "VFREEBUSY"@,
        "VTODO"@ != "VTIMEZONE"@,
        "VJOURNAL"@ != "VFREEBUSY"@,
        "VJOURNAL"@ != "VTIMEZONE"@,
        "VFREEBUSY"@ != "VTIMEZONE"@,
        "STANDARD"@ != "DAYLIGHT"@,
        capitals("VALARM"@),
        capitals("VEVENT"@),
        capitals("VTODO"@),
        capitals("VJOURNAL"@),
        capitals("VFREEBUSY"@),
        capitals("VTIMEZONE"@),
        capitals("VCALENDAR"@),
        capitals("STANDARD"@),
        capitals("DAYLIGHT"@),
        capitals("VCARD"@),
{
    reveal_strlit("VALARM");
    reveal_strlit("VEVENT");
    reveal_strlit("VTODO");
    reveal_strlit("VJOURNAL");
    reveal_strlit("VFREEBUSY");
    reveal_strlit("VTIMEZONE");
    reveal_strlit("VCALENDAR");
    reveal_strlit("STANDARD");
    reveal_strlit("DAYLIGHT");
    reveal_strlit("VCARD");
    assert("VALARM"@[1] != "VEVENT"@[1]);
    assert("VFREEBUSY"@[1] != "VTIMEZONE"@[1]);
    assert("STANDARD"@[0] != "DAYLIGHT"@[0]);
    assert("VALARM"@.len() != "VTODO"@.len());
    assert("VALARM"@.len() != "VJOURNAL"@.len());
    assert("VALARM"@.len() != "VFREEBUSY"@.len());
    assert("VEVENT"@.len() != "VTODO"@.len());
    assert("VTODO"@.len() != "VJOURNAL"@.len());
    assert("VJOURNAL"@.len() != "VFREEBUSY"@.len());
}

/// Turning lines into outcomes goes through a concatenation.
pub proof fn lemma_oks_concat(a: Seq<PropertyView>, b: Seq<PropertyView>)
    ensures
        oks(a + b) == oks(a) + oks(b),
{
    assert(oks(a + b) =~= oks(a) + oks(b));
}

/// The lines in the block of an alarm:
/// its properties.
pub open spec fn alarm_body(v: AlarmView) -> Seq<PropertyView> {
    v.properties
}

/// The lines of an alarm: its block between its `BEGIN` and
/// its `END` line.
pub open spec fn alarm_lines(v: AlarmView) -> Seq<PropertyView> {
    framed("VALARM"@, alarm_body(v))
}

/// Whether an alarm holds only what is read back as it was written:
/// each of its properties is a body property.
pub open spec fn alarm_written(v: AlarmView) -> bool {
    forall|i: int| 0 <= i < v.properties.len() ==> body_property(#[trigger] v.properties[i])
}

proof fn lemma_alarm_add_all(d: AlarmView, props: Seq<PropertyView>)
    ensures
        add_all(
            d,
            props,
            |d: AlarmView, p: PropertyView| IcalAlarm::<false>::with_property(d, p),
        ) == (AlarmView { properties: d.properties + props }),
    decreases props.len(),
{
    if props.len() == 0 {
        assert(d.properties + props =~= d.properties);
    } else {
        lemma_alarm_add_all(IcalAlarm::<false>::with_property(d, props[0]), props.drop_first());
        assert(d.properties.push(props[0]) + props.drop_first() =~= d.properties + props);
    }
}

/// Reading the lines in the block of an alarm and its `END` line, into an
/// empty draft, gives the draft of it, and leaves what stands behind.
pub proof fn lemma_alarm_block(body: AlarmView, tail: Seq<Item>)
    requires
        alarm_written(body),
    ensures
        parse_block(
            AlarmView { properties: Seq::empty() },
            oks(alarm_body(body)) + (seq![
                Ok::<PropertyView, PropertyError>(frame_line("END"@, "VALARM"@)),
            ] + tail),
            |d: AlarmView, p: PropertyView| IcalAlarm::<false>::with_property(d, p),
            |d: AlarmView, n: Seq<char>, i: Seq<Item>| IcalAlarm::<false>::sub_component(d, n, i),
        ) == (Parsed { result: Ok::<AlarmView, ParserErrorView>(body), rest: tail }),
{
    let start = AlarmView { properties: Seq::empty() };
    let end = seq![
        Ok::<PropertyView, PropertyError>(frame_line("END"@, "VALARM"@)),
    ] + tail;
    let props = body.properties;
    assert forall|i: int| 0 <= i < props.len() implies (#[trigger] props[i]).name != "BEGIN"@
        && props[i].name != "END"@ by {
        assert(body_property(props[i]));
    }
    lemma_parse_props(
        start,
        body.properties,
        end,
        |d: AlarmView, p: PropertyView| IcalAlarm::<false>::with_property(d, p),
        |d: AlarmView, n: Seq<char>, i: Seq<Item>| IcalAlarm::<false>::sub_component(d, n, i),
    );
    lemma_alarm_add_all(start, body.properties);
    assert(Seq::<PropertyView>::empty() + body.properties =~= body.properties);
    lemma_parse_end(
        body,
        "VALARM"@,
        tail,
        |d: AlarmView, p: PropertyView| IcalAlarm::<false>::with_property(d, p),
        |d: AlarmView, n: Seq<char>, i: Seq<Item>| IcalAlarm::<false>::sub_component(d, n, i),
    );
}

/// The text of an alarm is the text of its lines, and its
/// lines are written properties.
pub proof fn lemma_alarm_text(v: AlarmView)
    requires
        alarm_written(v),
    ensures
        <IcalAlarm<true> as Emitter>::generated(v) == generated_properties(alarm_lines(v)),
        forall|i: int|
            0 <= i < alarm_lines(v).len() ==> written_property(#[trigger] alarm_lines(v)[i]),
{
    lemma_kind_names();
    lemma_block_text("VALARM"@, alarm_body(v));
    let lines = alarm_lines(v);
    assert forall|i: int| 0 <= i < lines.len() implies written_property(
        #[trigger] lines[i],
    ) by {
        if 0 < i && i <= v.properties.len() {
            assert(lines[i] == v.properties[i - 1]);
            assert(body_property(v.properties[i - 1]));
        }
    }
}

/// The lines of alarms, one after the other.
pub open spec fn alarm_list_lines(items: Seq<AlarmView>) -> Seq<PropertyView>
    decreases items.len(),
{
    if items.len() == 0 {
        Seq::empty()
    } else {
        alarm_list_lines(items.drop_last()) + alarm_lines(items.last())
    }
}

/// Whether each of the alarms holds only what is read back as it was
/// written.
pub open spec fn alarm_list_written(items: Seq<AlarmView>) -> bool {
    forall|i: int| 0 <= i < items.len() ==> alarm_written(#[trigger] items[i])
}

/// The text of alarms is the text of their lines, and their lines are
/// written properties.
pub proof fn lemma_alarm_list_text(items: Seq<AlarmView>)
    requires
        alarm_list_written(items),
    ensures
        generated_all::<IcalAlarm<true>>(items) == generated_properties(alarm_list_lines(items)),
        forall|i: int|
            0 <= i < alarm_list_lines(items).len() ==> written_property(
                #[trigger] alarm_list_lines(items)[i],
            ),
    decreases items.len(),
{
    if items.len() > 0 {
        let front = items.drop_last();
        assert(alarm_list_written(front)) by {
            assert forall|i: int| 0 <= i < front.len() implies alarm_written(#[trigger] front[i]) by {
                assert(front[i] == items[i]);
            }
        }
        assert(alarm_written(items.last()));
        lemma_alarm_list_text(front);
        lemma_alarm_text(items.last());
        lemma_generated_concat(alarm_list_lines(front), alarm_lines(items.last()));
        let lines = alarm_list_lines(items);
        assert forall|i: int| 0 <= i < lines.len() implies written_property(
            #[trigger] lines[i],
        ) by {
            if i >= alarm_list_lines(front).len() {
                assert(lines[i] == alarm_lines(items.last())[i - alarm_list_lines(front).len()]);
            } else {
                assert(lines[i] == alarm_list_lines(front)[i]);
            }
        }
    } else {
        assert(generated_properties(Seq::<PropertyView>::empty()) =~= Seq::<char>::empty());
    }
}

/// The lines of alarms are the lines of the first, then those of the
/// rest.
pub proof fn lemma_alarm_list_front(items: Seq<AlarmView>)
    requires
        items.len() > 0,
    ensures
        alarm_list_lines(items) == alarm_lines(items[0]) + alarm_list_lines(
            items.drop_first(),
        ),
    decreases items.len(),
{
    if items.len() == 1 {
        assert(items.drop_last() =~= Seq::<AlarmView>::empty());
        assert(items.drop_first() =~= Seq::<AlarmView>::empty());
        assert(alarm_list_lines(items.drop_last()) =~= Seq::<PropertyView>::empty());
        assert(alarm_list_lines(items.drop_first()) =~= Seq::<PropertyView>::empty());
        assert(items.last() == items[0]);
        assert(alarm_list_lines(items) =~= alarm_lines(items[0]) + alarm_list_lines(
            items.drop_first(),
        ));
    } else {
        let front = items.drop_last();
        lemma_alarm_list_front(front);
        assert(front[0] == items[0]);
        assert(front.drop_first() =~= items.drop_first().drop_last());
        assert(items.drop_first().last() == items.last());
        assert(alarm_list_lines(items.drop_first()) == alarm_list_lines(items.drop_first().drop_last())
            + alarm_lines(items.last()));
        assert(alarm_list_lines(items) =~= alarm_lines(items[0]) + alarm_list_lines(
            items.drop_first(),
        ));
    }
}

/// The lines in the block of a statement of free and busy time:
/// its properties.
pub open spec fn free_busy_body(v: FreeBusyView) -> Seq<PropertyView> {
    v.properties
}

/// The lines of a statement of free and busy time: its block between its `BEGIN` and
/// its `END` line.
pub open spec fn free_busy_lines(v: FreeBusyView) -> Seq<PropertyView> {
    framed("VFREEBUSY"@, free_busy_body(v))
}

/// Whether a statement of free and busy time holds only what is read back as it was written:
/// each of its properties is a body property.
pub open spec fn free_busy_written(v: FreeBusyView) -> bool {
    forall|i: int| 0 <= i < v.properties.len() ==> body_property(#[trigger] v.properties[i])
}

proof fn lemma_free_busy_add_all(d: FreeBusyView, props: Seq<PropertyView>)
    ensures
        add_all(
            d,
            props,
            |d: FreeBusyView, p: PropertyView| IcalFreeBusy::<false>::with_property(d, p),
        ) == (FreeBusyView { properties: d.properties + props }),
    decreases props.len(),
{
    if props.len() == 0 {
        assert(d.properties + props =~= d.properties);
    } else {
        lemma_free_busy_add_all(IcalFreeBusy::<false>::with_property(d, props[0]), props.drop_first());
        assert(d.properties.push(props[0]) + props.drop_first() =~= d.properties + props);
    }
}

/// Reading the lines in the block of a statement of free and busy time and its `END` line, into an
/// empty draft, gives the draft of it, and leaves what stands behind.
pub proof fn lemma_free_busy_block(body: FreeBusyView, tail: Seq<Item>)
    requires
        free_busy_written(body),
    ensures
        parse_block(
            FreeBusyView { properties: Seq::empty() },
            oks(free_busy_body(body)) + (seq![
                Ok::<PropertyView, PropertyError>(frame_line("END"@, "VFREEBUSY"@)),
            ] + tail),
            |d: FreeBusyView, p: PropertyView| IcalFreeBusy::<false>::with_property(d, p),
            |d: FreeBusyView, n: Seq<char>, i: Seq<Item>|
                IcalFreeBusy::<false>::sub_component(d, n, i),
        ) == (Parsed { result: Ok::<FreeBusyView, ParserErrorView>(body), rest: tail }),
{
    let start = FreeBusyView { properties: Seq::empty() };
    let end = seq![
        Ok::<PropertyView, PropertyError>(frame_line("END"@, "VFREEBUSY"@)),
    ] + tail;
    let props = body.properties;
    assert forall|i: int| 0 <= i < props.len() implies (#[trigger] props[i]).name != "BEGIN"@
        && props[i].name != "END"@ by {
        assert(body_property(props[i]));
    }
    lemma_parse_props(
        start,
        body.properties,
        end,
        |d: FreeBusyView, p: PropertyView| IcalFreeBusy::<false>::with_property(d, p),
        |d: FreeBusyView, n: Seq<char>, i: Seq<Item>| IcalFreeBusy::<false>::sub_component(d, n, i),
    );
    lemma_free_busy_add_all(start, body.properties);
    assert(Seq::<PropertyView>::empty() + body.properties =~= body.properties);
    lemma_parse_end(
        body,
        "VFREEBUSY"@,
        tail,
        |d: FreeBusyView, p: PropertyView| IcalFreeBusy::<false>::with_property(d, p),
        |d: FreeBusyView, n: Seq<char>, i: Seq<Item>| IcalFreeBusy::<false>::sub_component(d, n, i),
    );
}

/// The text of a statement of free and busy time is the text of its lines, and its
/// lines are written properties.
pub proof fn lemma_free_busy_text(v: FreeBusyView)
    requires
        free_busy_written(v),
    ensures
        <IcalFreeBusy<true> as Emitter>::generated(v) == generated_properties(free_busy_lines(v)),
        forall|i: int|
            0 <= i < free_busy_lines(v).len() ==> written_property(#[trigger] free_busy_lines(v)[i]),
{
    lemma_kind_names();
    lemma_block_text("VFREEBUSY"@, free_busy_body(v));
    let lines = free_busy_lines(v);
    assert forall|i: int| 0 <= i < lines.len() implies written_property(
        #[trigger] lines[i],
    ) by {
        if 0 < i && i <= v.properties.len() {
            assert(lines[i] == v.properties[i - 1]);
            assert(body_property(v.properties[i - 1]));
        }
    }
}

/// The lines of statements of free and busy time, one after the other.
pub open spec fn free_busy_list_lines(items: Seq<FreeBusyView>) -> Seq<PropertyView>
    decreases items.len(),
{
    if items.len() == 0 {
        Seq::empty()
    } else {
        free_busy_list_lines(items.drop_last()) + free_busy_lines(items.last())
    }
}

/// Whether each of the statements of free and busy time holds only what is read back as it was
/// written.
pub open spec fn free_busy_list_written(items: Seq<FreeBusyView>) -> bool {
    forall|i: int| 0 <= i < items.len() ==> free_busy_written(#[trigger] items[i])
}

/// The text of statements of free and busy time is the text of their lines, and their lines are
/// written properties.
pub proof fn lemma_free_busy_list_text(items: Seq<FreeBusyView>)
    requires
        free_busy_list_written(items),
    ensures
        generated_all::<IcalFreeBusy<true>>(items) == generated_properties(free_busy_list_lines(items)),
        forall|i: int|
            0 <= i < free_busy_list_lines(items).len() ==> written_property(
                #[trigger] free_busy_list_lines(items)[i],
            ),
    decreases items.len(),
{
    if items.len() > 0 {
        let front = items.drop_last();
        assert(free_busy_list_written(front)) by {
            assert forall|i: int| 0 <= i < front.len() implies free_busy_written(#[trigger] front[i]) by {
                assert(front[i] == items[i]);
            }
        }
        assert(free_busy_written(items.last()));
        lemma_free_busy_list_text(front);
        lemma_free_busy_text(items.last());
        lemma_generated_concat(free_busy_list_lines(front), free_busy_lines(items.last()));
        let lines = free_busy_list_lines(items);
        assert forall|i: int| 0 <= i < lines.len() implies written_property(
            #[trigger] lines[i],
        ) by {
            if i >= free_busy_list_lines(front).len() {
                assert(lines[i] == free_busy_lines(items.last())[i - free_busy_list_lines(front).len()]);
            } else {
                assert(lines[i] == free_busy_list_lines(front)[i]);
            }
        }
    } else {
        assert(generated_properties(Seq::<PropertyView>::empty()) =~= Seq::<char>::empty());
    }
}

/// The lines of statements of free and busy time are the lines of the first, then those of the
/// rest.
pub proof fn lemma_free_busy_list_front(items: Seq<FreeBusyView>)
    requires
        items.len() > 0,
    ensures
        free_busy_list_lines(items) == free_busy_lines(items[0]) + free_busy_list_lines(
            items.drop_first(),
        ),
    decreases items.len(),
{
    if items.len() == 1 {
        assert(items.drop_last() =~= Seq::<FreeBusyView>::empty());
        assert(items.drop_first() =~= Seq::<FreeBusyView>::empty());
        assert(free_busy_list_lines(items.drop_last()) =~= Seq::<PropertyView>::empty());
        assert(free_busy_list_lines(items.drop_first()) =~= Seq::<PropertyView>::empty());
        assert(items.last() == items[0]);
        assert(free_busy_list_lines(items) =~= free_busy_lines(items[0]) + free_busy_list_lines(
            items.drop_first(),
        ));
    } else {
        let front = items.drop_last();
        lemma_free_busy_list_front(front);
        assert(front[0] == items[0]);
        assert(front.drop_first() =~= items.drop_first().drop_last());
        assert(items.drop_first().last() == items.last());
        assert(free_busy_list_lines(items.drop_first()) == free_busy_list_lines(items.drop_first().drop_last())
            + free_busy_lines(items.last()));
        assert(free_busy_list_lines(items) =~= free_busy_lines(items[0]) + free_busy_list_lines(
            items.drop_first(),
        ));
    }
}

/// The lines in the block of a journal entry:
/// its properties.
pub open spec fn journal_body(v: JournalView) -> Seq<PropertyView> {
    v.properties
}

/// The lines of a journal entry: its block between its `BEGIN` and
/// its `END` line.
pub open spec fn journal_lines(v: JournalView) -> Seq<PropertyView> {
    framed("VJOURNAL"@, journal_body(v))
}

/// Whether a journal entry holds only what is read back as it was written:
/// each of its properties is a body property.
pub open spec fn journal_written(v: JournalView) -> bool {
    forall|i: int| 0 <= i < v.properties.len() ==> body_property(#[trigger] v.properties[i])
}

proof fn lemma_journal_add_all(d: JournalView, props: Seq<PropertyView>)
    ensures
        add_all(
            d,
            props,
            |d: JournalView, p: PropertyView| IcalJournal::<false>::with_property(d, p),
        ) == (JournalView { properties: d.properties + props }),
    decreases props.len(),
{
    if props.len() == 0 {
        assert(d.properties + props =~= d.properties);
    } else {
        lemma_journal_add_all(IcalJournal::<false>::with_property(d, props[0]), props.drop_first());
        assert(d.properties.push(props[0]) + props.drop_first() =~= d.properties + props);
    }
}

/// Reading the lines in the block of a journal entry and its `END` line, into an
/// empty draft, gives the draft of it, and leaves what stands behind.
pub proof fn lemma_journal_block(body: JournalView, tail: Seq<Item>)
    requires
        journal_written(body),
    ensures
        parse_block(
            JournalView { properties: Seq::empty() },
            oks(journal_body(body)) + (seq![
                Ok::<PropertyView, PropertyError>(frame_line("END"@, "VJOURNAL"@)),
            ] + tail),
            |d: JournalView, p: PropertyView| IcalJournal::<false>::with_property(d, p),
            |d: JournalView, n: Seq<char>, i: Seq<Item>|
                IcalJournal::<false>::sub_component(d, n, i),
        ) == (Parsed { result: Ok::<JournalView, ParserErrorView>(body), rest: tail }),
{
    let start = JournalView { properties: Seq::empty() };
    let end = seq![
        Ok::<PropertyView, PropertyError>(frame_line("END"@, "VJOURNAL"@)),
    ] + tail;
    let props = body.properties;
    assert forall|i: int| 0 <= i < props.len() implies (#[trigger] props[i]).name != "BEGIN"@
        && props[i].name != "END"@ by {
        assert(body_property(props[i]));
    }
    lemma_parse_props(
        start,
        body.properties,
        end,
        |d: JournalView, p: PropertyView| IcalJournal::<false>::with_property(d, p),
        |d: JournalView, n: Seq<char>, i: Seq<Item>| IcalJournal::<false>::sub_component(d, n, i),
    );
    lemma_journal_add_all(start, body.properties);
    assert(Seq::<PropertyView>::empty() + body.properties =~= body.properties);
    lemma_parse_end(
        body,
        "VJOURNAL"@,
        tail,
        |d: JournalView, p: PropertyView| IcalJournal::<false>::with_property(d, p),
        |d: JournalView, n: Seq<char>, i: Seq<Item>| IcalJournal::<false>::sub_component(d, n, i),
    );
}

/// The text of a journal entry is the text of its lines, and its
/// lines are written properties.
pub proof fn lemma_journal_text(v: JournalView)
    requires
        journal_written(v),
    ensures
        <IcalJournal<true> as Emitter>::generated(v) == generated_properties(journal_lines(v)),
        forall|i: int|
            0 <= i < journal_lines(v).len() ==> written_property(#[trigger] journal_lines(v)[i]),
{
    lemma_kind_names();
    lemma_block_text("VJOURNAL"@, journal_body(v));
    let lines = journal_lines(v);
    assert forall|i: int| 0 <= i < lines.len() implies written_property(
        #[trigger] lines[i],
    ) by {
        if 0 < i && i <= v.properties.len() {
            assert(lines[i] == v.properties[i - 1]);
            assert(body_property(v.properties[i - 1]));
        }
    }
}

/// The lines of journal entries, one after the other.
pub open spec fn journal_list_lines(items: Seq<JournalView>) -> Seq<PropertyView>
    decreases items.len(),
{
    if items.len() == 0 {
        Seq::empty()
    } else {
        journal_list_lines(items.drop_last()) + journal_lines(items.last())
    }
}

/// Whether each of the journal entries holds only what is read back as it was
/// written.
pub open spec fn journal_list_written(items: Seq<JournalView>) -> bool {
    forall|i: int| 0 <= i < items.len() ==> journal_written(#[trigger] items[i])
}

/// The text of journal entries is the text of their lines, and their lines are
/// written properties.
pub proof fn lemma_journal_list_text(items: Seq<JournalView>)
    requires
        journal_list_written(items),
    ensures
        generated_all::<IcalJournal<true>>(items) == generated_properties(journal_list_lines(items)),
        forall|i: int|
            0 <= i < journal_list_lines(items).len() ==> written_property(
                #[trigger] journal_list_lines(items)[i],
            ),
    decreases items.len(),
{
    if items.len() > 0 {
        let front = items.drop_last();
        assert(journal_list_written(front)) by {
            assert forall|i: int| 0 <= i < front.len() implies journal_written(#[trigger] front[i]) by {
                assert(front[i] == items[i]);
            }
        }
        assert(journal_written(items.last()));
        lemma_journal_list_text(front);
        lemma_journal_text(items.last());
        lemma_generated_concat(journal_list_lines(front), journal_lines(items.last()));
        let lines = journal_list_lines(items);
        assert forall|i: int| 0 <= i < lines.len() implies written_property(
            #[trigger] lines[i],
        ) by {
            if i >= journal_list_lines(front).len() {
                assert(lines[i] == journal_lines(items.last())[i - journal_list_lines(front).len()]);
            } else {
                assert(lines[i] == journal_list_lines(front)[i]);
            }
        }
    } else {
        assert(generated_properties(Seq::<PropertyView>::empty()) =~= Seq::<char>::empty());
    }
}

/// The lines of journal entries are the lines of the first, then those of the
/// rest.
pub proof fn lemma_journal_list_front(items: Seq<JournalView>)
    requires
        items.len() > 0,
    ensures
        journal_list_lines(items) == journal_lines(items[0]) + journal_list_lines(
            items.drop_first(),
        ),
    decreases items.len(),
{
    if items.len() == 1 {
        assert(items.drop_last() =~= Seq::<JournalView>::empty());
        assert(items.drop_first() =~= Seq::<JournalView>::empty());
        assert(journal_list_lines(items.drop_last()) =~= Seq::<PropertyView>::empty());
        assert(journal_list_lines(items.drop_first()) =~= Seq::<PropertyView>::empty());
        assert(items.last() == items[0]);
        assert(journal_list_lines(items) =~= journal_lines(items[0]) + journal_list_lines(
            items.drop_first(),
        ));
    } else {
        let front = items.drop_last();
        lemma_journal_list_front(front);
        assert(front[0] == items[0]);
        assert(front.drop_first() =~= items.drop_first().drop_last());
        assert(items.drop_first().last() == items.last());
        assert(journal_list_lines(items.drop_first()) == journal_list_lines(items.drop_first().drop_last())
            + journal_lines(items.last()));
        assert(journal_list_lines(items) =~= journal_lines(items[0]) + journal_list_lines(
            items.drop_first(),
        ));
    }
}

/// The lines in the block of a transition:
/// its properties.
pub open spec fn transition_body(v: TransitionView) -> Seq<PropertyView> {
    v.properties
}

/// The lines of a transition: its block between its `BEGIN` and
/// its `END` line.
pub open spec fn transition_lines(v: TransitionView) -> Seq<PropertyView> {
    framed(transition_name(v.transition), transition_body(v))
}

/// Whether a transition holds only what is read back as it was written:
/// each of its properties is a body property.
pub open spec fn transition_written(v: TransitionView) -> bool {
    forall|i: int| 0 <= i < v.properties.len() ==> body_property(#[trigger] v.properties[i])
}

proof fn lemma_transition_add_all(d: TransitionView, props: Seq<PropertyView>)
    ensures
        add_all(
            d,
            props,
            |d: TransitionView, p: PropertyView| IcalTimeZoneTransition::<false>::with_property(d, p),
        ) == (TransitionView { transition: d.transition, properties: d.properties + props }),
    decreases props.len(),
{
    if props.len() == 0 {
        assert(d.properties + props =~= d.properties);
    } else {
        lemma_transition_add_all(IcalTimeZoneTransition::<false>::with_property(d, props[0]), props.drop_first());
        assert(d.properties.push(props[0]) + props.drop_first() =~= d.properties + props);
    }
}

/// Reading the lines in the block of a transition and its `END` line, into an
/// empty draft, gives the draft of it, and leaves what stands behind.
pub proof fn lemma_transition_block(body: TransitionView, tail: Seq<Item>)
    requires
        transition_written(body),
    ensures
        parse_block(
            TransitionView { transition: body.transition, properties: Seq::empty() },
            oks(transition_body(body)) + (seq![
                Ok::<PropertyView, PropertyError>(frame_line("END"@, transition_name(body.transition))),
            ] + tail),
            |d: TransitionView, p: PropertyView|
                IcalTimeZoneTransition::<false>::with_property(d, p),
            |d: TransitionView, n: Seq<char>, i: Seq<Item>|
                IcalTimeZoneTransition::<false>::sub_component(d, n, i),
        ) == (Parsed { result: Ok::<TransitionView, ParserErrorView>(body), rest: tail }),
{
    let start = TransitionView { transition: body.transition, properties: Seq::empty() };
    let end = seq![
        Ok::<PropertyView, PropertyError>(frame_line("END"@, transition_name(body.transition))),
    ] + tail;
    let props = body.properties;
    assert forall|i: int| 0 <= i < props.len() implies (#[trigger] props[i]).name != "BEGIN"@
        && props[i].name != "END"@ by {
        assert(body_property(props[i]));
    }
    lemma_parse_props(
        start,
        body.properties,
        end,
        |d: TransitionView, p: PropertyView| IcalTimeZoneTransition::<false>::with_property(d, p),
        |d: TransitionView, n: Seq<char>, i: Seq<Item>|
            IcalTimeZoneTransition::<false>::sub_component(d, n, i),
    );
    lemma_transition_add_all(start, body.properties);
    assert(Seq::<PropertyView>::empty() + body.properties =~= body.properties);
    lemma_parse_end(
        body,
        transition_name(body.transition),
        tail,
        |d: TransitionView, p: PropertyView| IcalTimeZoneTransition::<false>::with_property(d, p),
        |d: TransitionView, n: Seq<char>, i: Seq<Item>|
            IcalTimeZoneTransition::<false>::sub_component(d, n, i),
    );
}

/// The text of a transition is the text of its lines, and its
/// lines are written properties.
pub proof fn lemma_transition_text(v: TransitionView)
    requires
        transition_written(v),
    ensures
        <IcalTimeZoneTransition<true> as Emitter>::generated(v) == generated_properties(transition_lines(v)),
        forall|i: int|
            0 <= i < transition_lines(v).len() ==> written_property(#[trigger] transition_lines(v)[i]),
{
    lemma_kind_names();
    lemma_block_text(transition_name(v.transition), transition_body(v));
    let lines = transition_lines(v);
    assert forall|i: int| 0 <= i < lines.len() implies written_property(
        #[trigger] lines[i],
    ) by {
        if 0 < i && i <= v.properties.len() {
            assert(lines[i] == v.properties[i - 1]);
            assert(body_property(v.properties[i - 1]));
        }
    }
}

/// The lines of transitions, one after the other.
pub open spec fn transition_list_lines(items: Seq<TransitionView>) -> Seq<PropertyView>
    decreases items.len(),
{
    if items.len() == 0 {
        Seq::empty()
    } else {
        transition_list_lines(items.drop_last()) + transition_lines(items.last())
    }
}

/// Whether each of the transitions holds only what is read back as it was
/// written.
pub open spec fn transition_list_written(items: Seq<TransitionView>) -> bool {
    forall|i: int| 0 <= i < items.len() ==> transition_written(#[trigger] items[i])
}

/// The text of transitions is the text of their lines, and their lines are
/// written properties.
pub proof fn lemma_transition_list_text(items: Seq<TransitionView>)
    requires
        transition_list_written(items),
    ensures
        generated_all::<IcalTimeZoneTransition<true>>(items) == generated_properties(transition_list_lines(items)),
        forall|i: int|
            0 <= i < transition_list_lines(items).len() ==> written_property(
                #[trigger] transition_list_lines(items)[i],
            ),
    decreases items.len(),
{
    if items.len() > 0 {
        let front = items.drop_last();
        assert(transition_list_written(front)) by {
            assert forall|i: int| 0 <= i < front.len() implies transition_written(#[trigger] front[i]) by {
                assert(front[i] == items[i]);
            }
        }
        assert(transition_written(items.last()));
        lemma_transition_list_text(front);
        lemma_transition_text(items.last());
        lemma_generated_concat(transition_list_lines(front), transition_lines(items.last()));
        let lines = transition_list_lines(items);
        assert forall|i: int| 0 <= i < lines.len() implies written_property(
            #[trigger] lines[i],
        ) by {
            if i >= transition_list_lines(front).len() {
                assert(lines[i] == transition_lines(items.last())[i - transition_list_lines(front).len()]);
            } else {
                assert(lines[i] == transition_list_lines(front)[i]);
            }
        }
    } else {
        assert(generated_properties(Seq::<PropertyView>::empty()) =~= Seq::<char>::empty());
    }
}

/// The lines of transitions are the lines of the first, then those of the
/// rest.
pub proof fn lemma_transition_list_front(items: Seq<TransitionView>)
    requires
        items.len() > 0,
    ensures
        transition_list_lines(items) == transition_lines(items[0]) + transition_list_lines(
            items.drop_first(),
        ),
    decreases items.len(),
{
    if items.len() == 1 {
        assert(items.drop_last() =~= Seq::<TransitionView>::empty());
        assert(items.drop_first() =~= Seq::<TransitionView>::empty());
        assert(transition_list_lines(items.drop_last()) =~= Seq::<PropertyView>::empty());
        assert(transition_list_lines(items.drop_first()) =~= Seq::<PropertyView>::empty());
        assert(items.last() == items[0]);
        assert(transition_list_lines(items) =~= transition_lines(items[0]) + transition_list_lines(
            items.drop_first(),
        ));
    } else {
        let front = items.drop_last();
        lemma_transition_list_front(front);
        assert(front[0] == items[0]);
        assert(front.drop_first() =~= items.drop_first().drop_last());
        assert(items.drop_first().last() == items.last());
        assert(transition_list_lines(items.drop_first()) == transition_list_lines(items.drop_first().drop_last())
            + transition_lines(items.last()));
        assert(transition_list_lines(items) =~= transition_lines(items[0]) + transition_list_lines(
            items.drop_first(),
        ));
    }
}

/// The lines in the block of a to-do:
/// its properties, then the lines of its alarms.
pub open spec fn todo_body(v: TodoView) -> Seq<PropertyView> {
    v.properties + alarm_list_lines(v.alarms)
}

/// The lines of a to-do: its block between its `BEGIN` and
/// its `END` line.
pub open spec fn todo_lines(v: TodoView) -> Seq<PropertyView> {
    framed("VTODO"@, todo_body(v))
}

/// Whether a to-do holds only what is read back as it was written:
/// body properties, in itself and in its alarms.
pub open spec fn todo_written(v: TodoView) -> bool {
    (forall|i: int| 0 <= i < v.properties.len() ==> body_property(#[trigger] v.properties[i]))
        && alarm_list_written(v.alarms)
}

proof fn lemma_todo_add_all(d: TodoView, props: Seq<PropertyView>)
    ensures
        add_all(
            d,
            props,
            |d: TodoView, p: PropertyView| IcalTodo::<false>::with_property(d, p),
        ) == (TodoView { properties: d.properties + props, alarms: d.alarms }),
    decreases props.len(),
{
    if props.len() == 0 {
        assert(d.properties + props =~= d.properties);
    } else {
        lemma_todo_add_all(IcalTodo::<false>::with_property(d, props[0]), props.drop_first());
        assert(d.properties.push(props[0]) + props.drop_first() =~= d.properties + props);
    }
}

proof fn lemma_todo_alarm_list(
    d: TodoView,
    children: Seq<AlarmView>,
    tail: Seq<Item>,
)
    requires
        alarm_list_written(children),
    ensures
        parse_block(
            d,
            oks(alarm_list_lines(children)) + tail,
            |d: TodoView, p: PropertyView| IcalTodo::<false>::with_property(d, p),
            |d: TodoView, n: Seq<char>, i: Seq<Item>| IcalTodo::<false>::sub_component(d, n, i),
        ) == parse_block(
            TodoView { properties: d.properties, alarms: d.alarms + children },
            tail,
            |d: TodoView, p: PropertyView| IcalTodo::<false>::with_property(d, p),
            |d: TodoView, n: Seq<char>, i: Seq<Item>| IcalTodo::<false>::sub_component(d, n, i),
        ),
    decreases children.len(),
{
    lemma_kind_names();
    if children.len() == 0 {
        assert(alarm_list_lines(children) =~= Seq::<PropertyView>::empty());
        assert(oks(alarm_list_lines(children)) + tail =~= tail);
        assert(d.alarms + children =~= d.alarms);
    } else {
        let c = children[0];
        let rest = children.drop_first();
        assert(alarm_written(c));
        assert(alarm_list_written(rest)) by {
            assert forall|i: int| 0 <= i < rest.len() implies alarm_written(#[trigger] rest[i]) by {
                assert(rest[i] == children[i + 1]);
            }
        }
        lemma_alarm_list_front(children);
        let kind = "VALARM"@;
        let after = oks(alarm_list_lines(rest)) + tail;
        let end = seq![Ok::<PropertyView, PropertyError>(frame_line("END"@, kind))];
        let inner = oks(alarm_body(c)) + end;
        assert(oks(alarm_list_lines(children)) + tail =~= seq![
            Ok::<PropertyView, PropertyError>(frame_line("BEGIN"@, kind)),
        ] + (inner + after));
        assert(inner + after =~= oks(alarm_body(c)) + (end + after));
        lemma_alarm_block(c, after);
        let next = TodoView { properties: d.properties, alarms: d.alarms.push(c) };
        assert(IcalTodo::<false>::sub_component(d, kind, inner + after) == (Parsed {
            result: Ok::<TodoView, ParserErrorView>(next),
            rest: after,
        }));
        lemma_parse_child(
            d,
            kind,
            inner,
            after,
            next,
            |d: TodoView, p: PropertyView| IcalTodo::<false>::with_property(d, p),
            |d: TodoView, n: Seq<char>, i: Seq<Item>| IcalTodo::<false>::sub_component(d, n, i),
        );
        lemma_todo_alarm_list(next, rest, tail);
        assert(next.alarms + rest =~= d.alarms + children);
    }
}

/// Reading the lines in the block of a to-do and its `END` line, into an
/// empty draft, gives the draft of it, and leaves what stands behind.
pub proof fn lemma_todo_block(body: TodoView, tail: Seq<Item>)
    requires
        todo_written(body),
    ensures
        parse_block(
            TodoView { properties: Seq::empty(), alarms: Seq::empty() },
            oks(todo_body(body)) + (seq![
                Ok::<PropertyView, PropertyError>(frame_line("END"@, "VTODO"@)),
            ] + tail),
            |d: TodoView, p: PropertyView| IcalTodo::<false>::with_property(d, p),
            |d: TodoView, n: Seq<char>, i: Seq<Item>| IcalTodo::<false>::sub_component(d, n, i),
        ) == (Parsed { result: Ok::<TodoView, ParserErrorView>(body), rest: tail }),
{
    let start = TodoView { properties: Seq::empty(), alarms: Seq::empty() };
    let end = seq![
        Ok::<PropertyView, PropertyError>(frame_line("END"@, "VTODO"@)),
    ] + tail;
    let props = body.properties;
    assert forall|i: int| 0 <= i < props.len() implies (#[trigger] props[i]).name != "BEGIN"@
        && props[i].name != "END"@ by {
        assert(body_property(props[i]));
    }
    let inside = oks(alarm_list_lines(body.alarms)) + end;
    lemma_oks_concat(body.properties, alarm_list_lines(body.alarms));
    assert(oks(todo_body(body)) + end =~= oks(body.properties) + inside);
    lemma_parse_props(
        start,
        body.properties,
        inside,
        |d: TodoView, p: PropertyView| IcalTodo::<false>::with_property(d, p),
        |d: TodoView, n: Seq<char>, i: Seq<Item>| IcalTodo::<false>::sub_component(d, n, i),
    );
    lemma_todo_add_all(start, body.properties);
    assert(Seq::<PropertyView>::empty() + body.properties =~= body.properties);
    let filled = TodoView { properties: body.properties, alarms: Seq::empty() };
    lemma_todo_alarm_list(filled, body.alarms, end);
    assert(filled.alarms + body.alarms =~= body.alarms);
    lemma_parse_end(
        body,
        "VTODO"@,
        tail,
        |d: TodoView, p: PropertyView| IcalTodo::<false>::with_property(d, p),
        |d: TodoView, n: Seq<char>, i: Seq<Item>| IcalTodo::<false>::sub_component(d, n, i),
    );
}

/// The text of a to-do is the text of its lines, and its
/// lines are written properties.
pub proof fn lemma_todo_text(v: TodoView)
    requires
        todo_written(v),
    ensures
        <IcalTodo<true> as Emitter>::generated(v) == generated_properties(todo_lines(v)),
        forall|i: int|
            0 <= i < todo_lines(v).len() ==> written_property(#[trigger] todo_lines(v)[i]),
{
    lemma_kind_names();
    lemma_alarm_list_text(v.alarms);
    lemma_generated_concat(v.properties, alarm_list_lines(v.alarms));
    lemma_block_text("VTODO"@, todo_body(v));
    let lines = todo_lines(v);
    assert forall|i: int| 0 <= i < lines.len() implies written_property(
        #[trigger] lines[i],
    ) by {
        if 0 < i && i <= v.properties.len() {
            assert(lines[i] == v.properties[i - 1]);
            assert(body_property(v.properties[i - 1]));
        } else if v.properties.len() < i && i < lines.len() - 1 {
            assert(lines[i] == alarm_list_lines(v.alarms)[i - 1 - v.properties.len()]);
        }
    }
}

/// The lines of to-dos, one after the other.
pub open spec fn todo_list_lines(items: Seq<TodoView>) -> Seq<PropertyView>
    decreases items.len(),
{
    if items.len() == 0 {
        Seq::empty()
    } else {
        todo_list_lines(items.drop_last()) + todo_lines(items.last())
    }
}

/// Whether each of the to-dos holds only what is read back as it was
/// written.
pub open spec fn todo_list_written(items: Seq<TodoView>) -> bool {
    forall|i: int| 0 <= i < items.len() ==> todo_written(#[trigger] items[i])
}

/// The text of to-dos is the text of their lines, and their lines are
/// written properties.
pub proof fn lemma_todo_list_text(items: Seq<TodoView>)
    requires
        todo_list_written(items),
    ensures
        generated_all::<IcalTodo<true>>(items) == generated_properties(todo_list_lines(items)),
        forall|i: int|
            0 <= i < todo_list_lines(items).len() ==> written_property(
                #[trigger] todo_list_lines(items)[i],
            ),
    decreases items.len(),
{
    if items.len() > 0 {
        let front = items.drop_last();
        assert(todo_list_written(front)) by {
            assert forall|i: int| 0 <= i < front.len() implies todo_written(#[trigger] front[i]) by {
                assert(front[i] == items[i]);
            }
        }
        assert(todo_written(items.last()));
        lemma_todo_list_text(front);
        lemma_todo_text(items.last());
        lemma_generated_concat(todo_list_lines(front), todo_lines(items.last()));
        let lines = todo_list_lines(items);
        assert forall|i: int| 0 <= i < lines.len() implies written_property(
            #[trigger] lines[i],
        ) by {
            if i >= todo_list_lines(front).len() {
                assert(lines[i] == todo_lines(items.last())[i - todo_list_lines(front).len()]);
            } else {
                assert(lines[i] == todo_list_lines(front)[i]);
            }
        }
    } else {
        assert(generated_properties(Seq::<PropertyView>::empty()) =~= Seq::<char>::empty());
    }
}

/// The lines of to-dos are the lines of the first, then those of the
/// rest.
pub proof fn lemma_todo_list_front(items: Seq<TodoView>)
    requires
        items.len() > 0,
    ensures
        todo_list_lines(items) == todo_lines(items[0]) + todo_list_lines(
            items.drop_first(),
        ),
    decreases items.len(),
{
    if items.len() == 1 {
        assert(items.drop_last() =~= Seq::<TodoView>::empty());
        assert(items.drop_first() =~= Seq::<TodoView>::empty());
        assert(todo_list_lines(items.drop_last()) =~= Seq::<PropertyView>::empty());
        assert(todo_list_lines(items.drop_first()) =~= Seq::<PropertyView>::empty());
        assert(items.last() == items[0]);
        assert(todo_list_lines(items) =~= todo_lines(items[0]) + todo_list_lines(
            items.drop_first(),
        ));
    } else {
        let front = items.drop_last();
        lemma_todo_list_front(front);
        assert(front[0] == items[0]);
        assert(front.drop_first() =~= items.drop_first().drop_last());
        assert(items.drop_first().last() == items.last());
        assert(todo_list_lines(items.drop_first()) == todo_list_lines(items.drop_first().drop_last())
            + todo_lines(items.last()));
        assert(todo_list_lines(items) =~= todo_lines(items[0]) + todo_list_lines(
            items.drop_first(),
        ));
    }
}

/// The lines in the block of a timezone definition:
/// its properties, then the lines of its transitions.
pub open spec fn timezone_body(v: TimeZoneView) -> Seq<PropertyView> {
    v.properties + transition_list_lines(v.transitions)
}

/// The lines of a timezone definition: its block between its `BEGIN` and
/// its `END` line.
pub open spec fn timezone_lines(v: TimeZoneView) -> Seq<PropertyView> {
    framed("VTIMEZONE"@, timezone_body(v))
}

/// Whether a timezone definition holds only what is read back as it was written:
/// body properties, in itself and in its transitions.
pub open spec fn timezone_written(v: TimeZoneView) -> bool {
    (forall|i: int| 0 <= i < v.properties.len() ==> body_property(#[trigger] v.properties[i]))
        && transition_list_written(v.transitions)
}

proof fn lemma_timezone_add_all(d: TimeZoneView, props: Seq<PropertyView>)
    ensures
        add_all(
            d,
            props,
            |d: TimeZoneView, p: PropertyView| IcalTimeZone::<false>::with_property(d, p),
        ) == (TimeZoneView { properties: d.properties + props, transitions: d.transitions }),
    decreases props.len(),
{
    if props.len() == 0 {
        assert(d.properties + props =~= d.properties);
    } else {
        lemma_timezone_add_all(IcalTimeZone::<false>::with_property(d, props[0]), props.drop_first());
        assert(d.properties.push(props[0]) + props.drop_first() =~= d.properties + props);
    }
}

proof fn lemma_timezone_transition_list(
    d: TimeZoneView,
    children: Seq<TransitionView>,
    tail: Seq<Item>,
)
    requires
        transition_list_written(children),
    ensures
        parse_block(
            d,
            oks(transition_list_lines(children)) + tail,
            |d: TimeZoneView, p: PropertyView| IcalTimeZone::<false>::with_property(d, p),
            |d: TimeZoneView, n: Seq<char>, i: Seq<Item>|
                IcalTimeZone::<false>::sub_component(d, n, i),
        ) == parse_block(
            TimeZoneView { properties: d.properties, transitions: d.transitions + children },
            tail,
            |d: TimeZoneView, p: PropertyView| IcalTimeZone::<false>::with_property(d, p),
            |d: TimeZoneView, n: Seq<char>, i: Seq<Item>|
                IcalTimeZone::<false>::sub_component(d, n, i),
        ),
    decreases children.len(),
{
    lemma_kind_names();
    if children.len() == 0 {
        assert(transition_list_lines(children) =~= Seq::<PropertyView>::empty());
        assert(oks(transition_list_lines(children)) + tail =~= tail);
        assert(d.transitions + children =~= d.transitions);
    } else {
        let c = children[0];
        let rest = children.drop_first();
        assert(transition_written(c));
        assert(transition_list_written(rest)) by {
            assert forall|i: int| 0 <= i < rest.len() implies transition_written(#[trigger] rest[i]) by {
                assert(rest[i] == children[i + 1]);
            }
        }
        lemma_transition_list_front(children);
        let kind = transition_name(c.transition);
        let after = oks(transition_list_lines(rest)) + tail;
        let end = seq![Ok::<PropertyView, PropertyError>(frame_line("END"@, kind))];
        let inner = oks(transition_body(c)) + end;
        assert(oks(transition_list_lines(children)) + tail =~= seq![
            Ok::<PropertyView, PropertyError>(frame_line("BEGIN"@, kind)),
        ] + (inner + after));
        assert(inner + after =~= oks(transition_body(c)) + (end + after));
        lemma_transition_block(c, after);
        let next = TimeZoneView { properties: d.properties, transitions: d.transitions.push(c) };
        assert(IcalTimeZone::<false>::sub_component(d, kind, inner + after) == (Parsed {
            result: Ok::<TimeZoneView, ParserErrorView>(next),
            rest: after,
        }));
        lemma_parse_child(
            d,
            kind,
            inner,
            after,
            next,
            |d: TimeZoneView, p: PropertyView| IcalTimeZone::<false>::with_property(d, p),
            |d: TimeZoneView, n: Seq<char>, i: Seq<Item>|
                IcalTimeZone::<false>::sub_component(d, n, i),
        );
        lemma_timezone_transition_list(next, rest, tail);
        assert(next.transitions + rest =~= d.transitions + children);
    }
}

/// Reading the lines in the block of a timezone definition and its `END` line, into an
/// empty draft, gives the draft of it, and leaves what stands behind.
pub proof fn lemma_timezone_block(body: TimeZoneView, tail: Seq<Item>)
    requires
        timezone_written(body),
    ensures
        parse_block(
            TimeZoneView { properties: Seq::empty(), transitions: Seq::empty() },
            oks(timezone_body(body)) + (seq![
                Ok::<PropertyView, PropertyError>(frame_line("END"@, "VTIMEZONE"@)),
            ] + tail),
            |d: TimeZoneView, p: PropertyView| IcalTimeZone::<false>::with_property(d, p),
            |d: TimeZoneView, n: Seq<char>, i: Seq<Item>|
                IcalTimeZone::<false>::sub_component(d, n, i),
        ) == (Parsed { result: Ok::<TimeZoneView, ParserErrorView>(body), rest: tail }),
{
    let start = TimeZoneView { properties: Seq::empty(), transitions: Seq::empty() };
    let end = seq![
        Ok::<PropertyView, PropertyError>(frame_line("END"@, "VTIMEZONE"@)),
    ] + tail;
    let props = body.properties;
    assert forall|i: int| 0 <= i < props.len() implies (#[trigger] props[i]).name != "BEGIN"@
        && props[i].name != "END"@ by {
        assert(body_property(props[i]));
    }
    let inside = oks(transition_list_lines(body.transitions)) + end;
    lemma_oks_concat(body.properties, transition_list_lines(body.transitions));
    assert(oks(timezone_body(body)) + end =~= oks(body.properties) + inside);
    lemma_parse_props(
        start,
        body.properties,
        inside,
        |d: TimeZoneView, p: PropertyView| IcalTimeZone::<false>::with_property(d, p),
        |d: TimeZoneView, n: Seq<char>, i: Seq<Item>| IcalTimeZone::<false>::sub_component(d, n, i),
    );
    lemma_timezone_add_all(start, body.properties);
    assert(Seq::<PropertyView>::empty() + body.properties =~= body.properties);
    let filled = TimeZoneView { properties: body.properties, transitions: Seq::empty() };
    lemma_timezone_transition_list(filled, body.transitions, end);
    assert(filled.transitions + body.transitions =~= body.transitions);
    lemma_parse_end(
        body,
        "VTIMEZONE"@,
        tail,
        |d: TimeZoneView, p: PropertyView| IcalTimeZone::<false>::with_property(d, p),
        |d: TimeZoneView, n: Seq<char>, i: Seq<Item>| IcalTimeZone::<false>::sub_component(d, n, i),
    );
}

/// The text of a timezone definition is the text of its lines, and its
/// lines are written properties.
pub proof fn lemma_timezone_text(v: TimeZoneView)
    requires
        timezone_written(v),
    ensures
        <IcalTimeZone<true> as Emitter>::generated(v) == generated_properties(timezone_lines(v)),
        forall|i: int|
            0 <= i < timezone_lines(v).len() ==> written_property(#[trigger] timezone_lines(v)[i]),
{
    lemma_kind_names();
    lemma_transition_list_text(v.transitions);
    lemma_generated_concat(v.properties, transition_list_lines(v.transitions));
    lemma_block_text("VTIMEZONE"@, timezone_body(v));
    let lines = timezone_lines(v);
    assert forall|i: int| 0 <= i < lines.len() implies written_property(
        #[trigger] lines[i],
    ) by {
        if 0 < i && i <= v.properties.len() {
            assert(lines[i] == v.properties[i - 1]);
            assert(body_property(v.properties[i - 1]));
        } else if v.properties.len() < i && i < lines.len() - 1 {
            assert(lines[i] == transition_list_lines(v.transitions)[i - 1 - v.properties.len()]);
        }
    }
}

/// The lines of timezone definitions, one after the other.
pub open spec fn timezone_list_lines(items: Seq<TimeZoneView>) -> Seq<PropertyView>
    decreases items.len(),
{
    if items.len() == 0 {
        Seq::empty()
    } else {
        timezone_list_lines(items.drop_last()) + timezone_lines(items.last())
    }
}

/// Whether each of the timezone definitions holds only what is read back as it was
/// written.
pub open spec fn timezone_list_written(items: Seq<TimeZoneView>) -> bool {
    forall|i: int| 0 <= i < items.len() ==> timezone_written(#[trigger] items[i])
}

/// The text of timezone definitions is the text of their lines, and their lines are
/// written properties.
pub proof fn lemma_timezone_list_text(items: Seq<TimeZoneView>)
    requires
        timezone_list_written(items),
    ensures
        generated_all::<IcalTimeZone<true>>(items) == generated_properties(timezone_list_lines(items)),
        forall|i: int|
            0 <= i < timezone_list_lines(items).len() ==> written_property(
                #[trigger] timezone_list_lines(items)[i],
            ),
    decreases items.len(),
{
    if items.len() > 0 {
        let front = items.drop_last();
        assert(timezone_list_written(front)) by {
            assert forall|i: int| 0 <= i < front.len() implies timezone_written(#[trigger] front[i]) by {
                assert(front[i] == items[i]);
            }
        }
        assert(timezone_written(items.last()));
        lemma_timezone_list_text(front);
        lemma_timezone_text(items.last());
        lemma_generated_concat(timezone_list_lines(front), timezone_lines(items.last()));
        let lines = timezone_list_lines(items);
        assert forall|i: int| 0 <= i < lines.len() implies written_property(
            #[trigger] lines[i],
        ) by {
            if i >= timezone_list_lines(front).len() {
                assert(lines[i] == timezone_lines(items.last())[i - timezone_list_lines(front).len()]);
            } else {
                assert(lines[i] == timezone_list_lines(front)[i]);
            }
        }
    } else {
        assert(generated_properties(Seq::<PropertyView>::empty()) =~= Seq::<char>::empty());
    }
}

/// The lines of timezone definitions are the lines of the first, then those of the
/// rest.
pub proof fn lemma_timezone_list_front(items: Seq<TimeZoneView>)
    requires
        items.len() > 0,
    ensures
        timezone_list_lines(items) == timezone_lines(items[0]) + timezone_list_lines(
            items.drop_first(),
        ),
    decreases items.len(),
{
    if items.len() == 1 {
        assert(items.drop_last() =~= Seq::<TimeZoneView>::empty());
        assert(items.drop_first() =~= Seq::<TimeZoneView>::empty());
        assert(timezone_list_lines(items.drop_last()) =~= Seq::<PropertyView>::empty());
        assert(timezone_list_lines(items.drop_first()) =~= Seq::<PropertyView>::empty());
        assert(items.last() == items[0]);
        assert(timezone_list_lines(items) =~= timezone_lines(items[0]) + timezone_list_lines(
            items.drop_first(),
        ));
    } else {
        let front = items.drop_last();
        lemma_timezone_list_front(front);
        assert(front[0] == items[0]);
        assert(front.drop_first() =~= items.drop_first().drop_last());
        assert(items.drop_first().last() == items.last());
        assert(timezone_list_lines(items.drop_first()) == timezone_list_lines(items.drop_first().drop_last())
            + timezone_lines(items.last()));
        assert(timezone_list_lines(items) =~= timezone_lines(items[0]) + timezone_list_lines(
            items.drop_first(),
        ));
    }
}

/// The lines in the block of an event:
/// its properties, then the lines of its alarms.
pub open spec fn event_body(v: EventView) -> Seq<PropertyView> {
    v.properties + alarm_list_lines(v.alarms)
}

/// The lines of an event: its block between its `BEGIN` and
/// its `END` line.
pub open spec fn event_lines(v: EventView) -> Seq<PropertyView> {
    framed("VEVENT"@, event_body(v))
}

/// Whether an event holds only what is read back as it was written:
/// body properties, in itself and in its alarms.
pub open spec fn event_written(v: EventView) -> bool {
    (forall|i: int| 0 <= i < v.properties.len() ==> body_property(#[trigger] v.properties[i]))
        && alarm_list_written(v.alarms)
}

proof fn lemma_event_add_all(d: EventBuilderView, props: Seq<PropertyView>)
    ensures
        add_all(
            d,
            props,
            |d: EventBuilderView, p: PropertyView| IcalEventBuilder::with_property(d, p),
        ) == (EventBuilderView { properties: d.properties + props, alarms: d.alarms }),
    decreases props.len(),
{
    if props.len() == 0 {
        assert(d.properties + props =~= d.properties);
    } else {
        lemma_event_add_all(IcalEventBuilder::with_property(d, props[0]), props.drop_first());
        assert(d.properties.push(props[0]) + props.drop_first() =~= d.properties + props);
    }
}

proof fn lemma_event_alarm_list(
    d: EventBuilderView,
    children: Seq<AlarmView>,
    tail: Seq<Item>,
)
    requires
        alarm_list_written(children),
    ensures
        parse_block(
            d,
            oks(alarm_list_lines(children)) + tail,
            |d: EventBuilderView, p: PropertyView| IcalEventBuilder::with_property(d, p),
            |d: EventBuilderView, n: Seq<char>, i: Seq<Item>|
                IcalEventBuilder::sub_component(d, n, i),
        ) == parse_block(
            EventBuilderView { properties: d.properties, alarms: d.alarms + children },
            tail,
            |d: EventBuilderView, p: PropertyView| IcalEventBuilder::with_property(d, p),
            |d: EventBuilderView, n: Seq<char>, i: Seq<Item>|
                IcalEventBuilder::sub_component(d, n, i),
        ),
    decreases children.len(),
{
    lemma_kind_names();
    if children.len() == 0 {
        assert(alarm_list_lines(children) =~= Seq::<PropertyView>::empty());
        assert(oks(alarm_list_lines(children)) + tail =~= tail);
        assert(d.alarms + children =~= d.alarms);
    } else {
        let c = children[0];
        let rest = children.drop_first();
        assert(alarm_written(c));
        assert(alarm_list_written(rest)) by {
            assert forall|i: int| 0 <= i < rest.len() implies alarm_written(#[trigger] rest[i]) by {
                assert(rest[i] == children[i + 1]);
            }
        }
        lemma_alarm_list_front(children);
        let kind = "VALARM"@;
        let after = oks(alarm_list_lines(rest)) + tail;
        let end = seq![Ok::<PropertyView, PropertyError>(frame_line("END"@, kind))];
        let inner = oks(alarm_body(c)) + end;
        assert(oks(alarm_list_lines(children)) + tail =~= seq![
            Ok::<PropertyView, PropertyError>(frame_line("BEGIN"@, kind)),
        ] + (inner + after));
        assert(inner + after =~= oks(alarm_body(c)) + (end + after));
        lemma_alarm_block(c, after);
        let next = EventBuilderView { properties: d.properties, alarms: d.alarms.push(c) };
        assert(IcalEventBuilder::sub_component(d, kind, inner + after) == (Parsed {
            result: Ok::<EventBuilderView, ParserErrorView>(next),
            rest: after,
        }));
        lemma_parse_child(
            d,
            kind,
            inner,
            after,
            next,
            |d: EventBuilderView, p: PropertyView| IcalEventBuilder::with_property(d, p),
            |d: EventBuilderView, n: Seq<char>, i: Seq<Item>|
                IcalEventBuilder::sub_component(d, n, i),
        );
        lemma_event_alarm_list(next, rest, tail);
        assert(next.alarms + rest =~= d.alarms + children);
    }
}

/// Reading the lines in the block of an event and its `END` line, into an
/// empty draft, gives the draft of it, and leaves what stands behind.
pub proof fn lemma_event_block(body: EventView, tail: Seq<Item>)
    requires
        event_written(body),
    ensures
        parse_block(
            EventBuilderView { properties: Seq::empty(), alarms: Seq::empty() },
            oks(event_body(body)) + (seq![
                Ok::<PropertyView, PropertyError>(frame_line("END"@, "VEVENT"@)),
            ] + tail),
            |d: EventBuilderView, p: PropertyView| IcalEventBuilder::with_property(d, p),
            |d: EventBuilderView, n: Seq<char>, i: Seq<Item>|
                IcalEventBuilder::sub_component(d, n, i),
        ) == (Parsed { result: Ok::<EventBuilderView, ParserErrorView>(IcalEvent::draft_of(body)), rest: tail }),
{
    let start = EventBuilderView { properties: Seq::empty(), alarms: Seq::empty() };
    let end = seq![
        Ok::<PropertyView, PropertyError>(frame_line("END"@, "VEVENT"@)),
    ] + tail;
    let props = body.properties;
    assert forall|i: int| 0 <= i < props.len() implies (#[trigger] props[i]).name != "BEGIN"@
        && props[i].name != "END"@ by {
        assert(body_property(props[i]));
    }
    let inside = oks(alarm_list_lines(body.alarms)) + end;
    lemma_oks_concat(body.properties, alarm_list_lines(body.alarms));
    assert(oks(event_body(body)) + end =~= oks(body.properties) + inside);
    lemma_parse_props(
        start,
        body.properties,
        inside,
        |d: EventBuilderView, p: PropertyView| IcalEventBuilder::with_property(d, p),
        |d: EventBuilderView, n: Seq<char>, i: Seq<Item>| IcalEventBuilder::sub_component(d, n, i),
    );
    lemma_event_add_all(start, body.properties);
    assert(Seq::<PropertyView>::empty() + body.properties =~= body.properties);
    let filled = EventBuilderView { properties: body.properties, alarms: Seq::empty() };
    lemma_event_alarm_list(filled, body.alarms, end);
    assert(filled.alarms + body.alarms =~= body.alarms);
    lemma_parse_end(
        IcalEvent::draft_of(body),
        "VEVENT"@,
        tail,
        |d: EventBuilderView, p: PropertyView| IcalEventBuilder::with_property(d, p),
        |d: EventBuilderView, n: Seq<char>, i: Seq<Item>| IcalEventBuilder::sub_component(d, n, i),
    );
}

/// The text of an event is the text of its lines, and its
/// lines are written properties.
pub proof fn lemma_event_text(v: EventView)
    requires
        event_written(v),
    ensures
        <IcalEvent as Emitter>::generated(v) == generated_properties(event_lines(v)),
        forall|i: int|
            0 <= i < event_lines(v).len() ==> written_property(#[trigger] event_lines(v)[i]),
{
    lemma_kind_names();
    lemma_alarm_list_text(v.alarms);
    lemma_generated_concat(v.properties, alarm_list_lines(v.alarms));
    lemma_block_text("VEVENT"@, event_body(v));
    let lines = event_lines(v);
    assert forall|i: int| 0 <= i < lines.len() implies written_property(
        #[trigger] lines[i],
    ) by {
        if 0 < i && i <= v.properties.len() {
            assert(lines[i] == v.properties[i - 1]);
            assert(body_property(v.properties[i - 1]));
        } else if v.properties.len() < i && i < lines.len() - 1 {
            assert(lines[i] == alarm_list_lines(v.alarms)[i - 1 - v.properties.len()]);
        }
    }
}

/// The lines of events, one after the other.
pub open spec fn event_list_lines(items: Seq<EventView>) -> Seq<PropertyView>
    decreases items.len(),
{
    if items.len() == 0 {
        Seq::empty()
    } else {
        event_list_lines(items.drop_last()) + event_lines(items.last())
    }
}

/// Whether each of the events holds only what is read back as it was
/// written.
pub open spec fn event_list_written(items: Seq<EventView>) -> bool {
    forall|i: int| 0 <= i < items.len() ==> event_written(#[trigger] items[i])
}

/// The text of events is the text of their lines, and their lines are
/// written properties.
pub proof fn lemma_event_list_text(items: Seq<EventView>)
    requires
        event_list_written(items),
    ensures
        generated_all::<IcalEvent>(items) == generated_properties(event_list_lines(items)),
        forall|i: int|
            0 <= i < event_list_lines(items).len() ==> written_property(
                #[trigger] event_list_lines(items)[i],
            ),
    decreases items.len(),
{
    if items.len() > 0 {
        let front = items.drop_last();
        assert(event_list_written(front)) by {
            assert forall|i: int| 0 <= i < front.len() implies event_written(#[trigger] front[i]) by {
                assert(front[i] == items[i]);
            }
        }
        assert(event_written(items.last()));
        lemma_event_list_text(front);
        lemma_event_text(items.last());
        lemma_generated_concat(event_list_lines(front), event_lines(items.last()));
        let lines = event_list_lines(items);
        assert forall|i: int| 0 <= i < lines.len() implies written_property(
            #[trigger] lines[i],
        ) by {
            if i >= event_list_lines(front).len() {
                assert(lines[i] == event_lines(items.last())[i - event_list_lines(front).len()]);
            } else {
                assert(lines[i] == event_list_lines(front)[i]);
            }
        }
    } else {
        assert(generated_properties(Seq::<PropertyView>::empty()) =~= Seq::<char>::empty());
    }
}

/// The lines of events are the lines of the first, then those of the
/// rest.
pub proof fn lemma_event_list_front(items: Seq<EventView>)
    requires
        items.len() > 0,
    ensures
        event_list_lines(items) == event_lines(items[0]) + event_list_lines(
            items.drop_first(),
        ),
    decreases items.len(),
{
    if items.len() == 1 {
        assert(items.drop_last() =~= Seq::<EventView>::empty());
        assert(items.drop_first() =~= Seq::<EventView>::empty());
        assert(event_list_lines(items.drop_last()) =~= Seq::<PropertyView>::empty());
        assert(event_list_lines(items.drop_first()) =~= Seq::<PropertyView>::empty());
        assert(items.last() == items[0]);
        assert(event_list_lines(items) =~= event_lines(items[0]) + event_list_lines(
            items.drop_first(),
        ));
    } else {
        let front = items.drop_last();
        lemma_event_list_front(front);
        assert(front[0] == items[0]);
        assert(front.drop_first() =~= items.drop_first().drop_last());
        assert(items.drop_first().last() == items.last());
        assert(event_list_lines(items.drop_first()) == event_list_lines(items.drop_first().drop_last())
            + event_lines(items.last()));
        assert(event_list_lines(items) =~= event_lines(items[0]) + event_list_lines(
            items.drop_first(),
        ));
    }
}

/// The lines in the block of a contact:
/// its properties.
pub open spec fn contact_body(v: ContactView) -> Seq<PropertyView> {
    v.properties
}

/// The lines of a contact: its block between its `BEGIN` and
/// its `END` line.
pub open spec fn contact_lines(v: ContactView) -> Seq<PropertyView> {
    framed("VCARD"@, contact_body(v))
}

/// Whether a contact holds only what is read back as it was written:
/// each of its properties is a body property.
pub open spec fn contact_written(v: ContactView) -> bool {
    forall|i: int| 0 <= i < v.properties.len() ==> body_property(#[trigger] v.properties[i])
}

proof fn lemma_contact_add_all(d: ContactView, props: Seq<PropertyView>)
    ensures
        add_all(
            d,
            props,
            |d: ContactView, p: PropertyView| VcardContact::<false>::with_property(d, p),
        ) == (ContactView { properties: d.properties + props }),
    decreases props.len(),
{
    if props.len() == 0 {
        assert(d.properties + props =~= d.properties);
    } else {
        lemma_contact_add_all(VcardContact::<false>::with_property(d, props[0]), props.drop_first());
        assert(d.properties.push(props[0]) + props.drop_first() =~= d.properties + props);
    }
}

/// Reading the lines in the block of a contact and its `END` line, into an
/// empty draft, gives the draft of it, and leaves what stands behind.
pub proof fn lemma_contact_block(body: ContactView, tail: Seq<Item>)
    requires
        contact_written(body),
    ensures
        parse_block(
            ContactView { properties: Seq::empty() },
            oks(contact_body(body)) + (seq![
                Ok::<PropertyView, PropertyError>(frame_line("END"@, "VCARD"@)),
            ] + tail),
            |d: ContactView, p: PropertyView| VcardContact::<false>::with_property(d, p),
            |d: ContactView, n: Seq<char>, i: Seq<Item>|
                VcardContact::<false>::sub_component(d, n, i),
        ) == (Parsed { result: Ok::<ContactView, ParserErrorView>(body), rest: tail }),
{
    let start = ContactView { properties: Seq::empty() };
    let end = seq![
        Ok::<PropertyView, PropertyError>(frame_line("END"@, "VCARD"@)),
    ] + tail;
    let props = body.properties;
    assert forall|i: int| 0 <= i < props.len() implies (#[trigger] props[i]).name != "BEGIN"@
        && props[i].name != "END"@ by {
        assert(body_property(props[i]));
    }
    lemma_parse_props(
        start,
        body.properties,
        end,
        |d: ContactView, p: PropertyView| VcardContact::<false>::with_property(d, p),
        |d: ContactView, n: Seq<char>, i: Seq<Item>| VcardContact::<false>::sub_component(d, n, i),
    );
    lemma_contact_add_all(start, body.properties);
    assert(Seq::<PropertyView>::empty() + body.properties =~= body.properties);
    lemma_parse_end(
        body,
        "VCARD"@,
        tail,
        |d: ContactView, p: PropertyView| VcardContact::<false>::with_property(d, p),
        |d: ContactView, n: Seq<char>, i: Seq<Item>| VcardContact::<false>::sub_component(d, n, i),
    );
}

/// The text of a contact is the text of its lines, and its
/// lines are written properties.
pub proof fn lemma_contact_text(v: ContactView)
    requires
        contact_written(v),
    ensures
        <VcardContact<true> as Emitter>::generated(v) == generated_properties(contact_lines(v)),
        forall|i: int|
            0 <= i < contact_lines(v).len() ==> written_property(#[trigger] contact_lines(v)[i]),
{
    lemma_kind_names();
    lemma_block_text("VCARD"@, contact_body(v));
    let lines = contact_lines(v);
    assert forall|i: int| 0 <= i < lines.len() implies written_property(
        #[trigger] lines[i],
    ) by {
        if 0 < i && i <= v.properties.len() {
            assert(lines[i] == v.properties[i - 1]);
            assert(body_property(v.properties[i - 1]));
        }
    }
}

} // verus!
