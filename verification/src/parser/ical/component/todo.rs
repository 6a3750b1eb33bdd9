//! To-dos.
use crate::parser::{
    collect_tzids, find_property, get_property_in, next_step, parse_block, property_value,
    tzid_list, unique_onto, Component, ComponentMut, Item, Parsed, ParserError, ParserErrorView,
    Step,
};
use crate::property::{lemma_push_deep_view, Property, PropertyParser, PropertyView};
use crate::types::TimezoneTable;
use crate::parser::accessor::{
    check_recurid, duration_of_property, duration_of_value, optional_once, parse_duration_prop,
    property_str, recurid_checked, required_value_once, safe_get_optional, safe_get_value,
    value_duration,
};
use crate::parser::ical::component::alarm::{verify_alarms, AlarmView, IcalAlarm};
use crate::types::Duration;
use vstd::prelude::*;

verus! {

/// A to-do. `VERIFIED` tells a checked component from a draft.
#[derive(Debug, Default)]
pub struct IcalTodo<const VERIFIED: bool> {
    pub properties: Vec<Property>,
    /// The alarms of the to-do.
    pub alarms: Vec<IcalAlarm<VERIFIED>>,
}

/// A to-do as a plain value.
pub struct TodoView {
    pub properties: Seq<PropertyView>,
    pub alarms: Seq<AlarmView>,
}

impl<const VERIFIED: bool> View for IcalTodo<VERIFIED> {
    type V = TodoView;

    open spec fn view(&self) -> TodoView {
        TodoView {
            properties: self.properties.deep_view(),
            alarms: self.alarms.deep_view(),
        }
    }
}

impl<const VERIFIED: bool> DeepView for IcalTodo<VERIFIED> {
    type V = TodoView;

    open spec fn deep_view(&self) -> TodoView {
        self@
    }
}

impl<const VERIFIED: bool> crate::property::Duplicate for IcalTodo<VERIFIED> {
    fn duplicate(&self) -> (r: Self) {
        IcalTodo {
            properties: crate::property::duplicate_vec(&self.properties),
            alarms: crate::property::duplicate_vec(&self.alarms),
        }
    }
}

impl IcalTodo<false> {
    /// A draft that holds nothing.
    pub fn new() -> (r: Self)
        ensures
            r@.properties == Seq::<PropertyView>::empty(),
            r@.alarms == Seq::<AlarmView>::empty(),
    {
        let r = IcalTodo { properties: Vec::new(), alarms: Vec::new() };
        assert(r.properties.deep_view() =~= Seq::empty());
        assert(r.alarms.deep_view() =~= Seq::empty());
        r
    }
}

impl<const VERIFIED: bool> Component for IcalTodo<VERIFIED> {
    type Unverified = IcalTodo<false>;

    open spec fn names() -> Seq<Seq<char>> {
        seq!["VTODO"@]
    }

    open spec fn draft_of(v: TodoView) -> TodoView {
        v
    }

    open spec fn properties_of(v: TodoView) -> Seq<PropertyView> {
        v.properties
    }

    fn mutable(self) -> (r: IcalTodo<false>) {
        let ghost before = self.alarms.deep_view();
        assert(crate::parser::views(self.alarms@) =~= before);
        let alarms = crate::parser::mutable_all(self.alarms);
        assert(alarms.deep_view() =~= before) by {
            assert(crate::parser::views(alarms@) =~= alarms.deep_view());
        }
        IcalTodo { properties: self.properties, alarms }
    }

    fn is_name(name: &str) -> (r: bool) {
        let r = name.eq("VTODO");
        assert(seq!["VTODO"@][0] == "VTODO"@);
        r
    }

    fn get_properties(&self) -> (r: &Vec<Property>) {
        &self.properties
    }
}

impl IcalTodo<false> {
    /// Removes every property with the given name.
    pub fn remove_property(&mut self, name: &str)
        ensures
            final(self)@ == (TodoView {
                properties: crate::parser::other_properties(old(self)@.properties, name@),
                ..old(self)@
            }),
    {
        crate::parser::remove_property_in(&mut self.properties, name);
    }

    /// Puts a property in the place of every property of its name: those are
    /// removed and it is added at the end.
    pub fn set_property(&mut self, prop: Property)
        ensures
            final(self)@ == (TodoView {
                properties: crate::parser::other_properties(
                    old(self)@.properties,
                    prop@.name,
                ).push(prop@),
                ..old(self)@
            }),
    {
        crate::parser::remove_property_in(&mut self.properties, prop.name.as_str());
        let ghost before = self.properties;
        let ghost item = prop;
        self.properties.push(prop);
        proof {
            lemma_push_deep_view(before, self.properties, item);
        }
    }
}

impl ComponentMut for IcalTodo<false> {
    type Verified = IcalTodo<true>;

    open spec fn empty() -> TodoView {
        TodoView { properties: Seq::empty(), alarms: Seq::empty() }
    }

    open spec fn with_property(draft: TodoView, property: PropertyView) -> TodoView {
        TodoView { properties: draft.properties.push(property), alarms: draft.alarms }
    }

    open spec fn sub_component(draft: TodoView, name: Seq<char>, items: Seq<Item>) -> Parsed<
        TodoView,
    > {
        if name == "VALARM"@ {
            let sub = parse_block(
                IcalAlarm::<false>::empty(),
                items,
                |d: AlarmView, p: PropertyView| IcalAlarm::<false>::with_property(d, p),
                |d: AlarmView, n: Seq<char>, i: Seq<Item>|
                    IcalAlarm::<false>::sub_component(d, n, i),
            );
            match sub.result {
                Ok(child) => Parsed {
                    result: Ok(
                        TodoView {
                            properties: draft.properties,
                            alarms: draft.alarms.push(child),
                        },
                    ),
                    rest: sub.rest,
                },
                Err(e) => Parsed { result: Err(e), rest: sub.rest },
            }
        } else {
            Parsed { result: Err(ParserErrorView::InvalidComponent(name)), rest: items }
        }
    }

    open spec fn built(draft: TodoView, timezones: Map<Seq<char>, Option<Seq<char>>>) -> Result<
        TodoView,
        ParserErrorView,
    > {
        todo_checked(draft, timezones)
    }

    fn fresh() -> (r: Self) {
        let r = IcalTodo { properties: Vec::new(), alarms: Vec::new() };
        assert(r.properties.deep_view() =~= Seq::empty());
        assert(r.alarms.deep_view() =~= Seq::empty());
        r
    }

    fn add_sub_component(&mut self, value: &str, line_parser: &mut PropertyParser) -> (r: Result<
        (),
        ParserError,
    >) {
        if value.eq("VALARM") {
            let mut child = IcalAlarm::<false>::new();
            match child.parse(line_parser) {
                Err(e) => Err(e),
                Ok(()) => {
                    let ghost before = self.alarms;
                    let ghost item = child;
                    self.alarms.push(child);
                    proof {
                        lemma_push_deep_view(before, self.alarms, item);
                    }
                    Ok(())
                },
            }
        } else {
            Err(ParserError::InvalidComponent(value.to_owned()))
        }
    }

    fn add_property(&mut self, property: Property) {
        let ghost before = self.properties;
        let ghost item = property;
        self.properties.push(property);
        proof {
            lemma_push_deep_view(before, self.properties, item);
        }
    }

    fn build(self, timezones: &TimezoneTable) -> (r: Result<IcalTodo<true>, ParserError>) {
        match safe_get_value(&self.properties, "UID") {
            Err(e) => {
                return Err(e);
            },
            Ok(_) => {},
        }
        match safe_get_value(&self.properties, "DTSTAMP") {
            Err(e) => {
                return Err(e);
            },
            Ok(_) => {},
        }
        match safe_get_optional(&self.properties, "DURATION") {
            Err(e) => {
                return Err(e);
            },
            Ok(None) => {},
            Ok(Some(p)) => match duration_of_value(p) {
                Err(e) => {
                    return Err(ParserError::InvalidDuration(e));
                },
                Ok(_) => {},
            },
        }
        match check_recurid(&self.properties, timezones) {
            Err(e) => Err(e),
            Ok(()) => Ok(IcalTodo { properties: self.properties, alarms: verify_alarms(self.alarms) }),
        }
    }

    fn parse(&mut self, line_parser: &mut PropertyParser) -> (r: Result<(), ParserError>) {
        loop
            invariant
                line_parser.bytes() == old(line_parser).bytes(),
                line_parser.remaining().len() <= old(line_parser).remaining().len(),
                parse_block(
                    self@,
                    line_parser.remaining(),
                    |d: TodoView, p: PropertyView| Self::with_property(d, p),
                    |d: TodoView, name: Seq<char>, items: Seq<Item>|
                        Self::sub_component(d, name, items),
                ) == parse_block(
                    old(self)@,
                    old(line_parser).remaining(),
                    |d: TodoView, p: PropertyView| Self::with_property(d, p),
                    |d: TodoView, name: Seq<char>, items: Seq<Item>|
                        Self::sub_component(d, name, items),
                ),
            decreases line_parser.remaining().len(),
        {
            match next_step(line_parser) {
                Err(e) => {
                    return Err(e);
                },
                Ok(Step::End) => {
                    return Ok(());
                },
                Ok(Step::Begin(name)) => {
                    match self.add_sub_component(name.as_str(), line_parser) {
                        Err(e) => {
                            return Err(e);
                        },
                        Ok(()) => {},
                    }
                },
                Ok(Step::Property(p)) => {
                    self.add_property(p);
                },
            }
        }
    }
}

/// The check of a to-do. A `UID` and a `DTSTAMP` must each occur once, with
/// a value: without a value for the `UID` the fault is a missing `UID`, else
/// without one for the `DTSTAMP` a missing `DTSTAMP`. A `DURATION` may occur
/// once, and its value, where it has one, must be a duration. A
/// `RECURRENCE-ID` must be of the same kind as the `DTSTART`. A to-do that
/// passes is kept as it is.
pub open spec fn todo_checked(draft: TodoView, timezones: Map<Seq<char>, Option<Seq<char>>>) -> Result<
    TodoView,
    ParserErrorView,
> {
    match required_value_once(draft.properties, "UID"@) {
        Err(e) => Err(e),
        Ok(_) => match required_value_once(draft.properties, "DTSTAMP"@) {
            Err(e) => Err(e),
            Ok(_) => match optional_once(draft.properties, "DURATION"@) {
                Err(e) => Err(e),
                Ok(duration) => if duration is Some && value_duration(duration->0) is Err {
                    Err(ParserErrorView::InvalidDuration(value_duration(duration->0)->Err_0))
                } else {
                    match recurid_checked(draft.properties, timezones) {
                        Err(e) => Err(e),
                        Ok(_) => Ok(draft),
                    }
                },
            },
        },
    }
}

/// What the accessors of a checked to-do rely on: a `UID` and a `DTSTAMP`
/// with a value are present.
pub open spec fn todo_valid(v: TodoView) -> bool {
    property_value(v.properties, "UID"@) is Some && property_value(v.properties, "DTSTAMP"@)
        is Some
}

/// A to-do that passed its check is valid.
pub proof fn lemma_todo_checked_valid(draft: TodoView, timezones: Map<Seq<char>, Option<Seq<char>>>)
    requires
        todo_checked(draft, timezones) is Ok,
    ensures
        todo_checked(draft, timezones) == Ok::<TodoView, ParserErrorView>(draft),
        todo_valid(draft),
{
}

/// The timezone identifiers that a to-do names: those of its properties,
/// then those of its alarms.
pub open spec fn todo_tzids(v: TodoView) -> Seq<Seq<char>> {
    alarm_tzids_onto(crate::parser::tzids_of(v.properties), v.alarms)
}

/// `acc` followed by the timezone identifiers of the alarms that `acc` does
/// not hold, alarm by alarm.
pub open spec fn alarm_tzids_onto(acc: Seq<Seq<char>>, alarms: Seq<AlarmView>) -> Seq<Seq<char>>
    decreases alarms.len(),
{
    if alarms.len() == 0 {
        acc
    } else {
        alarm_tzids_onto(unique_onto(acc, tzid_list(alarms[0].properties)), alarms.drop_first())
    }
}

/// See [`alarm_tzids_onto`].
pub fn collect_alarm_tzids<'a, const VERIFIED: bool>(
    alarms: &'a Vec<IcalAlarm<VERIFIED>>,
    out: &mut Vec<&'a str>,
)
    ensures
        final(out).deep_view() == alarm_tzids_onto(old(out).deep_view(), alarms.deep_view()),
{
    let ghost all = alarms.deep_view();
    let mut i: usize = 0;
    assert(all.skip(0) =~= all);
    while i < alarms.len()
        invariant
            i <= alarms.len(),
            all == alarms.deep_view(),
            alarm_tzids_onto(out.deep_view(), all.skip(i as int)) == alarm_tzids_onto(
                old(out).deep_view(),
                all,
            ),
        decreases alarms.len() - i,
    {
        let ghost rest = all.skip(i as int);
        assert(rest[0] == alarms[i as int]@);
        assert(rest.drop_first() =~= all.skip(i + 1));
        collect_tzids(&alarms[i].properties, out);
        i += 1;
    }
}

impl<const VERIFIED: bool> IcalTodo<VERIFIED> {
    /// The timezone identifiers that the to-do names, each once: see
    /// [`todo_tzids`].
    pub fn get_tzids(&self) -> (r: Vec<&str>)
        ensures
            r.deep_view() == todo_tzids(self@),
    {
        let mut out: Vec<&str> = Vec::new();
        assert(out.deep_view() =~= Seq::empty());
        collect_tzids(&self.properties, &mut out);
        collect_alarm_tzids(&self.alarms, &mut out);
        out
    }
}

impl IcalTodo<true> {
    /// The unique identifier: the value of the first `UID` property.
    pub fn get_uid(&self) -> (r: &str)
        requires
            todo_valid(self@),
        ensures
            r@ == property_value(self@.properties, "UID"@)->0,
    {
        match get_property_in(&self.properties, "UID") {
            Some(p) => property_str(p),
            None => "",
        }
    }

    /// The first `RECURRENCE-ID` property.
    pub fn get_recurrence_id(&self) -> (r: Option<&Property>)
        ensures
            match r {
                Some(p) => find_property(self@.properties, "RECURRENCE-ID"@) == Some(p@),
                None => find_property(self@.properties, "RECURRENCE-ID"@) is None,
            },
    {
        get_property_in(&self.properties, "RECURRENCE-ID")
    }

    /// The time stamp: the value of the first `DTSTAMP` property.
    pub fn get_dtstamp(&self) -> (r: &str)
        requires
            todo_valid(self@),
        ensures
            r@ == property_value(self@.properties, "DTSTAMP"@)->0,
    {
        match get_property_in(&self.properties, "DTSTAMP") {
            Some(p) => property_str(p),
            None => "",
        }
    }

    /// The first `DTSTART` property.
    pub fn get_dtstart(&self) -> (r: Option<&Property>)
        ensures
            match r {
                Some(p) => find_property(self@.properties, "DTSTART"@) == Some(p@),
                None => find_property(self@.properties, "DTSTART"@) is None,
            },
    {
        get_property_in(&self.properties, "DTSTART")
    }

    /// The first `DUE` property.
    pub fn get_due(&self) -> (r: Option<&Property>)
        ensures
            match r {
                Some(p) => find_property(self@.properties, "DUE"@) == Some(p@),
                None => find_property(self@.properties, "DUE"@) is None,
            },
    {
        get_property_in(&self.properties, "DUE")
    }

    /// The duration that the first `DURATION` property with a value holds;
    /// nothing where there is none or where it is malformed.
    pub fn get_duration(&self) -> (r: Option<Duration>)
        ensures
            match r {
                Some(d) => find_property(self@.properties, "DURATION"@) is Some
                    && duration_of_property(find_property(self@.properties, "DURATION"@)->0) == Ok::<
                    int,
                    ParserErrorView,
                >(d.value()),
                None => find_property(self@.properties, "DURATION"@) is None || find_property(
                    self@.properties,
                    "DURATION"@,
                )->0.value is None || duration_of_property(
                    find_property(self@.properties, "DURATION"@)->0,
                ) is Err,
            },
    {
        match get_property_in(&self.properties, "DURATION") {
            None => None,
            Some(p) => {
                if p.value.is_none() {
                    None
                } else {
                    match parse_duration_prop(p) {
                        Ok(d) => Some(d),
                        Err(_) => None,
                    }
                }
            },
        }
    }

    /// The first `RRULE` property.
    pub fn get_rrule(&self) -> (r: Option<&Property>)
        ensures
            match r {
                Some(p) => find_property(self@.properties, "RRULE"@) == Some(p@),
                None => find_property(self@.properties, "RRULE"@) is None,
            },
    {
        get_property_in(&self.properties, "RRULE")
    }
}

} // verus!
