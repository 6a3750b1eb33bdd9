//! Alarms: reminders nested in an event or a to-do.
use crate::parser::{
    collect_tzids, next_step, parse_block, Component, ComponentMut, Item, Parsed, ParserError,
    ParserErrorView, Step,
};
use crate::property::{lemma_push_deep_view, Property, PropertyParser, PropertyView};
use crate::types::TimezoneTable;
use vstd::prelude::*;

verus! {

/// An alarm. `VERIFIED` tells a checked component from a draft.
#[derive(Debug, Default)]
pub struct IcalAlarm<const VERIFIED: bool> {
    pub properties: Vec<Property>,
}

/// An alarm as a plain value.
pub struct AlarmView {
    pub properties: Seq<PropertyView>,
}

impl<const VERIFIED: bool> View for IcalAlarm<VERIFIED> {
    type V = AlarmView;

    open spec fn view(&self) -> AlarmView {
        AlarmView { properties: self.properties.deep_view() }
    }
}

impl<const VERIFIED: bool> DeepView for IcalAlarm<VERIFIED> {
    type V = AlarmView;

    open spec fn deep_view(&self) -> AlarmView {
        self@
    }
}

impl<const VERIFIED: bool> crate::property::Duplicate for IcalAlarm<VERIFIED> {
    fn duplicate(&self) -> (r: Self) {
        IcalAlarm { properties: crate::property::duplicate_vec(&self.properties) }
    }
}

impl IcalAlarm<false> {
    /// A draft without properties.
    pub fn new() -> (r: Self)
        ensures
            r@.properties == Seq::<PropertyView>::empty(),
    {
        let r = IcalAlarm { properties: Vec::new() };
        assert(r.properties.deep_view() =~= Seq::empty());
        r
    }
}

impl<const VERIFIED: bool> Component for IcalAlarm<VERIFIED> {
    type Unverified = IcalAlarm<false>;

    open spec fn names() -> Seq<Seq<char>> {
        seq!["VALARM"@]
    }

    open spec fn draft_of(v: AlarmView) -> AlarmView {
        v
    }

    open spec fn properties_of(v: AlarmView) -> Seq<PropertyView> {
        v.properties
    }

    fn mutable(self) -> (r: IcalAlarm<false>) {
        IcalAlarm { properties: self.properties }
    }

    fn is_name(name: &str) -> (r: bool) {
        let r = name.eq("VALARM");
        assert(seq!["VALARM"@][0] == "VALARM"@);
        r
    }

    fn get_properties(&self) -> (r: &Vec<Property>) {
        &self.properties
    }
}

impl IcalAlarm<false> {
    /// Removes every property with the given name.
    pub fn remove_property(&mut self, name: &str)
        ensures
            final(self)@ == (AlarmView {
                properties: crate::parser::other_properties(old(self)@.properties, name@),
                ..old(self)@
            }),
    {
        crate::parser::remove_property_in(&mut self.properties, name);
    }

    /// Puts a property in the place of every property of its name: those are
    /// removed and it is added at the end.
    pub fn set_property(&mut self, prop: Property)
        ensures
            final(self)@ == (AlarmView {
                properties: crate::parser::other_properties(
                    old(self)@.properties,
                    prop@.name,
                ).push(prop@),
                ..old(self)@
            }),
    {
        crate::parser::remove_property_in(&mut self.properties, prop.name.as_str());
        let ghost before = self.properties;
        let ghost item = prop;
        self.properties.push(prop);
        proof {
            lemma_push_deep_view(before, self.properties, item);
        }
    }
}

impl<const VERIFIED: bool> IcalAlarm<VERIFIED> {
    /// The timezone identifiers that the properties name, each once, in the
    /// order in which they first occur.
    pub fn get_tzids(&self) -> (r: Vec<&str>)
        ensures
            r.deep_view() == crate::parser::tzids_of(self@.properties),
    {
        let mut out: Vec<&str> = Vec::new();
        assert(out.deep_view() =~= Seq::empty());
        collect_tzids(&self.properties, &mut out);
        out
    }
}

impl ComponentMut for IcalAlarm<false> {
    type Verified = IcalAlarm<true>;

    open spec fn empty() -> AlarmView {
        AlarmView { properties: Seq::empty() }
    }

    open spec fn with_property(draft: AlarmView, property: PropertyView) -> AlarmView {
        AlarmView { properties: draft.properties.push(property) }
    }

    open spec fn sub_component(draft: AlarmView, name: Seq<char>, items: Seq<Item>) -> Parsed<
        AlarmView,
    > {
        Parsed { result: Err(ParserErrorView::InvalidComponent(name)), rest: items }
    }

    open spec fn built(draft: AlarmView, timezones: Map<Seq<char>, Option<Seq<char>>>) -> Result<
        AlarmView,
        ParserErrorView,
    > {
        Ok(draft)
    }

    fn fresh() -> (r: Self) {
        let r = IcalAlarm { properties: Vec::new() };
        assert(r.properties.deep_view() =~= Seq::empty());
        r
    }

    fn add_sub_component(&mut self, value: &str, line_parser: &mut PropertyParser) -> (r: Result<
        (),
        ParserError,
    >) {
        Err(ParserError::InvalidComponent(value.to_owned()))
    }

    fn add_property(&mut self, property: Property) {
        let ghost before = self.properties;
        let ghost item = property;
        self.properties.push(property);
        proof {
            lemma_push_deep_view(before, self.properties, item);
        }
    }

    fn build(self, timezones: &TimezoneTable) -> (r: Result<IcalAlarm<true>, ParserError>) {
        Ok(IcalAlarm { properties: self.properties })
    }

    fn parse(&mut self, line_parser: &mut PropertyParser) -> (r: Result<(), ParserError>) {
        loop
            invariant
                line_parser.bytes() == old(line_parser).bytes(),
                line_parser.remaining().len() <= old(line_parser).remaining().len(),
                parse_block(
                    self@,
                    line_parser.remaining(),
                    |d: AlarmView, p: PropertyView| Self::with_property(d, p),
                    |d: AlarmView, name: Seq<char>, items: Seq<Item>|
                        Self::sub_component(d, name, items),
                ) == parse_block(
                    old(self)@,
                    old(line_parser).remaining(),
                    |d: AlarmView, p: PropertyView| Self::with_property(d, p),
                    |d: AlarmView, name: Seq<char>, items: Seq<Item>|
                        Self::sub_component(d, name, items),
                ),
            decreases line_parser.remaining().len(),
        {
            match next_step(line_parser) {
                Err(e) => {
                    return Err(e);
                },
                Ok(Step::End) => {
                    return Ok(());
                },
                Ok(Step::Begin(name)) => {
                    match self.add_sub_component(name.as_str(), line_parser) {
                        Err(e) => {
                            return Err(e);
                        },
                        Ok(()) => {},
                    }
                },
                Ok(Step::Property(p)) => {
                    self.add_property(p);
                },
            }
        }
    }
}

/// Passes a list of alarm drafts as checked alarms: an alarm has no rule that
/// it could break.
pub fn verify_alarms(alarms: Vec<IcalAlarm<false>>) -> (r: Vec<IcalAlarm<true>>)
    ensures
        r.deep_view() == alarms.deep_view(),
{
    let ghost all = alarms.deep_view();
    let mut rest = alarms;
    let mut back: Vec<IcalAlarm<true>> = Vec::new();
    while rest.len() > 0
        invariant
            rest.len() <= all.len(),
            rest.deep_view() == all.take(rest.len() as int),
            back.len() + rest.len() == all.len(),
            forall|j: int| 0 <= j < back.len() ==> back.deep_view()[j] == all[all.len() - 1 - j],
        decreases rest.len(),
    {
        let ghost before = rest;
        let alarm = rest.pop().unwrap();
        assert(before.deep_view()[before.len() - 1] == alarm@);
        assert(rest.deep_view() =~= all.take(rest.len() as int));
        let ghost back_before = back;
        let checked: IcalAlarm<true> = IcalAlarm { properties: alarm.properties };
        back.push(checked);
        assert forall|j: int| 0 <= j < back.len() implies back.deep_view()[j] == all[all.len() - 1
            - j] by {
            if j < back_before.len() {
                assert(back.deep_view()[j] == back_before.deep_view()[j]);
            }
        }
    }
    let mut r: Vec<IcalAlarm<true>> = Vec::new();
    assert(r.deep_view() =~= all.take(0));
    while back.len() > 0
        invariant
            back.len() + r.len() == all.len(),
            forall|j: int| 0 <= j < back.len() ==> back.deep_view()[j] == all[all.len() - 1 - j],
            r.deep_view() == all.take(r.len() as int),
        decreases back.len(),
    {
        let ghost back_before = back;
        let ghost r_before = r;
        let alarm = back.pop().unwrap();
        assert(back_before.deep_view()[back_before.len() - 1] == alarm@);
        let ghost item = alarm;
        r.push(alarm);
        proof {
            lemma_push_deep_view(r_before, r, item);
            assert forall|j: int| 0 <= j < back.len() implies back.deep_view()[j] == all[all.len()
                - 1 - j] by {
                assert(back.deep_view()[j] == back_before.deep_view()[j]);
            }
            assert(r.deep_view() =~= all.take(r.len() as int));
        }
    }
    assert(all.take(all.len() as int) =~= all);
    r
}

} // verus!
