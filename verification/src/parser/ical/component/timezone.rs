//! Timezone definitions and the transitions in them.
use crate::parser::{
    collect_tzids, get_value_in, next_step, parse_block, property_value, Component, ComponentMut,
    Item, Parsed, ParserError, ParserErrorView, Step,
};
use crate::property::{lemma_push_deep_view, Property, PropertyParser, PropertyView};
use crate::types::timezone::{optional_zone, resolve_zone, resolved_zone};
use crate::types::{TimezoneTable, TzId};
use vstd::prelude::*;

verus! {

/// The two kinds of transition.
#[derive(Debug, Clone, Copy, Default, PartialEq, Eq, Structural)]
pub enum IcalTimeZoneTransitionType {
    #[default]
    STANDARD,
    DAYLIGHT,
}

/// One rule of a timezone definition: the change to standard or to daylight time. `VERIFIED` tells a checked component from a draft.
#[derive(Debug, Default)]
pub struct IcalTimeZoneTransition<const VERIFIED: bool> {
    pub transition: IcalTimeZoneTransitionType,
    pub properties: Vec<Property>,
}

/// A transition as a plain value.
pub struct TransitionView {
    pub transition: IcalTimeZoneTransitionType,
    pub properties: Seq<PropertyView>,
}

impl<const VERIFIED: bool> View for IcalTimeZoneTransition<VERIFIED> {
    type V = TransitionView;

    open spec fn view(&self) -> TransitionView {
        TransitionView { transition: self.transition, properties: self.properties.deep_view() }
    }
}

impl<const VERIFIED: bool> DeepView for IcalTimeZoneTransition<VERIFIED> {
    type V = TransitionView;

    open spec fn deep_view(&self) -> TransitionView {
        self@
    }
}

impl<const VERIFIED: bool> crate::property::Duplicate for IcalTimeZoneTransition<VERIFIED> {
    fn duplicate(&self) -> (r: Self) {
        IcalTimeZoneTransition {
            transition: self.transition,
            properties: crate::property::duplicate_vec(&self.properties),
        }
    }
}

impl IcalTimeZoneTransition<false> {
    /// A draft of the given kind without properties.
    pub fn new(transition: IcalTimeZoneTransitionType) -> (r: Self)
        ensures
            r@ == (TransitionView { transition, properties: Seq::empty() }),
    {
        let r = IcalTimeZoneTransition { transition, properties: Vec::new() };
        assert(r.properties.deep_view() =~= Seq::empty());
        r
    }
}

impl<const VERIFIED: bool> Component for IcalTimeZoneTransition<VERIFIED> {
    type Unverified = IcalTimeZoneTransition<false>;

    open spec fn names() -> Seq<Seq<char>> {
        seq!["STANDARD"@, "DAYLIGHT"@]
    }

    open spec fn draft_of(v: TransitionView) -> TransitionView {
        v
    }

    open spec fn properties_of(v: TransitionView) -> Seq<PropertyView> {
        v.properties
    }

    fn mutable(self) -> (r: IcalTimeZoneTransition<false>) {
        IcalTimeZoneTransition { transition: self.transition, properties: self.properties }
    }

    fn is_name(name: &str) -> (r: bool) {
        let r = name.eq("STANDARD") || name.eq("DAYLIGHT");
        assert(seq!["STANDARD"@, "DAYLIGHT"@][0] == "STANDARD"@);
        assert(seq!["STANDARD"@, "DAYLIGHT"@][1] == "DAYLIGHT"@);
        r
    }

    fn get_properties(&self) -> (r: &Vec<Property>) {
        &self.properties
    }
}

impl IcalTimeZoneTransition<false> {
    /// Removes every property with the given name.
    pub fn remove_property(&mut self, name: &str)
        ensures
            final(self)@ == (TransitionView {
                properties: crate::parser::other_properties(old(self)@.properties, name@),
                ..old(self)@
            }),
    {
        crate::parser::remove_property_in(&mut self.properties, name);
    }

    /// Puts a property in the place of every property of its name: those are
    /// removed and it is added at the end.
    pub fn set_property(&mut self, prop: Property)
        ensures
            final(self)@ == (TransitionView {
                properties: crate::parser::other_properties(
                    old(self)@.properties,
                    prop@.name,
                ).push(prop@),
                ..old(self)@
            }),
    {
        crate::parser::remove_property_in(&mut self.properties, prop.name.as_str());
        let ghost before = self.properties;
        let ghost item = prop;
        self.properties.push(prop);
        proof {
            lemma_push_deep_view(before, self.properties, item);
        }
    }
}

impl<const VERIFIED: bool> IcalTimeZoneTransition<VERIFIED> {
    /// The timezone identifiers that the properties name, each once, in the
    /// order in which they first occur.
    pub fn get_tzids(&self) -> (r: Vec<&str>)
        ensures
            r.deep_view() == crate::parser::tzids_of(self@.properties),
    {
        let mut out: Vec<&str> = Vec::new();
        assert(out.deep_view() =~= Seq::empty());
        collect_tzids(&self.properties, &mut out);
        out
    }
}

impl ComponentMut for IcalTimeZoneTransition<false> {
    type Verified = IcalTimeZoneTransition<true>;

    open spec fn empty() -> TransitionView {
        TransitionView { transition: IcalTimeZoneTransitionType::STANDARD, properties: Seq::empty() }
    }

    open spec fn with_property(draft: TransitionView, property: PropertyView) -> TransitionView {
        TransitionView { transition: draft.transition, properties: draft.properties.push(property) }
    }

    open spec fn sub_component(draft: TransitionView, name: Seq<char>, items: Seq<Item>) -> Parsed<
        TransitionView,
    > {
        Parsed { result: Err(ParserErrorView::InvalidComponent(name)), rest: items }
    }

    open spec fn built(draft: TransitionView, timezones: Map<Seq<char>, Option<Seq<char>>>) -> Result<
        TransitionView,
        ParserErrorView,
    > {
        Ok(draft)
    }

    fn fresh() -> (r: Self) {
        let r = IcalTimeZoneTransition {
            transition: IcalTimeZoneTransitionType::STANDARD,
            properties: Vec::new(),
        };
        assert(r.properties.deep_view() =~= Seq::empty());
        r
    }

    fn add_sub_component(&mut self, value: &str, line_parser: &mut PropertyParser) -> (r: Result<
        (),
        ParserError,
    >) {
        Err(ParserError::InvalidComponent(value.to_owned()))
    }

    fn add_property(&mut self, property: Property) {
        let ghost before = self.properties;
        let ghost item = property;
        self.properties.push(property);
        proof {
            lemma_push_deep_view(before, self.properties, item);
        }
    }

    fn build(self, timezones: &TimezoneTable) -> (r: Result<IcalTimeZoneTransition<true>, ParserError>) {
        Ok(IcalTimeZoneTransition { transition: self.transition, properties: self.properties })
    }

    fn parse(&mut self, line_parser: &mut PropertyParser) -> (r: Result<(), ParserError>) {
        loop
            invariant
                line_parser.bytes() == old(line_parser).bytes(),
                line_parser.remaining().len() <= old(line_parser).remaining().len(),
                parse_block(
                    self@,
                    line_parser.remaining(),
                    |d: TransitionView, p: PropertyView| Self::with_property(d, p),
                    |d: TransitionView, name: Seq<char>, items: Seq<Item>|
                        Self::sub_component(d, name, items),
                ) == parse_block(
                    old(self)@,
                    old(line_parser).remaining(),
                    |d: TransitionView, p: PropertyView| Self::with_property(d, p),
                    |d: TransitionView, name: Seq<char>, items: Seq<Item>|
                        Self::sub_component(d, name, items),
                ),
            decreases line_parser.remaining().len(),
        {
            match next_step(line_parser) {
                Err(e) => {
                    return Err(e);
                },
                Ok(Step::End) => {
                    return Ok(());
                },
                Ok(Step::Begin(name)) => {
                    match self.add_sub_component(name.as_str(), line_parser) {
                        Err(e) => {
                            return Err(e);
                        },
                        Ok(()) => {},
                    }
                },
                Ok(Step::Property(p)) => {
                    self.add_property(p);
                },
            }
        }
    }
}

/// A timezone definition. `VERIFIED` tells a checked component from a draft.
#[derive(Debug, Default)]
pub struct IcalTimeZone<const VERIFIED: bool> {
    pub properties: Vec<Property>,
    /// The transitions of the timezone.
    pub transitions: Vec<IcalTimeZoneTransition<VERIFIED>>,
}

/// A timezone definition as a plain value.
pub struct TimeZoneView {
    pub properties: Seq<PropertyView>,
    pub transitions: Seq<TransitionView>,
}

impl<const VERIFIED: bool> View for IcalTimeZone<VERIFIED> {
    type V = TimeZoneView;

    open spec fn view(&self) -> TimeZoneView {
        TimeZoneView {
            properties: self.properties.deep_view(),
            transitions: self.transitions.deep_view(),
        }
    }
}

impl<const VERIFIED: bool> DeepView for IcalTimeZone<VERIFIED> {
    type V = TimeZoneView;

    open spec fn deep_view(&self) -> TimeZoneView {
        self@
    }
}

impl<const VERIFIED: bool> crate::property::Duplicate for IcalTimeZone<VERIFIED> {
    fn duplicate(&self) -> (r: Self) {
        IcalTimeZone {
            properties: crate::property::duplicate_vec(&self.properties),
            transitions: crate::property::duplicate_vec(&self.transitions),
        }
    }
}

impl IcalTimeZone<false> {
    /// A draft that holds nothing.
    pub fn new() -> (r: Self)
        ensures
            r@.properties == Seq::<PropertyView>::empty(),
            r@.transitions == Seq::<TransitionView>::empty(),
    {
        let r = IcalTimeZone { properties: Vec::new(), transitions: Vec::new() };
        assert(r.properties.deep_view() =~= Seq::empty());
        assert(r.transitions.deep_view() =~= Seq::empty());
        r
    }
}

impl<const VERIFIED: bool> Component for IcalTimeZone<VERIFIED> {
    type Unverified = IcalTimeZone<false>;

    open spec fn names() -> Seq<Seq<char>> {
        seq!["VTIMEZONE"@]
    }

    open spec fn draft_of(v: TimeZoneView) -> TimeZoneView {
        v
    }

    open spec fn properties_of(v: TimeZoneView) -> Seq<PropertyView> {
        v.properties
    }

    fn mutable(self) -> (r: IcalTimeZone<false>) {
        let ghost before = self.transitions.deep_view();
        assert(crate::parser::views(self.transitions@) =~= before);
        let transitions = crate::parser::mutable_all(self.transitions);
        assert(transitions.deep_view() =~= before) by {
            assert(crate::parser::views(transitions@) =~= transitions.deep_view());
        }
        IcalTimeZone { properties: self.properties, transitions }
    }

    fn is_name(name: &str) -> (r: bool) {
        let r = name.eq("VTIMEZONE");
        assert(seq!["VTIMEZONE"@][0] == "VTIMEZONE"@);
        r
    }

    fn get_properties(&self) -> (r: &Vec<Property>) {
        &self.properties
    }
}

impl IcalTimeZone<false> {
    /// Removes every property with the given name.
    pub fn remove_property(&mut self, name: &str)
        ensures
            final(self)@ == (TimeZoneView {
                properties: crate::parser::other_properties(old(self)@.properties, name@),
                ..old(self)@
            }),
    {
        crate::parser::remove_property_in(&mut self.properties, name);
    }

    /// Puts a property in the place of every property of its name: those are
    /// removed and it is added at the end.
    pub fn set_property(&mut self, prop: Property)
        ensures
            final(self)@ == (TimeZoneView {
                properties: crate::parser::other_properties(
                    old(self)@.properties,
                    prop@.name,
                ).push(prop@),
                ..old(self)@
            }),
    {
        crate::parser::remove_property_in(&mut self.properties, prop.name.as_str());
        let ghost before = self.properties;
        let ghost item = prop;
        self.properties.push(prop);
        proof {
            lemma_push_deep_view(before, self.properties, item);
        }
    }
}

impl ComponentMut for IcalTimeZone<false> {
    type Verified = IcalTimeZone<true>;

    open spec fn empty() -> TimeZoneView {
        TimeZoneView { properties: Seq::empty(), transitions: Seq::empty() }
    }

    open spec fn with_property(draft: TimeZoneView, property: PropertyView) -> TimeZoneView {
        TimeZoneView { properties: draft.properties.push(property), transitions: draft.transitions }
    }

    open spec fn sub_component(draft: TimeZoneView, name: Seq<char>, items: Seq<Item>) -> Parsed<
        TimeZoneView,
    > {
        if name == "STANDARD"@ {
            let sub = parse_block(
                TransitionView { transition: IcalTimeZoneTransitionType::STANDARD, properties: Seq::empty() },
                items,
                |d: TransitionView, p: PropertyView| IcalTimeZoneTransition::<false>::with_property(d, p),
                |d: TransitionView, n: Seq<char>, i: Seq<Item>|
                    IcalTimeZoneTransition::<false>::sub_component(d, n, i),
            );
            match sub.result {
                Ok(child) => Parsed {
                    result: Ok(
                        TimeZoneView {
                            properties: draft.properties,
                            transitions: draft.transitions.push(child),
                        },
                    ),
                    rest: sub.rest,
                },
                Err(e) => Parsed { result: Err(e), rest: sub.rest },
            }
        } else if name == "DAYLIGHT"@ {
            let sub = parse_block(
                TransitionView { transition: IcalTimeZoneTransitionType::DAYLIGHT, properties: Seq::empty() },
                items,
                |d: TransitionView, p: PropertyView| IcalTimeZoneTransition::<false>::with_property(d, p),
                |d: TransitionView, n: Seq<char>, i: Seq<Item>|
                    IcalTimeZoneTransition::<false>::sub_component(d, n, i),
            );
            match sub.result {
                Ok(child) => Parsed {
                    result: Ok(
                        TimeZoneView {
                            properties: draft.properties,
                            transitions: draft.transitions.push(child),
                        },
                    ),
                    rest: sub.rest,
                },
                Err(e) => Parsed { result: Err(e), rest: sub.rest },
            }
        } else {
            Parsed { result: Err(ParserErrorView::InvalidComponent(name)), rest: items }
        }
    }

    open spec fn built(draft: TimeZoneView, timezones: Map<Seq<char>, Option<Seq<char>>>) -> Result<
        TimeZoneView,
        ParserErrorView,
    > {
        if property_value(draft.properties, "TZID"@) is Some {
            Ok(draft)
        } else {
            Err(ParserErrorView::MissingProperty("TZID"@))
        }
    }

    fn fresh() -> (r: Self) {
        let r = IcalTimeZone { properties: Vec::new(), transitions: Vec::new() };
        assert(r.properties.deep_view() =~= Seq::empty());
        assert(r.transitions.deep_view() =~= Seq::empty());
        r
    }

    fn add_sub_component(&mut self, value: &str, line_parser: &mut PropertyParser) -> (r: Result<
        (),
        ParserError,
    >) {
        if value.eq("STANDARD") {
            let mut child = IcalTimeZoneTransition::<false>::new(IcalTimeZoneTransitionType::STANDARD);
            match child.parse(line_parser) {
                Err(e) => Err(e),
                Ok(()) => {
                    let ghost before = self.transitions;
                    let ghost item = child;
                    self.transitions.push(child);
                    proof {
                        lemma_push_deep_view(before, self.transitions, item);
                    }
                    Ok(())
                },
            }
        } else if value.eq("DAYLIGHT") {
            let mut child = IcalTimeZoneTransition::<false>::new(IcalTimeZoneTransitionType::DAYLIGHT);
            match child.parse(line_parser) {
                Err(e) => Err(e),
                Ok(()) => {
                    let ghost before = self.transitions;
                    let ghost item = child;
                    self.transitions.push(child);
                    proof {
                        lemma_push_deep_view(before, self.transitions, item);
                    }
                    Ok(())
                },
            }
        } else {
            Err(ParserError::InvalidComponent(value.to_owned()))
        }
    }

    fn add_property(&mut self, property: Property) {
        let ghost before = self.properties;
        let ghost item = property;
        self.properties.push(property);
        proof {
            lemma_push_deep_view(before, self.properties, item);
        }
    }

    fn build(self, timezones: &TimezoneTable) -> (r: Result<IcalTimeZone<true>, ParserError>) {
        if get_value_in(&self.properties, "TZID").is_none() {
            return Err(ParserError::MissingProperty("TZID"));
        }
        Ok(IcalTimeZone { properties: self.properties, transitions: verify_transitions(self.transitions) })
    }

    fn parse(&mut self, line_parser: &mut PropertyParser) -> (r: Result<(), ParserError>) {
        loop
            invariant
                line_parser.bytes() == old(line_parser).bytes(),
                line_parser.remaining().len() <= old(line_parser).remaining().len(),
                parse_block(
                    self@,
                    line_parser.remaining(),
                    |d: TimeZoneView, p: PropertyView| Self::with_property(d, p),
                    |d: TimeZoneView, name: Seq<char>, items: Seq<Item>|
                        Self::sub_component(d, name, items),
                ) == parse_block(
                    old(self)@,
                    old(line_parser).remaining(),
                    |d: TimeZoneView, p: PropertyView| Self::with_property(d, p),
                    |d: TimeZoneView, name: Seq<char>, items: Seq<Item>|
                        Self::sub_component(d, name, items),
                ),
            decreases line_parser.remaining().len(),
        {
            match next_step(line_parser) {
                Err(e) => {
                    return Err(e);
                },
                Ok(Step::End) => {
                    return Ok(());
                },
                Ok(Step::Begin(name)) => {
                    match self.add_sub_component(name.as_str(), line_parser) {
                        Err(e) => {
                            return Err(e);
                        },
                        Ok(()) => {},
                    }
                },
                Ok(Step::Property(p)) => {
                    self.add_property(p);
                },
            }
        }
    }
}

/// Passes a list of transition drafts as checked transitions: a transition
/// has no rule that it could break.
pub fn verify_transitions(transitions: Vec<IcalTimeZoneTransition<false>>) -> (r: Vec<
    IcalTimeZoneTransition<true>,
>)
    ensures
        r.deep_view() == transitions.deep_view(),
{
    let ghost all = transitions.deep_view();
    let mut rest = transitions;
    let mut back: Vec<IcalTimeZoneTransition<true>> = Vec::new();
    while rest.len() > 0
        invariant
            rest.len() <= all.len(),
            rest.deep_view() == all.take(rest.len() as int),
            back.len() + rest.len() == all.len(),
            forall|j: int| 0 <= j < back.len() ==> back.deep_view()[j] == all[all.len() - 1 - j],
        decreases rest.len(),
    {
        let ghost before = rest;
        let item = rest.pop().unwrap();
        assert(before.deep_view()[before.len() - 1] == item@);
        assert(rest.deep_view() =~= all.take(rest.len() as int));
        let ghost back_before = back;
        let checked: IcalTimeZoneTransition<true> = IcalTimeZoneTransition {
            transition: item.transition,
            properties: item.properties,
        };
        back.push(checked);
        assert forall|j: int| 0 <= j < back.len() implies back.deep_view()[j] == all[all.len() - 1
            - j] by {
            if j < back_before.len() {
                assert(back.deep_view()[j] == back_before.deep_view()[j]);
            }
        }
    }
    let mut r: Vec<IcalTimeZoneTransition<true>> = Vec::new();
    assert(r.deep_view() =~= all.take(0));
    while back.len() > 0
        invariant
            back.len() + r.len() == all.len(),
            forall|j: int| 0 <= j < back.len() ==> back.deep_view()[j] == all[all.len() - 1 - j],
            r.deep_view() == all.take(r.len() as int),
        decreases back.len(),
    {
        let ghost back_before = back;
        let ghost r_before = r;
        let item = back.pop().unwrap();
        assert(back_before.deep_view()[back_before.len() - 1] == item@);
        let ghost pushed = item;
        r.push(item);
        proof {
            lemma_push_deep_view(r_before, r, pushed);
            assert forall|j: int| 0 <= j < back.len() implies back.deep_view()[j] == all[all.len()
                - 1 - j] by {
                assert(back.deep_view()[j] == back_before.deep_view()[j]);
            }
            assert(r.deep_view() =~= all.take(r.len() as int));
        }
    }
    assert(all.take(all.len() as int) =~= all);
    r
}

/// What the accessors of a checked timezone definition rely on: a `TZID`
/// with a value is present.
pub open spec fn timezone_valid(v: TimeZoneView) -> bool {
    property_value(v.properties, "TZID"@) is Some
}

/// The timezone that a timezone definition stands for: see
/// [`resolved_zone`].
pub open spec fn zone_of_definition(v: TimeZoneView) -> Option<Seq<char>> {
    resolved_zone(
        property_value(v.properties, "X-LIC-LOCATION"@),
        property_value(v.properties, "TZID"@)->0,
    )
}

impl IcalTimeZone<true> {
    /// The identifier of the timezone: the value of its `TZID`.
    pub fn get_tzid(&self) -> (r: &str)
        requires
            timezone_valid(self@),
        ensures
            r@ == property_value(self@.properties, "TZID"@)->0,
    {
        match get_value_in(&self.properties, "TZID") {
            Some(v) => v,
            None => "",
        }
    }

    /// The location hint of the timezone: the value of `X-LIC-LOCATION`, a
    /// name of the timezone database.
    pub fn get_lic_location(&self) -> (r: Option<&str>)
        ensures
            match r {
                Some(v) => property_value(self@.properties, "X-LIC-LOCATION"@) == Some(v@),
                None => property_value(self@.properties, "X-LIC-LOCATION"@) is None,
            },
    {
        get_value_in(&self.properties, "X-LIC-LOCATION")
    }

    /// The timezone that this definition stands for, if one can be found:
    /// see [`zone_of_definition`].
    pub fn resolve(&self) -> (r: Option<TzId>)
        requires
            timezone_valid(self@),
        ensures
            optional_zone(r) == zone_of_definition(self@),
    {
        let location = self.get_lic_location();
        let id = self.get_tzid();
        resolve_zone(location, id)
    }
}

} // verus!
