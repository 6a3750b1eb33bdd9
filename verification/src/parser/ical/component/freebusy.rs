//! Free and busy time.
use crate::parser::{
    collect_tzids, next_step, parse_block, Component, ComponentMut, Item, Parsed, ParserError,
    ParserErrorView, Step,
};
use crate::property::{lemma_push_deep_view, Property, PropertyParser, PropertyView};
use crate::types::TimezoneTable;
use vstd::prelude::*;

verus! {

/// A statement of free and busy time. `VERIFIED` tells a checked component from a draft.
#[derive(Debug, Default)]
pub struct IcalFreeBusy<const VERIFIED: bool> {
    pub properties: Vec<Property>,
}

/// A statement of free and busy time as a plain value.
pub struct FreeBusyView {
    pub properties: Seq<PropertyView>,
}

impl<const VERIFIED: bool> View for IcalFreeBusy<VERIFIED> {
    type V = FreeBusyView;

    open spec fn view(&self) -> FreeBusyView {
        FreeBusyView { properties: self.properties.deep_view() }
    }
}

impl<const VERIFIED: bool> DeepView for IcalFreeBusy<VERIFIED> {
    type V = FreeBusyView;

    open spec fn deep_view(&self) -> FreeBusyView {
        self@
    }
}

impl<const VERIFIED: bool> crate::property::Duplicate for IcalFreeBusy<VERIFIED> {
    fn duplicate(&self) -> (r: Self) {
        IcalFreeBusy { properties: crate::property::duplicate_vec(&self.properties) }
    }
}

impl IcalFreeBusy<false> {
    /// A draft without properties.
    pub fn new() -> (r: Self)
        ensures
            r@.properties == Seq::<PropertyView>::empty(),
    {
        let r = IcalFreeBusy { properties: Vec::new() };
        assert(r.properties.deep_view() =~= Seq::empty());
        r
    }
}

impl<const VERIFIED: bool> Component for IcalFreeBusy<VERIFIED> {
    type Unverified = IcalFreeBusy<false>;

    open spec fn names() -> Seq<Seq<char>> {
        seq!["VFREEBUSY"@]
    }

    open spec fn draft_of(v: FreeBusyView) -> FreeBusyView {
        v
    }

    open spec fn properties_of(v: FreeBusyView) -> Seq<PropertyView> {
        v.properties
    }

    fn mutable(self) -> (r: IcalFreeBusy<false>) {
        IcalFreeBusy { properties: self.properties }
    }

    fn is_name(name: &str) -> (r: bool) {
        let r = name.eq("VFREEBUSY");
        assert(seq!["VFREEBUSY"@][0] == "VFREEBUSY"@);
        r
    }

    fn get_properties(&self) -> (r: &Vec<Property>) {
        &self.properties
    }
}

impl IcalFreeBusy<false> {
    /// Removes every property with the given name.
    pub fn remove_property(&mut self, name: &str)
        ensures
            final(self)@ == (FreeBusyView {
                properties: crate::parser::other_properties(old(self)@.properties, name@),
                ..old(self)@
            }),
    {
        crate::parser::remove_property_in(&mut self.properties, name);
    }

    /// Puts a property in the place of every property of its name: those are
    /// removed and it is added at the end.
    pub fn set_property(&mut self, prop: Property)
        ensures
            final(self)@ == (FreeBusyView {
                properties: crate::parser::other_properties(
                    old(self)@.properties,
                    prop@.name,
                ).push(prop@),
                ..old(self)@
            }),
    {
        crate::parser::remove_property_in(&mut self.properties, prop.name.as_str());
        let ghost before = self.properties;
        let ghost item = prop;
        self.properties.push(prop);
        proof {
            lemma_push_deep_view(before, self.properties, item);
        }
    }
}

impl<const VERIFIED: bool> IcalFreeBusy<VERIFIED> {
    /// The timezone identifiers that the properties name, each once, in the
    /// order in which they first occur.
    pub fn get_tzids(&self) -> (r: Vec<&str>)
        ensures
            r.deep_view() == crate::parser::tzids_of(self@.properties),
    {
        let mut out: Vec<&str> = Vec::new();
        assert(out.deep_view() =~= Seq::empty());
        collect_tzids(&self.properties, &mut out);
        out
    }
}

impl ComponentMut for IcalFreeBusy<false> {
    type Verified = IcalFreeBusy<true>;

    open spec fn empty() -> FreeBusyView {
        FreeBusyView { properties: Seq::empty() }
    }

    open spec fn with_property(draft: FreeBusyView, property: PropertyView) -> FreeBusyView {
        FreeBusyView { properties: draft.properties.push(property) }
    }

    open spec fn sub_component(draft: FreeBusyView, name: Seq<char>, items: Seq<Item>) -> Parsed<
        FreeBusyView,
    > {
        Parsed { result: Err(ParserErrorView::InvalidComponent(name)), rest: items }
    }

    open spec fn built(draft: FreeBusyView, timezones: Map<Seq<char>, Option<Seq<char>>>) -> Result<
        FreeBusyView,
        ParserErrorView,
    > {
        Ok(draft)
    }

    fn fresh() -> (r: Self) {
        let r = IcalFreeBusy { properties: Vec::new() };
        assert(r.properties.deep_view() =~= Seq::empty());
        r
    }

    fn add_sub_component(&mut self, value: &str, line_parser: &mut PropertyParser) -> (r: Result<
        (),
        ParserError,
    >) {
        Err(ParserError::InvalidComponent(value.to_owned()))
    }

    fn add_property(&mut self, property: Property) {
        let ghost before = self.properties;
        let ghost item = property;
        self.properties.push(property);
        proof {
            lemma_push_deep_view(before, self.properties, item);
        }
    }

    fn build(self, timezones: &TimezoneTable) -> (r: Result<IcalFreeBusy<true>, ParserError>) {
        Ok(IcalFreeBusy { properties: self.properties })
    }

    fn parse(&mut self, line_parser: &mut PropertyParser) -> (r: Result<(), ParserError>) {
        loop
            invariant
                line_parser.bytes() == old(line_parser).bytes(),
                line_parser.remaining().len() <= old(line_parser).remaining().len(),
                parse_block(
                    self@,
                    line_parser.remaining(),
                    |d: FreeBusyView, p: PropertyView| Self::with_property(d, p),
                    |d: FreeBusyView, name: Seq<char>, items: Seq<Item>|
                        Self::sub_component(d, name, items),
                ) == parse_block(
                    old(self)@,
                    old(line_parser).remaining(),
                    |d: FreeBusyView, p: PropertyView| Self::with_property(d, p),
                    |d: FreeBusyView, name: Seq<char>, items: Seq<Item>|
                        Self::sub_component(d, name, items),
                ),
            decreases line_parser.remaining().len(),
        {
            match next_step(line_parser) {
                Err(e) => {
                    return Err(e);
                },
                Ok(Step::End) => {
                    return Ok(());
                },
                Ok(Step::Begin(name)) => {
                    match self.add_sub_component(name.as_str(), line_parser) {
                        Err(e) => {
                            return Err(e);
                        },
                        Ok(()) => {},
                    }
                },
                Ok(Step::Property(p)) => {
                    self.add_property(p);
                },
            }
        }
    }
}

} // verus!
