//! Contacts.
use crate::parser::{
    collect_tzids, get_value_in, next_step, parse_block, property_value, Component, ComponentMut,
    Item, Parsed, ParserError, ParserErrorView, Step,
};
use crate::property::{lemma_push_deep_view, Property, PropertyParser, PropertyView};
use crate::types::TimezoneTable;
use vstd::prelude::*;

verus! {

/// A contact card. `VERIFIED` tells a checked component from a draft.
#[derive(Debug, Default, Eq, PartialEq, Hash)]
pub struct VcardContact<const VERIFIED: bool> {
    pub properties: Vec<Property>,
}

/// A contact card as a plain value.
pub struct ContactView {
    pub properties: Seq<PropertyView>,
}

impl<const VERIFIED: bool> View for VcardContact<VERIFIED> {
    type V = ContactView;

    open spec fn view(&self) -> ContactView {
        ContactView { properties: self.properties.deep_view() }
    }
}

impl<const VERIFIED: bool> DeepView for VcardContact<VERIFIED> {
    type V = ContactView;

    open spec fn deep_view(&self) -> ContactView {
        self@
    }
}

impl<const VERIFIED: bool> crate::property::Duplicate for VcardContact<VERIFIED> {
    fn duplicate(&self) -> (r: Self) {
        VcardContact { properties: crate::property::duplicate_vec(&self.properties) }
    }
}

impl VcardContact<false> {
    /// A draft without properties.
    pub fn new() -> (r: Self)
        ensures
            r@.properties == Seq::<PropertyView>::empty(),
    {
        let r = VcardContact { properties: Vec::new() };
        assert(r.properties.deep_view() =~= Seq::empty());
        r
    }
}

impl<const VERIFIED: bool> Component for VcardContact<VERIFIED> {
    type Unverified = VcardContact<false>;

    open spec fn names() -> Seq<Seq<char>> {
        seq!["VCARD"@]
    }

    open spec fn draft_of(v: ContactView) -> ContactView {
        v
    }

    open spec fn properties_of(v: ContactView) -> Seq<PropertyView> {
        v.properties
    }

    fn mutable(self) -> (r: VcardContact<false>) {
        VcardContact { properties: self.properties }
    }

    fn is_name(name: &str) -> (r: bool) {
        let r = name.eq("VCARD");
        assert(seq!["VCARD"@][0] == "VCARD"@);
        r
    }

    fn get_properties(&self) -> (r: &Vec<Property>) {
        &self.properties
    }
}

impl VcardContact<false> {
    /// Removes every property with the given name.
    pub fn remove_property(&mut self, name: &str)
        ensures
            final(self)@ == (ContactView {
                properties: crate::parser::other_properties(old(self)@.properties, name@),
                ..old(self)@
            }),
    {
        crate::parser::remove_property_in(&mut self.properties, name);
    }

    /// Puts a property in the place of every property of its name: those are
    /// removed and it is added at the end.
    pub fn set_property(&mut self, prop: Property)
        ensures
            final(self)@ == (ContactView {
                properties: crate::parser::other_properties(
                    old(self)@.properties,
                    prop@.name,
                ).push(prop@),
                ..old(self)@
            }),
    {
        crate::parser::remove_property_in(&mut self.properties, prop.name.as_str());
        let ghost before = self.properties;
        let ghost item = prop;
        self.properties.push(prop);
        proof {
            lemma_push_deep_view(before, self.properties, item);
        }
    }
}

impl<const VERIFIED: bool> VcardContact<VERIFIED> {
    /// The timezone identifiers that the properties name, each once, in the
    /// order in which they first occur.
    pub fn get_tzids(&self) -> (r: Vec<&str>)
        ensures
            r.deep_view() == crate::parser::tzids_of(self@.properties),
    {
        let mut out: Vec<&str> = Vec::new();
        assert(out.deep_view() =~= Seq::empty());
        collect_tzids(&self.properties, &mut out);
        out
    }
}

impl ComponentMut for VcardContact<false> {
    type Verified = VcardContact<true>;

    open spec fn empty() -> ContactView {
        ContactView { properties: Seq::empty() }
    }

    open spec fn with_property(draft: ContactView, property: PropertyView) -> ContactView {
        ContactView { properties: draft.properties.push(property) }
    }

    open spec fn sub_component(draft: ContactView, name: Seq<char>, items: Seq<Item>) -> Parsed<
        ContactView,
    > {
        Parsed { result: Err(ParserErrorView::InvalidComponent(name)), rest: items }
    }

    open spec fn built(draft: ContactView, timezones: Map<Seq<char>, Option<Seq<char>>>) -> Result<
        ContactView,
        ParserErrorView,
    > {
        Ok(draft)
    }

    fn fresh() -> (r: Self) {
        let r = VcardContact { properties: Vec::new() };
        assert(r.properties.deep_view() =~= Seq::empty());
        r
    }

    fn add_sub_component(&mut self, value: &str, line_parser: &mut PropertyParser) -> (r: Result<
        (),
        ParserError,
    >) {
        Err(ParserError::InvalidComponent(value.to_owned()))
    }

    fn add_property(&mut self, property: Property) {
        let ghost before = self.properties;
        let ghost item = property;
        self.properties.push(property);
        proof {
            lemma_push_deep_view(before, self.properties, item);
        }
    }

    fn build(self, timezones: &TimezoneTable) -> (r: Result<VcardContact<true>, ParserError>) {
        Ok(VcardContact { properties: self.properties })
    }

    fn parse(&mut self, line_parser: &mut PropertyParser) -> (r: Result<(), ParserError>) {
        loop
            invariant
                line_parser.bytes() == old(line_parser).bytes(),
                line_parser.remaining().len() <= old(line_parser).remaining().len(),
                parse_block(
                    self@,
                    line_parser.remaining(),
                    |d: ContactView, p: PropertyView| Self::with_property(d, p),
                    |d: ContactView, name: Seq<char>, items: Seq<Item>|
                        Self::sub_component(d, name, items),
                ) == parse_block(
                    old(self)@,
                    old(line_parser).remaining(),
                    |d: ContactView, p: PropertyView| Self::with_property(d, p),
                    |d: ContactView, name: Seq<char>, items: Seq<Item>|
                        Self::sub_component(d, name, items),
                ),
            decreases line_parser.remaining().len(),
        {
            match next_step(line_parser) {
                Err(e) => {
                    return Err(e);
                },
                Ok(Step::End) => {
                    return Ok(());
                },
                Ok(Step::Begin(name)) => {
                    match self.add_sub_component(name.as_str(), line_parser) {
                        Err(e) => {
                            return Err(e);
                        },
                        Ok(()) => {},
                    }
                },
                Ok(Step::Property(p)) => {
                    self.add_property(p);
                },
            }
        }
    }
}

impl VcardContact<true> {
    /// The value of the first `UID` property.
    pub fn get_uid(&self) -> (r: Option<&str>)
        ensures
            match r {
                Some(v) => property_value(self@.properties, "UID"@) == Some(v@),
                None => property_value(self@.properties, "UID"@) is None,
            },
    {
        get_value_in(&self.properties, "UID")
    }
}

} // verus!
