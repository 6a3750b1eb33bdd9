//! Journal entries.
use crate::parser::{
    collect_tzids, find_property, get_property_in, next_step, parse_block, property_value,
    Component, ComponentMut, Item, Parsed, ParserError, ParserErrorView, Step,
};
use crate::property::{lemma_push_deep_view, Property, PropertyParser, PropertyView};
use crate::types::TimezoneTable;
use crate::parser::accessor::{
    check_recurid, property_str, recurid_checked, required_value_once, safe_get_value,
};
use vstd::prelude::*;

verus! {

/// A journal entry. `VERIFIED` tells a checked component from a draft.
#[derive(Debug, Default)]
pub struct IcalJournal<const VERIFIED: bool> {
    pub properties: Vec<Property>,
}

/// A journal entry as a plain value.
pub struct JournalView {
    pub properties: Seq<PropertyView>,
}

impl<const VERIFIED: bool> View for IcalJournal<VERIFIED> {
    type V = JournalView;

    open spec fn view(&self) -> JournalView {
        JournalView { properties: self.properties.deep_view() }
    }
}

impl<const VERIFIED: bool> DeepView for IcalJournal<VERIFIED> {
    type V = JournalView;

    open spec fn deep_view(&self) -> JournalView {
        self@
    }
}

impl<const VERIFIED: bool> crate::property::Duplicate for IcalJournal<VERIFIED> {
    fn duplicate(&self) -> (r: Self) {
        IcalJournal { properties: crate::property::duplicate_vec(&self.properties) }
    }
}

impl IcalJournal<false> {
    /// A draft without properties.
    pub fn new() -> (r: Self)
        ensures
            r@.properties == Seq::<PropertyView>::empty(),
    {
        let r = IcalJournal { properties: Vec::new() };
        assert(r.properties.deep_view() =~= Seq::empty());
        r
    }
}

impl<const VERIFIED: bool> Component for IcalJournal<VERIFIED> {
    type Unverified = IcalJournal<false>;

    open spec fn names() -> Seq<Seq<char>> {
        seq!["VJOURNAL"@]
    }

    open spec fn draft_of(v: JournalView) -> JournalView {
        v
    }

    open spec fn properties_of(v: JournalView) -> Seq<PropertyView> {
        v.properties
    }

    fn mutable(self) -> (r: IcalJournal<false>) {
        IcalJournal { properties: self.properties }
    }

    fn is_name(name: &str) -> (r: bool) {
        let r = name.eq("VJOURNAL");
        assert(seq!["VJOURNAL"@][0] == "VJOURNAL"@);
        r
    }

    fn get_properties(&self) -> (r: &Vec<Property>) {
        &self.properties
    }
}

impl IcalJournal<false> {
    /// Removes every property with the given name.
    pub fn remove_property(&mut self, name: &str)
        ensures
            final(self)@ == (JournalView {
                properties: crate::parser::other_properties(old(self)@.properties, name@),
                ..old(self)@
            }),
    {
        crate::parser::remove_property_in(&mut self.properties, name);
    }

    /// Puts a property in the place of every property of its name: those are
    /// removed and it is added at the end.
    pub fn set_property(&mut self, prop: Property)
        ensures
            final(self)@ == (JournalView {
                properties: crate::parser::other_properties(
                    old(self)@.properties,
                    prop@.name,
                ).push(prop@),
                ..old(self)@
            }),
    {
        crate::parser::remove_property_in(&mut self.properties, prop.name.as_str());
        let ghost before = self.properties;
        let ghost item = prop;
        self.properties.push(prop);
        proof {
            lemma_push_deep_view(before, self.properties, item);
        }
    }
}

impl<const VERIFIED: bool> IcalJournal<VERIFIED> {
    /// The timezone identifiers that the properties name, each once, in the
    /// order in which they first occur.
    pub fn get_tzids(&self) -> (r: Vec<&str>)
        ensures
            r.deep_view() == crate::parser::tzids_of(self@.properties),
    {
        let mut out: Vec<&str> = Vec::new();
        assert(out.deep_view() =~= Seq::empty());
        collect_tzids(&self.properties, &mut out);
        out
    }
}

impl ComponentMut for IcalJournal<false> {
    type Verified = IcalJournal<true>;

    open spec fn empty() -> JournalView {
        JournalView { properties: Seq::empty() }
    }

    open spec fn with_property(draft: JournalView, property: PropertyView) -> JournalView {
        JournalView { properties: draft.properties.push(property) }
    }

    open spec fn sub_component(draft: JournalView, name: Seq<char>, items: Seq<Item>) -> Parsed<
        JournalView,
    > {
        Parsed { result: Err(ParserErrorView::InvalidComponent(name)), rest: items }
    }

    open spec fn built(draft: JournalView, timezones: Map<Seq<char>, Option<Seq<char>>>) -> Result<
        JournalView,
        ParserErrorView,
    > {
        journal_checked(draft, timezones)
    }

    fn fresh() -> (r: Self) {
        let r = IcalJournal { properties: Vec::new() };
        assert(r.properties.deep_view() =~= Seq::empty());
        r
    }

    fn add_sub_component(&mut self, value: &str, line_parser: &mut PropertyParser) -> (r: Result<
        (),
        ParserError,
    >) {
        Err(ParserError::InvalidComponent(value.to_owned()))
    }

    fn add_property(&mut self, property: Property) {
        let ghost before = self.properties;
        let ghost item = property;
        self.properties.push(property);
        proof {
            lemma_push_deep_view(before, self.properties, item);
        }
    }

    fn build(self, timezones: &TimezoneTable) -> (r: Result<IcalJournal<true>, ParserError>) {
        match safe_get_value(&self.properties, "UID") {
            Err(e) => {
                return Err(e);
            },
            Ok(_) => {},
        }
        match safe_get_value(&self.properties, "DTSTAMP") {
            Err(e) => {
                return Err(e);
            },
            Ok(_) => {},
        }
        match check_recurid(&self.properties, timezones) {
            Err(e) => Err(e),
            Ok(()) => Ok(IcalJournal { properties: self.properties }),
        }
    }

    fn parse(&mut self, line_parser: &mut PropertyParser) -> (r: Result<(), ParserError>) {
        loop
            invariant
                line_parser.bytes() == old(line_parser).bytes(),
                line_parser.remaining().len() <= old(line_parser).remaining().len(),
                parse_block(
                    self@,
                    line_parser.remaining(),
                    |d: JournalView, p: PropertyView| Self::with_property(d, p),
                    |d: JournalView, name: Seq<char>, items: Seq<Item>|
                        Self::sub_component(d, name, items),
                ) == parse_block(
                    old(self)@,
                    old(line_parser).remaining(),
                    |d: JournalView, p: PropertyView| Self::with_property(d, p),
                    |d: JournalView, name: Seq<char>, items: Seq<Item>|
                        Self::sub_component(d, name, items),
                ),
            decreases line_parser.remaining().len(),
        {
            match next_step(line_parser) {
                Err(e) => {
                    return Err(e);
                },
                Ok(Step::End) => {
                    return Ok(());
                },
                Ok(Step::Begin(name)) => {
                    match self.add_sub_component(name.as_str(), line_parser) {
                        Err(e) => {
                            return Err(e);
                        },
                        Ok(()) => {},
                    }
                },
                Ok(Step::Property(p)) => {
                    self.add_property(p);
                },
            }
        }
    }
}

/// The check of a journal entry. A `UID` and a `DTSTAMP` must each occur
/// once, with a value: without a value for the `UID` the fault is a missing
/// `UID`, else without one for the `DTSTAMP` a missing `DTSTAMP`. A
/// `RECURRENCE-ID` must be of the same kind as the `DTSTART`. A journal entry
/// that passes is kept as it is.
pub open spec fn journal_checked(
    draft: JournalView,
    timezones: Map<Seq<char>, Option<Seq<char>>>,
) -> Result<JournalView, ParserErrorView> {
    match required_value_once(draft.properties, "UID"@) {
        Err(e) => Err(e),
        Ok(_) => match required_value_once(draft.properties, "DTSTAMP"@) {
            Err(e) => Err(e),
            Ok(_) => match recurid_checked(draft.properties, timezones) {
                Err(e) => Err(e),
                Ok(_) => Ok(draft),
            },
        },
    }
}

/// What the accessors of a checked journal entry rely on: a `UID` and a
/// `DTSTAMP` with a value are present.
pub open spec fn journal_valid(v: JournalView) -> bool {
    property_value(v.properties, "UID"@) is Some && property_value(v.properties, "DTSTAMP"@)
        is Some
}

/// A journal entry that passed its check is valid.
pub proof fn lemma_journal_checked_valid(
    draft: JournalView,
    timezones: Map<Seq<char>, Option<Seq<char>>>,
)
    requires
        journal_checked(draft, timezones) is Ok,
    ensures
        journal_checked(draft, timezones) == Ok::<JournalView, ParserErrorView>(draft),
        journal_valid(draft),
{
}

impl IcalJournal<true> {
    /// The unique identifier: the value of the first `UID` property.
    pub fn get_uid(&self) -> (r: &str)
        requires
            journal_valid(self@),
        ensures
            r@ == property_value(self@.properties, "UID"@)->0,
    {
        match get_property_in(&self.properties, "UID") {
            Some(p) => property_str(p),
            None => "",
        }
    }

    /// The time stamp: the value of the first `DTSTAMP` property.
    pub fn get_dtstamp(&self) -> (r: &str)
        requires
            journal_valid(self@),
        ensures
            r@ == property_value(self@.properties, "DTSTAMP"@)->0,
    {
        match get_property_in(&self.properties, "DTSTAMP") {
            Some(p) => property_str(p),
            None => "",
        }
    }

    /// The first `DTSTART` property.
    pub fn get_dtstart(&self) -> (r: Option<&Property>)
        ensures
            match r {
                Some(p) => find_property(self@.properties, "DTSTART"@) == Some(p@),
                None => find_property(self@.properties, "DTSTART"@) is None,
            },
    {
        get_property_in(&self.properties, "DTSTART")
    }
}

} // verus!
