//! Components: nested blocks of properties between a `BEGIN` and an `END` line.
//!
//! A component is read as a draft, which gathers properties and nested drafts
//! as they come, and is checked when its `END` line is read. The check gives
//! the verified component or the first fault.
pub mod accessor;
pub mod ical;
pub mod rdate;
pub mod typed;
pub mod vcard;

use crate::property::{
    lemma_push_deep_view, Property, PropertyError, PropertyParser, PropertyView,
};
use crate::types::{CalDateTimeError, CalDateTimeErrorView, InvalidDuration, TimezoneTable};
use vstd::prelude::*;

verus! {

/// Why a component could not be read or did not pass its check.
#[derive(Debug, PartialEq, Eq)]
pub enum ParserError {
    /// The input holds no component.
    EmptyInput,
    /// The input holds more than the one component that was asked for.
    TooManyComponents,
    /// A nested block has a name that its parent does not accept.
    InvalidComponent(String),
    /// The input ends before the component does.
    NotComplete,
    /// The input does not start with the `BEGIN` line of the component.
    MissingHeader,
    /// A line could not be split.
    PropertyError(PropertyError),
    /// A property that must occur is missing.
    MissingProperty(&'static str),
    /// The component has no unique identifier.
    MissingUID,
    /// Two properties that exclude each other are present, or a property
    /// that may occur once occurs again.
    PropertyConflict(&'static str),
    /// A duration is malformed.
    InvalidDuration(InvalidDuration),
    /// A date or time is malformed.
    DateTime(CalDateTimeError),
    /// A recurrence rule is malformed or does not fit its start.
    InvalidRecurrenceRule(String),
    /// A property holds a value that it cannot have.
    InvalidPropertyValue(String),
    /// The calendar scale is not the Gregorian one.
    InvalidCalscale,
    /// The version is none of the known ones.
    InvalidVersion,
    /// An object holds a second main instance.
    MultipleMainObjects,
    /// The instances of an object have different unique identifiers.
    DifferingUIDs,
    /// An instance that is no main instance has no `RECURRENCE-ID`.
    MissingRecurId,
    /// A `RECURRENCE-ID` is of another kind than the start of its entry: a
    /// date against a date-time, or floating against zoned.
    DtstartNotMatchingRecurId,
}

/// A parser error as a plain value.
pub enum ParserErrorView {
    EmptyInput,
    TooManyComponents,
    InvalidComponent(Seq<char>),
    NotComplete,
    MissingHeader,
    PropertyError(PropertyError),
    MissingProperty(Seq<char>),
    MissingUID,
    PropertyConflict(Seq<char>),
    InvalidDuration(Seq<char>),
    DateTime(CalDateTimeErrorView),
    InvalidRecurrenceRule(Seq<char>),
    InvalidPropertyValue(Seq<char>),
    InvalidCalscale,
    InvalidVersion,
    MultipleMainObjects,
    DifferingUIDs,
    MissingRecurId,
    DtstartNotMatchingRecurId,
}

impl View for ParserError {
    type V = ParserErrorView;

    open spec fn view(&self) -> ParserErrorView {
        match self {
            ParserError::EmptyInput => ParserErrorView::EmptyInput,
            ParserError::TooManyComponents => ParserErrorView::TooManyComponents,
            ParserError::InvalidComponent(s) => ParserErrorView::InvalidComponent(s@),
            ParserError::NotComplete => ParserErrorView::NotComplete,
            ParserError::MissingHeader => ParserErrorView::MissingHeader,
            ParserError::PropertyError(e) => ParserErrorView::PropertyError(*e),
            ParserError::MissingProperty(s) => ParserErrorView::MissingProperty(s@),
            ParserError::MissingUID => ParserErrorView::MissingUID,
            ParserError::PropertyConflict(s) => ParserErrorView::PropertyConflict(s@),
            ParserError::InvalidDuration(e) => ParserErrorView::InvalidDuration(e@),
            ParserError::DateTime(e) => ParserErrorView::DateTime(e@),
            ParserError::InvalidRecurrenceRule(s) => ParserErrorView::InvalidRecurrenceRule(s@),
            ParserError::InvalidPropertyValue(s) => ParserErrorView::InvalidPropertyValue(s@),
            ParserError::InvalidCalscale => ParserErrorView::InvalidCalscale,
            ParserError::InvalidVersion => ParserErrorView::InvalidVersion,
            ParserError::MultipleMainObjects => ParserErrorView::MultipleMainObjects,
            ParserError::DifferingUIDs => ParserErrorView::DifferingUIDs,
            ParserError::MissingRecurId => ParserErrorView::MissingRecurId,
            ParserError::DtstartNotMatchingRecurId => ParserErrorView::DtstartNotMatchingRecurId,
        }
    }
}

/// One outcome of the property parser: a property or the fault in a line.
pub type Item = Result<PropertyView, PropertyError>;

/// What reading from a stream of outcomes gives: the draft or the fault, and
/// the outcomes that were not read.
pub struct Parsed<D> {
    pub result: Result<D, ParserErrorView>,
    pub rest: Seq<Item>,
}

/// Reads the body of a component into `draft`, up to and with its `END` line.
///
/// Each outcome is taken in turn. A fault in a line ends the reading with
/// that fault. An `END` line ends it with the draft. A `BEGIN` line hands its
/// value and the outcomes behind it to `add_sub`, which reads the nested
/// component and gives the draft that holds it; a `BEGIN` line without a value
/// is a fault. Any other property is added to the draft by `add_property`. A
/// stream that ends before the `END` line gives the fault `NotComplete`.
pub open spec fn parse_block<D>(
    draft: D,
    items: Seq<Item>,
    add_property: spec_fn(D, PropertyView) -> D,
    add_sub: spec_fn(D, Seq<char>, Seq<Item>) -> Parsed<D>,
) -> Parsed<D>
    decreases items.len(),
{
    if items.len() == 0 {
        Parsed { result: Err(ParserErrorView::NotComplete), rest: items }
    } else {
        let rest = items.drop_first();
        match items[0] {
            Err(e) => Parsed { result: Err(ParserErrorView::PropertyError(e)), rest },
            Ok(line) => {
                if line.name == "END"@ {
                    Parsed { result: Ok(draft), rest }
                } else if line.name == "BEGIN"@ {
                    match line.value {
                        None => Parsed { result: Err(ParserErrorView::NotComplete), rest },
                        Some(value) => {
                            let sub = add_sub(draft, value, rest);
                            match sub.result {
                                Err(e) => sub,
                                Ok(next) => if sub.rest.len() < items.len() {
                                    parse_block(next, sub.rest, add_property, add_sub)
                                } else {
                                    // a nested component never gives back more than it was given
                                    Parsed {
                                        result: Err(ParserErrorView::NotComplete),
                                        rest: sub.rest,
                                    }
                                },
                            }
                        },
                    }
                } else {
                    parse_block(add_property(draft, line), rest, add_property, add_sub)
                }
            },
        }
    }
}

/// What one line means to the component that is being read.
pub enum Step {
    /// The `END` line of the component.
    End,
    /// The `BEGIN` line of a nested component with the given name.
    Begin(String),
    /// A property of the component.
    Property(Property),
}

/// Whether `r` is what the outcome `item` means to the component that is
/// being read: see [`parse_block`].
pub open spec fn step_fits(r: Result<Step, ParserError>, item: Item) -> bool {
    match item {
        Err(e) => match r {
            Err(ParserError::PropertyError(f)) => f == e,
            _ => false,
        },
        Ok(line) => if line.name == "END"@ {
            match r {
                Ok(Step::End) => true,
                _ => false,
            }
        } else if line.name == "BEGIN"@ {
            match line.value {
                None => match r {
                    Err(ParserError::NotComplete) => true,
                    _ => false,
                },
                Some(value) => match r {
                    Ok(Step::Begin(name)) => name@ == value,
                    _ => false,
                },
            }
        } else {
            match r {
                Ok(Step::Property(p)) => p@ == line,
                _ => false,
            }
        },
    }
}

/// Takes the next outcome from the parser and says what it means to the
/// component that is being read. Where no outcome is left, the component is
/// not complete.
pub fn next_step(parser: &mut PropertyParser) -> (r: Result<Step, ParserError>)
    ensures
        final(parser).bytes() == old(parser).bytes(),
        old(parser).remaining().len() == 0 ==> final(parser).remaining() == old(parser).remaining(),
        old(parser).remaining().len() == 0 ==> r == Err::<Step, ParserError>(
            ParserError::NotComplete,
        ),
        old(parser).remaining().len() > 0 ==> final(parser).remaining() == old(
            parser,
        ).remaining().drop_first(),
        old(parser).remaining().len() > 0 ==> step_fits(r, old(parser).remaining()[0]),
{
    match parser.next() {
        None => Err(ParserError::NotComplete),
        Some(Err(e)) => Err(ParserError::PropertyError(e)),
        Some(Ok(line)) => {
            if line.name.as_str().eq("END") {
                Ok(Step::End)
            } else if line.name.as_str().eq("BEGIN") {
                match line.value {
                    None => Err(ParserError::NotComplete),
                    Some(value) => Ok(Step::Begin(value)),
                }
            } else {
                Ok(Step::Property(line))
            }
        },
    }
}

/// The outcome of reading into a draft, as a plain value.
pub open spec fn parse_outcome<D>(r: Result<(), ParserError>, draft: D, rest: Seq<Item>) -> Parsed<
    D,
> {
    Parsed {
        result: match r {
            Ok(_) => Ok(draft),
            Err(e) => Err(e@),
        },
        rest,
    }
}

/// The outcome of a check, as a plain value.
pub open spec fn build_outcome<T: View>(r: Result<T, ParserError>) -> Result<T::V, ParserErrorView> {
    match r {
        Ok(c) => Ok(c@),
        Err(e) => Err(e@),
    }
}

/// The first property with the given name.
pub open spec fn find_property(props: Seq<PropertyView>, name: Seq<char>) -> Option<PropertyView>
    decreases props.len(),
{
    if props.len() == 0 {
        None
    } else if props[0].name == name {
        Some(props[0])
    } else {
        find_property(props.drop_first(), name)
    }
}

/// The properties with the given name, in order.
pub open spec fn named_properties(props: Seq<PropertyView>, name: Seq<char>) -> Seq<PropertyView> {
    props.filter(|p: PropertyView| p.name == name)
}

/// The properties with another name than the given one, in order.
pub open spec fn other_properties(props: Seq<PropertyView>, name: Seq<char>) -> Seq<PropertyView> {
    props.filter(|p: PropertyView| p.name != name)
}

/// The value of the first property with the given name.
pub open spec fn property_value(props: Seq<PropertyView>, name: Seq<char>) -> Option<Seq<char>> {
    match find_property(props, name) {
        Some(p) => p.value,
        None => None,
    }
}

/// See [`find_property`].
pub fn get_property_in<'a>(props: &'a Vec<Property>, name: &str) -> (r: Option<&'a Property>)
    ensures
        match r {
            Some(p) => find_property(props.deep_view(), name@) == Some(p@),
            None => find_property(props.deep_view(), name@) is None,
        },
{
    let ghost all = props.deep_view();
    let mut i: usize = 0;
    assert(all.skip(0) =~= all);
    while i < props.len()
        invariant
            i <= props.len(),
            all == props.deep_view(),
            find_property(all.skip(i as int), name@) == find_property(all, name@),
        decreases props.len() - i,
    {
        let ghost rest = all.skip(i as int);
        assert(rest[0] == props[i as int]@);
        if props[i].name.as_str().eq(name) {
            return Some(&props[i]);
        }
        assert(rest.drop_first() =~= all.skip(i + 1));
        i += 1;
    }
    None
}

/// See [`property_value`].
pub fn get_value_in<'a>(props: &'a Vec<Property>, name: &str) -> (r: Option<&'a str>)
    ensures
        match r {
            Some(v) => property_value(props.deep_view(), name@) == Some(v@),
            None => property_value(props.deep_view(), name@) is None,
        },
{
    match get_property_in(props, name) {
        Some(p) => match &p.value {
            Some(v) => Some(v.as_str()),
            None => None,
        },
        None => None,
    }
}

/// See [`named_properties`].
pub fn get_named_properties_in<'a>(props: &'a Vec<Property>, name: &str) -> (r: Vec<&'a Property>)
    ensures
        r.deep_view() == named_properties(props.deep_view(), name@),
{
    let ghost all = props.deep_view();
    let ghost keep = |p: PropertyView| p.name == name@;
    let mut r: Vec<&'a Property> = Vec::new();
    let mut i: usize = 0;
    assert(all.take(0) =~= Seq::empty());
    assert(r.deep_view() =~= all.take(0).filter(keep));
    while i < props.len()
        invariant
            i <= props.len(),
            all == props.deep_view(),
            keep == (|p: PropertyView| p.name == name@),
            r.deep_view() == all.take(i as int).filter(keep),
        decreases props.len() - i,
    {
        let ghost before = r;
        proof {
            assert(all.take(i + 1) =~= all.take(i as int).push(all[i as int]));
            crate::parser::lemma_filter_push(all.take(i as int), all[i as int], keep);
            assert(all[i as int] == props[i as int]@);
        }
        if props[i].name.as_str().eq(name) {
            let ghost item = &props[i as int];
            r.push(&props[i]);
            proof {
                lemma_push_deep_view(before, r, item);
            }
        }
        i += 1;
    }
    assert(all.take(props.len() as int) =~= all);
    r
}

/// Filtering a sequence with one more item at its end.
pub proof fn lemma_filter_push<A>(s: Seq<A>, item: A, keep: spec_fn(A) -> bool)
    ensures
        s.push(item).filter(keep) == if keep(item) {
            s.filter(keep).push(item)
        } else {
            s.filter(keep)
        },
{
    reveal(Seq::filter);
    assert(s.push(item).drop_last() =~= s);
}

/// Removes every property with the given name.
pub fn remove_property_in(props: &mut Vec<Property>, name: &str)
    ensures
        final(props).deep_view() == other_properties(old(props).deep_view(), name@),
{
    let ghost all = props.deep_view();
    let ghost keep = |p: PropertyView| p.name != name@;
    let mut kept: Vec<Property> = Vec::new();
    let mut rest: Vec<Property> = Vec::new();
    let ghost n = all.len();
    assert(rest.deep_view() =~= all.reverse().take(0));
    assert(props.deep_view() =~= all.take(n as int));
    while props.len() > 0
        invariant
            n == all.len(),
            props.len() + rest.len() == n,
            props.deep_view() == all.take(props.len() as int),
            rest.deep_view() == all.reverse().take(rest.len() as int),
        decreases props.len(),
    {
        let ghost props_before = *props;
        let ghost rest_before = rest;
        let p = props.pop().unwrap();
        let ghost item = p;
        rest.push(p);
        proof {
            lemma_push_deep_view(rest_before, rest, item);
            assert(props_before.deep_view()[props_before.len() - 1] == item@);
            assert(all.reverse()[rest_before.len() as int] == all[n - 1 - rest_before.len()]);
            assert(rest.deep_view() =~= all.reverse().take(rest.len() as int));
            assert(props.deep_view() =~= all.take(props.len() as int));
        }
    }
    assert(all.take(0) =~= Seq::empty());
    assert(kept.deep_view() =~= all.take(0).filter(keep));
    while rest.len() > 0
        invariant
            n == all.len(),
            rest.len() <= n,
            keep == (|p: PropertyView| p.name != name@),
            kept.deep_view() == all.take(n - rest.len()).filter(keep),
            rest.deep_view() == all.reverse().take(rest.len() as int),
        decreases rest.len(),
    {
        let ghost i = n - rest.len();
        let ghost before = kept;
        let ghost rest_before = rest;
        let p = rest.pop().unwrap();
        proof {
            assert(rest_before.deep_view()[rest_before.len() - 1] == p@);
            assert(all.reverse()[rest_before.len() - 1] == all[i]);
            assert(p@ == all[i]);
            assert(all.take(i + 1) =~= all.take(i).push(all[i]));
            lemma_filter_push(all.take(i), all[i], keep);
            assert(rest.deep_view() =~= all.reverse().take(rest.len() as int));
        }
        if !p.name.as_str().eq(name) {
            let ghost item = p;
            kept.push(p);
            proof {
                lemma_push_deep_view(before, kept, item);
            }
        }
    }
    assert(all.take(n as int) =~= all);
    *props = kept;
}

/// Where a property with the given name is present, the first of them is the
/// first that [`named_properties`] lists, and the other way round.
pub proof fn lemma_named_first(props: Seq<PropertyView>, name: Seq<char>)
    ensures
        named_properties(props, name).len() > 0 <==> find_property(props, name) is Some,
        find_property(props, name) matches Some(p) ==> named_properties(props, name)[0] == p
            && p.name == name,
    decreases props.len(),
{
    reveal(Seq::filter);
    let keep = |p: PropertyView| p.name == name;
    if props.len() > 0 {
        let rest = props.drop_first();
        lemma_named_first(rest, name);
        assert(props =~= seq![props[0]] + rest);
        Seq::filter_distributes_over_add(seq![props[0]], rest, keep);
        lemma_filter_push(Seq::empty(), props[0], keep);
        assert(Seq::<PropertyView>::empty().push(props[0]) =~= seq![props[0]]);
        assert(Seq::<PropertyView>::empty().filter(keep) =~= Seq::empty());
    }
}

/// `acc` with `x` at its end, unless `acc` holds `x` already.
pub open spec fn unique_push(acc: Seq<Seq<char>>, x: Seq<char>) -> Seq<Seq<char>> {
    if acc.contains(x) {
        acc
    } else {
        acc.push(x)
    }
}

/// `acc` followed by the items of `s` that neither `acc` nor an earlier part
/// of `s` holds, in order.
pub open spec fn unique_onto(acc: Seq<Seq<char>>, s: Seq<Seq<char>>) -> Seq<Seq<char>>
    decreases s.len(),
{
    if s.len() == 0 {
        acc
    } else {
        unique_onto(unique_push(acc, s[0]), s.drop_first())
    }
}

/// The `TZID` parameters of the properties that have one, in order.
pub open spec fn tzid_list(props: Seq<PropertyView>) -> Seq<Seq<char>>
    decreases props.len(),
{
    if props.len() == 0 {
        Seq::empty()
    } else {
        (match crate::property::first_param(props[0].params, "TZID"@) {
            Some(t) => seq![t],
            None => Seq::empty(),
        }) + tzid_list(props.drop_first())
    }
}

/// The timezone identifiers that the properties name, each once, in the
/// order in which they first occur.
pub open spec fn tzids_of(props: Seq<PropertyView>) -> Seq<Seq<char>> {
    unique_onto(Seq::empty(), tzid_list(props))
}

/// See [`unique_push`].
pub fn add_unique<'a>(out: &mut Vec<&'a str>, item: &'a str)
    ensures
        final(out).deep_view() == unique_push(old(out).deep_view(), item@),
{
    let ghost acc = out.deep_view();
    let mut i: usize = 0;
    while i < out.len()
        invariant
            i <= out.len(),
            acc == out.deep_view(),
            *out == *old(out),
            forall|j: int| 0 <= j < i ==> acc[j] != item@,
        decreases out.len() - i,
    {
        assert(acc[i as int] == out[i as int]@);
        if out[i].eq(item) {
            assert(acc.contains(item@));
            return;
        }
        i += 1;
    }
    let ghost before = *out;
    out.push(item);
    proof {
        lemma_push_deep_view(before, *out, item);
    }
}

/// Adds the timezone identifiers that the properties name to `out`, each
/// once: see [`unique_onto`].
pub fn collect_tzids<'a>(props: &'a Vec<Property>, out: &mut Vec<&'a str>)
    ensures
        final(out).deep_view() == unique_onto(old(out).deep_view(), tzid_list(props.deep_view())),
{
    let ghost all = props.deep_view();
    let mut i: usize = 0;
    assert(all.skip(0) =~= all);
    while i < props.len()
        invariant
            i <= props.len(),
            all == props.deep_view(),
            unique_onto(out.deep_view(), tzid_list(all.skip(i as int))) == unique_onto(
                old(out).deep_view(),
                tzid_list(all),
            ),
        decreases props.len() - i,
    {
        let ghost rest = all.skip(i as int);
        proof {
            assert(rest[0] == props[i as int]@);
            assert(rest.drop_first() =~= all.skip(i + 1));
        }
        match props[i].get_tzid() {
            Some(tzid) => {
                add_unique(out, tzid);
                proof {
                    let list = tzid_list(rest);
                    assert(list =~= seq![tzid@] + tzid_list(rest.drop_first()));
                    assert(list[0] == tzid@);
                    assert(list.drop_first() =~= tzid_list(rest.drop_first()));
                }
            },
            None => {
                assert(tzid_list(rest) =~= tzid_list(rest.drop_first()));
            },
        }
        i += 1;
    }
}

/// A component: a list of properties under one of a few names.
pub trait Component: View + Sized {
    /// The draft to which the component can be turned back.
    type Unverified: View;

    /// The names under which the component is written.
    spec fn names() -> Seq<Seq<char>>;

    /// The draft that holds what a component holds.
    spec fn draft_of(v: Self::V) -> <Self::Unverified as View>::V;

    /// Turns the component back into a draft, which can be changed and
    /// checked again. Nothing that the component holds is lost.
    fn mutable(self) -> (r: Self::Unverified)
        ensures
            r@ == Self::draft_of(self@),
    ;

    /// The properties of a component, as plain values.
    spec fn properties_of(v: Self::V) -> Seq<PropertyView>;

    /// Whether `name` is one of the names of the component.
    fn is_name(name: &str) -> (r: bool)
        ensures
            r == Self::names().contains(name@),
    ;

    /// The properties of the component.
    fn get_properties(&self) -> (r: &Vec<Property>)
        ensures
            r.deep_view() == Self::properties_of(self@),
    ;

    /// The first property with the given name.
    fn get_property(&self, name: &str) -> (r: Option<&Property>)
        ensures
            match r {
                Some(p) => find_property(Self::properties_of(self@), name@) == Some(p@),
                None => find_property(Self::properties_of(self@), name@) is None,
            },
    {
        get_property_in(self.get_properties(), name)
    }

    /// The properties with the given name.
    fn get_named_properties(&self, name: &str) -> (r: Vec<&Property>)
        ensures
            r.deep_view() == named_properties(Self::properties_of(self@), name@),
    {
        get_named_properties_in(self.get_properties(), name)
    }
}

/// A draft of a component: it takes properties and nested components as they
/// are read, and is checked when it is complete.
pub trait ComponentMut: Component {
    /// What the draft becomes when it passes its check.
    type Verified: Component;

    /// The draft that holds nothing.
    spec fn empty() -> Self::V;

    /// The draft with one more property at its end.
    spec fn with_property(draft: Self::V, property: PropertyView) -> Self::V;

    /// What a `BEGIN` line with the value `name` does to the draft: the nested
    /// component is read from `items` and added, or the name is refused.
    spec fn sub_component(draft: Self::V, name: Seq<char>, items: Seq<Item>) -> Parsed<Self::V>;

    /// What checking the draft gives under a timezone table.
    spec fn built(draft: Self::V, timezones: Map<Seq<char>, Option<Seq<char>>>) -> Result<
        <Self::Verified as View>::V,
        ParserErrorView,
    >;

    /// A draft that holds nothing.
    fn fresh() -> (r: Self)
        ensures
            r@ == Self::empty(),
    ;

    /// Reads the nested component that the line `BEGIN:value` opens and adds
    /// it to the draft.
    fn add_sub_component(&mut self, value: &str, line_parser: &mut PropertyParser) -> (r: Result<
        (),
        ParserError,
    >)
        ensures
            final(line_parser).bytes() == old(line_parser).bytes(),
            final(line_parser).remaining().len() <= old(line_parser).remaining().len(),
            parse_outcome(r, final(self)@, final(line_parser).remaining()) == Self::sub_component(
                old(self)@,
                value@,
                old(line_parser).remaining(),
            ),
    ;

    /// Adds a property at the end.
    fn add_property(&mut self, property: Property)
        ensures
            final(self)@ == Self::with_property(old(self)@, property@),
    ;

    /// Checks the draft: gives the verified component, or the first fault.
    fn build(self, timezones: &TimezoneTable) -> (r: Result<Self::Verified, ParserError>)
        ensures
            build_outcome(r) == Self::built(self@, timezones@),
    ;

    /// Reads the body of the component from the parser into the draft, up to
    /// and with its `END` line: see [`parse_block`].
    fn parse(&mut self, line_parser: &mut PropertyParser) -> (r: Result<(), ParserError>)
        ensures
            final(line_parser).bytes() == old(line_parser).bytes(),
            final(line_parser).remaining().len() <= old(line_parser).remaining().len(),
            parse_outcome(r, final(self)@, final(line_parser).remaining()) == parse_block(
                old(self)@,
                old(line_parser).remaining(),
                |d: Self::V, p: PropertyView| Self::with_property(d, p),
                |d: Self::V, name: Seq<char>, items: Seq<Item>| Self::sub_component(d, name, items),
            ),
    ;
}

/// Whether a line opens a component of the kind `D`: a `BEGIN` line without
/// parameters whose value, in upper case, is one of the names of the kind.
pub open spec fn is_header<D: ComponentMut>(line: PropertyView) -> bool {
    line.name == "BEGIN"@ && line.value is Some && D::names().contains(
        crate::text::upper_of(line.value->0),
    ) && line.params.len() == 0
}

/// What the next call of [`ComponentParser::next`] gives on a stream of
/// outcomes, and the outcomes that it leaves. Nothing is given where the
/// stream is empty. A first line that does not open a component of the kind
/// is the fault `MissingHeader`. Else the body of the component is read and
/// the draft is checked under the empty timezone table.
pub open spec fn next_component<D: ComponentMut>(items: Seq<Item>) -> (
    Option<Result<<D::Verified as View>::V, ParserErrorView>>,
    Seq<Item>,
) {
    if items.len() == 0 {
        (None, items)
    } else {
        let rest = items.drop_first();
        match items[0] {
            Err(e) => (Some(Err(ParserErrorView::PropertyError(e))), rest),
            Ok(line) => if !is_header::<D>(line) {
                (Some(Err(ParserErrorView::MissingHeader)), rest)
            } else {
                let parsed = parse_block(
                    D::empty(),
                    rest,
                    |d: D::V, p: PropertyView| D::with_property(d, p),
                    |d: D::V, name: Seq<char>, items: Seq<Item>| D::sub_component(d, name, items),
                );
                (
                    Some(
                        match parsed.result {
                            Err(e) => Err(e),
                            Ok(draft) => D::built(draft, Map::empty()),
                        },
                    ),
                    parsed.rest,
                )
            },
        }
    }
}

/// What [`ComponentParser::expect_one`] gives on a stream of outcomes: the
/// one component of the stream. An empty stream and a stream that goes on
/// behind its first component are faults.
pub open spec fn one_component<D: ComponentMut>(items: Seq<Item>) -> Result<
    <D::Verified as View>::V,
    ParserErrorView,
> {
    match next_component::<D>(items).0 {
        None => Err(ParserErrorView::EmptyInput),
        Some(Err(e)) => Err(e),
        Some(Ok(c)) => if next_component::<D>(next_component::<D>(items).1).0 is Some {
            Err(ParserErrorView::TooManyComponents)
        } else {
            Ok(c)
        },
    }
}

/// Reads the components of one kind that stand one after the other in a byte
/// buffer. `D` is the draft of the kind.
pub struct ComponentParser<D: ComponentMut> {
    line_parser: PropertyParser,
    _kind: core::marker::PhantomData<D>,
}

impl<D: ComponentMut> ComponentParser<D> {
    /// The outcomes that have not been read yet.
    pub closed spec fn remaining(&self) -> Seq<Item> {
        self.line_parser.remaining()
    }

    /// A parser at the start of `reader`.
    pub fn new(reader: Vec<u8>) -> (r: ComponentParser<D>)
        ensures
            r.remaining() == crate::property::properties_of(reader@),
    {
        ComponentParser {
            line_parser: PropertyParser::from_reader(reader),
            _kind: core::marker::PhantomData,
        }
    }

    /// Reads the next line and checks that it opens a component of the kind:
    /// see [`is_header`]. Gives `None` where no line is left.
    pub fn check_header(&mut self) -> (r: Result<Option<()>, ParserError>)
        ensures
            old(self).remaining().len() == 0 ==> final(self).remaining() == old(self).remaining()
                && r == Ok::<Option<()>, ParserError>(None),
            old(self).remaining().len() > 0 ==> final(self).remaining() == old(
                self,
            ).remaining().drop_first() && match old(self).remaining()[0] {
                Err(e) => r == Err::<Option<()>, ParserError>(ParserError::PropertyError(e)),
                Ok(line) => if is_header::<D>(line) {
                    r == Ok::<Option<()>, ParserError>(Some(()))
                } else {
                    r == Err::<Option<()>, ParserError>(ParserError::MissingHeader)
                },
            },
    {
        match self.line_parser.next() {
            None => Ok(None),
            Some(Err(e)) => Err(ParserError::PropertyError(e)),
            Some(Ok(line)) => {
                if !line.name.as_str().eq("BEGIN") || line.params.len() > 0 {
                    return Err(ParserError::MissingHeader);
                }
                match &line.value {
                    None => Err(ParserError::MissingHeader),
                    Some(value) => {
                        if D::is_name(crate::text::to_upper(value.as_str()).as_str()) {
                            Ok(Some(()))
                        } else {
                            Err(ParserError::MissingHeader)
                        }
                    },
                }
            },
        }
    }

    /// The next component of the input, checked, or the fault that reading or
    /// checking it met; `None` where the input holds no more. After a fault
    /// the parser goes on behind the line at which the fault was met.
    pub fn next(&mut self) -> (r: Option<Result<D::Verified, ParserError>>)
        ensures
            match r {
                None => next_component::<D>(old(self).remaining()).0 is None,
                Some(c) => next_component::<D>(old(self).remaining()).0 == Some(build_outcome(c)),
            },
            final(self).remaining() == next_component::<D>(old(self).remaining()).1,
            r is Some ==> final(self).remaining().len() < old(self).remaining().len(),
            final(self).remaining().len() <= old(self).remaining().len(),
    {
        match self.check_header() {
            Ok(None) => None,
            Err(e) => Some(Err(e)),
            Ok(Some(_)) => {
                let mut comp = D::fresh();
                match comp.parse(&mut self.line_parser) {
                    Err(e) => Some(Err(e)),
                    Ok(()) => {
                        let timezones = TimezoneTable::new();
                        Some(comp.build(&timezones))
                    },
                }
            },
        }
    }

    /// Reads the input to its end and gives the one component in it: see
    /// [`one_component`].
    pub fn expect_one(self) -> (r: Result<D::Verified, ParserError>)
        ensures
            build_outcome(r) == one_component::<D>(self.remaining()),
    {
        let mut parser = self;
        match parser.next() {
            None => Err(ParserError::EmptyInput),
            Some(Err(e)) => Err(e),
            Some(Ok(c)) => match parser.next() {
                Some(_) => Err(ParserError::TooManyComponents),
                None => Ok(c),
            },
        }
    }
}

/// The plain values of a list of items.
pub open spec fn views<T: View>(s: Seq<T>) -> Seq<T::V> {
    s.map_values(|t: T| t@)
}

/// What checking the drafts one after the other gives, behind the checked
/// components `acc`: the checked components, or the first fault.
pub open spec fn built_all<D: ComponentMut>(
    drafts: Seq<D::V>,
    timezones: Map<Seq<char>, Option<Seq<char>>>,
    acc: Seq<<D::Verified as View>::V>,
) -> Result<Seq<<D::Verified as View>::V>, ParserErrorView>
    decreases drafts.len(),
{
    if drafts.len() == 0 {
        Ok(acc)
    } else {
        match D::built(drafts[0], timezones) {
            Err(e) => Err(e),
            Ok(v) => built_all::<D>(drafts.drop_first(), timezones, acc.push(v)),
        }
    }
}

/// Reverses a list.
pub fn reversed<T>(v: Vec<T>) -> (r: Vec<T>)
    ensures
        r@ == v@.reverse(),
{
    let ghost all = v@;
    let mut rest = v;
    let mut r: Vec<T> = Vec::new();
    while rest.len() > 0
        invariant
            rest.len() + r.len() == all.len(),
            rest@ == all.take(rest.len() as int),
            r@ == all.reverse().take(r.len() as int),
        decreases rest.len(),
    {
        let item = rest.pop().unwrap();
        r.push(item);
        assert(rest@ =~= all.take(rest.len() as int));
        assert(r@ =~= all.reverse().take(r.len() as int));
    }
    assert(all.reverse().take(all.len() as int) =~= all.reverse());
    r
}

/// Checks the drafts one after the other: see [`built_all`].
pub fn build_all<D: ComponentMut>(drafts: Vec<D>, timezones: &TimezoneTable) -> (r: Result<
    Vec<D::Verified>,
    ParserError,
>)
    ensures
        match r {
            Ok(v) => built_all::<D>(views(drafts@), timezones@, Seq::empty()) == Ok::<
                Seq<<D::Verified as View>::V>,
                ParserErrorView,
            >(views(v@)),
            Err(e) => built_all::<D>(views(drafts@), timezones@, Seq::empty()) == Err::<
                Seq<<D::Verified as View>::V>,
                ParserErrorView,
            >(e@),
        },
{
    let ghost all = views(drafts@);
    let mut rest = reversed(drafts);
    let mut out: Vec<D::Verified> = Vec::new();
    let ghost n = all.len();
    assert(views(out@) =~= Seq::empty());
    assert(all.skip(0) =~= all);
    while rest.len() > 0
        invariant
            n == all.len(),
            all == views(drafts@),
            rest.len() <= n,
            forall|j: int| 0 <= j < rest.len() ==> #[trigger] rest[j]@ == all[n - 1 - j],
            built_all::<D>(all.skip(n - rest.len()), timezones@, views(out@)) == built_all::<D>(
                all,
                timezones@,
                Seq::empty(),
            ),
        decreases rest.len(),
    {
        let ghost i = n - rest.len();
        let ghost tail = all.skip(i);
        let ghost before = views(out@);
        let draft = rest.pop().unwrap();
        assert(draft@ == all[i]);
        assert(tail[0] == all[i]);
        assert(tail.drop_first() =~= all.skip(i + 1));
        match draft.build(timezones) {
            Err(e) => {
                return Err(e);
            },
            Ok(c) => {
                out.push(c);
                assert(views(out@) =~= before.push(c@));
            },
        }
    }
    Ok(out)
}

/// Turns every component of a list back into a draft.
pub fn mutable_all<C: Component>(items: Vec<C>) -> (r: Vec<C::Unverified>)
    ensures
        views(r@) == views(items@).map_values(|v: C::V| C::draft_of(v)),
{
    let ghost all = views(items@);
    let ghost n = all.len();
    let mut rest = reversed(items);
    let mut r: Vec<C::Unverified> = Vec::new();
    assert(views(r@) =~= all.take(0).map_values(|v: C::V| C::draft_of(v)));
    while rest.len() > 0
        invariant
            n == all.len(),
            rest.len() + r.len() == n,
            forall|j: int| 0 <= j < rest.len() ==> #[trigger] rest[j]@ == all[n - 1 - j],
            views(r@) == all.take(r.len() as int).map_values(|v: C::V| C::draft_of(v)),
        decreases rest.len(),
    {
        let ghost before = views(r@);
        let ghost k = r.len() as int;
        let item = rest.pop().unwrap();
        assert(item@ == all[k]);
        let draft = item.mutable();
        assert(draft@ == C::draft_of(all[k]));
        r.push(draft);
        proof {
            assert(views(r@) =~= before.push(C::draft_of(all[k])));
            assert(all.take(k + 1) =~= all.take(k).push(all[k]));
            assert(all.take(k + 1).map_values(|v: C::V| C::draft_of(v)) =~= all.take(k).map_values(
                |v: C::V| C::draft_of(v),
            ).push(C::draft_of(all[k])));
        }
    }
    assert(all.take(n as int) =~= all);
    r
}

} // verus!
