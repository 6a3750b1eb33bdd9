//! Building calendars and events step by step.
//!
//! A builder asks for the properties that a component must have in a fixed
//! order: each step gives a value of another type, which offers the next
//! step. The last step of an event checks what was built as the parser would;
//! the last step of a calendar puts together components that were checked.
pub mod calendar;
pub mod event;

use crate::property::{lemma_push_deep_view, Property, PropertyView};
use vstd::prelude::*;

pub use crate::builder::calendar::IcalCalendarBuilder;
pub use crate::builder::event::IcalEventBuilder;

verus! {

/// A parameter with one value.
pub fn ical_param(key: &str, value: &str) -> (r: (String, Vec<String>))
    ensures
        r.deep_view() == (key@, seq![value@]),
{
    crate::parser::accessor::single_param(key, value)
}

/// The property with the given name and value and without parameters.
pub open spec fn plain(name: Seq<char>, value: Seq<char>) -> PropertyView {
    PropertyView { name, params: Seq::empty(), value: Some(value) }
}

/// The property with the given name and value and with one parameter.
pub open spec fn with_param(name: Seq<char>, value: Seq<char>, key: Seq<char>, param: Seq<char>) -> PropertyView {
    PropertyView { name, params: seq![(key, seq![param])], value: Some(value) }
}

/// A property without parameters: see [`plain`].
pub fn ical_property(name: &str, value: &str) -> (r: Property)
    ensures
        r@ == plain(name@, value@),
{
    let params: Vec<(String, Vec<String>)> = Vec::new();
    assert(params.deep_view() =~= Seq::empty());
    Property { name: name.to_owned(), params, value: Some(value.to_owned()) }
}

/// A property with one parameter: see [`with_param`].
pub fn ical_property_with(name: &str, value: &str, key: &str, param: &str) -> (r: Property)
    ensures
        r@ == with_param(name@, value@, key@, param@),
{
    let mut params: Vec<(String, Vec<String>)> = Vec::new();
    let ghost before = params;
    let item = ical_param(key, param);
    let ghost pushed = item;
    params.push(item);
    proof {
        lemma_push_deep_view(before, params, pushed);
        assert(before.deep_view() =~= Seq::empty());
        assert(params.deep_view() =~= seq![(key@, seq![param@])]);
    }
    Property { name: name.to_owned(), params, value: Some(value.to_owned()) }
}

/// Adds a property at the end of a list.
pub fn push_property(properties: &mut Vec<Property>, property: Property)
    ensures
        final(properties).deep_view() == old(properties).deep_view().push(property@),
{
    let ghost before = *properties;
    let ghost item = property;
    properties.push(property);
    proof {
        lemma_push_deep_view(before, *properties, item);
    }
}

} // verus!
