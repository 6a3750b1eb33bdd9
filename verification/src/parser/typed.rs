//! Typed properties: the kinds of property that hold a typed value, and the
//! getters that read them from a component.
use crate::parser::accessor::{
    dated_property, duration_of_property, optional_once, parse_dated_prop, parse_duration_prop,
    property_text, recurid_of_property, safe_get_optional, text_of, IcalDTSTARTProperty,
    IcalRECURIDProperty, IcalUIDProperty, RecurIdRange,
};
use crate::parser::rdate::{rdate_of_property, IcalRDATEProperty};
use crate::parser::{
    find_property, get_named_properties_in, named_properties, views, Component, ParserError,
    ParserErrorView,
};
use crate::property::{Property, PropertyView};
use crate::types::dateordatetime::{CalDateOrDateTime, CalDateOrDateTimeView};
use crate::types::period::{
    date_or_period_of_property, DateOrDateTimeOrPeriod, DateOrDateTimeOrPeriodView,
};
use crate::types::{Duration, TimezoneTable};
use vstd::prelude::*;

verus! {

/// The outcome of reading a typed value, as a plain value.
pub open spec fn typed_outcome<T: View>(r: Result<T, ParserError>) -> Result<T::V, ParserErrorView> {
    match r {
        Ok(v) => Ok(v@),
        Err(e) => Err(e@),
    }
}

/// Values that can be read from a property.
pub trait ParseProp: View + Sized {
    /// The value that a property holds under a timezone table, where its
    /// value type is `default_type` unless it names another.
    spec fn parsed(
        prop: PropertyView,
        timezones: Map<Seq<char>, Option<Seq<char>>>,
        default_type: Seq<char>,
    ) -> Result<Self::V, ParserErrorView>;

    /// Reads the value that a property holds.
    fn parse_prop(prop: &Property, timezones: &TimezoneTable, default_type: &str) -> (r: Result<
        Self,
        ParserError,
    >)
        ensures
            typed_outcome(r) == Self::parsed(prop@, timezones@, default_type@),
    ;
}

impl ParseProp for String {
    /// The text of the property; a property without a value holds the empty
    /// text.
    open spec fn parsed(
        prop: PropertyView,
        timezones: Map<Seq<char>, Option<Seq<char>>>,
        default_type: Seq<char>,
    ) -> Result<Seq<char>, ParserErrorView> {
        Ok(text_of(prop))
    }

    fn parse_prop(prop: &Property, timezones: &TimezoneTable, default_type: &str) -> (r: Result<
        Self,
        ParserError,
    >) {
        Ok(property_text(prop))
    }
}

impl ParseProp for CalDateOrDateTime {
    /// See [`dated_property`].
    open spec fn parsed(
        prop: PropertyView,
        timezones: Map<Seq<char>, Option<Seq<char>>>,
        default_type: Seq<char>,
    ) -> Result<CalDateOrDateTimeView, ParserErrorView> {
        dated_property(prop, timezones, default_type)
    }

    fn parse_prop(prop: &Property, timezones: &TimezoneTable, default_type: &str) -> (r: Result<
        Self,
        ParserError,
    >) {
        parse_dated_prop(prop, timezones, default_type)
    }
}

impl ParseProp for DateOrDateTimeOrPeriod {
    /// See [`date_or_period_of_property`].
    open spec fn parsed(
        prop: PropertyView,
        timezones: Map<Seq<char>, Option<Seq<char>>>,
        default_type: Seq<char>,
    ) -> Result<DateOrDateTimeOrPeriodView, ParserErrorView> {
        match date_or_period_of_property(prop, timezones, default_type) {
            Ok(v) => Ok(v),
            Err(e) => Err(ParserErrorView::DateTime(e)),
        }
    }

    fn parse_prop(prop: &Property, timezones: &TimezoneTable, default_type: &str) -> (r: Result<
        Self,
        ParserError,
    >) {
        match DateOrDateTimeOrPeriod::parse_prop(prop, timezones, default_type) {
            Ok(v) => Ok(v),
            Err(e) => Err(ParserError::DateTime(e)),
        }
    }
}

impl ParseProp for Duration {
    /// See [`duration_of_property`].
    open spec fn parsed(
        prop: PropertyView,
        timezones: Map<Seq<char>, Option<Seq<char>>>,
        default_type: Seq<char>,
    ) -> Result<int, ParserErrorView> {
        duration_of_property(prop)
    }

    fn parse_prop(prop: &Property, timezones: &TimezoneTable, default_type: &str) -> (r: Result<
        Self,
        ParserError,
    >) {
        parse_duration_prop(prop)
    }
}

/// A kind of property that holds a typed value: its name, the value type
/// that it has where it names none, and how its value is read.
pub trait ICalProperty: View + Sized {
    /// The name of the property.
    spec fn property_name() -> Seq<char>;

    /// The value type of the property where it names none.
    spec fn default_type() -> Seq<char>;

    /// What a property of this kind holds under a timezone table.
    spec fn value_of(prop: PropertyView, timezones: Map<Seq<char>, Option<Seq<char>>>) -> Result<
        Self::V,
        ParserErrorView,
    >;

    /// The name of the property.
    fn name() -> (r: &'static str)
        ensures
            r@ == Self::property_name(),
    ;

    /// The value type of the property where it names none.
    fn default_value_type() -> (r: &'static str)
        ensures
            r@ == Self::default_type(),
    ;

    /// Reads the value that a property holds.
    fn parse_prop(prop: &Property, timezones: &TimezoneTable) -> (r: Result<Self, ParserError>)
        ensures
            typed_outcome(r) == Self::value_of(prop@, timezones@),
    ;
}

impl View for IcalUIDProperty {
    type V = Seq<char>;

    open spec fn view(&self) -> Seq<char> {
        self.0@
    }
}

impl ICalProperty for IcalUIDProperty {
    open spec fn property_name() -> Seq<char> {
        "UID"@
    }

    open spec fn default_type() -> Seq<char> {
        "TEXT"@
    }

    /// The text of the property; a property without a value holds the empty
    /// text.
    open spec fn value_of(prop: PropertyView, timezones: Map<Seq<char>, Option<Seq<char>>>) -> Result<
        Seq<char>,
        ParserErrorView,
    > {
        Ok(text_of(prop))
    }

    fn name() -> (r: &'static str) {
        "UID"
    }

    fn default_value_type() -> (r: &'static str) {
        "TEXT"
    }

    fn parse_prop(prop: &Property, timezones: &TimezoneTable) -> (r: Result<Self, ParserError>) {
        match <String as ParseProp>::parse_prop(prop, timezones, "TEXT") {
            Ok(v) => Ok(IcalUIDProperty(v)),
            Err(e) => Err(e),
        }
    }
}

impl View for IcalDTSTARTProperty {
    type V = CalDateOrDateTimeView;

    open spec fn view(&self) -> CalDateOrDateTimeView {
        self.0@
    }
}

impl ICalProperty for IcalDTSTARTProperty {
    open spec fn property_name() -> Seq<char> {
        "DTSTART"@
    }

    open spec fn default_type() -> Seq<char> {
        "DATE-TIME"@
    }

    /// The date or date-time of the property.
    open spec fn value_of(prop: PropertyView, timezones: Map<Seq<char>, Option<Seq<char>>>) -> Result<
        CalDateOrDateTimeView,
        ParserErrorView,
    > {
        dated_property(prop, timezones, "DATE-TIME"@)
    }

    fn name() -> (r: &'static str) {
        "DTSTART"
    }

    fn default_value_type() -> (r: &'static str) {
        "DATE-TIME"
    }

    fn parse_prop(prop: &Property, timezones: &TimezoneTable) -> (r: Result<Self, ParserError>) {
        match <CalDateOrDateTime as ParseProp>::parse_prop(prop, timezones, "DATE-TIME") {
            Ok(v) => Ok(IcalDTSTARTProperty(v)),
            Err(e) => Err(e),
        }
    }
}

impl ICalProperty for IcalRECURIDProperty {
    open spec fn property_name() -> Seq<char> {
        "RECURRENCE-ID"@
    }

    open spec fn default_type() -> Seq<char> {
        "DATE-TIME"@
    }

    /// See [`recurid_of_property`].
    open spec fn value_of(prop: PropertyView, timezones: Map<Seq<char>, Option<Seq<char>>>) -> Result<
        (CalDateOrDateTimeView, RecurIdRange),
        ParserErrorView,
    > {
        recurid_of_property(prop, timezones)
    }

    fn name() -> (r: &'static str) {
        "RECURRENCE-ID"
    }

    fn default_value_type() -> (r: &'static str) {
        "DATE-TIME"
    }

    fn parse_prop(prop: &Property, timezones: &TimezoneTable) -> (r: Result<Self, ParserError>) {
        IcalRECURIDProperty::parse_prop(prop, timezones)
    }
}

impl ICalProperty for IcalRDATEProperty {
    open spec fn property_name() -> Seq<char> {
        "RDATE"@
    }

    open spec fn default_type() -> Seq<char> {
        "DATE-TIME"@
    }

    /// See [`rdate_of_property`].
    open spec fn value_of(prop: PropertyView, timezones: Map<Seq<char>, Option<Seq<char>>>) -> Result<
        (Seq<DateOrDateTimeOrPeriodView>, Option<Seq<char>>),
        ParserErrorView,
    > {
        rdate_of_property(prop, timezones)
    }

    fn name() -> (r: &'static str) {
        "RDATE"
    }

    fn default_value_type() -> (r: &'static str) {
        "DATE-TIME"
    }

    fn parse_prop(prop: &Property, timezones: &TimezoneTable) -> (r: Result<Self, ParserError>) {
        IcalRDATEProperty::parse_prop(prop, timezones)
    }
}

/// The values that the properties hold, one after the other, behind the
/// values `acc`; the first property that holds no value is the fault.
pub open spec fn all_values<T: ICalProperty>(
    props: Seq<PropertyView>,
    timezones: Map<Seq<char>, Option<Seq<char>>>,
    acc: Seq<T::V>,
) -> Result<Seq<T::V>, ParserErrorView>
    decreases props.len(),
{
    if props.len() == 0 {
        Ok(acc)
    } else {
        match T::value_of(props[0], timezones) {
            Err(e) => Err(e),
            Ok(v) => all_values::<T>(props.drop_first(), timezones, acc.push(v)),
        }
    }
}

/// The value of the one property of the kind `T`, or nothing where there is
/// none. A second property of that kind is a fault, and so is a property
/// that holds no value.
pub open spec fn optional_value<T: ICalProperty>(
    props: Seq<PropertyView>,
    timezones: Map<Seq<char>, Option<Seq<char>>>,
) -> Result<Option<T::V>, ParserErrorView> {
    match optional_once(props, T::property_name()) {
        Err(e) => Err(e),
        Ok(None) => Ok(None),
        Ok(Some(p)) => match T::value_of(p, timezones) {
            Err(e) => Err(e),
            Ok(v) => Ok(Some(v)),
        },
    }
}

/// The value of the one property of the kind `T`. A missing property is a
/// fault that names the property.
pub open spec fn required_value<T: ICalProperty>(
    props: Seq<PropertyView>,
    timezones: Map<Seq<char>, Option<Seq<char>>>,
) -> Result<T::V, ParserErrorView> {
    match optional_value::<T>(props, timezones) {
        Err(e) => Err(e),
        Ok(None) => Err(ParserErrorView::MissingProperty(T::property_name())),
        Ok(Some(v)) => Ok(v),
    }
}

/// The getters that read typed properties from a component.
pub trait GetProperty: Component {
    /// The values of all properties of the kind `T`, in order: see
    /// [`all_values`].
    fn safe_get_all<T: ICalProperty>(&self, timezones: &TimezoneTable) -> (r: Result<
        Vec<T>,
        ParserError,
    >)
        ensures
            match r {
                Ok(v) => all_values::<T>(
                    named_properties(Self::properties_of(self@), T::property_name()),
                    timezones@,
                    Seq::empty(),
                ) == Ok::<Seq<T::V>, ParserErrorView>(views(v@)),
                Err(e) => all_values::<T>(
                    named_properties(Self::properties_of(self@), T::property_name()),
                    timezones@,
                    Seq::empty(),
                ) == Err::<Seq<T::V>, ParserErrorView>(e@),
            },
    {
        let found = get_named_properties_in(self.get_properties(), T::name());
        let ghost all = found.deep_view();
        let mut out: Vec<T> = Vec::new();
        let mut i: usize = 0;
        assert(views(out@) =~= Seq::empty());
        assert(all.skip(0) =~= all);
        while i < found.len()
            invariant
                i <= found.len(),
                all == found.deep_view(),
                all == named_properties(Self::properties_of(self@), T::property_name()),
                all_values::<T>(all.skip(i as int), timezones@, views(out@)) == all_values::<T>(
                    all,
                    timezones@,
                    Seq::empty(),
                ),
            decreases found.len() - i,
        {
            let ghost rest = all.skip(i as int);
            assert(rest[0] == found[i as int]@);
            assert(rest.drop_first() =~= all.skip(i + 1));
            match T::parse_prop(found[i], timezones) {
                Err(e) => {
                    return Err(e);
                },
                Ok(v) => {
                    let ghost before = views(out@);
                    let ghost pushed = v@;
                    out.push(v);
                    assert(views(out@) =~= before.push(pushed));
                },
            }
            i += 1;
        }
        Ok(out)
    }

    /// The value of the one property of the kind `T`, if there is one: see
    /// [`optional_value`].
    fn safe_get_optional<T: ICalProperty>(&self, timezones: &TimezoneTable) -> (r: Result<
        Option<T>,
        ParserError,
    >)
        ensures
            match r {
                Ok(Some(v)) => optional_value::<T>(Self::properties_of(self@), timezones@) == Ok::<
                    Option<T::V>,
                    ParserErrorView,
                >(Some(v@)),
                Ok(None) => optional_value::<T>(Self::properties_of(self@), timezones@) == Ok::<
                    Option<T::V>,
                    ParserErrorView,
                >(None),
                Err(e) => optional_value::<T>(Self::properties_of(self@), timezones@) == Err::<
                    Option<T::V>,
                    ParserErrorView,
                >(e@),
            },
    {
        match safe_get_optional(self.get_properties(), T::name()) {
            Err(e) => Err(e),
            Ok(None) => Ok(None),
            Ok(Some(p)) => match T::parse_prop(p, timezones) {
                Err(e) => Err(e),
                Ok(v) => Ok(Some(v)),
            },
        }
    }

    /// The value of the one property of the kind `T`: see
    /// [`required_value`].
    fn safe_get_required<T: ICalProperty>(&self, timezones: &TimezoneTable) -> (r: Result<
        T,
        ParserError,
    >)
        ensures
            typed_outcome(r) == required_value::<T>(Self::properties_of(self@), timezones@),
    {
        match self.safe_get_optional::<T>(timezones) {
            Err(e) => Err(e),
            Ok(None) => Err(ParserError::MissingProperty(T::name())),
            Ok(Some(v)) => Ok(v),
        }
    }

    /// Whether a property of the kind `T` is present.
    fn has_prop<T: ICalProperty>(&self) -> (r: bool)
        ensures
            r == (find_property(Self::properties_of(self@), T::property_name()) is Some),
    {
        self.get_property(T::name()).is_some()
    }
}

impl<C: Component> GetProperty for C {

}

} // verus!
