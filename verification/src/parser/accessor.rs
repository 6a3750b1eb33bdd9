//! Checked access to the properties of a component: properties that must
//! occur once, that may occur once, and the typed values that they hold.
use crate::parser::{
    get_named_properties_in, named_properties, ParserError, ParserErrorView,
};
use crate::property::{first_param, Property, PropertyView};
use crate::text::{to_upper, upper_of};
use crate::types::dateordatetime::{
    date_or_datetime_of_property, date_or_datetime_text, timezone_of, CalDateOrDateTime,
    CalDateOrDateTimeView,
};
use crate::types::duration::{duration_value, parse_duration, MAX_DURATION_SECONDS};
use crate::types::{Duration, InvalidDuration, TimezoneTable};
use vstd::prelude::*;

verus! {

/// The one property with the given name, or nothing where there is none. A
/// second property with that name is a fault.
pub open spec fn optional_once(props: Seq<PropertyView>, name: Seq<char>) -> Result<
    Option<PropertyView>,
    ParserErrorView,
> {
    let found = named_properties(props, name);
    if found.len() == 0 {
        Ok(None)
    } else if found.len() > 1 {
        Err(ParserErrorView::PropertyConflict("Multiple instances of property"@))
    } else {
        Ok(Some(found[0]))
    }
}

/// The one property with the given name. A missing property and a second
/// property with that name are faults.
pub open spec fn required_once(props: Seq<PropertyView>, name: Seq<char>) -> Result<
    PropertyView,
    ParserErrorView,
> {
    match optional_once(props, name) {
        Err(e) => Err(e),
        Ok(None) => Err(ParserErrorView::MissingProperty(name)),
        Ok(Some(p)) => Ok(p),
    }
}

/// The value of the one property with the given name. A property without a
/// value is as good as none: where the first property with the name has no
/// value, or there is no such property, the property is missing. A second
/// property with that name is a fault.
pub open spec fn required_value_once(props: Seq<PropertyView>, name: Seq<char>) -> Result<
    Seq<char>,
    ParserErrorView,
> {
    match crate::parser::property_value(props, name) {
        None => Err(ParserErrorView::MissingProperty(name)),
        Some(v) => match optional_once(props, name) {
            Err(e) => Err(e),
            Ok(_) => Ok(v),
        },
    }
}

/// See [`required_value_once`].
pub fn safe_get_value<'a>(props: &'a Vec<Property>, name: &'static str) -> (r: Result<
    &'a str,
    ParserError,
>)
    ensures
        match r {
            Ok(v) => required_value_once(props.deep_view(), name@) == Ok::<
                Seq<char>,
                ParserErrorView,
            >(v@),
            Err(e) => required_value_once(props.deep_view(), name@) == Err::<
                Seq<char>,
                ParserErrorView,
            >(e@),
        },
{
    match crate::parser::get_value_in(props, name) {
        None => Err(ParserError::MissingProperty(name)),
        Some(v) => match safe_get_optional(props, name) {
            Err(e) => Err(e),
            Ok(_) => Ok(v),
        },
    }
}

/// See [`optional_once`].
pub fn safe_get_optional<'a>(props: &'a Vec<Property>, name: &'static str) -> (r: Result<
    Option<&'a Property>,
    ParserError,
>)
    ensures
        match r {
            Ok(Some(p)) => optional_once(props.deep_view(), name@) == Ok::<
                Option<PropertyView>,
                ParserErrorView,
            >(Some(p@)),
            Ok(None) => optional_once(props.deep_view(), name@) == Ok::<
                Option<PropertyView>,
                ParserErrorView,
            >(None),
            Err(e) => optional_once(props.deep_view(), name@) == Err::<
                Option<PropertyView>,
                ParserErrorView,
            >(e@),
        },
{
    let found = get_named_properties_in(props, name);
    if found.len() == 0 {
        Ok(None)
    } else if found.len() > 1 {
        Err(ParserError::PropertyConflict("Multiple instances of property"))
    } else {
        assert(found.deep_view()[0] == found[0]@);
        Ok(Some(found[0]))
    }
}

/// See [`required_once`].
pub fn safe_get_required<'a>(props: &'a Vec<Property>, name: &'static str) -> (r: Result<
    &'a Property,
    ParserError,
>)
    ensures
        match r {
            Ok(p) => required_once(props.deep_view(), name@) == Ok::<PropertyView, ParserErrorView>(
                p@,
            ),
            Err(e) => required_once(props.deep_view(), name@) == Err::<
                PropertyView,
                ParserErrorView,
            >(e@),
        },
{
    match safe_get_optional(props, name) {
        Err(e) => Err(e),
        Ok(None) => Err(ParserError::MissingProperty(name)),
        Ok(Some(p)) => Ok(p),
    }
}

/// Whether a property with the given name is present.
pub fn has_prop(props: &Vec<Property>, name: &str) -> (r: bool)
    ensures
        r == (crate::parser::find_property(props.deep_view(), name@) is Some),
{
    crate::parser::get_property_in(props, name).is_some()
}

/// The text that a property holds: its value, or the empty text.
pub open spec fn text_of(prop: PropertyView) -> Seq<char> {
    match prop.value {
        Some(v) => v,
        None => Seq::empty(),
    }
}

/// See [`text_of`].
pub fn property_str(prop: &Property) -> (r: &str)
    ensures
        r@ == text_of(prop@),
{
    match &prop.value {
        Some(v) => v.as_str(),
        None => {
            proof {
                reveal_strlit("");
            }
            let r = "";
            assert(r@ =~= Seq::empty());
            r
        },
    }
}

/// See [`text_of`].
pub fn property_text(prop: &Property) -> (r: String)
    ensures
        r@ == text_of(prop@),
{
    match &prop.value {
        Some(v) => v.clone(),
        None => String::new(),
    }
}

/// The duration that a property holds.
pub open spec fn duration_of_property(prop: PropertyView) -> Result<int, ParserErrorView> {
    match duration_value(text_of(prop)) {
        Some(v) => if -MAX_DURATION_SECONDS <= v <= MAX_DURATION_SECONDS {
            Ok(v)
        } else {
            Err(ParserErrorView::InvalidDuration(text_of(prop)))
        },
        None => Err(ParserErrorView::InvalidDuration(text_of(prop))),
    }
}

/// See [`duration_of_property`].
pub fn parse_duration_prop(prop: &Property) -> (r: Result<Duration, ParserError>)
    ensures
        match r {
            Ok(d) => duration_of_property(prop@) == Ok::<int, ParserErrorView>(d.value()),
            Err(e) => duration_of_property(prop@) == Err::<int, ParserErrorView>(e@),
        },
{
    let text = property_text(prop);
    match parse_duration(text.as_str()) {
        Ok(d) => Ok(d),
        Err(e) => Err(ParserError::InvalidDuration(e)),
    }
}

/// The duration that the value of a property spells, and nothing for a
/// property without a value.
pub open spec fn value_duration(prop: PropertyView) -> Result<Option<int>, Seq<char>> {
    match prop.value {
        None => Ok(None),
        Some(text) => match duration_value(text) {
            Some(v) => if -MAX_DURATION_SECONDS <= v <= MAX_DURATION_SECONDS {
                Ok(Some(v))
            } else {
                Err(text)
            },
            None => Err(text),
        },
    }
}

/// See [`value_duration`].
pub fn duration_of_value(prop: &Property) -> (r: Result<Option<Duration>, InvalidDuration>)
    ensures
        match r {
            Ok(Some(d)) => value_duration(prop@) == Ok::<Option<int>, Seq<char>>(Some(d.value())),
            Ok(None) => value_duration(prop@) == Ok::<Option<int>, Seq<char>>(None),
            Err(e) => value_duration(prop@) == Err::<Option<int>, Seq<char>>(e@),
        },
{
    match &prop.value {
        None => Ok(None),
        Some(text) => match parse_duration(text.as_str()) {
            Ok(d) => Ok(Some(d)),
            Err(e) => Err(e),
        },
    }
}

/// The date or date-time that a property holds, with a fault of the value
/// lifted to a fault of the component.
pub open spec fn dated_property(
    prop: PropertyView,
    timezones: Map<Seq<char>, Option<Seq<char>>>,
    default_type: Seq<char>,
) -> Result<CalDateOrDateTimeView, ParserErrorView> {
    match date_or_datetime_of_property(prop, timezones, default_type) {
        Ok(v) => Ok(v),
        Err(e) => Err(ParserErrorView::DateTime(e)),
    }
}

/// See [`dated_property`].
pub fn parse_dated_prop(prop: &Property, timezones: &TimezoneTable, default_type: &str) -> (r: Result<
    CalDateOrDateTime,
    ParserError,
>)
    ensures
        match r {
            Ok(v) => dated_property(prop@, timezones@, default_type@) == Ok::<
                CalDateOrDateTimeView,
                ParserErrorView,
            >(v@),
            Err(e) => dated_property(prop@, timezones@, default_type@) == Err::<
                CalDateOrDateTimeView,
                ParserErrorView,
            >(e@),
        },
{
    match CalDateOrDateTime::parse_prop(prop, timezones, default_type) {
        Ok(v) => Ok(v),
        Err(e) => Err(ParserError::DateTime(e)),
    }
}

/// How far an override reaches.
#[derive(Debug, Clone, Copy, Default, PartialEq, Eq, Structural)]
pub enum RecurIdRange {
    /// The one instance that the override names.
    #[default]
    This,
    /// That instance and every later one.
    ThisAndFuture,
}

/// The range that the `RANGE` parameter of a property asks for: no parameter
/// means the one instance, `THISANDFUTURE` that instance and the later ones;
/// any other value is a fault.
pub open spec fn range_of_property(prop: PropertyView) -> Result<RecurIdRange, ParserErrorView> {
    match first_param(prop.params, "RANGE"@) {
        None => Ok(RecurIdRange::This),
        Some(r) => if r == "THISANDFUTURE"@ {
            Ok(RecurIdRange::ThisAndFuture)
        } else {
            Err(ParserErrorView::InvalidPropertyValue(r))
        },
    }
}

/// The `RECURRENCE-ID` of an override: the start of the instance that it
/// replaces, and how far it reaches.
#[derive(Debug)]
pub struct IcalRECURIDProperty(pub CalDateOrDateTime, pub RecurIdRange);

impl View for IcalRECURIDProperty {
    type V = (CalDateOrDateTimeView, RecurIdRange);

    open spec fn view(&self) -> (CalDateOrDateTimeView, RecurIdRange) {
        (self.0@, self.1)
    }
}

impl Clone for IcalRECURIDProperty {
    fn clone(&self) -> (r: Self)
        ensures
            r@ == self@,
    {
        IcalRECURIDProperty(self.0.clone(), self.1)
    }
}

/// The `RECURRENCE-ID` that a property holds under a timezone table.
pub open spec fn recurid_of_property(
    prop: PropertyView,
    timezones: Map<Seq<char>, Option<Seq<char>>>,
) -> Result<(CalDateOrDateTimeView, RecurIdRange), ParserErrorView> {
    match dated_property(prop, timezones, "DATE-TIME"@) {
        Err(e) => Err(e),
        Ok(v) => match range_of_property(prop) {
            Err(e) => Err(e),
            Ok(range) => Ok((v, range)),
        },
    }
}

/// Whether a `RECURRENCE-ID` is of the same kind as the start of its entry:
/// both dates or both date-times, and both floating or both zoned.
pub open spec fn recurid_fits(recurid: CalDateOrDateTimeView, dtstart: CalDateOrDateTimeView) -> bool {
    (recurid is Date <==> dtstart is Date) && (timezone_of(recurid) is Local <==> timezone_of(
        dtstart,
    ) is Local)
}

impl IcalRECURIDProperty {
    /// Reads a `RECURRENCE-ID`: see [`recurid_of_property`].
    pub fn parse_prop(prop: &Property, timezones: &TimezoneTable) -> (r: Result<
        IcalRECURIDProperty,
        ParserError,
    >)
        ensures
            match r {
                Ok(v) => recurid_of_property(prop@, timezones@) == Ok::<
                    (CalDateOrDateTimeView, RecurIdRange),
                    ParserErrorView,
                >(v@),
                Err(e) => recurid_of_property(prop@, timezones@) == Err::<
                    (CalDateOrDateTimeView, RecurIdRange),
                    ParserErrorView,
                >(e@),
            },
    {
        let value = match parse_dated_prop(prop, timezones, "DATE-TIME") {
            Ok(v) => v,
            Err(e) => {
                return Err(e);
            },
        };
        match prop.get_param("RANGE") {
            None => Ok(IcalRECURIDProperty(value, RecurIdRange::This)),
            Some(range) => {
                if range.eq("THISANDFUTURE") {
                    Ok(IcalRECURIDProperty(value, RecurIdRange::ThisAndFuture))
                } else {
                    Err(ParserError::InvalidPropertyValue(range.to_owned()))
                }
            },
        }
    }

    /// Checks the `RECURRENCE-ID` against the start of its entry: see
    /// [`recurid_fits`].
    pub fn validate_dtstart(&self, dtstart: &CalDateOrDateTime) -> (r: Result<(), ParserError>)
        ensures
            r is Ok <==> recurid_fits(self@.0, dtstart@),
            r matches Err(e) ==> e@ == ParserErrorView::DtstartNotMatchingRecurId,
    {
        if self.0.is_date() != dtstart.is_date() {
            return Err(ParserError::DtstartNotMatchingRecurId);
        }
        if self.0.timezone().is_local() != dtstart.timezone().is_local() {
            return Err(ParserError::DtstartNotMatchingRecurId);
        }
        Ok(())
    }

    /// The property that spells this `RECURRENCE-ID`.
    pub fn to_property(&self) -> (r: Property)
        ensures
            r@ == recurid_property(self@),
    {
        let mut params = value_type_parameters(&self.0);
        match self.1 {
            RecurIdRange::ThisAndFuture => {
                let ghost before = params;
                let item = single_param("RANGE", "THISANDFUTURE");
                let ghost pushed = item;
                params.push(item);
                proof {
                    crate::property::lemma_push_deep_view(before, params, pushed);
                    assert(params.deep_view() =~= value_type_params(self.0@) + seq![
                        ("RANGE"@, seq!["THISANDFUTURE"@]),
                    ]);
                }
            },
            RecurIdRange::This => {
                assert(params.deep_view() =~= value_type_params(self.0@) + Seq::empty());
            },
        }
        let name = "RECURRENCE-ID";
        Property { name: name.to_owned(), params, value: Some(self.0.format()) }
    }
}

/// A parameter with one value.
pub fn single_param(key: &str, value: &str) -> (r: (String, Vec<String>))
    ensures
        r.deep_view() == (key@, seq![value@]),
{
    let mut values: Vec<String> = Vec::new();
    values.push(value.to_owned());
    assert(values.deep_view() =~= seq![value@]);
    (key.to_owned(), values)
}

/// See [`value_type_params`].
pub fn value_type_parameters(value: &CalDateOrDateTime) -> (r: Vec<(String, Vec<String>)>)
    ensures
        r.deep_view() == value_type_params(value@),
{
    let mut params: Vec<(String, Vec<String>)> = Vec::new();
    assert(params.deep_view() =~= Seq::empty());
    if value.is_date() {
        let ghost before = params;
        let item = single_param("VALUE", "DATE");
        let ghost pushed = item;
        params.push(item);
        proof {
            crate::property::lemma_push_deep_view(before, params, pushed);
            assert(params.deep_view() =~= value_type_params(value@));
        }
    }
    params
}

/// The parameters that tell the value type of a date: none for a date-time.
pub open spec fn value_type_params(v: CalDateOrDateTimeView) -> Seq<(Seq<char>, Seq<Seq<char>>)> {
    if v is Date {
        seq![("VALUE"@, seq!["DATE"@])]
    } else {
        Seq::empty()
    }
}

/// The place of the first parameter with the given key, or the number of
/// parameters where there is none.
pub open spec fn index_of_key(params: Seq<(Seq<char>, Seq<Seq<char>>)>, key: Seq<char>) -> int
    decreases params.len(),
{
    if params.len() == 0 {
        0
    } else if params[0].0 == key {
        0
    } else {
        1 + index_of_key(params.drop_first(), key)
    }
}

/// The parameters with the one value `value` for the key `key`: in the place
/// of the first parameter with that key, or at the end where there is none.
pub open spec fn with_param_value(
    params: Seq<(Seq<char>, Seq<Seq<char>>)>,
    key: Seq<char>,
    value: Seq<char>,
) -> Seq<(Seq<char>, Seq<Seq<char>>)> {
    let at = index_of_key(params, key);
    if at < params.len() {
        params.update(at, (key, seq![value]))
    } else {
        params.push((key, seq![value]))
    }
}

/// The parameters of a property whose date or date-time was put in the
/// timezone in which values are compared. The `TZID` parameters go, every
/// other parameter stays in its place, and a date has the `VALUE` parameter
/// `DATE`.
pub open spec fn normal_params(
    params: Seq<(Seq<char>, Seq<Seq<char>>)>,
    v: CalDateOrDateTimeView,
) -> Seq<(Seq<char>, Seq<Seq<char>>)> {
    let kept = params.filter(|p: (Seq<char>, Seq<Seq<char>>)| p.0 != "TZID"@);
    if v is Date {
        with_param_value(kept, "VALUE"@, "DATE"@)
    } else {
        kept
    }
}

/// See [`normal_params`].
pub fn normal_parameters(params: &Vec<(String, Vec<String>)>, value: &CalDateOrDateTime) -> (r: Vec<
    (String, Vec<String>),
>)
    ensures
        r.deep_view() == normal_params(params.deep_view(), value@),
{
    let ghost all = params.deep_view();
    let ghost keep = |p: (Seq<char>, Seq<Seq<char>>)| p.0 != "TZID"@;
    let mut r: Vec<(String, Vec<String>)> = Vec::new();
    let mut i: usize = 0;
    assert(all.take(0) =~= Seq::empty());
    assert(r.deep_view() =~= all.take(0).filter(keep));
    while i < params.len()
        invariant
            i <= params.len(),
            all == params.deep_view(),
            keep == (|p: (Seq<char>, Seq<Seq<char>>)| p.0 != "TZID"@),
            r.deep_view() == all.take(i as int).filter(keep),
        decreases params.len() - i,
    {
        proof {
            assert(all.take(i + 1) =~= all.take(i as int).push(all[i as int]));
            lemma_filter_push_param(all.take(i as int), all[i as int], keep);
            assert(all[i as int] == (params[i as int].0@, params[i as int].1.deep_view()));
        }
        if !params[i].0.as_str().eq("TZID") {
            let ghost before = r;
            let item = (params[i].0.clone(), crate::property::duplicate_vec(&params[i].1));
            let ghost pushed = item;
            r.push(item);
            proof {
                crate::property::lemma_push_deep_view(before, r, pushed);
            }
        }
        i += 1;
    }
    assert(all.take(params.len() as int) =~= all);
    if value.is_date() {
        let ghost kept = r.deep_view();
        let mut at: usize = 0;
        assert(kept.skip(0) =~= kept);
        while at < r.len() && !r[at].0.as_str().eq("VALUE")
            invariant
                at <= r.len(),
                kept == r.deep_view(),
                at + index_of_key(kept.skip(at as int), "VALUE"@) == index_of_key(kept, "VALUE"@),
            decreases r.len() - at,
        {
            assert(kept.skip(at as int)[0] == kept[at as int]);
            assert(kept[at as int] == (r[at as int].0@, r[at as int].1.deep_view()));
            assert(kept.skip(at as int).drop_first() =~= kept.skip(at + 1));
            at += 1;
        }
        proof {
            if at < r.len() {
                assert(kept.skip(at as int)[0] == kept[at as int]);
                assert(kept[at as int] == (r[at as int].0@, r[at as int].1.deep_view()));
            } else {
                assert(kept.skip(at as int) =~= Seq::empty());
            }
        }
        let item = single_param("VALUE", "DATE");
        if at < r.len() {
            r.set(at, item);
            assert(r.deep_view() =~= kept.update(at as int, ("VALUE"@, seq!["DATE"@])));
        } else {
            let ghost before = r;
            let ghost pushed = item;
            r.push(item);
            proof {
                crate::property::lemma_push_deep_view(before, r, pushed);
            }
        }
    }
    r
}

proof fn lemma_filter_push_param(
    s: Seq<(Seq<char>, Seq<Seq<char>>)>,
    x: (Seq<char>, Seq<Seq<char>>),
    keep: spec_fn((Seq<char>, Seq<Seq<char>>)) -> bool,
)
    ensures
        s.push(x).filter(keep) == if keep(x) {
            s.filter(keep).push(x)
        } else {
            s.filter(keep)
        },
{
    reveal(Seq::filter);
    assert(s.push(x).drop_last() =~= s);
}

/// The property that spells a `RECURRENCE-ID`.
pub open spec fn recurid_property(v: (CalDateOrDateTimeView, RecurIdRange)) -> PropertyView {
    PropertyView {
        name: "RECURRENCE-ID"@,
        params: value_type_params(v.0) + (if v.1 == RecurIdRange::ThisAndFuture {
            seq![("RANGE"@, seq!["THISANDFUTURE"@])]
        } else {
            Seq::empty()
        }),
        value: Some(date_or_datetime_text(v.0)),
    }
}

/// The property with the given name that spells a date or date-time, with a
/// `VALUE` parameter where it is a date.
pub open spec fn dated_property_of(name: Seq<char>, v: CalDateOrDateTimeView) -> PropertyView {
    PropertyView { name, params: value_type_params(v), value: Some(date_or_datetime_text(v)) }
}

/// See [`dated_property_of`].
pub fn make_dated_property(name: &str, value: &CalDateOrDateTime) -> (r: Property)
    ensures
        r@ == dated_property_of(name@, value@),
{
    Property {
        name: name.to_owned(),
        params: value_type_parameters(value),
        value: Some(value.format()),
    }
}

/// The calendar scale of a calendar.
#[derive(Debug, Clone, Copy, PartialEq, Eq, Structural)]
pub enum Calscale {
    Gregorian,
}

/// The calendar scale that a property holds: its value in upper case must be
/// `GREGORIAN`.
pub open spec fn calscale_of_property(prop: PropertyView) -> Result<Calscale, ParserErrorView> {
    if upper_of(text_of(prop)) == "GREGORIAN"@ {
        Ok(Calscale::Gregorian)
    } else {
        Err(ParserErrorView::InvalidCalscale)
    }
}

impl Calscale {
    /// Reads a calendar scale: see [`calscale_of_property`].
    pub fn parse_prop(prop: &Property) -> (r: Result<Calscale, ParserError>)
        ensures
            match r {
                Ok(c) => calscale_of_property(prop@) == Ok::<Calscale, ParserErrorView>(c),
                Err(e) => calscale_of_property(prop@) == Err::<Calscale, ParserErrorView>(e@),
            },
    {
        let text = property_text(prop);
        if to_upper(text.as_str()).as_str().eq("GREGORIAN") {
            Ok(Calscale::Gregorian)
        } else {
            Err(ParserError::InvalidCalscale)
        }
    }

    /// The text of the calendar scale.
    pub fn value(&self) -> (r: String)
        ensures
            r@ == "GREGORIAN"@,
    {
        let text = "GREGORIAN";
        text.to_owned()
    }
}

/// The version of the calendar format.
#[derive(Debug, Clone, Copy, PartialEq, Eq, Structural)]
pub enum IcalVersion {
    Version1_0,
    Version2_0,
}

/// The version that a property holds: `1.0` or `2.0`.
pub open spec fn version_of_property(prop: PropertyView) -> Result<IcalVersion, ParserErrorView> {
    if upper_of(text_of(prop)) == "1.0"@ {
        Ok(IcalVersion::Version1_0)
    } else if upper_of(text_of(prop)) == "2.0"@ {
        Ok(IcalVersion::Version2_0)
    } else {
        Err(ParserErrorView::InvalidVersion)
    }
}

impl IcalVersion {
    /// Reads a version: see [`version_of_property`].
    pub fn parse_prop(prop: &Property) -> (r: Result<IcalVersion, ParserError>)
        ensures
            match r {
                Ok(v) => version_of_property(prop@) == Ok::<IcalVersion, ParserErrorView>(v),
                Err(e) => version_of_property(prop@) == Err::<IcalVersion, ParserErrorView>(e@),
            },
    {
        let text = property_text(prop);
        let upper = to_upper(text.as_str());
        if upper.as_str().eq("1.0") {
            Ok(IcalVersion::Version1_0)
        } else if upper.as_str().eq("2.0") {
            Ok(IcalVersion::Version2_0)
        } else {
            Err(ParserError::InvalidVersion)
        }
    }

    /// The text of the version.
    pub fn value(&self) -> (r: String)
        ensures
            r@ == match self {
                IcalVersion::Version1_0 => "1.0"@,
                IcalVersion::Version2_0 => "2.0"@,
            },
    {
        match self {
            IcalVersion::Version1_0 => {
                let text = "1.0";
                text.to_owned()
            },
            IcalVersion::Version2_0 => {
                let text = "2.0";
                text.to_owned()
            },
        }
    }
}

/// The unique identifier of a component.
#[derive(Debug, PartialEq, Eq)]
pub struct IcalUIDProperty(pub String);

/// The start of an entry.
#[derive(Debug)]
pub struct IcalDTSTARTProperty(pub CalDateOrDateTime);

impl IcalDTSTARTProperty {
    /// The start in the timezone in which values are compared.
    pub fn utc_or_local(self) -> (r: IcalDTSTARTProperty)
        ensures
            r.0@ == crate::types::dateordatetime::normal_value(self.0@),
    {
        IcalDTSTARTProperty(self.0.utc_or_local())
    }
}

/// Checks that the `RECURRENCE-ID` of a component, if it has one, is of the
/// same kind as its `DTSTART`, if it has one. Each of the two may occur once.
pub open spec fn recurid_checked(
    props: Seq<PropertyView>,
    timezones: Map<Seq<char>, Option<Seq<char>>>,
) -> Result<(), ParserErrorView> {
    match optional_once(props, "DTSTART"@) {
        Err(e) => Err(e),
        Ok(start) => match optional_once(props, "RECURRENCE-ID"@) {
            Err(e) => Err(e),
            Ok(None) => Ok(()),
            Ok(Some(rp)) => match recurid_of_property(rp, timezones) {
                Err(e) => Err(e),
                Ok(recurid) => match start {
                    None => Ok(()),
                    Some(sp) => match dated_property(sp, timezones, "DATE-TIME"@) {
                        Err(e) => Err(e),
                        Ok(dtstart) => if recurid_fits(recurid.0, dtstart) {
                            Ok(())
                        } else {
                            Err(ParserErrorView::DtstartNotMatchingRecurId)
                        },
                    },
                },
            },
        },
    }
}

/// See [`recurid_checked`].
pub fn check_recurid(props: &Vec<Property>, timezones: &TimezoneTable) -> (r: Result<
    (),
    ParserError,
>)
    ensures
        match r {
            Ok(_) => recurid_checked(props.deep_view(), timezones@) == Ok::<(), ParserErrorView>(()),
            Err(e) => recurid_checked(props.deep_view(), timezones@) == Err::<(), ParserErrorView>(
                e@,
            ),
        },
{
    let start = match safe_get_optional(props, "DTSTART") {
        Ok(s) => s,
        Err(e) => {
            return Err(e);
        },
    };
    let rp = match safe_get_optional(props, "RECURRENCE-ID") {
        Ok(None) => {
            return Ok(());
        },
        Ok(Some(p)) => p,
        Err(e) => {
            return Err(e);
        },
    };
    let recurid = match IcalRECURIDProperty::parse_prop(rp, timezones) {
        Ok(r) => r,
        Err(e) => {
            return Err(e);
        },
    };
    match start {
        None => Ok(()),
        Some(sp) => match parse_dated_prop(sp, timezones, "DATE-TIME") {
            Err(e) => Err(e),
            Ok(dtstart) => recurid.validate_dtstart(&dtstart),
        },
    }
}

} // verus!
