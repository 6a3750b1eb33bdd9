//! The `RDATE` property: the dates, date-times and periods at which an
//! entry recurs besides those of its rules.
use crate::generator::property::join;
use crate::parser::accessor::single_param;
use crate::parser::ical::component::event::rules::{list_values, listed_values};
use crate::parser::{ParserError, ParserErrorView};
use crate::property::{first_param, lemma_push_deep_view, Property, PropertyView};
use crate::types::period::{
    date_or_period_of_property, date_or_period_text, date_or_period_type, normal_date_or_period,
    DateOrDateTimeOrPeriod, DateOrDateTimeOrPeriodView,
};
use crate::types::TimezoneTable;
use vstd::prelude::*;

verus! {

/// What an `RDATE` property holds: its values, and the timezone identifier
/// that it names.
#[derive(Debug)]
pub struct IcalRDATEProperty(pub Vec<DateOrDateTimeOrPeriod>, pub Option<String>);

impl View for IcalRDATEProperty {
    type V = (Seq<DateOrDateTimeOrPeriodView>, Option<Seq<char>>);

    open spec fn view(&self) -> (Seq<DateOrDateTimeOrPeriodView>, Option<Seq<char>>) {
        (
            self.0.deep_view(),
            match self.1 {
                Some(id) => Some(id@),
                None => None,
            },
        )
    }
}

/// The values that the listed values `elements` of a property stand for,
/// behind the values `acc`. Each is read as the value of the property alone;
/// the first that is no value is the fault.
pub open spec fn rdate_elements(
    prop: PropertyView,
    elements: Seq<Seq<char>>,
    timezones: Map<Seq<char>, Option<Seq<char>>>,
    acc: Seq<DateOrDateTimeOrPeriodView>,
) -> Result<Seq<DateOrDateTimeOrPeriodView>, ParserErrorView>
    decreases elements.len(),
{
    if elements.len() == 0 {
        Ok(acc)
    } else {
        let single = PropertyView { name: prop.name, params: prop.params, value: Some(elements[0]) };
        match date_or_period_of_property(single, timezones, "DATE-TIME"@) {
            Err(e) => Err(ParserErrorView::DateTime(e)),
            Ok(v) => rdate_elements(prop, elements.drop_first(), timezones, acc.push(v)),
        }
    }
}

/// What an `RDATE` property holds under a timezone table: the values that
/// it lists, each a date-time unless its `VALUE` parameter says otherwise,
/// and its `TZID` parameter.
pub open spec fn rdate_of_property(
    prop: PropertyView,
    timezones: Map<Seq<char>, Option<Seq<char>>>,
) -> Result<(Seq<DateOrDateTimeOrPeriodView>, Option<Seq<char>>), ParserErrorView> {
    match rdate_elements(prop, listed_values(prop), timezones, Seq::empty()) {
        Err(e) => Err(e),
        Ok(values) => Ok((values, first_param(prop.params, "TZID"@))),
    }
}

/// The value type of a list of values: that of the first, and `DATE-TIME`
/// for the empty list.
pub open spec fn rdate_type(values: Seq<DateOrDateTimeOrPeriodView>) -> Seq<char> {
    if values.len() > 0 {
        date_or_period_type(values[0])
    } else {
        "DATE-TIME"@
    }
}

/// The property that spells an `RDATE`: a `VALUE` parameter unless the values
/// are date-times, a `TZID` parameter where a timezone identifier is named,
/// and the texts of the values with commas between them.
pub open spec fn rdate_property(v: (Seq<DateOrDateTimeOrPeriodView>, Option<Seq<char>>)) -> PropertyView {
    PropertyView {
        name: "RDATE"@,
        params: (if rdate_type(v.0) != "DATE-TIME"@ {
            seq![("VALUE"@, seq![rdate_type(v.0)])]
        } else {
            Seq::empty()
        }) + (match v.1 {
            Some(id) => seq![("TZID"@, seq![id])],
            None => Seq::empty(),
        }),
        value: Some(
            join(v.0.map_values(|x: DateOrDateTimeOrPeriodView| date_or_period_text(x)), ','),
        ),
    }
}

fn push_param(params: &mut Vec<(String, Vec<String>)>, key: &str, value: &str)
    ensures
        final(params).deep_view() == old(params).deep_view().push((key@, seq![value@])),
{
    let ghost before = *params;
    let item = single_param(key, value);
    let ghost pushed = item;
    params.push(item);
    proof {
        lemma_push_deep_view(before, *params, pushed);
    }
}

impl IcalRDATEProperty {
    /// Reads an `RDATE` property: see [`rdate_of_property`].
    pub fn parse_prop(prop: &Property, timezones: &TimezoneTable) -> (r: Result<
        IcalRDATEProperty,
        ParserError,
    >)
        ensures
            match r {
                Ok(v) => rdate_of_property(prop@, timezones@) == Ok::<
                    (Seq<DateOrDateTimeOrPeriodView>, Option<Seq<char>>),
                    ParserErrorView,
                >(v@),
                Err(e) => rdate_of_property(prop@, timezones@) == Err::<
                    (Seq<DateOrDateTimeOrPeriodView>, Option<Seq<char>>),
                    ParserErrorView,
                >(e@),
            },
    {
        let elements = list_values(prop);
        let ghost listed = elements.deep_view();
        let mut out: Vec<DateOrDateTimeOrPeriod> = Vec::new();
        let mut j: usize = 0;
        assert(out.deep_view() =~= Seq::empty());
        assert(listed.skip(0) =~= listed);
        while j < elements.len()
            invariant
                j <= elements.len(),
                listed == elements.deep_view(),
                listed == listed_values(prop@),
                rdate_elements(prop@, listed.skip(j as int), timezones@, out.deep_view())
                    == rdate_elements(prop@, listed, timezones@, Seq::empty()),
            decreases elements.len() - j,
        {
            let ghost tail = listed.skip(j as int);
            assert(tail[0] == elements[j as int]@);
            assert(tail.drop_first() =~= listed.skip(j + 1));
            let copy = prop.clone();
            let single = Property {
                name: copy.name,
                params: copy.params,
                value: Some(elements[j].clone()),
            };
            match DateOrDateTimeOrPeriod::parse_prop(&single, timezones, "DATE-TIME") {
                Err(e) => {
                    return Err(ParserError::DateTime(e));
                },
                Ok(v) => {
                    let ghost before = out;
                    let ghost pushed = v;
                    out.push(v);
                    proof {
                        lemma_push_deep_view(before, out, pushed);
                    }
                },
            }
            j += 1;
        }
        let tzid = match prop.get_tzid() {
            Some(id) => Some(id.to_owned()),
            None => None,
        };
        Ok(IcalRDATEProperty(out, tzid))
    }

    /// The property that spells the value: see [`rdate_property`].
    pub fn to_property(&self) -> (r: Property)
        ensures
            r@ == rdate_property(self@),
    {
        let mut params: Vec<(String, Vec<String>)> = Vec::new();
        assert(params.deep_view() =~= Seq::empty());
        let value_type = if self.0.len() > 0 {
            assert(self.0.deep_view()[0] == self.0[0]@);
            self.0[0].value_type()
        } else {
            "DATE-TIME"
        };
        if !value_type.eq("DATE-TIME") {
            push_param(&mut params, "VALUE", value_type);
        }
        match &self.1 {
            Some(id) => {
                push_param(&mut params, "TZID", id.as_str());
            },
            None => {},
        }
        assert(params.deep_view() =~= rdate_property(self@).params);
        let ghost texts = self.0.deep_view().map_values(
            |x: DateOrDateTimeOrPeriodView| date_or_period_text(x),
        );
        let mut value = String::new();
        let mut i: usize = 0;
        assert(texts.take(0) =~= Seq::empty());
        while i < self.0.len()
            invariant
                i <= self.0.len(),
                texts == self.0.deep_view().map_values(
                    |x: DateOrDateTimeOrPeriodView| date_or_period_text(x),
                ),
                value@ == join(texts.take(i as int), ','),
            decreases self.0.len() - i,
        {
            let ghost before = value@;
            if i > 0 {
                value.push(',');
            }
            let text = self.0[i].format();
            value.append(text.as_str());
            proof {
                let next = texts.take(i + 1);
                assert(next.drop_last() =~= texts.take(i as int));
                assert(self.0.deep_view()[i as int] == self.0[i as int]@);
                assert(next.last() == text@);
                if i == 0 {
                    assert(before =~= Seq::empty());
                    assert(value@ =~= text@);
                } else {
                    assert(value@ =~= before.push(',') + text@);
                }
            }
            i += 1;
        }
        assert(texts.take(self.0.len() as int) =~= texts);
        let name = "RDATE";
        Property { name: name.to_owned(), params, value: Some(value) }
    }

    /// The values in the timezone in which values are compared; the timezone
    /// identifier is dropped.
    pub fn utc_or_local(&self) -> (r: IcalRDATEProperty)
        ensures
            r@ == (
                self@.0.map_values(|x: DateOrDateTimeOrPeriodView| normal_date_or_period(x)),
                None::<Seq<char>>,
            ),
    {
        let ghost all = self.0.deep_view().map_values(
            |x: DateOrDateTimeOrPeriodView| normal_date_or_period(x),
        );
        let mut out: Vec<DateOrDateTimeOrPeriod> = Vec::new();
        let mut i: usize = 0;
        assert(out.deep_view() =~= all.take(0));
        while i < self.0.len()
            invariant
                i <= self.0.len(),
                all == self.0.deep_view().map_values(
                    |x: DateOrDateTimeOrPeriodView| normal_date_or_period(x),
                ),
                out.deep_view() == all.take(i as int),
            decreases self.0.len() - i,
        {
            let item = self.0[i].utc_or_local();
            let ghost before = out;
            let ghost pushed = item;
            out.push(item);
            proof {
                lemma_push_deep_view(before, out, pushed);
                assert(self.0.deep_view()[i as int] == self.0[i as int]@);
                assert(out.deep_view() =~= all.take(i + 1));
            }
            i += 1;
        }
        assert(all.take(self.0.len() as int) =~= all);
        IcalRDATEProperty(out, None)
    }
}

} // verus!
