//! Recurrence rules and lists of dates: what an entry needs to say when it
//! recurs.
use crate::parser::accessor::{dated_property, parse_dated_prop, text_of};
use crate::parser::{ParserError, ParserErrorView};
use crate::property::{find_char, lemma_push_deep_view, Property, PropertyView};
use crate::text::{is_ascii_text, string_of_range, to_chars};
use crate::types::dateordatetime::{CalDateOrDateTime, CalDateOrDateTimeView};
use crate::types::timezone::near_range;
use crate::types::period::{date_or_period_of_property, start_of, DateOrDateTimeOrPeriod};
use crate::types::TimezoneTable;
use chrono::TimeZone;
use rrule::{RRule, RRuleSet, Unvalidated};
use vstd::prelude::*;

verus! {

/// The most instants that one expansion gives.
pub const MAX_INSTANCES: u16 = 2048;

/// Whether `rrule` reads the ASCII text `text` as a recurrence rule and
/// accepts it for an entry that starts at the instant `start`: whether
/// `RRule::from_str` and then `RRule::validate` succeed.
pub uninterp spec fn rule_fits(text: Seq<char>, start: i64) -> bool;

/// Whether `text` is a rule for an entry that starts at the instant `start`:
/// a text of ASCII characters that `rrule` reads as a rule and accepts for
/// that start. A text with any other character is no rule.
pub open spec fn accepted_rule(text: Seq<char>, start: i64) -> bool {
    is_ascii_text(text) && rule_fits(text, start)
}

/// The instants that `rrule` finds for a recurrence set: what
/// `RRuleSet::all` gives, with a limit of `limit` instants, for the set that
/// starts at `start`, holds the given rules, dates, exclusion rules and
/// excluded dates, and is bounded by `after` and `before`. Instants are
/// seconds since 1970.
pub uninterp spec fn recurrence_instants(
    start: i64,
    rrules: Seq<Seq<char>>,
    rdates: Seq<i64>,
    exrules: Seq<Seq<char>>,
    exdates: Seq<i64>,
    after: i64,
    before: i64,
    limit: u16,
) -> Seq<i64>;

/// Calls `RRule::from_str` and, on the rule it gives, `RRule::validate` with
/// the start in UTC. The text must be ASCII: `rrule` cuts the text of a
/// weekday by bytes. The contract only names the result.
#[verifier::external_body]
pub(crate) fn rule_is_valid(text: &str, start: i64) -> (r: bool)
    requires
        is_ascii_text(text@),
        near_range(start as int),
    ensures
        r == rule_fits(text@, start),
{
    let at = rrule::Tz::UTC.timestamp_opt(start, 0).unwrap();
    text.parse::<RRule<Unvalidated>>().ok().and_then(
        |rule| rule.validate(at).ok(),
    ).is_some()
}

/// Builds an `RRuleSet` from the rules and dates, bounds it with
/// `RRuleSet::after` and `RRuleSet::before`, and calls `RRuleSet::all` with
/// the limit `limit`, which gives at most that many instants. Every rule is
/// ASCII and was accepted for the start before, and every instant is one
/// that `chrono` can hold, so no step fails. Beyond the count the contract
/// only names the result.
#[verifier::external_body]
pub(crate) fn rrule_instants(
    start: i64,
    rrules: &Vec<String>,
    rdates: &Vec<i64>,
    exrules: &Vec<String>,
    exdates: &Vec<i64>,
    after: i64,
    before: i64,
    limit: u16,
) -> (r: Vec<i64>)
    requires
        near_range(start as int),
        near_range(after as int),
        near_range(before as int),
        forall|i: int| 0 <= i < rrules.len() ==> accepted_rule(#[trigger] rrules[i]@, start),
        forall|i: int| 0 <= i < exrules.len() ==> accepted_rule(#[trigger] exrules[i]@, start),
        forall|i: int| 0 <= i < rdates.len() ==> near_range(#[trigger] rdates[i] as int),
        forall|i: int| 0 <= i < exdates.len() ==> near_range(#[trigger] exdates[i] as int),
    ensures
        r@ == recurrence_instants(
            start,
            rrules.deep_view(),
            rdates@,
            exrules.deep_view(),
            exdates@,
            after,
            before,
            limit,
        ),
        r.len() <= limit,
{
    let at = |t: &i64| rrule::Tz::UTC.timestamp_opt(*t, 0).unwrap();
    let rule = |s: &String| s.parse::<RRule<Unvalidated>>().unwrap().validate(at(&start)).unwrap();
    RRuleSet::new(at(&start))
        .set_rrules(rrules.iter().map(rule).collect())
        .set_rdates(rdates.iter().map(at).collect())
        .set_exrules(exrules.iter().map(rule).collect())
        .set_exdates(exdates.iter().map(at).collect())
        .after(at(&after))
        .before(at(&before))
        .all(limit)
        .dates
        .iter()
        .map(|d| d.timestamp())
        .collect()
}

/// `s` without the commas at its end.
pub open spec fn trim_commas(s: Seq<char>) -> Seq<char>
    decreases s.len(),
{
    if s.len() > 0 && s[s.len() - 1] == ',' {
        trim_commas(s.drop_last())
    } else {
        s
    }
}

/// The parts of `s` between its commas, from `from` on, behind the parts
/// `acc`. A text without a comma is one part, and so is the empty text.
pub open spec fn split_commas(s: Seq<char>, from: int, acc: Seq<Seq<char>>) -> Seq<Seq<char>>
    decreases s.len() - from,
{
    let comma = find_char(s, from, ',');
    if from < 0 || comma >= s.len() || comma < from {
        acc.push(s.subrange(from, s.len() as int))
    } else {
        split_commas(s, comma + 1, acc.push(s.subrange(from, comma)))
    }
}

/// The values that a property lists: its text without the commas at its end,
/// cut at the commas.
pub open spec fn listed_values(prop: PropertyView) -> Seq<Seq<char>> {
    split_commas(trim_commas(text_of(prop)), 0, Seq::empty())
}

/// See [`listed_values`].
pub fn list_values(prop: &Property) -> (r: Vec<String>)
    ensures
        r.deep_view() == listed_values(prop@),
{
    let text = crate::parser::accessor::property_str(prop);
    let all = to_chars(text);
    let mut end: usize = all.len();
    assert(all@.take(end as int) =~= all@);
    while end > 0 && all[end - 1] == ','
        invariant
            end <= all.len(),
            trim_commas(all@.take(end as int)) == trim_commas(all@),
        decreases end,
    {
        assert(all@.take(end as int).drop_last() =~= all@.take(end - 1));
        end -= 1;
    }
    let ghost s = all@.take(end as int);
    assert(trim_commas(s) == s);
    let mut out: Vec<String> = Vec::new();
    let mut from: usize = 0;
    assert(out.deep_view() =~= Seq::empty());
    loop
        invariant
            end <= all.len(),
            from <= end,
            s == all@.take(end as int),
            split_commas(s, from as int, out.deep_view()) == split_commas(s, 0, Seq::empty()),
            split_commas(s, 0, Seq::empty()) == listed_values(prop@),
        decreases end - from,
    {
        let mut comma: usize = from;
        while comma < end && all[comma] != ','
            invariant
                from <= comma <= end <= all.len(),
                s == all@.take(end as int),
                find_char(s, comma as int, ',') == find_char(s, from as int, ','),
            decreases end - comma,
        {
            assert(s[comma as int] == all@[comma as int]);
            comma += 1;
        }
        let ghost before = out;
        let part = string_of_range(&all, from, comma);
        let ghost pushed = part;
        out.push(part);
        proof {
            lemma_push_deep_view(before, out, pushed);
            assert(all@.subrange(from as int, comma as int) =~= s.subrange(
                from as int,
                comma as int,
            ));
            if comma < end {
                assert(s[comma as int] == all@[comma as int]);
            }
        }
        if comma >= end {
            return out;
        }
        from = comma + 1;
    }
}

/// The date that one listed value of a property stands for. Where `periods`
/// is set, the value may be a period, which stands for its start.
pub open spec fn element_date(
    prop: PropertyView,
    element: Seq<char>,
    timezones: Map<Seq<char>, Option<Seq<char>>>,
    periods: bool,
) -> Result<CalDateOrDateTimeView, ParserErrorView> {
    let single = PropertyView { name: prop.name, params: prop.params, value: Some(element) };
    if periods {
        match date_or_period_of_property(single, timezones, "DATE-TIME"@) {
            Ok(v) => Ok(start_of(v)),
            Err(e) => Err(ParserErrorView::DateTime(e)),
        }
    } else {
        dated_property(single, timezones, "DATE-TIME"@)
    }
}

/// The dates that the listed values `elements` of a property stand for,
/// behind the dates `acc`; the first value that is no date is a fault.
pub open spec fn dates_of_elements(
    prop: PropertyView,
    elements: Seq<Seq<char>>,
    timezones: Map<Seq<char>, Option<Seq<char>>>,
    periods: bool,
    acc: Seq<CalDateOrDateTimeView>,
) -> Result<Seq<CalDateOrDateTimeView>, ParserErrorView>
    decreases elements.len(),
{
    if elements.len() == 0 {
        Ok(acc)
    } else {
        match element_date(prop, elements[0], timezones, periods) {
            Err(e) => Err(e),
            Ok(d) => dates_of_elements(
                prop,
                elements.drop_first(),
                timezones,
                periods,
                acc.push(d),
            ),
        }
    }
}

/// The dates that the properties list, one property after the other, behind
/// the dates `acc`.
pub open spec fn dates_of_properties(
    props: Seq<PropertyView>,
    timezones: Map<Seq<char>, Option<Seq<char>>>,
    periods: bool,
    acc: Seq<CalDateOrDateTimeView>,
) -> Result<Seq<CalDateOrDateTimeView>, ParserErrorView>
    decreases props.len(),
{
    if props.len() == 0 {
        Ok(acc)
    } else {
        match dates_of_elements(props[0], listed_values(props[0]), timezones, periods, acc) {
            Err(e) => Err(e),
            Ok(dates) => dates_of_properties(props.drop_first(), timezones, periods, dates),
        }
    }
}

/// The outcome of reading a list of dates, as a plain value.
pub open spec fn dates_outcome(r: Result<Vec<CalDateOrDateTime>, ParserError>) -> Result<
    Seq<CalDateOrDateTimeView>,
    ParserErrorView,
> {
    match r {
        Ok(v) => Ok(v.deep_view()),
        Err(e) => Err(e@),
    }
}

fn parse_element(prop: &Property, element: String, timezones: &TimezoneTable, periods: bool) -> (r:
    Result<CalDateOrDateTime, ParserError>)
    ensures
        match r {
            Ok(v) => element_date(prop@, element@, timezones@, periods) == Ok::<
                CalDateOrDateTimeView,
                ParserErrorView,
            >(v@),
            Err(e) => element_date(prop@, element@, timezones@, periods) == Err::<
                CalDateOrDateTimeView,
                ParserErrorView,
            >(e@),
        },
{
    let copy = prop.clone();
    let single = Property { name: copy.name, params: copy.params, value: Some(element) };
    if periods {
        match DateOrDateTimeOrPeriod::parse_prop(&single, timezones, "DATE-TIME") {
            Ok(v) => Ok(v.start()),
            Err(e) => Err(ParserError::DateTime(e)),
        }
    } else {
        parse_dated_prop(&single, timezones, "DATE-TIME")
    }
}

/// Reads the dates that the properties list: see [`dates_of_properties`].
pub fn parse_date_lists(props: &Vec<&Property>, timezones: &TimezoneTable, periods: bool) -> (r:
    Result<Vec<CalDateOrDateTime>, ParserError>)
    ensures
        dates_outcome(r) == dates_of_properties(
            props.deep_view(),
            timezones@,
            periods,
            Seq::empty(),
        ),
{
    let ghost all = props.deep_view();
    let mut out: Vec<CalDateOrDateTime> = Vec::new();
    let mut i: usize = 0;
    assert(out.deep_view() =~= Seq::empty());
    assert(all.skip(0) =~= all);
    while i < props.len()
        invariant
            i <= props.len(),
            all == props.deep_view(),
            dates_of_properties(all.skip(i as int), timezones@, periods, out.deep_view())
                == dates_of_properties(all, timezones@, periods, Seq::empty()),
        decreases props.len() - i,
    {
        let prop = props[i];
        let ghost rest = all.skip(i as int);
        assert(rest[0] == prop@);
        assert(rest.drop_first() =~= all.skip(i + 1));
        let mut elements = list_values(prop);
        let ghost listed = elements.deep_view();
        let ghost start = out.deep_view();
        let mut j: usize = 0;
        assert(listed.skip(0) =~= listed);
        while j < elements.len()
            invariant
                j <= elements.len(),
                listed == elements.deep_view(),
                listed == listed_values(prop@),
                i < props.len(),
                all == props.deep_view(),
                all.skip(i as int)[0] == prop@,
                all.skip(i as int).drop_first() == all.skip(i + 1),
                dates_of_properties(all.skip(i as int), timezones@, periods, start)
                    == dates_of_properties(all, timezones@, periods, Seq::empty()),
                dates_of_elements(prop@, listed.skip(j as int), timezones@, periods, out.deep_view())
                    == dates_of_elements(prop@, listed, timezones@, periods, start),
            decreases elements.len() - j,
        {
            let ghost tail = listed.skip(j as int);
            assert(tail[0] == elements[j as int]@);
            assert(tail.drop_first() =~= listed.skip(j + 1));
            let element = elements[j].clone();
            match parse_element(prop, element, timezones, periods) {
                Err(e) => {
                    return Err(e);
                },
                Ok(d) => {
                    let ghost before = out;
                    let ghost pushed = d;
                    out.push(d);
                    proof {
                        lemma_push_deep_view(before, out, pushed);
                    }
                },
            }
            j += 1;
        }
        i += 1;
    }
    Ok(out)
}

/// The rules that the properties hold, behind the rules `acc`: the text of
/// each property, which must be a rule for the start, see
/// [`accepted_rule`]. Without a start no text is a rule.
pub open spec fn rules_of_properties(
    props: Seq<PropertyView>,
    start: Option<i64>,
    acc: Seq<Seq<char>>,
) -> Result<Seq<Seq<char>>, ParserErrorView>
    decreases props.len(),
{
    if props.len() == 0 {
        Ok(acc)
    } else {
        match start {
            None => Err(ParserErrorView::MissingProperty("DTSTART"@)),
            Some(at) => if accepted_rule(text_of(props[0]), at) {
                rules_of_properties(props.drop_first(), start, acc.push(text_of(props[0])))
            } else {
                Err(ParserErrorView::InvalidRecurrenceRule(text_of(props[0])))
            },
        }
    }
}

/// Reads the rules that the properties hold: see [`rules_of_properties`].
pub fn parse_rules(props: &Vec<&Property>, start: Option<i64>) -> (r: Result<
    Vec<String>,
    ParserError,
>)
    requires
        start matches Some(at) ==> near_range(at as int),
    ensures
        match r {
            Ok(rules) => rules_of_properties(props.deep_view(), start, Seq::empty()) == Ok::<
                Seq<Seq<char>>,
                ParserErrorView,
            >(rules.deep_view()) && (start matches Some(at) ==> forall|i: int|
                0 <= i < rules.len() ==> accepted_rule(#[trigger] rules[i]@, at)) && (start
                is None
                ==> rules.len() == 0),
            Err(e) => rules_of_properties(props.deep_view(), start, Seq::empty()) == Err::<
                Seq<Seq<char>>,
                ParserErrorView,
            >(e@),
        },
{
    let ghost all = props.deep_view();
    let mut out: Vec<String> = Vec::new();
    let mut i: usize = 0;
    assert(out.deep_view() =~= Seq::empty());
    assert(all.skip(0) =~= all);
    while i < props.len()
        invariant
            i <= props.len(),
            all == props.deep_view(),
            start matches Some(at) ==> near_range(at as int),
            rules_of_properties(all.skip(i as int), start, out.deep_view()) == rules_of_properties(
                all,
                start,
                Seq::empty(),
            ),
            start matches Some(at) ==> forall|k: int|
                0 <= k < out.len() ==> accepted_rule(#[trigger] out[k]@, at),
            start is None ==> out.len() == 0,
        decreases props.len() - i,
    {
        let ghost rest = all.skip(i as int);
        assert(rest[0] == props[i as int]@);
        assert(rest.drop_first() =~= all.skip(i + 1));
        let at = match start {
            None => {
                return Err(ParserError::MissingProperty("DTSTART"));
            },
            Some(at) => at,
        };
        let text = crate::parser::accessor::property_text(props[i]);
        if !text.is_ascii() || !rule_is_valid(text.as_str(), at) {
            return Err(ParserError::InvalidRecurrenceRule(text));
        }
        let ghost before = out;
        let ghost pushed = text;
        out.push(text);
        proof {
            lemma_push_deep_view(before, out, pushed);
            assert forall|k: int| 0 <= k < out.len() implies accepted_rule(
                #[trigger] out[k]@,
                at,
            ) by {
                if k < before.len() {
                    assert(out[k] == before[k]);
                }
            }
        }
        i += 1;
    }
    Ok(out)
}

} // verus!
