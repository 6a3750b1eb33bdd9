//! Periods: a start and either an end or a length.
use crate::property::{find_char, Property, PropertyView};
use crate::text::{string_of_range, to_chars};
use crate::types::dateordatetime::{
    date_or_datetime_of_property, date_or_datetime_text, normal_value, value_type_of,
    CalDateOrDateTime, CalDateOrDateTimeView,
};
use crate::types::datetime::{
    datetime_of, datetime_text, normal_datetime, property_zone, zone_of_property, CalDateTime,
    CalDateTimeView,
};
use crate::types::duration::{
    duration_text, duration_value, parse_duration, MAX_DURATION_SECONDS,
};
use crate::types::timezone::{optional_zone, TimezoneTable, TzId};
use crate::types::{CalDateTimeError, CalDateTimeErrorView, Duration};
use vstd::prelude::*;

verus! {

/// The end of a period: a date-time or the length of the period.
#[derive(Debug)]
pub enum DateTimeOrDuration {
    DateTime(CalDateTime),
    Duration(Duration),
}

/// The end of a period as a plain value.
pub enum DateTimeOrDurationView {
    DateTime(CalDateTimeView),
    Duration(int),
}

impl View for DateTimeOrDuration {
    type V = DateTimeOrDurationView;

    open spec fn view(&self) -> DateTimeOrDurationView {
        match self {
            DateTimeOrDuration::DateTime(dt) => DateTimeOrDurationView::DateTime(dt@),
            DateTimeOrDuration::Duration(d) => DateTimeOrDurationView::Duration(d.value()),
        }
    }
}

/// The end of a period that `text` spells: a date-time where it is one, else
/// a duration.
pub open spec fn period_end_of(text: Seq<char>, zone: Option<Seq<char>>) -> Result<
    DateTimeOrDurationView,
    CalDateTimeErrorView,
> {
    match datetime_of(text, zone) {
        Ok(dt) => Ok(DateTimeOrDurationView::DateTime(dt)),
        Err(_) => match duration_value(text) {
            Some(v) => if -MAX_DURATION_SECONDS <= v <= MAX_DURATION_SECONDS {
                Ok(DateTimeOrDurationView::Duration(v))
            } else {
                Err(CalDateTimeErrorView::InvalidDurationFormat(text))
            },
            None => Err(CalDateTimeErrorView::InvalidDurationFormat(text)),
        },
    }
}

impl DateTimeOrDuration {
    /// Reads the end of a period: see [`period_end_of`].
    pub fn parse(value: &str, timezone: Option<TzId>) -> (r: Result<
        DateTimeOrDuration,
        CalDateTimeError,
    >)
        ensures
            match r {
                Ok(v) => period_end_of(value@, optional_zone(timezone)) == Ok::<
                    DateTimeOrDurationView,
                    CalDateTimeErrorView,
                >(v@),
                Err(e) => period_end_of(value@, optional_zone(timezone)) == Err::<
                    DateTimeOrDurationView,
                    CalDateTimeErrorView,
                >(e@),
            },
    {
        match CalDateTime::parse(value, timezone) {
            Ok(dt) => Ok(DateTimeOrDuration::DateTime(dt)),
            Err(_) => match parse_duration(value) {
                Ok(d) => Ok(DateTimeOrDuration::Duration(d)),
                Err(_) => Err(CalDateTimeError::InvalidDurationFormat(value.to_owned())),
            },
        }
    }
}

/// The text of the end of a period.
pub open spec fn period_end_text(v: DateTimeOrDurationView) -> Seq<char> {
    match v {
        DateTimeOrDurationView::DateTime(dt) => datetime_text(dt),
        DateTimeOrDurationView::Duration(d) => duration_text(d),
    }
}

/// The end of a period in the timezone in which values are compared; a
/// length stays what it is.
pub open spec fn normal_period_end(v: DateTimeOrDurationView) -> DateTimeOrDurationView {
    match v {
        DateTimeOrDurationView::DateTime(dt) => DateTimeOrDurationView::DateTime(
            normal_datetime(dt),
        ),
        DateTimeOrDurationView::Duration(d) => DateTimeOrDurationView::Duration(d),
    }
}

impl DateTimeOrDuration {
    /// The text of the end of a period: see [`period_end_text`].
    pub fn format(&self) -> (r: String)
        ensures
            r@ == period_end_text(self@),
    {
        match self {
            DateTimeOrDuration::DateTime(dt) => dt.format(),
            DateTimeOrDuration::Duration(d) => d.format(),
        }
    }

    /// See [`normal_period_end`].
    pub fn utc_or_local(&self) -> (r: DateTimeOrDuration)
        ensures
            r@ == normal_period_end(self@),
    {
        match self {
            DateTimeOrDuration::DateTime(dt) => DateTimeOrDuration::DateTime(dt.utc_or_local()),
            DateTimeOrDuration::Duration(d) => DateTimeOrDuration::Duration(*d),
        }
    }
}

/// A span of time with a fixed start.
#[derive(Debug)]
pub struct Period {
    pub start: CalDateTime,
    pub end: DateTimeOrDuration,
}

/// A period as a plain value.
pub struct PeriodView {
    pub start: CalDateTimeView,
    pub end: DateTimeOrDurationView,
}

impl View for Period {
    type V = PeriodView;

    open spec fn view(&self) -> PeriodView {
        PeriodView { start: self.start@, end: self.end@ }
    }
}

/// The period that `text` spells: a start in front of the first `/` and an
/// end behind it.
pub open spec fn period_of(text: Seq<char>, zone: Option<Seq<char>>) -> Result<
    PeriodView,
    CalDateTimeErrorView,
> {
    let slash = find_char(text, 0, '/');
    if slash >= text.len() {
        Err(CalDateTimeErrorView::InvalidDatetimeFormat(text))
    } else {
        match datetime_of(text.subrange(0, slash), zone) {
            Err(e) => Err(e),
            Ok(start) => match period_end_of(text.subrange(slash + 1, text.len() as int), zone) {
                Err(e) => Err(e),
                Ok(end) => Ok(PeriodView { start, end }),
            },
        }
    }
}

/// The period that a property holds under a timezone table.
pub open spec fn period_of_property(
    prop: PropertyView,
    timezones: Map<Seq<char>, Option<Seq<char>>>,
) -> Result<PeriodView, CalDateTimeErrorView> {
    match prop.value {
        None => Err(CalDateTimeErrorView::InvalidDatetimeFormat("empty property"@)),
        Some(value) => match zone_of_property(prop, timezones) {
            Err(e) => Err(e),
            Ok(zone) => period_of(value, zone),
        },
    }
}

/// The text of a period: its start, a slash and its end.
pub open spec fn period_text(v: PeriodView) -> Seq<char> {
    datetime_text(v.start) + seq!['/'] + period_end_text(v.end)
}

/// The period in the timezone in which values are compared.
pub open spec fn normal_period(v: PeriodView) -> PeriodView {
    PeriodView { start: normal_datetime(v.start), end: normal_period_end(v.end) }
}

/// The outcome of reading a period, as a plain value.
pub open spec fn period_outcome(r: Result<Period, CalDateTimeError>) -> Result<
    PeriodView,
    CalDateTimeErrorView,
> {
    match r {
        Ok(p) => Ok(p@),
        Err(e) => Err(e@),
    }
}

fn clone_zone(zone: &Option<TzId>) -> (r: Option<TzId>)
    ensures
        optional_zone(r) == optional_zone(*zone),
{
    match zone {
        Some(tz) => Some(tz.clone()),
        None => None,
    }
}

impl Period {
    /// Reads a period: see [`period_of`].
    pub fn parse(value: &str, timezone: Option<TzId>) -> (r: Result<Period, CalDateTimeError>)
        ensures
            period_outcome(r) == period_of(value@, optional_zone(timezone)),
    {
        let s = to_chars(value);
        let mut slash: usize = 0;
        while slash < s.len() && s[slash] != '/'
            invariant
                slash <= s.len(),
                find_char(s@, slash as int, '/') == find_char(s@, 0, '/'),
            decreases s.len() - slash,
        {
            slash += 1;
        }
        if slash >= s.len() {
            return Err(CalDateTimeError::InvalidDatetimeFormat(value.to_owned()));
        }
        let first = string_of_range(&s, 0, slash);
        let second = string_of_range(&s, slash + 1, s.len());
        let start = match CalDateTime::parse(first.as_str(), clone_zone(&timezone)) {
            Ok(dt) => dt,
            Err(e) => {
                return Err(e);
            },
        };
        match DateTimeOrDuration::parse(second.as_str(), timezone) {
            Ok(end) => Ok(Period { start, end }),
            Err(e) => Err(e),
        }
    }

    /// Reads the period that a property holds: see [`period_of_property`].
    pub fn parse_prop(prop: &Property, timezones: &TimezoneTable) -> (r: Result<
        Period,
        CalDateTimeError,
    >)
        ensures
            period_outcome(r) == period_of_property(prop@, timezones@),
    {
        let value = match &prop.value {
            None => {
                let text = "empty property";
                return Err(CalDateTimeError::InvalidDatetimeFormat(text.to_owned()));
            },
            Some(v) => v,
        };
        match property_zone(prop, timezones) {
            Err(e) => Err(e),
            Ok(zone) => Period::parse(value.as_str(), zone),
        }
    }
}

impl Period {
    /// The text of the period: see [`period_text`].
    pub fn format(&self) -> (r: String)
        ensures
            r@ == period_text(self@),
    {
        let mut out = self.start.format();
        out.push('/');
        let end = self.end.format();
        out.append(end.as_str());
        assert(out@ =~= period_text(self@));
        out
    }

    /// See [`normal_period`].
    pub fn utc_or_local(&self) -> (r: Period)
        ensures
            r@ == normal_period(self@),
    {
        Period { start: self.start.utc_or_local(), end: self.end.utc_or_local() }
    }
}

/// A date, a date-time or a period.
#[derive(Debug)]
pub enum DateOrDateTimeOrPeriod {
    DateOrDateTime(CalDateOrDateTime),
    Period(Period),
}

/// A date, a date-time or a period as a plain value.
pub enum DateOrDateTimeOrPeriodView {
    DateOrDateTime(CalDateOrDateTimeView),
    Period(PeriodView),
}

impl View for DateOrDateTimeOrPeriod {
    type V = DateOrDateTimeOrPeriodView;

    open spec fn view(&self) -> DateOrDateTimeOrPeriodView {
        match self {
            DateOrDateTimeOrPeriod::DateOrDateTime(v) => DateOrDateTimeOrPeriodView::DateOrDateTime(
                v@,
            ),
            DateOrDateTimeOrPeriod::Period(p) => DateOrDateTimeOrPeriodView::Period(p@),
        }
    }
}

impl DeepView for DateOrDateTimeOrPeriod {
    type V = DateOrDateTimeOrPeriodView;

    open spec fn deep_view(&self) -> DateOrDateTimeOrPeriodView {
        self@
    }
}

/// The text of a value.
pub open spec fn date_or_period_text(v: DateOrDateTimeOrPeriodView) -> Seq<char> {
    match v {
        DateOrDateTimeOrPeriodView::DateOrDateTime(x) => date_or_datetime_text(x),
        DateOrDateTimeOrPeriodView::Period(p) => period_text(p),
    }
}

/// The value type of a value: `DATE`, `DATE-TIME` or `PERIOD`.
pub open spec fn date_or_period_type(v: DateOrDateTimeOrPeriodView) -> Seq<char> {
    match v {
        DateOrDateTimeOrPeriodView::DateOrDateTime(x) => if x is Date {
            "DATE"@
        } else {
            "DATE-TIME"@
        },
        DateOrDateTimeOrPeriodView::Period(_) => "PERIOD"@,
    }
}

/// The value in the timezone in which values are compared.
pub open spec fn normal_date_or_period(v: DateOrDateTimeOrPeriodView) -> DateOrDateTimeOrPeriodView {
    match v {
        DateOrDateTimeOrPeriodView::DateOrDateTime(x) => DateOrDateTimeOrPeriodView::DateOrDateTime(
            normal_value(x),
        ),
        DateOrDateTimeOrPeriodView::Period(p) => DateOrDateTimeOrPeriodView::Period(
            normal_period(p),
        ),
    }
}

/// What a property holds under a timezone table, by its value type: `DATE`
/// and `DATE-TIME` give a date or a date-time, `PERIOD` gives a period, any
/// other type is a fault.
pub open spec fn date_or_period_of_property(
    prop: PropertyView,
    timezones: Map<Seq<char>, Option<Seq<char>>>,
    default_type: Seq<char>,
) -> Result<DateOrDateTimeOrPeriodView, CalDateTimeErrorView> {
    let value_type = value_type_of(prop, default_type);
    if value_type == "PERIOD"@ {
        match period_of_property(prop, timezones) {
            Ok(p) => Ok(DateOrDateTimeOrPeriodView::Period(p)),
            Err(e) => Err(e),
        }
    } else {
        match date_or_datetime_of_property(prop, timezones, default_type) {
            Ok(v) => Ok(DateOrDateTimeOrPeriodView::DateOrDateTime(v)),
            Err(e) => Err(e),
        }
    }
}

/// The start of a value: the value itself, or the start of a period.
pub open spec fn start_of(v: DateOrDateTimeOrPeriodView) -> CalDateOrDateTimeView {
    match v {
        DateOrDateTimeOrPeriodView::DateOrDateTime(x) => x,
        DateOrDateTimeOrPeriodView::Period(p) => CalDateOrDateTimeView::DateTime(p.start),
    }
}

impl DateOrDateTimeOrPeriod {
    /// Reads what a property holds: see [`date_or_period_of_property`].
    pub fn parse_prop(prop: &Property, timezones: &TimezoneTable, default_type: &str) -> (r: Result<
        DateOrDateTimeOrPeriod,
        CalDateTimeError,
    >)
        ensures
            match r {
                Ok(v) => date_or_period_of_property(prop@, timezones@, default_type@) == Ok::<
                    DateOrDateTimeOrPeriodView,
                    CalDateTimeErrorView,
                >(v@),
                Err(e) => date_or_period_of_property(prop@, timezones@, default_type@) == Err::<
                    DateOrDateTimeOrPeriodView,
                    CalDateTimeErrorView,
                >(e@),
            },
    {
        let value_type = match prop.get_value_type() {
            Some(t) => t,
            None => default_type,
        };
        if value_type.eq("PERIOD") {
            match Period::parse_prop(prop, timezones) {
                Ok(p) => Ok(DateOrDateTimeOrPeriod::Period(p)),
                Err(e) => Err(e),
            }
        } else {
            match CalDateOrDateTime::parse_prop(prop, timezones, default_type) {
                Ok(v) => Ok(DateOrDateTimeOrPeriod::DateOrDateTime(v)),
                Err(e) => Err(e),
            }
        }
    }

    /// The text of the value: see [`date_or_period_text`].
    pub fn format(&self) -> (r: String)
        ensures
            r@ == date_or_period_text(self@),
    {
        match self {
            DateOrDateTimeOrPeriod::DateOrDateTime(v) => v.format(),
            DateOrDateTimeOrPeriod::Period(p) => p.format(),
        }
    }

    /// The value type of the value: see [`date_or_period_type`].
    pub fn value_type(&self) -> (r: &'static str)
        ensures
            r@ == date_or_period_type(self@),
    {
        match self {
            DateOrDateTimeOrPeriod::DateOrDateTime(v) => v.value_type(),
            DateOrDateTimeOrPeriod::Period(_) => "PERIOD",
        }
    }

    /// See [`normal_date_or_period`].
    pub fn utc_or_local(&self) -> (r: DateOrDateTimeOrPeriod)
        ensures
            r@ == normal_date_or_period(self@),
    {
        match self {
            DateOrDateTimeOrPeriod::DateOrDateTime(v) => DateOrDateTimeOrPeriod::DateOrDateTime(
                v.utc_or_local(),
            ),
            DateOrDateTimeOrPeriod::Period(p) => DateOrDateTimeOrPeriod::Period(p.utc_or_local()),
        }
    }

    /// The start of the value: see [`start_of`].
    pub fn start(&self) -> (r: CalDateOrDateTime)
        ensures
            r@ == start_of(self@),
    {
        match self {
            DateOrDateTimeOrPeriod::DateOrDateTime(v) => v.clone(),
            DateOrDateTimeOrPeriod::Period(p) => CalDateOrDateTime::DateTime(p.start.clone()),
        }
    }
}

} // verus!
