//! Values that are either a date or a date-time.
use crate::property::{first_param, Property, PropertyView};
use crate::types::date::{
    date_of_property, date_text, normal_date, CalDate, CalDateView, MAX_DAY, MIN_DAY,
};
use crate::types::datetime::{
    datetime_of_property, datetime_text, day_number, day_of, in_range, normal_datetime, shifted,
    CalDateTime, CalDateTimeView,
};
use crate::types::timezone::{Timezone, TimezoneTable, TimezoneView, DAY_SECONDS};
use crate::types::{CalDateTimeError, CalDateTimeErrorView, Duration};
use vstd::prelude::*;

verus! {

/// A date or a date-time.
#[derive(Debug)]
pub enum CalDateOrDateTime {
    DateTime(CalDateTime),
    Date(CalDate),
}

/// A date or a date-time as a plain value.
pub enum CalDateOrDateTimeView {
    DateTime(CalDateTimeView),
    Date(CalDateView),
}

impl View for CalDateOrDateTime {
    type V = CalDateOrDateTimeView;

    open spec fn view(&self) -> CalDateOrDateTimeView {
        match self {
            CalDateOrDateTime::DateTime(dt) => CalDateOrDateTimeView::DateTime(dt@),
            CalDateOrDateTime::Date(d) => CalDateOrDateTimeView::Date(d@),
        }
    }
}

impl DeepView for CalDateOrDateTime {
    type V = CalDateOrDateTimeView;

    open spec fn deep_view(&self) -> CalDateOrDateTimeView {
        self@
    }
}

impl Clone for CalDateOrDateTime {
    fn clone(&self) -> (r: Self)
        ensures
            r@ == self@,
    {
        match self {
            CalDateOrDateTime::DateTime(dt) => CalDateOrDateTime::DateTime(dt.clone()),
            CalDateOrDateTime::Date(d) => CalDateOrDateTime::Date(d.clone()),
        }
    }
}

impl crate::property::Duplicate for CalDateOrDateTime {
    fn duplicate(&self) -> (r: Self) {
        self.clone()
    }
}

/// The value type of a property: its `VALUE` parameter, or the type that the
/// property has where it says nothing.
pub open spec fn value_type_of(prop: PropertyView, default_type: Seq<char>) -> Seq<char> {
    match first_param(prop.params, "VALUE"@) {
        Some(t) => t,
        None => default_type,
    }
}

/// The date or date-time that a property holds under a timezone table. The
/// value type `DATE` asks for a date, `DATE-TIME` for a date-time; any other
/// type is a fault.
pub open spec fn date_or_datetime_of_property(
    prop: PropertyView,
    timezones: Map<Seq<char>, Option<Seq<char>>>,
    default_type: Seq<char>,
) -> Result<CalDateOrDateTimeView, CalDateTimeErrorView> {
    let value_type = value_type_of(prop, default_type);
    if value_type == "DATE"@ {
        match date_of_property(prop, timezones) {
            Ok(d) => Ok(CalDateOrDateTimeView::Date(d)),
            Err(e) => Err(e),
        }
    } else if value_type == "DATE-TIME"@ {
        match datetime_of_property(prop, timezones) {
            Ok(dt) => Ok(CalDateOrDateTimeView::DateTime(dt)),
            Err(e) => Err(e),
        }
    } else {
        Err(CalDateTimeErrorView::InvalidValueType(value_type))
    }
}

/// The outcome of reading a date or date-time, as a plain value.
pub open spec fn date_or_datetime_outcome(r: Result<CalDateOrDateTime, CalDateTimeError>) -> Result<
    CalDateOrDateTimeView,
    CalDateTimeErrorView,
> {
    match r {
        Ok(v) => Ok(v@),
        Err(e) => Err(e@),
    }
}

/// The instant at which a value is placed when values are put in order or
/// subtracted: the instant of a date-time, the UTC midnight of a date.
pub open spec fn instant_of(v: CalDateOrDateTimeView) -> int {
    match v {
        CalDateOrDateTimeView::DateTime(dt) => dt.utc,
        CalDateOrDateTimeView::Date(d) => d.day * DAY_SECONDS,
    }
}

/// Whether two values name the same moment: two dates the same day, two
/// date-times the same instant. A date and a date-time never do.
pub open spec fn same_moment(a: CalDateOrDateTimeView, b: CalDateOrDateTimeView) -> bool {
    match (a, b) {
        (CalDateOrDateTimeView::DateTime(x), CalDateOrDateTimeView::DateTime(y)) => x.utc == y.utc,
        (CalDateOrDateTimeView::Date(x), CalDateOrDateTimeView::Date(y)) => x.day == y.day,
        _ => false,
    }
}

/// The timezone of a value.
pub open spec fn timezone_of(v: CalDateOrDateTimeView) -> TimezoneView {
    match v {
        CalDateOrDateTimeView::DateTime(dt) => dt.timezone,
        CalDateOrDateTimeView::Date(d) => d.timezone,
    }
}

/// The value as a date-time: see [`CalDateOrDateTime::as_datetime`].
pub open spec fn moment_of(v: CalDateOrDateTimeView) -> Option<CalDateTimeView> {
    match v {
        CalDateOrDateTimeView::DateTime(dt) => Some(dt),
        CalDateOrDateTimeView::Date(d) => crate::types::date::start_of_day(d),
    }
}

/// The text of a value.
pub open spec fn date_or_datetime_text(v: CalDateOrDateTimeView) -> Seq<char> {
    match v {
        CalDateOrDateTimeView::DateTime(dt) => datetime_text(dt),
        CalDateOrDateTimeView::Date(d) => date_text(d),
    }
}

/// The value in the timezone in which values are compared.
pub open spec fn normal_value(v: CalDateOrDateTimeView) -> CalDateOrDateTimeView {
    match v {
        CalDateOrDateTimeView::DateTime(dt) => CalDateOrDateTimeView::DateTime(normal_datetime(dt)),
        CalDateOrDateTimeView::Date(d) => CalDateOrDateTimeView::Date(normal_date(d)),
    }
}

/// The value that lies `seconds` later. A date-time moves by that many
/// seconds; a date moves to the day on which its midnight plus the seconds
/// falls. Nothing where the result lies outside the years 0000 to 9999.
pub open spec fn later_value(v: CalDateOrDateTimeView, seconds: int) -> Option<
    CalDateOrDateTimeView,
> {
    match v {
        CalDateOrDateTimeView::DateTime(dt) => if in_range(dt.utc + seconds) {
            Some(CalDateOrDateTimeView::DateTime(shifted(dt, seconds)))
        } else {
            None
        },
        CalDateOrDateTimeView::Date(d) => {
            let day = day_of(d.day * DAY_SECONDS + seconds);
            if MIN_DAY <= day <= MAX_DAY {
                Some(CalDateOrDateTimeView::Date(CalDateView { day, timezone: d.timezone }))
            } else {
                None
            }
        },
    }
}

impl CalDateOrDateTime {
    /// Reads the date or date-time that a property holds: see
    /// [`date_or_datetime_of_property`].
    pub fn parse_prop(prop: &Property, timezones: &TimezoneTable, default_type: &str) -> (r: Result<
        CalDateOrDateTime,
        CalDateTimeError,
    >)
        ensures
            date_or_datetime_outcome(r) == date_or_datetime_of_property(
                prop@,
                timezones@,
                default_type@,
            ),
    {
        let value_type = match prop.get_value_type() {
            Some(t) => t,
            None => default_type,
        };
        if value_type.eq("DATE") {
            match CalDate::parse_prop(prop, timezones) {
                Ok(d) => Ok(CalDateOrDateTime::Date(d)),
                Err(e) => Err(e),
            }
        } else if value_type.eq("DATE-TIME") {
            match CalDateTime::parse_prop(prop, timezones) {
                Ok(dt) => Ok(CalDateOrDateTime::DateTime(dt)),
                Err(e) => Err(e),
            }
        } else {
            Err(CalDateTimeError::InvalidValueType(value_type.to_owned()))
        }
    }

    /// Whether the value is a date.
    pub fn is_date(&self) -> (r: bool)
        ensures
            r == (self@ is Date),
    {
        match self {
            CalDateOrDateTime::Date(_) => true,
            CalDateOrDateTime::DateTime(_) => false,
        }
    }

    /// The value type under which the value is written.
    pub fn value_type(&self) -> (r: &'static str)
        ensures
            r@ == (if self@ is Date {
                "DATE"@
            } else {
                "DATE-TIME"@
            }),
    {
        match self {
            CalDateOrDateTime::Date(_) => "DATE",
            CalDateOrDateTime::DateTime(_) => "DATE-TIME",
        }
    }

    /// The day of the value, counted from 1 January 1970.
    pub fn date_floor(&self) -> (r: i64)
        ensures
            r == match self@ {
                CalDateOrDateTimeView::DateTime(dt) => day_of(dt.local),
                CalDateOrDateTimeView::Date(d) => d.day,
            },
    {
        match self {
            CalDateOrDateTime::DateTime(dt) => dt.date_floor(),
            CalDateOrDateTime::Date(d) => d.naive_date(),
        }
    }

    /// The first day on which the value is over: the next day for a
    /// date-time, the day itself for a date.
    pub fn date_ceil(&self) -> (r: i64)
        ensures
            r == match self@ {
                CalDateOrDateTimeView::DateTime(dt) => day_of(dt.local) + 1,
                CalDateOrDateTimeView::Date(d) => d.day,
            },
    {
        match self {
            CalDateOrDateTime::DateTime(dt) => dt.date_ceil(),
            CalDateOrDateTime::Date(d) => d.naive_date(),
        }
    }

    /// The timezone of the value.
    pub fn timezone(&self) -> (r: Timezone)
        ensures
            r@ == timezone_of(self@),
    {
        match self {
            CalDateOrDateTime::DateTime(dt) => dt.timezone(),
            CalDateOrDateTime::Date(d) => d.timezone().clone(),
        }
    }

    /// The instant of the value: see [`instant_of`].
    pub fn utc(&self) -> (r: i64)
        ensures
            r == instant_of(self@),
            crate::types::timezone::near_range(r as int),
    {
        match self {
            CalDateOrDateTime::DateTime(dt) => dt.utc(),
            CalDateOrDateTime::Date(d) => d.naive_date() * 86400,
        }
    }

    /// The text of the value.
    pub fn format(&self) -> (r: String)
        ensures
            r@ == date_or_datetime_text(self@),
    {
        match self {
            CalDateOrDateTime::DateTime(dt) => dt.format(),
            CalDateOrDateTime::Date(d) => d.format(),
        }
    }

    /// The value in the timezone in which values are compared: UTC, or
    /// floating local time for a floating value.
    pub fn utc_or_local(&self) -> (r: CalDateOrDateTime)
        ensures
            r@ == normal_value(self@),
    {
        match self {
            CalDateOrDateTime::DateTime(dt) => CalDateOrDateTime::DateTime(dt.utc_or_local()),
            CalDateOrDateTime::Date(d) => CalDateOrDateTime::Date(d.utc_or_local()),
        }
    }

    /// Whether both values name the same moment: see [`same_moment`].
    pub fn same_moment(&self, other: &CalDateOrDateTime) -> (r: bool)
        ensures
            r == same_moment(self@, other@),
    {
        match (self, other) {
            (CalDateOrDateTime::DateTime(x), CalDateOrDateTime::DateTime(y)) => x.utc() == y.utc(),
            (CalDateOrDateTime::Date(x), CalDateOrDateTime::Date(y)) => x.naive_date()
                == y.naive_date(),
            _ => false,
        }
    }

    /// Whether this value comes before `other`: its instant is earlier.
    pub fn is_before(&self, other: &CalDateOrDateTime) -> (r: bool)
        ensures
            r == (instant_of(self@) < instant_of(other@)),
    {
        self.utc() < other.utc()
    }

    /// The time from `rhs` to this value.
    pub fn sub(&self, rhs: &CalDateOrDateTime) -> (r: Duration)
        ensures
            r.value() == instant_of(self@) - instant_of(rhs@),
    {
        let seconds = self.utc() - rhs.utc();
        match Duration::seconds(seconds) {
            Some(d) => d,
            None => Duration::zero(),
        }
    }

    /// The value as a date-time: a date-time is what it is, a date is the
    /// date-time at which it starts, if it has a start.
    pub fn as_datetime(&self) -> (r: Option<CalDateTime>)
        ensures
            match r {
                Some(dt) => moment_of(self@) == Some(dt@),
                None => moment_of(self@) is None,
            },
    {
        match self {
            CalDateOrDateTime::DateTime(dt) => Some(dt.clone()),
            CalDateOrDateTime::Date(d) => d.as_datetime(),
        }
    }

    /// The value that lies `duration` later: see [`later_value`].
    pub fn add(&self, duration: Duration) -> (r: Option<CalDateOrDateTime>)
        ensures
            match r {
                Some(v) => later_value(self@, duration.value()) == Some(v@),
                None => later_value(self@, duration.value()) is None,
            },
    {
        match self {
            CalDateOrDateTime::DateTime(dt) => match dt.add(duration) {
                Some(later) => Some(CalDateOrDateTime::DateTime(later)),
                None => None,
            },
            CalDateOrDateTime::Date(d) => {
                let seconds = duration.num_seconds();
                let moment: i128 = d.naive_date() as i128 * 86400 + seconds as i128;
                if moment < -719529 * 86400 || moment > 2932897 * 86400 {
                    assert(day_of(moment as int) < MIN_DAY || day_of(moment as int) > MAX_DAY);
                    return None;
                }
                let day = day_number(moment as i64);
                match CalDate::new(day, d.timezone().clone()) {
                    Some(later) => Some(CalDateOrDateTime::Date(later)),
                    None => None,
                }
            },
        }
    }
}

} // verus!
