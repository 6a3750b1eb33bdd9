//! Dates without a time of day.
use crate::property::{Property, PropertyView};
use crate::types::datetime::{
    day_number, day_of, format_timestamp, formatted_time, in_range, parse_date_text, parsed_date,
    property_zone, zone_of_property, CalDateTime, CalDateTimeView,
};
use crate::types::timezone::{
    normal_zone, zone_offset_at_local, Timezone, TimezoneTable, TimezoneView, TzId, DAY_SECONDS,
    MAX_TIMESTAMP, MIN_TIMESTAMP,
};
use crate::types::{CalDateTimeError, CalDateTimeErrorView, Duration};
use vstd::prelude::*;

verus! {

/// The first day that a date can name, counted from 1 January 1970.
pub const MIN_DAY: i64 = -719_528;

/// The last day that a date can name.
pub const MAX_DAY: i64 = 2_932_896;

/// A date as a plain value: the day, counted from 1 January 1970, and the
/// timezone.
pub struct CalDateView {
    pub day: int,
    pub timezone: TimezoneView,
}

/// A calendar date in a timezone.
#[derive(Debug)]
pub struct CalDate {
    day: i64,
    timezone: Timezone,
}

impl View for CalDate {
    type V = CalDateView;

    closed spec fn view(&self) -> CalDateView {
        CalDateView { day: self.day as int, timezone: self.timezone@ }
    }
}

impl Clone for CalDate {
    fn clone(&self) -> (r: Self)
        ensures
            r@ == self@,
    {
        proof {
            use_type_invariant(self);
        }
        CalDate { day: self.day, timezone: self.timezone.clone() }
    }
}

/// The date that `text` spells in the timezone `zone`. The form `19980118`
/// is tried first, then the form `1998-01-18`.
pub open spec fn date_of(text: Seq<char>, zone: TimezoneView) -> Result<
    CalDateView,
    CalDateTimeErrorView,
> {
    date_from(text, parsed_date(text, "%Y%m%d"@), parsed_date(text, "%Y-%m-%d"@), zone)
}

/// The date for what was read from `text`: `compact` is the midnight of the
/// day that the text spells in the form `19980118`, `dashed` that of the day
/// that it spells in the form `1998-01-18`, each in seconds since 1970 and
/// nothing where the text has not that form. The compact form comes first; a
/// day out of range and a text of neither form are faults.
pub open spec fn date_from(
    text: Seq<char>,
    compact: Option<i64>,
    dashed: Option<i64>,
    zone: TimezoneView,
) -> Result<CalDateView, CalDateTimeErrorView> {
    let midnight = match compact {
        Some(m) => Some(m),
        None => dashed,
    };
    match midnight {
        Some(m) => if in_range(m as int) {
            Ok(CalDateView { day: day_of(m as int), timezone: zone })
        } else {
            Err(CalDateTimeErrorView::InvalidDatetimeFormat(text))
        },
        None => Err(CalDateTimeErrorView::InvalidDatetimeFormat(text)),
    }
}

/// The date that a property holds under a timezone table.
pub open spec fn date_of_property(
    prop: PropertyView,
    timezones: Map<Seq<char>, Option<Seq<char>>>,
) -> Result<CalDateView, CalDateTimeErrorView> {
    match prop.value {
        None => Err(CalDateTimeErrorView::InvalidDatetimeFormat("empty property"@)),
        Some(value) => match zone_of_property(prop, timezones) {
            Err(e) => Err(e),
            Ok(zone) => date_of(
                value,
                match zone {
                    Some(z) => TimezoneView::Olson(z),
                    None => TimezoneView::Local,
                },
            ),
        },
    }
}

/// Whether `text` has the form `--MMDD`: two hyphens and four digits.
pub open spec fn is_month_day(text: Seq<char>) -> bool {
    text.len() == 6 && text[0] == '-' && text[1] == '-' && forall|i: int|
        2 <= i < 6 ==> crate::types::duration::is_digit(#[trigger] text[i])
}

/// The date that `text` spells as the value of a contact, and whether it
/// names a year. A date as [`date_of`] reads it names its year. A month and a
/// day in the form `--MMDD` name none: they stand for that day of the leap
/// year 1972, and are a fault where that year has no such day.
pub open spec fn vcard_date_of(text: Seq<char>) -> Result<(CalDateView, bool), CalDateTimeErrorView> {
    match date_of(text, TimezoneView::Local) {
        Ok(d) => Ok((d, true)),
        Err(_) => if is_month_day(text) {
            match parsed_date("1972"@ + text.subrange(2, 6), "%Y%m%d"@) {
                Some(m) => if in_range(m as int) {
                    Ok((CalDateView { day: day_of(m as int), timezone: TimezoneView::Local }, false))
                } else {
                    Err(CalDateTimeErrorView::ParseError(text))
                },
                None => Err(CalDateTimeErrorView::ParseError(text)),
            }
        } else {
            Err(CalDateTimeErrorView::InvalidDatetimeFormat(text))
        },
    }
}

fn is_digit_char(c: char) -> (r: bool)
    ensures
        r == crate::types::duration::is_digit(c),
{
    '0' <= c && c <= '9'
}

/// The date-time that lies `seconds` after the start of the date `v`, in
/// the timezone of `v`: nothing where the date has no start, and nothing
/// where the date-time lies outside the years 0000 to 9999.
pub open spec fn later_than_day(v: CalDateView, seconds: int) -> Option<CalDateTimeView> {
    match start_of_day(v) {
        Some(start) => if in_range(start.utc + seconds) {
            Some(crate::types::datetime::shifted(start, seconds))
        } else {
            None
        },
        None => None,
    }
}

/// The outcome of reading a date, as a plain value.
pub open spec fn date_outcome(r: Result<CalDate, CalDateTimeError>) -> Result<
    CalDateView,
    CalDateTimeErrorView,
> {
    match r {
        Ok(d) => Ok(d@),
        Err(e) => Err(e@),
    }
}

/// The date-time at which the date `v` starts: midnight in its timezone;
/// nothing where that midnight is skipped.
pub open spec fn start_of_day(v: CalDateView) -> Option<CalDateTimeView> {
    let local = v.day * DAY_SECONDS;
    match v.timezone {
        TimezoneView::Local => Some(CalDateTimeView { utc: local, local, timezone: v.timezone }),
        TimezoneView::Olson(z) => if z == "UTC"@ {
            Some(CalDateTimeView { utc: local, local, timezone: v.timezone })
        } else {
            match zone_offset_at_local(z, local as i64) {
                Some(offset) => Some(
                    CalDateTimeView { utc: local - offset, local, timezone: v.timezone },
                ),
                None => None,
            }
        },
    }
}

impl CalDate {
    #[verifier::type_invariant]
    spec fn inv(self) -> bool {
        MIN_DAY <= self.day <= MAX_DAY
    }

    /// The date of the day `day` in the timezone `timezone`, if the day lies
    /// in the years 0000 to 9999.
    pub fn new(day: i64, timezone: Timezone) -> (r: Option<CalDate>)
        ensures
            r is Some <==> MIN_DAY <= day <= MAX_DAY,
            r matches Some(d) ==> d@ == (CalDateView { day: day as int, timezone: timezone@ }),
    {
        if MIN_DAY <= day && day <= MAX_DAY {
            Some(CalDate { day, timezone })
        } else {
            None
        }
    }

    /// Reads a date in the timezone `timezone`, where nothing stands for
    /// floating local time: see [`date_of`].
    pub fn parse(value: &str, timezone: Option<TzId>) -> (r: Result<CalDate, CalDateTimeError>)
        ensures
            date_outcome(r) == date_of(value@, crate::types::timezone::zone_view(timezone)),
    {
        let compact = parse_date_text(value, "%Y%m%d");
        let dashed = parse_date_text(value, "%Y-%m-%d");
        CalDate::from_readings(value, compact, dashed, timezone)
    }

    /// The date for what was read from a text: see [`date_from`].
    pub fn from_readings(
        text: &str,
        compact: Option<i64>,
        dashed: Option<i64>,
        timezone: Option<TzId>,
    ) -> (r: Result<CalDate, CalDateTimeError>)
        ensures
            date_outcome(r) == date_from(
                text@,
                compact,
                dashed,
                crate::types::timezone::zone_view(timezone),
            ),
    {
        let midnight = match compact {
            Some(m) => Some(m),
            None => dashed,
        };
        match midnight {
            Some(m) => {
                if MIN_TIMESTAMP <= m && m <= MAX_TIMESTAMP {
                    Ok(CalDate { day: day_number(m), timezone: Timezone::from_zone(timezone) })
                } else {
                    Err(CalDateTimeError::InvalidDatetimeFormat(text.to_owned()))
                }
            },
            None => Err(CalDateTimeError::InvalidDatetimeFormat(text.to_owned())),
        }
    }

    /// Reads the date of a contact, and says whether it names a year: see
    /// [`vcard_date_of`].
    pub fn parse_vcard(value: &str) -> (r: Result<(CalDate, bool), CalDateTimeError>)
        ensures
            match r {
                Ok((d, year)) => vcard_date_of(value@) == Ok::<
                    (CalDateView, bool),
                    CalDateTimeErrorView,
                >((d@, year)),
                Err(e) => vcard_date_of(value@) == Err::<(CalDateView, bool), CalDateTimeErrorView>(
                    e@,
                ),
            },
    {
        match CalDate::parse(value, None) {
            Ok(d) => {
                return Ok((d, true));
            },
            Err(_) => {},
        }
        let chars = crate::text::to_chars(value);
        if chars.len() == 6 && chars[0] == '-' && chars[1] == '-' && is_digit_char(chars[2])
            && is_digit_char(chars[3]) && is_digit_char(chars[4]) && is_digit_char(chars[5]) {
            let mut text = "1972".to_owned();
            crate::text::push_range(&mut text, &chars, 2, 6);
            match parse_date_text(text.as_str(), "%Y%m%d") {
                Some(m) => {
                    if MIN_TIMESTAMP <= m && m <= MAX_TIMESTAMP {
                        Ok((CalDate { day: day_number(m), timezone: Timezone::Local }, false))
                    } else {
                        Err(CalDateTimeError::ParseError(value.to_owned()))
                    }
                },
                None => Err(CalDateTimeError::ParseError(value.to_owned())),
            }
        } else {
            Err(CalDateTimeError::InvalidDatetimeFormat(value.to_owned()))
        }
    }

    /// Reads the date that a property holds: see [`date_of_property`].
    pub fn parse_prop(prop: &Property, timezones: &TimezoneTable) -> (r: Result<
        CalDate,
        CalDateTimeError,
    >)
        ensures
            date_outcome(r) == date_of_property(prop@, timezones@),
    {
        let value = match &prop.value {
            None => {
                let text = "empty property";
                return Err(CalDateTimeError::InvalidDatetimeFormat(text.to_owned()));
            },
            Some(v) => v,
        };
        match property_zone(prop, timezones) {
            Err(e) => Err(e),
            Ok(zone) => CalDate::parse(value.as_str(), zone),
        }
    }

    /// The day, counted from 1 January 1970.
    pub fn naive_date(&self) -> (r: i64)
        ensures
            r == self@.day,
            MIN_DAY <= r <= MAX_DAY,
    {
        proof {
            use_type_invariant(self);
        }
        self.day
    }

    /// The text of the date, in the form `19980118`.
    pub fn format(&self) -> (r: String)
        ensures
            r@ == date_text(self@),
    {
        proof {
            use_type_invariant(self);
        }
        format_timestamp(self.day * 86400, "%Y%m%d")
    }

    /// The timezone.
    pub fn timezone(&self) -> (r: &Timezone)
        ensures
            r@ == self@.timezone,
    {
        &self.timezone
    }

    /// The date-time at which the date starts: see [`start_of_day`].
    pub fn as_datetime(&self) -> (r: Option<CalDateTime>)
        ensures
            match r {
                Some(dt) => start_of_day(self@) == Some(dt@),
                None => start_of_day(self@) is None,
            },
    {
        proof {
            use_type_invariant(self);
        }
        let local = self.day * 86400;
        match &self.timezone {
            Timezone::Local => CalDateTime::from_local(local),
            Timezone::Olson(zone) => {
                if zone.is_utc() {
                    CalDateTime::in_zone(local, zone.clone())
                } else {
                    match crate::types::timezone::offset_at_local(zone.name(), local) {
                        Some(offset) => CalDateTime::from_parts(
                            local - offset as i64,
                            local,
                            zone.clone(),
                        ),
                        None => None,
                    }
                }
            },
        }
    }

    /// The date-time that lies `duration` after the start of the date: see
    /// [`later_than_day`].
    pub fn add(&self, duration: Duration) -> (r: Option<CalDateTime>)
        ensures
            match r {
                Some(dt) => later_than_day(self@, duration.value()) == Some(dt@),
                None => later_than_day(self@, duration.value()) is None,
            },
    {
        match self.as_datetime() {
            Some(start) => start.add(duration),
            None => None,
        }
    }

    /// The day after this one, if a date can name it.
    pub fn succ_opt(&self) -> (r: Option<CalDate>)
        ensures
            r is Some <==> self@.day < MAX_DAY,
            r matches Some(d) ==> d@ == (CalDateView {
                day: self@.day + 1,
                timezone: self@.timezone,
            }),
    {
        proof {
            use_type_invariant(self);
        }
        if self.day < MAX_DAY {
            Some(CalDate { day: self.day + 1, timezone: self.timezone.clone() })
        } else {
            None
        }
    }

    /// The same day in the timezone in which values are compared: UTC, or
    /// floating local time for a floating value.
    pub fn utc_or_local(&self) -> (r: CalDate)
        ensures
            r@ == normal_date(self@),
    {
        proof {
            use_type_invariant(self);
        }
        CalDate { day: self.day, timezone: self.timezone.utc_or_local() }
    }
}

/// See [`CalDate::utc_or_local`].
pub open spec fn normal_date(v: CalDateView) -> CalDateView {
    CalDateView { day: v.day, timezone: normal_zone(v.timezone) }
}

/// The text of a date.
pub open spec fn date_text(v: CalDateView) -> Seq<char> {
    formatted_time((v.day * DAY_SECONDS) as i64, "%Y%m%d"@)
}

} // verus!
