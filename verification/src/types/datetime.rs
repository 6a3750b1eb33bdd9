//! Date-times: an instant together with the timezone in which it is written.
//!
//! A date-time is written `19980118T230000` (floating local time, or the time
//! of the timezone that a `TZID` parameter names) or `19980119T070000Z` (UTC).
use crate::property::{first_param, Property, PropertyView};
use crate::types::timezone::{
    near_range, offset_at_local, offset_at_utc, zone_offset_at_local, zone_offset_at_utc, Timezone,
    TimezoneTable, TimezoneView, TzId, DAY_SECONDS, MAX_TIMESTAMP, MIN_TIMESTAMP,
};
use crate::types::{CalDateTimeError, CalDateTimeErrorView, Duration};
use vstd::prelude::*;

verus! {

/// What `chrono::NaiveDateTime::parse_from_str` reads from `text` under the
/// pattern `format`, as seconds since 1970 of the date and time it names.
pub uninterp spec fn parsed_datetime(text: Seq<char>, format: Seq<char>) -> Option<i64>;

/// What `chrono::NaiveDate::parse_from_str` reads from `text` under the
/// pattern `format`, as seconds since 1970 of the midnight that starts the date.
pub uninterp spec fn parsed_date(text: Seq<char>, format: Seq<char>) -> Option<i64>;

/// The text that `chrono` writes under the pattern `format` for the date and
/// time that lie `timestamp` seconds after 1970.
pub uninterp spec fn formatted_time(timestamp: i64, format: Seq<char>) -> Seq<char>;

/// The patterns under which dates and times are written.
pub open spec fn is_time_format(format: Seq<char>) -> bool {
    format == "%Y%m%d"@ || format == "%Y-%m-%d"@ || format == "%Y%m%dT%H%M%S"@ || format
        == "%Y%m%dT%H%M%SZ"@
}

/// Calls `chrono::NaiveDateTime::parse_from_str` and reads the outcome as
/// seconds since 1970. The contract only names the result.
#[verifier::external_body]
pub(crate) fn parse_datetime_text(text: &str, format: &str) -> (r: Option<i64>)
    ensures
        r == parsed_datetime(text@, format@),
{
    chrono::NaiveDateTime::parse_from_str(text, format).ok().map(|dt| dt.and_utc().timestamp())
}

/// Calls `chrono::NaiveDate::parse_from_str` and reads the outcome as seconds
/// since 1970 of its midnight. The contract only names the result.
#[verifier::external_body]
pub(crate) fn parse_date_text(text: &str, format: &str) -> (r: Option<i64>)
    ensures
        r == parsed_date(text@, format@),
{
    chrono::NaiveDate::parse_from_str(text, format).ok().map(
        |d| d.and_time(chrono::NaiveTime::MIN).and_utc().timestamp(),
    )
}

/// Calls `chrono::DateTime::from_timestamp` and `format` on the outcome. The
/// timestamp lies within the years that `chrono` can hold and the pattern is
/// one of the library's own, so neither call fails. The contract only names
/// the result.
#[verifier::external_body]
pub(crate) fn format_timestamp(timestamp: i64, format: &str) -> (r: String)
    requires
        near_range(timestamp as int),
        is_time_format(format@),
    ensures
        r@ == formatted_time(timestamp, format@),
{
    chrono::DateTime::from_timestamp(timestamp, 0).unwrap().naive_utc().format(format).to_string()
}

/// Whether a date-time can name the second `t`.
pub open spec fn in_range(t: int) -> bool {
    MIN_TIMESTAMP <= t <= MAX_TIMESTAMP
}

/// A date-time as a plain value: the instant, the local time of that instant
/// in its timezone (both in seconds since 1970) and the timezone.
pub struct CalDateTimeView {
    pub utc: int,
    pub local: int,
    pub timezone: TimezoneView,
}

/// A date and time of day in a timezone.
#[derive(Debug)]
pub struct CalDateTime {
    utc: i64,
    local: i64,
    timezone: Timezone,
}

impl View for CalDateTime {
    type V = CalDateTimeView;

    closed spec fn view(&self) -> CalDateTimeView {
        CalDateTimeView { utc: self.utc as int, local: self.local as int, timezone: self.timezone@ }
    }
}

impl Clone for CalDateTime {
    fn clone(&self) -> (r: Self)
        ensures
            r@ == self@,
    {
        proof {
            use_type_invariant(self);
        }
        CalDateTime { utc: self.utc, local: self.local, timezone: self.timezone.clone() }
    }
}

/// What every date-time fulfils: both times lie within a day of the years 0000
/// to 9999 and less than a day apart, and they are the same in floating local
/// time and in UTC.
pub open spec fn datetime_valid(v: CalDateTimeView) -> bool {
    &&& near_range(v.utc)
    &&& near_range(v.local)
    &&& -DAY_SECONDS < v.local - v.utc < DAY_SECONDS
    &&& (v.timezone is Local ==> v.local == v.utc)
    &&& (v.timezone == TimezoneView::Olson("UTC"@) ==> v.local == v.utc)
}

/// The date-time that `text` spells in the timezone `zone`, where no zone
/// means floating local time. The form without `Z` is tried first and is
/// taken as local time of the zone; the form with `Z` is UTC.
pub open spec fn datetime_of(text: Seq<char>, zone: Option<Seq<char>>) -> Result<
    CalDateTimeView,
    CalDateTimeErrorView,
> {
    datetime_from(
        text,
        parsed_datetime(text, "%Y%m%dT%H%M%S"@),
        parsed_datetime(text, "%Y%m%dT%H%M%SZ"@),
        zone,
    )
}

/// The date-time for what was read from `text`: `local` is the time that
/// the text spells in the form without `Z`, `utc` the time that it spells in
/// the form with `Z`, each in seconds since 1970 and nothing where the text
/// has not that form. A local time is the time of the zone, where there is
/// one, and must exist there; a time out of range and a text of neither
/// form are faults.
pub open spec fn datetime_from(
    text: Seq<char>,
    local: Option<i64>,
    utc: Option<i64>,
    zone: Option<Seq<char>>,
) -> Result<CalDateTimeView, CalDateTimeErrorView> {
    match local {
        Some(local) => if !in_range(local as int) {
            Err(CalDateTimeErrorView::InvalidDatetimeFormat(text))
        } else {
            match zone {
                None => Ok(
                    CalDateTimeView {
                        utc: local as int,
                        local: local as int,
                        timezone: TimezoneView::Local,
                    },
                ),
                Some(z) => if z == "UTC"@ {
                    Ok(
                        CalDateTimeView {
                            utc: local as int,
                            local: local as int,
                            timezone: TimezoneView::Olson(z),
                        },
                    )
                } else {
                    match zone_offset_at_local(z, local) {
                        Some(offset) => Ok(
                            CalDateTimeView {
                                utc: local - offset,
                                local: local as int,
                                timezone: TimezoneView::Olson(z),
                            },
                        ),
                        None => Err(CalDateTimeErrorView::LocalTimeGap),
                    }
                },
            }
        },
        None => match utc {
            Some(utc) => if in_range(utc as int) {
                Ok(
                    CalDateTimeView {
                        utc: utc as int,
                        local: utc as int,
                        timezone: TimezoneView::Olson("UTC"@),
                    },
                )
            } else {
                Err(CalDateTimeErrorView::InvalidDatetimeFormat(text))
            },
            None => Err(CalDateTimeErrorView::InvalidDatetimeFormat(text)),
        },
    }
}

/// The timezone that the `TZID` parameter of a property stands for under a
/// timezone table: no parameter and an identifier for which no timezone could
/// be found both give floating local time, an identifier that was never
/// declared is a fault.
pub open spec fn zone_of_property(
    prop: PropertyView,
    timezones: Map<Seq<char>, Option<Seq<char>>>,
) -> Result<Option<Seq<char>>, CalDateTimeErrorView> {
    match first_param(prop.params, "TZID"@) {
        None => Ok(None),
        Some(id) => if timezones.dom().contains(id) {
            Ok(timezones[id])
        } else {
            Err(CalDateTimeErrorView::InvalidTZID(id))
        },
    }
}

/// The date-time that a property holds under a timezone table.
pub open spec fn datetime_of_property(
    prop: PropertyView,
    timezones: Map<Seq<char>, Option<Seq<char>>>,
) -> Result<CalDateTimeView, CalDateTimeErrorView> {
    match prop.value {
        None => Err(CalDateTimeErrorView::InvalidDatetimeFormat("empty property"@)),
        Some(value) => match zone_of_property(prop, timezones) {
            Err(e) => Err(e),
            Ok(zone) => datetime_of(value, zone),
        },
    }
}

/// The outcome of reading a date-time, as a plain value.
pub open spec fn datetime_outcome(r: Result<CalDateTime, CalDateTimeError>) -> Result<
    CalDateTimeView,
    CalDateTimeErrorView,
> {
    match r {
        Ok(dt) => Ok(dt@),
        Err(e) => Err(e@),
    }
}

/// Looks up the timezone that the `TZID` parameter of `prop` stands for: see
/// [`zone_of_property`].
pub fn property_zone(prop: &Property, timezones: &TimezoneTable) -> (r: Result<
    Option<TzId>,
    CalDateTimeError,
>)
    ensures
        match r {
            Ok(zone) => zone_of_property(prop@, timezones@) == Ok::<
                Option<Seq<char>>,
                CalDateTimeErrorView,
            >(crate::types::timezone::optional_zone(zone)),
            Err(e) => zone_of_property(prop@, timezones@) == Err::<
                Option<Seq<char>>,
                CalDateTimeErrorView,
            >(e@),
        },
{
    match prop.get_tzid() {
        None => Ok(None),
        Some(id) => match timezones.get(id) {
            None => Err(CalDateTimeError::InvalidTZID(id.to_owned())),
            Some(None) => Ok(None),
            Some(Some(tz)) => Ok(Some(tz.clone())),
        },
    }
}

impl CalDateTime {
    #[verifier::type_invariant]
    spec fn inv(self) -> bool {
        datetime_valid(self@)
    }

    /// The instant `utc` in the timezone UTC.
    pub fn from_utc(utc: i64) -> (r: Option<CalDateTime>)
        ensures
            r is Some <==> in_range(utc as int),
            r matches Some(dt) ==> dt@ == (CalDateTimeView {
                utc: utc as int,
                local: utc as int,
                timezone: TimezoneView::Olson("UTC"@),
            }),
    {
        if MIN_TIMESTAMP <= utc && utc <= MAX_TIMESTAMP {
            Some(CalDateTime { utc, local: utc, timezone: Timezone::utc() })
        } else {
            None
        }
    }

    /// The floating local time `local`.
    pub fn from_local(local: i64) -> (r: Option<CalDateTime>)
        ensures
            r is Some <==> in_range(local as int),
            r matches Some(dt) ==> dt@ == (CalDateTimeView {
                utc: local as int,
                local: local as int,
                timezone: TimezoneView::Local,
            }),
    {
        if MIN_TIMESTAMP <= local && local <= MAX_TIMESTAMP {
            Some(CalDateTime { utc: local, local, timezone: Timezone::Local })
        } else {
            None
        }
    }

    /// The instant `utc` in the timezone `zone`.
    pub fn in_zone(utc: i64, zone: TzId) -> (r: Option<CalDateTime>)
        ensures
            r is Some <==> in_range(utc as int),
            r matches Some(dt) ==> dt@ == (CalDateTimeView {
                utc: utc as int,
                local: if zone@ == "UTC"@ {
                    utc as int
                } else {
                    utc + zone_offset_at_utc(zone@, utc)
                },
                timezone: TimezoneView::Olson(zone@),
            }),
    {
        if MIN_TIMESTAMP <= utc && utc <= MAX_TIMESTAMP {
            if zone.is_utc() {
                Some(CalDateTime { utc, local: utc, timezone: Timezone::Olson(zone) })
            } else {
                let offset = offset_at_utc(zone.name(), utc);
                Some(CalDateTime { utc, local: utc + offset as i64, timezone: Timezone::Olson(zone) })
            }
        } else {
            None
        }
    }

    /// The local time `local` of the instant `utc` in the timezone `zone`, if
    /// the two lie less than a day apart and in the years 0000 to 9999.
    pub fn from_parts(utc: i64, local: i64, zone: TzId) -> (r: Option<CalDateTime>)
        ensures
            r is Some <==> in_range(local as int) && -DAY_SECONDS < local - utc < DAY_SECONDS && (
            zone@ == "UTC"@ ==> local == utc),
            r matches Some(dt) ==> dt@ == (CalDateTimeView {
                utc: utc as int,
                local: local as int,
                timezone: TimezoneView::Olson(zone@),
            }),
    {
        if MIN_TIMESTAMP <= local && local <= MAX_TIMESTAMP && utc > local - DAY_SECONDS && utc
            < local + DAY_SECONDS && (local == utc || !zone.is_utc()) {
            Some(CalDateTime { utc, local, timezone: Timezone::Olson(zone) })
        } else {
            None
        }
    }

    /// Reads a date-time in the timezone `timezone`: see [`datetime_of`].
    pub fn parse(value: &str, timezone: Option<TzId>) -> (r: Result<CalDateTime, CalDateTimeError>)
        ensures
            datetime_outcome(r) == datetime_of(
                value@,
                crate::types::timezone::optional_zone(timezone),
            ),
    {
        let local = parse_datetime_text(value, "%Y%m%dT%H%M%S");
        let utc = parse_datetime_text(value, "%Y%m%dT%H%M%SZ");
        CalDateTime::from_readings(value, local, utc, timezone)
    }

    /// The date-time for what was read from a text: see [`datetime_from`].
    pub fn from_readings(
        text: &str,
        local: Option<i64>,
        utc: Option<i64>,
        timezone: Option<TzId>,
    ) -> (r: Result<CalDateTime, CalDateTimeError>)
        ensures
            datetime_outcome(r) == datetime_from(
                text@,
                local,
                utc,
                crate::types::timezone::optional_zone(timezone),
            ),
    {
        match local {
            Some(local) => {
                if local < MIN_TIMESTAMP || local > MAX_TIMESTAMP {
                    return Err(CalDateTimeError::InvalidDatetimeFormat(text.to_owned()));
                }
                match timezone {
                    None => Ok(CalDateTime { utc: local, local, timezone: Timezone::Local }),
                    Some(zone) => {
                        if zone.is_utc() {
                            Ok(CalDateTime { utc: local, local, timezone: Timezone::Olson(zone) })
                        } else {
                            match offset_at_local(zone.name(), local) {
                                Some(offset) => Ok(
                                    CalDateTime {
                                        utc: local - offset as i64,
                                        local,
                                        timezone: Timezone::Olson(zone),
                                    },
                                ),
                                None => Err(CalDateTimeError::LocalTimeGap),
                            }
                        }
                    },
                }
            },
            None => match utc {
                Some(utc) => {
                    if utc < MIN_TIMESTAMP || utc > MAX_TIMESTAMP {
                        Err(CalDateTimeError::InvalidDatetimeFormat(text.to_owned()))
                    } else {
                        Ok(CalDateTime { utc, local: utc, timezone: Timezone::utc() })
                    }
                },
                None => Err(CalDateTimeError::InvalidDatetimeFormat(text.to_owned())),
            },
        }
    }

    /// Reads the date-time that a property holds: see
    /// [`datetime_of_property`].
    pub fn parse_prop(prop: &Property, timezones: &TimezoneTable) -> (r: Result<
        CalDateTime,
        CalDateTimeError,
    >)
        ensures
            datetime_outcome(r) == datetime_of_property(prop@, timezones@),
    {
        let value = match &prop.value {
            None => {
                let text = "empty property";
                return Err(CalDateTimeError::InvalidDatetimeFormat(text.to_owned()));
            },
            Some(v) => v,
        };
        match property_zone(prop, timezones) {
            Err(e) => Err(e),
            Ok(zone) => CalDateTime::parse(value.as_str(), zone),
        }
    }

    /// The text of the date-time: its local time, with a `Z` behind it in UTC.
    pub fn format(&self) -> (r: String)
        ensures
            r@ == datetime_text(self@),
    {
        proof {
            use_type_invariant(self);
        }
        if self.timezone.is_utc() {
            format_timestamp(self.local, "%Y%m%dT%H%M%SZ")
        } else {
            format_timestamp(self.local, "%Y%m%dT%H%M%S")
        }
    }

    /// The instant, in seconds since 1970.
    pub fn utc(&self) -> (r: i64)
        ensures
            r == self@.utc,
            near_range(r as int),
    {
        proof {
            use_type_invariant(self);
        }
        self.utc
    }

    /// The local time, in seconds since 1970.
    pub fn local(&self) -> (r: i64)
        ensures
            r == self@.local,
            near_range(r as int),
    {
        proof {
            use_type_invariant(self);
        }
        self.local
    }

    /// The timezone.
    pub fn timezone(&self) -> (r: Timezone)
        ensures
            r@ == self@.timezone,
    {
        self.timezone.clone()
    }

    /// The day on which the local time lies, counted from 1 January 1970.
    pub fn date_floor(&self) -> (r: i64)
        ensures
            r == day_of(self@.local),
    {
        proof {
            use_type_invariant(self);
        }
        day_number(self.local)
    }

    /// The day after the one on which the local time lies.
    pub fn date_ceil(&self) -> (r: i64)
        ensures
            r == day_of(self@.local) + 1,
    {
        proof {
            use_type_invariant(self);
        }
        day_number(self.local) + 1
    }

    /// The same instant in the timezone in which values are compared: UTC, or
    /// floating local time for a floating value.
    pub fn utc_or_local(&self) -> (r: CalDateTime)
        ensures
            r@ == normal_datetime(self@),
    {
        proof {
            use_type_invariant(self);
        }
        CalDateTime { utc: self.utc, local: self.utc, timezone: self.timezone.utc_or_local() }
    }

    /// The date-time that lies `duration` later, in the same timezone; nothing
    /// where that instant lies outside the years 0000 to 9999.
    pub fn add(&self, duration: Duration) -> (r: Option<CalDateTime>)
        ensures
            r is Some <==> in_range(self@.utc + duration.value()),
            r matches Some(dt) ==> dt@ == shifted(self@, duration.value()),
    {
        proof {
            use_type_invariant(self);
        }
        let seconds = duration.num_seconds();
        let utc = self.utc + seconds;
        if utc < MIN_TIMESTAMP || utc > MAX_TIMESTAMP {
            return None;
        }
        match &self.timezone {
            Timezone::Local => Some(CalDateTime { utc, local: utc, timezone: Timezone::Local }),
            Timezone::Olson(zone) => CalDateTime::in_zone(utc, zone.clone()),
        }
    }
}

/// The date-time `duration` seconds after `v`, in the timezone of `v`.
pub open spec fn shifted(v: CalDateTimeView, seconds: int) -> CalDateTimeView {
    let utc = v.utc + seconds;
    CalDateTimeView {
        utc,
        local: match v.timezone {
            TimezoneView::Local => utc,
            TimezoneView::Olson(z) => if z == "UTC"@ {
                utc
            } else {
                utc + zone_offset_at_utc(z, utc as i64)
            },
        },
        timezone: v.timezone,
    }
}

/// See [`CalDateTime::utc_or_local`].
pub open spec fn normal_datetime(v: CalDateTimeView) -> CalDateTimeView {
    CalDateTimeView {
        utc: v.utc,
        local: v.utc,
        timezone: crate::types::timezone::normal_zone(v.timezone),
    }
}

/// The text of a date-time.
pub open spec fn datetime_text(v: CalDateTimeView) -> Seq<char> {
    if v.timezone == TimezoneView::Olson("UTC"@) {
        formatted_time(v.local as i64, "%Y%m%dT%H%M%SZ"@)
    } else {
        formatted_time(v.local as i64, "%Y%m%dT%H%M%S"@)
    }
}

/// The day on which the second `t` lies, counted from 1 January 1970.
pub open spec fn day_of(t: int) -> int {
    t / DAY_SECONDS as int
}

/// See [`day_of`].
pub fn day_number(t: i64) -> (r: i64)
    requires
        near_range(t as int),
    ensures
        r == day_of(t as int),
        -719529 <= r <= 2932897,
{
    let shifted: i64 = t + 719529 * 86400;
    let r = shifted / 86400 - 719529;
    assert(r == day_of(t as int)) by {
        assert((t + 719529 * 86400) / 86400 == t / 86400 + 719529) by (nonlinear_arith);
    }
    r
}

} // verus!
