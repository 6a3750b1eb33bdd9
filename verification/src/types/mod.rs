//! Date, time, duration and timezone values.
pub mod date;
pub mod dateordatetime;
pub mod period;
pub mod datetime;
pub mod duration;
pub mod timezone;
pub mod vcard;

use vstd::prelude::*;

pub use crate::types::date::{CalDate, CalDateView};
pub use crate::types::dateordatetime::{CalDateOrDateTime, CalDateOrDateTimeView};
pub use crate::types::period::{DateOrDateTimeOrPeriod, DateTimeOrDuration, Period};
pub use crate::types::datetime::{CalDateTime, CalDateTimeView};
pub use crate::types::duration::{parse_duration, Duration, InvalidDuration};
pub use crate::types::vcard::{PartialDate, PartialDateAndOrTime, PartialDateTime, PartialTime};
pub use crate::types::timezone::{resolve_zone, Timezone, TimezoneTable, TimezoneView, TzId};

verus! {

/// Why a date or time value could not be read.
#[derive(Debug, PartialEq, Eq)]
pub enum CalDateTimeError {
    /// A location hint names no timezone of the timezone database.
    InvalidOlson(String),
    /// A `TZID` parameter names a timezone that the document never declared.
    InvalidTZID(String),
    /// The local time does not exist in its timezone.
    LocalTimeGap,
    /// The text has none of the accepted forms.
    InvalidDatetimeFormat(String),
    /// The text has an accepted form but names no date.
    ParseError(String),
    /// The text is no duration.
    InvalidDurationFormat(String),
    /// The `VALUE` parameter names a type that the property cannot hold.
    InvalidValueType(String),
}

/// A date or time error as a plain value.
pub enum CalDateTimeErrorView {
    InvalidOlson(Seq<char>),
    InvalidTZID(Seq<char>),
    LocalTimeGap,
    InvalidDatetimeFormat(Seq<char>),
    ParseError(Seq<char>),
    InvalidDurationFormat(Seq<char>),
    InvalidValueType(Seq<char>),
}

impl View for CalDateTimeError {
    type V = CalDateTimeErrorView;

    open spec fn view(&self) -> CalDateTimeErrorView {
        match self {
            CalDateTimeError::InvalidOlson(s) => CalDateTimeErrorView::InvalidOlson(s@),
            CalDateTimeError::InvalidTZID(s) => CalDateTimeErrorView::InvalidTZID(s@),
            CalDateTimeError::LocalTimeGap => CalDateTimeErrorView::LocalTimeGap,
            CalDateTimeError::InvalidDatetimeFormat(s) => CalDateTimeErrorView::InvalidDatetimeFormat(
                s@,
            ),
            CalDateTimeError::ParseError(s) => CalDateTimeErrorView::ParseError(s@),
            CalDateTimeError::InvalidDurationFormat(s) => CalDateTimeErrorView::InvalidDurationFormat(
                s@,
            ),
            CalDateTimeError::InvalidValueType(s) => CalDateTimeErrorView::InvalidValueType(s@),
        }
    }
}

} // verus!
