//! Timezones: the floating local time, the timezones of the timezone database,
//! and the table that maps the identifiers of a document to them.
use chrono::{Offset, TimeZone};
use vstd::prelude::*;

verus! {

/// The first second that a date-time can name: midnight of 1 January of the
/// year 0000.
pub const MIN_TIMESTAMP: i64 = -62_167_219_200;

/// The last second that a date-time can name: the end of 31 December 9999.
pub const MAX_TIMESTAMP: i64 = 253_402_300_799;

/// The seconds of a day.
pub const DAY_SECONDS: i64 = 86_400;

/// Whether `t` lies within a day of the seconds that a date-time can name; a
/// local time and its instant both do, whatever the offset between them.
pub open spec fn near_range(t: int) -> bool {
    MIN_TIMESTAMP - DAY_SECONDS <= t <= MAX_TIMESTAMP + DAY_SECONDS
}

/// Whether the timezone database knows `name`, that is, whether
/// `chrono_tz::Tz::from_str` accepts it.
pub uninterp spec fn is_iana_zone(name: Seq<char>) -> bool;

/// The offset from UTC, in seconds to the east, that the timezone `name` has
/// at the instant `utc`, as `chrono_tz` computes it.
pub uninterp spec fn zone_offset_at_utc(name: Seq<char>, utc: i64) -> i32;

/// The offset from UTC that the timezone `name` has at the local time
/// `local`, as `chrono_tz` computes it: nothing where the local time is
/// skipped, the earlier of the two where it occurs twice.
pub uninterp spec fn zone_offset_at_local(name: Seq<char>, local: i64) -> Option<i32>;

/// Calls `chrono_tz::Tz::from_str`, which looks the name up among the names
/// of the timezone database, letter for letter.
#[verifier::external_body]
fn iana_zone_known(name: &str) -> (r: bool)
    ensures
        r == is_iana_zone(name@),
{
    name.parse::<chrono_tz::Tz>().is_ok()
}

/// Calls `chrono_tz::Tz::name` on the timezone `UTC`: the name is `UTC`, and
/// the timezone database knows it.
#[verifier::external_body]
fn utc_zone_name() -> (r: String)
    ensures
        r@ == "UTC"@,
        is_iana_zone(r@),
{
    chrono_tz::UTC.name().to_owned()
}

/// Calls `TimeZone::offset_from_utc_datetime` of `chrono_tz::Tz` and reads the
/// offset in seconds. An offset of `chrono` is always shorter than a day.
#[verifier::external_body]
pub(crate) fn offset_at_utc(zone: &str, utc: i64) -> (r: i32)
    requires
        is_iana_zone(zone@),
        near_range(utc as int),
    ensures
        r == zone_offset_at_utc(zone@, utc),
        -DAY_SECONDS < r < DAY_SECONDS,
{
    let tz: chrono_tz::Tz = zone.parse().unwrap();
    let naive = chrono::DateTime::from_timestamp(utc, 0).unwrap().naive_utc();
    tz.offset_from_utc_datetime(&naive).fix().local_minus_utc()
}

/// Calls `TimeZone::offset_from_local_datetime` of `chrono_tz::Tz`, takes the
/// earliest of the offsets it finds and reads it in seconds. An offset of
/// `chrono` is always shorter than a day.
#[verifier::external_body]
pub(crate) fn offset_at_local(zone: &str, local: i64) -> (r: Option<i32>)
    requires
        is_iana_zone(zone@),
        near_range(local as int),
    ensures
        r == zone_offset_at_local(zone@, local),
        r matches Some(offset) ==> -DAY_SECONDS < offset < DAY_SECONDS,
{
    let tz: chrono_tz::Tz = zone.parse().unwrap();
    let naive = chrono::DateTime::from_timestamp(local, 0).unwrap().naive_utc();
    tz.offset_from_local_datetime(&naive).earliest().map(|o| o.fix().local_minus_utc())
}

/// The name of a timezone that the timezone database knows.
#[derive(Debug, PartialEq, Eq, Hash)]
pub struct TzId {
    name: String,
}

impl View for TzId {
    type V = Seq<char>;

    closed spec fn view(&self) -> Seq<char> {
        self.name@
    }
}

impl DeepView for TzId {
    type V = Seq<char>;

    open spec fn deep_view(&self) -> Seq<char> {
        self@
    }
}

impl Clone for TzId {
    fn clone(&self) -> (r: Self)
        ensures
            r@ == self@,
    {
        proof {
            use_type_invariant(self);
        }
        TzId { name: self.name.clone() }
    }
}

impl TzId {
    #[verifier::type_invariant]
    spec fn inv(self) -> bool {
        is_iana_zone(self.name@)
    }

    /// The timezone with the given name, if the timezone database knows it.
    pub fn parse(name: &str) -> (r: Option<TzId>)
        ensures
            r is Some <==> is_iana_zone(name@),
            r matches Some(tz) ==> tz@ == name@,
    {
        if iana_zone_known(name) {
            Some(TzId { name: name.to_owned() })
        } else {
            None
        }
    }

    /// The timezone `UTC`.
    pub fn utc() -> (r: TzId)
        ensures
            r@ == "UTC"@,
    {
        TzId { name: utc_zone_name() }
    }

    /// The name of the timezone.
    pub fn name(&self) -> (r: &str)
        ensures
            r@ == self@,
            is_iana_zone(r@),
    {
        proof {
            use_type_invariant(self);
        }
        self.name.as_str()
    }

    /// Whether this is the timezone `UTC`.
    pub fn is_utc(&self) -> (r: bool)
        ensures
            r == (self@ == "UTC"@),
    {
        self.name.as_str().eq("UTC")
    }
}

/// The timezone of a date or time value.
#[derive(Debug, PartialEq, Eq)]
pub enum Timezone {
    /// Floating time: no fixed offset from UTC.
    Local,
    /// A timezone of the timezone database.
    Olson(TzId),
}

/// A timezone as a plain value.
pub enum TimezoneView {
    Local,
    Olson(Seq<char>),
}

impl View for Timezone {
    type V = TimezoneView;

    open spec fn view(&self) -> TimezoneView {
        match self {
            Timezone::Local => TimezoneView::Local,
            Timezone::Olson(tz) => TimezoneView::Olson(tz@),
        }
    }
}

impl Clone for Timezone {
    fn clone(&self) -> (r: Self)
        ensures
            r@ == self@,
    {
        match self {
            Timezone::Local => Timezone::Local,
            Timezone::Olson(tz) => Timezone::Olson(tz.clone()),
        }
    }
}

impl Timezone {
    /// Whether this is the floating local time.
    pub fn is_local(&self) -> (r: bool)
        ensures
            r == (self@ is Local),
    {
        match self {
            Timezone::Local => true,
            Timezone::Olson(_) => false,
        }
    }

    /// The timezone `UTC`.
    pub fn utc() -> (r: Timezone)
        ensures
            r@ == TimezoneView::Olson("UTC"@),
    {
        Timezone::Olson(TzId::utc())
    }

    /// Whether this is the timezone `UTC`.
    pub fn is_utc(&self) -> (r: bool)
        ensures
            r == (self@ == TimezoneView::Olson("UTC"@)),
    {
        match self {
            Timezone::Local => false,
            Timezone::Olson(tz) => tz.is_utc(),
        }
    }

    /// The floating local time where `zone` is nothing, else the timezone.
    pub fn from_zone(zone: Option<TzId>) -> (r: Timezone)
        ensures
            r@ == zone_view(zone),
    {
        match zone {
            None => Timezone::Local,
            Some(tz) => Timezone::Olson(tz),
        }
    }

    /// The timezone in which values are compared: the floating local time
    /// stays what it is, every timezone becomes `UTC`.
    pub fn utc_or_local(&self) -> (r: Timezone)
        ensures
            r@ == normal_zone(self@),
    {
        match self {
            Timezone::Local => Timezone::Local,
            Timezone::Olson(_) => Timezone::utc(),
        }
    }
}

/// The timezone that an optional timezone identifier stands for.
pub open spec fn zone_view(zone: Option<TzId>) -> TimezoneView {
    match zone {
        None => TimezoneView::Local,
        Some(tz) => TimezoneView::Olson(tz@),
    }
}

/// See [`Timezone::utc_or_local`].
pub open spec fn normal_zone(zone: TimezoneView) -> TimezoneView {
    match zone {
        TimezoneView::Local => TimezoneView::Local,
        TimezoneView::Olson(_) => TimezoneView::Olson("UTC"@),
    }
}

/// The name of the timezone database for some identifiers that are in wide
/// use and are no names of that database.
pub open spec fn proprietary_zone(id: Seq<char>) -> Option<Seq<char>> {
    if id == "W. Europe Standard Time"@ {
        Some("Europe/Berlin"@)
    } else if id == "Central Europe Standard Time"@ {
        Some("Europe/Budapest"@)
    } else if id == "Central European Standard Time"@ {
        Some("Europe/Warsaw"@)
    } else if id == "Romance Standard Time"@ {
        Some("Europe/Paris"@)
    } else if id == "GMT Standard Time"@ {
        Some("Europe/London"@)
    } else if id == "Greenwich Standard Time"@ {
        Some("Atlantic/Reykjavik"@)
    } else if id == "E. Europe Standard Time"@ {
        Some("Europe/Chisinau"@)
    } else if id == "Russian Standard Time"@ {
        Some("Europe/Moscow"@)
    } else if id == "Eastern Standard Time"@ {
        Some("America/New_York"@)
    } else if id == "Central Standard Time"@ {
        Some("America/Chicago"@)
    } else if id == "Mountain Standard Time"@ {
        Some("America/Denver"@)
    } else if id == "Pacific Standard Time"@ {
        Some("America/Los_Angeles"@)
    } else if id == "India Standard Time"@ {
        Some("Asia/Kolkata"@)
    } else if id == "China Standard Time"@ {
        Some("Asia/Shanghai"@)
    } else if id == "Tokyo Standard Time"@ {
        Some("Asia/Tokyo"@)
    } else if id == "AUS Eastern Standard Time"@ {
        Some("Australia/Sydney"@)
    } else {
        None
    }
}

/// See [`proprietary_zone`].
pub fn proprietary_zone_name(id: &str) -> (r: Option<&'static str>)
    ensures
        match r {
            Some(name) => proprietary_zone(id@) == Some(name@),
            None => proprietary_zone(id@) is None,
        },
{
    if id.eq("W. Europe Standard Time") {
        Some("Europe/Berlin")
    } else if id.eq("Central Europe Standard Time") {
        Some("Europe/Budapest")
    } else if id.eq("Central European Standard Time") {
        Some("Europe/Warsaw")
    } else if id.eq("Romance Standard Time") {
        Some("Europe/Paris")
    } else if id.eq("GMT Standard Time") {
        Some("Europe/London")
    } else if id.eq("Greenwich Standard Time") {
        Some("Atlantic/Reykjavik")
    } else if id.eq("E. Europe Standard Time") {
        Some("Europe/Chisinau")
    } else if id.eq("Russian Standard Time") {
        Some("Europe/Moscow")
    } else if id.eq("Eastern Standard Time") {
        Some("America/New_York")
    } else if id.eq("Central Standard Time") {
        Some("America/Chicago")
    } else if id.eq("Mountain Standard Time") {
        Some("America/Denver")
    } else if id.eq("Pacific Standard Time") {
        Some("America/Los_Angeles")
    } else if id.eq("India Standard Time") {
        Some("Asia/Kolkata")
    } else if id.eq("China Standard Time") {
        Some("Asia/Shanghai")
    } else if id.eq("Tokyo Standard Time") {
        Some("Asia/Tokyo")
    } else if id.eq("AUS Eastern Standard Time") {
        Some("Australia/Sydney")
    } else {
        None
    }
}

/// The timezone that a timezone definition stands for. Three names are tried
/// in this order, and the first that the timezone database knows wins: the
/// location hint of the definition, its identifier, and the name that
/// [`proprietary_zone`] gives for its identifier. Where none is known the
/// definition stands for no timezone.
pub open spec fn resolved_zone(location: Option<Seq<char>>, id: Seq<char>) -> Option<Seq<char>> {
    if location is Some && is_iana_zone(location->0) {
        location
    } else if is_iana_zone(id) {
        Some(id)
    } else if proprietary_zone(id) is Some && is_iana_zone(proprietary_zone(id)->0) {
        proprietary_zone(id)
    } else {
        None
    }
}

/// An optional timezone identifier as a plain value.
pub open spec fn optional_zone(zone: Option<TzId>) -> Option<Seq<char>> {
    match zone {
        Some(tz) => Some(tz@),
        None => None,
    }
}

/// An optional text as a plain value.
pub open spec fn optional_text(text: Option<&str>) -> Option<Seq<char>> {
    match text {
        Some(t) => Some(t@),
        None => None,
    }
}

/// Finds the timezone of a timezone definition from its location hint and its
/// identifier: see [`resolved_zone`].
pub fn resolve_zone(location: Option<&str>, id: &str) -> (r: Option<TzId>)
    ensures
        optional_zone(r) == resolved_zone(optional_text(location), id@),
{
    if let Some(hint) = location {
        if let Some(tz) = TzId::parse(hint) {
            return Some(tz);
        }
    }
    if let Some(tz) = TzId::parse(id) {
        return Some(tz);
    }
    if let Some(name) = proprietary_zone_name(id) {
        if let Some(tz) = TzId::parse(name) {
            return Some(tz);
        }
    }
    None
}

/// What a document says of its timezone identifiers: each declared identifier
/// with the timezone that it stands for, or with nothing where none could be
/// found for it.
#[derive(Debug)]
pub struct TimezoneTable {
    entries: Vec<(String, Option<TzId>)>,
}

/// The timezone table that holds `entries[..n]`, written one after the other:
/// a later entry replaces an earlier one with the same identifier.
pub open spec fn table_of(entries: Seq<(Seq<char>, Option<Seq<char>>)>, n: int) -> Map<
    Seq<char>,
    Option<Seq<char>>,
>
    decreases n,
{
    if n <= 0 {
        Map::empty()
    } else {
        table_of(entries, n - 1).insert(entries[n - 1].0, entries[n - 1].1)
    }
}

impl View for TimezoneTable {
    type V = Map<Seq<char>, Option<Seq<char>>>;

    closed spec fn view(&self) -> Map<Seq<char>, Option<Seq<char>>> {
        table_of(self.entries.deep_view(), self.entries.len() as int)
    }
}

impl TimezoneTable {
    /// The table without entries.
    pub fn new() -> (r: TimezoneTable)
        ensures
            r@ == Map::<Seq<char>, Option<Seq<char>>>::empty(),
    {
        TimezoneTable { entries: Vec::new() }
    }

    /// Declares the identifier `id` to stand for `zone`.
    pub fn insert(&mut self, id: String, zone: Option<TzId>)
        ensures
            final(self)@ == old(self)@.insert(id@, optional_zone(zone)),
    {
        let ghost before = self.entries;
        let ghost item = (id, zone);
        self.entries.push((id, zone));
        proof {
            crate::property::lemma_push_deep_view(before, self.entries, item);
            assert(self.entries.deep_view().take(before.len() as int) =~= before.deep_view());
            assert(before.deep_view().take(before.len() as int) =~= before.deep_view());
            lemma_table_prefix(self.entries.deep_view(), before.deep_view(), before.len() as int);
        }
    }

    /// What the table says of `id`: `None` where the identifier was never
    /// declared, else the timezone it stands for, if any.
    pub fn get(&self, id: &str) -> (r: Option<Option<&TzId>>)
        ensures
            match r {
                None => !self@.dom().contains(id@),
                Some(zone) => self@.dom().contains(id@) && self@[id@] == match zone {
                    Some(tz) => Some(tz@),
                    None => None,
                },
            },
    {
        let ghost entries = self.entries.deep_view();
        let mut i: usize = self.entries.len();
        while i > 0
            invariant
                i <= self.entries.len(),
                entries == self.entries.deep_view(),
                table_of(entries, self.entries.len() as int).dom().contains(id@) <==> table_of(
                    entries,
                    i as int,
                ).dom().contains(id@),
                table_of(entries, i as int).dom().contains(id@) ==> table_of(
                    entries,
                    self.entries.len() as int,
                )[id@] == table_of(entries, i as int)[id@],
            decreases i,
        {
            i -= 1;
            assert(entries[i as int] == self.entries[i as int].deep_view());
            if self.entries[i].0.as_str().eq(id) {
                return match &self.entries[i].1 {
                    Some(tz) => Some(Some(tz)),
                    None => Some(None),
                };
            }
        }
        None
    }
}

proof fn lemma_table_prefix(
    a: Seq<(Seq<char>, Option<Seq<char>>)>,
    b: Seq<(Seq<char>, Option<Seq<char>>)>,
    n: int,
)
    requires
        0 <= n <= a.len(),
        n <= b.len(),
        a.take(n) == b.take(n),
    ensures
        table_of(a, n) == table_of(b, n),
    decreases n,
{
    if n > 0 {
        assert(a.take(n)[n - 1] == a[n - 1]);
        assert(b.take(n)[n - 1] == b[n - 1]);
        assert(a.take(n - 1) =~= a.take(n).take(n - 1));
        assert(b.take(n - 1) =~= b.take(n).take(n - 1));
        lemma_table_prefix(a, b, n - 1);
    }
}

} // verus!
