//! Instants, local date-times and time zones. Calendar arithmetic and
//! time-zone data come from `chrono` and `chrono_tz`, each call behind a
//! wrapper that names its result.
use vstd::prelude::*;
use chrono::{Datelike, TimeZone, Timelike};
use crate::text::{chars_of, str_equals, trim_chars, string_from_chars, trim_class, CharClass};

verus! {

/// A point in time: whole seconds since the Unix epoch and the nanoseconds
/// within that second, as `DateTime::timestamp` and
/// `DateTime::timestamp_subsec_nanos` give them (a leap second carries
/// nanoseconds of one billion or more).
#[derive(Debug, Clone, Copy, PartialEq, Eq, Structural)]
pub struct UtcInstant {
    pub seconds: i64,
    pub nanos: u32,
}

/// A date and wall-clock time without a time zone.
#[derive(Debug, Clone, Copy, PartialEq, Eq, Structural)]
pub struct NaiveStamp {
    pub year: i32,
    pub month: u32,
    pub day: u32,
    pub hour: u32,
    pub minute: u32,
    pub second: u32,
    pub nanos: u32,
}

/// A calendar date.
#[derive(Debug, Clone, Copy, PartialEq, Eq, Structural)]
pub struct NaiveDay {
    pub year: i32,
    pub month: u32,
    pub day: u32,
}

/// The order of instants: by second, then by nanosecond (the order of
/// `DateTime<Utc>`).
pub open spec fn instant_le(a: UtcInstant, b: UtcInstant) -> bool {
    a.seconds < b.seconds || (a.seconds == b.seconds && a.nanos <= b.nanos)
}

pub open spec fn instant_lt(a: UtcInstant, b: UtcInstant) -> bool {
    a.seconds < b.seconds || (a.seconds == b.seconds && a.nanos < b.nanos)
}

pub fn instant_le_exec(a: UtcInstant, b: UtcInstant) -> (r: bool)
    ensures
        r == instant_le(a, b),
{
    a.seconds < b.seconds || (a.seconds == b.seconds && a.nanos <= b.nanos)
}

pub fn instant_lt_exec(a: UtcInstant, b: UtcInstant) -> (r: bool)
    ensures
        r == instant_lt(a, b),
{
    a.seconds < b.seconds || (a.seconds == b.seconds && a.nanos < b.nanos)
}

/// Whether chrono represents the instant as a `DateTime<Utc>`
/// (`DateTime::from_timestamp(seconds, nanos)` is `Some`).
pub uninterp spec fn utc_representable(i: UtcInstant) -> bool;

/// `chrono::DateTime::from_timestamp(..).is_some()`. chrono's dates span
/// the years -262143 to 262142, so every instant within 8e12 seconds of
/// the epoch with fewer than 1e9 nanoseconds is represented; nanoseconds
/// of 1e9 or more (a leap second) only in the last second of a minute,
/// and never 2e9 or more.
#[verifier::external_body]
pub(crate) fn is_representable(i: UtcInstant) -> (r: bool)
    ensures
        r == utc_representable(i),
        i.nanos < 1_000_000_000 && -8_000_000_000_000 <= i.seconds <= 8_000_000_000_000 ==> r,
        r ==> i.nanos < 2_000_000_000 && (i.nanos >= 1_000_000_000 ==> (i.seconds as int) % 60 == 59),
{
    chrono::DateTime::from_timestamp(i.seconds, i.nanos).is_some()
}

/// What `NaiveDateTime::parse_from_str(value, format)` yields.
pub uninterp spec fn naive_datetime_parse(value: Seq<char>, format: Seq<char>) -> Option<NaiveStamp>;

/// `chrono::NaiveDateTime::parse_from_str`; the result is a function of
/// the two strings.
#[verifier::external_body]
pub(crate) fn parse_naive_datetime(value: &str, format: &str) -> (r: Option<NaiveStamp>)
    ensures
        r == naive_datetime_parse(value@, format@),
{
    let n = chrono::NaiveDateTime::parse_from_str(value, format).ok()?;
    Some(NaiveStamp {
        year: n.year(),
        month: n.month(),
        day: n.day(),
        hour: n.hour(),
        minute: n.minute(),
        second: n.second(),
        nanos: n.nanosecond(),
    })
}

/// What `NaiveDate::parse_from_str(value, format)` yields.
pub uninterp spec fn naive_date_parse(value: Seq<char>, format: Seq<char>) -> Option<NaiveDay>;

/// `chrono::NaiveDate::parse_from_str`; the result is a function of the
/// two strings.
#[verifier::external_body]
pub(crate) fn parse_naive_date(value: &str, format: &str) -> (r: Option<NaiveDay>)
    ensures
        r == naive_date_parse(value@, format@),
{
    let d = chrono::NaiveDate::parse_from_str(value, format).ok()?;
    Some(NaiveDay { year: d.year(), month: d.month(), day: d.day() })
}

/// The instant of a wall-clock time read in UTC (`Utc.from_utc_datetime`),
/// `None` when the fields name no valid date and time.
pub uninterp spec fn utc_of_naive(n: NaiveStamp) -> Option<UtcInstant>;

/// `chrono::Utc.from_utc_datetime` on the date-time the fields name.
#[verifier::external_body]
pub(crate) fn naive_as_utc(n: NaiveStamp) -> (r: Option<UtcInstant>)
    ensures
        r == utc_of_naive(n),
        r matches Some(i) ==> utc_representable(i),
{
    let naive = chrono::NaiveDate::from_ymd_opt(n.year, n.month, n.day)?.and_hms_nano_opt(
        n.hour,
        n.minute,
        n.second,
        n.nanos,
    )?;
    let dt = chrono::Utc.from_utc_datetime(&naive);
    Some(UtcInstant { seconds: dt.timestamp(), nanos: dt.timestamp_subsec_nanos() })
}

/// The RFC 3339 text of an instant in UTC (`DateTime<Utc>::to_rfc3339`),
/// `None` when chrono cannot represent the instant.
pub uninterp spec fn utc_rfc3339(i: UtcInstant) -> Option<Seq<char>>;

/// `chrono::DateTime::<Utc>::to_rfc3339`; it gives text for every instant
/// chrono represents.
#[verifier::external_body]
pub(crate) fn format_utc(i: UtcInstant) -> (r: Option<String>)
    ensures
        crate::text::opt_string_view(r) == utc_rfc3339(i),
        r is Some <==> utc_representable(i),
{
    chrono::DateTime::from_timestamp(i.seconds, i.nanos).map(|d| d.to_rfc3339())
}

/// The canonical name of the IANA time zone `value` names exactly
/// (`chrono_tz::Tz::from_str` followed by `Tz::name`).
pub uninterp spec fn iana_zone_name(value: Seq<char>) -> Option<Seq<char>>;

/// `value.parse::<chrono_tz::Tz>()` and `Tz::name`. chrono_tz looks the
/// text up in a table whose keys are the zones' names, so a zone it finds
/// is named exactly by the text.
#[verifier::external_body]
pub(crate) fn lookup_zone_name(value: &str) -> (r: Option<String>)
    ensures
        crate::text::opt_string_view(r) == iana_zone_name(value@),
        r matches Some(n) ==> n@ == value@,
{
    value.parse::<chrono_tz::Tz>().ok().map(|tz| tz.name().to_owned())
}

/// The instant at which the wall-clock time `n` occurs in the IANA zone
/// `zone` (`TimeZone::from_local_datetime`, the earlier instant when the
/// time occurs twice), `None` when it does not occur there or `zone` is no
/// zone name.
pub uninterp spec fn zone_local_instant(n: NaiveStamp, zone: Seq<char>) -> Option<UtcInstant>;

/// `chrono_tz::Tz::from_local_datetime`.
#[verifier::external_body]
pub(crate) fn localize_in_zone(n: NaiveStamp, zone: &str) -> (r: Option<UtcInstant>)
    ensures
        r == zone_local_instant(n, zone@),
        r matches Some(i) ==> utc_representable(i),
{
    let tz = zone.parse::<chrono_tz::Tz>().ok()?;
    let naive = chrono::NaiveDate::from_ymd_opt(n.year, n.month, n.day)?.and_hms_nano_opt(
        n.hour,
        n.minute,
        n.second,
        n.nanos,
    )?;
    let dt = match tz.from_local_datetime(&naive) {
        chrono::LocalResult::Single(value) => value,
        chrono::LocalResult::Ambiguous(first, _) => first,
        chrono::LocalResult::None => return None,
    };
    Some(UtcInstant { seconds: dt.timestamp(), nanos: dt.timestamp_subsec_nanos() })
}

/// The RFC 3339 text of an instant as wall-clock time in the IANA zone
/// `zone` (`DateTime::with_timezone` and `to_rfc3339`).
pub uninterp spec fn zone_rfc3339(i: UtcInstant, zone: Seq<char>) -> Option<Seq<char>>;

/// `chrono::DateTime::with_timezone` into a `chrono_tz::Tz`, then
/// `to_rfc3339`; it gives text for every instant chrono represents and
/// every zone name chrono_tz knows.
#[verifier::external_body]
pub(crate) fn format_in_zone(i: UtcInstant, zone: &str) -> (r: Option<String>)
    ensures
        crate::text::opt_string_view(r) == zone_rfc3339(i, zone@),
        r is Some <==> (utc_representable(i) && iana_zone_name(zone@) is Some),
{
    let tz = zone.parse::<chrono_tz::Tz>().ok()?;
    chrono::DateTime::from_timestamp(i.seconds, i.nanos).map(|d| d.with_timezone(&tz).to_rfc3339())
}

/// The RFC 3339 text of an instant as wall-clock time at a fixed offset
/// of `offset` seconds east of UTC (`DateTime<FixedOffset>::to_rfc3339`).
pub uninterp spec fn rfc3339_at_offset(i: UtcInstant, offset: int) -> Seq<char>;

/// `chrono::Local.from_local_datetime`: the instant of a wall-clock time
/// in the time zone of the machine, the earlier one when the time occurs
/// twice there. Which offset the machine's zone has is not a function of
/// the arguments, so stated is that the instant is the wall-clock time
/// read at some offset of less than a day, and that chrono represents it.
#[verifier::external_body]
pub(crate) fn localize_on_machine(n: NaiveStamp) -> (r: Option<UtcInstant>)
    ensures
        r matches Some(i) ==> utc_representable(i),
        r matches Some(i) ==> (utc_of_naive(n) matches Some(u) && -86400 < u.seconds - i.seconds < 86400
            && i.nanos == u.nanos),
{
    let naive = chrono::NaiveDate::from_ymd_opt(n.year, n.month, n.day)?.and_hms_nano_opt(
        n.hour,
        n.minute,
        n.second,
        n.nanos,
    )?;
    let dt = match chrono::Local.from_local_datetime(&naive) {
        chrono::LocalResult::Single(value) => value,
        chrono::LocalResult::Ambiguous(first, _) => first,
        chrono::LocalResult::None => return None,
    };
    Some(UtcInstant { seconds: dt.timestamp(), nanos: dt.timestamp_subsec_nanos() })
}

/// `chrono::DateTime::with_timezone(&Local)` and `to_rfc3339`: the RFC 3339
/// text of an instant in the machine's time zone. The machine's offset is
/// not a function of the arguments, so stated is that the text is the
/// instant's at some offset, and that there is one for every instant
/// chrono represents.
#[verifier::external_body]
pub(crate) fn format_on_machine(i: UtcInstant) -> (r: Option<String>)
    ensures
        r is Some <==> utc_representable(i),
        r matches Some(t) ==> exists|offset: int| -86400 < offset < 86400 && t@ == rfc3339_at_offset(i, offset),
{
    chrono::DateTime::from_timestamp(i.seconds, i.nanos).map(|d| d.with_timezone(&chrono::Local).to_rfc3339())
}

/// Nanoseconds since the Unix epoch.
pub open spec fn nanos_since_epoch(i: UtcInstant) -> int {
    i.seconds * 1_000_000_000 + i.nanos
}

/// Integer division rounding toward zero.
pub open spec fn div_toward_zero(x: int, d: int) -> int
    recommends
        d > 0,
{
    if x >= 0 {
        x / d
    } else {
        -((-x) / d)
    }
}

/// `i` moved back by `days` days (`TimeDelta::try_days` and
/// `DateTime::checked_sub_signed`); `None` where chrono's `DateTime -
/// TimeDelta::days(days)` panics.
pub uninterp spec fn minus_days_spec(i: UtcInstant, days: int) -> Option<UtcInstant>;

/// `i` moved forward by `days` days (`TimeDelta::try_days` and
/// `DateTime::checked_add_signed`); `None` where chrono's `DateTime +
/// TimeDelta::days(days)` panics.
pub uninterp spec fn plus_days_spec(i: UtcInstant, days: int) -> Option<UtcInstant>;

/// `DateTime::<Utc>::checked_sub_signed(TimeDelta::try_days(days))`.
#[verifier::external_body]
pub(crate) fn minus_days(i: UtcInstant, days: i64) -> (r: Option<UtcInstant>)
    ensures
        r == minus_days_spec(i, days as int),
        r matches Some(j) ==> utc_representable(j),
        r matches Some(j) ==> (i.nanos < 1_000_000_000 ==> j.seconds == i.seconds - 86400 * days && j.nanos == i.nanos),
{
    let delta = chrono::TimeDelta::try_days(days)?;
    let dt = chrono::DateTime::from_timestamp(i.seconds, i.nanos)?.checked_sub_signed(delta)?;
    Some(UtcInstant { seconds: dt.timestamp(), nanos: dt.timestamp_subsec_nanos() })
}

/// `DateTime::<Utc>::checked_add_signed(TimeDelta::try_days(days))`.
#[verifier::external_body]
pub(crate) fn plus_days(i: UtcInstant, days: i64) -> (r: Option<UtcInstant>)
    ensures
        r == plus_days_spec(i, days as int),
        r matches Some(j) ==> utc_representable(j),
        r matches Some(j) ==> (i.nanos < 1_000_000_000 ==> j.seconds == i.seconds + 86400 * days && j.nanos == i.nanos),
{
    let delta = chrono::TimeDelta::try_days(days)?;
    let dt = chrono::DateTime::from_timestamp(i.seconds, i.nanos)?.checked_add_signed(delta)?;
    Some(UtcInstant { seconds: dt.timestamp(), nanos: dt.timestamp_subsec_nanos() })
}

/// `base` moved by the span from `from` to `to` (`to - from`, then
/// `checked_add_signed`); `None` where chrono's `base + (to - from)`
/// panics.
pub uninterp spec fn shifted_by_span(base: UtcInstant, from: UtcInstant, to: UtcInstant) -> Option<UtcInstant>;

/// `DateTime::<Utc>::checked_add_signed(to - from)`.
#[verifier::external_body]
pub(crate) fn shift_by_span(base: UtcInstant, from: UtcInstant, to: UtcInstant) -> (r: Option<UtcInstant>)
    ensures
        r == shifted_by_span(base, from, to),
        r matches Some(j) ==> utc_representable(j),
        r matches Some(j) ==> (base.nanos < 1_000_000_000 && from.nanos < 1_000_000_000 && to.nanos
            < 1_000_000_000 ==> j.nanos < 1_000_000_000 && nanos_since_epoch(j) == nanos_since_epoch(base)
            + nanos_since_epoch(to) - nanos_since_epoch(from)),
{
    let from = chrono::DateTime::from_timestamp(from.seconds, from.nanos)?;
    let to = chrono::DateTime::from_timestamp(to.seconds, to.nanos)?;
    let dt = chrono::DateTime::from_timestamp(base.seconds, base.nanos)?.checked_add_signed(to - from)?;
    Some(UtcInstant { seconds: dt.timestamp(), nanos: dt.timestamp_subsec_nanos() })
}

/// The whole days from `from` to `to` (`(to - from).num_days()`).
pub uninterp spec fn whole_days_between(from: UtcInstant, to: UtcInstant) -> Option<int>;

/// `TimeDelta::num_days` of `to - from`; chrono measures the span between
/// any two instants it represents.
#[verifier::external_body]
pub(crate) fn days_between(from: UtcInstant, to: UtcInstant) -> (r: Option<i64>)
    ensures
        match r {
            Some(d) => whole_days_between(from, to) == Some(d as int),
            None => whole_days_between(from, to) is None,
        },
        utc_representable(from) && utc_representable(to) ==> r is Some,
        r matches Some(d) ==> (from.nanos < 1_000_000_000 && to.nanos < 1_000_000_000 ==> d == div_toward_zero(
            nanos_since_epoch(to) - nanos_since_epoch(from),
            86_400_000_000_000,
        )),
{
    let from = chrono::DateTime::from_timestamp(from.seconds, from.nanos)?;
    let to = chrono::DateTime::from_timestamp(to.seconds, to.nanos)?;
    Some((to - from).num_days())
}

/// The Windows-style zone names that are accepted as aliases.
pub open spec fn zone_alias(name: Seq<char>) -> Option<Seq<char>> {
    if name == "Pacific Standard Time"@ {
        Some("America/Los_Angeles"@)
    } else if name == "Mountain Standard Time"@ {
        Some("America/Denver"@)
    } else if name == "Central Standard Time"@ {
        Some("America/Chicago"@)
    } else if name == "Eastern Standard Time"@ {
        Some("America/New_York"@)
    } else {
        None
    }
}

/// The zone a time-zone text names: surrounding double quotes are
/// dropped, then an alias or an IANA name is looked up.
pub open spec fn parse_timezone_spec(value: Seq<char>) -> Option<Seq<char>> {
    let t = trim_class(value, CharClass::Quote);
    match zone_alias(t) {
        Some(z) => iana_zone_name(z),
        None => iana_zone_name(t),
    }
}

/// A zone name chrono_tz knows, as it names itself.
pub open spec fn valid_zone(z: Seq<char>) -> bool {
    iana_zone_name(z) == Some(z)
}

/// Resolves a time-zone text to the canonical name of the zone it names.
pub fn parse_timezone(value: &str) -> (r: Option<String>)
    ensures
        crate::text::opt_string_view(r) == parse_timezone_spec(value@),
        r matches Some(z) ==> valid_zone(z@),
{
    let v = chars_of(value);
    let t = trim_chars(v.as_slice(), CharClass::Quote);
    let name = string_from_chars(t.as_slice());
    if str_equals(name.as_str(), "Pacific Standard Time") {
        lookup_zone_name("America/Los_Angeles")
    } else if str_equals(name.as_str(), "Mountain Standard Time") {
        lookup_zone_name("America/Denver")
    } else if str_equals(name.as_str(), "Central Standard Time") {
        lookup_zone_name("America/Chicago")
    } else if str_equals(name.as_str(), "Eastern Standard Time") {
        lookup_zone_name("America/New_York")
    } else {
        lookup_zone_name(name.as_str())
    }
}

/// The error text for a display time zone that names no zone.
pub open spec fn invalid_display_timezone_message(value: Seq<char>) -> Seq<char> {
    "Invalid --display-timezone value: "@ + value
}

/// Resolves the display time zone of a query, or says why it cannot.
pub fn parse_display_timezone(value: &str) -> (r: Result<String, String>)
    ensures
        match parse_timezone_spec(value@) {
            Some(z) => r matches Ok(n) && n@ == z && valid_zone(z),
            None => r matches Err(e) && e@ == invalid_display_timezone_message(value@),
        },
{
    match parse_timezone(value) {
        Some(z) => Ok(z),
        None => Err(String::from_str("Invalid --display-timezone value: ").concat(value)),
    }
}

} // verus!
