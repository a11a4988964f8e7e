//! The iCalendar document model of the `icalendar` crate: parsing, the
//! calendar's properties and events, and recurrence expansion.
use vstd::prelude::*;
use icalendar::{Component, EventLike};
use crate::clock::{instant_le, naive_datetime_parse, utc_of_naive, utc_representable, zone_local_instant, UtcInstant};
use crate::datetime::PropertyRecord;
use crate::text::opt_string_view;

verus! {

#[verifier::external_type_specification]
#[verifier::external_body]
pub struct ExCalendar(icalendar::Calendar);

#[verifier::external_type_specification]
#[verifier::external_body]
pub struct ExEvent(icalendar::Event);

#[verifier::external_type_specification]
#[verifier::external_body]
pub struct ExCalendarComponent(icalendar::CalendarComponent);

/// The error text of parsing `contents` as an iCalendar document, or
/// `None` when it parses (`<icalendar::Calendar as FromStr>::from_str`).
pub uninterp spec fn ics_parse_error(contents: Seq<char>) -> Option<Seq<char>>;

/// The calendar that parsing `contents` as an iCalendar document gives,
/// where it parses (`<icalendar::Calendar as FromStr>::from_str`).
pub uninterp spec fn ics_parsed_calendar(contents: Seq<char>) -> icalendar::Calendar;

/// `contents.parse::<icalendar::Calendar>()`; whether it fails, with
/// which text, and the calendar it gives are functions of the contents.
#[verifier::external_body]
pub(crate) fn parse_calendar(contents: &str) -> (r: Result<icalendar::Calendar, String>)
    ensures
        match r {
            Ok(c) => ics_parse_error(contents@) is None && c == ics_parsed_calendar(contents@),
            Err(e) => ics_parse_error(contents@) == Some(e@),
        },
{
    contents.parse::<icalendar::Calendar>()
}

/// The top-level properties of a calendar, as key and value, in order.
pub uninterp spec fn calendar_properties_of(cal: icalendar::Calendar) -> Seq<(Seq<char>, Seq<char>)>;

/// The `Event` components of a calendar, in order.
pub uninterp spec fn calendar_events_of(cal: icalendar::Calendar) -> Seq<icalendar::Event>;

/// The value of the first property with key `key`
/// (`Calendar::property_value`).
pub open spec fn first_property_value(props: Seq<(Seq<char>, Seq<char>)>, key: Seq<char>) -> Option<Seq<char>>
    decreases props.len(),
{
    if props.len() == 0 {
        None
    } else if props[0].0 == key {
        Some(props[0].1)
    } else {
        first_property_value(props.drop_first(), key)
    }
}

/// `Calendar::get_name`: the value of the `NAME` property, else of the
/// `X-WR-CALNAME` property.
#[verifier::external_body]
pub(crate) fn calendar_name(cal: &icalendar::Calendar) -> (r: Option<String>)
    ensures
        opt_string_view(r) == match first_property_value(calendar_properties_of(*cal), "NAME"@) {
            Some(v) => Some(v),
            None => first_property_value(calendar_properties_of(*cal), "X-WR-CALNAME"@),
        },
{
    cal.get_name().map(str::to_owned)
}

/// `Calendar::get_timezone`: the value of the `X-WR-TIMEZONE` property.
#[verifier::external_body]
pub(crate) fn calendar_timezone(cal: &icalendar::Calendar) -> (r: Option<String>)
    ensures
        opt_string_view(r) == first_property_value(calendar_properties_of(*cal), "X-WR-TIMEZONE"@),
{
    cal.get_timezone().map(str::to_owned)
}

/// `Calendar::events`, each event cloned.
#[verifier::external_body]
pub(crate) fn calendar_events(cal: &icalendar::Calendar) -> (r: Vec<icalendar::Event>)
    ensures
        r@ == calendar_events_of(*cal),
{
    cal.events().cloned().collect()
}

/// A property as plain values: key, value, and parameters as key and value.
pub open spec fn property_view(p: PropertyRecord) -> (Seq<char>, Seq<char>, Seq<(Seq<char>, Seq<char>)>) {
    (p.name@, p.value@, p.params@.map_values(|kv: (String, String)| (kv.0@, kv.1@)))
}

pub open spec fn properties_view(v: Seq<PropertyRecord>) -> Seq<(Seq<char>, Seq<char>, Seq<(Seq<char>, Seq<char>)>)> {
    v.map_values(|p: PropertyRecord| property_view(p))
}

/// The single-valued properties of an event, by key in key order
/// (`Component::properties`).
pub uninterp spec fn event_properties_of(e: icalendar::Event) -> Seq<(Seq<char>, Seq<char>, Seq<(Seq<char>, Seq<char>)>)>;

/// The multi-valued properties of an event, by key in key order and then
/// in insertion order (`Component::multi_properties`).
pub uninterp spec fn event_multi_properties_of(e: icalendar::Event) -> Seq<(Seq<char>, Seq<char>, Seq<(Seq<char>, Seq<char>)>)>;

/// `Component::properties` of an event, each property with its map key,
/// value and parameters.
#[verifier::external_body]
pub(crate) fn event_properties(e: &icalendar::Event) -> (r: Vec<PropertyRecord>)
    ensures
        properties_view(r@) == event_properties_of(*e),
{
    e.properties().iter().map(|(k, p)| PropertyRecord {
        name: k.clone(),
        value: p.value().to_owned(),
        params: p.params().iter().map(|(n, v)| (n.clone(), v.value().to_owned())).collect(),
    }).collect()
}

/// `Component::multi_properties` of an event, flattened, each property
/// with its map key, value and parameters.
#[verifier::external_body]
pub(crate) fn event_multi_properties(e: &icalendar::Event) -> (r: Vec<PropertyRecord>)
    ensures
        properties_view(r@) == event_multi_properties_of(*e),
{
    e.multi_properties().iter().flat_map(|(k, ps)| ps.iter().map(move |p| PropertyRecord {
        name: k.clone(),
        value: p.value().to_owned(),
        params: p.params().iter().map(|(n, v)| (n.clone(), v.value().to_owned())).collect(),
    })).collect()
}

/// One occurrence of a recurring event: its instant and the name of the
/// zone it was generated in.
#[derive(Debug)]
pub struct Occurrence {
    pub instant: UtcInstant,
    pub zone: String,
}

/// Occurrences as plain values: instant and zone name.
pub open spec fn occurrence_pairs(v: Seq<Occurrence>) -> Seq<(UtcInstant, Seq<char>)> {
    v.map_values(|o: Occurrence| (o.instant, o.zone@))
}

pub open spec fn occurrences_view(r: Option<Vec<Occurrence>>) -> Option<Seq<Occurrence>> {
    match r {
        Some(v) => Some(v@),
        None => None,
    }
}

/// Whether a property's parameters hold one with key `key`.
pub open spec fn has_param(params: Seq<(Seq<char>, Seq<char>)>, key: Seq<char>) -> bool {
    exists|k: int| 0 <= k < params.len() && (#[trigger] params[k]).0 == key
}

/// A date-time text in UTC: digits and `T`, ending in `Z`.
pub open spec fn utc_stamp_text(v: Seq<char>) -> bool {
    &&& v.len() > 0
    &&& v.last() == 'Z'
    &&& forall|k: int| 0 <= k < v.len() - 1 ==> ('0' <= #[trigger] v[k] <= '9' || v[k] == 'T')
}

/// A date property whose instants do not depend on the machine's zone:
/// it names its zone with `TZID`, or its value is a UTC date-time.
pub open spec fn zoned_property(p: (Seq<char>, Seq<char>, Seq<(Seq<char>, Seq<char>)>)) -> bool {
    has_param(p.2, "TZID"@) || utc_stamp_text(p.1)
}

/// Every `DTSTART`, `RDATE` and `EXDATE` of the event names its zone or is
/// in UTC, so that the rule set is read without the machine's zone.
pub open spec fn zoned_event(
    props: Seq<(Seq<char>, Seq<char>, Seq<(Seq<char>, Seq<char>)>)>,
    multi: Seq<(Seq<char>, Seq<char>, Seq<(Seq<char>, Seq<char>)>)>,
) -> bool {
    &&& forall|k: int| 0 <= k < props.len() && (#[trigger] props[k]).0 == "DTSTART"@ ==> zoned_property(props[k])
    &&& forall|k: int|
        0 <= k < multi.len() && ((#[trigger] multi[k]).0 == "RDATE"@ || multi[k].0 == "EXDATE"@)
            ==> zoned_property(multi[k])
}

/// The occurrences, with their zones' names, of the rule set that
/// `EventLike::get_recurrence` builds from an event with these properties
/// and multi-valued properties, between the bounds and at most `budget`
/// of them (`RRuleSet::after`, `before` and `all`); `None` when the rule
/// set cannot be built.
pub uninterp spec fn zoned_recurrence(
    props: Seq<(Seq<char>, Seq<char>, Seq<(Seq<char>, Seq<char>)>)>,
    multi: Seq<(Seq<char>, Seq<char>, Seq<(Seq<char>, Seq<char>)>)>,
    lower: Option<UtcInstant>,
    upper: UtcInstant,
    budget: int,
) -> Option<Seq<(UtcInstant, Seq<char>)>>;

/// The value of the first parameter with key `key`.
pub open spec fn param_value(params: Seq<(Seq<char>, Seq<char>)>, key: Seq<char>) -> Option<Seq<char>>
    decreases params.len(),
{
    if params.len() == 0 {
        None
    } else if params[0].0 == key {
        Some(params[0].1)
    } else {
        param_value(params.drop_first(), key)
    }
}

/// A wall-clock date-time text: digits and `T` only.
pub open spec fn local_stamp_text(v: Seq<char>) -> bool {
    &&& v.len() > 0
    &&& forall|k: int| 0 <= k < v.len() ==> ('0' <= #[trigger] v[k] <= '9' || v[k] == 'T')
}

/// The whole second of an `EXDATE` that gives one date-time: a UTC
/// date-time without `TZID`, read as a wall-clock time in UTC; or a
/// wall-clock date-time with `TZID`, read in that zone.
pub open spec fn excluded_second(p: (Seq<char>, Seq<char>, Seq<(Seq<char>, Seq<char>)>)) -> Option<int> {
    if p.0 != "EXDATE"@ {
        None
    } else if has_param(p.2, "TZID"@) {
        match param_value(p.2, "TZID"@) {
            Some(zone) => if local_stamp_text(p.1) {
                match naive_datetime_parse(p.1, "%Y%m%dT%H%M%S"@) {
                    Some(n) => match zone_local_instant(n, zone) {
                        Some(x) => Some(x.seconds as int),
                        None => None,
                    },
                    None => None,
                }
            } else {
                None
            },
            None => None,
        }
    } else if utc_stamp_text(p.1) {
        match naive_datetime_parse(p.1.drop_last(), "%Y%m%dT%H%M%S"@) {
            Some(n) => match utc_of_naive(n) {
                Some(x) => Some(x.seconds as int),
                None => None,
            },
            None => None,
        }
    } else {
        None
    }
}

/// An instant is not on the second an `EXDATE` property excludes.
pub open spec fn not_excluded_by(i: UtcInstant, p: (Seq<char>, Seq<char>, Seq<(Seq<char>, Seq<char>)>)) -> bool {
    match excluded_second(p) {
        Some(x) => i.seconds != x,
        None => true,
    }
}

/// What a rule set yields for an event: at most `budget` instants chrono
/// represents, each within the bounds, in order of time, none on the
/// second of an `EXDATE` (given in UTC or with its zone); and, where the
/// event's dates name their zones, the occurrences the properties
/// determine.
pub open spec fn rule_outcome(
    e: icalendar::Event,
    lower: Option<UtcInstant>,
    upper: UtcInstant,
    budget: int,
    o: Option<Seq<Occurrence>>,
) -> bool {
    &&& o matches Some(v) ==> {
        &&& v.len() <= budget
        &&& forall|k: int|
            0 <= k < v.len() ==> {
                &&& utc_representable(#[trigger] v[k].instant)
                &&& instant_le(v[k].instant, upper)
                &&& lower matches Some(l) ==> instant_le(l, v[k].instant)
            }
        &&& forall|k: int, m: int| 0 <= k < m < v.len() ==> instant_le(#[trigger] v[k].instant, #[trigger] v[m].instant)
        &&& forall|k: int, m: int|
            0 <= k < v.len() && 0 <= m < event_multi_properties_of(e).len() ==> not_excluded_by(
                #[trigger] v[k].instant,
                #[trigger] event_multi_properties_of(e)[m],
            )
    }
    &&& zoned_event(event_properties_of(e), event_multi_properties_of(e)) ==> zoned_recurrence(
        event_properties_of(e),
        event_multi_properties_of(e),
        lower,
        upper,
        budget,
    ) == match o {
        Some(v) => Some(occurrence_pairs(v)),
        None => None,
    }
}

/// `EventLike::get_recurrence`, then `RRuleSet::after(lower)` where there
/// is a lower bound, `before(upper)` and `all(budget)`: the occurrences of
/// the event's `DTSTART`, `RRULE`, `RDATE` and `EXDATE` between the bounds
/// (both included), each with its zone's name, or `None` when the rule set
/// cannot be built. rrule yields them merged in order of time (an `RDATE`
/// that repeats a rule's date comes twice), and drops every date whose
/// whole second is that of an `EXDATE`. A date without a zone is read
/// in the machine's zone, so the occurrences are named only where the
/// event's dates name their zones; otherwise only the order, the bounds
/// and the count are stated.
#[verifier::external_body]
pub(crate) fn event_occurrences(
    e: &icalendar::Event,
    lower: Option<UtcInstant>,
    upper: UtcInstant,
    budget: u16,
) -> (r: Option<Vec<Occurrence>>)
    requires
        lower matches Some(l) ==> utc_representable(l),
        utc_representable(upper),
    ensures
        rule_outcome(*e, lower, upper, budget as int, occurrences_view(r)),
        zoned_event(event_properties_of(*e), event_multi_properties_of(*e)) ==> zoned_recurrence(
            event_properties_of(*e),
            event_multi_properties_of(*e),
            lower,
            upper,
            budget as int,
        ) == match r {
            Some(v) => Some(occurrence_pairs(v@)),
            None => None,
        },
{
    let mut set = e.get_recurrence().ok()?;
    let tz = set.get_dt_start().timezone();
    if let Some(l) = lower {
        set = set.after(chrono::DateTime::from_timestamp(l.seconds, l.nanos)?.with_timezone(&tz));
    }
    set = set.before(chrono::DateTime::from_timestamp(upper.seconds, upper.nanos)?.with_timezone(&tz));
    Some(set.all(budget).dates.into_iter().map(|d| {
        let u = d.with_timezone(&chrono::Utc);
        Occurrence {
            instant: UtcInstant { seconds: u.timestamp(), nanos: u.timestamp_subsec_nanos() },
            zone: d.timezone().to_string(),
        }
    }).collect())
}

} // verus!
