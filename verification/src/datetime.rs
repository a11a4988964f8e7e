//! Reading `DTSTART`/`DTEND` properties into instants, and rendering
//! instants for output.
use vstd::prelude::*;
use crate::clock::{
    format_in_zone, format_on_machine, format_utc, localize_in_zone, localize_on_machine,
    naive_as_utc, naive_date_parse, naive_datetime_parse, parse_naive_date, parse_naive_datetime,
    parse_timezone, parse_timezone_spec, rfc3339_at_offset, utc_of_naive, utc_representable, valid_zone, utc_rfc3339, zone_local_instant,
    zone_rfc3339, NaiveDay, NaiveStamp, UtcInstant,
};
use crate::text::{
    ascii_lower_seq, chars_of, opt_str_view, opt_string_view, str_equals, string_from_chars,
    to_ascii_lowercase, trim, trim_spec,
};

verus! {

/// A property of a calendar component: its name, its value and its
/// parameters (name and value, in the order the component holds them).
#[derive(Debug)]
pub struct PropertyRecord {
    pub name: String,
    pub value: String,
    pub params: Vec<(String, String)>,
}

/// A date-time read from a property.
#[derive(Debug)]
pub struct ParsedDateTime {
    /// RFC 3339 text of the instant in the zone it was given in.
    pub iso: String,
    pub sort_utc: UtcInstant,
    pub timezone: Option<String>,
    pub is_all_day: bool,
}

/// The value of the first parameter named `key`.
pub open spec fn param_value(params: Seq<(String, String)>, key: Seq<char>) -> Option<Seq<char>>
    decreases params.len(),
{
    if params.len() == 0 {
        None
    } else if params[0].0@ == key {
        Some(params[0].1@)
    } else {
        param_value(params.drop_first(), key)
    }
}

/// Looks up a parameter by name.
pub fn find_param(params: &Vec<(String, String)>, key: &str) -> (r: Option<String>)
    ensures
        opt_string_view(r) == param_value(params@, key@),
{
    let mut k: usize = 0;
    assert(params@.skip(0) =~= params@);
    while k < params.len()
        invariant
            k <= params@.len(),
            param_value(params@, key@) == param_value(params@.skip(k as int), key@),
        decreases params@.len() - k,
    {
        assert(params@.skip(k as int)[0] == params@[k as int]);
        if str_equals(params[k].0.as_str(), key) {
            return Some(params[k].1.clone());
        }
        assert(params@.skip(k as int).drop_first() =~= params@.skip(k + 1));
        k = k + 1;
    }
    None
}

/// The zone a property's time is read in: its non-blank `TZID`
/// parameter, trimmed, else the calendar's zone.
pub open spec fn timezone_hint_spec(params: Seq<(String, String)>, calendar_timezone: Option<Seq<char>>) -> Option<Seq<char>> {
    match param_value(params, "TZID"@) {
        Some(v) => if trim_spec(v).len() > 0 {
            Some(trim_spec(v))
        } else {
            calendar_timezone
        },
        None => calendar_timezone,
    }
}

/// A property holds a date without a time when its `VALUE` parameter is
/// `DATE` in any ASCII case, or when its value is eight bytes long.
pub open spec fn all_day_spec(params: Seq<(String, String)>, value: Seq<char>) -> bool {
    (match param_value(params, "VALUE"@) {
        Some(v) => ascii_lower_seq(v) == ascii_lower_seq("DATE"@),
        None => false,
    }) || (vstd::utf8::encode_utf8(value).len() as usize) == 8
}

/// The zone a hint names, if any.
pub open spec fn hint_zone(hint: Option<Seq<char>>) -> Option<Seq<char>> {
    match hint {
        Some(h) => parse_timezone_spec(h),
        None => None,
    }
}

/// What reading a wall-clock time with a zone hint gives: in the hinted
/// zone when it names one, else in the machine's zone: the wall-clock
/// time read at some offset of less than a day, and its text at some
/// offset.
pub open spec fn resolved_spec(
    r: Option<ParsedDateTime>,
    naive: NaiveStamp,
    hint: Option<Seq<char>>,
    is_all_day: bool,
) -> bool {
    &&& match hint_zone(hint) {
        Some(zone) => match zone_local_instant(naive, zone) {
            None => r is None,
            Some(i) => r matches Some(p) && p.sort_utc == i && Some(p.iso@) == zone_rfc3339(i, zone)
                && opt_string_view(p.timezone) == Some(zone) && p.is_all_day == is_all_day,
        },
        None => match r {
            None => true,
            Some(p) => {
                &&& opt_string_view(p.timezone) == Some(
                    match hint {
                        Some(h) => h,
                        None => "floating"@,
                    },
                )
                &&& p.is_all_day == is_all_day
                &&& utc_of_naive(naive) matches Some(u) && -86400 < u.seconds - p.sort_utc.seconds < 86400
                    && p.sort_utc.nanos == u.nanos
                &&& exists|offset: int| -86400 < offset < 86400 && p.iso@ == rfc3339_at_offset(p.sort_utc, offset)
            },
        },
    }
    &&& r matches Some(p) ==> utc_representable(p.sort_utc)
}

/// Reads a wall-clock time in the zone a hint names, or else in the
/// machine's zone.
pub fn resolve_localized_datetime(naive: NaiveStamp, timezone_hint: Option<&str>, is_all_day: bool) -> (r: Option<ParsedDateTime>)
    ensures
        resolved_spec(r, naive, opt_str_view(timezone_hint), is_all_day),
{
    if let Some(name) = timezone_hint {
        if let Some(zone) = parse_timezone(name) {
            let i = match localize_in_zone(naive, zone.as_str()) {
                Some(i) => i,
                None => return None,
            };
            let iso = match format_in_zone(i, zone.as_str()) {
                Some(s) => s,
                None => {
                    assert(false);
                    return None;
                },
            };
            return Some(ParsedDateTime { iso, sort_utc: i, timezone: Some(zone), is_all_day });
        }
    }
    let local = localize_on_machine(naive);
    let text = match local {
        Some(i) => format_on_machine(i),
        None => None,
    };
    reading_from_machine(local, text, timezone_hint, is_all_day)
}

/// The reading of a wall-clock time in the machine's zone, from what the
/// machine gave: its instant there (`None` when the time does not occur
/// there) and that instant's text. The reading exists exactly when the
/// machine gave both; it carries them, tagged with the hint or, without
/// one, as "floating".
pub fn reading_from_machine(
    local: Option<UtcInstant>,
    text: Option<String>,
    timezone_hint: Option<&str>,
    is_all_day: bool,
) -> (r: Option<ParsedDateTime>)
    ensures
        r is Some <==> (local is Some && text is Some),
        r matches Some(p) ==> {
            &&& Some(p.sort_utc) == local
            &&& text matches Some(t) && p.iso@ == t@
            &&& opt_string_view(p.timezone) == Some(
                match timezone_hint {
                    Some(h) => h@,
                    None => "floating"@,
                },
            )
            &&& p.is_all_day == is_all_day
        },
{
    let i = match local {
        Some(i) => i,
        None => return None,
    };
    let iso = match text {
        Some(t) => t,
        None => return None,
    };
    let timezone = match timezone_hint {
        Some(h) => String::from_str(h),
        None => String::from_str("floating"),
    };
    Some(ParsedDateTime { iso, sort_utc: i, timezone: Some(timezone), is_all_day })
}

pub open spec fn midnight(d: NaiveDay) -> NaiveStamp {
    NaiveStamp { year: d.year, month: d.month, day: d.day, hour: 0, minute: 0, second: 0, nanos: 0 }
}

/// What reading a `DTSTART`/`DTEND` property gives.
pub open spec fn parsed_property_spec(
    r: Option<ParsedDateTime>,
    property: PropertyRecord,
    calendar_timezone: Option<Seq<char>>,
) -> bool {
    let value = trim_spec(property.value@);
    let hint = timezone_hint_spec(property.params@, calendar_timezone);
    if all_day_spec(property.params@, value) {
        match naive_date_parse(value, "%Y%m%d"@) {
            None => r is None,
            Some(d) => resolved_spec(r, midnight(d), hint, true),
        }
    } else if value.len() > 0 && value.last() == 'Z' {
        match naive_datetime_parse(value.drop_last(), "%Y%m%dT%H%M%S"@) {
            None => r is None,
            Some(n) => match utc_of_naive(n) {
                None => r is None,
                Some(i) => r matches Some(p) && p.sort_utc == i && Some(p.iso@) == utc_rfc3339(i)
                    && opt_string_view(p.timezone) == Some("UTC"@) && !p.is_all_day
                    && utc_representable(i),
            },
        }
    } else {
        match naive_datetime_parse(value, "%Y%m%dT%H%M%S"@) {
            None => r is None,
            Some(n) => resolved_spec(r, n, hint, false),
        }
    }
}

/// Reads a date or date-time property: a date is midnight in the hinted
/// zone, a time ending in `Z` is UTC, any other time is in the hinted zone.
pub fn parse_datetime_property(property: &PropertyRecord, calendar_timezone: Option<&str>) -> (r: Option<ParsedDateTime>)
    ensures
        parsed_property_spec(r, *property, opt_str_view(calendar_timezone)),
        r matches Some(p) ==> utc_representable(p.sort_utc),
{
    let value = trim(property.value.as_str());
    let tzid = find_param(&property.params, "TZID");
    let trimmed_tzid = match tzid {
        Some(v) => {
            let t = trim(v.as_str());
            if t.as_str().is_empty() {
                None
            } else {
                Some(t)
            }
        },
        None => None,
    };
    let hint: Option<&str> = match &trimmed_tzid {
        Some(t) => Some(t.as_str()),
        None => calendar_timezone,
    };
    let value_param = find_param(&property.params, "VALUE");
    let by_param = match value_param {
        Some(v) => {
            let a = to_ascii_lowercase(v.as_str());
            let b = to_ascii_lowercase("DATE");
            str_equals(a.as_str(), b.as_str())
        },
        None => false,
    };
    let byte_len = value.as_str().len();
    let is_all_day = by_param || byte_len == 8;
    if is_all_day {
        let d = match parse_naive_date(value.as_str(), "%Y%m%d") {
            Some(d) => d,
            None => return None,
        };
        let start_of_day = NaiveStamp {
            year: d.year,
            month: d.month,
            day: d.day,
            hour: 0,
            minute: 0,
            second: 0,
            nanos: 0,
        };
        return resolve_localized_datetime(start_of_day, hint, true);
    }
    let cs = chars_of(value.as_str());
    if cs.len() > 0 && cs[cs.len() - 1] == 'Z' {
        let mut head: Vec<char> = Vec::new();
        let mut k: usize = 0;
        let last = cs.len() - 1;
        while k < last
            invariant
                k <= last,
                last + 1 == cs@.len(),
                head@ =~= cs@.take(k as int),
            decreases cs@.len() - k,
        {
            head.push(cs[k]);
            k = k + 1;
        }
        assert(head@ =~= cs@.drop_last());
        let utc_value = string_from_chars(head.as_slice());
        let n = match parse_naive_datetime(utc_value.as_str(), "%Y%m%dT%H%M%S") {
            Some(n) => n,
            None => return None,
        };
        let i = match naive_as_utc(n) {
            Some(i) => i,
            None => return None,
        };
        let iso = match format_utc(i) {
            Some(s) => s,
            None => {
                assert(false);
                return None;
            },
        };
        return Some(
            ParsedDateTime {
                iso,
                sort_utc: i,
                timezone: Some(String::from_str("UTC")),
                is_all_day: false,
            },
        );
    }
    let n = match parse_naive_datetime(value.as_str(), "%Y%m%dT%H%M%S") {
        Some(n) => n,
        None => return None,
    };
    resolve_localized_datetime(n, hint, false)
}

/// The text an instant is rendered as, and the zone reported with it:
/// - in the display zone when one is set;
/// - else as the given text with the given zone;
/// - else in the machine's zone for a "floating" zone (the instant's
///   text at some offset), in the given zone when it names one, and in UTC otherwise
///   (reported under the given name, or as "UTC" when there is none).
pub open spec fn rendered_spec(
    r: (Seq<char>, Option<Seq<char>>),
    sort_utc: UtcInstant,
    fallback_iso: Option<Seq<char>>,
    fallback_timezone: Option<Seq<char>>,
    display_timezone: Option<Seq<char>>,
) -> bool {
    match display_timezone {
        Some(z) => Some(r.0) == zone_rfc3339(sort_utc, z) && r.1 == Some(z),
        None => match fallback_iso {
            Some(iso) => r == (iso, fallback_timezone),
            None => match fallback_timezone {
                Some(t) => if t == "floating"@ {
                    r.1 == Some("floating"@) && exists|offset: int|
                        -86400 < offset < 86400 && r.0 == rfc3339_at_offset(sort_utc, offset)
                } else {
                    match parse_timezone_spec(t) {
                        Some(z) => Some(r.0) == zone_rfc3339(sort_utc, z) && r.1 == Some(z),
                        None => Some(r.0) == utc_rfc3339(sort_utc) && r.1 == Some(t),
                    }
                },
                None => Some(r.0) == utc_rfc3339(sort_utc) && r.1 == Some("UTC"@),
            },
        },
    }
}

/// A display zone is a zone name chrono_tz knows.
pub open spec fn display_zone_ok(display_timezone: Option<Seq<char>>) -> bool {
    display_timezone matches Some(z) ==> valid_zone(z)
}

/// Renders an instant for output.
pub fn format_output_datetime(
    sort_utc: UtcInstant,
    fallback_iso: Option<&str>,
    fallback_timezone: Option<&str>,
    display_timezone: Option<&str>,
) -> (r: (String, Option<String>))
    requires
        utc_representable(sort_utc),
        display_zone_ok(opt_str_view(display_timezone)),
    ensures
        rendered_spec(
            (r.0@, opt_string_view(r.1)),
            sort_utc,
            opt_str_view(fallback_iso),
            opt_str_view(fallback_timezone),
            opt_str_view(display_timezone),
        ),
{
    if let Some(zone) = display_timezone {
        let iso = match format_in_zone(sort_utc, zone) {
            Some(iso) => iso,
            None => {
                assert(false);
                String::new()
            },
        };
        return (iso, Some(String::from_str(zone)));
    }
    if let Some(iso) = fallback_iso {
        let zone = match fallback_timezone {
            Some(t) => Some(String::from_str(t)),
            None => None,
        };
        return (String::from_str(iso), zone);
    }
    match fallback_timezone {
        Some(t) => {
            if str_equals(t, "floating") {
                let iso = match format_on_machine(sort_utc) {
                    Some(iso) => iso,
                    None => {
                        assert(false);
                        String::new()
                    },
                };
                (iso, Some(String::from_str("floating")))
            } else {
                match parse_timezone(t) {
                    Some(z) => {
                        let iso = match format_in_zone(sort_utc, z.as_str()) {
                            Some(iso) => iso,
                            None => {
                                assert(false);
                                String::new()
                            },
                        };
                        (iso, Some(z))
                    },
                    None => {
                        let iso = match format_utc(sort_utc) {
                            Some(iso) => iso,
                            None => {
                                assert(false);
                                String::new()
                            },
                        };
                        (iso, Some(String::from_str(t)))
                    },
                }
            }
        },
        None => {
            let iso = match format_utc(sort_utc) {
                Some(iso) => iso,
                None => {
                    assert(false);
                    String::new()
                },
            };
            (iso, Some(String::from_str("UTC")))
        },
    }
}

} // verus!
