//! From the events of a calendar to the normalized schedule: reading each
//! event, expanding recurrences, keeping what falls in the window, and
//! ordering and limiting the result.
use vstd::prelude::*;
use crate::classify::{
    event_type_of, haystack_spec, infer_event_type, infer_opponent, infer_opponent_spec,
    infer_venue_type, normalize_text, normalize_text_spec, synthesize_uid, venue_type_of,
    VenueType,
};
use crate::clock::{
    instant_le, instant_le_exec, instant_lt, whole_days_between,
    format_utc, is_representable, lookup_zone_name, shift_by_span, shifted_by_span, utc_representable,
    utc_rfc3339, UtcInstant,
};
use crate::ical::{
    event_multi_properties, event_multi_properties_of, event_occurrences, event_properties,
    event_properties_of, not_excluded_by, occurrences_view, properties_view, rule_outcome, Occurrence, calendar_events, calendar_events_of, calendar_name,
    calendar_properties_of, calendar_timezone, first_property_value, ics_parse_error, ics_parsed_calendar,
    parse_calendar,
};
use crate::datetime::{
    display_zone_ok, format_output_datetime, parse_datetime_property, parsed_property_spec,
    rendered_spec, ParsedDateTime, PropertyRecord,
};
use crate::output::{
    law_selection_keeps_candidate_property, lemma_insert_after_earlier, lemma_insert_before_later,
    lemma_sort_keeps_property, select_events, sort_by_start, sort_and_limit, starts_sorted, AppliedFilter, CalendarOutput, EventOutput, SortableEvent,
    SourceMetadata,
};
use crate::mode::{mode_name, ScheduleMode};
use crate::schedule::{
    budget_spec, in_window, is_event_in_window, law_upcoming_is_current_or_next, query_window, recurrence_budget, window_spec,
    ScheduleQuery,
};
use crate::text::{clone_opt_string, opt_str_view, opt_string_view, str_equals};

verus! {

/// The value of the first property named `key`
/// (`Component::property_value`).
pub open spec fn record_value(props: Seq<PropertyRecord>, key: Seq<char>) -> Option<Seq<char>>
    decreases props.len(),
{
    if props.len() == 0 {
        None
    } else if props[0].name@ == key {
        Some(props[0].value@)
    } else {
        record_value(props.drop_first(), key)
    }
}

/// The position of the first property named `key`.
pub open spec fn record_index(props: Seq<PropertyRecord>, key: Seq<char>) -> Option<int>
    decreases props.len(),
{
    if props.len() == 0 {
        None
    } else if props[0].name@ == key {
        Some(0)
    } else {
        match record_index(props.drop_first(), key) {
            Some(i) => Some(i + 1),
            None => None,
        }
    }
}

/// Finds the first property named `key`.
pub fn property_index(props: &Vec<PropertyRecord>, key: &str) -> (r: Option<usize>)
    ensures
        match r {
            Some(i) => record_index(props@, key@) == Some(i as int) && i < props@.len(),
            None => record_index(props@, key@) is None,
        },
        match r {
            Some(i) => record_value(props@, key@) == Some(props@[i as int].value@),
            None => record_value(props@, key@) is None,
        },
{
    let mut k: usize = 0;
    assert(props@.skip(0) =~= props@);
    while k < props.len()
        invariant
            k <= props@.len(),
            record_value(props@, key@) == record_value(props@.skip(k as int), key@),
            match record_index(props@, key@) {
                Some(i) => record_index(props@.skip(k as int), key@) == Some(i - k),
                None => record_index(props@.skip(k as int), key@) is None,
            },
        decreases props@.len() - k,
    {
        assert(props@.skip(k as int)[0] == props@[k as int]);
        if str_equals(props[k].name.as_str(), key) {
            return Some(k);
        }
        assert(props@.skip(k as int).drop_first() =~= props@.skip(k + 1));
        k = k + 1;
    }
    None
}

/// `Component::property_value` on the event's properties.
pub fn property_value(props: &Vec<PropertyRecord>, key: &str) -> (r: Option<String>)
    ensures
        opt_string_view(r) == record_value(props@, key@),
{
    match property_index(props, key) {
        Some(i) => Some(props[i].value.clone()),
        None => None,
    }
}

/// Whether the event recurs: it has an `RRULE` property, or an `RDATE`
/// or `EXDATE` among its multi-valued properties.
pub open spec fn has_recurrence_spec(props: Seq<PropertyRecord>, multi: Seq<PropertyRecord>) -> bool {
    record_index(props, "RRULE"@) is Some || record_index(multi, "RDATE"@) is Some || record_index(
        multi,
        "EXDATE"@,
    ) is Some
}

pub fn has_recurrence_rules(props: &Vec<PropertyRecord>, multi: &Vec<PropertyRecord>) -> (b: bool)
    ensures
        b == has_recurrence_spec(props@, multi@),
{
    property_index(props, "RRULE").is_some() || property_index(multi, "RDATE").is_some()
        || property_index(multi, "EXDATE").is_some()
}

/// What every occurrence of an event shares.
#[derive(Debug)]
pub struct EventTemplate {
    pub uid: String,
    pub title: String,
    /// The event's own start and end; an occurrence lasts as long.
    pub end_span: Option<(UtcInstant, UtcInstant)>,
    pub timezone: Option<String>,
    pub status: Option<String>,
    pub is_all_day: bool,
    pub location: Option<String>,
    pub description: Option<String>,
    pub event_type: String,
    pub venue_type: VenueType,
    pub opponent: Option<String>,
}

pub open spec fn title_spec(props: Seq<PropertyRecord>) -> Seq<char> {
    match normalize_text_spec(record_value(props, "SUMMARY"@)) {
        Some(t) => t,
        None => "Untitled event"@,
    }
}

pub open spec fn description_spec(props: Seq<PropertyRecord>) -> Option<Seq<char>> {
    normalize_text_spec(record_value(props, "DESCRIPTION"@))
}

/// The template of an event read from its properties and its start and
/// end: text fields trimmed (a missing title reads "Untitled event"), the
/// zone of the start or else of the calendar, the UID or else title and
/// start, and the classification of title and description.
pub open spec fn template_spec(
    t: EventTemplate,
    props: Seq<PropertyRecord>,
    start: ParsedDateTime,
    end: Option<ParsedDateTime>,
    calendar_timezone: Option<Seq<char>>,
) -> bool {
    let title = title_spec(props);
    let description = description_spec(props);
    &&& t.title@ == title
    &&& opt_string_view(t.description) == description
    &&& opt_string_view(t.location) == normalize_text_spec(record_value(props, "LOCATION"@))
    &&& opt_string_view(t.status) == normalize_text_spec(record_value(props, "STATUS"@))
    &&& opt_string_view(t.timezone) == match start.timezone {
        Some(z) => Some(z@),
        None => calendar_timezone,
    }
    &&& t.uid@ == match normalize_text_spec(record_value(props, "UID"@)) {
        Some(u) => u,
        None => title + "::"@ + start.iso@,
    }
    &&& t.event_type@ == event_type_of(haystack_spec(title, description))
    &&& t.venue_type == venue_type_of(haystack_spec(title, description))
    &&& opt_string_view(t.opponent) == infer_opponent_spec(title, description)
    &&& t.end_span == match end {
        Some(e) => Some((start.sort_utc, e.sort_utc)),
        None => None,
    }
    &&& t.is_all_day == start.is_all_day
}

fn opt_as_str(o: &Option<String>) -> (r: Option<&str>)
    ensures
        opt_str_view(r) == opt_string_view(*o),
{
    match o {
        Some(s) => Some(s.as_str()),
        None => None,
    }
}

/// Reads the template of an event.
pub fn make_template(
    props: &Vec<PropertyRecord>,
    start: &ParsedDateTime,
    end: &Option<ParsedDateTime>,
    calendar_timezone: Option<&str>,
) -> (t: EventTemplate)
    ensures
        template_spec(t, props@, *start, *end, opt_str_view(calendar_timezone)),
{
    let status = normalize_text(opt_as_str(&property_value(props, "STATUS")));
    let title = match normalize_text(opt_as_str(&property_value(props, "SUMMARY"))) {
        Some(t) => t,
        None => String::from_str("Untitled event"),
    };
    let description = normalize_text(opt_as_str(&property_value(props, "DESCRIPTION")));
    let location = normalize_text(opt_as_str(&property_value(props, "LOCATION")));
    let timezone = match &start.timezone {
        Some(z) => Some(z.clone()),
        None => match calendar_timezone {
            Some(c) => Some(String::from_str(c)),
            None => None,
        },
    };
    let uid = match normalize_text(opt_as_str(&property_value(props, "UID"))) {
        Some(u) => u,
        None => synthesize_uid(title.as_str(), start.iso.as_str()),
    };
    let event_type = String::from_str(infer_event_type(title.as_str(), opt_as_str(&description)));
    let venue_type = infer_venue_type(title.as_str(), opt_as_str(&description));
    let opponent = infer_opponent(title.as_str(), opt_as_str(&description));
    let end_span = match end {
        Some(e) => Some((start.sort_utc, e.sort_utc)),
        None => None,
    };
    EventTemplate {
        uid,
        title,
        end_span,
        timezone,
        status,
        is_all_day: start.is_all_day,
        location,
        description,
        event_type,
        venue_type,
        opponent,
    }
}

/// The end of an event that starts at `start` and lasts as long as the
/// template's span; `None` where chrono cannot represent it.
pub open spec fn end_of(start: UtcInstant, span: Option<(UtcInstant, UtcInstant)>) -> Option<UtcInstant> {
    match span {
        None => Some(start),
        Some((a, b)) => shifted_by_span(start, a, b),
    }
}

/// The fields an event takes over from its template.
pub open spec fn copies_template(o: EventOutput, t: EventTemplate) -> bool {
    &&& o.title == t.title
    &&& o.status == t.status
    &&& o.location == t.location
    &&& o.description == t.description
    &&& o.event_type == t.event_type
    &&& o.venue_type == t.venue_type
    &&& o.opponent == t.opponent
}

/// What building the single (non-recurring) event gives: `None` where
/// chrono cannot represent its end, `Some(None)` when it falls outside
/// the window, else the event with its start and end rendered.
pub open spec fn single_event_spec(
    r: Option<Option<SortableEvent>>,
    start: ParsedDateTime,
    t: EventTemplate,
    window_start: UtcInstant,
    now: UtcInstant,
    window_end: UtcInstant,
    q: ScheduleQuery,
) -> bool {
    match end_of(start.sort_utc, t.end_span) {
        None => r is None,
        Some(e) => if !in_window(start.sort_utc, e, window_start, now, window_end, q.mode, q.past_days) {
            r == Some(None::<SortableEvent>)
        } else {
            r matches Some(Some(ev)) && {
                &&& ev.sort_start == start.sort_utc
                &&& ev.sort_end == e
                &&& rendered_spec(
                    (ev.output.start_datetime@, opt_string_view(ev.output.timezone)),
                    start.sort_utc,
                    Some(start.iso@),
                    opt_string_view(t.timezone),
                    opt_string_view(q.display_timezone),
                )
                &&& match t.end_span {
                    None => ev.output.end_datetime is None,
                    Some(_) => ev.output.end_datetime matches Some(x) && exists|z: Option<Seq<char>>|
                        rendered_spec(
                            (x@, z),
                            e,
                            None,
                            opt_string_view(ev.output.timezone),
                            opt_string_view(q.display_timezone),
                        ),
                }
                &&& ev.output.uid == t.uid
                &&& ev.output.recurrence_parent_uid is None
                &&& ev.output.is_all_day == start.is_all_day
                &&& copies_template(ev.output, t)
            }
        },
    }
}

/// Builds the event of a non-recurring calendar entry, if it falls in the
/// window.
pub fn build_single_event(
    start: &ParsedDateTime,
    template: &EventTemplate,
    window_start: UtcInstant,
    now_utc: UtcInstant,
    window_end: UtcInstant,
    query: &ScheduleQuery,
) -> (r: Option<Option<SortableEvent>>)
    requires
        utc_representable(start.sort_utc),
        display_zone_ok(opt_string_view(query.display_timezone)),
    ensures
        single_event_spec(r, *start, *template, window_start, now_utc, window_end, *query),
{
    let sort_end = match template.end_span {
        None => start.sort_utc,
        Some((a, b)) => match shift_by_span(start.sort_utc, a, b) {
            Some(e) => e,
            None => return None,
        },
    };
    if !is_event_in_window(start.sort_utc, sort_end, window_start, now_utc, window_end, query) {
        return Some(None);
    }
    let display = opt_as_str(&query.display_timezone);
    let (start_datetime, timezone) = format_output_datetime(
        start.sort_utc,
        Some(start.iso.as_str()),
        opt_as_str(&template.timezone),
        display,
    );
    let end_render: Option<(String, Option<String>)> = match template.end_span {
        None => None,
        Some(_) => Some(format_output_datetime(sort_end, None, opt_as_str(&timezone), display)),
    };
    let ghost end_zone: Option<Seq<char>> = match end_render {
        Some(ref p) => opt_string_view(p.1),
        None => None,
    };
    let end_datetime = match end_render {
        Some((text, _)) => Some(text),
        None => None,
    };
    assert(template.end_span is Some ==> (end_datetime matches Some(x) && rendered_spec(
        (x@, end_zone),
        sort_end,
        None,
        opt_string_view(timezone),
        opt_string_view(query.display_timezone),
    )));
    let ev = SortableEvent {
        sort_start: start.sort_utc,
        sort_end,
        output: EventOutput {
            uid: template.uid.clone(),
            recurrence_parent_uid: None,
            title: template.title.clone(),
            start_datetime,
            end_datetime,
            timezone,
            status: clone_opt_string(&template.status),
            is_all_day: start.is_all_day,
            location: clone_opt_string(&template.location),
            description: clone_opt_string(&template.description),
            event_type: template.event_type.clone(),
            venue_type: template.venue_type,
            opponent: clone_opt_string(&template.opponent),
        },
    };
    assert(end_of(start.sort_utc, template.end_span) == Some(sort_end));
    Some(Some(ev))
}

/// The event is kept by the query's window.
pub open spec fn event_in_window(
    ev: SortableEvent,
    window_start: UtcInstant,
    now: UtcInstant,
    window_end: UtcInstant,
    q: ScheduleQuery,
) -> bool {
    in_window(ev.sort_start, ev.sort_end, window_start, now, window_end, q.mode, q.past_days)
}

/// What building the event of one occurrence gives: `None` where chrono
/// cannot represent its end, `Some(None)` when it falls outside the
/// window, else the event, identified by the parent UID and its rendered
/// start.
pub open spec fn occurrence_event_spec(
    r: Option<Option<SortableEvent>>,
    occ: Occurrence,
    t: EventTemplate,
    window_start: UtcInstant,
    now: UtcInstant,
    window_end: UtcInstant,
    q: ScheduleQuery,
) -> bool {
    match end_of(occ.instant, t.end_span) {
        None => r is None,
        Some(e) => if !in_window(occ.instant, e, window_start, now, window_end, q.mode, q.past_days) {
            r == Some(None::<SortableEvent>)
        } else {
            r matches Some(Some(ev)) && {
                &&& ev.sort_start == occ.instant
                &&& ev.sort_end == e
                &&& rendered_spec(
                    (ev.output.start_datetime@, opt_string_view(ev.output.timezone)),
                    occ.instant,
                    None,
                    Some(occ.zone@),
                    opt_string_view(q.display_timezone),
                )
                &&& match t.end_span {
                    None => ev.output.end_datetime is None,
                    Some(_) => ev.output.end_datetime matches Some(x) && exists|z: Option<Seq<char>>|
                        rendered_spec(
                            (x@, z),
                            e,
                            None,
                            opt_string_view(ev.output.timezone),
                            opt_string_view(q.display_timezone),
                        ),
                }
                &&& ev.output.uid@ == t.uid@ + "::"@ + ev.output.start_datetime@
                &&& ev.output.recurrence_parent_uid == Some(t.uid)
                &&& ev.output.is_all_day == t.is_all_day
                &&& copies_template(ev.output, t)
            }
        },
    }
}

/// Builds the event of one occurrence of a recurring event, if it falls in
/// the window.
pub fn occurrence_event(
    occ: &Occurrence,
    template: &EventTemplate,
    window_start: UtcInstant,
    now_utc: UtcInstant,
    window_end: UtcInstant,
    query: &ScheduleQuery,
) -> (r: Option<Option<SortableEvent>>)
    requires
        utc_representable(occ.instant),
        display_zone_ok(opt_string_view(query.display_timezone)),
    ensures
        occurrence_event_spec(r, *occ, *template, window_start, now_utc, window_end, *query),
{
    let sort_start = occ.instant;
    let sort_end = match template.end_span {
        None => sort_start,
        Some((a, b)) => match shift_by_span(sort_start, a, b) {
            Some(e) => e,
            None => return None,
        },
    };
    if !is_event_in_window(sort_start, sort_end, window_start, now_utc, window_end, query) {
        return Some(None);
    }
    let display = opt_as_str(&query.display_timezone);
    let (start_iso, occurrence_timezone) = format_output_datetime(
        sort_start,
        None,
        Some(occ.zone.as_str()),
        display,
    );
    let end_render: Option<(String, Option<String>)> = match template.end_span {
        None => None,
        Some(_) => Some(
            format_output_datetime(sort_end, None, opt_as_str(&occurrence_timezone), display),
        ),
    };
    let ghost end_zone: Option<Seq<char>> = match end_render {
        Some(ref p) => opt_string_view(p.1),
        None => None,
    };
    let end_datetime = match end_render {
        Some((text, _)) => Some(text),
        None => None,
    };
    assert(template.end_span is Some ==> (end_datetime matches Some(x) && rendered_spec(
        (x@, end_zone),
        sort_end,
        None,
        opt_string_view(occurrence_timezone),
        opt_string_view(query.display_timezone),
    )));
    let uid = synthesize_uid(template.uid.as_str(), start_iso.as_str());
    let ev = SortableEvent {
        sort_start,
        sort_end,
        output: EventOutput {
            uid,
            recurrence_parent_uid: Some(template.uid.clone()),
            title: template.title.clone(),
            start_datetime: start_iso,
            end_datetime,
            timezone: occurrence_timezone,
            status: clone_opt_string(&template.status),
            is_all_day: template.is_all_day,
            location: clone_opt_string(&template.location),
            description: clone_opt_string(&template.description),
            event_type: template.event_type.clone(),
            venue_type: template.venue_type,
            opponent: clone_opt_string(&template.opponent),
        },
    };
    assert(end_of(sort_start, template.end_span) == Some(sort_end));
    Some(Some(ev))
}

/// An occurrence is kept when its end can be represented and it falls in
/// the window.
pub open spec fn occurrence_kept(
    o: Occurrence,
    t: EventTemplate,
    window_start: UtcInstant,
    now: UtcInstant,
    window_end: UtcInstant,
    q: ScheduleQuery,
) -> bool {
    match end_of(o.instant, t.end_span) {
        Some(e) => in_window(o.instant, e, window_start, now, window_end, q.mode, q.past_days),
        None => false,
    }
}

/// `v` holds, in order, the events of the kept occurrences of `occs`.
pub open spec fn expansion_spec(
    v: Seq<SortableEvent>,
    occs: Seq<Occurrence>,
    t: EventTemplate,
    window_start: UtcInstant,
    now: UtcInstant,
    window_end: UtcInstant,
    q: ScheduleQuery,
) -> bool
    decreases occs.len(),
{
    if occs.len() == 0 {
        v.len() == 0
    } else if occurrence_kept(occs.last(), t, window_start, now, window_end, q) {
        &&& v.len() > 0
        &&& occurrence_event_spec(Some(Some(v.last())), occs.last(), t, window_start, now, window_end, q)
        &&& expansion_spec(v.drop_last(), occs.drop_last(), t, window_start, now, window_end, q)
    } else {
        expansion_spec(v, occs.drop_last(), t, window_start, now, window_end, q)
    }
}

/// Whether an event starts at one of the occurrences.
pub open spec fn starts_at_occurrence(e: SortableEvent, occs: Seq<Occurrence>) -> bool {
    exists|j: int| 0 <= j < occs.len() && (#[trigger] occs[j]).instant == e.sort_start
}

/// Whether the occurrences come in order of time.
pub open spec fn occurrences_in_order(occs: Seq<Occurrence>) -> bool {
    forall|a: int, b: int| 0 <= a < b < occs.len() ==> instant_le(#[trigger] occs[a].instant, #[trigger] occs[b].instant)
}

/// Every event of an expansion is an instance of the recurring event: it
/// starts at one of the occurrences, names the event's UID as its parent,
/// is identified by that UID and its rendered start, and carries the
/// event's other fields; there are no more events than occurrences; and
/// where the occurrences come in order of time, so do the events.
pub proof fn law_expansion_instances(
    v: Seq<SortableEvent>,
    occs: Seq<Occurrence>,
    t: EventTemplate,
    window_start: UtcInstant,
    now: UtcInstant,
    window_end: UtcInstant,
    q: ScheduleQuery,
)
    requires
        expansion_spec(v, occs, t, window_start, now, window_end, q),
    ensures
        v.len() <= occs.len(),
        forall|k: int|
            0 <= k < v.len() ==> {
                &&& starts_at_occurrence(#[trigger] v[k], occs)
                &&& v[k].output.recurrence_parent_uid == Some(t.uid)
                &&& v[k].output.uid@ == t.uid@ + "::"@ + v[k].output.start_datetime@
                &&& v[k].output.is_all_day == t.is_all_day
                &&& copies_template(v[k].output, t)
            },
        occurrences_in_order(occs) ==> starts_sorted(v),
    decreases occs.len(),
{
    if occs.len() == 0 {
        return;
    }
    let rest = occs.drop_last();
    if occurrence_kept(occs.last(), t, window_start, now, window_end, q) {
        let w = v.drop_last();
        law_expansion_instances(w, rest, t, window_start, now, window_end, q);
        assert forall|k: int| 0 <= k < v.len() implies starts_at_occurrence(#[trigger] v[k], occs) by {
            if k < w.len() {
                assert(v[k] == w[k]);
                let j = choose|j: int| 0 <= j < rest.len() && (#[trigger] rest[j]).instant == w[k].sort_start;
                assert(occs[j] == rest[j]);
            } else {
                assert(occs[occs.len() - 1] == occs.last());
            }
        }
        assert forall|k: int| 0 <= k < v.len() implies {
            &&& (#[trigger] v[k]).output.recurrence_parent_uid == Some(t.uid)
            &&& v[k].output.uid@ == t.uid@ + "::"@ + v[k].output.start_datetime@
            &&& v[k].output.is_all_day == t.is_all_day
            &&& copies_template(v[k].output, t)
        } by {
            if k < w.len() {
                assert(v[k] == w[k]);
            } else {
                assert(v[k] == v.last());
            }
        }
        if occurrences_in_order(occs) {
            assert(occurrences_in_order(rest)) by {
                assert forall|a: int, b: int| 0 <= a < b < rest.len() implies instant_le(
                    #[trigger] rest[a].instant,
                    #[trigger] rest[b].instant,
                ) by {
                    assert(rest[a] == occs[a] && rest[b] == occs[b]);
                }
            }
            assert forall|a: int, b: int| 0 <= a <= b < v.len() implies instant_le(
                v[a].sort_start,
                v[b].sort_start,
            ) by {
                if b < w.len() {
                    assert(v[a] == w[a] && v[b] == w[b]);
                } else if a < w.len() {
                    assert(v[a] == w[a]);
                    assert(starts_at_occurrence(w[a], rest));
                    let j = choose|j: int| 0 <= j < rest.len() && (#[trigger] rest[j]).instant == w[a].sort_start;
                    assert(occs[j] == rest[j]);
                    assert(instant_le(occs[j].instant, occs[occs.len() - 1].instant));
                }
            }
        }
    } else {
        law_expansion_instances(v, rest, t, window_start, now, window_end, q);
        assert forall|k: int| 0 <= k < v.len() implies starts_at_occurrence(#[trigger] v[k], occs) by {
            let j = choose|j: int| 0 <= j < rest.len() && (#[trigger] rest[j]).instant == v[k].sort_start;
            assert(occs[j] == rest[j]);
        }
        if occurrences_in_order(occs) {
            assert forall|a: int, b: int| 0 <= a < b < rest.len() implies instant_le(
                #[trigger] rest[a].instant,
                #[trigger] rest[b].instant,
            ) by {
                assert(rest[a] == occs[a] && rest[b] == occs[b]);
            }
        }
    }
}

/// Whether an event starts at the occurrence.
pub open spec fn event_at(v: Seq<SortableEvent>, o: Occurrence) -> bool {
    exists|k: int| 0 <= k < v.len() && (#[trigger] v[k]).sort_start == o.instant
}

/// An expansion leaves out no occurrence that falls in the window: every
/// kept occurrence gives an event that starts at it, so the expansion is
/// empty exactly when the rule set yields no occurrence in the window.
pub proof fn law_expansion_complete(
    v: Seq<SortableEvent>,
    occs: Seq<Occurrence>,
    t: EventTemplate,
    window_start: UtcInstant,
    now: UtcInstant,
    window_end: UtcInstant,
    q: ScheduleQuery,
)
    requires
        expansion_spec(v, occs, t, window_start, now, window_end, q),
    ensures
        forall|j: int|
            0 <= j < occs.len() && occurrence_kept(#[trigger] occs[j], t, window_start, now, window_end, q)
                ==> event_at(v, occs[j]),
        v.len() == 0 <==> forall|j: int|
            0 <= j < occs.len() ==> !occurrence_kept(#[trigger] occs[j], t, window_start, now, window_end, q),
    decreases occs.len(),
{
    if occs.len() == 0 {
        return;
    }
    let rest = occs.drop_last();
    let last = occs.last();
    if occurrence_kept(last, t, window_start, now, window_end, q) {
        let w = v.drop_last();
        law_expansion_complete(w, rest, t, window_start, now, window_end, q);
        assert forall|j: int|
            0 <= j < occs.len() && occurrence_kept(#[trigger] occs[j], t, window_start, now, window_end, q)
                implies event_at(v, occs[j]) by {
            if j < rest.len() {
                assert(occs[j] == rest[j]);
                assert(event_at(w, rest[j]));
                let k = choose|k: int| 0 <= k < w.len() && (#[trigger] w[k]).sort_start == rest[j].instant;
                assert(v[k] == w[k]);
            } else {
                assert(occs[j] == last);
                assert(v[v.len() - 1] == v.last());
                assert(v.last().sort_start == last.instant);
            }
        }
        assert(occs[occs.len() - 1] == last);
    } else {
        law_expansion_complete(v, rest, t, window_start, now, window_end, q);
        assert forall|j: int|
            0 <= j < occs.len() && occurrence_kept(#[trigger] occs[j], t, window_start, now, window_end, q)
                implies event_at(v, occs[j]) by {
            if j < rest.len() {
                assert(occs[j] == rest[j]);
            } else {
                assert(occs[j] == last);
            }
        }
        if v.len() == 0 {
            assert forall|j: int| 0 <= j < occs.len() implies !occurrence_kept(
                #[trigger] occs[j],
                t,
                window_start,
                now,
                window_end,
                q,
            ) by {
                if j < rest.len() {
                    assert(occs[j] == rest[j]);
                } else {
                    assert(occs[j] == last);
                }
            }
        } else {
            let j = choose|j: int|
                0 <= j < rest.len() && occurrence_kept(#[trigger] rest[j], t, window_start, now, window_end, q);
            assert(occs[j] == rest[j]);
        }
    }
}

/// An expanded recurring event has no instance on an excluded date: no
/// event of the expansion starts on the second of one of its `EXDATE`
/// properties given in UTC or with their zone.
pub proof fn law_excluded_dates_not_expanded(
    v: Seq<SortableEvent>,
    occs: Seq<Occurrence>,
    e: icalendar::Event,
    lower: Option<UtcInstant>,
    upper: UtcInstant,
    budget: int,
    t: EventTemplate,
    window_start: UtcInstant,
    now: UtcInstant,
    window_end: UtcInstant,
    q: ScheduleQuery,
)
    requires
        rule_outcome(e, lower, upper, budget, Some(occs)),
        expansion_spec(v, occs, t, window_start, now, window_end, q),
    ensures
        forall|k: int, m: int|
            0 <= k < v.len() && 0 <= m < event_multi_properties_of(e).len() ==> not_excluded_by(
                (#[trigger] v[k]).sort_start,
                #[trigger] event_multi_properties_of(e)[m],
            ),
{
    law_expansion_instances(v, occs, t, window_start, now, window_end, q);
    assert forall|k: int, m: int|
        0 <= k < v.len() && 0 <= m < event_multi_properties_of(e).len() implies not_excluded_by(
            (#[trigger] v[k]).sort_start,
            #[trigger] event_multi_properties_of(e)[m],
        ) by {
        assert(starts_at_occurrence(v[k], occs));
        let j = choose|j: int| 0 <= j < occs.len() && (#[trigger] occs[j]).instant == v[k].sort_start;
        assert(not_excluded_by(occs[j].instant, event_multi_properties_of(e)[m]));
    }
}

/// Builds the events of the occurrences that fall in the window, in the
/// order of the occurrences; `None` where chrono cannot represent the end
/// of an occurrence.
pub fn expand_occurrences(
    occs: &Vec<Occurrence>,
    template: &EventTemplate,
    window_start: UtcInstant,
    now_utc: UtcInstant,
    window_end: UtcInstant,
    query: &ScheduleQuery,
) -> (r: Option<Vec<SortableEvent>>)
    requires
        forall|k: int| 0 <= k < occs@.len() ==> utc_representable(#[trigger] occs@[k].instant),
        display_zone_ok(opt_string_view(query.display_timezone)),
    ensures
        r is None <==> exists|j: int|
            0 <= j < occs@.len() && end_of(#[trigger] occs@[j].instant, template.end_span) is None,
        r matches Some(v) ==> expansion_spec(v@, occs@, *template, window_start, now_utc, window_end, *query),
        r matches Some(v) ==> forall|k: int|
            0 <= k < v@.len() ==> event_in_window(#[trigger] v@[k], window_start, now_utc, window_end, *query),
{
    let mut out: Vec<SortableEvent> = Vec::new();
    let mut i: usize = 0;
    while i < occs.len()
        invariant
            i <= occs@.len(),
            forall|k: int| 0 <= k < occs@.len() ==> utc_representable(#[trigger] occs@[k].instant),
            display_zone_ok(opt_string_view(query.display_timezone)),
            forall|j: int| 0 <= j < i ==> end_of(#[trigger] occs@[j].instant, template.end_span) is Some,
            expansion_spec(out@, occs@.take(i as int), *template, window_start, now_utc, window_end, *query),
            forall|k: int|
                0 <= k < out@.len() ==> event_in_window(#[trigger] out@[k], window_start, now_utc, window_end, *query),
        decreases occs@.len() - i,
    {
        let occ = &occs[i];
        let step = occurrence_event(occ, template, window_start, now_utc, window_end, query);
        proof {
            assert(occs@.take(i + 1).drop_last() =~= occs@.take(i as int));
            assert(occs@.take(i + 1).last() == occs@[i as int]);
        }
        match step {
            None => {
                return None;
            },
            Some(None) => {},
            Some(Some(ev)) => {
                let ghost before = out@;
                out.push(ev);
                proof {
                    assert(out@.drop_last() =~= before);
                }
            },
        }
        i = i + 1;
    }
    assert(occs@.take(occs@.len() as int) =~= occs@);
    Some(out)
}

/// The number of occurrences generated at most for a query's window.
pub open spec fn occurrence_budget(limit: usize, window_start: UtcInstant, window_end: UtcInstant) -> int {
    budget_spec(
        limit as int,
        match whole_days_between(window_start, window_end) {
            Some(d) => d,
            None => 1,
        },
    )
}

/// What expanding a recurring event gives: nothing to expand when its
/// rule set cannot be built; `EndOverflow` where chrono cannot represent
/// the end of one of its occurrences; otherwise the events of the
/// occurrences that fall in the window, which may be none.
pub enum RecurrenceOutcome {
    Unbuilt,
    EndOverflow,
    Expanded(Vec<SortableEvent>),
}

/// Whether chrono cannot represent the end of one of the occurrences.
pub open spec fn some_end_overflows(occs: Seq<Occurrence>, t: EventTemplate) -> bool {
    exists|j: int| 0 <= j < occs.len() && end_of(#[trigger] occs[j].instant, t.end_span) is None
}

/// The earliest start an occurrence in the window can have: the earlier
/// of the window's start and `now`, moved back by the event's length
/// where it has a length that is not negative; `None` where chrono cannot
/// represent that instant.
pub open spec fn earliest_kept_start(t: EventTemplate, window_start: UtcInstant, now: UtcInstant) -> Option<UtcInstant> {
    let m = if instant_le(window_start, now) { window_start } else { now };
    match t.end_span {
        Some(span) => if instant_le(span.0, span.1) {
            shifted_by_span(m, span.1, span.0)
        } else {
            Some(m)
        },
        None => Some(m),
    }
}

/// The outcome of expanding from what the rule set yielded.
pub open spec fn recurrence_outcome_spec(
    r: RecurrenceOutcome,
    o: Option<Seq<Occurrence>>,
    t: EventTemplate,
    window_start: UtcInstant,
    now: UtcInstant,
    window_end: UtcInstant,
    q: ScheduleQuery,
) -> bool {
    match o {
        None => r is Unbuilt,
        Some(occs) => if some_end_overflows(occs, t) {
            r is EndOverflow
        } else {
            r matches RecurrenceOutcome::Expanded(v) && expansion_spec(v@, occs, t, window_start, now, window_end, q)
        },
    }
}

/// Computes `earliest_kept_start`.
fn earliest_start(template: &EventTemplate, window_start: UtcInstant, now_utc: UtcInstant) -> (r: Option<UtcInstant>)
    requires
        utc_representable(window_start),
        utc_representable(now_utc),
    ensures
        r == earliest_kept_start(*template, window_start, now_utc),
        r matches Some(l) ==> utc_representable(l),
{
    let m = if instant_le_exec(window_start, now_utc) { window_start } else { now_utc };
    match template.end_span {
        Some((a, b)) => {
            if instant_le_exec(a, b) {
                shift_by_span(m, b, a)
            } else {
                Some(m)
            }
        },
        None => Some(m),
    }
}

/// Expands a recurring event: the occurrences its rule set yields between
/// `earliest_kept_start` and the window's end, within a budget derived
/// from the window and limit, kept and built as `expand_occurrences`
/// does.
pub fn expand_recurrences(
    event: &icalendar::Event,
    template: &EventTemplate,
    window_start: UtcInstant,
    now_utc: UtcInstant,
    window_end: UtcInstant,
    query: &ScheduleQuery,
) -> (r: RecurrenceOutcome)
    requires
        display_zone_ok(opt_string_view(query.display_timezone)),
        utc_representable(window_start),
        utc_representable(now_utc),
        utc_representable(window_end),
    ensures
        exists|o: Option<Seq<Occurrence>>|
            #[trigger] rule_outcome(
                *event,
                earliest_kept_start(*template, window_start, now_utc),
                window_end,
                occurrence_budget(query.limit, window_start, window_end),
                o,
            ) && recurrence_outcome_spec(r, o, *template, window_start, now_utc, window_end, *query),
        r matches RecurrenceOutcome::Expanded(v) ==> forall|k: int|
            0 <= k < v@.len() ==> event_in_window(#[trigger] v@[k], window_start, now_utc, window_end, *query),
        r matches RecurrenceOutcome::Expanded(v) ==> starts_sorted(v@),
        r matches RecurrenceOutcome::Expanded(v) ==> v@.len() <= occurrence_budget(query.limit, window_start, window_end),
{
    let budget = recurrence_budget(query.limit, window_start, window_end);
    let lower = earliest_start(template, window_start, now_utc);
    let got = event_occurrences(event, lower, window_end, budget);
    let ghost o = occurrences_view(got);
    assert(rule_outcome(*event, earliest_kept_start(*template, window_start, now_utc), window_end, occurrence_budget(query.limit, window_start, window_end), o));
    match got {
        None => RecurrenceOutcome::Unbuilt,
        Some(occs) => {
            match expand_occurrences(&occs, template, window_start, now_utc, window_end, query) {
                None => RecurrenceOutcome::EndOverflow,
                Some(v) => {
                    proof {
                        assert(occurrences_in_order(occs@));
                        law_expansion_instances(v@, occs@, *template, window_start, now_utc, window_end, *query);
                    }
                    RecurrenceOutcome::Expanded(v)
                },
            }
        },
    }
}

/// What reading the `DTEND` property gives: nothing when there is none.
pub open spec fn end_property_spec(
    end: Option<ParsedDateTime>,
    props: Seq<PropertyRecord>,
    calendar_timezone: Option<Seq<char>>,
) -> bool {
    match record_index(props, "DTEND"@) {
        None => end is None,
        Some(j) => parsed_property_spec(end, props[j], calendar_timezone),
    }
}

/// The single event, if any, as a list.
pub open spec fn single_as_list(s: Option<Option<SortableEvent>>) -> Option<Seq<SortableEvent>> {
    match s {
        None => None,
        Some(None) => Some(Seq::empty()),
        Some(Some(e)) => Some(seq![e]),
    }
}

pub open spec fn events_view(r: Option<Vec<SortableEvent>>) -> Option<Seq<SortableEvent>> {
    match r {
        Some(v) => Some(v@),
        None => None,
    }
}

/// The single event, if it falls in the window, as a list.
pub open spec fn single_outcome(
    r: Option<Seq<SortableEvent>>,
    start: ParsedDateTime,
    t: EventTemplate,
    window_start: UtcInstant,
    now: UtcInstant,
    window_end: UtcInstant,
    q: ScheduleQuery,
) -> bool {
    exists|s: Option<Option<SortableEvent>>|
        #[trigger] single_event_spec(s, start, t, window_start, now, window_end, q) && r == single_as_list(s)
}

/// Readings of an event's `EXDATE` properties, each read as a date-time
/// without the calendar's zone (as the rule set reads them); other
/// properties read as nothing.
pub open spec fn exdate_readings(reads: Seq<Option<ParsedDateTime>>, multi: Seq<PropertyRecord>) -> bool {
    &&& reads.len() == multi.len()
    &&& forall|m: int|
        0 <= m < multi.len() ==> if multi[m].name@ == "EXDATE"@ {
            parsed_property_spec(#[trigger] reads[m], multi[m], None)
        } else {
            reads[m] is None
        }
}

/// Whether one of the readings falls on the whole second `start` falls on.
pub open spec fn start_excluded(start: UtcInstant, reads: Seq<Option<ParsedDateTime>>) -> bool {
    exists|m: int| 0 <= m < reads.len() && ((#[trigger] reads[m]) matches Some(p) && p.sort_utc.seconds == start.seconds)
}

/// Decides whether an `EXDATE` of the event falls on the second of its
/// start.
pub fn start_is_excluded(start: UtcInstant, multi: &Vec<PropertyRecord>) -> (r: bool)
    ensures
        exists|reads: Seq<Option<ParsedDateTime>>|
            #[trigger] exdate_readings(reads, multi@) && r == start_excluded(start, reads),
{
    let ghost mut reads: Seq<Option<ParsedDateTime>> = Seq::empty();
    let mut found = false;
    let mut k: usize = 0;
    while k < multi.len()
        invariant
            k <= multi@.len(),
            reads.len() == k,
            forall|m: int|
                0 <= m < k ==> if multi@[m].name@ == "EXDATE"@ {
                    parsed_property_spec(#[trigger] reads[m], multi@[m], None)
                } else {
                    reads[m] is None
                },
            found == start_excluded(start, reads),
        decreases multi@.len() - k,
    {
        let ghost before = reads;
        if str_equals(multi[k].name.as_str(), "EXDATE") {
            let p = parse_datetime_property(&multi[k], None);
            proof {
                reads = reads.push(p);
            }
            match p {
                Some(x) => {
                    if x.sort_utc.seconds == start.seconds {
                        found = true;
                    }
                },
                None => {},
            }
        } else {
            proof {
                reads = reads.push(None);
            }
        }
        proof {
            assert(forall|m: int| 0 <= m < k ==> reads[m] == before[m]);
            if reads[k as int] matches Some(p) && p.sort_utc.seconds == start.seconds {
                assert(0 <= k < reads.len());
                assert(start_excluded(start, reads));
            }
            if start_excluded(start, before) {
                let m = choose|m: int| 0 <= m < before.len() && ((#[trigger] before[m]) matches Some(p) && p.sort_utc.seconds == start.seconds);
                assert(reads[m] == before[m]);
            }
            if start_excluded(start, reads) && !start_excluded(start, before) {
                let m = choose|m: int| 0 <= m < reads.len() && ((#[trigger] reads[m]) matches Some(p) && p.sort_utc.seconds == start.seconds);
                if m < k {
                    assert(reads[m] == before[m]);
                }
            }
        }
        k = k + 1;
    }
    assert(exdate_readings(reads, multi@));
    found
}

/// What expanding a recurring event gives, from what its rule set
/// yielded: the single event when the rule set cannot be built, `None`
/// where an occurrence's end overflows, the events of the occurrences in
/// the window where there are any, and otherwise nothing when an
/// `EXDATE` excludes the start, else the single event.
pub open spec fn recurring_outcome(
    r: Option<Seq<SortableEvent>>,
    o: Option<Seq<Occurrence>>,
    excluded: bool,
    start: ParsedDateTime,
    t: EventTemplate,
    window_start: UtcInstant,
    now: UtcInstant,
    window_end: UtcInstant,
    q: ScheduleQuery,
) -> bool {
    match o {
        None => single_outcome(r, start, t, window_start, now, window_end, q),
        Some(occs) => if some_end_overflows(occs, t) {
            r is None
        } else {
            ||| r matches Some(v) && v.len() > 0 && expansion_spec(v, occs, t, window_start, now, window_end, q)
            ||| expansion_spec(Seq::empty(), occs, t, window_start, now, window_end, q) && if excluded {
                r == Some(Seq::<SortableEvent>::empty())
            } else {
                single_outcome(r, start, t, window_start, now, window_end, q)
            }
        },
    }
}

/// What expanding an event with these properties gives: nothing without a
/// readable `DTSTART`; else, from its start, end and template, when it
/// recurs, what its rule set yields between `earliest_kept_start` and the
/// window's end, expanded as `recurring_outcome` says (whether an
/// `EXDATE` excludes the start decides what an empty expansion gives), and
/// otherwise its single event if that falls in the window.
pub open spec fn expand_records_spec(
    r: Option<Seq<SortableEvent>>,
    event: icalendar::Event,
    props: Seq<PropertyRecord>,
    multi: Seq<PropertyRecord>,
    calendar_timezone: Option<Seq<char>>,
    window_start: UtcInstant,
    now: UtcInstant,
    window_end: UtcInstant,
    q: ScheduleQuery,
) -> bool {
    match record_index(props, "DTSTART"@) {
        None => r == Some(Seq::<SortableEvent>::empty()),
        Some(i) => {
            ||| r == Some(Seq::<SortableEvent>::empty()) && parsed_property_spec(
                None,
                props[i],
                calendar_timezone,
            )
            ||| exists|start: ParsedDateTime, end: Option<ParsedDateTime>, t: EventTemplate|
                #![trigger template_spec(t, props, start, end, calendar_timezone)]
                {
                    &&& parsed_property_spec(Some(start), props[i], calendar_timezone)
                    &&& end_property_spec(end, props, calendar_timezone)
                    &&& template_spec(t, props, start, end, calendar_timezone)
                    &&& if has_recurrence_spec(props, multi) {
                        exists|o: Option<Seq<Occurrence>>, reads: Seq<Option<ParsedDateTime>>|
                            #[trigger] rule_outcome(
                                event,
                                earliest_kept_start(t, window_start, now),
                                window_end,
                                occurrence_budget(q.limit, window_start, window_end),
                                o,
                            ) && #[trigger] exdate_readings(reads, multi) && recurring_outcome(
                                r,
                                o,
                                start_excluded(start.sort_utc, reads),
                                start,
                                t,
                                window_start,
                                now,
                                window_end,
                                q,
                            )
                    } else {
                        single_outcome(r, start, t, window_start, now, window_end, q)
                    }
                }
        },
    }
}

/// Expands one event given its properties and multi-valued properties.
pub fn expand_event_records(
    event: &icalendar::Event,
    props: &Vec<PropertyRecord>,
    multi: &Vec<PropertyRecord>,
    calendar_timezone: Option<&str>,
    window_start: UtcInstant,
    now_utc: UtcInstant,
    window_end: UtcInstant,
    query: &ScheduleQuery,
) -> (r: Option<Vec<SortableEvent>>)
    requires
        display_zone_ok(opt_string_view(query.display_timezone)),
        utc_representable(window_start),
        utc_representable(now_utc),
        utc_representable(window_end),
    ensures
        expand_records_spec(
            events_view(r),
            *event,
            props@,
            multi@,
            opt_str_view(calendar_timezone),
            window_start,
            now_utc,
            window_end,
            *query,
        ),
        r matches Some(v) ==> forall|k: int|
            0 <= k < v@.len() ==> event_in_window(#[trigger] v@[k], window_start, now_utc, window_end, *query),
        r matches Some(v) ==> starts_sorted(v@),
{
    let i = match property_index(props, "DTSTART") {
        Some(i) => i,
        None => return Some(Vec::new()),
    };
    let start = match parse_datetime_property(&props[i], calendar_timezone) {
        Some(s) => s,
        None => return Some(Vec::new()),
    };
    let end = match property_index(props, "DTEND") {
        Some(j) => parse_datetime_property(&props[j], calendar_timezone),
        None => None,
    };
    let template = make_template(props, &start, &end, calendar_timezone);
    let recurs = has_recurrence_rules(props, multi);
    if !recurs {
        return single_list(&start, &template, window_start, now_utc, window_end, query);
    }
    let excluded = start_is_excluded(start.sort_utc, multi);
    let ghost reads = choose|reads: Seq<Option<ParsedDateTime>>|
        #[trigger] exdate_readings(reads, multi@) && excluded == start_excluded(start.sort_utc, reads);
    let outcome = expand_recurrences(event, &template, window_start, now_utc, window_end, query);
    let ghost o = choose|o: Option<Seq<Occurrence>>|
        #[trigger] rule_outcome(
            *event,
            earliest_kept_start(template, window_start, now_utc),
            window_end,
            occurrence_budget(query.limit, window_start, window_end),
            o,
        ) && recurrence_outcome_spec(outcome, o, template, window_start, now_utc, window_end, *query);
    assert(exdate_readings(reads, multi@) && excluded == start_excluded(start.sort_utc, reads));
    assert(recurrence_outcome_spec(outcome, o, template, window_start, now_utc, window_end, *query));
    let ghost ex = start_excluded(start.sort_utc, reads);
    match outcome {
        RecurrenceOutcome::EndOverflow => {
            assert(recurring_outcome(None, o, ex, start, template, window_start, now_utc, window_end, *query));
            None
        },
        RecurrenceOutcome::Expanded(v) => {
            if v.len() > 0 || excluded {
                assert(o matches Some(occs) && !some_end_overflows(occs, template) && expansion_spec(
                    v@,
                    occs,
                    template,
                    window_start,
                    now_utc,
                    window_end,
                    *query,
                ));
                if v.len() == 0 {
                    assert(v@ =~= Seq::<SortableEvent>::empty());
                }
                assert(recurring_outcome(Some(v@), o, ex, start, template, window_start, now_utc, window_end, *query));
                Some(v)
            } else {
                assert(v@ =~= Seq::<SortableEvent>::empty());
                let r = single_list(&start, &template, window_start, now_utc, window_end, query);
                assert(recurring_outcome(events_view(r), o, ex, start, template, window_start, now_utc, window_end, *query));
                r
            }
        },
        RecurrenceOutcome::Unbuilt => {
            let r = single_list(&start, &template, window_start, now_utc, window_end, query);
            assert(recurring_outcome(events_view(r), o, ex, start, template, window_start, now_utc, window_end, *query));
            r
        },
    }
}

/// The single event of an event, if it falls in the window, as a list.
fn single_list(
    start: &ParsedDateTime,
    template: &EventTemplate,
    window_start: UtcInstant,
    now_utc: UtcInstant,
    window_end: UtcInstant,
    query: &ScheduleQuery,
) -> (r: Option<Vec<SortableEvent>>)
    requires
        utc_representable(start.sort_utc),
        display_zone_ok(opt_string_view(query.display_timezone)),
    ensures
        single_outcome(events_view(r), *start, *template, window_start, now_utc, window_end, *query),
        r matches Some(v) ==> forall|k: int|
            0 <= k < v@.len() ==> event_in_window(#[trigger] v@[k], window_start, now_utc, window_end, *query),
        r matches Some(v) ==> v@.len() <= 1,
{
    let single = build_single_event(start, template, window_start, now_utc, window_end, query);
    assert(single_event_spec(single, *start, *template, window_start, now_utc, window_end, *query));
    match single {
        None => None,
        Some(None) => Some(Vec::new()),
        Some(Some(e)) => {
            let mut v: Vec<SortableEvent> = Vec::new();
            v.push(e);
            Some(v)
        },
    }
}

/// What expanding an event of an `icalendar` document gives: the
/// expansion of its properties and multi-valued properties.
pub open spec fn expand_event_spec(
    r: Option<Seq<SortableEvent>>,
    event: icalendar::Event,
    calendar_timezone: Option<Seq<char>>,
    window_start: UtcInstant,
    now: UtcInstant,
    window_end: UtcInstant,
    q: ScheduleQuery,
) -> bool {
    exists|props: Seq<PropertyRecord>, multi: Seq<PropertyRecord>|
        #![trigger properties_view(props), properties_view(multi)]
        {
            &&& properties_view(props) == event_properties_of(event)
            &&& properties_view(multi) == event_multi_properties_of(event)
            &&& expand_records_spec(r, event, props, multi, calendar_timezone, window_start, now, window_end, q)
        }
}

/// Expands one event of a calendar, reading its properties from the
/// `icalendar` document.
pub fn expand_event(
    event: &icalendar::Event,
    calendar_timezone: Option<&str>,
    window_start: UtcInstant,
    now_utc: UtcInstant,
    window_end: UtcInstant,
    query: &ScheduleQuery,
) -> (r: Option<Vec<SortableEvent>>)
    requires
        display_zone_ok(opt_string_view(query.display_timezone)),
        utc_representable(window_start),
        utc_representable(now_utc),
        utc_representable(window_end),
    ensures
        expand_event_spec(
            events_view(r),
            *event,
            opt_str_view(calendar_timezone),
            window_start,
            now_utc,
            window_end,
            *query,
        ),
        r matches Some(v) ==> forall|k: int|
            0 <= k < v@.len() ==> event_in_window(#[trigger] v@[k], window_start, now_utc, window_end, *query),
        r matches Some(v) ==> starts_sorted(v@),
{
    let props = event_properties(event);
    let multi = event_multi_properties(event);
    expand_event_records(event, &props, &multi, calendar_timezone, window_start, now_utc, window_end, query)
}

/// The lists concatenated in order.
pub open spec fn concat_all(parts: Seq<Seq<SortableEvent>>) -> Seq<SortableEvent>
    decreases parts.len(),
{
    if parts.len() == 0 {
        Seq::empty()
    } else {
        concat_all(parts.drop_last()) + parts.last()
    }
}

/// The status of an event (such as `CANCELLED`) plays no part in whether
/// it is kept: two templates with the same span keep or drop the same
/// single event, and the same occurrence.
pub proof fn law_status_does_not_filter(
    r1: Option<Option<SortableEvent>>,
    r2: Option<Option<SortableEvent>>,
    s1: Option<Option<SortableEvent>>,
    s2: Option<Option<SortableEvent>>,
    start: ParsedDateTime,
    occ: Occurrence,
    t1: EventTemplate,
    t2: EventTemplate,
    window_start: UtcInstant,
    now: UtcInstant,
    window_end: UtcInstant,
    q: ScheduleQuery,
)
    requires
        t1.end_span == t2.end_span,
        single_event_spec(r1, start, t1, window_start, now, window_end, q),
        single_event_spec(r2, start, t2, window_start, now, window_end, q),
        occurrence_event_spec(s1, occ, t1, window_start, now, window_end, q),
        occurrence_event_spec(s2, occ, t2, window_start, now, window_end, q),
    ensures
        (r1 matches Some(Some(_))) <==> (r2 matches Some(Some(_))),
        r1 is None <==> r2 is None,
        (s1 matches Some(Some(_))) <==> (s2 matches Some(Some(_))),
        s1 is None <==> s2 is None,
{
}

/// The events of the candidates, in order.
pub open spec fn outputs_of(s: Seq<SortableEvent>) -> Seq<EventOutput> {
    s.map_values(|c: SortableEvent| c.output)
}

/// Takes the events out of their candidates.
pub fn into_outputs(events: Vec<SortableEvent>) -> (r: Vec<EventOutput>)
    ensures
        r@ == outputs_of(events@),
{
    let mut rest = events;
    let ghost all = rest@;
    let mut out: Vec<EventOutput> = Vec::new();
    let n = rest.len();
    let mut i: usize = 0;
    while i < n
        invariant
            i <= n,
            n == all.len(),
            rest@ == all.skip(i as int),
            out@ =~= outputs_of(all.take(i as int)),
        decreases n - i,
    {
        let x = rest.remove(0);
        proof {
            assert(all.skip(i as int).remove(0) =~= all.skip(i + 1));
            assert(outputs_of(all.take(i + 1)) =~= outputs_of(all.take(i as int)).push(x.output));
        }
        out.push(x.output);
        i = i + 1;
    }
    assert(all.take(n as int) =~= all);
    out
}

/// The calendar's own time zone property.
pub open spec fn calendar_timezone_spec(cal: icalendar::Calendar) -> Option<Seq<char>> {
    first_property_value(calendar_properties_of(cal), "X-WR-TIMEZONE"@)
}

/// The name the calendar gives itself.
pub open spec fn calendar_name_spec(cal: icalendar::Calendar) -> Option<Seq<char>> {
    match first_property_value(calendar_properties_of(cal), "NAME"@) {
        Some(v) => Some(v),
        None => first_property_value(calendar_properties_of(cal), "X-WR-CALNAME"@),
    }
}

/// The schedule of a calendar for a query at instant `now`.
/// `None` where chrono cannot represent `now` or a bound of the window,
/// where the display zone is not a zone name chrono_tz knows, or where
/// chrono cannot represent the end of a recurrence occurrence.
/// Otherwise the schedule's events are the candidates of all the
/// calendar's events, ordered by start and cut to the limit, each kept by
/// the window for the query's mode.
pub open spec fn calendar_output_spec(
    r: Option<CalendarOutput>,
    cal: icalendar::Calendar,
    source: SourceMetadata,
    now: UtcInstant,
    q: ScheduleQuery,
) -> bool {
    &&& window_spec(now, q.past_days, q.days) is None ==> r is None
    &&& !utc_representable(now) ==> r is None
    &&& !display_zone_ok(opt_string_view(q.display_timezone)) ==> r is None
    &&& r matches Some(out) ==> {
        let (ws, we) = window_spec(now, q.past_days, q.days)->0;
        &&& out.source == source
        &&& Some(out.generated_at@) == utc_rfc3339(now)
        &&& out.applied_filter.past_days == q.past_days
        &&& out.applied_filter.lookahead_days == q.days
        &&& out.applied_filter.limit == q.limit
        &&& out.applied_filter.mode@ == mode_name(q.mode)
        &&& out.display_timezone == q.display_timezone
        &&& opt_string_view(out.calendar_name) == calendar_name_spec(cal)
        &&& opt_string_view(out.calendar_timezone) == first_property_value(
            calendar_properties_of(cal),
            "X-WR-TIMEZONE"@,
        )
        &&& exists|parts: Seq<Seq<SortableEvent>>|
            #![trigger concat_all(parts)]
            {
                &&& parts.len() == calendar_events_of(cal).len()
                &&& forall|j: int|
                    0 <= j < parts.len() ==> expand_event_spec(
                        Some(#[trigger] parts[j]),
                        calendar_events_of(cal)[j],
                        calendar_timezone_spec(cal),
                        ws,
                        now,
                        we,
                        q,
                    )
                &&& out.events@ == outputs_of(select_events(concat_all(parts), q.limit))
                &&& forall|k: int|
                    0 <= k < concat_all(parts).len() ==> event_in_window(
                        #[trigger] concat_all(parts)[k],
                        ws,
                        now,
                        we,
                        q,
                    )
            }
    }
    &&& r is None ==> {
        let w = window_spec(now, q.past_days, q.days)->0;
        ||| window_spec(now, q.past_days, q.days) is None
        ||| !utc_representable(now)
        ||| !display_zone_ok(opt_string_view(q.display_timezone))
        ||| exists|j: int|
            0 <= j < calendar_events_of(cal).len() && expand_event_spec(
                None,
                #[trigger] calendar_events_of(cal)[j],
                calendar_timezone_spec(cal),
                w.0,
                now,
                w.1,
                q,
            )
    }
}

/// Builds the schedule of a calendar for a query at instant `now_utc`, as
/// `calendar_output_spec` says.
pub fn build_calendar_output(
    calendar: &icalendar::Calendar,
    source: SourceMetadata,
    now_utc: UtcInstant,
    query: &ScheduleQuery,
) -> (r: Option<CalendarOutput>)
    ensures
        calendar_output_spec(r, *calendar, source, now_utc, *query),
{
    if !is_representable(now_utc) {
        return None;
    }
    match &query.display_timezone {
        Some(z) => {
            match lookup_zone_name(z.as_str()) {
                Some(_) => {},
                None => {
                    return None;
                },
            }
        },
        None => {},
    }
    let calendar_timezone = calendar_timezone(calendar);
    let (window_start, window_end) = match query_window(now_utc, query) {
        Some(w) => w,
        None => {
            return None;
        },
    };
    let events = calendar_events(calendar);
    let mut cands: Vec<SortableEvent> = Vec::new();
    let ghost mut parts: Seq<Seq<SortableEvent>> = Seq::empty();
    let mut k: usize = 0;
    while k < events.len()
        invariant
            k <= events@.len(),
            events@ == calendar_events_of(*calendar),
            window_spec(now_utc, query.past_days, query.days) == Some((window_start, window_end)),
            utc_representable(window_start),
            utc_representable(window_end),
            utc_representable(now_utc),
            opt_string_view(calendar_timezone) == calendar_timezone_spec(*calendar),
            display_zone_ok(opt_string_view(query.display_timezone)),
            parts.len() == k,
            cands@ == concat_all(parts),
            forall|j: int|
                0 <= j < k ==> expand_event_spec(
                    Some(#[trigger] parts[j]),
                    events@[j],
                    calendar_timezone_spec(*calendar),
                    window_start,
                    now_utc,
                    window_end,
                    *query,
                ),
            forall|j: int|
                0 <= j < cands@.len() ==> event_in_window(#[trigger] cands@[j], window_start, now_utc, window_end, *query),
        decreases events@.len() - k,
    {
        let expanded = expand_event(&events[k], opt_as_str(&calendar_timezone), window_start, now_utc, window_end, query);
        match expanded {
            None => {
                assert(expand_event_spec(
                    None,
                    calendar_events_of(*calendar)[k as int],
                    calendar_timezone_spec(*calendar),
                    window_start,
                    now_utc,
                    window_end,
                    *query,
                ));
                return None;
            },
            Some(v) => {
                let mut more = v;
                let ghost before = cands@;
                proof {
                    let old_parts = parts;
                    parts = parts.push(v@);
                    assert(parts.drop_last() =~= old_parts);
                    assert(forall|j: int| 0 <= j < k ==> parts[j] == old_parts[j]);
                }
                cands.append(&mut more);
                assert forall|j: int| 0 <= j < cands@.len() implies event_in_window(
                    #[trigger] cands@[j],
                    window_start,
                    now_utc,
                    window_end,
                    *query,
                ) by {
                    if j >= before.len() {
                        assert(cands@[j] == v@[j - before.len()]);
                    }
                }
            },
        }
        k = k + 1;
    }
    let ghost all = cands@;
    assert(all == concat_all(parts));
    let selected = sort_and_limit(cands, query.limit);
    let generated_at = match format_utc(now_utc) {
        Some(g) => g,
        None => {
            assert(false);
            String::new()
        },
    };
    let name = calendar_name(calendar);
    let events_out = into_outputs(selected);
    let out = CalendarOutput {
        source,
        generated_at,
        applied_filter: AppliedFilter {
            past_days: query.past_days,
            lookahead_days: query.days,
            limit: query.limit,
            mode: query.mode.as_str(),
        },
        display_timezone: clone_opt_string(&query.display_timezone),
        calendar_name: name,
        calendar_timezone,
        events: events_out,
    };
    assert(out.events@ == outputs_of(select_events(all, query.limit)));
    Some(out)
}

/// The schedule read from the text of an iCalendar document, or the error
/// text when the document does not parse; `Ok(None)` where
/// `build_calendar_output` gives `None`.
pub fn build_calendar_output_from_contents(
    contents: &str,
    source: SourceMetadata,
    now_utc: UtcInstant,
    query: &ScheduleQuery,
) -> (r: Result<Option<CalendarOutput>, String>)
    ensures
        match ics_parse_error(contents@) {
            Some(e) => r matches Err(m) && m@ == "Error parsing ICS data from "@ + source.resolved@ + ": "@ + e,
            None => r matches Ok(o) && calendar_output_spec(
                o,
                ics_parsed_calendar(contents@),
                source,
                now_utc,
                *query,
            ),
        },
{
    match parse_calendar(contents) {
        Err(e) => Err(
            String::from_str("Error parsing ICS data from ").concat(source.resolved.as_str()).concat(
                ": ",
            ).concat(e.as_str()),
        ),
        Ok(calendar) => Ok(build_calendar_output(&calendar, source, now_utc, query)),
    }
}

/// The candidates a mode keeps, in their order.
pub open spec fn kept_in_mode(
    s: Seq<SortableEvent>,
    window_start: UtcInstant,
    now: UtcInstant,
    window_end: UtcInstant,
    mode: ScheduleMode,
) -> Seq<SortableEvent>
    decreases s.len(),
{
    if s.len() == 0 {
        s
    } else {
        let rest = kept_in_mode(s.drop_last(), window_start, now, window_end, mode);
        if in_window(s.last().sort_start, s.last().sort_end, window_start, now, window_end, mode, 0) {
            rest.push(s.last())
        } else {
            rest
        }
    }
}

/// The first `limit` events, or all of them when there are fewer.
pub open spec fn cut_to(s: Seq<SortableEvent>, limit: usize) -> Seq<SortableEvent> {
    if limit < s.len() {
        s.take(limit as int)
    } else {
        s
    }
}

proof fn lemma_kept_in_mode(
    s: Seq<SortableEvent>,
    window_start: UtcInstant,
    now: UtcInstant,
    window_end: UtcInstant,
    mode: ScheduleMode,
)
    ensures
        forall|k: int|
            0 <= k < kept_in_mode(s, window_start, now, window_end, mode).len() ==> {
                let e = #[trigger] kept_in_mode(s, window_start, now, window_end, mode)[k];
                in_window(e.sort_start, e.sort_end, window_start, now, window_end, mode, 0)
            },
    decreases s.len(),
{
    if s.len() > 0 {
        lemma_kept_in_mode(s.drop_last(), window_start, now, window_end, mode);
        let rest = kept_in_mode(s.drop_last(), window_start, now, window_end, mode);
        assert forall|k: int| 0 <= k < rest.len() implies #[trigger] rest.push(s.last())[k] == rest[k] by {}
    }
}

proof fn lemma_sort_upcoming_split(
    s: Seq<SortableEvent>,
    window_start: UtcInstant,
    now: UtcInstant,
    window_end: UtcInstant,
)
    requires
        forall|k: int| 0 <= k < s.len() ==> instant_le((#[trigger] s[k]).sort_start, s[k].sort_end),
    ensures
        sort_by_start(kept_in_mode(s, window_start, now, window_end, ScheduleMode::Upcoming)) == sort_by_start(
            kept_in_mode(s, window_start, now, window_end, ScheduleMode::Current),
        ) + sort_by_start(kept_in_mode(s, window_start, now, window_end, ScheduleMode::Next)),
    decreases s.len(),
{
    let u = kept_in_mode(s, window_start, now, window_end, ScheduleMode::Upcoming);
    let c = kept_in_mode(s, window_start, now, window_end, ScheduleMode::Current);
    let n = kept_in_mode(s, window_start, now, window_end, ScheduleMode::Next);
    if s.len() == 0 {
        assert(sort_by_start(c) + sort_by_start(n) =~= sort_by_start(u));
        return;
    }
    let s2 = s.drop_last();
    let x = s.last();
    assert forall|k: int| 0 <= k < s2.len() implies instant_le((#[trigger] s2[k]).sort_start, s2[k].sort_end) by {
        assert(s2[k] == s[k]);
    }
    lemma_sort_upcoming_split(s2, window_start, now, window_end);
    let u2 = kept_in_mode(s2, window_start, now, window_end, ScheduleMode::Upcoming);
    let c2 = kept_in_mode(s2, window_start, now, window_end, ScheduleMode::Current);
    let n2 = kept_in_mode(s2, window_start, now, window_end, ScheduleMode::Next);
    assert(instant_le(s[s.len() - 1].sort_start, s[s.len() - 1].sort_end));
    law_upcoming_is_current_or_next(x.sort_start, x.sort_end, window_start, now, window_end);
    let in_c = in_window(x.sort_start, x.sort_end, window_start, now, window_end, ScheduleMode::Current, 0);
    let in_n = in_window(x.sort_start, x.sort_end, window_start, now, window_end, ScheduleMode::Next, 0);
    if in_c {
        assert(u == u2.push(x) && c == c2.push(x) && n == n2);
        assert(u2.push(x).drop_last() =~= u2);
        assert(c2.push(x).drop_last() =~= c2);
        lemma_kept_in_mode(s2, window_start, now, window_end, ScheduleMode::Next);
        let later = |e: SortableEvent| instant_lt(x.sort_start, e.sort_start);
        assert forall|k: int| 0 <= k < n2.len() implies later(#[trigger] n2[k]) by {
            let e = n2[k];
            assert(in_window(e.sort_start, e.sort_end, window_start, now, window_end, ScheduleMode::Next, 0));
        }
        lemma_sort_keeps_property(n2, later);
        lemma_insert_before_later(sort_by_start(c2), sort_by_start(n2), x);
    } else if in_n {
        assert(u == u2.push(x) && n == n2.push(x) && c == c2);
        assert(u2.push(x).drop_last() =~= u2);
        assert(n2.push(x).drop_last() =~= n2);
        lemma_kept_in_mode(s2, window_start, now, window_end, ScheduleMode::Current);
        let earlier = |e: SortableEvent| instant_le(e.sort_start, x.sort_start);
        assert forall|k: int| 0 <= k < c2.len() implies earlier(#[trigger] c2[k]) by {
            let e = c2[k];
            assert(in_window(e.sort_start, e.sort_end, window_start, now, window_end, ScheduleMode::Current, 0));
        }
        lemma_sort_keeps_property(c2, earlier);
        lemma_insert_after_earlier(sort_by_start(c2), sort_by_start(n2), x);
    } else {
        assert(u == u2 && c == c2 && n == n2);
    }
}

/// Without past days, the schedule of the `Upcoming` mode is that of the
/// `Current` mode followed by that of the `Next` mode, cut to the limit:
/// from the same candidates (each ending no earlier than it starts), the
/// events in progress come first and then those yet to start, each group
/// in order of start.
pub proof fn law_upcoming_is_current_then_next(
    s: Seq<SortableEvent>,
    window_start: UtcInstant,
    now: UtcInstant,
    window_end: UtcInstant,
    limit: usize,
)
    requires
        forall|k: int| 0 <= k < s.len() ==> instant_le((#[trigger] s[k]).sort_start, s[k].sort_end),
    ensures
        select_events(kept_in_mode(s, window_start, now, window_end, ScheduleMode::Upcoming), limit) == cut_to(
            select_events(kept_in_mode(s, window_start, now, window_end, ScheduleMode::Current), limit)
                + select_events(kept_in_mode(s, window_start, now, window_end, ScheduleMode::Next), limit),
            limit,
        ),
{
    lemma_sort_upcoming_split(s, window_start, now, window_end);
    let sc = sort_by_start(kept_in_mode(s, window_start, now, window_end, ScheduleMode::Current));
    let sn = sort_by_start(kept_in_mode(s, window_start, now, window_end, ScheduleMode::Next));
    let lhs = cut_to(sc + sn, limit);
    let rhs = cut_to(cut_to(sc, limit) + cut_to(sn, limit), limit);
    assert(lhs =~= rhs);
}

/// The events of a schedule all fall in the query's window for its mode,
/// come ordered by start, and number at most the limit.
pub proof fn law_schedule_events_in_window(
    cands: Seq<SortableEvent>,
    window_start: UtcInstant,
    now: UtcInstant,
    window_end: UtcInstant,
    q: ScheduleQuery,
)
    requires
        forall|k: int| 0 <= k < cands.len() ==> event_in_window(#[trigger] cands[k], window_start, now, window_end, q),
    ensures
        forall|k: int|
            0 <= k < select_events(cands, q.limit).len() ==> event_in_window(
                #[trigger] select_events(cands, q.limit)[k],
                window_start,
                now,
                window_end,
                q,
            ),
        starts_sorted(select_events(cands, q.limit)),
        select_events(cands, q.limit).len() <= q.limit,
{
    let prop = |e: SortableEvent| event_in_window(e, window_start, now, window_end, q);
    assert forall|k: int| 0 <= k < cands.len() implies prop(#[trigger] cands[k]) by {}
    law_selection_keeps_candidate_property(cands, q.limit, prop);
}

} // verus!
