//! Schedule queries and the window rule that decides which events a
//! query keeps.
use vstd::prelude::*;
use crate::clock::{
    days_between, instant_le, instant_le_exec, instant_lt, instant_lt_exec, minus_days,
    minus_days_spec, plus_days, plus_days_spec, utc_representable, whole_days_between, UtcInstant,
};
use crate::mode::ScheduleMode;

verus! {

/// Days looked ahead when a query does not say.
pub const DEFAULT_DAYS: i64 = 30;

/// Days looked back when a query does not say.
pub const DEFAULT_PAST_DAYS: i64 = 0;

/// Events returned at most when a query does not say.
pub const DEFAULT_LIMIT: usize = 10;

/// What to fetch and which of its events to return.
#[derive(Debug, Clone)]
pub struct ScheduleQuery {
    /// A file path or a `webcal://`, `http://` or `https://` URL.
    pub source: String,
    /// Days to look ahead from now.
    pub days: i64,
    /// Days to look back from now.
    pub past_days: i64,
    /// Events returned at most.
    pub limit: usize,
    /// Canonical name of the time zone to render times in, if any.
    pub display_timezone: Option<String>,
    /// Whether the JSON output is pretty-printed.
    pub pretty: bool,
    pub mode: ScheduleMode,
}

impl Default for ScheduleQuery {
    fn default() -> (q: ScheduleQuery)
        ensures
            q.source@ == Seq::<char>::empty(),
            q.days == DEFAULT_DAYS,
            q.past_days == DEFAULT_PAST_DAYS,
            q.limit == DEFAULT_LIMIT,
            q.display_timezone is None,
            !q.pretty,
            q.mode == ScheduleMode::Upcoming,
    {
        ScheduleQuery {
            source: String::new(),
            days: DEFAULT_DAYS,
            past_days: DEFAULT_PAST_DAYS,
            limit: DEFAULT_LIMIT,
            display_timezone: None,
            pretty: false,
            mode: ScheduleMode::Upcoming,
        }
    }
}

/// Whether an event from `start` to `end` is kept: it must not start after
/// the window's end, and then
/// - `Current` keeps it when `start <= now < end`;
/// - `Next` keeps it when it starts after now;
/// - `Upcoming` and `Raw` keep it when it ends at or after the window's
///   start if past days are asked for, else when it ends after now.
pub open spec fn in_window(
    start: UtcInstant,
    end: UtcInstant,
    window_start: UtcInstant,
    now: UtcInstant,
    window_end: UtcInstant,
    mode: ScheduleMode,
    past_days: i64,
) -> bool {
    if instant_lt(window_end, start) {
        false
    } else {
        match mode {
            ScheduleMode::Current => instant_le(start, now) && instant_lt(now, end),
            ScheduleMode::Next => instant_lt(now, start),
            _ => if past_days > 0 {
                instant_le(window_start, end)
            } else {
                instant_lt(now, end)
            },
        }
    }
}

/// Decides whether an event falls in the query's window.
pub fn is_event_in_window(
    sort_start: UtcInstant,
    sort_end: UtcInstant,
    window_start: UtcInstant,
    now_utc: UtcInstant,
    window_end: UtcInstant,
    query: &ScheduleQuery,
) -> (b: bool)
    ensures
        b == in_window(sort_start, sort_end, window_start, now_utc, window_end, query.mode, query.past_days),
{
    if instant_lt_exec(window_end, sort_start) {
        return false;
    }
    match query.mode {
        ScheduleMode::Current => instant_le_exec(sort_start, now_utc) && instant_lt_exec(
            now_utc,
            sort_end,
        ),
        ScheduleMode::Next => instant_lt_exec(now_utc, sort_start),
        ScheduleMode::Upcoming => if query.past_days > 0 {
            instant_le_exec(window_start, sort_end)
        } else {
            instant_lt_exec(now_utc, sort_end)
        },
        ScheduleMode::Raw => if query.past_days > 0 {
            instant_le_exec(window_start, sort_end)
        } else {
            instant_lt_exec(now_utc, sort_end)
        },
    }
}

/// The window of a query: from `past_days` days before now to `days` days
/// after now; `None` where chrono cannot represent a bound.
pub open spec fn window_spec(now: UtcInstant, past_days: i64, days: i64) -> Option<(UtcInstant, UtcInstant)> {
    match (minus_days_spec(now, past_days as int), plus_days_spec(now, days as int)) {
        (Some(a), Some(b)) => Some((a, b)),
        _ => None,
    }
}

/// Computes the window of a query around `now`.
pub fn query_window(now: UtcInstant, query: &ScheduleQuery) -> (w: Option<(UtcInstant, UtcInstant)>)
    ensures
        w == window_spec(now, query.past_days, query.days),
        w matches Some(p) ==> utc_representable(p.0) && utc_representable(p.1),
{
    match (minus_days(now, query.past_days), plus_days(now, query.days)) {
        (Some(a), Some(b)) => Some((a, b)),
        _ => None,
    }
}

pub open spec fn max_int(a: int, b: int) -> int {
    if a >= b {
        a
    } else {
        b
    }
}

pub open spec fn min_int(a: int, b: int) -> int {
    if a <= b {
        a
    } else {
        b
    }
}

/// How many occurrences of a recurring event are generated at most: four
/// per day of the window (at least one day), at least eight per requested
/// event and at least 64, and never more than 65535.
pub open spec fn budget_spec(limit: int, day_span: int) -> int {
    min_int(65535, max_int(max_int(max_int(day_span, 1) * 4, limit * 8), 64))
}

/// The occurrence budget for a window of `day_span` whole days.
pub fn budget_for_span(limit: usize, day_span: i64) -> (b: u16)
    ensures
        b as int == budget_spec(limit as int, day_span as int),
{
    let span: i64 = if day_span < 1 { 1 } else { day_span };
    if span >= 16384 || limit >= 8192 {
        return 65535;
    }
    let by_days: u64 = (span as u64) * 4;
    let by_limit: u64 = (limit as u64) * 8;
    let mut b: u64 = if by_days >= by_limit { by_days } else { by_limit };
    if b < 64 {
        b = 64;
    }
    if b > 65535 {
        b = 65535;
    }
    b as u16
}

/// The occurrence budget for a query window; the whole days of the window
/// come from chrono, and a window chrono cannot measure counts as one day.
pub fn recurrence_budget(limit: usize, window_start: UtcInstant, window_end: UtcInstant) -> (b: u16)
    ensures
        b as int == budget_spec(
            limit as int,
            match whole_days_between(window_start, window_end) {
                Some(d) => d,
                None => 1,
            },
        ),
        utc_representable(window_start) && utc_representable(window_end) ==> (whole_days_between(
            window_start,
            window_end,
        ) matches Some(d) && b as int == budget_spec(limit as int, d)),
{
    match days_between(window_start, window_end) {
        Some(d) => budget_for_span(limit, d),
        None => budget_for_span(limit, 1),
    }
}

/// What each mode keeps: no kept event starts after the window's end;
/// `Current` keeps only events in progress (`start <= now < end`),
/// `Next` only events that start after now, and `Upcoming` and `Raw`
/// without past days only events that have not ended, so events in
/// progress stay visible; with past days they keep events that end within
/// the past window.
pub proof fn law_mode_semantics(
    start: UtcInstant,
    end: UtcInstant,
    window_start: UtcInstant,
    now: UtcInstant,
    window_end: UtcInstant,
    mode: ScheduleMode,
    past_days: i64,
)
    ensures
        in_window(start, end, window_start, now, window_end, mode, past_days) ==> instant_le(start, window_end),
        mode == ScheduleMode::Current ==> (in_window(start, end, window_start, now, window_end, mode, past_days)
            <==> instant_le(start, window_end) && instant_le(start, now) && instant_lt(now, end)),
        mode == ScheduleMode::Next ==> (in_window(start, end, window_start, now, window_end, mode, past_days)
            <==> instant_le(start, window_end) && instant_lt(now, start)),
        (mode == ScheduleMode::Upcoming || mode == ScheduleMode::Raw) && past_days <= 0 ==> (in_window(
            start,
            end,
            window_start,
            now,
            window_end,
            mode,
            past_days,
        ) <==> instant_le(start, window_end) && instant_lt(now, end)),
        (mode == ScheduleMode::Upcoming || mode == ScheduleMode::Raw) && past_days > 0 ==> (in_window(
            start,
            end,
            window_start,
            now,
            window_end,
            mode,
            past_days,
        ) <==> instant_le(start, window_end) && instant_le(window_start, end)),
{
}

/// An event in progress (`start <= now < end`) that starts within the
/// window is kept by the `Upcoming` mode without past days, as by the
/// `Current` mode.
pub proof fn law_in_progress_stays_upcoming(
    start: UtcInstant,
    end: UtcInstant,
    window_start: UtcInstant,
    now: UtcInstant,
    window_end: UtcInstant,
)
    requires
        instant_le(start, now),
        instant_lt(now, end),
        instant_le(start, window_end),
    ensures
        in_window(start, end, window_start, now, window_end, ScheduleMode::Upcoming, 0),
        in_window(start, end, window_start, now, window_end, ScheduleMode::Current, 0),
{
}

/// Without past days, `Upcoming` keeps exactly the events that `Current`
/// or `Next` keeps, and none that both keep: an event that has not ended
/// is either in progress or yet to start.
pub proof fn law_upcoming_is_current_or_next(
    start: UtcInstant,
    end: UtcInstant,
    window_start: UtcInstant,
    now: UtcInstant,
    window_end: UtcInstant,
)
    requires
        instant_le(start, end),
    ensures
        in_window(start, end, window_start, now, window_end, ScheduleMode::Upcoming, 0) <==> (in_window(
            start,
            end,
            window_start,
            now,
            window_end,
            ScheduleMode::Current,
            0,
        ) || in_window(start, end, window_start, now, window_end, ScheduleMode::Next, 0)),
        !(in_window(start, end, window_start, now, window_end, ScheduleMode::Current, 0) && in_window(
            start,
            end,
            window_start,
            now,
            window_end,
            ScheduleMode::Next,
            0,
        )),
        in_window(start, end, window_start, now, window_end, ScheduleMode::Current, 0) ==> instant_le(start, now),
        in_window(start, end, window_start, now, window_end, ScheduleMode::Next, 0) ==> instant_lt(now, start),
{
}

/// The occurrence budget always lies between 64 and 65535, and grows with
/// the limit and with the window's length.
pub proof fn law_budget_bounds(limit: int, day_span: int, limit2: int, day_span2: int)
    requires
        0 <= limit <= limit2,
        day_span <= day_span2,
    ensures
        64 <= budget_spec(limit, day_span) <= 65535,
        budget_spec(limit, day_span) >= min_int(65535, limit * 8),
        budget_spec(limit, day_span) >= min_int(65535, day_span * 4),
        budget_spec(limit, day_span) <= budget_spec(limit2, day_span2),
{
}

} // verus!
