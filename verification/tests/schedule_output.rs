use chrono::TimeZone;
use ical_sports_parser::{
    build_calendar_output, infer_event_type, infer_venue_type, normalize_source_url,
    parse_cli_options, CalendarOutput, ScheduleMode, ScheduleQuery, SourceMetadata, UtcInstant,
    VenueType,
};

const SAMPLE_CALENDAR: &str = "BEGIN:VCALENDAR\r\nVERSION:2.0\r\nX-WR-CALNAME:Julie Softball\r\nX-WR-TIMEZONE:America/Los_Angeles\r\nBEGIN:VEVENT\r\nUID:event-1\r\nSUMMARY:Julie Softball vs Wildcats\r\nDESCRIPTION:League game against Wildcats at Field 3\r\nLOCATION:Central Park Field 3\r\nDTSTART;TZID=America/Los_Angeles:20990412T183000\r\nDTEND;TZID=America/Los_Angeles:20990412T200000\r\nSTATUS:CONFIRMED\r\nEND:VEVENT\r\nBEGIN:VEVENT\r\nUID:event-2\r\nSUMMARY:Julie Softball Practice\r\nDTSTART;TZID=America/Los_Angeles:20990410T170000\r\nDTEND;TZID=America/Los_Angeles:20990410T183000\r\nSTATUS:CANCELLED\r\nEND:VEVENT\r\nEND:VCALENDAR\r\n";
const SAMPLE_RECURRING_CALENDAR: &str = "BEGIN:VCALENDAR\r\nVERSION:2.0\r\nX-WR-CALNAME:Julie Softball\r\nX-WR-TIMEZONE:America/Los_Angeles\r\nBEGIN:VEVENT\r\nUID:recurring-game\r\nSUMMARY:Julie Softball vs Wildcats\r\nDESCRIPTION:League game against Wildcats\r\nLOCATION:Central Park Field 3\r\nDTSTART;TZID=America/Los_Angeles:20990405T183000\r\nDTEND;TZID=America/Los_Angeles:20990405T200000\r\nRRULE:FREQ=WEEKLY;COUNT=4\r\nSTATUS:CONFIRMED\r\nEND:VEVENT\r\nEND:VCALENDAR\r\n";
const SAMPLE_UTC_CALENDAR: &str = "BEGIN:VCALENDAR\r\nVERSION:2.0\r\nBEGIN:VEVENT\r\nUID:utc-game\r\nSUMMARY:Woodinville Falcons Varsity vs Redmond Varsity Mustangs\r\nDTSTART:20990414T020000Z\r\nDTEND:20990414T040000Z\r\nSTATUS:CONFIRMED\r\nEND:VEVENT\r\nEND:VCALENDAR\r\n";

fn test_query(limit: usize, days: i64, past_days: i64, mode: ScheduleMode) -> ScheduleQuery {
    ScheduleQuery {
        source: "sample.ics".to_owned(),
        days,
        past_days,
        limit,
        display_timezone: None,
        pretty: false,
        mode,
    }
}

fn source() -> SourceMetadata {
    SourceMetadata {
        requested: "sample.ics".to_owned(),
        resolved: "sample.ics".to_owned(),
        kind: "file".to_owned(),
    }
}

fn instant(year: i32, month: u32, day: u32, hour: u32, minute: u32, second: u32) -> UtcInstant {
    let now = chrono::Utc
        .with_ymd_and_hms(year, month, day, hour, minute, second)
        .single()
        .expect("valid test datetime");
    UtcInstant { seconds: now.timestamp(), nanos: now.timestamp_subsec_nanos() }
}

fn build(contents: &str, now: UtcInstant, query: &ScheduleQuery) -> CalendarOutput {
    let calendar = contents
        .parse::<icalendar::Calendar>()
        .expect("sample calendar should parse");
    build_calendar_output(&calendar, source(), now, query).expect("window should be representable")
}

#[test]
fn converts_webcal_to_https() {
    let url = normalize_source_url("webcal://example.com/team.ics?token=abc")
        .expect("webcal URL should normalize");

    assert_eq!(url.as_str(), "https://example.com/team.ics?token=abc");
}

#[test]
fn extracts_future_sports_event_fields() {
    let now = instant(2099, 4, 1, 0, 0, 0);
    let output = build(SAMPLE_CALENDAR, now, &test_query(10, 30, 0, ScheduleMode::Upcoming));

    assert_eq!(output.calendar_name.as_deref(), Some("Julie Softball"));
    assert_eq!(output.events.len(), 2);

    let cancelled_event = &output.events[0];
    let event = &output.events[1];
    assert_eq!(cancelled_event.uid, "event-2");
    assert_eq!(cancelled_event.status.as_deref(), Some("CANCELLED"));
    assert_eq!(event.uid, "event-1");
    assert_eq!(event.title, "Julie Softball vs Wildcats");
    assert_eq!(event.opponent.as_deref(), Some("Wildcats"));
    assert_eq!(event.event_type, "game");
    assert_eq!(event.venue_type, VenueType::Home);
    assert_eq!(event.location.as_deref(), Some("Central Park Field 3"));
    assert_eq!(event.timezone.as_deref(), Some("America/Los_Angeles"));
}

#[test]
fn excludes_cancelled_events_that_have_already_finished() {
    let now = instant(2099, 4, 11, 2, 0, 0);
    let output = build(SAMPLE_CALENDAR, now, &test_query(10, 30, 0, ScheduleMode::Upcoming));

    assert_eq!(output.events.len(), 1);
    assert!(output.events.iter().all(|event| event.uid != "event-2"));
}

#[test]
fn keeps_events_that_are_currently_in_progress() {
    let now = instant(2099, 4, 13, 2, 30, 0);
    let output = build(SAMPLE_CALENDAR, now, &test_query(10, 30, 0, ScheduleMode::Upcoming));

    assert_eq!(output.events.len(), 1);
    assert_eq!(output.events[0].uid, "event-1");
}

#[test]
fn filters_current_mode_to_only_in_progress_events() {
    let now = instant(2099, 4, 13, 2, 30, 0);
    let output = build(SAMPLE_CALENDAR, now, &test_query(10, 30, 0, ScheduleMode::Current));

    assert_eq!(output.events.len(), 1);
    assert_eq!(output.events[0].uid, "event-1");
}

#[test]
fn filters_next_mode_to_future_starts_only() {
    let now = instant(2099, 4, 12, 20, 0, 0);
    let output = build(SAMPLE_CALENDAR, now, &test_query(10, 30, 0, ScheduleMode::Next));

    assert_eq!(output.events.len(), 1);
    assert_eq!(output.events[0].uid, "event-1");
}

#[test]
fn includes_past_events_when_past_days_is_set() {
    let now = instant(2099, 4, 13, 2, 30, 0);
    let output = build(SAMPLE_CALENDAR, now, &test_query(10, 0, 3, ScheduleMode::Upcoming));

    assert_eq!(output.events.len(), 2);
    assert_eq!(output.events[0].uid, "event-2");
    assert_eq!(output.events[1].uid, "event-1");
    assert_eq!(output.applied_filter.past_days, 3);
    assert_eq!(output.applied_filter.lookahead_days, 0);
}

#[test]
fn expands_recurrence_instances_into_multiple_events() {
    let now = instant(2099, 4, 1, 0, 0, 0);
    let output = build(SAMPLE_RECURRING_CALENDAR, now, &test_query(10, 60, 0, ScheduleMode::Upcoming));

    assert_eq!(output.events.len(), 4);
    assert!(output
        .events
        .iter()
        .all(|event| event.recurrence_parent_uid.as_deref() == Some("recurring-game")));
    assert_eq!(output.events[0].uid, "recurring-game::2099-04-05T18:30:00-07:00");
    assert_eq!(output.events[1].uid, "recurring-game::2099-04-12T18:30:00-07:00");
}

#[test]
fn applies_global_limit_filter() {
    let now = instant(2099, 4, 1, 0, 0, 0);
    let output = build(SAMPLE_RECURRING_CALENDAR, now, &test_query(2, 60, 0, ScheduleMode::Upcoming));

    assert_eq!(output.events.len(), 2);
    assert_eq!(output.applied_filter.limit, 2);
    assert_eq!(output.applied_filter.lookahead_days, 60);
}

#[test]
fn converts_output_to_requested_display_timezone() {
    let now = instant(2099, 4, 1, 0, 0, 0);
    let mut query = test_query(10, 30, 0, ScheduleMode::Upcoming);
    query.display_timezone = Some("America/Los_Angeles".to_owned());

    let output = build(SAMPLE_UTC_CALENDAR, now, &query);

    assert_eq!(output.display_timezone.as_deref(), Some("America/Los_Angeles"));
    assert_eq!(output.events[0].start_datetime, "2099-04-13T19:00:00-07:00");
    assert_eq!(
        output.events[0].end_datetime.as_deref(),
        Some("2099-04-13T21:00:00-07:00")
    );
    assert_eq!(output.events[0].timezone.as_deref(), Some("America/Los_Angeles"));
}

#[test]
fn infers_practice_event_type() {
    assert_eq!(infer_event_type("Julie Practice", None), "practice");
}

#[test]
fn infers_away_venue_type_from_at_symbol() {
    assert_eq!(
        infer_venue_type("Woodinville Falcons @ Redmond Mustangs", None),
        VenueType::Away
    );
}

#[test]
fn parses_cli_options_with_days_limit_past_days_timezone_and_pretty() {
    let query = parse_cli_options(
        [
            "--days",
            "45",
            "--past-days",
            "7",
            "--limit",
            "6",
            "--display-timezone",
            "America/Los_Angeles",
            "--pretty",
            "sample.ics",
        ]
        .into_iter()
        .map(str::to_owned)
        .collect(),
    )
    .expect("cli options should parse");

    assert_eq!(query.days, 45);
    assert_eq!(query.past_days, 7);
    assert_eq!(query.limit, 6);
    assert_eq!(query.display_timezone.as_deref(), Some("America/Los_Angeles"));
    assert!(query.pretty);
    assert_eq!(query.source, "sample.ics");
    assert_eq!(query.mode, ScheduleMode::Upcoming);
}
