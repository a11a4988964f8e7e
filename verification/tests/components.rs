use ical_sports_parser::calendar::{
    build_single_event, expand_occurrences, make_template, EventTemplate,
};
use ical_sports_parser::classify::{opponent_step, OPPONENT_AT_PATTERN, OPPONENT_VERSUS_PATTERN};
use ical_sports_parser::clock::NaiveStamp;
use ical_sports_parser::datetime::{
    find_param, format_output_datetime, parse_datetime_property, resolve_localized_datetime,
    ParsedDateTime, PropertyRecord,
};
use ical_sports_parser::ical::Occurrence;
use ical_sports_parser::mcp::{
    expect_schedule_tool, content_length_header, decimal_chars, header_line_step, http_status,
    parse_transport_mode, request_action, schedule_query_from_tool_args, DispatchOutcome,
    HeaderStep, RequestAction, TransportMode,
};
use ical_sports_parser::numbers::{parse_i64, parse_usize};
use ical_sports_parser::output::{sort_and_limit, EventOutput, SortableEvent};
use ical_sports_parser::schedule::{
    budget_for_span, is_event_in_window, query_window, recurrence_budget,
};
use ical_sports_parser::source::accept_url_scheme;
use ical_sports_parser::text::{
    contains_chars, to_ascii_lowercase, trim, trim_chars, CharClass,
};
use ical_sports_parser::{
    build_calendar_output, build_calendar_output_from_contents, infer_event_type,
    infer_opponent, infer_venue_type, normalize_source_url, normalize_text, parse_cli_options,
    parse_display_timezone, parse_timezone, plan_source, synthesize_uid, ScheduleMode,
    ScheduleQuery, SourceMetadata, UtcInstant, VenueType,
};

fn at(seconds: i64) -> UtcInstant {
    UtcInstant { seconds, nanos: 0 }
}

fn query(mode: ScheduleMode, past_days: i64) -> ScheduleQuery {
    ScheduleQuery {
        source: "sample.ics".to_owned(),
        days: 30,
        past_days,
        limit: 10,
        display_timezone: None,
        pretty: false,
        mode,
    }
}

fn file_source() -> SourceMetadata {
    SourceMetadata {
        requested: "sample.ics".to_owned(),
        resolved: "sample.ics".to_owned(),
        kind: "file".to_owned(),
    }
}

fn args(list: &[&str]) -> Vec<String> {
    list.iter().map(|s| s.to_string()).collect()
}

fn output(uid: &str) -> EventOutput {
    EventOutput {
        uid: uid.to_owned(),
        recurrence_parent_uid: None,
        title: uid.to_owned(),
        start_datetime: String::new(),
        end_datetime: None,
        timezone: None,
        status: None,
        is_all_day: false,
        location: None,
        description: None,
        event_type: "event".to_owned(),
        venue_type: VenueType::Unknown,
        opponent: None,
    }
}

fn template(uid: &str, span: Option<(UtcInstant, UtcInstant)>, timezone: Option<&str>) -> EventTemplate {
    EventTemplate {
        uid: uid.to_owned(),
        title: "Game".to_owned(),
        end_span: span,
        timezone: timezone.map(str::to_owned),
        status: Some("CONFIRMED".to_owned()),
        is_all_day: false,
        location: None,
        description: None,
        event_type: "game".to_owned(),
        venue_type: VenueType::Home,
        opponent: None,
    }
}

// ---- modes

#[test]
fn mode_names_and_parsing() {
    assert_eq!(ScheduleMode::Raw.as_str(), "raw");
    assert_eq!(ScheduleMode::Current.as_str(), "current");
    assert_eq!(ScheduleMode::Next.as_str(), "next");
    assert_eq!(ScheduleMode::Upcoming.as_str(), "upcoming");
    for mode in [ScheduleMode::Raw, ScheduleMode::Current, ScheduleMode::Next, ScheduleMode::Upcoming] {
        assert_eq!(ScheduleMode::parse(mode.as_str()), Ok(mode));
    }
    assert_eq!(ScheduleMode::parse("  UpComing \t"), Ok(ScheduleMode::Upcoming));
    assert_eq!("NEXT".parse::<ScheduleMode>(), Ok(ScheduleMode::Next));
}

#[test]
fn invalid_mode_is_reported_with_its_key() {
    assert_eq!(
        ScheduleMode::parse(" Later "),
        Err("Invalid mode: later. Use raw, current, next, or upcoming".to_owned())
    );
}

// ---- text

#[test]
fn trim_removes_unicode_white_space() {
    assert_eq!(trim("\u{a0}\t x y \u{3000}\n"), "x y");
    assert_eq!(trim("   "), "");
    let chars: Vec<char> = "-.:Wildcats:.-".chars().collect();
    let trimmed: String = trim_chars(&chars, CharClass::OpponentPunctuation).into_iter().collect();
    assert_eq!(trimmed, "Wildcats");
    assert_eq!(to_ascii_lowercase("ÀBC-Def"), "Àbc-def");
    let hay: Vec<char> = "abcabd".chars().collect();
    let needle: Vec<char> = "abd".chars().collect();
    assert!(contains_chars(&hay, &needle));
    let missing: Vec<char> = "abe".chars().collect();
    assert!(!contains_chars(&hay, &missing));
}

// ---- classification

#[test]
fn event_type_precedence() {
    assert_eq!(infer_event_type("PRACTICE then game", None), "practice");
    assert_eq!(infer_event_type("Spring Showcase", Some("game day")), "tournament");
    assert_eq!(infer_event_type("Scrimmage", None), "game");
    assert_eq!(infer_event_type("Team vs. Hawks", None), "game");
    assert_eq!(infer_event_type("Team Photo", None), "event");
    assert_eq!(infer_event_type("Team", Some("Warmup at noon")), "practice");
}

#[test]
fn venue_type_markers() {
    assert_eq!(infer_venue_type("@ Hawks", None), VenueType::Away);
    assert_eq!(infer_venue_type("Falcons vs Hawks", None), VenueType::Home);
    assert_eq!(infer_venue_type("Falcons vs Hawks @ Field", None), VenueType::Away);
    assert_eq!(infer_venue_type("Falcons", Some("Versus Hawks")), VenueType::Home);
    assert_eq!(infer_venue_type("Falcons Practice", None), VenueType::Unknown);
}

#[test]
fn opponent_from_title_or_description() {
    assert_eq!(infer_opponent("Julie Softball vs Wildcats", None), Some("Wildcats".to_owned()));
    assert_eq!(infer_opponent("Game against Hawks - Field 2", None), Some("Hawks".to_owned()));
    assert_eq!(infer_opponent("Falcons @ Redmond Mustangs", None), Some("Redmond Mustangs".to_owned()));
    assert_eq!(infer_opponent("Practice", Some("Scrimmage VERSUS Eagles, then pizza")), Some("Eagles".to_owned()));
    assert_eq!(infer_opponent("Practice", None), None);
}

#[test]
fn opponent_step_outcomes() {
    assert_eq!(opponent_step(None), None);
    assert_eq!(opponent_step(Some(None)), Some(None));
    assert_eq!(opponent_step(Some(Some(" .:- ".to_owned()))), None);
    assert_eq!(opponent_step(Some(Some(" Hawks. ".to_owned()))), Some(Some("Hawks".to_owned())));
    assert!(OPPONENT_VERSUS_PATTERN.contains("versus"));
    assert!(OPPONENT_AT_PATTERN.contains('@'));
}

#[test]
fn text_fields_and_uids() {
    assert_eq!(normalize_text(Some("  Field 3 ")), Some("Field 3".to_owned()));
    assert_eq!(normalize_text(Some(" \t ")), None);
    assert_eq!(normalize_text(None), None);
    assert_eq!(synthesize_uid("Game", "2099-04-01T00:00:00+00:00"), "Game::2099-04-01T00:00:00+00:00");
}

// ---- numbers and command line

#[test]
fn decimal_parsing_matches_std() {
    for text in ["0", "+5", "-0", "-17", "9223372036854775807", "-9223372036854775808",
        "9223372036854775808", "", "+", "-", "1_0", " 1", "1 ", "12a", "007"] {
        assert_eq!(parse_i64(text), text.parse::<i64>().ok(), "i64 {text:?}");
        assert_eq!(parse_usize(text), text.parse::<usize>().ok(), "usize {text:?}");
    }
    assert_eq!(parse_usize("18446744073709551615"), "18446744073709551615".parse::<usize>().ok());
    assert_eq!(parse_usize("18446744073709551616"), None);
}

#[test]
fn cli_errors() {
    assert_eq!(parse_cli_options(args(&["--days"])).unwrap_err(), "Missing value for --days");
    assert_eq!(parse_cli_options(args(&["--days", "x"])).unwrap_err(), "Invalid --days value: x");
    assert_eq!(
        parse_cli_options(args(&["--days", "-1", "a.ics"])).unwrap_err(),
        "--days must be greater than or equal to 0"
    );
    assert_eq!(
        parse_cli_options(args(&["--past-days", "-2"])).unwrap_err(),
        "--past-days must be greater than or equal to 0"
    );
    assert_eq!(parse_cli_options(args(&["--limit", "0"])).unwrap_err(), "--limit must be greater than 0");
    assert_eq!(parse_cli_options(args(&["--limit", "-3"])).unwrap_err(), "Invalid --limit value: -3");
    assert_eq!(
        parse_cli_options(args(&["--display-timezone", "Mars/Base"])).unwrap_err(),
        "Invalid --display-timezone value: Mars/Base"
    );
    assert!(parse_cli_options(args(&["--verbose"])).unwrap_err().starts_with("Unknown option: --verbose\nUsage: "));
    assert_eq!(
        parse_cli_options(args(&["a.ics", "b.ics"])).unwrap_err(),
        "Provide exactly one source argument after any options"
    );
    assert!(parse_cli_options(args(&["--pretty"])).unwrap_err().starts_with("Usage: ical-sports-parser"));
}

#[test]
fn cli_defaults() {
    let q = parse_cli_options(args(&["feed.ics"])).unwrap();
    assert_eq!(q.days, 30);
    assert_eq!(q.past_days, 0);
    assert_eq!(q.limit, 10);
    assert_eq!(q.display_timezone, None);
    assert!(!q.pretty);
    let d = ScheduleQuery::default();
    assert_eq!(d.source, "");
    assert_eq!(d.mode, ScheduleMode::Upcoming);
}

// ---- time zones and time

#[test]
fn time_zone_names_and_aliases() {
    assert_eq!(parse_timezone("\"Pacific Standard Time\""), Some("America/Los_Angeles".to_owned()));
    assert_eq!(parse_timezone("Eastern Standard Time"), Some("America/New_York".to_owned()));
    assert_eq!(parse_timezone("Europe/Berlin"), Some("Europe/Berlin".to_owned()));
    assert_eq!(parse_timezone("europe/berlin"), None);
    assert_eq!(parse_display_timezone("UTC"), Ok("UTC".to_owned()));
    assert_eq!(
        parse_display_timezone("Nowhere"),
        Err("Invalid --display-timezone value: Nowhere".to_owned())
    );
    assert_eq!(parse_timezone("Asia/Tokyo"), Some("Asia/Tokyo".to_owned()));
}

#[test]
fn chrono_calls_through_the_library() {
    // naive parsing, UTC reading and UTC rendering
    let utc = PropertyRecord { name: "DTSTART".to_owned(), value: "20990412T183000Z".to_owned(), params: vec![] };
    let u = parse_datetime_property(&utc, None).unwrap();
    assert_eq!(u.iso, "2099-04-12T18:30:00+00:00");
    // reading in a zone and rendering in it
    let la = PropertyRecord {
        name: "DTSTART".to_owned(),
        value: "20990412T183000".to_owned(),
        params: vec![("TZID".to_owned(), "America/Los_Angeles".to_owned())],
    };
    let l = parse_datetime_property(&la, None).unwrap();
    assert_eq!(l.sort_utc.seconds - u.sort_utc.seconds, 7 * 3600);
    assert_eq!(l.iso, "2099-04-12T18:30:00-07:00");
    // a date that does not exist is not read
    let bad_date = PropertyRecord { name: "DTSTART".to_owned(), value: "20990231".to_owned(), params: vec![] };
    assert!(parse_datetime_property(&bad_date, Some("UTC")).is_none());
    // a wall-clock time skipped by a daylight-saving change does not occur
    let skipped = PropertyRecord {
        name: "DTSTART".to_owned(),
        value: "20990308T023000".to_owned(),
        params: vec![("TZID".to_owned(), "America/Los_Angeles".to_owned())],
    };
    assert!(parse_datetime_property(&skipped, None).is_none());
    // window arithmetic by days
    let mut q = query(ScheduleMode::Upcoming, 1);
    q.days = 2;
    assert_eq!(query_window(at(0), &q), Some((at(-86400), at(172800))));
    q.days = i64::MAX;
    assert_eq!(query_window(at(0), &q), None);
    // whole days between window bounds
    assert_eq!(recurrence_budget(1, at(0), at(20 * 86400 + 5)), 80);
    assert_eq!(recurrence_budget(1, at(0), at(i64::MAX)), 64);
}

#[test]
fn date_properties_are_read_in_their_zone() {
    let prop = PropertyRecord {
        name: "DTSTART".to_owned(),
        value: " 20990412T183000 ".to_owned(),
        params: vec![("TZID".to_owned(), "America/Los_Angeles".to_owned())],
    };
    let p = parse_datetime_property(&prop, None).unwrap();
    assert_eq!(p.iso, "2099-04-12T18:30:00-07:00");
    assert_eq!(p.timezone.as_deref(), Some("America/Los_Angeles"));
    assert!(!p.is_all_day);

    let all_day = PropertyRecord {
        name: "DTSTART".to_owned(),
        value: "20990412".to_owned(),
        params: vec![("VALUE".to_owned(), "date".to_owned())],
    };
    let d = parse_datetime_property(&all_day, Some("UTC")).unwrap();
    assert!(d.is_all_day);
    assert_eq!(d.iso, "2099-04-12T00:00:00+00:00");

    let utc = PropertyRecord { name: "DTSTART".to_owned(), value: "20990414T020000Z".to_owned(), params: vec![] };
    let u = parse_datetime_property(&utc, Some("America/Los_Angeles")).unwrap();
    assert_eq!(u.timezone.as_deref(), Some("UTC"));
    assert_eq!(u.iso, "2099-04-14T02:00:00+00:00");

    let bad = PropertyRecord { name: "DTSTART".to_owned(), value: "tomorrow".to_owned(), params: vec![] };
    assert!(parse_datetime_property(&bad, None).is_none());
    assert_eq!(find_param(&prop.params, "TZID"), Some("America/Los_Angeles".to_owned()));
    assert_eq!(find_param(&prop.params, "VALUE"), None);

    let n = NaiveStamp { year: 2099, month: 4, day: 12, hour: 18, minute: 30, second: 0, nanos: 0 };
    let floating = resolve_localized_datetime(n, Some("Somewhere/Else"), false).unwrap();
    assert_eq!(floating.timezone.as_deref(), Some("Somewhere/Else"));
    let no_hint = resolve_localized_datetime(n, None, true).unwrap();
    assert_eq!(no_hint.timezone.as_deref(), Some("floating"));
    assert!(no_hint.is_all_day);
}

#[test]
fn output_rendering() {
    let i = at(4_079_815_200); // 2099-04-14T02:00:00Z
    assert_eq!(
        format_output_datetime(i, None, None, Some("America/Los_Angeles")),
        ("2099-04-13T19:00:00-07:00".to_owned(), Some("America/Los_Angeles".to_owned()))
    );
    assert_eq!(
        format_output_datetime(i, Some("given"), Some("Zone"), None),
        ("given".to_owned(), Some("Zone".to_owned()))
    );
    assert_eq!(
        format_output_datetime(i, None, None, None),
        ("2099-04-14T02:00:00+00:00".to_owned(), Some("UTC".to_owned()))
    );
    assert_eq!(
        format_output_datetime(i, None, Some("Not/AZone"), None),
        ("2099-04-14T02:00:00+00:00".to_owned(), Some("Not/AZone".to_owned()))
    );
    assert_eq!(format_output_datetime(i, None, Some("floating"), None).1, Some("floating".to_owned()));
}

// ---- window, budget and ordering

#[test]
fn window_rules_per_mode() {
    let (ws, now, we) = (at(0), at(100), at(1000));
    let current = query(ScheduleMode::Current, 0);
    assert!(is_event_in_window(at(50), at(150), ws, now, we, &current));
    assert!(!is_event_in_window(at(50), at(100), ws, now, we, &current));
    let next = query(ScheduleMode::Next, 0);
    assert!(!is_event_in_window(at(100), at(150), ws, now, we, &next));
    assert!(is_event_in_window(at(101), at(150), ws, now, we, &next));
    assert!(!is_event_in_window(at(1001), at(1500), ws, now, we, &next));
    let upcoming = query(ScheduleMode::Upcoming, 0);
    assert!(is_event_in_window(at(50), at(101), ws, now, we, &upcoming));
    assert!(!is_event_in_window(at(50), at(100), ws, now, we, &upcoming));
    let past = query(ScheduleMode::Raw, 2);
    assert!(is_event_in_window(at(-10), at(0), ws, now, we, &past));
    assert!(!is_event_in_window(at(-10), at(-1), ws, now, we, &past));
    let q = query(ScheduleMode::Upcoming, 2);
    assert_eq!(query_window(at(0), &q), Some((at(-2 * 86400), at(30 * 86400))));
}

#[test]
fn occurrence_budget() {
    assert_eq!(budget_for_span(10, 30), 120);
    assert_eq!(budget_for_span(1, 0), 64);
    assert_eq!(budget_for_span(20, 1), 160);
    assert_eq!(budget_for_span(10_000, 1), 65535);
    assert_eq!(budget_for_span(1, 100_000), 65535);
    assert_eq!(recurrence_budget(10, at(0), at(60 * 86400)), 240);
}

#[test]
fn sort_is_stable_and_limited() {
    let events = vec![
        SortableEvent { sort_start: at(30), sort_end: at(30), output: output("c") },
        SortableEvent { sort_start: at(10), sort_end: at(10), output: output("a1") },
        SortableEvent { sort_start: at(20), sort_end: at(20), output: output("b") },
        SortableEvent { sort_start: at(10), sort_end: at(10), output: output("a2") },
    ];
    let sorted = sort_and_limit(events, 3);
    let uids: Vec<&str> = sorted.iter().map(|e| e.output.uid.as_str()).collect();
    assert_eq!(uids, vec!["a1", "a2", "b"]);
}

// ---- single events and occurrences

#[test]
fn single_event_keeps_template_fields() {
    let start = ParsedDateTime {
        iso: "2099-01-01T00:01:40+00:00".to_owned(),
        sort_utc: at(100),
        timezone: Some("UTC".to_owned()),
        is_all_day: false,
    };
    let t = template("g", Some((at(100), at(160))), Some("UTC"));
    let q = query(ScheduleMode::Upcoming, 0);
    let e = build_single_event(&start, &t, at(0), at(120), at(1000), &q).unwrap().unwrap();
    assert_eq!(e.output.uid, "g");
    assert_eq!(e.sort_end, at(160));
    assert_eq!(e.output.start_datetime, "2099-01-01T00:01:40+00:00");
    assert_eq!(e.output.end_datetime.as_deref(), Some("1970-01-01T00:02:40+00:00"));
    assert_eq!(e.output.status.as_deref(), Some("CONFIRMED"));
    assert!(build_single_event(&start, &t, at(0), at(200), at(1000), &q).unwrap().is_none());
}

#[test]
fn occurrences_are_filtered_and_named() {
    let t = template("series", Some((at(0), at(60))), None);
    let occs = vec![
        Occurrence { instant: at(0), zone: "UTC".to_owned() },
        Occurrence { instant: at(500), zone: "UTC".to_owned() },
        Occurrence { instant: at(5000), zone: "UTC".to_owned() },
    ];
    let q = query(ScheduleMode::Upcoming, 0);
    let v = expand_occurrences(&occs, &t, at(0), at(100), at(1000), &q).unwrap();
    assert_eq!(v.len(), 1);
    assert_eq!(v[0].output.uid, "series::1970-01-01T00:08:20+00:00");
    assert_eq!(v[0].output.recurrence_parent_uid.as_deref(), Some("series"));
    assert_eq!(v[0].output.end_datetime.as_deref(), Some("1970-01-01T00:09:20+00:00"));
}

// ---- calendar documents

const CAL: &str = "BEGIN:VCALENDAR\r\nVERSION:2.0\r\nX-WR-CALNAME:Hawks\r\nX-WR-TIMEZONE:UTC\r\nBEGIN:VEVENT\r\nUID:a\r\nSUMMARY:  \r\nDTSTART:20990101T100000Z\r\nEXDATE:20990108T100000Z\r\nRRULE:FREQ=WEEKLY;COUNT=3\r\nEND:VEVENT\r\nBEGIN:VEVENT\r\nSUMMARY:No start\r\nEND:VEVENT\r\nEND:VCALENDAR\r\n";

#[test]
fn icalendar_document_template() {
    let cal = CAL.parse::<icalendar::Calendar>().unwrap();
    let now = at(4_070_908_800); // 2099-01-01T00:00:00Z
    let out = build_calendar_output(&cal, file_source(), now, &query(ScheduleMode::Raw, 0)).unwrap();
    assert_eq!(out.calendar_name.as_deref(), Some("Hawks"));
    assert!(out.events.iter().all(|e| e.title == "Untitled event"));
    let props = vec![
        PropertyRecord { name: "SUMMARY".to_owned(), value: " Falcons vs Hawks ".to_owned(), params: vec![] },
        PropertyRecord { name: "UID".to_owned(), value: "  ".to_owned(), params: vec![] },
        PropertyRecord { name: "DESCRIPTION".to_owned(), value: "Bring water".to_owned(), params: vec![] },
    ];
    let start = ParsedDateTime {
        iso: "2099-01-01T10:00:00+00:00".to_owned(),
        sort_utc: at(4_070_944_800),
        timezone: None,
        is_all_day: false,
    };
    let t = make_template(&props, &start, &None, Some("UTC"));
    assert_eq!(t.title, "Falcons vs Hawks");
    assert_eq!(t.uid, "Falcons vs Hawks::2099-01-01T10:00:00+00:00");
    assert_eq!(t.timezone.as_deref(), Some("UTC"));
    assert_eq!(t.event_type, "game");
    assert_eq!(t.venue_type, VenueType::Home);
    assert_eq!(t.opponent.as_deref(), Some("Hawks"));
    assert_eq!(t.description.as_deref(), Some("Bring water"));
    assert_eq!(t.end_span, None);
}

#[test]
fn schedule_of_document_skips_events_without_start() {
    let cal = CAL.parse::<icalendar::Calendar>().unwrap();
    let now = at(4_070_908_800); // 2099-01-01T00:00:00Z
    let mut q = query(ScheduleMode::Upcoming, 0);
    q.days = 30;
    let out = build_calendar_output(&cal, file_source(), now, &q).unwrap();
    assert_eq!(out.events.len(), 2);
    assert_eq!(out.events[0].uid, "a::2099-01-01T10:00:00+00:00");
    assert_eq!(out.events[1].uid, "a::2099-01-15T10:00:00+00:00");
    assert_eq!(out.generated_at, "2099-01-01T00:00:00+00:00");
    assert_eq!(out.applied_filter.mode, "upcoming");
    assert_eq!(out.calendar_timezone.as_deref(), Some("UTC"));

    let mut bad_zone = q.clone();
    bad_zone.display_timezone = Some("Not/AZone".to_owned());
    assert!(build_calendar_output(&cal, file_source(), now, &bad_zone).is_none());
    let mut huge = q.clone();
    huge.days = i64::MAX;
    assert!(build_calendar_output(&cal, file_source(), now, &huge).is_none());

    let from_text = build_calendar_output_from_contents(CAL, file_source(), now, &q).unwrap().unwrap();
    assert_eq!(from_text.events.len(), 2);
    let err = build_calendar_output_from_contents("nonsense", file_source(), now, &q).unwrap_err();
    assert!(err.starts_with("Error parsing ICS data from sample.ics: "));
}

// ---- sources

#[test]
fn sources_and_urls() {
    let f = plan_source("team.ics").unwrap();
    assert_eq!((f.requested.as_str(), f.resolved.as_str(), f.kind.as_str()), ("team.ics", "team.ics", "file"));
    let u = plan_source("webcal://example.com/a.ics").unwrap();
    assert_eq!((u.resolved.as_str(), u.kind.as_str()), ("https://example.com/a.ics", "url"));
    assert_eq!(
        normalize_source_url("ftp://example.com/a.ics"),
        Err("Unsupported URL scheme ftp. Use webcal://, http://, or https://".to_owned())
    );
    assert!(normalize_source_url("http://").unwrap_err().starts_with("Invalid URL http://: "));
    assert_eq!(
        accept_url_scheme("x", Ok(("http".to_owned(), "http://x/".to_owned()))),
        Ok("http://x/".to_owned())
    );
    assert_eq!(
        accept_url_scheme("x", Err("bad".to_owned())),
        Err("Invalid URL x: bad".to_owned())
    );
}

// ---- MCP decisions

#[test]
fn transport_arguments() {
    let a = args(&["--http", "0.0.0.0:8080"]);
    assert_eq!(parse_transport_mode(&a, &vec![None, None]), Ok(TransportMode::Http("0.0.0.0:8080".to_owned())));
    let b = args(&["--http", "0.0.0.0:8080", "--stdio"]);
    assert_eq!(parse_transport_mode(&b, &vec![None, None, None]), Ok(TransportMode::Stdio));
    let c = args(&["--http", "nowhere", "--bogus"]);
    assert_eq!(
        parse_transport_mode(&c, &vec![None, Some("bad address".to_owned()), None]),
        Err("Invalid --http address nowhere: bad address".to_owned())
    );
    assert_eq!(parse_transport_mode(&args(&["--http"]), &vec![None]), Err("Missing value for --http. Use host:port".to_owned()));
    assert_eq!(
        parse_transport_mode(&args(&["-x"]), &vec![None]),
        Err("Unknown option: -x\nUsage: ical-sports-mcp [--stdio] [--http host:port]".to_owned())
    );
}

#[test]
fn request_dispatch() {
    assert_eq!(request_action("initialize", true), RequestAction::Initialize);
    assert_eq!(request_action("initialize", false), RequestAction::NoReply);
    assert_eq!(request_action("notifications/initialized", true), RequestAction::NoReply);
    assert_eq!(request_action("ping", true), RequestAction::Ping);
    assert_eq!(request_action("tools/list", true), RequestAction::ListTools);
    assert_eq!(request_action("tools/call", true), RequestAction::CallTool);
    assert_eq!(request_action("tools/call", false), RequestAction::Fail("tools/call requires an id".to_owned()));
    assert_eq!(request_action("foo", true), RequestAction::MethodNotFound("Method not found: foo".to_owned()));
    assert_eq!(request_action("foo", false), RequestAction::NoReply);
    assert_eq!(expect_schedule_tool("get_schedule"), Ok(()));
    assert_eq!(expect_schedule_tool("x"), Err("Unknown tool: x".to_owned()));
    assert_eq!(http_status(DispatchOutcome::Reply), 200);
    assert_eq!(http_status(DispatchOutcome::NoReply), 204);
    assert_eq!(http_status(DispatchOutcome::Failed), 400);
    assert_eq!(http_status(DispatchOutcome::Crashed), 500);
}

#[test]
fn tool_arguments() {
    let q = schedule_query_from_tool_args("webcal://x".to_owned(), Some("next".to_owned()), None, Some(5), Some("UTC".to_owned())).unwrap();
    assert_eq!((q.mode, q.days, q.past_days, q.limit), (ScheduleMode::Next, 30, 0, 5));
    assert_eq!(q.display_timezone.as_deref(), Some("UTC"));
    assert!(!q.pretty);
    let e = |m: Option<&str>, d: Option<i64>, l: Option<usize>, z: Option<&str>| {
        schedule_query_from_tool_args("u".to_owned(), m.map(str::to_owned), d, l, z.map(str::to_owned)).unwrap_err()
    };
    assert_eq!(e(Some("soon"), None, None, None), "Invalid mode: soon. Use raw, current, next, or upcoming");
    assert_eq!(e(None, Some(-1), None, None), "days must be greater than or equal to 0");
    assert_eq!(e(None, None, Some(0), None), "limit must be greater than 0");
    assert_eq!(e(None, None, None, Some("Mars")), "Invalid --display-timezone value: Mars");
}

#[test]
fn message_framing() {
    assert_eq!(content_length_header(42), "Content-Length: 42\r\n\r\n");
    assert_eq!(content_length_header(0), "Content-Length: 0\r\n\r\n");
    assert_eq!(decimal_chars(1_000_007).into_iter().collect::<String>(), "1000007");
    assert_eq!(header_line_step(None, "Content-Length: 42\r\n"), Ok(HeaderStep::Continue(Some(42))));
    assert_eq!(header_line_step(None, " content-LENGTH :7\n"), Ok(HeaderStep::Continue(Some(7))));
    assert_eq!(header_line_step(Some(3), "Content-Type: a:b\r\n"), Ok(HeaderStep::Continue(Some(3))));
    assert_eq!(header_line_step(Some(3), "\r\n"), Ok(HeaderStep::Body(3)));
    assert_eq!(header_line_step(None, "\n"), Err("Missing Content-Length header".to_owned()));
    assert_eq!(header_line_step(None, "Content-Length: x\r\n"), Err("Invalid Content-Length".to_owned()));
    assert_eq!(header_line_step(Some(1), "no colon here\n"), Ok(HeaderStep::Continue(Some(1))));
}

const RDATE_CAL: &str = "BEGIN:VCALENDAR\r\nVERSION:2.0\r\nBEGIN:VEVENT\r\nUID:extra\r\nSUMMARY:Makeup game\r\nDTSTART:20990101T100000Z\r\nDTEND:20990101T120000Z\r\nRDATE:20990105T100000Z\r\nEND:VEVENT\r\nEND:VCALENDAR\r\n";

#[test]
fn extra_dates_make_an_event_recur() {
    let cal = RDATE_CAL.parse::<icalendar::Calendar>().unwrap();
    let now = at(4_070_908_800); // 2099-01-01T00:00:00Z
    let out = build_calendar_output(&cal, file_source(), now, &query(ScheduleMode::Upcoming, 0)).unwrap();
    let uids: Vec<&str> = out.events.iter().map(|e| e.uid.as_str()).collect();
    assert_eq!(uids, vec!["extra::2099-01-01T10:00:00+00:00", "extra::2099-01-05T10:00:00+00:00"]);
    assert_eq!(out.events[1].end_datetime.as_deref(), Some("2099-01-05T12:00:00+00:00"));
    assert!(out.events.iter().all(|e| e.recurrence_parent_uid.as_deref() == Some("extra")));
}

#[test]
fn instants_chrono_cannot_represent_give_no_schedule() {
    let cal = RDATE_CAL.parse::<icalendar::Calendar>().unwrap();
    let q = query(ScheduleMode::Upcoming, 0);
    assert!(build_calendar_output(&cal, file_source(), at(i64::MAX), &q).is_none());
    assert!(build_calendar_output(&cal, file_source(), at(4_070_908_800), &q).is_some());
}

#[test]
fn next_mode_and_limit_on_a_document() {
    let cal = RDATE_CAL.parse::<icalendar::Calendar>().unwrap();
    let now = at(4_070_944_800 + 60); // a minute after the first start
    let mut q = query(ScheduleMode::Next, 0);
    let out = build_calendar_output(&cal, file_source(), now, &q).unwrap();
    assert_eq!(out.events.len(), 1);
    assert_eq!(out.events[0].start_datetime, "2099-01-05T10:00:00+00:00");
    q.mode = ScheduleMode::Current;
    let current = build_calendar_output(&cal, file_source(), now, &q).unwrap();
    assert_eq!(current.events.len(), 1);
    assert_eq!(current.events[0].start_datetime, "2099-01-01T10:00:00+00:00");
    q.mode = ScheduleMode::Upcoming;
    q.limit = 1;
    let limited = build_calendar_output(&cal, file_source(), now, &q).unwrap();
    assert_eq!(limited.events.len(), 1);
    assert_eq!(limited.applied_filter.mode, "upcoming");
}

const EXCLUDED_CAL: &str = "BEGIN:VCALENDAR\r\nVERSION:2.0\r\nBEGIN:VEVENT\r\nUID:skipped\r\nSUMMARY:Cancelled practice\r\nDTSTART:20990101T100000Z\r\nRRULE:FREQ=WEEKLY;COUNT=2\r\nEXDATE:20990101T100000Z\r\nEND:VEVENT\r\nEND:VCALENDAR\r\n";

#[test]
fn an_excluded_instance_is_never_output() {
    let cal = EXCLUDED_CAL.parse::<icalendar::Calendar>().unwrap();
    let now = at(4_070_908_800); // 2099-01-01T00:00:00Z
    let mut q = query(ScheduleMode::Upcoming, 0);
    q.days = 5;
    let out = build_calendar_output(&cal, file_source(), now, &q).unwrap();
    assert!(out.events.is_empty());
    q.days = 10;
    let later = build_calendar_output(&cal, file_source(), now, &q).unwrap();
    let uids: Vec<&str> = later.events.iter().map(|e| e.uid.as_str()).collect();
    assert_eq!(uids, vec!["skipped::2099-01-08T10:00:00+00:00"]);
}

const LONG_SERIES_CAL: &str = "BEGIN:VCALENDAR\r\nVERSION:2.0\r\nBEGIN:VEVENT\r\nUID:daily\r\nSUMMARY:Daily drills\r\nDTSTART:20971127T100000Z\r\nRRULE:FREQ=DAILY\r\nEND:VEVENT\r\nEND:VCALENDAR\r\n";

#[test]
fn instances_long_after_the_first_are_expanded() {
    let cal = LONG_SERIES_CAL.parse::<icalendar::Calendar>().unwrap();
    let now = at(4_070_908_800); // 2099-01-01T00:00:00Z, 400 days after the first instance
    let q = query(ScheduleMode::Upcoming, 0);
    let out = build_calendar_output(&cal, file_source(), now, &q).unwrap();
    assert_eq!(out.events.len(), 10);
    assert_eq!(out.events[0].uid, "daily::2099-01-01T10:00:00+00:00");
    assert_eq!(out.events[9].uid, "daily::2099-01-10T10:00:00+00:00");
    assert!(out.events.iter().all(|e| e.recurrence_parent_uid.as_deref() == Some("daily")));
}

#[test]
fn a_repeated_option_keeps_its_last_value() {
    let q = parse_cli_options(args(&["--days", "3", "--limit", "4", "a.ics", "--days", "9", "--limit", "2"])).unwrap();
    assert_eq!(q.days, 9);
    assert_eq!(q.limit, 2);
    assert_eq!(q.source, "a.ics");
    assert_eq!(q.mode, ScheduleMode::Upcoming);
}

#[test]
fn normalizing_twice_is_normalizing_once() {
    let once = normalize_text(Some("  Falcons at Hawks \t"));
    assert_eq!(once.as_deref(), Some("Falcons at Hawks"));
    assert_eq!(normalize_text(once.as_deref()), once);
    assert_eq!(normalize_text(Some(" \n ")), None);
    let trimmed = trim("\u{3000} x y \u{a0}");
    assert_eq!(trim(&trimmed), trimmed);
}

const MIXED_CAL: &str = "BEGIN:VCALENDAR\r\nVERSION:2.0\r\nBEGIN:VEVENT\r\nUID:later\r\nSUMMARY:Later game\r\nDTSTART:20990103T100000Z\r\nDTEND:20990103T120000Z\r\nEND:VEVENT\r\nBEGIN:VEVENT\r\nUID:now\r\nSUMMARY:Game in progress\r\nDTSTART:20990101T090000Z\r\nDTEND:20990101T110000Z\r\nEND:VEVENT\r\nBEGIN:VEVENT\r\nUID:soon\r\nSUMMARY:Next game\r\nDTSTART:20990102T100000Z\r\nDTEND:20990102T120000Z\r\nEND:VEVENT\r\nBEGIN:VEVENT\r\nUID:done\r\nSUMMARY:Finished game\r\nDTSTART:20981231T100000Z\r\nDTEND:20981231T120000Z\r\nEND:VEVENT\r\nEND:VCALENDAR\r\n";

#[test]
fn upcoming_is_current_then_next() {
    let cal = MIXED_CAL.parse::<icalendar::Calendar>().unwrap();
    let now = at(4_070_944_800); // 2099-01-01T10:00:00Z
    let uids = |mode: ScheduleMode, limit: usize| -> Vec<String> {
        let mut q = query(mode, 0);
        q.limit = limit;
        let out = build_calendar_output(&cal, file_source(), now, &q).unwrap();
        out.events.iter().map(|e| e.uid.clone()).collect()
    };
    assert_eq!(uids(ScheduleMode::Current, 10), vec!["now"]);
    assert_eq!(uids(ScheduleMode::Next, 10), vec!["soon", "later"]);
    assert_eq!(uids(ScheduleMode::Upcoming, 10), vec!["now", "soon", "later"]);
    assert_eq!(uids(ScheduleMode::Upcoming, 2), vec!["now", "soon"]);
}

const OFF_RULE_START_CAL: &str = "BEGIN:VCALENDAR\r\nVERSION:2.0\r\nBEGIN:VEVENT\r\nUID:weekly\r\nSUMMARY:Opening game\r\nDTSTART:20990101T100000Z\r\nRRULE:FREQ=WEEKLY;BYDAY=MO;COUNT=1\r\nEND:VEVENT\r\nEND:VCALENDAR\r\n";

#[test]
fn a_start_off_the_rule_is_kept_when_no_rule_date_is_in_the_window() {
    let cal = OFF_RULE_START_CAL.parse::<icalendar::Calendar>().unwrap();
    let now = at(4_070_908_800); // Thursday 2099-01-01T00:00:00Z
    let mut q = query(ScheduleMode::Upcoming, 0);
    q.days = 3;
    let out = build_calendar_output(&cal, file_source(), now, &q).unwrap();
    assert_eq!(out.events.len(), 1);
    assert_eq!(out.events[0].uid, "weekly");
    assert_eq!(out.events[0].start_datetime, "2099-01-01T10:00:00+00:00");
    assert_eq!(out.events[0].recurrence_parent_uid, None);
}

const ZONED_EXCLUDED_CAL: &str = "BEGIN:VCALENDAR\r\nVERSION:2.0\r\nBEGIN:VEVENT\r\nUID:zoned\r\nSUMMARY:Practice\r\nDTSTART;TZID=America/Los_Angeles:20990101T100000\r\nRRULE:FREQ=DAILY;COUNT=3\r\nEXDATE;TZID=America/Los_Angeles:20990102T100000\r\nEND:VEVENT\r\nEND:VCALENDAR\r\n";

#[test]
fn a_zoned_exdate_removes_its_instance() {
    let cal = ZONED_EXCLUDED_CAL.parse::<icalendar::Calendar>().unwrap();
    let now = at(4_070_908_800); // 2099-01-01T00:00:00Z
    let out = build_calendar_output(&cal, file_source(), now, &query(ScheduleMode::Upcoming, 0)).unwrap();
    let starts: Vec<&str> = out.events.iter().map(|e| e.start_datetime.as_str()).collect();
    assert_eq!(starts, vec!["2099-01-01T10:00:00-08:00", "2099-01-03T10:00:00-08:00"]);
}
