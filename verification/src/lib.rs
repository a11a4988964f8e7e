//! Sports-schedule extraction from iCalendar feeds, with verified
//! filtering, classification and command-line handling.

pub mod text;
pub mod mode;
pub mod classify;
pub mod clock;
pub mod schedule;
pub mod output;
pub mod numbers;
pub mod cli;
pub mod source;
pub mod datetime;
pub mod ical;
pub mod calendar;
pub mod mcp;

pub use calendar::{build_calendar_output, build_calendar_output_from_contents};
pub use classify::{infer_event_type, infer_opponent, infer_venue_type, normalize_text, synthesize_uid, VenueType};
pub use cli::parse_cli_options;
pub use clock::{parse_display_timezone, parse_timezone, UtcInstant};
pub use mode::ScheduleMode;
pub use output::{AppliedFilter, CalendarOutput, EventOutput, SourceMetadata};
pub use schedule::{ScheduleQuery, DEFAULT_DAYS, DEFAULT_LIMIT, DEFAULT_PAST_DAYS};
pub use source::{normalize_source_url, plan_source};
