# ical_sports_parser

Sports schedules from iCalendar feeds, for an MCP server and a command-line
tool. The library under `src/` is written in Verus and verified:

- `text`, `numbers`: character-level string operations (trimming, ASCII
  case, substring search) and decimal integers, specified exactly.
- `mode`, `schedule`: schedule modes, queries, the window rule that decides
  which events are kept, and the recurrence budget.
- `classify`: event type, venue and opponent from titles and descriptions.
- `clock`, `datetime`: instants, time zones and the reading and rendering
  of `DTSTART`/`DTEND` values (calendar arithmetic comes from `chrono` and
  `chrono_tz`).
- `ical`: the `icalendar` document model (parsing, properties, recurrence
  through `rrule`).
- `calendar`, `output`: from events to the schedule: expansion,
  windowing, stable ordering by start and the limit.
- `source`, `cli`, `mcp`: sources and URLs, command-line options, and the
  decisions of the MCP server (dispatch, tool arguments, message framing).

Calls into outside crates sit behind small trusted wrappers whose contracts
name their results. `app/` holds the MCP server itself: I/O, HTTP, JSON.
