//! Schedule modes: which events a query keeps relative to "now".
use vstd::prelude::*;
use crate::text::{ascii_lower_seq, str_equals, to_ascii_lowercase, trim, trim_spec};

verus! {

/// Which events a schedule query keeps.
#[derive(Debug, Clone, Copy, PartialEq, Eq, Structural)]
pub enum ScheduleMode {
    /// The normalized schedule for the whole query window.
    Raw,
    /// Only events in progress: `start <= now < end`.
    Current,
    /// Only events that start after now.
    Next,
    /// Events that have not ended yet.
    Upcoming,
}

/// The lowercase name of a mode.
pub open spec fn mode_name(mode: ScheduleMode) -> Seq<char> {
    match mode {
        ScheduleMode::Raw => "raw"@,
        ScheduleMode::Current => "current"@,
        ScheduleMode::Next => "next"@,
        ScheduleMode::Upcoming => "upcoming"@,
    }
}

/// The key a mode argument is matched by: trimmed, then ASCII-lowercased.
pub open spec fn mode_key(value: Seq<char>) -> Seq<char> {
    ascii_lower_seq(trim_spec(value))
}

/// The error text for a mode argument whose key is `key`.
pub open spec fn invalid_mode_message(key: Seq<char>) -> Seq<char> {
    "Invalid mode: "@ + key + ". Use raw, current, next, or upcoming"@
}

/// What parsing a mode argument gives back.
pub open spec fn parse_mode_spec(value: Seq<char>) -> Result<ScheduleMode, Seq<char>> {
    let key = mode_key(value);
    if key == "raw"@ {
        Ok(ScheduleMode::Raw)
    } else if key == "current"@ {
        Ok(ScheduleMode::Current)
    } else if key == "next"@ {
        Ok(ScheduleMode::Next)
    } else if key == "upcoming"@ {
        Ok(ScheduleMode::Upcoming)
    } else {
        Err(invalid_mode_message(key))
    }
}

impl ScheduleMode {
    /// The lowercase name of the mode.
    pub fn as_str(self) -> (s: &'static str)
        ensures
            s@ == mode_name(self),
    {
        match self {
            ScheduleMode::Raw => "raw",
            ScheduleMode::Current => "current",
            ScheduleMode::Next => "next",
            ScheduleMode::Upcoming => "upcoming",
        }
    }

    /// Parses a mode name, ignoring surrounding white space and ASCII case.
    pub fn parse(value: &str) -> (r: Result<ScheduleMode, String>)
        ensures
            match (r, parse_mode_spec(value@)) {
                (Ok(m), Ok(n)) => m == n,
                (Err(e), Err(f)) => e@ == f,
                _ => false,
            },
    {
        let trimmed = trim(value);
        let key = to_ascii_lowercase(trimmed.as_str());
        if str_equals(key.as_str(), "raw") {
            Ok(ScheduleMode::Raw)
        } else if str_equals(key.as_str(), "current") {
            Ok(ScheduleMode::Current)
        } else if str_equals(key.as_str(), "next") {
            Ok(ScheduleMode::Next)
        } else if str_equals(key.as_str(), "upcoming") {
            Ok(ScheduleMode::Upcoming)
        } else {
            let message = String::from_str("Invalid mode: ").concat(key.as_str()).concat(
                ". Use raw, current, next, or upcoming",
            );
            Err(message)
        }
    }
}

impl core::str::FromStr for ScheduleMode {
    type Err = String;

    fn from_str(value: &str) -> (r: Result<ScheduleMode, String>)
        ensures
            match (r, parse_mode_spec(value@)) {
                (Ok(m), Ok(n)) => m == n,
                (Err(e), Err(f)) => e@ == f,
                _ => false,
            },
    {
        ScheduleMode::parse(value)
    }
}

/// Every mode's name parses back to that mode.
pub proof fn lemma_mode_name_round_trip(mode: ScheduleMode)
    ensures
        parse_mode_spec(mode_name(mode)) == Ok::<ScheduleMode, Seq<char>>(mode),
{
    reveal_strlit("raw");
    reveal_strlit("current");
    reveal_strlit("next");
    reveal_strlit("upcoming");
    let s = mode_name(mode);
    assert(crate::text::trim_start_class(s, crate::text::CharClass::WhiteSpace) == s);
    assert(crate::text::trim_end_class(s, crate::text::CharClass::WhiteSpace) == s);
    assert(ascii_lower_seq(s) =~= s);
}

} // verus!
