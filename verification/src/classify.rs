//! Classification of events from their title and description: event type,
//! venue, opponent, and the normalization of free text fields.
use vstd::prelude::*;
use crate::text::{
    chars_of, contains_chars, law_trim_idempotent, lemma_trim_keeps, seq_contains, seq_starts_with, to_lowercase, trim, trim_chars,
    trim_class, trim_spec, unicode_lowercase, opt_str_view, opt_string_view, CharClass, matches_at,
};

verus! {

/// Where an event is played, as far as its text tells.
#[derive(Debug, Clone, Copy, PartialEq, Eq, Structural)]
pub enum VenueType {
    Home,
    Away,
    Unknown,
}

/// The text the classifiers search: the title, followed by a space and the
/// description when there is one, in Unicode lowercase.
pub open spec fn haystack_spec(title: Seq<char>, description: Option<Seq<char>>) -> Seq<char> {
    unicode_lowercase(
        match description {
            Some(d) => title + " "@ + d,
            None => title,
        },
    )
}

pub open spec fn contains_any(hay: Seq<char>, needles: Seq<Seq<char>>) -> bool {
    exists|k: int| 0 <= k < needles.len() && seq_contains(hay, #[trigger] needles[k])
}

pub open spec fn practice_words() -> Seq<Seq<char>> {
    seq!["practice"@, "training"@, "workout"@, "tryout"@, "warmup"@]
}

pub open spec fn tournament_words() -> Seq<Seq<char>> {
    seq!["tournament"@, "showcase"@, "pool play"@, "playoff"@, "championship"@]
}

pub open spec fn game_words() -> Seq<Seq<char>> {
    seq!["game"@, "match"@, "scrimmage"@, "versus"@, " against "@, " vs "@, " vs."@, " @ "@]
}

/// The event type a lowercase haystack is classified as: practice words
/// win over tournament words, which win over game words.
pub open spec fn event_type_of(hay: Seq<char>) -> Seq<char> {
    if contains_any(hay, practice_words()) {
        "practice"@
    } else if contains_any(hay, tournament_words()) {
        "tournament"@
    } else if contains_any(hay, game_words()) {
        "game"@
    } else {
        "event"@
    }
}

pub open spec fn home_markers() -> Seq<Seq<char>> {
    seq![" vs "@, " vs."@, "versus"@, " against "@]
}

/// The venue a lowercase haystack is classified as: an `@` marker means an
/// away game and wins over the home markers.
pub open spec fn venue_type_of(hay: Seq<char>) -> VenueType {
    if seq_contains(hay, " @ "@) || seq_starts_with(hay, "@"@) {
        VenueType::Away
    } else if contains_any(hay, home_markers()) {
        VenueType::Home
    } else {
        VenueType::Unknown
    }
}

/// Builds the lowercase haystack of a title and optional description.
pub fn haystack(title: &str, description: Option<&str>) -> (h: Vec<char>)
    ensures
        h@ == haystack_spec(title@, opt_str_view(description)),
{
    let joined = match description {
        Some(d) => String::from_str(title).concat(" ").concat(d),
        None => String::from_str(title),
    };
    let lowered = to_lowercase(joined.as_str());
    chars_of(lowered.as_str())
}

/// Whether one of `needles` occurs in `hay`.
fn contains_any_of(hay: &Vec<char>, needles: &[&str]) -> (b: bool)
    ensures
        b == (exists|k: int| 0 <= k < needles@.len() && seq_contains(hay@, #[trigger] needles@[k]@)),
{
    let mut k: usize = 0;
    while k < needles.len()
        invariant
            k <= needles@.len(),
            forall|m: int| 0 <= m < k ==> !seq_contains(hay@, #[trigger] needles@[m]@),
        decreases needles@.len() - k,
    {
        let needle = chars_of(needles[k]);
        if contains_chars(hay.as_slice(), needle.as_slice()) {
            return true;
        }
        k = k + 1;
    }
    false
}

/// Infers the kind of event ("practice", "tournament", "game" or "event")
/// from its title and description.
pub fn infer_event_type(title: &str, description: Option<&str>) -> (t: &'static str)
    ensures
        t@ == event_type_of(haystack_spec(title@, opt_str_view(description))),
{
    let hay = haystack(title, description);
    let practice = ["practice", "training", "workout", "tryout", "warmup"];
    let tournament = ["tournament", "showcase", "pool play", "playoff", "championship"];
    let game = ["game", "match", "scrimmage", "versus", " against ", " vs ", " vs.", " @ "];
    proof {
        assert(practice@.map_values(|s: &str| s@) =~= practice_words());
        assert(tournament@.map_values(|s: &str| s@) =~= tournament_words());
        assert(game@.map_values(|s: &str| s@) =~= game_words());
    }
    if contains_any_of(&hay, &practice) {
        return "practice";
    }
    if contains_any_of(&hay, &tournament) {
        return "tournament";
    }
    if contains_any_of(&hay, &game) {
        return "game";
    }
    "event"
}

/// Infers whether an event is a home or an away game from its title and
/// description.
pub fn infer_venue_type(title: &str, description: Option<&str>) -> (v: VenueType)
    ensures
        v == venue_type_of(haystack_spec(title@, opt_str_view(description))),
{
    let hay = haystack(title, description);
    let at = chars_of(" @ ");
    let at_start = chars_of("@");
    if contains_chars(hay.as_slice(), at.as_slice()) || matches_at(hay.as_slice(), at_start.as_slice(), 0) {
        return VenueType::Away;
    }
    let home = [" vs ", " vs.", "versus", " against "];
    proof {
        assert(home@.map_values(|s: &str| s@) =~= home_markers());
    }
    if contains_any_of(&hay, &home) {
        return VenueType::Home;
    }
    VenueType::Unknown
}

/// Pattern for "vs", "vs.", "versus" or "against" followed by an opponent.
pub const OPPONENT_VERSUS_PATTERN: &'static str = r"(?i)\b(?:vs\.?|versus|against)\s+([^\-|,@;]+)";

/// Pattern for an "@" marker followed by an opponent.
pub const OPPONENT_AT_PATTERN: &'static str = r"(?i)(?:^|\s)@\s*([^\-|,@;]+)";

/// What compiling `pattern` with `regex::Regex::new` and matching it
/// against `text` with `Regex::captures` yields: `None` when the pattern
/// does not compile or nothing matches, otherwise the text of capture
/// group 1 when that group took part in the leftmost match.
pub uninterp spec fn regex_group_one(pattern: Seq<char>, text: Seq<char>) -> Option<Option<Seq<char>>>;

pub open spec fn capture_view(c: Option<Option<String>>) -> Option<Option<Seq<char>>> {
    match c {
        None => None,
        Some(None) => Some(None),
        Some(Some(s)) => Some(Some(s@)),
    }
}

/// A character that ends an opponent's name in the opponent patterns.
pub open spec fn opponent_separator(c: char) -> bool {
    c == '-' || c == '|' || c == ',' || c == '@' || c == ';'
}

pub open spec fn free_of_separators(s: Seq<char>) -> bool {
    forall|k: int| 0 <= k < s.len() ==> !opponent_separator(#[trigger] s[k])
}

/// Calls `regex::Regex::new(pattern)` and then `Regex::captures(text)`,
/// handing back the text of capture group 1: the result is the named
/// function of the two strings. For the two opponent patterns, whose group
/// 1 is the negated class `[^\-|,@;]+`, the captured text holds none of
/// those characters (no character folds to them under `(?i)`).
#[verifier::external_body]
fn first_capture(pattern: &str, text: &str) -> (r: Option<Option<String>>)
    ensures
        capture_view(r) == regex_group_one(pattern@, text@),
        pattern@ == OPPONENT_VERSUS_PATTERN@ || pattern@ == OPPONENT_AT_PATTERN@ ==> (r matches Some(Some(c))
            ==> free_of_separators(c@)),
{
    let regex = regex::Regex::new(pattern).ok()?;
    regex.captures(text).map(|c| c.get(1).map(|m| m.as_str().to_owned()))
}

/// A captured opponent without surrounding white space and without the
/// punctuation `.`, `:` and `-` at its ends.
pub open spec fn clean_opponent_spec(candidate: Seq<char>) -> Seq<char> {
    trim_spec(trim_class(trim_spec(candidate), CharClass::OpponentPunctuation))
}

/// The outcome of one pattern: `None` to try the next pattern,
/// `Some(None)` when the match has no group text and the search ends
/// empty-handed, `Some(Some(name))` when an opponent was found.
pub open spec fn opponent_step_spec(capture: Option<Option<Seq<char>>>) -> Option<Option<Seq<char>>> {
    match capture {
        None => None,
        Some(None) => Some(None),
        Some(Some(c)) => if clean_opponent_spec(c).len() > 0 {
            Some(Some(clean_opponent_spec(c)))
        } else {
            None
        },
    }
}

/// The opponent named in `text`, by the "versus" pattern first and the
/// "@" pattern second.
pub open spec fn extract_opponent_spec(text: Seq<char>) -> Option<Seq<char>> {
    match opponent_step_spec(regex_group_one(OPPONENT_VERSUS_PATTERN@, text)) {
        Some(r) => r,
        None => match opponent_step_spec(regex_group_one(OPPONENT_AT_PATTERN@, text)) {
            Some(r) => r,
            None => None,
        },
    }
}

/// The opponent named in the title, else the one named in the description.
pub open spec fn infer_opponent_spec(title: Seq<char>, description: Option<Seq<char>>) -> Option<Seq<char>> {
    match extract_opponent_spec(title) {
        Some(o) => Some(o),
        None => extract_opponent_spec(
            match description {
                Some(d) => d,
                None => ""@,
            },
        ),
    }
}

/// Decides what one pattern's capture means for the opponent search.
pub fn opponent_step(capture: Option<Option<String>>) -> (r: Option<Option<String>>)
    ensures
        capture_view(r) == opponent_step_spec(capture_view(capture)),
        (capture matches Some(Some(c)) ==> free_of_separators(c@)) ==> (r matches Some(Some(o))
            ==> free_of_separators(o@)),
{
    match capture {
        None => None,
        Some(None) => Some(None),
        Some(Some(c)) => {
            let t = trim(c.as_str());
            let tv = chars_of(t.as_str());
            let p = trim_chars(tv.as_slice(), CharClass::OpponentPunctuation);
            let ps = crate::text::string_from_chars(p.as_slice());
            let cleaned = trim(ps.as_str());
            proof {
                if free_of_separators(c@) {
                    let keep = |ch: char| !opponent_separator(ch);
                    lemma_trim_keeps(c@, CharClass::WhiteSpace, keep);
                    lemma_trim_keeps(t@, CharClass::OpponentPunctuation, keep);
                    lemma_trim_keeps(ps@, CharClass::WhiteSpace, keep);
                }
            }
            if cleaned.as_str().is_empty() {
                None
            } else {
                Some(Some(cleaned))
            }
        },
    }
}

/// The opponent named in one text field.
fn extract_opponent(text: &str) -> (r: Option<String>)
    ensures
        opt_string_view(r) == extract_opponent_spec(text@),
        r matches Some(o) ==> free_of_separators(o@),
{
    match opponent_step(first_capture(OPPONENT_VERSUS_PATTERN, text)) {
        Some(r) => r,
        None => match opponent_step(first_capture(OPPONENT_AT_PATTERN, text)) {
            Some(r) => r,
            None => None,
        },
    }
}

/// The opponent named in the title, or else in the description.
pub fn infer_opponent(title: &str, description: Option<&str>) -> (r: Option<String>)
    ensures
        opt_string_view(r) == infer_opponent_spec(title@, opt_str_view(description)),
        r matches Some(o) ==> free_of_separators(o@) && trim_spec(o@) == o@ && o@.len() > 0,
{
    proof {
        law_opponent_trimmed(title@, opt_str_view(description));
    }
    match extract_opponent(title) {
        Some(o) => Some(o),
        None => match description {
            Some(d) => extract_opponent(d),
            None => extract_opponent(""),
        },
    }
}

/// A text field without surrounding white space, or `None` when nothing
/// is left.
pub open spec fn normalize_text_spec(value: Option<Seq<char>>) -> Option<Seq<char>> {
    match value {
        Some(v) => if trim_spec(v).len() > 0 {
            Some(trim_spec(v))
        } else {
            None
        },
        None => None,
    }
}

/// Trims a text field and drops it when it is empty.
pub fn normalize_text(value: Option<&str>) -> (r: Option<String>)
    ensures
        opt_string_view(r) == normalize_text_spec(opt_str_view(value)),
{
    match value {
        Some(v) => {
            let t = trim(v);
            if t.as_str().is_empty() {
                None
            } else {
                Some(t)
            }
        },
        None => None,
    }
}

/// The identifier of an event that has no UID: title, "::" and start.
pub fn synthesize_uid(title: &str, start_iso: &str) -> (r: String)
    ensures
        r@ == title@ + "::"@ + start_iso@,
{
    String::from_str(title).concat("::").concat(start_iso)
}

/// Normalizing a text field twice gives what normalizing it once gives:
/// a normalized field is trimmed and not empty.
pub proof fn law_normalize_text_idempotent(value: Option<Seq<char>>)
    ensures
        normalize_text_spec(normalize_text_spec(value)) == normalize_text_spec(value),
        normalize_text_spec(value) matches Some(v) ==> trim_spec(v) == v && v.len() > 0,
{
    if let Some(v) = value {
        law_trim_idempotent(v, CharClass::WhiteSpace);
    }
}

/// An opponent that is found is trimmed and not empty.
pub proof fn law_opponent_trimmed(title: Seq<char>, description: Option<Seq<char>>)
    ensures
        infer_opponent_spec(title, description) matches Some(o) ==> trim_spec(o) == o && o.len() > 0,
{
    let inner = |c: Seq<char>| trim_class(trim_spec(c), CharClass::OpponentPunctuation);
    assert forall|c: Seq<char>| trim_spec(#[trigger] clean_opponent_spec(c)) == clean_opponent_spec(c) by {
        law_trim_idempotent(inner(c), CharClass::WhiteSpace);
    }
}

/// The event type of a title and description: "practice" exactly when
/// the lowercase text holds a practice word; else "tournament" exactly
/// when it holds a tournament word; else "game" exactly when it holds a
/// game word or marker; else "event".
pub proof fn law_event_type_precedence(title: Seq<char>, description: Option<Seq<char>>)
    ensures
        ({
            let h = haystack_spec(title, description);
            &&& (event_type_of(h) == "practice"@) == contains_any(h, practice_words())
            &&& (event_type_of(h) == "tournament"@) == (!contains_any(h, practice_words()) && contains_any(
                h,
                tournament_words(),
            ))
            &&& (event_type_of(h) == "game"@) == (!contains_any(h, practice_words()) && !contains_any(
                h,
                tournament_words(),
            ) && contains_any(h, game_words()))
            &&& (event_type_of(h) == "event"@) == (!contains_any(h, practice_words()) && !contains_any(
                h,
                tournament_words(),
            ) && !contains_any(h, game_words()))
        }),
{
    reveal_strlit("practice");
    reveal_strlit("tournament");
    reveal_strlit("game");
    reveal_strlit("event");
    assert("practice"@.len() != "tournament"@.len() && "practice"@.len() != "game"@.len());
    assert("practice"@.len() != "event"@.len() && "tournament"@.len() != "game"@.len());
    assert("tournament"@.len() != "event"@.len());
    assert("game"@[0] != "event"@[0]);
}

/// The venue of a title and description: away exactly when the lowercase
/// text holds " @ " or starts with "@" (which wins over the home markers);
/// else home exactly when it holds a home marker; else unknown.
pub proof fn law_venue_precedence(title: Seq<char>, description: Option<Seq<char>>)
    ensures
        ({
            let h = haystack_spec(title, description);
            let away = seq_contains(h, " @ "@) || seq_starts_with(h, "@"@);
            &&& (venue_type_of(h) == VenueType::Away) == away
            &&& (venue_type_of(h) == VenueType::Home) == (!away && contains_any(h, home_markers()))
            &&& (venue_type_of(h) == VenueType::Unknown) == (!away && !contains_any(h, home_markers()))
        }),
{
}

} // verus!
