//! Command-line options of the schedule tool.
use vstd::prelude::*;
use crate::clock::{invalid_display_timezone_message, parse_display_timezone, parse_timezone_spec};
use crate::mode::ScheduleMode;
use crate::numbers::{parse_i64, parse_i64_spec, parse_usize, parse_usize_spec};
use crate::schedule::{ScheduleQuery, DEFAULT_DAYS, DEFAULT_LIMIT, DEFAULT_PAST_DAYS};
use crate::text::{chars_of, str_equals};

verus! {

/// The options read so far.
pub struct CliState {
    pub days: i64,
    pub past_days: i64,
    pub limit: usize,
    pub display_timezone: Option<Seq<char>>,
    pub pretty: bool,
    pub source: Option<Seq<char>>,
}

pub open spec fn initial_cli_state() -> CliState {
    CliState {
        days: DEFAULT_DAYS,
        past_days: DEFAULT_PAST_DAYS,
        limit: DEFAULT_LIMIT,
        display_timezone: None,
        pretty: false,
        source: None,
    }
}

pub open spec fn usage_message() -> Seq<char> {
    "Usage: ical-sports-parser [--days N] [--past-days N] [--limit N] [--display-timezone TZ] [--pretty] <path-to-file.ics|webcal-url|https-url>"@
}

/// Reads the arguments from position `i` on, starting from state `st`.
pub open spec fn cli_from(args: Seq<Seq<char>>, i: int, st: CliState) -> Result<CliState, Seq<char>>
    decreases args.len() - i,
{
    if i < 0 || i >= args.len() {
        Ok(st)
    } else {
        let arg = args[i];
        if arg == "--days"@ {
            if i + 1 >= args.len() {
                Err("Missing value for --days"@)
            } else {
                match parse_i64_spec(args[i + 1]) {
                    None => Err("Invalid --days value: "@ + args[i + 1]),
                    Some(v) => if v < 0 {
                        Err("--days must be greater than or equal to 0"@)
                    } else {
                        cli_from(args, i + 2, CliState { days: v, ..st })
                    },
                }
            }
        } else if arg == "--past-days"@ {
            if i + 1 >= args.len() {
                Err("Missing value for --past-days"@)
            } else {
                match parse_i64_spec(args[i + 1]) {
                    None => Err("Invalid --past-days value: "@ + args[i + 1]),
                    Some(v) => if v < 0 {
                        Err("--past-days must be greater than or equal to 0"@)
                    } else {
                        cli_from(args, i + 2, CliState { past_days: v, ..st })
                    },
                }
            }
        } else if arg == "--limit"@ {
            if i + 1 >= args.len() {
                Err("Missing value for --limit"@)
            } else {
                match parse_usize_spec(args[i + 1]) {
                    None => Err("Invalid --limit value: "@ + args[i + 1]),
                    Some(v) => if v == 0 {
                        Err("--limit must be greater than 0"@)
                    } else {
                        cli_from(args, i + 2, CliState { limit: v, ..st })
                    },
                }
            }
        } else if arg == "--display-timezone"@ {
            if i + 1 >= args.len() {
                Err("Missing value for --display-timezone"@)
            } else {
                match parse_timezone_spec(args[i + 1]) {
                    None => Err(invalid_display_timezone_message(args[i + 1])),
                    Some(z) => cli_from(args, i + 2, CliState { display_timezone: Some(z), ..st }),
                }
            }
        } else if arg == "--pretty"@ {
            cli_from(args, i + 1, CliState { pretty: true, ..st })
        } else if arg.len() > 0 && arg[0] == '-' {
            Err("Unknown option: "@ + arg + "\nUsage: ical-sports-parser [--days N] [--past-days N] [--limit N] [--display-timezone TZ] [--pretty] <path-to-file.ics|webcal-url|https-url>"@)
        } else if st.source is Some {
            Err("Provide exactly one source argument after any options"@)
        } else {
            cli_from(args, i + 1, CliState { source: Some(arg), ..st })
        }
    }
}

/// The query the arguments describe, or the error text.
pub open spec fn parse_cli_spec(args: Seq<Seq<char>>) -> Result<CliState, Seq<char>> {
    match cli_from(args, 0, initial_cli_state()) {
        Err(e) => Err(e),
        Ok(st) => if st.source is Some {
            Ok(st)
        } else {
            Err(usage_message())
        },
    }
}

pub open spec fn args_view(args: Seq<String>) -> Seq<Seq<char>> {
    args.map_values(|a: String| a@)
}

pub open spec fn query_matches_state(q: ScheduleQuery, st: CliState) -> bool {
    &&& st.source == Some(q.source@)
    &&& q.days == st.days
    &&& q.past_days == st.past_days
    &&& q.limit == st.limit
    &&& crate::text::opt_string_view(q.display_timezone) == st.display_timezone
    &&& q.pretty == st.pretty
    &&& q.mode == ScheduleMode::Upcoming
}

/// Whether an argument is an option that takes a value.
pub open spec fn takes_value(arg: Seq<char>) -> bool {
    arg == "--days"@ || arg == "--past-days"@ || arg == "--limit"@ || arg == "--display-timezone"@
}

/// The positions, from `i` on, of the arguments that are neither an
/// option nor the value of one.
pub open spec fn positional_indices(args: Seq<Seq<char>>, i: int) -> Seq<int>
    decreases args.len() - i,
{
    if i < 0 || i >= args.len() {
        Seq::empty()
    } else if takes_value(args[i]) {
        if i + 1 < args.len() {
            positional_indices(args, i + 2)
        } else {
            Seq::empty()
        }
    } else if args[i].len() > 0 && args[i][0] == '-' {
        positional_indices(args, i + 1)
    } else {
        seq![i] + positional_indices(args, i + 1)
    }
}

proof fn lemma_option_names()
    ensures
        "--days"@ != "--past-days"@,
        "--days"@ != "--limit"@,
        "--days"@ != "--display-timezone"@,
        "--days"@ != "--pretty"@,
        "--past-days"@ != "--limit"@,
        "--past-days"@ != "--display-timezone"@,
        "--past-days"@ != "--pretty"@,
        "--limit"@ != "--display-timezone"@,
        "--limit"@ != "--pretty"@,
        "--display-timezone"@ != "--pretty"@,
        "--pretty"@.len() > 0 && "--pretty"@[0] == '-',
        "--days"@.len() > 0 && "--days"@[0] == '-',
        "--past-days"@.len() > 0 && "--past-days"@[0] == '-',
        "--limit"@.len() > 0 && "--limit"@[0] == '-',
        "--display-timezone"@.len() > 0 && "--display-timezone"@[0] == '-',
{
    reveal_strlit("--days");
    reveal_strlit("--past-days");
    reveal_strlit("--limit");
    reveal_strlit("--display-timezone");
    reveal_strlit("--pretty");
    assert("--days"@.len() != "--past-days"@.len());
    assert("--days"@.len() != "--limit"@.len());
    assert("--days"@.len() != "--display-timezone"@.len());
    assert("--days"@[2] != "--pretty"@[2]);
    assert("--past-days"@.len() != "--limit"@.len());
    assert("--past-days"@.len() != "--display-timezone"@.len());
    assert("--past-days"@.len() != "--pretty"@.len());
    assert("--limit"@.len() != "--display-timezone"@.len());
    assert("--limit"@.len() != "--pretty"@.len());
    assert("--display-timezone"@.len() != "--pretty"@.len());
}

proof fn lemma_cli_from_accepted(args: Seq<Seq<char>>, i: int, st: CliState)
    requires
        0 <= i,
        st.days >= 0,
        st.past_days >= 0,
        st.limit >= 1,
    ensures
        cli_from(args, i, st) matches Ok(s2) ==> {
            &&& s2.days >= 0
            &&& s2.past_days >= 0
            &&& s2.limit >= 1
            &&& st.source is Some ==> s2.source == st.source && positional_indices(args, i).len() == 0
            &&& st.source is None ==> {
                ||| s2.source is None && positional_indices(args, i).len() == 0
                ||| positional_indices(args, i).len() == 1 && s2.source == Some(args[positional_indices(args, i)[0]])
            }
        },
    decreases args.len() - i,
{
    lemma_option_names();
    if i >= args.len() {
        return;
    }
    let arg = args[i];
    if takes_value(arg) {
        if i + 1 < args.len() {
            if arg == "--days"@ {
                if let Some(v) = parse_i64_spec(args[i + 1]) {
                    if v >= 0 {
                        lemma_cli_from_accepted(args, i + 2, CliState { days: v, ..st });
                    }
                }
            } else if arg == "--past-days"@ {
                if let Some(v) = parse_i64_spec(args[i + 1]) {
                    if v >= 0 {
                        lemma_cli_from_accepted(args, i + 2, CliState { past_days: v, ..st });
                    }
                }
            } else if arg == "--limit"@ {
                if let Some(v) = parse_usize_spec(args[i + 1]) {
                    if v != 0 {
                        lemma_cli_from_accepted(args, i + 2, CliState { limit: v, ..st });
                    }
                }
            } else {
                if let Some(z) = parse_timezone_spec(args[i + 1]) {
                    lemma_cli_from_accepted(args, i + 2, CliState { display_timezone: Some(z), ..st });
                }
            }
        }
    } else if arg == "--pretty"@ {
        lemma_cli_from_accepted(args, i + 1, CliState { pretty: true, ..st });
    } else if arg.len() > 0 && arg[0] == '-' {
    } else if st.source is None {
        lemma_cli_from_accepted(args, i + 1, CliState { source: Some(arg), ..st });
        assert(positional_indices(args, i)[0] == i);
    }
}

/// A command line that is accepted gives day counts that are not
/// negative and a limit of at least one, and exactly one of its arguments
/// is neither an option nor an option's value: that argument is the
/// source.
pub proof fn law_cli_accepted(args: Seq<Seq<char>>)
    ensures
        parse_cli_spec(args) matches Ok(st) ==> {
            &&& st.days >= 0
            &&& st.past_days >= 0
            &&& st.limit >= 1
            &&& positional_indices(args, 0).len() == 1
            &&& st.source == Some(args[positional_indices(args, 0)[0]])
        },
{
    lemma_cli_from_accepted(args, 0, initial_cli_state());
}

/// The value given with the last occurrence of the option `name`, reading
/// the arguments from position `i` on as the command line is read (an
/// option's value is never read as an option).
pub open spec fn last_option_value(args: Seq<Seq<char>>, i: int, name: Seq<char>) -> Option<Seq<char>>
    decreases args.len() - i,
{
    if i < 0 || i >= args.len() {
        None
    } else if takes_value(args[i]) {
        if i + 1 < args.len() {
            match last_option_value(args, i + 2, name) {
                Some(v) => Some(v),
                None => if args[i] == name {
                    Some(args[i + 1])
                } else {
                    None
                },
            }
        } else {
            None
        }
    } else {
        last_option_value(args, i + 1, name)
    }
}

/// Whether `--pretty` is given from position `i` on.
pub open spec fn pretty_given(args: Seq<Seq<char>>, i: int) -> bool
    decreases args.len() - i,
{
    if i < 0 || i >= args.len() {
        false
    } else if takes_value(args[i]) {
        if i + 1 < args.len() {
            pretty_given(args, i + 2)
        } else {
            false
        }
    } else {
        args[i] == "--pretty"@ || pretty_given(args, i + 1)
    }
}

/// The options read from position `i` on, starting from `st`: each field
/// holds the value of the last occurrence of its option, or what it held.
pub open spec fn options_from(args: Seq<Seq<char>>, i: int, st: CliState, s2: CliState) -> bool {
    &&& s2.days == match last_option_value(args, i, "--days"@) {
        Some(v) => parse_i64_spec(v)->Some_0,
        None => st.days,
    }
    &&& s2.past_days == match last_option_value(args, i, "--past-days"@) {
        Some(v) => parse_i64_spec(v)->Some_0,
        None => st.past_days,
    }
    &&& s2.limit == match last_option_value(args, i, "--limit"@) {
        Some(v) => parse_usize_spec(v)->Some_0,
        None => st.limit,
    }
    &&& s2.display_timezone == match last_option_value(args, i, "--display-timezone"@) {
        Some(v) => parse_timezone_spec(v),
        None => st.display_timezone,
    }
    &&& s2.pretty == (st.pretty || pretty_given(args, i))
}

proof fn lemma_cli_from_last_wins(args: Seq<Seq<char>>, i: int, st: CliState)
    requires
        0 <= i,
    ensures
        cli_from(args, i, st) matches Ok(s2) ==> options_from(args, i, st, s2),
    decreases args.len() - i,
{
    lemma_option_names();
    if i >= args.len() {
        return;
    }
    let arg = args[i];
    if takes_value(arg) {
        if i + 1 < args.len() {
            if arg == "--days"@ {
                if let Some(v) = parse_i64_spec(args[i + 1]) {
                    lemma_cli_from_last_wins(args, i + 2, CliState { days: v, ..st });
                }
            } else if arg == "--past-days"@ {
                if let Some(v) = parse_i64_spec(args[i + 1]) {
                    lemma_cli_from_last_wins(args, i + 2, CliState { past_days: v, ..st });
                }
            } else if arg == "--limit"@ {
                if let Some(v) = parse_usize_spec(args[i + 1]) {
                    lemma_cli_from_last_wins(args, i + 2, CliState { limit: v, ..st });
                }
            } else {
                if let Some(z) = parse_timezone_spec(args[i + 1]) {
                    lemma_cli_from_last_wins(args, i + 2, CliState { display_timezone: Some(z), ..st });
                }
            }
        }
    } else if arg == "--pretty"@ {
        lemma_cli_from_last_wins(args, i + 1, CliState { pretty: true, ..st });
    } else if !(arg.len() > 0 && arg[0] == '-') && st.source is None {
        lemma_cli_from_last_wins(args, i + 1, CliState { source: Some(arg), ..st });
    }
}

/// On an accepted command line, each option given more than once holds
/// the value of its last occurrence, and an option never given holds its
/// default.
pub proof fn law_cli_repeated_option_last_wins(args: Seq<Seq<char>>)
    ensures
        parse_cli_spec(args) matches Ok(st) ==> options_from(args, 0, initial_cli_state(), st),
{
    lemma_cli_from_last_wins(args, 0, initial_cli_state());
}

proof fn lemma_cli_from_suffix(a: Seq<Seq<char>>, b: Seq<Seq<char>>, i: int, st: CliState)
    requires
        0 <= i,
    ensures
        cli_from(a + b, a.len() + i, st) == cli_from(b, i, st),
    decreases b.len() - i,
{
    lemma_option_names();
    let ab = a + b;
    if i >= b.len() {
        return;
    }
    assert(ab[a.len() + i] == b[i]);
    if i + 1 < b.len() {
        assert(ab[a.len() + i + 1] == b[i + 1]);
    }
    let arg = b[i];
    if i + 1 < b.len() {
        if arg == "--days"@ {
            if let Some(v) = parse_i64_spec(b[i + 1]) {
                lemma_cli_from_suffix(a, b, i + 2, CliState { days: v, ..st });
            }
        } else if arg == "--past-days"@ {
            if let Some(v) = parse_i64_spec(b[i + 1]) {
                lemma_cli_from_suffix(a, b, i + 2, CliState { past_days: v, ..st });
            }
        } else if arg == "--limit"@ {
            if let Some(v) = parse_usize_spec(b[i + 1]) {
                lemma_cli_from_suffix(a, b, i + 2, CliState { limit: v, ..st });
            }
        } else if arg == "--display-timezone"@ {
            if let Some(z) = parse_timezone_spec(b[i + 1]) {
                lemma_cli_from_suffix(a, b, i + 2, CliState { display_timezone: Some(z), ..st });
            }
        }
    }
    lemma_cli_from_suffix(a, b, i + 1, CliState { pretty: true, ..st });
    lemma_cli_from_suffix(a, b, i + 1, CliState { source: Some(arg), ..st });
}

proof fn lemma_cli_from_prefix(a: Seq<Seq<char>>, b: Seq<Seq<char>>, i: int, st: CliState)
    requires
        0 <= i <= a.len(),
        cli_from(a, i, st) is Ok,
    ensures
        cli_from(a + b, i, st) == cli_from(a + b, a.len() as int, cli_from(a, i, st)->Ok_0),
    decreases a.len() - i,
{
    lemma_option_names();
    let ab = a + b;
    if i == a.len() {
        return;
    }
    assert(ab[i] == a[i]);
    if i + 1 < a.len() {
        assert(ab[i + 1] == a[i + 1]);
    }
    let arg = a[i];
    if i + 1 < a.len() {
        if arg == "--days"@ {
            if let Some(v) = parse_i64_spec(a[i + 1]) {
                if v >= 0 {
                    lemma_cli_from_prefix(a, b, i + 2, CliState { days: v, ..st });
                }
            }
        } else if arg == "--past-days"@ {
            if let Some(v) = parse_i64_spec(a[i + 1]) {
                if v >= 0 {
                    lemma_cli_from_prefix(a, b, i + 2, CliState { past_days: v, ..st });
                }
            }
        } else if arg == "--limit"@ {
            if let Some(v) = parse_usize_spec(a[i + 1]) {
                if v != 0 {
                    lemma_cli_from_prefix(a, b, i + 2, CliState { limit: v, ..st });
                }
            }
        } else if arg == "--display-timezone"@ {
            if let Some(z) = parse_timezone_spec(a[i + 1]) {
                lemma_cli_from_prefix(a, b, i + 2, CliState { display_timezone: Some(z), ..st });
            }
        }
    }
    if arg == "--pretty"@ {
        lemma_cli_from_prefix(a, b, i + 1, CliState { pretty: true, ..st });
    } else if !takes_value(arg) && !(arg.len() > 0 && arg[0] == '-') && st.source is None {
        lemma_cli_from_prefix(a, b, i + 1, CliState { source: Some(arg), ..st });
    }
}

/// Options given again override what came before: appending
/// `--days N`, `--past-days N` or `--limit N` with a valid value to an
/// accepted command line gives the same options but for that one field,
/// which holds the new value.
pub proof fn law_cli_last_option_wins(args: Seq<Seq<char>>, value: Seq<char>)
    requires
        parse_cli_spec(args) is Ok,
    ensures
        match parse_i64_spec(value) {
            Some(d) => d >= 0 ==> parse_cli_spec(args + seq!["--days"@, value]) == Ok::<CliState, Seq<char>>(
                CliState { days: d, ..parse_cli_spec(args)->Ok_0 },
            ) && parse_cli_spec(args + seq!["--past-days"@, value]) == Ok::<CliState, Seq<char>>(
                CliState { past_days: d, ..parse_cli_spec(args)->Ok_0 },
            ),
            None => true,
        },
        match parse_usize_spec(value) {
            Some(n) => n > 0 ==> parse_cli_spec(args + seq!["--limit"@, value]) == Ok::<CliState, Seq<char>>(
                CliState { limit: n, ..parse_cli_spec(args)->Ok_0 },
            ),
            None => true,
        },
{
    lemma_option_names();
    let st = parse_cli_spec(args)->Ok_0;
    let b0 = seq!["--days"@, value];
    let b1 = seq!["--past-days"@, value];
    let b2 = seq!["--limit"@, value];
    lemma_cli_from_prefix(args, b0, 0, initial_cli_state());
    lemma_cli_from_suffix(args, b0, 0, st);
    lemma_cli_from_prefix(args, b1, 0, initial_cli_state());
    lemma_cli_from_suffix(args, b1, 0, st);
    lemma_cli_from_prefix(args, b2, 0, initial_cli_state());
    lemma_cli_from_suffix(args, b2, 0, st);
    assert(b0[0] == "--days"@ && b0[1] == value);
    assert(b1[0] == "--past-days"@ && b1[1] == value);
    assert(b2[0] == "--limit"@ && b2[1] == value);
    if let Some(d) = parse_i64_spec(value) {
        if d >= 0 {
            assert(cli_from(b0, 2, CliState { days: d, ..st }) == Ok::<CliState, Seq<char>>(CliState { days: d, ..st }));
            assert(cli_from(b1, 2, CliState { past_days: d, ..st }) == Ok::<CliState, Seq<char>>(CliState { past_days: d, ..st }));
        }
    }
    if let Some(n) = parse_usize_spec(value) {
        if n > 0 {
            assert(cli_from(b2, 2, CliState { limit: n, ..st }) == Ok::<CliState, Seq<char>>(CliState { limit: n, ..st }));
        }
    }
}

/// Reads the options and the one source argument of the schedule tool.
pub fn parse_cli_options(args: Vec<String>) -> (r: Result<ScheduleQuery, String>)
    ensures
        match (r, parse_cli_spec(args_view(args@))) {
            (Ok(q), Ok(st)) => query_matches_state(q, st),
            (Err(e), Err(m)) => e@ == m,
            _ => false,
        },
{
    let ghost av = args_view(args@);
    let mut days: i64 = DEFAULT_DAYS;
    let mut past_days: i64 = DEFAULT_PAST_DAYS;
    let mut limit: usize = DEFAULT_LIMIT;
    let mut display_timezone: Option<String> = None;
    let mut pretty = false;
    let mut source: Option<String> = None;
    let n = args.len();
    let mut i: usize = 0;
    while i < n
        invariant
            i <= n,
            n == args@.len(),
            av == args_view(args@),
            cli_from(av, 0, initial_cli_state()) == cli_from(
                av,
                i as int,
                CliState {
                    days,
                    past_days,
                    limit,
                    display_timezone: crate::text::opt_string_view(display_timezone),
                    pretty,
                    source: crate::text::opt_string_view(source),
                },
            ),
        decreases n - i,
    {
        let arg = &args[i];
        assert(av[i as int] == arg@);
        if str_equals(arg.as_str(), "--days") {
            if i + 1 >= n {
                return Err(String::from_str("Missing value for --days"));
            }
            let value = &args[i + 1];
            assert(av[i + 1] == value@);
            match parse_i64(value.as_str()) {
                None => {
                    return Err(String::from_str("Invalid --days value: ").concat(value.as_str()));
                },
                Some(v) => {
                    if v < 0 {
                        return Err(String::from_str("--days must be greater than or equal to 0"));
                    }
                    days = v;
                },
            }
            i = i + 2;
        } else if str_equals(arg.as_str(), "--past-days") {
            if i + 1 >= n {
                return Err(String::from_str("Missing value for --past-days"));
            }
            let value = &args[i + 1];
            assert(av[i + 1] == value@);
            match parse_i64(value.as_str()) {
                None => {
                    return Err(
                        String::from_str("Invalid --past-days value: ").concat(value.as_str()),
                    );
                },
                Some(v) => {
                    if v < 0 {
                        return Err(
                            String::from_str("--past-days must be greater than or equal to 0"),
                        );
                    }
                    past_days = v;
                },
            }
            i = i + 2;
        } else if str_equals(arg.as_str(), "--limit") {
            if i + 1 >= n {
                return Err(String::from_str("Missing value for --limit"));
            }
            let value = &args[i + 1];
            assert(av[i + 1] == value@);
            match parse_usize(value.as_str()) {
                None => {
                    return Err(String::from_str("Invalid --limit value: ").concat(value.as_str()));
                },
                Some(v) => {
                    if v == 0 {
                        return Err(String::from_str("--limit must be greater than 0"));
                    }
                    limit = v;
                },
            }
            i = i + 2;
        } else if str_equals(arg.as_str(), "--display-timezone") {
            if i + 1 >= n {
                return Err(String::from_str("Missing value for --display-timezone"));
            }
            let value = &args[i + 1];
            assert(av[i + 1] == value@);
            match parse_display_timezone(value.as_str()) {
                Err(e) => {
                    return Err(e);
                },
                Ok(z) => {
                    display_timezone = Some(z);
                },
            }
            i = i + 2;
        } else if str_equals(arg.as_str(), "--pretty") {
            pretty = true;
            i = i + 1;
        } else {
            let cs = chars_of(arg.as_str());
            if cs.len() > 0 && cs[0] == '-' {
                let message = String::from_str("Unknown option: ").concat(arg.as_str()).concat(
                    "\nUsage: ical-sports-parser [--days N] [--past-days N] [--limit N] [--display-timezone TZ] [--pretty] <path-to-file.ics|webcal-url|https-url>",
                );
                return Err(message);
            }
            if source.is_some() {
                return Err(
                    String::from_str("Provide exactly one source argument after any options"),
                );
            }
            source = Some(arg.clone());
            i = i + 1;
        }
    }
    match source {
        None => Err(
            String::from_str(
                "Usage: ical-sports-parser [--days N] [--past-days N] [--limit N] [--display-timezone TZ] [--pretty] <path-to-file.ics|webcal-url|https-url>",
            ),
        ),
        Some(src) => Ok(
            ScheduleQuery {
                source: src,
                days,
                past_days,
                limit,
                display_timezone,
                pretty,
                mode: ScheduleMode::Upcoming,
            },
        ),
    }
}

} // verus!
