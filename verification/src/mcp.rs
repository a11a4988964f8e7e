//! The decisions of the MCP server: its command line, which JSON-RPC
//! methods it answers and how, the arguments of the schedule tool, and
//! the framing of messages on standard input and output.
use vstd::prelude::*;
use crate::clock::{invalid_display_timezone_message, parse_display_timezone, parse_timezone_spec, valid_zone};
use crate::mode::{parse_mode_spec, ScheduleMode};
use crate::numbers::{digits_value, parse_usize, parse_usize_spec};
use crate::schedule::{ScheduleQuery, DEFAULT_DAYS, DEFAULT_LIMIT};
use crate::text::{
    ascii_lower_seq, chars_of, opt_string_view, str_equals, string_from_chars, to_ascii_lowercase,
    trim, trim_spec,
};

verus! {

/// How the server talks to its client.
#[derive(Debug, PartialEq, Eq)]
pub enum TransportMode {
    Stdio,
    /// HTTP on the socket address given as text.
    Http(String),
}

pub open spec fn transport_view(m: TransportMode) -> Option<Seq<char>> {
    match m {
        TransportMode::Stdio => None,
        TransportMode::Http(a) => Some(a@),
    }
}

/// Reads the server's arguments from position `i` on; `address_errors[k]`
/// is the error text of reading argument `k` as a socket address, `None`
/// when it is one. The mode is `None` for stdio, else the HTTP address.
pub open spec fn transport_from(
    args: Seq<Seq<char>>,
    address_errors: Seq<Option<Seq<char>>>,
    i: int,
    mode: Option<Seq<char>>,
) -> Result<Option<Seq<char>>, Seq<char>>
    decreases args.len() - i,
{
    if i < 0 || i >= args.len() {
        Ok(mode)
    } else if args[i] == "--stdio"@ {
        transport_from(args, address_errors, i + 1, None)
    } else if args[i] == "--http"@ {
        if i + 1 >= args.len() {
            Err("Missing value for --http. Use host:port"@)
        } else {
            match address_errors[i + 1] {
                Some(e) => Err("Invalid --http address "@ + args[i + 1] + ": "@ + e),
                None => transport_from(args, address_errors, i + 2, Some(args[i + 1])),
            }
        }
    } else {
        Err("Unknown option: "@ + args[i] + "\nUsage: ical-sports-mcp [--stdio] [--http host:port]"@)
    }
}

/// Reads the server's command line: `--stdio` (the default) or
/// `--http host:port`, the last one winning.
pub fn parse_transport_mode(args: &Vec<String>, address_errors: &Vec<Option<String>>) -> (r: Result<TransportMode, String>)
    requires
        address_errors@.len() == args@.len(),
    ensures
        match (r, transport_from(
            args@.map_values(|a: String| a@),
            address_errors@.map_values(|e: Option<String>| opt_string_view(e)),
            0,
            None,
        )) {
            (Ok(m), Ok(v)) => transport_view(m) == v,
            (Err(e), Err(f)) => e@ == f,
            _ => false,
        },
{
    let ghost av = args@.map_values(|a: String| a@);
    let ghost ev = address_errors@.map_values(|e: Option<String>| opt_string_view(e));
    let mut mode = TransportMode::Stdio;
    let n = args.len();
    let mut i: usize = 0;
    while i < n
        invariant
            i <= n,
            n == args@.len(),
            address_errors@.len() == n,
            av == args@.map_values(|a: String| a@),
            ev == address_errors@.map_values(|e: Option<String>| opt_string_view(e)),
            transport_from(av, ev, 0, None) == transport_from(av, ev, i as int, transport_view(mode)),
        decreases n - i,
    {
        assert(av[i as int] == args@[i as int]@);
        if str_equals(args[i].as_str(), "--stdio") {
            mode = TransportMode::Stdio;
            i = i + 1;
        } else if str_equals(args[i].as_str(), "--http") {
            if i + 1 >= n {
                return Err(String::from_str("Missing value for --http. Use host:port"));
            }
            assert(av[i + 1] == args@[i + 1]@);
            assert(ev[i + 1] == opt_string_view(address_errors@[i + 1]));
            match &address_errors[i + 1] {
                Some(e) => {
                    return Err(
                        String::from_str("Invalid --http address ").concat(args[i + 1].as_str()).concat(
                            ": ",
                        ).concat(e.as_str()),
                    );
                },
                None => {
                    mode = TransportMode::Http(args[i + 1].clone());
                },
            }
            i = i + 2;
        } else {
            return Err(
                String::from_str("Unknown option: ").concat(args[i].as_str()).concat(
                    "\nUsage: ical-sports-mcp [--stdio] [--http host:port]",
                ),
            );
        }
    }
    Ok(mode)
}

/// How the server answers a JSON-RPC request.
#[derive(Debug, PartialEq, Eq)]
pub enum RequestAction {
    /// Reply with the server's capabilities.
    Initialize,
    /// Reply with an empty result.
    Ping,
    /// Reply with the list of tools.
    ListTools,
    /// Run the tool call.
    CallTool,
    /// Reply with a "method not found" error carrying this message.
    MethodNotFound(String),
    /// Send no reply.
    NoReply,
    /// Fail the request with this message.
    Fail(String),
}

/// How a request with method `method` is answered; requests without an
/// id are notifications and get no reply, except that a tool call
/// without an id fails.
pub open spec fn request_action_spec(a: RequestAction, method: Seq<char>, has_id: bool) -> bool {
    if method == "initialize"@ {
        a == if has_id { RequestAction::Initialize } else { RequestAction::NoReply }
    } else if method == "notifications/initialized"@ {
        a == RequestAction::NoReply
    } else if method == "ping"@ {
        a == if has_id { RequestAction::Ping } else { RequestAction::NoReply }
    } else if method == "tools/list"@ {
        a == if has_id { RequestAction::ListTools } else { RequestAction::NoReply }
    } else if method == "tools/call"@ {
        if has_id {
            a == RequestAction::CallTool
        } else {
            a matches RequestAction::Fail(m) && m@ == "tools/call requires an id"@
        }
    } else if has_id {
        a matches RequestAction::MethodNotFound(m) && m@ == "Method not found: "@ + method
    } else {
        a == RequestAction::NoReply
    }
}

/// Decides how a request is answered.
pub fn request_action(method: &str, has_id: bool) -> (r: RequestAction)
    ensures
        request_action_spec(r, method@, has_id),
{
    if str_equals(method, "initialize") {
        if has_id { RequestAction::Initialize } else { RequestAction::NoReply }
    } else if str_equals(method, "notifications/initialized") {
        RequestAction::NoReply
    } else if str_equals(method, "ping") {
        if has_id { RequestAction::Ping } else { RequestAction::NoReply }
    } else if str_equals(method, "tools/list") {
        if has_id { RequestAction::ListTools } else { RequestAction::NoReply }
    } else if str_equals(method, "tools/call") {
        if has_id {
            RequestAction::CallTool
        } else {
            RequestAction::Fail(String::from_str("tools/call requires an id"))
        }
    } else if has_id {
        RequestAction::MethodNotFound(String::from_str("Method not found: ").concat(method))
    } else {
        RequestAction::NoReply
    }
}

/// Accepts a call of the schedule tool, or gives the error text for a
/// call of any other tool.
pub fn expect_schedule_tool(name: &str) -> (r: Result<(), String>)
    ensures
        r is Ok <==> name@ == "get_schedule"@,
        r matches Err(e) ==> e@ == "Unknown tool: "@ + name@,
{
    if str_equals(name, "get_schedule") {
        Ok(())
    } else {
        Err(String::from_str("Unknown tool: ").concat(name))
    }
}

/// The query a call of the schedule tool asks for, or the error text: the
/// mode defaults to `Upcoming`, the days to 30 and must not be negative,
/// the limit to 10 and must be positive, and the display zone must name a
/// zone. No past days are looked at and the output is not pretty-printed.
pub open spec fn tool_query_spec(
    uri: Seq<char>,
    mode: Option<Seq<char>>,
    days: Option<i64>,
    limit: Option<usize>,
    display_timezone: Option<Seq<char>>,
) -> Result<(ScheduleMode, i64, usize, Option<Seq<char>>), Seq<char>> {
    let m = match mode {
        Some(v) => parse_mode_spec(v),
        None => Ok(ScheduleMode::Upcoming),
    };
    let d = match days {
        Some(d) => d,
        None => DEFAULT_DAYS,
    };
    let l = match limit {
        Some(l) => l,
        None => DEFAULT_LIMIT,
    };
    match m {
        Err(e) => Err(e),
        Ok(m) => if d < 0 {
            Err("days must be greater than or equal to 0"@)
        } else if l == 0 {
            Err("limit must be greater than 0"@)
        } else {
            match display_timezone {
                None => Ok((m, d, l, None)),
                Some(z) => match parse_timezone_spec(z) {
                    Some(c) => Ok((m, d, l, Some(c))),
                    None => Err(invalid_display_timezone_message(z)),
                },
            }
        },
    }
}

/// Builds the query of a call of the schedule tool from its arguments.
pub fn schedule_query_from_tool_args(
    uri: String,
    mode: Option<String>,
    days: Option<i64>,
    limit: Option<usize>,
    display_timezone: Option<String>,
) -> (r: Result<ScheduleQuery, String>)
    ensures
        match (r, tool_query_spec(uri@, opt_string_view(mode), days, limit, opt_string_view(display_timezone))) {
            (Ok(q), Ok((m, d, l, z))) => {
                &&& q.source@ == uri@
                &&& q.mode == m
                &&& q.days == d
                &&& q.past_days == 0
                &&& q.limit == l
                &&& opt_string_view(q.display_timezone) == z
                &&& !q.pretty
                &&& (z matches Some(c) ==> valid_zone(c))
            },
            (Err(e), Err(f)) => e@ == f,
            _ => false,
        },
{
    let m = match mode {
        Some(v) => match ScheduleMode::parse(v.as_str()) {
            Ok(m) => m,
            Err(e) => {
                return Err(e);
            },
        },
        None => ScheduleMode::Upcoming,
    };
    let d = match days {
        Some(d) => d,
        None => DEFAULT_DAYS,
    };
    if d < 0 {
        return Err(String::from_str("days must be greater than or equal to 0"));
    }
    let l = match limit {
        Some(l) => l,
        None => DEFAULT_LIMIT,
    };
    if l == 0 {
        return Err(String::from_str("limit must be greater than 0"));
    }
    let zone = match display_timezone {
        Some(z) => match parse_display_timezone(z.as_str()) {
            Ok(c) => Some(c),
            Err(e) => {
                return Err(e);
            },
        },
        None => None,
    };
    Ok(
        ScheduleQuery {
            source: uri,
            days: d,
            past_days: 0,
            limit: l,
            display_timezone: zone,
            pretty: false,
            mode: m,
        },
    )
}

/// What one header line of a message on standard input means.
#[derive(Debug, PartialEq, Eq, Structural)]
pub enum HeaderStep {
    /// Read another header line; the content length known so far.
    Continue(Option<usize>),
    /// The headers are over; the body has this many bytes.
    Body(usize),
}

/// The position of the first `:` at or after position `i`.
pub open spec fn colon_from(s: Seq<char>, i: int) -> Option<int>
    decreases s.len() - i,
{
    if i < 0 || i >= s.len() {
        None
    } else if s[i] == ':' {
        Some(i)
    } else {
        colon_from(s, i + 1)
    }
}

/// A header's name: the text before the first `:`, or the whole line.
pub open spec fn header_name(line: Seq<char>) -> Seq<char> {
    match colon_from(line, 0) {
        Some(p) => line.take(p),
        None => line,
    }
}

/// A header's value: the text after the first `:`, or nothing.
pub open spec fn header_value(line: Seq<char>) -> Seq<char> {
    match colon_from(line, 0) {
        Some(p) => line.skip(p + 1),
        None => Seq::empty(),
    }
}

/// What a header line means given the content length read so far: an
/// empty line ends the headers, which must have given a content length;
/// a `Content-Length` header (name trimmed, in any ASCII case) must hold
/// a decimal length; other headers are skipped.
pub open spec fn header_step_spec(content_length: Option<usize>, line: Seq<char>) -> Result<HeaderStep, Seq<char>> {
    if line == "\r\n"@ || line == "\n"@ {
        match content_length {
            Some(n) => Ok(HeaderStep::Body(n)),
            None => Err("Missing Content-Length header"@),
        }
    } else if ascii_lower_seq(trim_spec(header_name(line))) == "content-length"@ {
        match parse_usize_spec(trim_spec(header_value(line))) {
            Some(n) => Ok(HeaderStep::Continue(Some(n))),
            None => Err("Invalid Content-Length"@),
        }
    } else {
        Ok(HeaderStep::Continue(content_length))
    }
}

/// Reads one header line (with its line ending) of a message on standard
/// input.
pub fn header_line_step(content_length: Option<usize>, line: &str) -> (r: Result<HeaderStep, String>)
    ensures
        match (r, header_step_spec(content_length, line@)) {
            (Ok(a), Ok(b)) => a == b,
            (Err(e), Err(f)) => e@ == f,
            _ => false,
        },
{
    if str_equals(line, "\r\n") || str_equals(line, "\n") {
        return match content_length {
            Some(n) => Ok(HeaderStep::Body(n)),
            None => Err(String::from_str("Missing Content-Length header")),
        };
    }
    let cs = chars_of(line);
    let mut p: usize = 0;
    while p < cs.len() && cs[p] != ':'
        invariant
            p <= cs@.len(),
            colon_from(cs@, 0) == colon_from(cs@, p as int),
        decreases cs@.len() - p,
    {
        p = p + 1;
    }
    let mut name: Vec<char> = Vec::new();
    let mut k: usize = 0;
    while k < p
        invariant
            k <= p <= cs@.len(),
            name@ =~= cs@.take(k as int),
        decreases p - k,
    {
        name.push(cs[k]);
        k = k + 1;
    }
    let mut value: Vec<char> = Vec::new();
    if p < cs.len() {
        let mut j: usize = p + 1;
        while j < cs.len()
            invariant
                p < cs@.len(),
                p + 1 <= j <= cs@.len(),
                value@ =~= cs@.subrange(p + 1, j as int),
            decreases cs@.len() - j,
        {
            value.push(cs[j]);
            j = j + 1;
        }
        assert(cs@.subrange(p + 1, cs@.len() as int) =~= cs@.skip(p + 1));
    } else {
        assert(cs@.take(p as int) =~= cs@);
    }
    let name_s = string_from_chars(name.as_slice());
    let value_s = string_from_chars(value.as_slice());
    let key = to_ascii_lowercase(trim(name_s.as_str()).as_str());
    if str_equals(key.as_str(), "content-length") {
        match parse_usize(trim(value_s.as_str()).as_str()) {
            Some(n) => Ok(HeaderStep::Continue(Some(n))),
            None => Err(String::from_str("Invalid Content-Length")),
        }
    } else {
        Ok(HeaderStep::Continue(content_length))
    }
}

/// The decimal digit of `d`.
pub open spec fn digit_char(d: int) -> char {
    (48 + d) as char
}

/// The decimal text of `n`, without leading zeros.
pub open spec fn decimal_digits(n: nat) -> Seq<char>
    decreases n,
{
    if n < 10 {
        seq![digit_char(n as int)]
    } else {
        decimal_digits(n / 10).push(digit_char((n % 10) as int))
    }
}

/// The decimal digits of `n`.
pub fn decimal_chars(n: usize) -> (r: Vec<char>)
    ensures
        r@ == decimal_digits(n as nat),
    decreases n,
{
    if n < 10 {
        let c = ((n as u8) + 48) as char;
        let mut v: Vec<char> = Vec::new();
        v.push(c);
        assert(v@ =~= seq![digit_char(n as int)]);
        v
    } else {
        let mut v = decimal_chars(n / 10);
        let c = (((n % 10) as u8) + 48) as char;
        v.push(c);
        v
    }
}

/// The decimal text of `n` reads back as `n`.
pub proof fn lemma_decimal_round_trip(n: nat)
    ensures
        decimal_digits(n).len() > 0,
        crate::numbers::all_digits(decimal_digits(n)),
        digits_value(decimal_digits(n)) == n,
    decreases n,
{
    assert(((48 + (n % 10)) as char) as int == 48 + (n % 10));
    if n >= 10 {
        lemma_decimal_round_trip(n / 10);
        let s = decimal_digits(n);
        assert(s.drop_last() == decimal_digits(n / 10));
        assert(s.last() == digit_char((n % 10) as int));
        assert(('0' as int) == 48);
        assert(digits_value(s) == digits_value(s.drop_last()) * 10 + ((s.last() as int) - ('0' as int)));
        assert(n == (n / 10) * 10 + n % 10);
        assert(digits_value(s) == n);
    } else {
        let s = decimal_digits(n);
        assert(s.drop_last() =~= Seq::<char>::empty());
        assert(s.last() == digit_char(n as int));
        assert(((48 + n) as char) as int == 48 + n);
        assert(digits_value(s) == digits_value(s.drop_last()) * 10 + ((s.last() as int) - ('0' as int)));
        assert(digits_value(s) == n);
        assert forall|i: int| 0 <= i < s.len() implies crate::numbers::is_digit(#[trigger] s[i]) by {
            if i < s.len() - 1 {
                assert(s[i] == decimal_digits(n / 10)[i]);
            }
        }
    }
}

/// The header that announces a body of `len` bytes.
pub fn content_length_header(len: usize) -> (r: String)
    ensures
        r@ == "Content-Length: "@ + decimal_digits(len as nat) + "\r\n\r\n"@,
{
    let digits = decimal_chars(len);
    let text = string_from_chars(digits.as_slice());
    String::from_str("Content-Length: ").concat(text.as_str()).concat("\r\n\r\n")
}

proof fn lemma_colon_at(s: Seq<char>, i: int, p: int)
    requires
        0 <= i <= p < s.len(),
        s[p] == ':',
        forall|k: int| i <= k < p ==> s[k] != ':',
    ensures
        colon_from(s, i) == Some(p),
    decreases p - i,
{
    if i < p {
        lemma_colon_at(s, i + 1, p);
    }
}

/// The header that announces a body of `n` bytes is read back by the
/// reader of standard input: its first line gives the content length `n`
/// and the empty line after it ends the headers with a body of `n` bytes.
pub proof fn law_content_length_round_trip(n: usize)
    ensures
        header_step_spec(None, "Content-Length: "@ + decimal_digits(n as nat) + "\r\n"@)
            == Ok::<HeaderStep, Seq<char>>(HeaderStep::Continue(Some(n))),
        header_step_spec(Some(n), "\r\n"@) == Ok::<HeaderStep, Seq<char>>(HeaderStep::Body(n)),
        "Content-Length: "@ + decimal_digits(n as nat) + "\r\n\r\n"@ == ("Content-Length: "@
            + decimal_digits(n as nat) + "\r\n"@) + "\r\n"@,
{
    reveal_strlit("Content-Length: ");
    reveal_strlit("\r\n");
    reveal_strlit("\n");
    reveal_strlit("\r\n\r\n");
    reveal_strlit("content-length");
    lemma_decimal_round_trip(n as nat);
    let d = decimal_digits(n as nat);
    let prefix = "Content-Length: "@;
    let line = prefix + d + "\r\n"@;
    assert(line.len() > 2);
    assert(line != "\r\n"@);
    assert(line != "\n"@);
    assert forall|k: int| 0 <= k < 14 implies line[k] != ':' by {
        assert(line[k] == prefix[k]);
    }
    assert(line[14] == ':');
    lemma_colon_at(line, 0, 14);
    assert(header_name(line) =~= "Content-Length"@) by {
        reveal_strlit("Content-Length");
    }
    reveal_strlit("Content-Length");
    let name = "Content-Length"@;
    assert(crate::text::trim_start_class(name, crate::text::CharClass::WhiteSpace) == name);
    assert(crate::text::trim_end_class(name, crate::text::CharClass::WhiteSpace) == name);
    assert(ascii_lower_seq(name) =~= "content-length"@);
    let value = header_value(line);
    assert(value =~= seq![' '] + (d + "\r\n"@));
    let dn = d + "\r\n"@;
    assert(value.drop_first() =~= dn);
    assert(crate::numbers::is_digit(dn[0]));
    assert(crate::text::trim_start_class(dn, crate::text::CharClass::WhiteSpace) == dn);
    assert(crate::text::trim_start_class(value, crate::text::CharClass::WhiteSpace) == dn);
    assert(dn.drop_last() =~= d + seq!['\r']);
    assert((d + seq!['\r']).drop_last() =~= d);
    assert(crate::numbers::is_digit(d.last()));
    assert(crate::text::trim_end_class(d, crate::text::CharClass::WhiteSpace) == d);
    assert(crate::text::trim_end_class(d + seq!['\r'], crate::text::CharClass::WhiteSpace) == d);
    assert(crate::text::trim_end_class(dn, crate::text::CharClass::WhiteSpace) == d);
    assert(trim_spec(value) == d);
    assert(crate::numbers::split_sign(d, false) == (false, d));
    assert(line + "\r\n"@ =~= prefix + d + "\r\n\r\n"@);
}

/// How the handling of an HTTP request ended.
#[derive(Debug, Clone, Copy, PartialEq, Eq, Structural)]
pub enum DispatchOutcome {
    /// A JSON-RPC reply was produced.
    Reply,
    /// The request was a notification.
    NoReply,
    /// Handling the request failed.
    Failed,
    /// The task that handled the request did not finish.
    Crashed,
}

/// The HTTP status of a handled request: 200 with a reply, 204 without
/// one, 400 when handling failed, 500 when the task did not finish.
pub fn http_status(outcome: DispatchOutcome) -> (s: u16)
    ensures
        s == match outcome {
            DispatchOutcome::Reply => 200u16,
            DispatchOutcome::NoReply => 204u16,
            DispatchOutcome::Failed => 400u16,
            DispatchOutcome::Crashed => 500u16,
        },
{
    match outcome {
        DispatchOutcome::Reply => 200,
        DispatchOutcome::NoReply => 204,
        DispatchOutcome::Failed => 400,
        DispatchOutcome::Crashed => 500,
    }
}

} // verus!
