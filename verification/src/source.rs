//! Where a schedule is read from: a local file, or a URL whose `webcal`
//! scheme is read as `https`.
use vstd::prelude::*;
use crate::output::SourceMetadata;
use crate::text::{chars_of, contains_chars, matches_at, seq_contains, seq_starts_with, str_equals, string_from_chars};

verus! {

/// What `url::Url::parse(input)` yields: the URL's scheme and its
/// serialization, or the text of the parse error.
pub uninterp spec fn url_parse_outcome(input: Seq<char>) -> Result<(Seq<char>, Seq<char>), Seq<char>>;

pub open spec fn url_result_view(r: Result<(String, String), String>) -> Result<(Seq<char>, Seq<char>), Seq<char>> {
    match r {
        Ok((scheme, serialized)) => Ok((scheme@, serialized@)),
        Err(e) => Err(e@),
    }
}

/// `url::Url::parse`, then `Url::scheme` and the URL's `Display` text, or
/// the `Display` text of the `url::ParseError`. The result is a function
/// of the input alone.
#[verifier::external_body]
fn parse_url(input: &str) -> (r: Result<(String, String), String>)
    ensures
        url_result_view(r) == url_parse_outcome(input@),
{
    url::Url::parse(input).map(|u| (u.scheme().to_owned(), u.to_string())).map_err(|e| e.to_string())
}

/// The URL text that is parsed: `webcal://` is replaced by `https://`.
pub open spec fn normalized_url_text(input: Seq<char>) -> Seq<char> {
    if seq_starts_with(input, "webcal://"@) {
        "https://"@ + input.skip(9)
    } else {
        input
    }
}

/// What a parsed URL means for the source: an `http` or `https` URL is
/// read as its serialization; any other scheme, or a parse error, is an
/// error.
pub open spec fn url_acceptance_spec(input: Seq<char>, parsed: Result<(Seq<char>, Seq<char>), Seq<char>>) -> Result<Seq<char>, Seq<char>> {
    match parsed {
        Err(e) => Err("Invalid URL "@ + input + ": "@ + e),
        Ok((scheme, serialized)) => if scheme == "http"@ || scheme == "https"@ {
            Ok(serialized)
        } else {
            Err("Unsupported URL scheme "@ + scheme + ". Use webcal://, http://, or https://"@)
        },
    }
}

pub open spec fn string_result_view(r: Result<String, String>) -> Result<Seq<char>, Seq<char>> {
    match r {
        Ok(s) => Ok(s@),
        Err(e) => Err(e@),
    }
}

/// Accepts the outcome of parsing the URL `input` when its scheme is
/// `http` or `https`.
pub fn accept_url_scheme(input: &str, parsed: Result<(String, String), String>) -> (r: Result<String, String>)
    ensures
        string_result_view(r) == url_acceptance_spec(input@, url_result_view(parsed)),
{
    match parsed {
        Err(e) => Err(String::from_str("Invalid URL ").concat(input).concat(": ").concat(e.as_str())),
        Ok((scheme, serialized)) => {
            if str_equals(scheme.as_str(), "http") || str_equals(scheme.as_str(), "https") {
                Ok(serialized)
            } else {
                Err(
                    String::from_str("Unsupported URL scheme ").concat(scheme.as_str()).concat(
                        ". Use webcal://, http://, or https://",
                    ),
                )
            }
        },
    }
}

/// The URL a source names, with `webcal://` read as `https://`; only
/// `http` and `https` URLs are accepted.
pub fn normalize_source_url(input: &str) -> (r: Result<String, String>)
    ensures
        string_result_view(r) == url_acceptance_spec(
            input@,
            url_parse_outcome(normalized_url_text(input@)),
        ),
{
    let cs = chars_of(input);
    let prefix = chars_of("webcal://");
    proof {
        reveal_strlit("webcal://");
    }
    let normalized = if matches_at(cs.as_slice(), prefix.as_slice(), 0) {
        let mut rest: Vec<char> = Vec::new();
        let mut k: usize = 9;
        while k < cs.len()
            invariant
                9 <= k <= cs@.len(),
                rest@ =~= cs@.subrange(9, k as int),
            decreases cs@.len() - k,
        {
            rest.push(cs[k]);
            k = k + 1;
        }
        assert(cs@.subrange(9, cs@.len() as int) =~= cs@.skip(9));
        let tail = string_from_chars(rest.as_slice());
        String::from_str("https://").concat(tail.as_str())
    } else {
        String::from_str(input)
    };
    accept_url_scheme(input, parse_url(normalized.as_str()))
}

/// The source a query names: a URL when the text contains `://`, else a
/// file path.
pub open spec fn plan_source_spec(input: Seq<char>) -> Result<(Seq<char>, Seq<char>, Seq<char>), Seq<char>> {
    if seq_contains(input, "://"@) {
        match url_acceptance_spec(input, url_parse_outcome(normalized_url_text(input))) {
            Ok(resolved) => Ok((input, resolved, "url"@)),
            Err(e) => Err(e),
        }
    } else {
        Ok((input, input, "file"@))
    }
}

pub open spec fn metadata_view(m: SourceMetadata) -> (Seq<char>, Seq<char>, Seq<char>) {
    (m.requested@, m.resolved@, m.kind@)
}

/// Decides where a source is read from: `kind` is "url" with the
/// normalized URL as `resolved`, or "file" with the path as `resolved`.
pub fn plan_source(input: &str) -> (r: Result<SourceMetadata, String>)
    ensures
        match (r, plan_source_spec(input@)) {
            (Ok(m), Ok(v)) => metadata_view(m) == v,
            (Err(e), Err(f)) => e@ == f,
            _ => false,
        },
{
    let cs = chars_of(input);
    let sep = chars_of("://");
    if contains_chars(cs.as_slice(), sep.as_slice()) {
        match normalize_source_url(input) {
            Ok(resolved) => Ok(
                SourceMetadata {
                    requested: String::from_str(input),
                    resolved,
                    kind: String::from_str("url"),
                },
            ),
            Err(e) => Err(e),
        }
    } else {
        Ok(
            SourceMetadata {
                requested: String::from_str(input),
                resolved: String::from_str(input),
                kind: String::from_str("file"),
            },
        )
    }
}

} // verus!
