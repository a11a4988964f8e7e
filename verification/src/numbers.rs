//! Decimal integers as `str::parse` reads them: an optional sign followed
//! by one or more ASCII digits, within the range of the type.
use vstd::prelude::*;
use crate::text::chars_of;

verus! {

pub open spec fn is_digit(c: char) -> bool {
    '0' <= c <= '9'
}

pub open spec fn all_digits(s: Seq<char>) -> bool {
    forall|i: int| 0 <= i < s.len() ==> is_digit(#[trigger] s[i])
}

/// The value of a string of decimal digits.
pub open spec fn digits_value(s: Seq<char>) -> int
    decreases s.len(),
{
    if s.len() == 0 {
        0
    } else {
        digits_value(s.drop_last()) * 10 + ((s.last() as int) - ('0' as int))
    }
}

/// The sign and digits of a signed integer text; `allow_minus` says
/// whether a leading `-` is accepted.
pub open spec fn split_sign(s: Seq<char>, allow_minus: bool) -> (bool, Seq<char>) {
    if s.len() > 0 && s[0] == '-' && allow_minus {
        (true, s.drop_first())
    } else if s.len() > 0 && s[0] == '+' {
        (false, s.drop_first())
    } else {
        (false, s)
    }
}

/// The value `str::parse::<i64>` reads, if any.
pub open spec fn parse_i64_spec(s: Seq<char>) -> Option<i64> {
    let (negative, body) = split_sign(s, true);
    if body.len() == 0 || !all_digits(body) {
        None
    } else {
        let v = if negative {
            -digits_value(body)
        } else {
            digits_value(body)
        };
        if i64::MIN <= v <= i64::MAX {
            Some(v as i64)
        } else {
            None
        }
    }
}

/// The value `str::parse::<usize>` reads, if any.
pub open spec fn parse_usize_spec(s: Seq<char>) -> Option<usize> {
    let (_, body) = split_sign(s, false);
    if body.len() == 0 || !all_digits(body) {
        None
    } else {
        let v = digits_value(body);
        if v <= usize::MAX {
            Some(v as usize)
        } else {
            None
        }
    }
}

/// The magnitude of a digit string, saturated above 2^63: `(m, false)`
/// with `m` its value, or `(_, true)` when the value exceeds 2^63; `None`
/// when the string is empty or holds a non-digit.
fn digits_magnitude(body: &[char]) -> (r: Option<(u128, bool)>)
    ensures
        match r {
            None => body@.len() == 0 || !all_digits(body@),
            Some((m, over)) => body@.len() > 0 && all_digits(body@) && (if over {
                digits_value(body@) > 0x1_0000_0000_0000_0000
            } else {
                m as int == digits_value(body@) && m <= 0x1_0000_0000_0000_0000u128
            }),
        },
{
    if body.len() == 0 {
        return None;
    }
    let mut mag: u128 = 0;
    let mut over = false;
    let mut k: usize = 0;
    while k < body.len()
        invariant
            k <= body@.len(),
            all_digits(body@.take(k as int)),
            over ==> digits_value(body@.take(k as int)) > 0x1_0000_0000_0000_0000,
            !over ==> mag as int == digits_value(body@.take(k as int)) && mag <= 0x1_0000_0000_0000_0000u128,
        decreases body@.len() - k,
    {
        let c = body[k];
        if !('0' <= c && c <= '9') {
            assert(!is_digit(body@[k as int]));
            return None;
        }
        let d = (c as u32) - ('0' as u32);
        proof {
            assert(body@.take(k + 1).drop_last() =~= body@.take(k as int));
            assert(body@.take(k + 1).last() == c);
        }
        if !over {
            let next: u128 = mag * 10 + (d as u128);
            if next > 0x1_0000_0000_0000_0000u128 {
                over = true;
            } else {
                mag = next;
            }
        }
        k = k + 1;
    }
    assert(body@.take(body@.len() as int) =~= body@);
    Some((mag, over))
}

/// `str::parse::<i64>`.
pub fn parse_i64(s: &str) -> (r: Option<i64>)
    ensures
        r == parse_i64_spec(s@),
{
    let v = chars_of(s);
    let negative = v.len() > 0 && v[0] == '-';
    let signed = v.len() > 0 && (v[0] == '-' || v[0] == '+');
    let mut body: Vec<char> = Vec::new();
    let mut k: usize = if signed { 1 } else { 0 };
    let start = k;
    while k < v.len()
        invariant
            start <= k <= v@.len(),
            body@ =~= v@.subrange(start as int, k as int),
        decreases v@.len() - k,
    {
        body.push(v[k]);
        k = k + 1;
    }
    proof {
        if signed {
            assert(v@.subrange(1, v@.len() as int) =~= v@.drop_first());
        } else {
            assert(v@.subrange(0, v@.len() as int) =~= v@);
        }
    }
    match digits_magnitude(body.as_slice()) {
        None => None,
        Some((m, over)) => {
            if over {
                None
            } else if negative {
                if m == 0x8000_0000_0000_0000u128 {
                    Some(i64::MIN)
                } else if m < 0x8000_0000_0000_0000u128 {
                    Some(-(m as i64))
                } else {
                    None
                }
            } else if m <= 0x7fff_ffff_ffff_ffffu128 {
                Some(m as i64)
            } else {
                None
            }
        },
    }
}

/// `str::parse::<usize>`.
pub fn parse_usize(s: &str) -> (r: Option<usize>)
    ensures
        r == parse_usize_spec(s@),
{
    let v = chars_of(s);
    let signed = v.len() > 0 && v[0] == '+';
    let mut body: Vec<char> = Vec::new();
    let mut k: usize = if signed { 1 } else { 0 };
    let start = k;
    while k < v.len()
        invariant
            start <= k <= v@.len(),
            body@ =~= v@.subrange(start as int, k as int),
        decreases v@.len() - k,
    {
        body.push(v[k]);
        k = k + 1;
    }
    proof {
        if signed {
            assert(v@.subrange(1, v@.len() as int) =~= v@.drop_first());
        } else {
            assert(v@.subrange(0, v@.len() as int) =~= v@);
        }
    }
    match digits_magnitude(body.as_slice()) {
        None => None,
        Some((m, over)) => {
            if over {
                None
            } else if m <= usize::MAX as u128 {
                Some(m as usize)
            } else {
                None
            }
        },
    }
}

} // verus!
