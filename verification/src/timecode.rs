//! User-entered `HH:MM:SS` time strings: validated parsing into whole
//! seconds, and the rendering of a duration back into that shape.

use vstd::prelude::*;
use crate::text::{
    chars_of, string_from_chars, sub_chars, find_first_char, first_index_of, dec_digits,
    u64_chars, is_digit, digit_val,
};

verus! {

/// The value of a one- or two-digit field, absent when the field is not of
/// that shape.
pub open spec fn field_val(f: Seq<char>) -> Option<int> {
    if f.len() == 1 && is_digit(f[0]) {
        Some(digit_val(f[0]))
    } else if f.len() == 2 && is_digit(f[0]) && is_digit(f[1]) {
        Some(10 * digit_val(f[0]) + digit_val(f[1]))
    } else {
        None
    }
}

/// The total seconds of an `HH:MM:SS` string — three colon-separated fields
/// of one or two digits, hours below 24, minutes and seconds below 60 — or
/// absent when the string is not a valid time of day.
pub open spec fn parse_hms_spec(s: Seq<char>) -> Option<int> {
    let i = first_index_of(s, ':');
    if i < 0 {
        None
    } else {
        let rest = s.skip(i + 1);
        let j = first_index_of(rest, ':');
        if j < 0 {
            None
        } else {
            match (field_val(s.take(i)), field_val(rest.take(j)), field_val(rest.skip(j + 1))) {
                (Some(h), Some(m), Some(sec)) => if h < 24 && m < 60 && sec < 60 {
                    Some(h * 3600 + m * 60 + sec)
                } else {
                    None
                },
                _ => None,
            }
        }
    }
}

/// The value of a one- or two-digit field.
pub fn field_value(f: &Vec<char>) -> (r: Option<u32>)
    ensures
        match r {
            Some(v) => field_val(f@) == Some(v as int) && v < 100,
            None => field_val(f@) is None,
        },
{
    if f.len() == 1 && '0' <= f[0] && f[0] <= '9' {
        Some(f[0] as u32 - 48)
    } else if f.len() == 2 && '0' <= f[0] && f[0] <= '9' && '0' <= f[1] && f[1] <= '9' {
        Some(10 * (f[0] as u32 - 48) + (f[1] as u32 - 48))
    } else {
        None
    }
}

/// Parses a user-entered `HH:MM:SS` string into total seconds; a malformed
/// string parses to nothing.
pub fn parse_hms(s: &str) -> (r: Option<u32>)
    ensures
        match r {
            Some(v) => parse_hms_spec(s@) == Some(v as int),
            None => parse_hms_spec(s@) is None,
        },
{
    let v = chars_of(s);
    let i = match find_first_char(&v, ':') {
        Some(i) => i,
        None => {
            return None;
        },
    };
    let rest = sub_chars(&v, i + 1, v.len());
    proof {
        assert(rest@ =~= v@.skip(i + 1));
    }
    let j = match find_first_char(&rest, ':') {
        Some(j) => j,
        None => {
            return None;
        },
    };
    let hf = sub_chars(&v, 0, i);
    let mf = sub_chars(&rest, 0, j);
    let sf = sub_chars(&rest, j + 1, rest.len());
    proof {
        assert(hf@ =~= v@.take(i as int));
        assert(mf@ =~= rest@.take(j as int));
        assert(sf@ =~= rest@.skip(j + 1));
    }
    match (field_value(&hf), field_value(&mf), field_value(&sf)) {
        (Some(h), Some(m), Some(sec)) => {
            if h < 24 && m < 60 && sec < 60 {
                Some(h * 3600 + m * 60 + sec)
            } else {
                None
            }
        },
        _ => None,
    }
}

/// A number rendered with at least two digits, as `{:02}` pads it.
pub open spec fn pad2(n: int) -> Seq<char> {
    if 0 <= n < 10 {
        seq!['0'] + dec_digits(n)
    } else {
        dec_digits(n)
    }
}

/// A duration in seconds rendered as `HH:MM:SS`, each field padded to two
/// digits, the hours growing wider as needed.
pub open spec fn format_duration_spec(total: int) -> Seq<char> {
    pad2(total / 3600) + seq![':'] + pad2((total % 3600) / 60) + seq![':'] + pad2(total % 60)
}

pub fn push_pad2(out: &mut Vec<char>, n: u64)
    ensures
        final(out)@ == old(out)@ + pad2(n as int),
{
    if n < 10 {
        out.push('0');
    }
    let d = u64_chars(n);
    let mut i: usize = 0;
    while i < d.len()
        invariant
            i <= d.len(),
            n < 10 ==> out@ == old(out)@ + seq!['0'] + d@.take(i as int),
            n >= 10 ==> out@ == old(out)@ + d@.take(i as int),
        decreases d.len() - i,
    {
        out.push(d[i]);
        proof {
            assert(d@.take(i + 1) =~= d@.take(i as int).push(d@[i as int]));
            if n < 10 {
                assert(old(out)@ + seq!['0'] + d@.take(i + 1) =~= (old(out)@ + seq!['0']
                    + d@.take(i as int)).push(d@[i as int]));
            } else {
                assert(old(out)@ + d@.take(i + 1) =~= (old(out)@ + d@.take(i as int)).push(
                    d@[i as int],
                ));
            }
        }
        i = i + 1;
    }
    proof {
        assert(d@.take(d@.len() as int) =~= d@);
        if n < 10 {
            assert(old(out)@ + seq!['0'] + d@ =~= old(out)@ + pad2(n as int));
        }
    }
}

/// Renders a duration in seconds as an `HH:MM:SS` string.
pub fn format_duration(total: u64) -> (r: String)
    ensures
        r@ == format_duration_spec(total as int),
{
    let h = total / 3600;
    let m = (total % 3600) / 60;
    let s = total % 60;
    let mut out: Vec<char> = Vec::new();
    push_pad2(&mut out, h);
    out.push(':');
    proof {
        assert(out@ =~= pad2(h as int) + seq![':']);
    }
    push_pad2(&mut out, m);
    out.push(':');
    proof {
        assert(out@ =~= pad2(h as int) + seq![':'] + pad2(m as int) + seq![':']);
    }
    push_pad2(&mut out, s);
    string_from_chars(&out)
}

} // verus!
