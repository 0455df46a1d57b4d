//! Stateless decoding of the media tool's diagnostic lines: the token after
//! a `time=` marker, read as `HH:MM:SS[.frac]` or `MM:SS[.frac]`, becomes a
//! time in milliseconds; that time over `PROGRESS_UNIT_DENOMINATOR`
//! milliseconds is the published completion fraction — the historical
//! division of the elapsed seconds by one hundred, kept as observed.

use vstd::prelude::*;
use crate::text::{
    chars_of, sub_chars, find_first_char, first_index_of, match_at,
};
use crate::text::{
    all_digits, digit_val, digits_val, is_digit, lemma_digits_val_nonneg, lemma_digits_val_prefix,
};
use crate::timecode::field_val;

verus! {

/// One full progress fraction, in milliseconds: the elapsed seconds of the
/// `time=` token count toward completion divided by one hundred seconds.
pub const PROGRESS_UNIT_DENOMINATOR: u64 = 100000;

/// The index of the first occurrence of a non-empty `pat` in `text`, or `-1`.
pub open spec fn first_match(text: Seq<char>, pat: Seq<char>) -> int
    decreases text.len(),
{
    if pat.len() == 0 || text.len() < pat.len() {
        -1
    } else if text.take(pat.len() as int) == pat {
        0
    } else if first_match(text.skip(1), pat) == -1 {
        -1
    } else {
        first_match(text.skip(1), pat) + 1
    }
}

/// An occurrence of `pat` with no earlier one is the first occurrence.
proof fn lemma_first_match_at(text: Seq<char>, pat: Seq<char>, k: int)
    requires
        pat.len() > 0,
        0 <= k,
        k + pat.len() <= text.len(),
        text.subrange(k, k + pat.len()) == pat,
        forall|j: int| 0 <= j < k ==> #[trigger] text.subrange(j, j + pat.len()) != pat,
    ensures
        first_match(text, pat) == k,
    decreases text.len(),
{
    if k == 0 {
        assert(text.take(pat.len() as int) =~= text.subrange(0, 0 + pat.len() as int));
    } else {
        assert(text.take(pat.len() as int) =~= text.subrange(0, 0 + pat.len() as int));
        assert(text.skip(1).subrange(k - 1, k - 1 + pat.len()) =~= text.subrange(
            k,
            k + pat.len(),
        ));
        assert forall|j: int| 0 <= j < k - 1 implies #[trigger] text.skip(1).subrange(
            j,
            j + pat.len(),
        ) != pat by {
            assert(text.skip(1).subrange(j, j + pat.len()) =~= text.subrange(
                j + 1,
                j + 1 + pat.len(),
            ));
        }
        lemma_first_match_at(text.skip(1), pat, k - 1);
    }
}

/// A text without `pat` has no first occurrence of it.
proof fn lemma_first_match_none(text: Seq<char>, pat: Seq<char>)
    requires
        pat.len() > 0,
        forall|j: int|
            0 <= j <= text.len() - pat.len() ==> #[trigger] text.subrange(j, j + pat.len())
                != pat,
    ensures
        first_match(text, pat) == -1,
    decreases text.len(),
{
    if text.len() >= pat.len() {
        assert(text.take(pat.len() as int) =~= text.subrange(0, 0 + pat.len() as int));
        assert forall|j: int|
            0 <= j <= text.skip(1).len() - pat.len() implies #[trigger] text.skip(1).subrange(
            j,
            j + pat.len(),
        ) != pat by {
            assert(text.skip(1).subrange(j, j + pat.len()) =~= text.subrange(
                j + 1,
                j + 1 + pat.len(),
            ));
        }
        lemma_first_match_none(text.skip(1), pat);
    }
}

/// The index of the first occurrence of `pat` in `v`, when `v` has one.
fn find_first_match(v: &Vec<char>, pat: &Vec<char>) -> (r: Option<usize>)
    requires
        pat.len() > 0,
    ensures
        match r {
            Some(k) => first_match(v@, pat@) == k && k + pat@.len() <= v@.len(),
            None => first_match(v@, pat@) == -1,
        },
{
    let mut i: usize = 0;
    while pat.len() <= v.len() && i <= v.len() - pat.len()
        invariant
            pat@.len() > 0,
            i <= v@.len(),
            forall|j: int| 0 <= j < i ==> #[trigger] v@.subrange(j, j + pat@.len()) != pat@,
        decreases v.len() - i,
    {
        if match_at(v, i, pat) {
            proof {
                lemma_first_match_at(v@, pat@, i as int);
            }
            return Some(i);
        }
        i = i + 1;
    }
    proof {
        lemma_first_match_none(v@, pat@);
    }
    None
}

/// The milliseconds of the fraction written after the decimal dot: its
/// first three digits, later ones truncated away.
pub open spec fn frac_millis(fp: Seq<char>) -> int {
    (if fp.len() >= 1 {
        100 * digit_val(fp[0])
    } else {
        0
    }) + (if fp.len() >= 2 {
        10 * digit_val(fp[1])
    } else {
        0
    }) + (if fp.len() >= 3 {
        digit_val(fp[2])
    } else {
        0
    })
}

/// The milliseconds of a seconds field `SS[.frac]`: one or two digits, then
/// optionally a dot and any run of digits.
pub open spec fn seconds_field_millis(f: Seq<char>) -> Option<int> {
    let d = first_index_of(f, '.');
    if d < 0 {
        match field_val(f) {
            Some(s) => Some(s * 1000),
            None => None,
        }
    } else {
        let fp = f.skip(d + 1);
        if (forall|i: int| 0 <= i < fp.len() ==> is_digit(#[trigger] fp[i])) {
            match field_val(f.take(d)) {
                Some(s) => Some(s * 1000 + frac_millis(fp)),
                None => None,
            }
        } else {
            None
        }
    }
}

/// The value of an hours field: a non-empty run of digits of any length,
/// as the tool writes three or more digits past ninety-nine hours. A run
/// whose value would push the token's total milliseconds past a machine
/// word — 6039999 is the largest minutes-and-seconds remainder — counts as
/// malformed.
pub open spec fn hours_field_val(f: Seq<char>) -> Option<int> {
    if f.len() >= 1 && all_digits(f) && digits_val(f) <= (u64::MAX - 6039999) / 3600000 {
        Some(digits_val(f))
    } else {
        None
    }
}

/// The milliseconds of a whole time token: `HH:MM:SS[.frac]` when it holds
/// two colons — the hours as wide as the tool writes them — or
/// `MM:SS[.frac]` when it holds one, nothing otherwise.
pub open spec fn time_token_millis(t: Seq<char>) -> Option<int> {
    let i = first_index_of(t, ':');
    if i < 0 {
        None
    } else {
        let rest = t.skip(i + 1);
        let j = first_index_of(rest, ':');
        if j < 0 {
            match (field_val(t.take(i)), seconds_field_millis(rest)) {
                (Some(m), Some(ms)) => Some(m * 60000 + ms),
                _ => None,
            }
        } else {
            match (
                hours_field_val(t.take(i)),
                field_val(rest.take(j)),
                seconds_field_millis(rest.skip(j + 1)),
            ) {
                (Some(h), Some(m), Some(ms)) => Some(h * 3600000 + m * 60000 + ms),
                _ => None,
            }
        }
    }
}

/// The time token of a diagnostic line: everything between the first
/// `time=` marker and the next space.
pub open spec fn time_token_of(line: Seq<char>) -> Option<Seq<char>> {
    let k = first_match(line, "time="@);
    if k < 0 {
        None
    } else {
        let after = line.skip(k + "time="@.len());
        let sp = first_index_of(after, ' ');
        if sp < 0 {
            Some(after)
        } else {
            Some(after.take(sp))
        }
    }
}

/// What a diagnostic line contributes: the milliseconds of its time token,
/// or nothing when the marker is missing or the token malformed.
pub open spec fn parse_progress_spec(line: Seq<char>) -> Option<int> {
    match time_token_of(line) {
        Some(t) => time_token_millis(t),
        None => None,
    }
}

/// The milliseconds of a seconds field `SS[.frac]`.
fn seconds_field_value(f: &Vec<char>) -> (r: Option<u64>)
    ensures
        match r {
            Some(v) => seconds_field_millis(f@) == Some(v as int) && v < 100000,
            None => seconds_field_millis(f@) is None,
        },
{
    match find_first_char(f, '.') {
        None => {
            match crate::timecode::field_value(f) {
                Some(s) => Some((s as u64) * 1000),
                None => None,
            }
        },
        Some(d) => {
            let n = f.len();
            let fp = sub_chars(f, d + 1, n);
            proof {
                assert(fp@ =~= f@.skip(d + 1));
            }
            let mut i: usize = 0;
            while i < fp.len()
                invariant
                    i <= fp.len(),
                    fp@ == f@.skip(d + 1),
                    first_index_of(f@, '.') == d as int,
                    forall|j: int| 0 <= j < i ==> is_digit(#[trigger] fp@[j]),
                decreases fp.len() - i,
            {
                if !('0' <= fp[i] && fp[i] <= '9') {
                    proof {
                        assert(!is_digit(fp@[i as int]));
                        assert(!(forall|j: int|
                            0 <= j < fp@.len() ==> is_digit(#[trigger] fp@[j])));
                    }
                    return None;
                }
                i = i + 1;
            }
            let ip = sub_chars(f, 0, d);
            proof {
                assert(ip@ =~= f@.take(d as int));
            }
            match crate::timecode::field_value(&ip) {
                Some(s) => {
                    let mut frac: u64 = 0;
                    if fp.len() >= 1 {
                        frac = frac + 100 * (fp[0] as u64 - 48);
                    }
                    if fp.len() >= 2 {
                        frac = frac + 10 * (fp[1] as u64 - 48);
                    }
                    if fp.len() >= 3 {
                        frac = frac + (fp[2] as u64 - 48);
                    }
                    Some((s as u64) * 1000 + frac)
                },
                None => None,
            }
        },
    }
}

/// The value of an hours field: digits of any length up to the machine
/// range.
fn hours_field_value(f: &Vec<char>) -> (r: Option<u64>)
    ensures
        match r {
            Some(v) => hours_field_val(f@) == Some(v as int) && v <= (u64::MAX - 6039999)
                / 3600000,
            None => hours_field_val(f@) is None,
        },
{
    if f.len() == 0 {
        return None;
    }
    let cap: u64 = (u64::MAX - 6039999) / 3600000;
    let mut acc: u64 = 0;
    let mut i: usize = 0;
    while i < f.len()
        invariant
            i <= f.len(),
            cap == (u64::MAX - 6039999) / 3600000,
            all_digits(f@.take(i as int)),
            acc == digits_val(f@.take(i as int)),
            acc <= cap,
        decreases f.len() - i,
    {
        let c = f[i];
        if !('0' <= c && c <= '9') {
            proof {
                assert(!is_digit(f@[i as int]));
                assert(!all_digits(f@));
            }
            return None;
        }
        let d: u64 = c as u64 - 48;
        proof {
            assert(f@.take(i + 1).drop_last() =~= f@.take(i as int));
            assert(f@.take(i + 1).last() == f@[i as int]);
        }
        if acc > (cap - d) / 10 {
            proof {
                assert(digits_val(f@.take(i + 1)) > cap);
                if all_digits(f@) {
                    lemma_digits_val_prefix(f@, i + 1);
                }
            }
            return None;
        }
        acc = acc * 10 + d;
        i = i + 1;
    }
    proof {
        assert(f@.take(f@.len() as int) =~= f@);
        lemma_digits_val_nonneg(f@);
    }
    Some(acc)
}

/// The milliseconds of a whole time token.
fn time_token_value(t: &Vec<char>) -> (r: Option<u64>)
    ensures
        match r {
            Some(v) => time_token_millis(t@) == Some(v as int),
            None => time_token_millis(t@) is None,
        },
{
    let n = t.len();
    let i = match find_first_char(t, ':') {
        Some(i) => i,
        None => {
            return None;
        },
    };
    let rest = sub_chars(t, i + 1, n);
    proof {
        assert(rest@ =~= t@.skip(i + 1));
    }
    let head = sub_chars(t, 0, i);
    proof {
        assert(head@ =~= t@.take(i as int));
    }
    match find_first_char(&rest, ':') {
        None => {
            match (crate::timecode::field_value(&head), seconds_field_value(&rest)) {
                (Some(m), Some(ms)) => Some((m as u64) * 60000 + ms),
                _ => None,
            }
        },
        Some(j) => {
            let mid = sub_chars(&rest, 0, j);
            let tail = sub_chars(&rest, j + 1, rest.len());
            proof {
                assert(mid@ =~= rest@.take(j as int));
                assert(tail@ =~= rest@.skip(j + 1));
            }
            match (hours_field_value(&head), crate::timecode::field_value(&mid), seconds_field_value(
                &tail,
            )) {
                (Some(h), Some(m), Some(ms)) => {
                    proof {
                        vstd::arithmetic::div_mod::lemma_fundamental_div_mod(
                            (u64::MAX - 6039999) as int,
                            3600000,
                        );
                        vstd::arithmetic::mul::lemma_mul_inequality(
                            h as int,
                            ((u64::MAX - 6039999) / 3600000) as int,
                            3600000,
                        );
                    }
                    Some(h * 3600000 + (m as u64) * 60000 + ms)
                },
                _ => None,
            }
        },
    }
}

/// Decodes one diagnostic line into elapsed milliseconds: the token after
/// the first `time=` marker, up to the next space, read as a clock time.
/// Lines without the marker, or with a malformed token, yield nothing.
pub fn parse_progress_line(line: &str) -> (r: Option<u64>)
    ensures
        match r {
            Some(v) => parse_progress_spec(line@) == Some(v as int),
            None => parse_progress_spec(line@) is None,
        },
{
    proof {
        reveal_strlit("time=");
    }
    let v = chars_of(line);
    let marker = chars_of("time=");
    let k = match find_first_match(&v, &marker) {
        Some(k) => k,
        None => {
            return None;
        },
    };
    let n = v.len();
    let after = sub_chars(&v, k + marker.len(), n);
    proof {
        assert(after@ =~= v@.skip(k + "time="@.len()));
    }
    let token = match find_first_char(&after, ' ') {
        Some(sp) => {
            let tk = sub_chars(&after, 0, sp);
            proof {
                assert(tk@ =~= after@.take(sp as int));
            }
            tk
        },
        None => after,
    };
    time_token_value(&token)
}

/// The completion fraction of an elapsed time, in units of one
/// hundred-thousandth: the milliseconds themselves, held at the full
/// denominator so the published fraction never leaves `[0, 1]`.
pub fn progress_units_of_millis(ms: u64) -> (r: u64)
    ensures
        r == if ms < PROGRESS_UNIT_DENOMINATOR {
            ms as int
        } else {
            PROGRESS_UNIT_DENOMINATOR as int
        },
        r <= PROGRESS_UNIT_DENOMINATOR,
{
    if ms < PROGRESS_UNIT_DENOMINATOR {
        ms
    } else {
        PROGRESS_UNIT_DENOMINATOR
    }
}

} // verus!
