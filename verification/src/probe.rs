//! Decoding of the media probe tool's output: three lines — codec name,
//! duration in seconds, size in bytes — become the read-only snapshot shown
//! for a newly added source file. Anything malformed degrades to empty or
//! zero values, never to an error.

use vstd::prelude::*;
use crate::text::{
    chars_of, string_from_chars, sub_chars, find_first_char, first_index_of, dec_digits,
    u64_chars,
};
use crate::text::{all_digits, digits_val, is_digit, lemma_digits_val_nonneg, lemma_digits_val_prefix};
use crate::timecode::{pad2, format_duration_spec, format_duration};

verus! {

/// ASCII whitespace, as the probe output may pad with it.
pub open spec fn is_space(c: char) -> bool {
    c == ' ' || c == '\t' || c == '\r' || c == '\n'
}

/// `s` without its leading whitespace.
pub open spec fn trim_start_spec(s: Seq<char>) -> Seq<char>
    decreases s.len(),
{
    if s.len() > 0 && is_space(s[0]) {
        trim_start_spec(s.skip(1))
    } else {
        s
    }
}

/// `s` without its trailing whitespace.
pub open spec fn trim_end_spec(s: Seq<char>) -> Seq<char>
    decreases s.len(),
{
    if s.len() > 0 && is_space(s.last()) {
        trim_end_spec(s.drop_last())
    } else {
        s
    }
}

/// `s` without leading and trailing whitespace.
pub open spec fn trim_spec(s: Seq<char>) -> Seq<char> {
    trim_end_spec(trim_start_spec(s))
}

/// A line with its trailing carriage return removed.
pub open spec fn strip_cr(t: Seq<char>) -> Seq<char> {
    if t.len() > 0 && t.last() == '\r' {
        t.drop_last()
    } else {
        t
    }
}

/// The lines of `s`: split at every newline, each line's trailing carriage
/// return removed, and no line at all for an empty text.
pub open spec fn lines_of(s: Seq<char>) -> Seq<Seq<char>>
    decreases s.len(),
{
    if s.len() == 0 {
        Seq::empty()
    } else {
        let i = first_index_of(s, '\n');
        if 0 <= i < s.len() {
            seq![strip_cr(s.take(i))] + lines_of(s.skip(i + 1))
        } else {
            seq![strip_cr(s)]
        }
    }
}

/// What parsing `s` as an unsigned machine number yields: its value when
/// `s` is a non-empty run of digits that fits, and zero — the fallback the
/// snapshot uses — otherwise.
pub open spec fn u64_digits_spec(s: Seq<char>) -> int {
    if s.len() >= 1 && all_digits(s) && digits_val(s) <= u64::MAX {
        digits_val(s)
    } else {
        0
    }
}

/// The whole seconds a probe duration field names: the digits before the
/// decimal dot of a plain `digits[.digits]` number, and zero for anything
/// else.
pub open spec fn duration_secs_spec(s: Seq<char>) -> int {
    let d = first_index_of(s, '.');
    if d < 0 {
        u64_digits_spec(s)
    } else if all_digits(s.skip(d + 1)) {
        u64_digits_spec(s.take(d))
    } else {
        0
    }
}

/// A byte count rendered in binary megabytes with two decimals, rounded
/// half up, as the snapshot displays it.
pub open spec fn size_mb_spec(size: int) -> Seq<char> {
    let h = (size * 100 + 524288) / 1048576;
    dec_digits(h / 100) + seq!['.'] + pad2(h % 100) + seq![' ', 'M', 'B']
}

/// The read-only snapshot shown for a source file.
pub struct VideoInfo {
    pub duration: String,
    pub size: String,
    pub codec: String,
}

/// What the whole probe output yields: with at least three lines, the
/// second as an `HH:MM:SS` duration, the third as a megabyte size, the
/// first as the codec name; with fewer, three empty fields.
pub open spec fn probe_info_spec(s: Seq<char>) -> (Seq<char>, Seq<char>, Seq<char>) {
    let ls = lines_of(trim_spec(s));
    if ls.len() >= 3 {
        (
            format_duration_spec(duration_secs_spec(ls[1])),
            size_mb_spec(u64_digits_spec(ls[2])),
            ls[0],
        )
    } else {
        (Seq::empty(), Seq::empty(), Seq::empty())
    }
}

/// The characters of `v` without leading and trailing whitespace.
fn trim_chars(v: &Vec<char>) -> (r: Vec<char>)
    ensures
        r@ == trim_spec(v@),
{
    let mut a: usize = 0;
    proof {
        assert(v@.skip(0) =~= v@);
    }
    while a < v.len() && (v[a] == ' ' || v[a] == '\t' || v[a] == '\r' || v[a] == '\n')
        invariant
            a <= v.len(),
            trim_start_spec(v@) == trim_start_spec(v@.skip(a as int)),
        decreases v.len() - a,
    {
        proof {
            assert(v@.skip(a as int).skip(1) =~= v@.skip(a + 1));
        }
        a = a + 1;
    }
    proof {
        assert(trim_start_spec(v@) == v@.skip(a as int));
    }
    let mut b: usize = v.len();
    while b > a && (v[b - 1] == ' ' || v[b - 1] == '\t' || v[b - 1] == '\r' || v[b - 1] == '\n')
        invariant
            a <= b <= v.len(),
            trim_start_spec(v@) == v@.skip(a as int),
            trim_end_spec(v@.skip(a as int)) == trim_end_spec(v@.subrange(a as int, b as int)),
        decreases b,
    {
        proof {
            assert(v@.subrange(a as int, b as int).drop_last() =~= v@.subrange(a as int, b - 1));
        }
        b = b - 1;
    }
    proof {
        if b > a {
            assert(!is_space(v@.subrange(a as int, b as int).last()));
        }
        assert(trim_end_spec(v@.subrange(a as int, b as int)) == v@.subrange(a as int, b as int));
    }
    sub_chars(v, a, b)
}

/// The lines of `v`, split at newlines.
fn split_lines(v: &Vec<char>) -> (r: Vec<Vec<char>>)
    ensures
        r.deep_view() == lines_of(v@),
{
    let mut out: Vec<Vec<char>> = Vec::new();
    let mut rest = sub_chars(v, 0, v.len());
    proof {
        assert(rest@ =~= v@);
        assert(out.deep_view() + lines_of(rest@) =~~= lines_of(v@));
    }
    while rest.len() > 0
        invariant
            out.deep_view() + lines_of(rest@) == lines_of(v@),
        decreases rest.len(),
    {
        let ghost pre = out.deep_view();
        let ghost whole = rest@;
        match find_first_char(&rest, '\n') {
            None => {
                let line = strip_cr_chars(rest);
                out.push(line);
                rest = Vec::new();
                proof {
                    assert(out.deep_view() =~~= pre + seq![strip_cr(whole)]);
                    assert(lines_of(whole) =~~= seq![strip_cr(whole)]);
                    assert(out.deep_view() + lines_of(rest@) =~~= lines_of(v@));
                }
            },
            Some(i) => {
                let head = sub_chars(&rest, 0, i);
                let line = strip_cr_chars(head);
                out.push(line);
                let n = rest.len();
                rest = sub_chars(&rest, i + 1, n);
                proof {
                    assert(head@ =~= whole.take(i as int));
                    assert(rest@ =~= whole.skip(i + 1));
                    assert(out.deep_view() =~~= pre + seq![strip_cr(whole.take(i as int))]);
                    assert(lines_of(whole) =~~= seq![strip_cr(whole.take(i as int))] + lines_of(
                        whole.skip(i + 1),
                    ));
                    assert(out.deep_view() + lines_of(rest@) =~~= lines_of(v@));
                }
            },
        }
    }
    proof {
        assert(lines_of(rest@) =~~= Seq::<Seq<char>>::empty());
        assert(out.deep_view() =~~= lines_of(v@));
    }
    out
}

/// A line without its trailing carriage return.
fn strip_cr_chars(t: Vec<char>) -> (r: Vec<char>)
    ensures
        r@ == strip_cr(t@),
{
    if t.len() > 0 && t[t.len() - 1] == '\r' {
        let r = sub_chars(&t, 0, t.len() - 1);
        proof {
            assert(r@ =~= t@.drop_last());
        }
        r
    } else {
        t
    }
}

/// Parses a non-empty run of digits that fits a machine number; anything
/// else yields the zero fallback.
fn parse_u64_digits(s: &Vec<char>) -> (r: u64)
    ensures
        r == u64_digits_spec(s@),
{
    if s.len() == 0 {
        return 0;
    }
    let mut acc: u64 = 0;
    let mut i: usize = 0;
    while i < s.len()
        invariant
            i <= s.len(),
            all_digits(s@.take(i as int)),
            acc == digits_val(s@.take(i as int)),
        decreases s.len() - i,
    {
        let c = s[i];
        if !('0' <= c && c <= '9') {
            proof {
                assert(!is_digit(s@[i as int]));
                assert(!all_digits(s@));
            }
            return 0;
        }
        let d: u64 = c as u64 - 48;
        proof {
            assert(s@.take(i + 1).drop_last() =~= s@.take(i as int));
            assert(s@.take(i + 1).last() == s@[i as int]);
        }
        if acc > (u64::MAX - d) / 10 {
            proof {
                assert(digits_val(s@.take(i + 1)) > u64::MAX);
                if all_digits(s@) {
                    lemma_digits_val_prefix(s@, i + 1);
                }
            }
            return 0;
        }
        acc = acc * 10 + d;
        i = i + 1;
    }
    proof {
        assert(s@.take(s@.len() as int) =~= s@);
        lemma_digits_val_nonneg(s@);
    }
    acc
}

/// The whole seconds of a probe duration field.
fn parse_duration_secs(s: &Vec<char>) -> (r: u64)
    ensures
        r == duration_secs_spec(s@),
{
    match find_first_char(s, '.') {
        None => parse_u64_digits(s),
        Some(d) => {
            let n = s.len();
            let fp = sub_chars(s, d + 1, n);
            proof {
                assert(fp@ =~= s@.skip(d + 1));
            }
            let mut i: usize = 0;
            while i < fp.len()
                invariant
                    i <= fp.len(),
                    fp@ == s@.skip(d + 1),
                    first_index_of(s@, '.') == d as int,
                    forall|j: int| 0 <= j < i ==> is_digit(#[trigger] fp@[j]),
                decreases fp.len() - i,
            {
                if !('0' <= fp[i] && fp[i] <= '9') {
                    proof {
                        assert(!is_digit(fp@[i as int]));
                        assert(!all_digits(fp@));
                    }
                    return 0;
                }
                i = i + 1;
            }
            let ip = sub_chars(s, 0, d);
            proof {
                assert(ip@ =~= s@.take(d as int));
            }
            parse_u64_digits(&ip)
        },
    }
}

/// Renders a byte count in binary megabytes with two decimals.
fn size_mb_string(size: u64) -> (r: String)
    ensures
        r@ == size_mb_spec(size as int),
{
    let h128: u128 = (size as u128 * 100 + 524288) / 1048576;
    let h: u64 = h128 as u64;
    proof {
        assert(h == (size as int * 100 + 524288) / 1048576) by (nonlinear_arith)
            requires
                h128 == (size as u128 * 100 + 524288) / 1048576,
                h == h128 as u64,
                size <= u64::MAX,
            ;
    }
    let mut out = u64_chars(h / 100);
    out.push('.');
    proof {
        assert(out@ =~= dec_digits((h / 100) as int) + seq!['.']);
    }
    crate::timecode::push_pad2(&mut out, h % 100);
    out.push(' ');
    out.push('M');
    out.push('B');
    proof {
        assert(out@ =~= size_mb_spec(size as int));
    }
    string_from_chars(&out)
}

/// Decodes the probe tool's whole output into the snapshot: duration as
/// `HH:MM:SS`, size in megabytes, codec name — or three empty fields when
/// fewer than three lines came back.
pub fn parse_probe_output(stdout: &str) -> (r: VideoInfo)
    ensures
        r.duration@ == probe_info_spec(stdout@).0,
        r.size@ == probe_info_spec(stdout@).1,
        r.codec@ == probe_info_spec(stdout@).2,
{
    let v = chars_of(stdout);
    let trimmed = trim_chars(&v);
    let lines = split_lines(&trimmed);
    if lines.len() >= 3 {
        proof {
            assert(lines.deep_view()[0] =~= lines@[0]@);
            assert(lines.deep_view()[1] =~= lines@[1]@);
            assert(lines.deep_view()[2] =~= lines@[2]@);
        }
        let secs = parse_duration_secs(&lines[1]);
        let size = parse_u64_digits(&lines[2]);
        VideoInfo {
            duration: format_duration(secs),
            size: size_mb_string(size),
            codec: string_from_chars(&lines[0]),
        }
    } else {
        VideoInfo { duration: String::new(), size: String::new(), codec: String::new() }
    }
}

} // verus!
