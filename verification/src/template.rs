//! Output-name templating: literal substitution of the five fixed tokens
//! (`{input_name}`, `{rotation}`, `{timestamp}`, `{date}`, `{time}`),
//! extension auto-append, and planning of the final output path.

use vstd::prelude::*;
use crate::text::{chars_of, string_from_chars, append_chars, i32_chars, int_chars, match_at};

verus! {

/// `pat` occurs somewhere in `text`.
pub open spec fn contains_seq(text: Seq<char>, pat: Seq<char>) -> bool {
    exists|i: int|
        0 <= i <= text.len() - pat.len() && #[trigger] text.subrange(i, i + pat.len()) == pat
}

/// `text` with every occurrence of `pat` replaced by `val`, leftmost first,
/// never overlapping, exactly as `str::replace` substitutes.
pub open spec fn replace_spec(text: Seq<char>, pat: Seq<char>, val: Seq<char>) -> Seq<char>
    decreases text.len(),
{
    if pat.len() == 0 || text.len() < pat.len() {
        text
    } else if text.take(pat.len() as int) == pat {
        val + replace_spec(text.skip(pat.len() as int), pat, val)
    } else {
        seq![text[0]] + replace_spec(text.skip(1), pat, val)
    }
}

/// A text in which a token does not occur is left verbatim by substitution.
pub proof fn lemma_replace_absent(text: Seq<char>, pat: Seq<char>, val: Seq<char>)
    requires
        pat.len() > 0,
        !contains_seq(text, pat),
    ensures
        replace_spec(text, pat, val) == text,
    decreases text.len(),
{
    if text.len() >= pat.len() {
        assert(text.take(pat.len() as int) != pat) by {
            if text.take(pat.len() as int) == pat {
                assert(text.subrange(0, 0 + pat.len() as int) =~= text.take(pat.len() as int));
                assert(text.subrange(0, 0 + pat.len() as int) == pat);
                assert(contains_seq(text, pat));
            }
        }
        assert(!contains_seq(text.skip(1), pat)) by {
            if contains_seq(text.skip(1), pat) {
                let i = choose|i: int|
                    0 <= i <= text.skip(1).len() - pat.len() && #[trigger] text.skip(1).subrange(
                        i,
                        i + pat.len(),
                    ) == pat;
                assert(text.subrange(i + 1, i + 1 + pat.len()) =~= text.skip(1).subrange(
                    i,
                    i + pat.len(),
                ));
            }
        }
        lemma_replace_absent(text.skip(1), pat, val);
        assert(seq![text[0]] + text.skip(1) =~= text);
    }
}

/// Replaces every occurrence of `pat` in `text` by `val`, leftmost first.
pub fn replace_all(text: &Vec<char>, pat: &Vec<char>, val: &Vec<char>) -> (r: Vec<char>)
    requires
        pat.len() > 0,
    ensures
        r@ == replace_spec(text@, pat@, val@),
{
    let mut out: Vec<char> = Vec::new();
    let mut i: usize = 0;
    proof {
        assert(text@.skip(0) =~= text@);
        assert(Seq::<char>::empty() + replace_spec(text@, pat@, val@) =~= replace_spec(
            text@,
            pat@,
            val@,
        ));
    }
    while i < text.len()
        invariant
            i <= text.len(),
            pat@.len() > 0,
            replace_spec(text@, pat@, val@) == out@ + replace_spec(
                text@.skip(i as int),
                pat@,
                val@,
            ),
        decreases text.len() - i,
    {
        let ghost rest = text@.skip(i as int);
        let ghost pre_out = out@;
        if text.len() - i >= pat.len() && match_at(text, i, pat) {
            proof {
                assert(rest.take(pat@.len() as int) =~= text@.subrange(i as int, i + pat@.len()));
                assert(rest.skip(pat@.len() as int) =~= text@.skip(i + pat@.len()));
                assert(pre_out + (val@ + replace_spec(text@.skip(i + pat@.len()), pat@, val@))
                    =~= (pre_out + val@) + replace_spec(text@.skip(i + pat@.len()), pat@, val@));
            }
            append_chars(&mut out, val);
            i = i + pat.len();
        } else {
            out.push(text[i]);
            proof {
                let p = pat@.len() as int;
                assert(out@ =~= pre_out + seq![rest[0]]);
                if rest.len() >= p {
                    assert(rest.take(p) =~= text@.subrange(i as int, i + p));
                    assert(rest.take(p) != pat@);
                } else {
                    assert(replace_spec(rest, pat@, val@) == rest);
                    assert(replace_spec(rest.skip(1), pat@, val@) == rest.skip(1));
                    assert(rest =~= seq![rest[0]] + rest.skip(1));
                }
                assert(rest.skip(1) =~= text@.skip(i + 1));
                assert(pre_out + (seq![rest[0]] + replace_spec(rest.skip(1), pat@, val@)) =~= (
                pre_out + seq![rest[0]]) + replace_spec(rest.skip(1), pat@, val@));
            }
            i = i + 1;
        }
    }
    proof {
        assert(text@.skip(text@.len() as int) =~= Seq::<char>::empty());
    }
    out
}

/// The five template tokens substituted in their fixed order, each by plain
/// literal replacement.
pub open spec fn render_spec(
    template: Seq<char>,
    input_name: Seq<char>,
    rotation: int,
    timestamp: Seq<char>,
    date: Seq<char>,
    time: Seq<char>,
) -> Seq<char> {
    let s1 = replace_spec(template, "{input_name}"@, input_name);
    let s2 = replace_spec(s1, "{rotation}"@, int_chars(rotation));
    let s3 = replace_spec(s2, "{timestamp}"@, timestamp);
    let s4 = replace_spec(s3, "{date}"@, date);
    replace_spec(s4, "{time}"@, time)
}

/// Text in which none of the five tokens occurs renders to itself,
/// verbatim: unresolved braces and any other characters pass through.
pub proof fn lemma_render_keeps_text_without_tokens(
    template: Seq<char>,
    input_name: Seq<char>,
    rotation: int,
    timestamp: Seq<char>,
    date: Seq<char>,
    time: Seq<char>,
)
    requires
        !contains_seq(template, "{input_name}"@),
        !contains_seq(template, "{rotation}"@),
        !contains_seq(template, "{timestamp}"@),
        !contains_seq(template, "{date}"@),
        !contains_seq(template, "{time}"@),
    ensures
        render_spec(template, input_name, rotation, timestamp, date, time) == template,
{
    reveal_strlit("{input_name}");
    reveal_strlit("{rotation}");
    reveal_strlit("{timestamp}");
    reveal_strlit("{date}");
    reveal_strlit("{time}");
    lemma_replace_absent(template, "{input_name}"@, input_name);
    lemma_replace_absent(template, "{rotation}"@, int_chars(rotation));
    lemma_replace_absent(template, "{timestamp}"@, timestamp);
    lemma_replace_absent(template, "{date}"@, date);
    lemma_replace_absent(template, "{time}"@, time);
}

/// Renders the output-name template: each of the five tokens is replaced by
/// its value; text without tokens, unresolved braces included, is kept
/// verbatim.
pub fn render_template(
    template: &str,
    input_name: &str,
    rotation: i32,
    timestamp: &str,
    date: &str,
    time: &str,
) -> (r: String)
    ensures
        r@ == render_spec(template@, input_name@, rotation as int, timestamp@, date@, time@),
{
    proof {
        reveal_strlit("{input_name}");
        reveal_strlit("{rotation}");
        reveal_strlit("{timestamp}");
        reveal_strlit("{date}");
        reveal_strlit("{time}");
    }
    let t = chars_of(template);
    let s1 = replace_all(&t, &chars_of("{input_name}"), &chars_of(input_name));
    let s2 = replace_all(&s1, &chars_of("{rotation}"), &i32_chars(rotation));
    let s3 = replace_all(&s2, &chars_of("{timestamp}"), &chars_of(timestamp));
    let s4 = replace_all(&s3, &chars_of("{date}"), &chars_of(date));
    let s5 = replace_all(&s4, &chars_of("{time}"), &chars_of(time));
    string_from_chars(&s5)
}

} // verus!
