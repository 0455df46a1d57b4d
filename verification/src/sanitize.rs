//! File-name sanitizing: strips every character outside the allowed set
//! (ASCII alphanumerics, `_`, `/`, `.`, CJK ideographs) and collapses the
//! dots of the stem so that at most the extension separator remains.

use vstd::prelude::*;
use crate::text::{chars_of, string_from_chars, find_last_char, last_index_of, lemma_last_index_of_at, lemma_last_index_of_props};

verus! {

/// A character that may stay in a file name: ASCII letters and digits,
/// underscore, dot, slash, and the CJK unified ideographs.
pub open spec fn is_allowed_char(c: char) -> bool {
    ||| 'A' <= c && c <= 'Z'
    ||| 'a' <= c && c <= 'z'
    ||| '0' <= c && c <= '9'
    ||| c == '_'
    ||| c == '.'
    ||| c == '/'
    ||| '\u{4e00}' <= c && c <= '\u{9fff}'
}

/// Every character of `s` is allowed.
pub open spec fn all_allowed(s: Seq<char>) -> bool {
    forall|i: int| 0 <= i < s.len() ==> is_allowed_char(#[trigger] s[i])
}

/// No character of `s` is a dot.
pub open spec fn no_dots(s: Seq<char>) -> bool {
    forall|i: int| 0 <= i < s.len() ==> #[trigger] s[i] != '.'
}

/// The subsequence of `s` made of its allowed characters.
pub open spec fn filter_allowed(s: Seq<char>) -> Seq<char>
    decreases s.len(),
{
    if s.len() == 0 {
        Seq::empty()
    } else if is_allowed_char(s.last()) {
        filter_allowed(s.drop_last()).push(s.last())
    } else {
        filter_allowed(s.drop_last())
    }
}

/// `s` with every dot removed.
pub open spec fn remove_dots(s: Seq<char>) -> Seq<char>
    decreases s.len(),
{
    if s.len() == 0 {
        Seq::empty()
    } else if s.last() == '.' {
        remove_dots(s.drop_last())
    } else {
        remove_dots(s.drop_last()).push(s.last())
    }
}

/// The index of the last dot of `s`, or `-1` when `s` has none.
pub open spec fn last_dot(s: Seq<char>) -> int {
    last_index_of(s, '.')
}

/// Collapses the dots of a name: the part before the last dot (the stem)
/// loses all its dots; the part after it (the extension) is kept behind a
/// single separator, or dropped entirely when it is empty.
pub open spec fn collapse_dots(f: Seq<char>) -> Seq<char> {
    let d = last_dot(f);
    if d < 0 {
        f
    } else if d == f.len() - 1 {
        remove_dots(f.take(d))
    } else {
        remove_dots(f.take(d)) + seq!['.'] + f.skip(d + 1)
    }
}

/// What sanitizing leaves of `s`: only allowed characters, dots collapsed.
pub open spec fn sanitize_spec(s: Seq<char>) -> Seq<char> {
    collapse_dots(filter_allowed(s))
}

/// Executable test for membership in the allowed set.
pub fn allowed_char(c: char) -> (r: bool)
    ensures
        r == is_allowed_char(c),
{
    ('A' <= c && c <= 'Z') || ('a' <= c && c <= 'z') || ('0' <= c && c <= '9') || c == '_' || c
        == '.' || c == '/' || ('\u{4e00}' <= c && c <= '\u{9fff}')
}

/// Keeps exactly the allowed characters of `v`, in order.
pub fn filter_allowed_chars(v: &Vec<char>) -> (r: Vec<char>)
    ensures
        r@ == filter_allowed(v@),
{
    let mut out: Vec<char> = Vec::new();
    let mut i: usize = 0;
    while i < v.len()
        invariant
            i <= v.len(),
            out@ == filter_allowed(v@.take(i as int)),
        decreases v.len() - i,
    {
        proof {
            assert(v@.take(i + 1).drop_last() =~= v@.take(i as int));
            assert(v@.take(i + 1).last() == v@[i as int]);
        }
        if allowed_char(v[i]) {
            out.push(v[i]);
        }
        i = i + 1;
    }
    proof {
        assert(v@.take(v@.len() as int) =~= v@);
    }
    out
}

/// The characters of `f` strictly before `end`, with every dot removed.
fn remove_dots_prefix(f: &Vec<char>, end: usize) -> (r: Vec<char>)
    requires
        end <= f.len(),
    ensures
        r@ == remove_dots(f@.take(end as int)),
{
    let mut out: Vec<char> = Vec::new();
    let mut i: usize = 0;
    while i < end
        invariant
            i <= end <= f.len(),
            out@ == remove_dots(f@.take(i as int)),
        decreases end - i,
    {
        proof {
            assert(f@.take(i + 1).drop_last() =~= f@.take(i as int));
            assert(f@.take(i + 1).last() == f@[i as int]);
        }
        if f[i] != '.' {
            out.push(f[i]);
        }
        i = i + 1;
    }
    out
}

/// Strips every character outside the allowed set and collapses the dots of
/// the stem, so that the name splits unambiguously into stem and extension.
pub fn sanitize_filename(name: &str) -> (r: String)
    ensures
        r@ == sanitize_spec(name@),
{
    let v = chars_of(name);
    let f = filter_allowed_chars(&v);
    let out: Vec<char> = match find_last_char(&f, '.') {
        None => f,
        Some(k) => {
            if k == f.len() - 1 {
                remove_dots_prefix(&f, k)
            } else {
                let mut nd = remove_dots_prefix(&f, k);
                nd.push('.');
                let mut j: usize = k + 1;
                while j < f.len()
                    invariant
                        k + 1 <= j <= f.len(),
                        k == last_dot(f@),
                        nd@ == remove_dots(f@.take(k as int)) + seq!['.'] + f@.subrange(
                            k + 1,
                            j as int,
                        ),
                    decreases f.len() - j,
                {
                    nd.push(f[j]);
                    proof {
                        assert(f@.subrange(k + 1, j + 1) =~= f@.subrange(k + 1, j as int).push(
                            f@[j as int],
                        ));
                        assert(nd@ =~= remove_dots(f@.take(k as int)) + seq!['.'] + f@.subrange(
                            k + 1,
                            j + 1,
                        ));
                    }
                    j = j + 1;
                }
                proof {
                    assert(f@.subrange(k + 1, f@.len() as int) =~= f@.skip(k + 1));
                }
                nd
            }
        },
    };
    string_from_chars(&out)
}

/// Every character that sanitizing keeps is allowed.
pub proof fn lemma_filter_allowed_all(s: Seq<char>)
    ensures
        all_allowed(filter_allowed(s)),
    decreases s.len(),
{
    if s.len() > 0 {
        lemma_filter_allowed_all(s.drop_last());
    }
}

/// Filtering a name of allowed characters leaves it unchanged.
pub proof fn lemma_filter_allowed_identity(s: Seq<char>)
    requires
        all_allowed(s),
    ensures
        filter_allowed(s) == s,
    decreases s.len(),
{
    if s.len() > 0 {
        assert(all_allowed(s.drop_last()));
        lemma_filter_allowed_identity(s.drop_last());
        assert(s.drop_last().push(s.last()) =~= s);
    }
}

/// Removing dots removes every dot.
proof fn lemma_remove_dots_no_dots(s: Seq<char>)
    ensures
        no_dots(remove_dots(s)),
    decreases s.len(),
{
    if s.len() > 0 {
        lemma_remove_dots_no_dots(s.drop_last());
    }
}

/// Removing dots from a dotless name leaves it unchanged.
proof fn lemma_remove_dots_identity(s: Seq<char>)
    requires
        no_dots(s),
    ensures
        remove_dots(s) == s,
    decreases s.len(),
{
    if s.len() > 0 {
        assert(no_dots(s.drop_last()));
        lemma_remove_dots_identity(s.drop_last());
        assert(s.drop_last().push(s.last()) =~= s);
    }
}

/// Removing dots keeps only characters of the original name.
proof fn lemma_remove_dots_allowed(s: Seq<char>)
    requires
        all_allowed(s),
    ensures
        all_allowed(remove_dots(s)),
    decreases s.len(),
{
    if s.len() > 0 {
        assert(all_allowed(s.drop_last()));
        lemma_remove_dots_allowed(s.drop_last());
    }
}

/// Sanitizing keeps only allowed characters.
pub proof fn lemma_sanitize_allowed(s: Seq<char>)
    ensures
        all_allowed(sanitize_spec(s)),
{
    let f = filter_allowed(s);
    lemma_filter_allowed_all(s);
    lemma_last_index_of_props(f, '.');
    let d = last_dot(f);
    if d >= 0 {
        assert(all_allowed(f.take(d)));
        lemma_remove_dots_allowed(f.take(d));
        if d < f.len() - 1 {
            let r = remove_dots(f.take(d)) + seq!['.'] + f.skip(d + 1);
            assert forall|i: int| 0 <= i < r.len() implies is_allowed_char(#[trigger] r[i]) by {
                let nd = remove_dots(f.take(d));
                if i < nd.len() {
                } else if i == nd.len() {
                } else {
                    assert(r[i] == f.skip(d + 1)[i - nd.len() - 1]);
                }
            }
        }
    }
}

/// Sanitizing is idempotent: a sanitized name sanitizes to itself.
pub proof fn lemma_sanitize_idempotent(s: Seq<char>)
    ensures
        sanitize_spec(sanitize_spec(s)) == sanitize_spec(s),
{
    let f = filter_allowed(s);
    let r = sanitize_spec(s);
    lemma_filter_allowed_all(s);
    lemma_last_index_of_props(f, '.');
    lemma_sanitize_allowed(s);
    lemma_filter_allowed_identity(r);
    let d = last_dot(f);
    if d < 0 {
        // no dot anywhere: the name passes through unchanged
        assert(r == f);
        assert(no_dots(r));
        lemma_last_index_of_props(r, '.');
        assert(last_dot(r) == -1) by {
            if last_dot(r) != -1 {
                assert(r[last_dot(r)] == '.');
            }
        }
    } else if d == f.len() - 1 {
        // trailing dot: the result is the dotless stem
        assert(r == remove_dots(f.take(d)));
        lemma_remove_dots_no_dots(f.take(d));
        assert(last_dot(r) == -1) by {
            lemma_last_index_of_props(r, '.');
            if last_dot(r) != -1 {
                assert(r[last_dot(r)] == '.');
            }
        }
    } else {
        // stem, one dot, non-empty dotless extension
        let nd = remove_dots(f.take(d));
        let ext = f.skip(d + 1);
        assert(r == nd + seq!['.'] + ext);
        lemma_remove_dots_no_dots(f.take(d));
        assert(forall|i: int| 0 <= i < ext.len() ==> #[trigger] ext[i] != '.') by {
            assert(forall|i: int| 0 <= i < ext.len() ==> ext[i] == f[d + 1 + i]);
        }
        assert(r[nd.len() as int] == '.');
        assert(forall|j: int| nd.len() < j < r.len() ==> #[trigger] r[j] != '.') by {
            assert(forall|j: int| nd.len() < j < r.len() ==> r[j] == ext[j - nd.len() - 1]);
        }
        lemma_last_index_of_at(r, '.', nd.len() as int);
        assert(last_dot(r) == nd.len());
        assert(last_dot(r) < r.len() - 1);
        assert(r.take(nd.len() as int) =~= nd);
        lemma_remove_dots_identity(nd);
        assert(r.skip(nd.len() + 1 as int) =~= ext);
        assert(collapse_dots(r) =~= r);
    }
}

} // verus!
