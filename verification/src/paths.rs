//! A plain-text model of POSIX-style paths — components separated by `/`,
//! stem and extension split at the file name's last dot — and the pure
//! planning steps of the task builder: the sanitized rename target and the
//! rendered, sanitized output path.

use vstd::prelude::*;
use crate::text::{chars_of, string_from_chars, append_chars, sub_chars, find_last_char, last_index_of};
use crate::sanitize::{filter_allowed, filter_allowed_chars, sanitize_spec, sanitize_filename};
use crate::template::{render_spec, render_template};

verus! {

/// The file name of a path: everything after the last slash.
pub open spec fn file_name_spec(p: Seq<char>) -> Seq<char> {
    p.skip(last_index_of(p, '/') + 1)
}

/// The path with its file name replaced by `name`.
pub open spec fn with_file_name_spec(p: Seq<char>, name: Seq<char>) -> Seq<char> {
    p.take(last_index_of(p, '/') + 1) + name
}

/// The stem of a file name: what stands before its last dot, or the whole
/// name when there is no dot or only a leading one.
pub open spec fn stem_spec(f: Seq<char>) -> Seq<char> {
    let d = last_index_of(f, '.');
    if d > 0 {
        f.take(d)
    } else {
        f
    }
}

/// The extension of a file name: what stands after its last dot, absent when
/// there is no dot or only a leading one.
pub open spec fn ext_spec(f: Seq<char>) -> Option<Seq<char>> {
    let d = last_index_of(f, '.');
    if d > 0 {
        Some(f.skip(d + 1))
    } else {
        None
    }
}

/// Appends the extension behind a dot when the rendered name has no dot of
/// its own and the input had an extension; otherwise the name is unchanged.
pub open spec fn append_ext_spec(name: Seq<char>, ext: Option<Seq<char>>) -> Seq<char> {
    match ext {
        Some(e) => if last_index_of(name, '.') == -1 {
            name + seq!['.'] + e
        } else {
            name
        },
        None => name,
    }
}

/// Joins a directory and a file name: an absolute name stands alone, an
/// empty directory adds nothing, and exactly one slash separates otherwise.
pub open spec fn join_path_spec(dir: Seq<char>, name: Seq<char>) -> Seq<char> {
    if name.len() > 0 && name[0] == '/' {
        name
    } else if dir.len() == 0 {
        name
    } else if dir.last() == '/' {
        dir + name
    } else {
        dir + seq!['/'] + name
    }
}

/// The path a source file is renamed to: the same directory, the file name
/// sanitized.
pub open spec fn plan_rename_spec(input: Seq<char>) -> Seq<char> {
    with_file_name_spec(input, sanitize_spec(file_name_spec(input)))
}

/// The output path planned for one source file: the template rendered with
/// the input's stem, the extension auto-appended, the whole joined onto the
/// output directory and stripped of disallowed characters.
pub open spec fn plan_output_spec(
    input: Seq<char>,
    dir: Seq<char>,
    template: Seq<char>,
    rotation: int,
    timestamp: Seq<char>,
    date: Seq<char>,
    time: Seq<char>,
) -> Seq<char> {
    let f = file_name_spec(input);
    let rendered = render_spec(template, stem_spec(f), rotation, timestamp, date, time);
    let named = append_ext_spec(rendered, ext_spec(f));
    filter_allowed(join_path_spec(dir, named))
}

/// The file name of `p` as characters, with the index it starts at.
fn split_file_name(p: &Vec<char>) -> (r: (usize, Vec<char>))
    ensures
        r.0 == last_index_of(p@, '/') + 1,
        r.0 <= p@.len(),
        r.1@ == file_name_spec(p@),
{
    let n = p.len();
    let start: usize = match find_last_char(p, '/') {
        Some(k) => k + 1,
        None => 0,
    };
    let name = sub_chars(p, start, n);
    proof {
        assert(p@.subrange(start as int, p@.len() as int) =~= p@.skip(
            last_index_of(p@, '/') + 1,
        ));
    }
    (start, name)
}

/// The rename target of a source path: its file name sanitized in place.
pub fn plan_rename(input_path: &str) -> (r: String)
    ensures
        r@ == plan_rename_spec(input_path@),
{
    let p = chars_of(input_path);
    let (start, name) = split_file_name(&p);
    let sanitized = sanitize_filename(&string_from_chars(&name));
    let mut out = sub_chars(&p, 0, start);
    append_chars(&mut out, &chars_of(&sanitized));
    proof {
        assert(p@.subrange(0, last_index_of(p@, '/') + 1) =~= p@.take(
            last_index_of(p@, '/') + 1,
        ));
    }
    string_from_chars(&out)
}

/// Plans the output path for one source file from the current parameters
/// and the three time-derived token values.
pub fn plan_output_path(
    input_path: &str,
    output_dir: &str,
    template: &str,
    rotation: i32,
    timestamp: &str,
    date: &str,
    time: &str,
) -> (r: String)
    ensures
        r@ == plan_output_spec(
            input_path@,
            output_dir@,
            template@,
            rotation as int,
            timestamp@,
            date@,
            time@,
        ),
{
    let p = chars_of(input_path);
    let (_, fname) = split_file_name(&p);

    // stem and extension of the input's file name
    let dot = find_last_char(&fname, '.');
    let stem: Vec<char> = match dot {
        Some(k) => {
            if k > 0 {
                sub_chars(&fname, 0, k)
            } else {
                sub_chars(&fname, 0, fname.len())
            }
        },
        None => sub_chars(&fname, 0, fname.len()),
    };
    proof {
        assert(fname@.subrange(0, fname@.len() as int) =~= fname@);
        assert(stem@ == stem_spec(fname@));
    }

    let rendered = render_template(
        template,
        &string_from_chars(&stem),
        rotation,
        timestamp,
        date,
        time,
    );

    // auto-append the input's extension when the rendered name has no dot
    let mut named = chars_of(&rendered);
    match dot {
        Some(k) => {
            if k > 0 {
                if find_last_char(&named, '.').is_none() {
                    named.push('.');
                    let ext = sub_chars(&fname, k + 1, fname.len());
                    append_chars(&mut named, &ext);
                    proof {
                        assert(fname@.subrange(k + 1, fname@.len() as int) =~= fname@.skip(k + 1));
                        assert(named@ =~= rendered@ + seq!['.'] + fname@.skip(k + 1));
                    }
                }
            }
        },
        None => {},
    }
    proof {
        assert(named@ == append_ext_spec(rendered@, ext_spec(fname@)));
    }

    // join onto the output directory
    let dir = chars_of(output_dir);
    let joined: Vec<char> = if named.len() > 0 && named[0] == '/' {
        named
    } else if dir.len() == 0 {
        named
    } else {
        let mut j = sub_chars(&dir, 0, dir.len());
        proof {
            assert(dir@.subrange(0, dir@.len() as int) =~= dir@);
        }
        if dir[dir.len() - 1] != '/' {
            j.push('/');
        }
        append_chars(&mut j, &named);
        j
    };
    proof {
        assert(joined@ == join_path_spec(output_dir@, append_ext_spec(rendered@, ext_spec(fname@))));
    }

    string_from_chars(&filter_allowed_chars(&joined))
}

/// Plans the output path with the time-derived tokens taken from the wall
/// clock now: the result is the plan for some triple of token values.
pub fn generate_output_path(
    input_path: &str,
    output_dir: &str,
    template: &str,
    rotation: i32,
) -> (r: String)
    ensures
        exists|ts: Seq<char>, d: Seq<char>, t: Seq<char>|
            r@ == #[trigger] plan_output_spec(
                input_path@,
                output_dir@,
                template@,
                rotation as int,
                ts,
                d,
                t,
            ),
{
    let (timestamp, date, time) = crate::clock::now_token_values();
    let r = plan_output_path(
        input_path,
        output_dir,
        template,
        rotation,
        timestamp.as_str(),
        date.as_str(),
        time.as_str(),
    );
    proof {
        assert(r@ == plan_output_spec(
            input_path@,
            output_dir@,
            template@,
            rotation as int,
            timestamp@,
            date@,
            time@,
        ));
    }
    r
}

} // verus!
