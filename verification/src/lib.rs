//! Verified core of a batch video clipping tool.
//!
//! The library plans the work that an external media tool performs: it
//! sanitizes file names, renders output names from a token template, parses
//! the tool's textual progress stream, builds the tool's argument lists, and
//! drives two small state machines — one for the sequential batch run, one
//! per debounced single-flight preview target.

use vstd::prelude::*;

pub mod batch;
pub mod clock;
pub mod paths;
pub mod preview;
pub mod probe;
pub mod progress;
pub mod sanitize;
pub mod task;
pub mod template;
pub mod text;
pub mod timecode;

verus! {

/// Adds a source path to the list only when it is not already there, as
/// dropping an already-listed file must not duplicate it.
pub fn push_unique(paths: &mut Vec<String>, p: String) -> (added: bool)
    ensures
        added == !old(paths).deep_view().contains(p@),
        final(paths).deep_view() == if added {
            old(paths).deep_view().push(p@)
        } else {
            old(paths).deep_view()
        },
{
    let mut i: usize = 0;
    while i < paths.len()
        invariant
            i <= paths.len(),
            forall|j: int| 0 <= j < i ==> paths.deep_view()[j] != p@,
            *paths == *old(paths),
        decreases paths.len() - i,
    {
        if paths[i] == p {
            proof {
                assert(paths.deep_view()[i as int] == p@);
            }
            return false;
        }
        i = i + 1;
    }
    paths.push(p);
    proof {
        assert(final(paths).deep_view() =~~= old(paths).deep_view().push(p@));
        assert(!old(paths).deep_view().contains(p@));
    }
    true
}

} // verus!
