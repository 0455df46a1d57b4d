//! The one window onto the wall clock: the current local time rendered into
//! the three time-derived token values. Everything that depends on these
//! strings takes them as plain arguments and is verified for every value of
//! them.

use vstd::prelude::*;

verus! {

/// Whether `p` is one of the three strftime patterns the template tokens
/// use. All three are valid for a date-and-time value, so rendering them
/// cannot fail.
pub open spec fn is_token_pattern(p: Seq<char>) -> bool {
    p == "%Y%m%d%H%M%S"@ || p == "%Y-%m-%d"@ || p == "%H-%M-%S"@
}

/// Relies on `chrono::Local::now` and `chrono::DateTime::format`: reads the
/// current moment once and renders it per the three given strftime
/// patterns. Nothing is promised of the texts; they depend on the clock,
/// and two calls may differ.
#[verifier::external_body]
fn now_formatted(p1: &str, p2: &str, p3: &str) -> (String, String, String)
    requires
        is_token_pattern(p1@),
        is_token_pattern(p2@),
        is_token_pattern(p3@),
{
    let now = chrono::Local::now();
    (now.format(p1).to_string(), now.format(p2).to_string(), now.format(p3).to_string())
}

/// The three time-derived token values, rendered from one moment: the
/// compact timestamp, the date, and the time of day.
pub fn now_token_values() -> (r: (String, String, String)) {
    now_formatted("%Y%m%d%H%M%S", "%Y-%m-%d", "%H-%M-%S")
}

} // verus!
