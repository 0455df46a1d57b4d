//! One preview target: the debounced, single-flight state machine behind a
//! still-frame preview, and the exact argument list its worker hands the
//! media tool. A request is accepted only when a source is selected, no
//! worker is in flight, and the debounce window has passed; the accepted
//! worker's frame lands in the pending slot and is drained once.

use vstd::prelude::*;
use crate::text::{chars_of, string_from_chars, append_chars, i32_chars, int_chars};

verus! {

/// How long after an accepted request the next one is ignored, in
/// milliseconds.
pub const DEBOUNCE_WINDOW_MS: u64 = 500;

/// One preview target — the start edge or the end edge.
pub struct PreviewTarget {
    /// The `HH:MM:SS` point the preview is asked for.
    pub timestamp: String,
    /// A worker is in flight, or its frame has not been drained yet.
    pub loading: bool,
    /// When the last accepted request was made, on the frame clock.
    pub last_request_ms: u64,
    /// The raw image bytes the last worker produced, until drained.
    pub pending_frame: Option<Vec<u8>>,
}

/// The plain values of a preview target.
pub ghost struct PreviewView {
    pub timestamp: Seq<char>,
    pub loading: bool,
    pub last_request_ms: int,
    pub pending_frame: Option<Seq<u8>>,
}

impl View for PreviewTarget {
    type V = PreviewView;

    open spec fn view(&self) -> PreviewView {
        PreviewView {
            timestamp: self.timestamp@,
            loading: self.loading,
            last_request_ms: self.last_request_ms as int,
            pending_frame: match self.pending_frame {
                Some(ref b) => Some(b@),
                None => None,
            },
        }
    }
}

/// Whether a request made now passes all three guards: a source file is
/// selected, no worker for this target is still owed a drain, and at least
/// the debounce window has passed since the last accepted request.
pub open spec fn request_accepted(m: PreviewView, now_ms: int, have_source: bool) -> bool {
    have_source && !m.loading && now_ms >= m.last_request_ms + DEBOUNCE_WINDOW_MS
}

/// What a request does: when accepted it marks the target loading and
/// remembers the time; otherwise it is dropped with no side effect.
pub open spec fn request_view(m: PreviewView, now_ms: int, have_source: bool) -> PreviewView {
    if request_accepted(m, now_ms, have_source) {
        PreviewView { loading: true, last_request_ms: now_ms, ..m }
    } else {
        m
    }
}

/// What a finished worker does: its bytes — or their absence, when the
/// frame could not be extracted — land in the pending slot; a missing
/// frame also ends the loading state, leaving the preview unchanged.
pub open spec fn deliver_view(m: PreviewView, bytes: Option<Seq<u8>>) -> PreviewView {
    PreviewView { pending_frame: bytes, loading: bytes is Some, ..m }
}

/// What draining does: the pending bytes leave the slot, and with them the
/// loading state ends.
pub open spec fn drain_view(m: PreviewView) -> (PreviewView, Option<Seq<u8>>) {
    (
        PreviewView {
            pending_frame: None,
            loading: if m.pending_frame is Some {
                false
            } else {
                m.loading
            },
            ..m
        },
        m.pending_frame,
    )
}

impl PreviewTarget {
    /// A fresh target: the default preview point, nothing in flight.
    pub fn new() -> (r: PreviewTarget)
        ensures
            r@ == (PreviewView {
                timestamp: "0:00:00"@,
                loading: false,
                last_request_ms: 0,
                pending_frame: None,
            }),
    {
        PreviewTarget {
            timestamp: String::from_str("0:00:00"),
            loading: false,
            last_request_ms: 0,
            pending_frame: None,
        }
    }

    /// Asks for a preview at this target's timestamp. `true` means the
    /// caller must now run one worker; `false` means the request was
    /// dropped with no side effect.
    pub fn request(&mut self, now_ms: u64, have_source: bool) -> (accepted: bool)
        ensures
            accepted == request_accepted(old(self)@, now_ms as int, have_source),
            final(self)@ == request_view(old(self)@, now_ms as int, have_source),
    {
        if have_source && !self.loading && now_ms >= self.last_request_ms && now_ms
            - self.last_request_ms >= DEBOUNCE_WINDOW_MS {
            self.loading = true;
            self.last_request_ms = now_ms;
            true
        } else {
            false
        }
    }

    /// Takes the worker's result: the bytes of the extracted frame, or
    /// nothing when extraction failed.
    pub fn deliver(&mut self, bytes: Option<Vec<u8>>)
        requires
            old(self)@.loading,
        ensures
            final(self)@ == deliver_view(
                old(self)@,
                match bytes {
                    Some(ref b) => Some(b@),
                    None => None,
                },
            ),
    {
        self.loading = bytes.is_some();
        self.pending_frame = bytes;
    }

    /// Drains the pending frame, once, for rendering.
    pub fn drain(&mut self) -> (r: Option<Vec<u8>>)
        ensures
            final(self)@ == drain_view(old(self)@).0,
            match r {
                Some(ref b) => drain_view(old(self)@).1 == Some(b@),
                None => drain_view(old(self)@).1 is None,
            },
    {
        let r = self.pending_frame.take();
        if r.is_some() {
            self.loading = false;
        }
        r
    }

    /// Clears the target back to an empty preview point with nothing in
    /// flight, as clearing the file list does.
    pub fn reset(&mut self)
        ensures
            final(self)@ == (PreviewView {
                timestamp: Seq::empty(),
                loading: false,
                last_request_ms: old(self)@.last_request_ms,
                pending_frame: None,
            }),
    {
        self.timestamp = String::new();
        self.loading = false;
        self.pending_frame = None;
    }
}

/// The argument list a preview worker hands the media tool: seek to the
/// requested point, rotate only when a rotation is set, and write exactly
/// one frame over the temporary image file.
pub open spec fn preview_args_spec(
    time: Seq<char>,
    input: Seq<char>,
    rotation: int,
    temp_path: Seq<char>,
) -> Seq<Seq<char>> {
    let base = seq!["-ss"@, time, "-i"@, input];
    let with_filter = if rotation != 0 {
        base + seq!["-vf"@, "rotate=-"@ + int_chars(rotation) + "*PI/180"@]
    } else {
        base
    };
    with_filter + seq!["-vframes"@, "1"@, "-q:v"@, "2"@, "-y"@, temp_path]
}

/// Builds the preview worker's argument list.
pub fn build_preview_args(time: &str, input: &str, rotation: i32, temp_path: &str) -> (r: Vec<
    String,
>)
    ensures
        r.deep_view() == preview_args_spec(time@, input@, rotation as int, temp_path@),
{
    let mut args: Vec<String> = Vec::new();
    args.push(string_from_chars(&chars_of("-ss")));
    args.push(string_from_chars(&chars_of(time)));
    args.push(string_from_chars(&chars_of("-i")));
    args.push(string_from_chars(&chars_of(input)));
    if rotation != 0 {
        args.push(string_from_chars(&chars_of("-vf")));
        let mut filter = chars_of("rotate=-");
        append_chars(&mut filter, &i32_chars(rotation));
        append_chars(&mut filter, &chars_of("*PI/180"));
        args.push(string_from_chars(&filter));
    }
    args.push(string_from_chars(&chars_of("-vframes")));
    args.push(string_from_chars(&chars_of("1")));
    args.push(string_from_chars(&chars_of("-q:v")));
    args.push(string_from_chars(&chars_of("2")));
    args.push(string_from_chars(&chars_of("-y")));
    args.push(string_from_chars(&chars_of(temp_path)));
    proof {
        assert(args.deep_view() =~~= preview_args_spec(
            time@,
            input@,
            rotation as int,
            temp_path@,
        ));
    }
    args
}

/// Debounce: of two requests to the same target within the debounce
/// window, only the first is accepted; the second is a no-op that leaves
/// the target exactly as it was.
pub proof fn lemma_debounce_window(
    m: PreviewView,
    t1: int,
    have1: bool,
    t2: int,
    have2: bool,
)
    requires
        request_accepted(m, t1, have1),
        t2 < t1 + DEBOUNCE_WINDOW_MS,
    ensures
        !request_accepted(request_view(m, t1, have1), t2, have2),
        request_view(request_view(m, t1, have1), t2, have2) == request_view(m, t1, have1),
{
}

/// Single flight: from the moment a request is accepted until its frame is
/// drained, every further request is a no-op, and what the drain hands out
/// is exactly the bytes that one worker delivered.
pub proof fn lemma_single_flight(
    m: PreviewView,
    t1: int,
    have1: bool,
    b: Seq<u8>,
    t2: int,
    have2: bool,
    t3: int,
    have3: bool,
)
    requires
        request_accepted(m, t1, have1),
    ensures
        ({
            let started = request_view(m, t1, have1);
            let raced = request_view(started, t2, have2);
            let delivered = deliver_view(raced, Some(b));
            let raced_again = request_view(delivered, t3, have3);
            &&& raced == started
            &&& raced_again == delivered
            &&& drain_view(raced_again).1 == Some(b)
            &&& drain_view(raced_again).0.pending_frame is None
            &&& !drain_view(raced_again).0.loading
        }),
{
}

} // verus!
