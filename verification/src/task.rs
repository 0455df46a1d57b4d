//! One batch work item and the exact argument list it hands the external
//! media tool: the clip range only when the start lies strictly before the
//! end — otherwise the full file is still stream-copied — plus rotation
//! metadata when a rotation is set.

use vstd::prelude::*;
use vstd::string::StringExecFns;
use crate::text::{chars_of, string_from_chars, append_chars, i32_chars, int_chars};
use crate::timecode::parse_hms_spec;
use crate::timecode::parse_hms;

verus! {

/// One source-file transform job, immutable once built.
pub struct BatchTask {
    pub input_path: String,
    pub output_path: String,
    pub start_time: String,
    pub end_time: String,
    pub rotation: i32,
}

/// The plain values of a task.
pub ghost struct TaskView {
    pub input_path: Seq<char>,
    pub output_path: Seq<char>,
    pub start_time: Seq<char>,
    pub end_time: Seq<char>,
    pub rotation: int,
}

impl DeepView for BatchTask {
    type V = TaskView;

    open spec fn deep_view(&self) -> TaskView {
        self.view()
    }
}

impl View for BatchTask {
    type V = TaskView;

    open spec fn view(&self) -> TaskView {
        TaskView {
            input_path: self.input_path@,
            output_path: self.output_path@,
            start_time: self.start_time@,
            end_time: self.end_time@,
            rotation: self.rotation as int,
        }
    }
}

impl Clone for BatchTask {
    fn clone(&self) -> (r: Self)
        ensures
            r == *self,
    {
        BatchTask {
            input_path: self.input_path.clone(),
            output_path: self.output_path.clone(),
            start_time: self.start_time.clone(),
            end_time: self.end_time.clone(),
            rotation: self.rotation,
        }
    }
}

impl BatchTask {
    /// Bundles the current parameters into one immutable work item.
    pub fn new(
        input_path: String,
        output_path: String,
        start_time: String,
        end_time: String,
        rotation: i32,
    ) -> (r: BatchTask)
        ensures
            r@ == (TaskView {
                input_path: input_path@,
                output_path: output_path@,
                start_time: start_time@,
                end_time: end_time@,
                rotation: rotation as int,
            }),
    {
        BatchTask { input_path, output_path, start_time, end_time, rotation }
    }
}

/// A time endpoint the task carries could not be read as `HH:MM:SS`.
#[derive(PartialEq, Eq, Structural, Clone, Copy, Debug)]
pub enum TaskArgsError {
    MalformedStartTime,
    MalformedEndTime,
}

/// Whether the task asks for clipping: both endpoints parse and the start
/// lies strictly before the end. An equal or reversed range means a silent
/// full-file copy, not an error.
pub open spec fn wants_clip(start: Seq<char>, end: Seq<char>) -> bool {
    match (parse_hms_spec(start), parse_hms_spec(end)) {
        (Some(a), Some(b)) => a < b,
        _ => false,
    }
}

/// The argument list handed to the media tool for a task: the input; the
/// clip range only when clipping is wanted — without it the whole file is
/// copied; the stream-copy codecs in every case; the rotation metadata tag
/// when the rotation is not zero; and the output path, named once.
pub open spec fn task_args_spec(t: TaskView, clip: bool) -> Seq<Seq<char>> {
    let base = seq!["-i"@, t.input_path];
    let with_clip = if clip {
        base + seq!["-ss"@, t.start_time, "-to"@, t.end_time]
    } else {
        base
    };
    let with_copy = with_clip + seq!["-c:v"@, "copy"@, "-c:a"@, "copy"@];
    let with_rotation = if t.rotation != 0 {
        with_copy + seq!["-metadata:s:v"@, "rotate="@ + int_chars(t.rotation)]
    } else {
        with_copy
    };
    with_rotation + seq![t.output_path]
}

/// Builds the media tool's argument list for one task. Both time endpoints
/// must read as `HH:MM:SS`; clipping arguments appear exactly when the
/// start lies strictly before the end, and an equal or reversed range
/// falls back silently to a full-file stream copy.
pub fn build_task_args(t: &BatchTask) -> (r: Result<Vec<String>, TaskArgsError>)
    ensures
        r is Ok <==> parse_hms_spec(t@.start_time) is Some && parse_hms_spec(t@.end_time)
            is Some,
        r matches Ok(args) ==> args.deep_view() == task_args_spec(t@, wants_clip(
            t@.start_time,
            t@.end_time,
        )),
        r == Err::<Vec<String>, TaskArgsError>(TaskArgsError::MalformedStartTime) <==> parse_hms_spec(
            t@.start_time,
        ) is None,
        r == Err::<Vec<String>, TaskArgsError>(TaskArgsError::MalformedEndTime) <==> (
        parse_hms_spec(t@.start_time) is Some && parse_hms_spec(t@.end_time) is None),
{
    let start_secs = match parse_hms(t.start_time.as_str()) {
        Some(v) => v,
        None => {
            return Err(TaskArgsError::MalformedStartTime);
        },
    };
    let end_secs = match parse_hms(t.end_time.as_str()) {
        Some(v) => v,
        None => {
            return Err(TaskArgsError::MalformedEndTime);
        },
    };
    let clip = start_secs < end_secs;

    let mut args: Vec<String> = Vec::new();
    args.push(String::from_str("-i"));
    args.push(t.input_path.clone());
    if clip {
        args.push(String::from_str("-ss"));
        args.push(t.start_time.clone());
        args.push(String::from_str("-to"));
        args.push(t.end_time.clone());
    }
    args.push(String::from_str("-c:v"));
    args.push(String::from_str("copy"));
    args.push(String::from_str("-c:a"));
    args.push(String::from_str("copy"));
    if t.rotation != 0 {
        args.push(String::from_str("-metadata:s:v"));
        let mut tag = chars_of("rotate=");
        append_chars(&mut tag, &i32_chars(t.rotation));
        args.push(string_from_chars(&tag));
    }
    args.push(t.output_path.clone());
    proof {
        assert(args.deep_view() =~~= task_args_spec(t@, wants_clip(t@.start_time, t@.end_time)));
    }
    Ok(args)
}

/// What a finished child process means for its task: exit code zero is
/// success; any other exit, the interrupted kind included, fails the task
/// with a message carrying the code.
pub open spec fn exit_message_spec(code: Option<int>) -> Seq<char> {
    match code {
        Some(c) => "ffmpeg failed with exit code "@ + int_chars(c),
        None => "ffmpeg was terminated by a signal"@,
    }
}

/// Maps the child's exit code to the task's outcome: `Ok` exactly on exit
/// code zero, otherwise the error message that is published to the batch
/// status.
pub fn exit_result(code: Option<i32>) -> (r: Result<(), String>)
    ensures
        r is Ok <==> code == Some(0i32),
        r matches Err(m) ==> m@ == exit_message_spec(
            match code {
                Some(c) => Some(c as int),
                None => None,
            },
        ),
{
    proof {
        reveal_strlit("ffmpeg failed with exit code ");
        reveal_strlit("ffmpeg was terminated by a signal");
    }
    match code {
        Some(c) => {
            if c == 0 {
                Ok(())
            } else {
                let mut msg = chars_of("ffmpeg failed with exit code ");
                append_chars(&mut msg, &i32_chars(c));
                Err(string_from_chars(&msg))
            }
        },
        None => Err(String::from_str("ffmpeg was terminated by a signal")),
    }
}

} // verus!
