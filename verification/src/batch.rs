//! The batch controller: a small state machine that hands out the queued
//! tasks strictly in order, publishes progress and status, stops early on
//! the first failure, and honours an advisory stop request between tasks.

use vstd::prelude::*;
use vstd::string::StringExecFns;
use crate::progress::PROGRESS_UNIT_DENOMINATOR;
use crate::task::{BatchTask, TaskView};

verus! {

/// Where a batch run stands.
#[derive(PartialEq, Eq, Structural, Clone, Copy, Debug)]
pub enum RunPhase {
    /// Tasks are still being handed out.
    Running,
    /// Every task finished and `done` was published.
    Completed,
    /// A task failed; its error text is the published status.
    Failed,
    /// A stop request was observed at the top of the per-task loop.
    Stopped,
}

/// The shared progress/status record the interactive surface polls:
/// a completion fraction in hundred-thousandths and a status line.
pub struct ProcessingState {
    pub progress_units: u64,
    pub message: String,
}

/// The plain values of the shared record.
pub ghost struct ProcessingStateView {
    pub progress_units: int,
    pub message: Seq<char>,
}

impl View for ProcessingState {
    type V = ProcessingStateView;

    open spec fn view(&self) -> ProcessingStateView {
        ProcessingStateView { progress_units: self.progress_units as int, message: self.message@ }
    }
}

/// The fraction never leaves `[0, 1]`.
pub open spec fn state_wf(s: ProcessingStateView) -> bool {
    0 <= s.progress_units <= PROGRESS_UNIT_DENOMINATOR
}

impl ProcessingState {
    /// The default record: no progress, an empty status line.
    pub fn new() -> (r: ProcessingState)
        ensures
            r@.progress_units == 0,
            r@.message == Seq::<char>::empty(),
            state_wf(r@),
    {
        ProcessingState { progress_units: 0, message: String::new() }
    }
}

/// One batch run and what it has published.
pub struct BatchRun {
    pub tasks: Vec<BatchTask>,
    pub next: usize,
    pub phase: RunPhase,
    pub state: ProcessingState,
}

/// The plain values of a batch run.
pub ghost struct BatchView {
    pub tasks: Seq<TaskView>,
    pub next: int,
    pub phase: RunPhase,
    pub state: ProcessingStateView,
}

impl View for BatchRun {
    type V = BatchView;

    open spec fn view(&self) -> BatchView {
        BatchView {
            tasks: self.tasks.deep_view(),
            next: self.next as int,
            phase: self.phase,
            state: self.state@,
        }
    }
}

/// The indices handed out stay within the queue and the fraction within
/// `[0, 1]`.
pub open spec fn batch_wf(m: BatchView) -> bool {
    0 <= m.next <= m.tasks.len() && state_wf(m.state)
}

/// A fresh run over a snapshot of the queue: at the first task, progress
/// reset, nothing published yet.
pub open spec fn start_view(tasks: Seq<TaskView>) -> BatchView {
    BatchView {
        tasks,
        next: 0,
        phase: RunPhase::Running,
        state: ProcessingStateView { progress_units: 0, message: Seq::empty() },
    }
}

/// The status line published while a task runs.
pub open spec fn processing_message(input: Seq<char>) -> Seq<char> {
    "processing: "@ + input
}

/// The status line published when a task fails.
pub open spec fn error_message(e: Seq<char>) -> Seq<char> {
    "error: "@ + e
}

/// What asking for the next task does: outside `Running` nothing; under a
/// stop request the run stops; past the last task the run completes, with
/// `done` published; otherwise the next task in order is handed out and
/// announced. Every ending — completion, stop — resets the fraction to
/// zero, as failure does.
pub open spec fn take_next_view(m: BatchView, stop_requested: bool) -> (BatchView, Option<
    TaskView,
>) {
    if m.phase != RunPhase::Running {
        (m, None)
    } else if stop_requested {
        (
            BatchView {
                phase: RunPhase::Stopped,
                state: ProcessingStateView { progress_units: 0, message: m.state.message },
                ..m
            },
            None,
        )
    } else if m.next >= m.tasks.len() {
        (
            BatchView {
                phase: RunPhase::Completed,
                state: ProcessingStateView { progress_units: 0, message: "done"@ },
                ..m
            },
            None,
        )
    } else {
        (
            BatchView {
                next: m.next + 1,
                state: ProcessingStateView {
                    progress_units: m.state.progress_units,
                    message: processing_message(m.tasks[m.next].input_path),
                },
                ..m
            },
            Some(m.tasks[m.next]),
        )
    }
}

/// What reporting a task's outcome does: success changes nothing; failure
/// ends the run, publishes the error text, and resets the fraction.
pub open spec fn report_view(m: BatchView, result: Result<(), Seq<char>>) -> BatchView {
    match result {
        Ok(()) => m,
        Err(e) => BatchView {
            phase: RunPhase::Failed,
            state: ProcessingStateView { progress_units: 0, message: error_message(e) },
            ..m
        },
    }
}

impl BatchRun {
    /// Snapshots the queue and enters `Running`.
    pub fn start(tasks: Vec<BatchTask>) -> (r: BatchRun)
        ensures
            r@ == start_view(tasks.deep_view()),
            batch_wf(r@),
    {
        BatchRun { tasks, next: 0, phase: RunPhase::Running, state: ProcessingState::new() }
    }

    /// Hands out the next task, or says why none follows. The stop flag is
    /// whatever the shared advisory flag read at the top of the per-task
    /// loop; a task already underway is never interrupted.
    pub fn take_next(&mut self, stop_requested: bool) -> (r: Option<BatchTask>)
        requires
            batch_wf(old(self)@),
        ensures
            batch_wf(final(self)@),
            final(self)@ == take_next_view(old(self)@, stop_requested).0,
            match r {
                Some(t) => take_next_view(old(self)@, stop_requested).1 == Some(t@),
                None => take_next_view(old(self)@, stop_requested).1 is None,
            },
    {
        match self.phase {
            RunPhase::Running => {
                if stop_requested {
                    self.phase = RunPhase::Stopped;
                    self.state.progress_units = 0;
                    None
                } else if self.next >= self.tasks.len() {
                    self.phase = RunPhase::Completed;
                    self.state.progress_units = 0;
                    self.state.message = String::from_str("done");
                    None
                } else {
                    let t = self.tasks[self.next].clone();
                    self.next = self.next + 1;
                    self.state.message = String::from_str("processing: ").concat(
                        t.input_path.as_str(),
                    );
                    proof {
                        assert(t@ == old(self)@.tasks[old(self)@.next]);
                    }
                    Some(t)
                }
            },
            _ => None,
        }
    }

    /// Takes a task's outcome: a failure ends the run and publishes the
    /// error text, so no later task is ever handed out.
    pub fn report(&mut self, result: Result<(), String>)
        requires
            batch_wf(old(self)@),
        ensures
            batch_wf(final(self)@),
            final(self)@ == report_view(
                old(self)@,
                match result {
                    Ok(()) => Ok(()),
                    Err(e) => Err(e@),
                },
            ),
    {
        match result {
            Ok(()) => {},
            Err(e) => {
                self.phase = RunPhase::Failed;
                self.state.progress_units = 0;
                self.state.message = String::from_str("error: ").concat(e.as_str());
            },
        }
    }

    /// Publishes a progress reading; the fraction stays within `[0, 1]`.
    pub fn publish_progress(&mut self, units: u64)
        requires
            batch_wf(old(self)@),
            units <= PROGRESS_UNIT_DENOMINATOR,
        ensures
            batch_wf(final(self)@),
            final(self)@ == (BatchView {
                state: ProcessingStateView {
                    progress_units: units as int,
                    message: old(self)@.state.message,
                },
                ..old(self)@
            }),
    {
        self.state.progress_units = units;
    }
}

/// Once a task has failed, the run is `Failed`, the published status is
/// that task's error text, and no further task is ever handed out — the
/// rest of the queue never runs.
pub proof fn lemma_failure_halts_queue(m: BatchView, e: Seq<char>, stop_requested: bool)
    ensures
        report_view(m, Err(e)).phase == RunPhase::Failed,
        report_view(m, Err(e)).state.message == error_message(e),
        take_next_view(report_view(m, Err(e)), stop_requested).1 is None,
        take_next_view(report_view(m, Err(e)), stop_requested).0 == report_view(m, Err(e)),
{
}

/// Tasks are handed out strictly in queue order: asking while `Running`
/// with tasks left yields exactly the task at the cursor, and moves the
/// cursor one forward.
pub proof fn lemma_tasks_in_order(m: BatchView, stop_requested: bool)
    requires
        m.phase == RunPhase::Running,
        !stop_requested,
        0 <= m.next < m.tasks.len(),
    ensures
        take_next_view(m, stop_requested).1 == Some(m.tasks[m.next]),
        take_next_view(m, stop_requested).0.next == m.next + 1,
{
}

} // verus!
