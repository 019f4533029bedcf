//! Progress of a running job and the events a worker reports about it.
use vstd::prelude::*;

verus! {

/// How far the current run has got.
#[derive(Debug, Clone, Copy, PartialEq, Eq)]
pub struct ProcessProgress {
    /// Files the run will process.
    pub total: usize,
    /// Files processed so far.
    pub completed: usize,
    /// A run is going on.
    pub is_active: bool,
}

/// The progress before any run.
pub open spec fn idle_progress() -> ProcessProgress {
    ProcessProgress { total: 0, completed: 0, is_active: false }
}

impl Default for ProcessProgress {
    fn default() -> (r: Self)
        ensures
            r == idle_progress(),
    {
        ProcessProgress { total: 0, completed: 0, is_active: false }
    }
}

/// A report from the worker that processes the invoices.
pub enum ProgressEvent {
    /// The worker found `total` files to process.
    Started { total: usize },
    /// One more file is done: `completed` of `total`.
    FileCompleted { completed: usize, total: usize },
    /// The worker has processed every file.
    Finished,
    /// A line for the activity log.
    Log(String),
}

/// The progress after `event`.
pub open spec fn progress_step(p: ProcessProgress, event: ProgressEvent) -> ProcessProgress {
    match event {
        ProgressEvent::Started { total } => ProcessProgress { total, completed: 0, is_active: true },
        ProgressEvent::FileCompleted { completed, total } => ProcessProgress {
            total,
            completed,
            ..p
        },
        ProgressEvent::Finished => ProcessProgress { is_active: false, ..p },
        ProgressEvent::Log(_) => p,
    }
}

/// The progress after `events`, taken in order.
pub open spec fn progress_after(p: ProcessProgress, events: Seq<ProgressEvent>) -> ProcessProgress
    decreases events.len(),
{
    if events.len() == 0 {
        p
    } else {
        progress_step(progress_after(p, events.drop_last()), events.last())
    }
}

/// Whatever came before, a run whose last report is `Finished` is no
/// longer active, and one whose last report is `Started` is active with
/// nothing completed; log lines never move the progress.
pub proof fn lemma_last_report_decides(p: ProcessProgress, events: Seq<ProgressEvent>)
    requires
        events.len() > 0,
    ensures
        events.last() is Finished ==> !progress_after(p, events).is_active,
        events.last() is Started ==> progress_after(p, events).is_active
            && progress_after(p, events).completed == 0,
        events.last() is Log ==> progress_after(p, events) == progress_after(p, events.drop_last()),
{
}

/// Each report sets what it carries: `Started` sets the total, clears the
/// completed count and activates the run; `FileCompleted` sets both counts
/// and leaves the run's activity as it is; `Finished` ends the run and
/// keeps the counts; a log line changes nothing.
pub proof fn lemma_progress_step(p: ProcessProgress, event: ProgressEvent)
    ensures
        event matches ProgressEvent::Started { total } ==> progress_step(p, event).total == total
            && progress_step(p, event).completed == 0 && progress_step(p, event).is_active,
        event matches ProgressEvent::FileCompleted { completed, total } ==> progress_step(
            p,
            event,
        ).total == total && progress_step(p, event).completed == completed && progress_step(
            p,
            event,
        ).is_active == p.is_active,
        event is Finished ==> !progress_step(p, event).is_active && progress_step(p, event).total
            == p.total && progress_step(p, event).completed == p.completed,
        event is Log ==> progress_step(p, event) == p,
{
}

impl ProcessProgress {
    /// Takes in one event; a log line leaves the progress as it is.
    pub fn apply(&mut self, event: &ProgressEvent)
        ensures
            *final(self) == progress_step(*old(self), *event),
    {
        match event {
            ProgressEvent::Started { total } => {
                self.total = *total;
                self.completed = 0;
                self.is_active = true;
            },
            ProgressEvent::FileCompleted { completed, total } => {
                self.completed = *completed;
                self.total = *total;
            },
            ProgressEvent::Finished => {
                self.is_active = false;
            },
            ProgressEvent::Log(_) => {},
        }
    }
}

} // verus!
