//! What a worker of the pool decides.
//!
//! The pool's threads, its queue and the catching of panics belong to the
//! program around this library. The rules they follow are here: how many
//! workers a pool may have, what a worker does with each message, and that
//! a job that panics leaves its worker ready for the next one.

use vstd::prelude::*;

verus! {

/// Where a worker stands.
#[derive(Debug, Clone, Copy, PartialEq, Eq, Structural)]
pub enum WorkerState {
    /// Waiting for a message from the queue.
    Idle,
    /// Running a job.
    Running,
    /// Done for good.
    Stopped,
}

/// What happened to a worker.
#[derive(Debug, Clone, Copy, PartialEq, Eq, Structural)]
pub enum WorkerEvent {
    /// A job came from the queue.
    Job,
    /// The signal to terminate came from the queue.
    Terminate,
    /// The queue is gone: the pool was dropped.
    Disconnected,
    /// The job returned.
    JobFinished,
    /// The job panicked; the panic was caught.
    JobPanicked,
}

/// What a worker does next.
#[derive(Debug, Clone, Copy, PartialEq, Eq, Structural)]
pub enum WorkerAction {
    /// Wait for the next message.
    Receive,
    /// Run the job that came, catching a panic.
    Run,
    /// Leave the loop.
    Exit,
}

/// The rule of the worker loop: an idle worker runs the job it receives and
/// stops on the signal to terminate or when the queue is gone; a running
/// worker goes back to waiting when its job ends, whether it returned or
/// panicked. Anything out of turn stops the worker.
pub open spec fn worker_rule(state: WorkerState, event: WorkerEvent) -> (WorkerState, WorkerAction) {
    match (state, event) {
        (WorkerState::Idle, WorkerEvent::Job) => (WorkerState::Running, WorkerAction::Run),
        (WorkerState::Running, WorkerEvent::JobFinished) => (
            WorkerState::Idle,
            WorkerAction::Receive,
        ),
        (WorkerState::Running, WorkerEvent::JobPanicked) => (
            WorkerState::Idle,
            WorkerAction::Receive,
        ),
        _ => (WorkerState::Stopped, WorkerAction::Exit),
    }
}

/// Applies the rule of the worker loop.
pub fn worker_step(state: WorkerState, event: WorkerEvent) -> (r: (WorkerState, WorkerAction))
    ensures
        r == worker_rule(state, event),
{
    match (state, event) {
        (WorkerState::Idle, WorkerEvent::Job) => (WorkerState::Running, WorkerAction::Run),
        (WorkerState::Running, WorkerEvent::JobFinished) => (
            WorkerState::Idle,
            WorkerAction::Receive,
        ),
        (WorkerState::Running, WorkerEvent::JobPanicked) => (
            WorkerState::Idle,
            WorkerAction::Receive,
        ),
        _ => (WorkerState::Stopped, WorkerAction::Exit),
    }
}

/// The number of workers of a pool, which is at least one.
pub fn worker_count(size: usize) -> (r: Option<usize>)
    ensures
        r == if size >= 1 {
            Some(size)
        } else {
            None::<usize>
        },
{
    if size >= 1 {
        Some(size)
    } else {
        None
    }
}

/// Where a worker stands after it took jobs that ended as `panicked` says,
/// one after the other.
pub open spec fn after_jobs(state: WorkerState, panicked: Seq<bool>) -> WorkerState
    decreases panicked.len(),
{
    if panicked.len() == 0 {
        state
    } else {
        let before = after_jobs(state, panicked.drop_last());
        let running = worker_rule(before, WorkerEvent::Job).0;
        worker_rule(
            running,
            if panicked.last() {
                WorkerEvent::JobPanicked
            } else {
                WorkerEvent::JobFinished
            },
        ).0
    }
}

/// However many jobs a worker took, and whichever of them panicked, it is
/// idle afterwards and runs the next job it receives.
pub proof fn lemma_worker_survives_panics(panicked: Seq<bool>)
    ensures
        after_jobs(WorkerState::Idle, panicked) == WorkerState::Idle,
        worker_rule(after_jobs(WorkerState::Idle, panicked), WorkerEvent::Job) == (
            WorkerState::Running,
            WorkerAction::Run,
        ),
    decreases panicked.len(),
{
    if panicked.len() > 0 {
        lemma_worker_survives_panics(panicked.drop_last());
    }
}

} // verus!
