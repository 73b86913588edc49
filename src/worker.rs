use vstd::prelude::*;

verus! {

/// Where one worker thread stands in its loop.
#[derive(Clone, Copy, Debug, PartialEq, Eq, Structural)]
pub enum WorkerState {
    /// Waiting to dequeue its next task.
    Idle,
    /// Executing a claimed task, outside any lock.
    Running,
    /// Its loop has ended; absorbing.
    Terminated,
}

/// What a worker observed.
#[derive(Clone, Copy, Debug, PartialEq, Eq, Structural)]
pub enum Event {
    /// A dequeue attempt returned a task.
    Claimed,
    /// A dequeue attempt found nothing pending on an open channel.
    NothingPending,
    /// A dequeue attempt found the channel closed and drained.
    ChannelClosed,
    /// The lock guarding the consumer side could not be acquired.
    LockFailed,
    /// The task being executed returned.
    Finished,
}

/// What the worker thread does next.
#[derive(Clone, Copy, Debug, PartialEq, Eq, Structural)]
pub enum Action {
    /// Execute the task just claimed.
    Run,
    /// Block until a task is submitted or the channel closes, then dequeue again.
    Block,
    /// Attempt to dequeue the next task.
    Dequeue,
    /// Leave the loop.
    Exit,
}

/// The worker state machine. Events that cannot occur in a state leave it as
/// it is; `Terminated` is never left.
pub open spec fn step_spec(s: WorkerState, e: Event) -> (WorkerState, Action) {
    match (s, e) {
        (WorkerState::Idle, Event::Claimed) => (WorkerState::Running, Action::Run),
        (WorkerState::Idle, Event::NothingPending) => (WorkerState::Idle, Action::Block),
        (WorkerState::Idle, Event::ChannelClosed) => (WorkerState::Terminated, Action::Exit),
        (WorkerState::Idle, Event::LockFailed) => (WorkerState::Terminated, Action::Exit),
        (WorkerState::Idle, Event::Finished) => (WorkerState::Idle, Action::Dequeue),
        (WorkerState::Running, Event::Finished) => (WorkerState::Idle, Action::Dequeue),
        (WorkerState::Running, _) => (WorkerState::Running, Action::Run),
        (WorkerState::Terminated, _) => (WorkerState::Terminated, Action::Exit),
    }
}

impl WorkerState {
    pub fn step(self, e: Event) -> (r: (WorkerState, Action))
        ensures
            r == step_spec(self, e),
    {
        match self {
            WorkerState::Idle => match e {
                Event::Claimed => (WorkerState::Running, Action::Run),
                Event::NothingPending => (WorkerState::Idle, Action::Block),
                Event::ChannelClosed => (WorkerState::Terminated, Action::Exit),
                Event::LockFailed => (WorkerState::Terminated, Action::Exit),
                Event::Finished => (WorkerState::Idle, Action::Dequeue),
            },
            WorkerState::Running => match e {
                Event::Finished => (WorkerState::Idle, Action::Dequeue),
                _ => (WorkerState::Running, Action::Run),
            },
            WorkerState::Terminated => (WorkerState::Terminated, Action::Exit),
        }
    }
}

} // verus!
