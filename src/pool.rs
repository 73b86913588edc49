use vstd::prelude::*;

use crate::channel::{close_spec, empty_channel, submit_spec, take_spec, ChannelView, Take, TaskChannel};
use crate::worker::{step_spec, Event, WorkerState};

verus! {

/// Mathematical model of a pool: its channel and the state of each worker.
pub struct PoolView<T> {
    pub channel: ChannelView<T>,
    pub workers: Seq<WorkerState>,
}

/// The event a worker observes from the outcome of a dequeue attempt.
pub open spec fn take_event<T>(t: Take<T>) -> Event {
    match t {
        Take::Task(_) => Event::Claimed,
        Take::Empty => Event::NothingPending,
        Take::Closed => Event::ChannelClosed,
    }
}

pub open spec fn all_terminated(workers: Seq<WorkerState>) -> bool {
    forall|i: int| 0 <= i < workers.len() ==> workers[i] == WorkerState::Terminated
}

/// A worker only terminates after seeing the channel closed and drained, and a
/// closed channel accepts nothing, so the channel stays closed and drained.
pub open spec fn pool_inv<T>(p: PoolView<T>) -> bool {
    &&& p.channel.valid()
    &&& forall|i: int|
        0 <= i < p.workers.len() && p.workers[i] == WorkerState::Terminated ==> {
            &&& p.channel.closed
            &&& p.channel.taken == p.channel.accepted.len()
        }
}

pub open spec fn new_pool_spec<T>(n: nat) -> PoolView<T> {
    PoolView { channel: empty_channel::<T>(), workers: Seq::new(n, |i: int| WorkerState::Idle) }
}

pub open spec fn exec_spec<T>(p: PoolView<T>, task: T) -> (PoolView<T>, bool) {
    let (c, ok) = submit_spec(p.channel, task);
    (PoolView { channel: c, ..p }, ok)
}

/// Idle worker `w` dequeues once and moves on according to what it got.
pub open spec fn claim_spec<T>(p: PoolView<T>, w: int) -> (PoolView<T>, Take<T>) {
    let (c, t) = take_spec(p.channel);
    let s = step_spec(p.workers[w], take_event(t)).0;
    (PoolView { channel: c, workers: p.workers.update(w, s) }, t)
}

/// Running worker `w` returns from its task.
pub open spec fn finish_spec<T>(p: PoolView<T>, w: int) -> PoolView<T> {
    PoolView { workers: p.workers.update(w, step_spec(p.workers[w], Event::Finished).0), ..p }
}

pub open spec fn shutdown_spec<T>(p: PoolView<T>) -> PoolView<T> {
    PoolView { channel: close_spec(p.channel), ..p }
}

/// The dispatch core of a fixed-size worker pool: the task channel together
/// with the state of every worker. Threads that run the tasks drive it through
/// `claim` and `finish`; callers submit through `exec`.
pub struct Pool<T> {
    channel: TaskChannel<T>,
    workers: Vec<WorkerState>,
}

impl<T> Pool<T> {
    pub closed spec fn view(&self) -> PoolView<T> {
        PoolView { channel: self.channel@, workers: self.workers@ }
    }

    pub closed spec fn wf(&self) -> bool {
        self.channel.wf() && pool_inv(self@)
    }

    /// A pool for `num_threads` workers, all idle, with an open empty channel.
    pub fn new(num_threads: u8) -> (r: Self)
        ensures
            r.wf(),
            r@ == new_pool_spec::<T>(num_threads as nat),
    {
        let mut workers: Vec<WorkerState> = Vec::new();
        let mut i: u8 = 0;
        while i < num_threads
            invariant
                i <= num_threads,
                workers@ == Seq::new(i as nat, |j: int| WorkerState::Idle),
            decreases num_threads - i,
        {
            workers.push(WorkerState::Idle);
            i = i + 1;
            assert(workers@ =~= Seq::new(i as nat, |j: int| WorkerState::Idle));
        }
        let r = Pool { channel: TaskChannel::new(), workers };
        assert(r@ == new_pool_spec::<T>(num_threads as nat));
        r
    }

    /// Submits `task`. While the pool is open this always succeeds and never
    /// waits for a worker; after `shutdown` the task is handed back unrun.
    pub fn exec(&mut self, task: T) -> (r: Result<(), T>)
        requires
            old(self).wf(),
        ensures
            final(self).wf(),
            (final(self)@, r is Ok) == exec_spec(old(self)@, task),
            r matches Err(t) ==> t == task,
    {
        self.channel.submit(task)
    }

    /// Idle worker `worker` dequeues once: it gets the oldest pending task and
    /// starts running it, finds nothing yet and stays idle, or finds the
    /// channel closed and drained and terminates.
    pub fn claim(&mut self, worker: usize) -> (r: Take<T>)
        requires
            old(self).wf(),
            worker < old(self)@.workers.len(),
            old(self)@.workers[worker as int] == WorkerState::Idle,
        ensures
            final(self).wf(),
            (final(self)@, r) == claim_spec(old(self)@, worker as int),
    {
        let t = self.channel.take();
        let e = match &t {
            Take::Task(_) => Event::Claimed,
            Take::Empty => Event::NothingPending,
            Take::Closed => Event::ChannelClosed,
        };
        let (s, _) = self.workers[worker].step(e);
        self.workers.set(worker, s);
        assert(self@ == claim_spec(old(self)@, worker as int).0);
        t
    }

    /// Running worker `worker` has returned from its task and is idle again.
    pub fn finish(&mut self, worker: usize)
        requires
            old(self).wf(),
            worker < old(self)@.workers.len(),
            old(self)@.workers[worker as int] == WorkerState::Running,
        ensures
            final(self).wf(),
            final(self)@ == finish_spec(old(self)@, worker as int),
    {
        let (s, _) = self.workers[worker].step(Event::Finished);
        self.workers.set(worker, s);
        assert(self@ =~= finish_spec(old(self)@, worker as int));
    }

    /// Closes submission. Pending tasks are still handed to workers, which
    /// terminate once nothing is left.
    pub fn shutdown(&mut self)
        requires
            old(self).wf(),
        ensures
            final(self).wf(),
            final(self)@ == shutdown_spec(old(self)@),
    {
        self.channel.close();
    }

    /// The number of workers, fixed at construction.
    pub fn num_threads(&self) -> (r: usize)
        ensures
            r == self@.workers.len(),
    {
        self.workers.len()
    }

    pub fn worker_state(&self, worker: usize) -> (r: WorkerState)
        requires
            worker < self@.workers.len(),
        ensures
            r == self@.workers[worker as int],
    {
        self.workers[worker]
    }

    /// The number of submitted tasks no worker has claimed yet.
    pub fn pending_len(&self) -> (r: usize)
        requires
            self.wf(),
        ensures
            r == self@.channel.pending().len(),
    {
        self.channel.pending_len()
    }

    pub fn is_shut_down(&self) -> (r: bool)
        ensures
            r == self@.channel.closed,
    {
        self.channel.is_closed()
    }

    /// Whether every worker has left its loop.
    pub fn is_drained(&self) -> (r: bool)
        ensures
            r == all_terminated(self@.workers),
    {
        let mut i: usize = 0;
        while i < self.workers.len()
            invariant
                i <= self.workers@.len(),
                forall|j: int| 0 <= j < i ==> self.workers@[j] == WorkerState::Terminated,
            decreases self.workers@.len() - i,
        {
            if self.workers[i] != WorkerState::Terminated {
                return false;
            }
            i = i + 1;
        }
        true
    }
}

} // verus!
