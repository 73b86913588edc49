use std::collections::VecDeque;
use vstd::prelude::*;

verus! {

/// What a consumer gets from one attempt to dequeue.
pub enum Take<T> {
    /// The oldest pending task, now removed from the channel.
    Task(T),
    /// Nothing is pending but the channel is still open: wait and retry.
    Empty,
    /// The channel is closed and fully drained: the consumer should stop.
    Closed,
}

/// Mathematical model of a task channel.
///
/// `accepted` lists every task the channel ever accepted, in acceptance order;
/// the first `taken` of them have been handed to consumers and the rest are pending.
pub struct ChannelView<T> {
    pub accepted: Seq<T>,
    pub taken: nat,
    pub closed: bool,
}

impl<T> ChannelView<T> {
    pub open spec fn valid(self) -> bool {
        self.taken <= self.accepted.len()
    }

    /// The tasks still waiting for a consumer, oldest first.
    pub open spec fn pending(self) -> Seq<T> {
        self.accepted.subrange(self.taken as int, self.accepted.len() as int)
    }

    /// The tasks handed out so far, in the order they were handed out.
    pub open spec fn delivered(self) -> Seq<T> {
        self.accepted.subrange(0, self.taken as int)
    }
}

pub open spec fn empty_channel<T>() -> ChannelView<T> {
    ChannelView { accepted: Seq::empty(), taken: 0, closed: false }
}

/// Submitting appends to the accepted tasks while the channel is open; a
/// closed channel refuses the task and stays as it was.
pub open spec fn submit_spec<T>(v: ChannelView<T>, t: T) -> (ChannelView<T>, bool) {
    if v.closed {
        (v, false)
    } else {
        (ChannelView { accepted: v.accepted.push(t), ..v }, true)
    }
}

/// Taking hands out the oldest pending task, even once the channel is closed;
/// only a closed channel with nothing pending reports `Closed`.
pub open spec fn take_spec<T>(v: ChannelView<T>) -> (ChannelView<T>, Take<T>) {
    if v.taken < v.accepted.len() {
        (ChannelView { taken: v.taken + 1, ..v }, Take::Task(v.accepted[v.taken as int]))
    } else if v.closed {
        (v, Take::Closed)
    } else {
        (v, Take::Empty)
    }
}

pub open spec fn close_spec<T>(v: ChannelView<T>) -> ChannelView<T> {
    ChannelView { closed: true, ..v }
}

/// An unbounded FIFO channel of tasks with a one-way closed flag.
pub struct TaskChannel<T> {
    queue: VecDeque<T>,
    closed: bool,
    accepted: Ghost<Seq<T>>,
}

impl<T> TaskChannel<T> {
    pub closed spec fn view(&self) -> ChannelView<T> {
        ChannelView {
            accepted: self.accepted@,
            taken: (self.accepted@.len() - self.queue@.len()) as nat,
            closed: self.closed,
        }
    }

    /// The queue holds exactly the accepted tasks not yet handed out.
    pub closed spec fn wf(&self) -> bool {
        &&& self.queue@.len() <= self.accepted@.len()
        &&& self.queue@ == self.accepted@.subrange(
            self.accepted@.len() - self.queue@.len(),
            self.accepted@.len() as int,
        )
    }

    pub fn new() -> (r: Self)
        ensures
            r.wf(),
            r@ == empty_channel::<T>(),
    {
        let r = TaskChannel { queue: VecDeque::new(), closed: false, accepted: Ghost(Seq::empty()) };
        assert(r.queue@ =~= r.accepted@.subrange(0, 0));
        r
    }

    /// Enqueues `task` unless the channel is closed, in which case the task is
    /// handed back untouched.
    pub fn submit(&mut self, task: T) -> (r: Result<(), T>)
        requires
            old(self).wf(),
        ensures
            final(self).wf(),
            final(self)@.valid(),
            (final(self)@, r is Ok) == submit_spec(old(self)@, task),
            r matches Err(t) ==> t == task,
    {
        if self.closed {
            return Err(task);
        }
        proof {
            assert(self.queue@ =~= self.accepted@.subrange(
                self.accepted@.len() - self.queue@.len(),
                self.accepted@.len() as int,
            ));
        }
        self.accepted = Ghost(self.accepted@.push(task));
        self.queue.push_back(task);
        assert(self.queue@ =~= self.accepted@.subrange(
            self.accepted@.len() - self.queue@.len(),
            self.accepted@.len() as int,
        ));
        Ok(())
    }

    /// Removes and returns the oldest pending task, or says why there is none.
    pub fn take(&mut self) -> (r: Take<T>)
        requires
            old(self).wf(),
        ensures
            final(self).wf(),
            final(self)@.valid(),
            (final(self)@, r) == take_spec(old(self)@),
    {
        match self.queue.pop_front() {
            Some(t) => {
                assert(self.queue@ =~= self.accepted@.subrange(
                    self.accepted@.len() - self.queue@.len(),
                    self.accepted@.len() as int,
                ));
                Take::Task(t)
            },
            None => {
                if self.closed {
                    Take::Closed
                } else {
                    Take::Empty
                }
            },
        }
    }

    /// Closes the producer side: no further task is accepted, but pending ones
    /// are still delivered.
    pub fn close(&mut self)
        requires
            old(self).wf(),
        ensures
            final(self).wf(),
            final(self)@ == close_spec(old(self)@),
    {
        self.closed = true;
    }

    pub fn is_closed(&self) -> (r: bool)
        ensures
            r == self@.closed,
    {
        self.closed
    }

    /// The number of tasks waiting for a consumer.
    pub fn pending_len(&self) -> (r: usize)
        requires
            self.wf(),
        ensures
            r == self@.pending().len(),
    {
        self.queue.len()
    }
}

} // verus!
