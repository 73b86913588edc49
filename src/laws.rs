use vstd::prelude::*;

use crate::channel::{close_spec, submit_spec, take_spec, ChannelView, Take};
use crate::pool::{
    all_terminated, claim_spec, exec_spec, pool_inv, PoolView,
};
use crate::worker::WorkerState;

verus! {

/// One operation on a channel, from any producer or consumer.
pub enum ChannelOp<T> {
    Submit(T),
    Take,
    Close,
}

/// Applies one operation; also returns the task handed out, if any, and the
/// task accepted, if any.
pub open spec fn apply_op<T>(v: ChannelView<T>, op: ChannelOp<T>) -> (ChannelView<T>, Seq<T>, Seq<T>) {
    match op {
        ChannelOp::Submit(t) => {
            let (v1, ok) = submit_spec(v, t);
            (v1, Seq::empty(), if ok { seq![t] } else { Seq::empty() })
        },
        ChannelOp::Take => {
            let (v1, r) = take_spec(v);
            (v1, match r { Take::Task(t) => seq![t], _ => Seq::empty() }, Seq::empty())
        },
        ChannelOp::Close => (close_spec(v), Seq::empty(), Seq::empty()),
    }
}

/// Applies a sequence of operations in order (one serialization of whatever
/// producers and consumers did); returns the final channel, every task handed
/// out in order, and every task accepted in order.
pub open spec fn run_ops<T>(v: ChannelView<T>, ops: Seq<ChannelOp<T>>) -> (ChannelView<T>, Seq<T>, Seq<T>)
    decreases ops.len(),
{
    if ops.len() == 0 {
        (v, Seq::empty(), Seq::empty())
    } else {
        let (v1, d1, a1) = apply_op(v, ops[0]);
        let (v2, d2, a2) = run_ops(v1, ops.drop_first());
        (v2, d1 + d2, a1 + a2)
    }
}

/// Each accepted task is handed out at most once, none is skipped, and they
/// leave in the order they were accepted: whatever operations follow, the
/// tasks handed out are exactly the next accepted ones in acceptance order,
/// and acceptance only ever appends. A closed channel accepts nothing more.
pub proof fn lemma_delivery_in_order<T>(v: ChannelView<T>, ops: Seq<ChannelOp<T>>)
    requires
        v.valid(),
    ensures
        ({
            let (w, delivered, admitted) = run_ops(v, ops);
            &&& w.valid()
            &&& w.accepted == v.accepted + admitted
            &&& v.taken <= w.taken
            &&& delivered == w.accepted.subrange(v.taken as int, w.taken as int)
            &&& v.closed ==> w.closed && admitted.len() == 0
        }),
    decreases ops.len(),
{
    if ops.len() > 0 {
        let (v1, d1, a1) = apply_op(v, ops[0]);
        lemma_delivery_in_order(v1, ops.drop_first());
        let (w, d2, a2) = run_ops(v1, ops.drop_first());
        assert(w.accepted =~= v.accepted + (a1 + a2));
        assert(v1.accepted.subrange(v.taken as int, v1.taken as int) =~= d1);
        assert(w.accepted.subrange(0, v1.accepted.len() as int) =~= v1.accepted);
        assert(d1 + d2 =~= w.accepted.subrange(v.taken as int, w.taken as int));
    } else {
        assert(v.accepted + Seq::<T>::empty() =~= v.accepted);
        assert(v.accepted.subrange(v.taken as int, v.taken as int) =~= Seq::<T>::empty());
    }
}

/// When one caller submits `a` and then `b` to an open channel, `a` is
/// dequeued before `b`: in any later run, `b` is never handed out unless `a`
/// was handed out just before it.
pub proof fn lemma_submission_order<T>(v: ChannelView<T>, a: T, b: T, ops: Seq<ChannelOp<T>>)
    requires
        v.valid(),
        !v.closed,
    ensures
        ({
            let n = v.accepted.len() as int;
            let v1 = submit_spec(submit_spec(v, a).0, b).0;
            let (w, delivered, admitted) = run_ops(v1, ops);
            &&& submit_spec(v, a).1 && submit_spec(submit_spec(v, a).0, b).1
            &&& w.accepted[n] == a
            &&& w.accepted[n + 1] == b
            &&& w.taken > n + 1 ==> w.delivered()[n] == a && w.delivered()[n + 1] == b
        }),
{
    let v1 = submit_spec(submit_spec(v, a).0, b).0;
    lemma_delivery_in_order(v1, ops);
    let (w, delivered, admitted) = run_ops(v1, ops);
    let n = v.accepted.len() as int;
    assert(w.accepted[n] == v1.accepted[n]);
    assert(w.accepted[n + 1] == v1.accepted[n + 1]);
}

/// Takes from the channel `k` times in a row.
pub open spec fn take_times<T>(v: ChannelView<T>, k: nat) -> (ChannelView<T>, Seq<T>)
    decreases k,
{
    if k == 0 {
        (v, Seq::empty())
    } else {
        let (v1, r) = take_spec(v);
        let (v2, d) = take_times(v1, (k - 1) as nat);
        (v2, match r { Take::Task(t) => seq![t] + d, _ => d })
    }
}

/// Closing never abandons pending work: after the channel is closed, taking
/// hands out every pending task, oldest first, and only then reports `Closed`.
pub proof fn lemma_closed_channel_drains<T>(v: ChannelView<T>)
    requires
        v.valid(),
    ensures
        ({
            let c = close_spec(v);
            let (w, delivered) = take_times(c, v.pending().len());
            &&& delivered == v.pending()
            &&& w.taken == w.accepted.len()
            &&& take_spec(w).1 == Take::<T>::Closed
        }),
    decreases v.pending().len(),
{
    let c = close_spec(v);
    if v.pending().len() > 0 {
        let v1 = take_spec(v).0;
        lemma_closed_channel_drains(v1);
        assert(take_spec(c).0 == close_spec(v1));
        assert(v.pending() =~= seq![v.accepted[v.taken as int]] + v1.pending());
    } else {
        assert(v.pending() =~= Seq::<T>::empty());
    }
}

/// Teardown drains: once every worker of a pool with at least one worker has
/// terminated, submission is closed, every accepted task was handed out, and no
/// further task can be submitted or claimed.
pub proof fn lemma_drained_on_teardown<T>(p: PoolView<T>, task: T)
    requires
        pool_inv(p),
        p.workers.len() > 0,
        all_terminated(p.workers),
    ensures
        p.channel.closed,
        p.channel.delivered() == p.channel.accepted,
        p.channel.pending().len() == 0,
        exec_spec(p, task) == (p, false),
        take_spec(p.channel).1 == Take::<T>::Closed,
{
    assert(p.workers[0] == WorkerState::Terminated);
    assert(p.channel.delivered() =~= p.channel.accepted);
}

/// Claims once for each of the workers `0..k`, in that order.
pub open spec fn claim_first<T>(p: PoolView<T>, k: nat) -> PoolView<T>
    decreases k,
{
    if k == 0 {
        p
    } else {
        claim_spec(claim_first(p, (k - 1) as nat), k - 1).0
    }
}

/// With `n` idle workers and at least `n` pending tasks, one dequeue by each
/// worker leaves all `n` running at once, each on its own task: the next `n`
/// pending ones.
pub proof fn lemma_all_workers_busy<T>(p: PoolView<T>)
    requires
        pool_inv(p),
        forall|i: int| 0 <= i < p.workers.len() ==> p.workers[i] == WorkerState::Idle,
        p.channel.pending().len() >= p.workers.len(),
    ensures
        ({
            let q = claim_first(p, p.workers.len());
            &&& forall|i: int| 0 <= i < q.workers.len() ==> q.workers[i] == WorkerState::Running
            &&& q.workers.len() == p.workers.len()
            &&& q.channel.accepted == p.channel.accepted
            &&& q.channel.taken == p.channel.taken + p.workers.len()
        }),
{
    lemma_claim_first(p, p.workers.len());
}

proof fn lemma_claim_first<T>(p: PoolView<T>, k: nat)
    requires
        pool_inv(p),
        forall|i: int| 0 <= i < p.workers.len() ==> p.workers[i] == WorkerState::Idle,
        p.channel.pending().len() >= p.workers.len(),
        k <= p.workers.len(),
    ensures
        ({
            let q = claim_first(p, k);
            &&& q.workers.len() == p.workers.len()
            &&& forall|i: int| 0 <= i < k ==> q.workers[i] == WorkerState::Running
            &&& forall|i: int| k <= i < q.workers.len() ==> q.workers[i] == WorkerState::Idle
            &&& q.channel.accepted == p.channel.accepted
            &&& q.channel.closed == p.channel.closed
            &&& q.channel.taken == p.channel.taken + k
        }),
    decreases k,
{
    if k > 0 {
        lemma_claim_first(p, (k - 1) as nat);
    }
}

} // verus!
