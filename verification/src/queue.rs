//! First in, first out: what a run of pushes and takes does to a queue. The scheduler
//! steps that queue broadcasts and calls are such pushes and takes.
use vstd::prelude::*;

verus! {

/// One step on a queue: an item joins at the back, or the front item is taken.
pub enum QueueOp<T> {
    Push(T),
    Take,
}

/// One step: the queue after it, and the item it took; a take from an empty queue
/// takes nothing.
pub open spec fn queue_step<T>(q: Seq<T>, op: QueueOp<T>) -> (Seq<T>, Option<T>) {
    match op {
        QueueOp::Push(x) => (q.push(x), None),
        QueueOp::Take => if q.len() > 0 {
            (q.drop_first(), Some(q[0]))
        } else {
            (q, None)
        },
    }
}

/// A run of steps: the queue after it, and the items taken, in the order taken.
pub open spec fn queue_run<T>(q: Seq<T>, ops: Seq<QueueOp<T>>) -> (Seq<T>, Seq<T>)
    decreases ops.len(),
{
    if ops.len() == 0 {
        (q, Seq::empty())
    } else {
        let (q1, taken) = queue_run(q, ops.drop_last());
        let (q2, out) = queue_step(q1, ops.last());
        (
            q2,
            match out {
                Some(x) => taken.push(x),
                None => taken,
            },
        )
    }
}

/// The items that a run pushes, in order.
pub open spec fn pushed<T>(ops: Seq<QueueOp<T>>) -> Seq<T>
    decreases ops.len(),
{
    if ops.len() == 0 {
        Seq::empty()
    } else {
        match ops.last() {
            QueueOp::Push(x) => pushed(ops.drop_last()).push(x),
            QueueOp::Take => pushed(ops.drop_last()),
        }
    }
}

/// The number of takes in a run.
pub open spec fn take_count<T>(ops: Seq<QueueOp<T>>) -> nat
    decreases ops.len(),
{
    if ops.len() == 0 {
        0
    } else {
        match ops.last() {
            QueueOp::Push(_) => take_count(ops.drop_last()),
            QueueOp::Take => take_count(ops.drop_last()) + 1,
        }
    }
}

/// Over any run, items leave in the order they came: what was taken, followed by what
/// is left, is the starting queue followed by what was pushed. In particular, while the
/// items queued at the start last, the k-th take takes the k-th of them, and items
/// pushed meanwhile wait behind them.
pub proof fn lemma_fifo<T>(q: Seq<T>, ops: Seq<QueueOp<T>>)
    ensures
        queue_run(q, ops).1 + queue_run(q, ops).0 == q + pushed(ops),
        take_count(ops) <= q.len() ==> queue_run(q, ops).1 == q.take(take_count(ops) as int),
    decreases ops.len(),
{
    if ops.len() > 0 {
        let d = ops.drop_last();
        lemma_fifo(q, d);
        let (q1, t1) = queue_run(q, d);
        let (q2, t2) = queue_run(q, ops);
        assert((t1 + q1).len() == (q + pushed(d)).len());
        match ops.last() {
            QueueOp::Push(x) => {
                assert(q2 == q1.push(x) && t2 == t1);
                assert(pushed(ops) == pushed(d).push(x));
                assert(t1 + q1.push(x) =~= (t1 + q1).push(x));
                assert((q + pushed(d)).push(x) =~= q + pushed(d).push(x));
            },
            QueueOp::Take => {
                if q1.len() > 0 {
                    assert(t2 + q2 =~= t1 + q1);
                } else {
                    assert(t2 + q2 =~= t1 + q1);
                }
                if take_count(ops) <= q.len() {
                    assert(t1 =~= q.take(take_count(d) as int));
                    assert(q1.len() > 0);
                    assert(q1[0] == (t1 + q1)[t1.len() as int]);
                    assert((q + pushed(d))[t1.len() as int] == q[t1.len() as int]);
                    assert(t2 =~= q.take(take_count(ops) as int));
                }
            },
        }
    }
}

} // verus!
