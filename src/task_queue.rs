//! The FIFO queue through which every piece of engine work passes, and the
//! decisions of the one worker that drains it.
use vstd::prelude::*;
use std::collections::VecDeque;

verus! {

/// A submission was made after shutdown had begun.
#[derive(Debug, Clone, Copy, PartialEq, Eq, Structural)]
pub enum QueueClosed {
    Closed,
}

/// What the worker does next.
pub enum WorkerStep<T> {
    /// Execute the carried task, the oldest one pending.
    Run(T),
    /// Nothing is queued: sleep until a submission or shutdown wakes the worker.
    Wait,
    /// Nothing is queued and no more work can arrive: the worker ends.
    Exit,
}

/// One event at the queue, in the order in which the queue's lock saw it.
pub enum QueueEvent<T> {
    Submit(T),
    Take,
    Close,
}

/// One event applied to the queue: what is then pending, what the worker took, and whether
/// the queue is closed.
pub open spec fn step<T>(pending: Seq<T>, closed: bool, event: QueueEvent<T>) -> (Seq<T>, Seq<T>, bool) {
    match event {
        QueueEvent::Submit(t) => (if closed { pending } else { pending.push(t) }, Seq::empty(), closed),
        QueueEvent::Take => if pending.len() > 0 {
            (pending.drop_first(), seq![pending[0]], closed)
        } else {
            (pending, Seq::empty(), closed)
        },
        QueueEvent::Close => (pending, Seq::empty(), true),
    }
}

/// The queue after `events`, starting from `pending` and `closed`: what is still pending,
/// what the worker took (in order), and whether the queue is closed.
pub open spec fn replay<T>(pending: Seq<T>, closed: bool, events: Seq<QueueEvent<T>>) -> (Seq<T>, Seq<T>, bool)
    decreases events.len(),
{
    if events.len() == 0 {
        (pending, Seq::empty(), closed)
    } else {
        let s = step(pending, closed, events[0]);
        let rest = replay(s.0, s.2, events.drop_first());
        (rest.0, s.1 + rest.1, rest.2)
    }
}

/// The tasks that `events` get accepted into the queue, in submission order.
pub open spec fn accepted<T>(closed: bool, events: Seq<QueueEvent<T>>) -> Seq<T>
    decreases events.len(),
{
    if events.len() == 0 {
        Seq::empty()
    } else {
        match events[0] {
            QueueEvent::Submit(t) => if closed {
                accepted(closed, events.drop_first())
            } else {
                seq![t] + accepted(closed, events.drop_first())
            },
            QueueEvent::Close => accepted(true, events.drop_first()),
            QueueEvent::Take => accepted(closed, events.drop_first()),
        }
    }
}

/// The worker sees the accepted submissions in one total order, the order in which they were
/// accepted: what it has taken followed by what is still pending is exactly what was pending
/// before followed by every accepted submission. So no two submissions of one thread are ever
/// swapped, and none is lost or run twice.
pub proof fn lemma_worker_order_is_submission_order<T>(pending: Seq<T>, closed: bool, events: Seq<QueueEvent<T>>)
    ensures
        replay(pending, closed, events).1 + replay(pending, closed, events).0 == pending + accepted(closed, events),
    decreases events.len(),
{
    if events.len() > 0 {
        let rest = events.drop_first();
        let s = step(pending, closed, events[0]);
        lemma_worker_order_is_submission_order(s.0, s.2, rest);
        let r = replay(s.0, s.2, rest);
        assert(s.1 + r.1 + r.0 =~= s.1 + (r.1 + r.0));
        match events[0] {
            QueueEvent::Submit(t) => {
                if !closed {
                    assert(pending.push(t) + accepted(closed, rest) =~= pending + (seq![t] + accepted(closed, rest)));
                }
                assert(Seq::<T>::empty() + (r.1 + r.0) =~= r.1 + r.0);
            },
            QueueEvent::Take => {
                if pending.len() > 0 {
                    assert(seq![pending[0]] + (pending.drop_first() + accepted(closed, rest)) =~= pending + accepted(closed, rest));
                } else {
                    assert(Seq::<T>::empty() + (r.1 + r.0) =~= r.1 + r.0);
                }
            },
            QueueEvent::Close => {
                assert(Seq::<T>::empty() + (r.1 + r.0) =~= r.1 + r.0);
            },
        }
    } else {
        assert(Seq::<T>::empty() + pending =~= pending + accepted(closed, events));
    }
}

/// The tasks waiting for the worker, oldest first, and whether shutdown has begun.
pub struct TaskQueue<T> {
    tasks: VecDeque<T>,
    closed: bool,
}

impl<T> View for TaskQueue<T> {
    type V = Seq<T>;

    closed spec fn view(&self) -> Seq<T> {
        self.tasks@
    }
}

impl<T> TaskQueue<T> {
    pub closed spec fn spec_is_closed(&self) -> bool {
        self.closed
    }

    /// An open queue with nothing pending.
    pub fn new() -> (r: Self)
        ensures
            r@ == Seq::<T>::empty(),
            !r.spec_is_closed(),
    {
        TaskQueue { tasks: VecDeque::new(), closed: false }
    }

    pub fn len(&self) -> (r: usize)
        ensures
            r == self@.len(),
    {
        self.tasks.len()
    }

    #[verifier::when_used_as_spec(spec_is_closed)]
    pub fn is_closed(&self) -> (r: bool)
        ensures
            r == self.spec_is_closed(),
    {
        self.closed
    }

    /// Appends `task` behind everything pending, unless shutdown has begun.
    pub fn submit(&mut self, task: T) -> (r: Result<(), QueueClosed>)
        ensures
            final(self).spec_is_closed() == old(self).spec_is_closed(),
            old(self).spec_is_closed() ==> r == Err::<(), QueueClosed>(QueueClosed::Closed) && final(self)@ == old(self)@,
            !old(self).spec_is_closed() ==> r is Ok && final(self)@ == old(self)@.push(task),
            ({
                let s = step(old(self)@, old(self).spec_is_closed(), QueueEvent::Submit(task));
                final(self)@ == s.0 && final(self).spec_is_closed() == s.2
            }),
    {
        if self.closed {
            Err(QueueClosed::Closed)
        } else {
            self.tasks.push_back(task);
            Ok(())
        }
    }

    /// Begins shutdown: later submissions are refused, pending tasks still run.
    pub fn close(&mut self)
        ensures
            final(self).spec_is_closed(),
            final(self)@ == old(self)@,
    {
        self.closed = true;
    }

    /// The worker's decision: run the oldest pending task, wait for work, or end once the
    /// queue is closed and drained.
    pub fn next_step(&mut self) -> (r: WorkerStep<T>)
        ensures
            final(self).spec_is_closed() == old(self).spec_is_closed(),
            old(self)@.len() > 0 ==> r == WorkerStep::Run(old(self)@[0]) && final(self)@ == old(self)@.drop_first(),
            old(self)@.len() == 0 ==> final(self)@ == old(self)@ && (if old(self).spec_is_closed() {
                r is Exit
            } else {
                r is Wait
            }),
            ({
                let s = step(old(self)@, old(self).spec_is_closed(), QueueEvent::Take);
                &&& final(self)@ == s.0
                &&& s.1 == match r {
                    WorkerStep::Run(t) => seq![t],
                    _ => Seq::<T>::empty(),
                }
            }),
    {
        match self.tasks.pop_front() {
            Some(t) => WorkerStep::Run(t),
            None => {
                if self.closed {
                    WorkerStep::Exit
                } else {
                    WorkerStep::Wait
                }
            },
        }
    }
}

} // verus!
