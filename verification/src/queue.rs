//! A bounded FIFO queue of tasks that backs non-blocking execution. The
//! runtime around the library suspends a producer while the queue is full;
//! here that moment is the `Timeout` outcome, on which the caller retries.
use vstd::prelude::*;

use crate::model::Task;
use crate::model::TaskV;

verus! {

/// Why a queue operation did not complete.
#[derive(Debug, Clone, Copy, PartialEq, Eq, Structural)]
pub enum TaskQueueError {
    /// The queue is closed; nothing can be pushed or taken any more.
    Closed,
    /// The operation would have to wait: the queue is full (push) or
    /// empty (take).
    Timeout,
}

/// A FIFO queue of tasks.
pub trait TaskQueue: Sized {
    /// The tasks in the queue, oldest first.
    spec fn items(&self) -> Seq<TaskV>;

    /// Whether the queue is closed.
    spec fn closed(&self) -> bool;

    /// Whether a push would have to wait.
    spec fn full(&self) -> bool;

    /// Appends a task at the tail. Succeeds exactly when the queue is open
    /// and has room.
    fn push(&mut self, task: Task) -> (r: Result<(), TaskQueueError>)
        ensures
            final(self).closed() == old(self).closed(),
            !old(self).closed() && !old(self).full() ==> r is Ok,
            match r {
                Ok(()) => !old(self).closed() && !old(self).full() && final(self).items() == old(
                    self,
                ).items().push(task@),
                Err(TaskQueueError::Closed) => old(self).closed() && final(self).items() == old(
                    self,
                ).items(),
                Err(TaskQueueError::Timeout) => !old(self).closed() && old(self).full()
                    && final(self).items() == old(self).items(),
            },
    ;

    /// Removes and returns the task at the head. Succeeds exactly when the
    /// queue is open and non-empty.
    fn take(&mut self) -> (r: Result<Task, TaskQueueError>)
        ensures
            final(self).closed() == old(self).closed(),
            !old(self).closed() && old(self).items().len() > 0 ==> r is Ok,
            match r {
                Ok(t) => !old(self).closed() && old(self).items().len() > 0 && t@ == old(
                    self,
                ).items()[0] && final(self).items() == old(self).items().drop_first(),
                Err(TaskQueueError::Closed) => old(self).closed() && final(self).items() == old(
                    self,
                ).items(),
                Err(TaskQueueError::Timeout) => !old(self).closed() && old(self).items().len() == 0
                    && final(self).items() == old(self).items(),
            },
    ;
}

/// The reference queue: a list bounded by a capacity chosen at
/// construction, plus a closed flag.
#[derive(Debug)]
pub struct BoundedTaskQueue {
    pub entries: Vec<Task>,
    pub capacity: usize,
    pub is_closed: bool,
}

impl BoundedTaskQueue {
    /// The capacity the queue was made with.
    pub open spec fn cap(&self) -> nat {
        self.capacity as nat
    }

    /// A fresh, open, empty queue of the given capacity.
    pub fn new(capacity: usize) -> (r: BoundedTaskQueue)
        ensures
            r.items() == Seq::<TaskV>::empty(),
            !r.closed(),
            r.cap() == capacity,
    {
        let r = BoundedTaskQueue { entries: Vec::new(), capacity, is_closed: false };
        proof {
            assert(r.items() =~= Seq::<TaskV>::empty());
        }
        r
    }

    /// Closes the queue; pushes and takes fail from here on.
    pub fn close(&mut self)
        ensures
            final(self).closed(),
            final(self).items() == old(self).items(),
            final(self).cap() == old(self).cap(),
    {
        self.is_closed = true;
    }

    /// How many tasks sit in the queue.
    pub fn len(&self) -> (r: usize)
        ensures
            r == self.items().len(),
    {
        self.entries.len()
    }
}

impl TaskQueue for BoundedTaskQueue {
    open spec fn items(&self) -> Seq<TaskV> {
        self.entries@.map_values(|t: Task| t@)
    }

    open spec fn closed(&self) -> bool {
        self.is_closed
    }

    open spec fn full(&self) -> bool {
        self.items().len() >= self.cap()
    }

    fn push(&mut self, task: Task) -> (r: Result<(), TaskQueueError>) {
        if self.is_closed {
            return Err(TaskQueueError::Closed);
        }
        if self.entries.len() >= self.capacity {
            return Err(TaskQueueError::Timeout);
        }
        let ghost pre = self.items();
        self.entries.push(task);
        proof {
            assert(self.items() =~= pre.push(task@));
        }
        Ok(())
    }

    fn take(&mut self) -> (r: Result<Task, TaskQueueError>) {
        if self.is_closed {
            return Err(TaskQueueError::Closed);
        }
        if self.entries.len() == 0 {
            return Err(TaskQueueError::Timeout);
        }
        let ghost pre = self.items();
        let t = self.entries.remove(0);
        proof {
            assert(self.items() =~= pre.drop_first());
        }
        Ok(t)
    }
}

} // verus!
