//! The task processor: where a new task runs.

use vstd::prelude::*;
use crate::controller_pool::ControllerPool;

verus! {

/// Where a task goes.
pub enum Placement {
    /// A task reader is configured for the task's name: it runs on the reader.
    Reader,
    /// It runs on controller `index` of the pool; the task is tied to worker
    /// `worker_id`; when `created`, the controller is new and the client is
    /// to run on another arbiter than the controller.
    Controller { index: usize, worker_id: String, created: bool },
    /// No controller can take it now: it goes to the reprocessor.
    Reprocess,
}

/// Places a new task.
pub fn process_task(has_reader: bool, task_uuid: &String, pool: &mut ControllerPool) -> (r: Placement)
    requires
        old(pool)@.wf(),
    ensures
        final(pool)@.wf(),
        has_reader ==> r is Reader && final(pool)@ == old(pool)@,
        !has_reader ==> final(pool)@ == old(pool)@.next(task_uuid@).0 && match (r, old(pool)@.next(task_uuid@).1) {
            (Placement::Reprocess, None) => true,
            (Placement::Controller { index, worker_id, created }, Some((i, id, c))) =>
                index == i && worker_id@ == id && created == c,
            _ => false,
        },
{
    if has_reader {
        return Placement::Reader;
    }
    match pool.next(task_uuid) {
        Some((index, worker_id, created)) => Placement::Controller { index, worker_id, created },
        None => Placement::Reprocess,
    }
}

/// The worker threads, handed out in round-robin order.
pub struct ArbiterPool {
    pub size: usize,
    pub next_to_use: usize,
}

impl ArbiterPool {
    pub open spec fn wf(&self) -> bool {
        self.size > 0 && self.next_to_use < self.size
    }

    pub fn new(size: usize) -> (r: Self)
        requires
            size > 0,
        ensures
            r.wf(),
            r.size == size,
            r.next_to_use == 0,
    {
        ArbiterPool { size, next_to_use: 0 }
    }

    /// The next arbiter.
    pub fn next(&mut self) -> (r: usize)
        requires
            old(self).wf(),
        ensures
            final(self).wf(),
            final(self).size == old(self).size,
            r == old(self).next_to_use,
            final(self).next_to_use == (if r + 1 == old(self).size { 0 } else { r + 1 }),
    {
        let r = self.next_to_use;
        if r + 1 == self.size {
            self.next_to_use = 0;
        } else {
            self.next_to_use = r + 1;
        }
        r
    }
}

} // verus!
