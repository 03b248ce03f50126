//! The task reprocessor: tasks that found no controller wait here until a
//! worker becomes ready.

use vstd::prelude::*;
use crate::keyed_queues::{KeyedQueues, queue_of};
use crate::task::WorkerTask;

verus! {

/// The task reprocessor: a common queue, and a queue per worker for the
/// tasks tied to it.
pub struct TaskReprocessor<P> {
    pub tasks: Vec<WorkerTask<P>>,
    pub tasks_linked_with_worker: KeyedQueues<WorkerTask<P>>,
}

impl<P> TaskReprocessor<P> {
    pub open spec fn wf(&self) -> bool {
        self.tasks_linked_with_worker.wf()
    }

    pub fn new() -> (r: Self)
        ensures
            r.wf(),
            r.tasks@.len() == 0,
            forall|w: Seq<char>| queue_of(r.tasks_linked_with_worker@, w) is None,
    {
        TaskReprocessor { tasks: Vec::new(), tasks_linked_with_worker: KeyedQueues::new() }
    }

    /// A task to place later: one tied to no worker joins the common queue,
    /// one tied to a worker joins that worker's queue.
    pub fn reprocess_task(&mut self, task: WorkerTask<P>)
        requires
            old(self).wf(),
        ensures
            final(self).wf(),
            task.worker_id@.len() == 0 ==> final(self).tasks@ == old(self).tasks@.push(task)
                && final(self).tasks_linked_with_worker@ == old(self).tasks_linked_with_worker@,
            task.worker_id@.len() != 0 ==> final(self).tasks@ == old(self).tasks@
                && queue_of(final(self).tasks_linked_with_worker@, task.worker_id@) == Some(
                    match queue_of(old(self).tasks_linked_with_worker@, task.worker_id@) {
                        Some(ts) => ts,
                        None => Seq::<WorkerTask<P>>::empty(),
                    }.push(task))
                && forall|w: Seq<char>| w != task.worker_id@ ==> #[trigger] queue_of(final(self).tasks_linked_with_worker@, w)
                    == queue_of(old(self).tasks_linked_with_worker@, w),
    {
        if task.worker_id.as_str().unicode_len() == 0 {
            self.tasks.push(task);
        } else {
            let w = task.worker_id.clone();
            self.tasks_linked_with_worker.push(w, task);
        }
    }

    /// Worker `worker_id` is ready: the tasks tied to it, if it has a queue,
    /// take priority; otherwise the whole common queue is handed back, in
    /// its order.
    pub fn worker_ready(&mut self, worker_id: &String) -> (r: Vec<WorkerTask<P>>)
        requires
            old(self).wf(),
        ensures
            final(self).wf(),
            match queue_of(old(self).tasks_linked_with_worker@, worker_id@) {
                Some(ts) => r@ == ts && final(self).tasks@ == old(self).tasks@
                    && queue_of(final(self).tasks_linked_with_worker@, worker_id@) is None
                    && forall|w: Seq<char>| w != worker_id@ ==> #[trigger] queue_of(final(self).tasks_linked_with_worker@, w)
                        == queue_of(old(self).tasks_linked_with_worker@, w),
                None => r@ == old(self).tasks@ && final(self).tasks@.len() == 0
                    && final(self).tasks_linked_with_worker@ == old(self).tasks_linked_with_worker@,
            },
    {
        if self.tasks_linked_with_worker.contains(worker_id) {
            match self.tasks_linked_with_worker.take(worker_id) {
                Some(v) => v,
                None => Vec::new(),
            }
        } else {
            let mut out: Vec<WorkerTask<P>> = Vec::new();
            std::mem::swap(&mut out, &mut self.tasks);
            out
        }
    }
}

} // verus!
