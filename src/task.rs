//! Task definitions and the task items that travel between the processor,
//! the reprocessor and the task tree.

use vstd::prelude::*;
use crate::plugin::WorkerPlugin;

verus! {

/// The lifecycle status of a task.
#[derive(Clone, Copy, PartialEq, Eq, Structural, Debug)]
pub enum TaskStatus {
    Unknown,
    Running,
    Suspended,
    FinishedSuccess,
    FinishedFailure,
}

impl TaskStatus {
    pub open spec fn finished(self) -> bool {
        self == TaskStatus::FinishedSuccess || self == TaskStatus::FinishedFailure
    }

    pub fn is_finished(&self) -> (r: bool)
        ensures
            r == self.finished(),
    {
        *self == TaskStatus::FinishedSuccess || *self == TaskStatus::FinishedFailure
    }
}

/// Relies on `uuid::Uuid::new_v4` and its `Display`: a random version 4 UUID
/// in hyphenated form, which is 36 characters long.
#[verifier::external_body]
pub(crate) fn random_uuid() -> (r: String)
    ensures
        r@.len() == 36,
{
    uuid::Uuid::new_v4().to_string()
}

/// What a task is: the code a worker runs, its parameters, its name, its
/// parent (empty for a root task), the worker it is tied to (empty for any)
/// and the plugin it needs.
pub struct GenTaskDefinition<P> {
    pub executor_path: String,
    pub params: P,
    pub task_uuid: String,
    pub name: String,
    pub parent_task_uuid: String,
    pub worker_id: String,
    pub plugin: WorkerPlugin,
}

impl<P> GenTaskDefinition<P> {
    pub fn new(plugin: WorkerPlugin, executor_path: &str, params: P, name: &str) -> (r: Self)
        ensures
            r.executor_path@ == executor_path@,
            r.params == params,
            r.task_uuid@.len() == 0,
            r.name@ == name@,
            r.parent_task_uuid@.len() == 0,
            r.worker_id@.len() == 0,
            r.plugin == plugin,
    {
        GenTaskDefinition {
            executor_path: String::from_str(executor_path),
            params,
            task_uuid: String::new(),
            name: String::from_str(name),
            parent_task_uuid: String::new(),
            worker_id: String::new(),
            plugin,
        }
    }

    pub fn subtask(
        plugin: WorkerPlugin,
        executor_path: &str,
        params: P,
        parent_task_uuid: String,
        name: &str,
    ) -> (r: Self)
        ensures
            r.executor_path@ == executor_path@,
            r.params == params,
            r.task_uuid@.len() == 0,
            r.name@ == name@,
            r.parent_task_uuid == parent_task_uuid,
            r.worker_id@.len() == 0,
            r.plugin == plugin,
    {
        GenTaskDefinition {
            executor_path: String::from_str(executor_path),
            params,
            task_uuid: String::new(),
            name: String::from_str(name),
            parent_task_uuid,
            worker_id: String::new(),
            plugin,
        }
    }

    pub fn new_none_plugin(params: P, name: &str) -> (r: Self)
        ensures
            r.executor_path@.len() == 0,
            r.params == params,
            r.task_uuid@.len() == 0,
            r.name@ == name@,
            r.parent_task_uuid@.len() == 0,
            r.worker_id@.len() == 0,
            r.plugin == WorkerPlugin::NoPlugin,
    {
        let r = Self::new(WorkerPlugin::NoPlugin, "", params, name);
        proof {
            reveal_strlit("");
        }
        r
    }

    pub fn subtask_none_plugin(params: P, parent_task_uuid: String, name: &str) -> (r: Self)
        ensures
            r.executor_path@.len() == 0,
            r.params == params,
            r.task_uuid@.len() == 0,
            r.name@ == name@,
            r.parent_task_uuid == parent_task_uuid,
            r.worker_id@.len() == 0,
            r.plugin == WorkerPlugin::NoPlugin,
    {
        let r = Self::subtask(WorkerPlugin::NoPlugin, "", params, parent_task_uuid, name);
        proof {
            reveal_strlit("");
        }
        r
    }
}

/// A task as it is scheduled: its uuid, the worker it is tied to and its
/// definition, which carries the same uuid and worker.
pub struct WorkerTask<P> {
    pub task_uuid: String,
    pub worker_id: String,
    pub task_definition: GenTaskDefinition<P>,
}

impl<P> WorkerTask<P> {
    pub open spec fn wf(&self) -> bool {
        &&& self.task_definition.task_uuid@ == self.task_uuid@
        &&& self.task_definition.worker_id@ == self.worker_id@
    }

    /// A task with a fresh random uuid, tied to no worker.
    pub fn new(task_definition: GenTaskDefinition<P>) -> (r: Self)
        ensures
            r.wf(),
            r.worker_id@.len() == 0,
            r.task_uuid@.len() == 36,
            r.task_definition.name == task_definition.name,
            r.task_definition.parent_task_uuid == task_definition.parent_task_uuid,
            r.task_definition.plugin == task_definition.plugin,
            r.task_definition.params == task_definition.params,
    {
        let uuid = random_uuid();
        Self::new_with_uuid(task_definition, uuid)
    }

    /// A task with the given uuid, tied to no worker.
    pub fn new_with_uuid(task_definition: GenTaskDefinition<P>, task_uuid: String) -> (r: Self)
        ensures
            r.wf(),
            r.worker_id@.len() == 0,
            r.task_uuid == task_uuid,
            r.task_definition.name == task_definition.name,
            r.task_definition.parent_task_uuid == task_definition.parent_task_uuid,
            r.task_definition.plugin == task_definition.plugin,
            r.task_definition.params == task_definition.params,
    {
        let mut d = task_definition;
        d.task_uuid = task_uuid.clone();
        d.worker_id = String::new();
        WorkerTask { task_uuid, worker_id: String::new(), task_definition: d }
    }

    pub fn uuid(&self) -> (r: &String)
        ensures
            r == &self.task_uuid,
    {
        &self.task_uuid
    }

    pub fn parent_uuid(&self) -> (r: &String)
        ensures
            r == &self.task_definition.parent_task_uuid,
    {
        &self.task_definition.parent_task_uuid
    }

    pub fn worker_id(&self) -> (r: &String)
        ensures
            r == &self.worker_id,
    {
        &self.worker_id
    }

    pub fn name(&self) -> (r: &String)
        ensures
            r == &self.task_definition.name,
    {
        &self.task_definition.name
    }

    pub fn plugin(&self) -> (r: WorkerPlugin)
        ensures
            r == self.task_definition.plugin,
    {
        self.task_definition.plugin
    }

    /// Ties the task to a worker.
    pub fn update_worker_id(&mut self, worker_id: String)
        requires
            old(self).wf(),
        ensures
            final(self).wf(),
            final(self).worker_id == worker_id,
            final(self).task_uuid == old(self).task_uuid,
            final(self).task_definition.name == old(self).task_definition.name,
            final(self).task_definition.parent_task_uuid == old(self).task_definition.parent_task_uuid,
            final(self).task_definition.plugin == old(self).task_definition.plugin,
    {
        self.task_definition.worker_id = worker_id.clone();
        self.worker_id = worker_id;
    }

    /// Gives the task a new random uuid, used when it is restarted. In the
    /// (astronomically unlikely) case that the drawn uuid equals the current
    /// one, its last character is changed, so the new uuid always differs.
    pub fn update_task_uuid(&mut self)
        requires
            old(self).wf(),
        ensures
            final(self).wf(),
            final(self).task_uuid@ != old(self).task_uuid@,
            final(self).task_uuid@.len() == 36,
            final(self).worker_id == old(self).worker_id,
            final(self).task_definition.name == old(self).task_definition.name,
            final(self).task_definition.parent_task_uuid == old(self).task_definition.parent_task_uuid,
            final(self).task_definition.plugin == old(self).task_definition.plugin,
            final(self).task_definition.executor_path == old(self).task_definition.executor_path,
            final(self).task_definition.params == old(self).task_definition.params,
    {
        let mut fresh = random_uuid();
        if fresh == self.task_uuid {
            let last = fresh.as_str().get_char(35);
            let head = fresh.as_str().substring_char(0, 35);
            let tail = if last == '0' { "1" } else { "0" };
            proof {
                reveal_strlit("0");
                reveal_strlit("1");
            }
            let changed = String::from_str(head).concat(tail);
            assert(changed@[35] != fresh@[35]);
            fresh = changed;
        }
        self.task_definition.task_uuid = fresh.clone();
        self.task_uuid = fresh;
    }
}

} // verus!
