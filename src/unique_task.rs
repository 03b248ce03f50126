//! Tasks that may run at most once at a time, tracked by name.

use vstd::prelude::*;
use crate::tracker::{TaskUpdate, TaskUpdateTag};

verus! {

/// A task known by name that may run at most once at a time; `uuid` is the
/// uuid of the running instance.
pub struct UniqueTask {
    pub name: String,
    pub uuid: Option<String>,
    pub parent_uuid: Option<String>,
}

/// An update that a unique task accepts: a start while it does not run, an
/// update or a finish while it runs. Anything else would break its invariant.
pub open spec fn update_allowed(running: bool, tag: TaskUpdateTag) -> bool {
    match tag {
        TaskUpdateTag::Started => !running,
        TaskUpdateTag::Updated | TaskUpdateTag::Finished => running,
        _ => true,
    }
}

impl UniqueTask {
    pub fn new(name: String) -> (r: Self)
        ensures
            r.name == name,
            r.uuid is None,
            r.parent_uuid is None,
    {
        UniqueTask { name, uuid: None, parent_uuid: None }
    }

    pub fn new_with_parent(name: String, parent_uuid: Option<String>) -> (r: Self)
        ensures
            r.name == name,
            r.uuid is None,
            r.parent_uuid == parent_uuid,
    {
        UniqueTask { name, uuid: None, parent_uuid }
    }

    /// Follows an update of a task of this name: a start records its uuid,
    /// a finish clears it. Returns the update's tag, or `None` for another name.
    pub fn update(&mut self, msg: &TaskUpdate) -> (r: Option<TaskUpdateTag>)
        requires
            msg.name@ == old(self).name@ ==> update_allowed(old(self).uuid is Some, msg.tag),
        ensures
            final(self).name == old(self).name,
            final(self).parent_uuid == old(self).parent_uuid,
            msg.name@ != old(self).name@ ==> r is None && final(self).uuid == old(self).uuid,
            msg.name@ == old(self).name@ ==> r == Some(msg.tag) && match msg.tag {
                TaskUpdateTag::Started => final(self).uuid matches Some(u) && u@ == msg.task_uuid@,
                TaskUpdateTag::Finished => final(self).uuid is None,
                _ => final(self).uuid == old(self).uuid,
            },
    {
        if msg.name != self.name {
            return None;
        }
        match msg.tag {
            TaskUpdateTag::Started => {
                self.must_not_running();
                self.uuid = Some(msg.task_uuid.clone());
            },
            TaskUpdateTag::Updated => {
                self.must_running();
            },
            TaskUpdateTag::Finished => {
                self.must_running();
                self.uuid = None;
            },
            _ => {},
        }
        Some(msg.tag)
    }

    /// The task must not be running (before a start); a running one is an
    /// invariant violation and is not accepted.
    pub fn must_not_running(&self)
        requires
            self.uuid is None,
    {
    }

    /// The task must be running (before an update or a finish); one that is
    /// not is an invariant violation and is not accepted.
    pub fn must_running(&self)
        requires
            self.uuid is Some,
    {
    }
}

/// A subscription (or unsubscription) of `subscriber_uuid` to the updates
/// of the tasks named `name`, for the tracker.
pub struct NameSubscription {
    pub name: String,
    pub subscriber_uuid: String,
}

/// The subscription of the group's parent, if it has one, to name `name`.
pub open spec fn parent_subscription(r: Option<NameSubscription>, name: Seq<char>, parent: Option<String>) -> bool {
    match parent {
        Some(p) => r matches Some(sub) && sub.name@ == name && sub.subscriber_uuid@ == p@,
        None => r is None,
    }
}

/// A group of unique tasks, by distinct names.
pub struct UniqueTaskGroup {
    pub name: String,
    pub tasks: Vec<UniqueTask>,
    pub parent_uuid: Option<String>,
}

pub open spec fn opt_view(o: Option<String>) -> Option<Seq<char>> {
    match o {
        Some(s) => Some(s@),
        None => None,
    }
}

/// The names in a group.
pub open spec fn group_names(ts: Seq<UniqueTask>) -> Set<Seq<char>> {
    Set::new(|n: Seq<char>| exists|i: int| 0 <= i < ts.len() && #[trigger] ts[i].name@ == n)
}

impl UniqueTaskGroup {
    pub open spec fn wf(&self) -> bool {
        forall|i: int, j: int| 0 <= i < self.tasks@.len() && 0 <= j < self.tasks@.len()
            && #[trigger] self.tasks@[i].name@ == #[trigger] self.tasks@[j].name@ ==> i == j
    }

    pub fn new(name: String) -> (r: Self)
        ensures
            r.wf(),
            r.name == name,
            r.tasks@.len() == 0,
            r.parent_uuid is None,
    {
        UniqueTaskGroup { name, tasks: Vec::new(), parent_uuid: None }
    }

    pub fn new_with_parent(name: String, parent_uuid: String) -> (r: Self)
        ensures
            r.wf(),
            r.name == name,
            r.tasks@.len() == 0,
            r.parent_uuid == Some(parent_uuid),
    {
        UniqueTaskGroup { name, tasks: Vec::new(), parent_uuid: Some(parent_uuid) }
    }

    fn find(&self, task_name: &String) -> (r: Option<usize>)
        ensures
            match r {
                Some(i) => i < self.tasks@.len() && self.tasks@[i as int].name@ == task_name@,
                None => !group_names(self.tasks@).contains(task_name@),
            },
    {
        let mut i: usize = 0;
        while i < self.tasks.len()
            invariant
                i <= self.tasks@.len(),
                forall|j: int| 0 <= j < i ==> self.tasks@[j].name@ != task_name@,
            decreases self.tasks@.len() - i,
        {
            if self.tasks[i].name == *task_name {
                return Some(i);
            }
            i = i + 1;
        }
        None
    }

    /// Adds a task by name, not running, with the group's parent. Returns
    /// `false`, changing nothing, when the name is taken. When it is added
    /// and the group has a parent, the parent is to be subscribed to the
    /// tasks of that name.
    pub fn add(&mut self, task_name: String) -> (r: (bool, Option<NameSubscription>))
        requires
            old(self).wf(),
        ensures
            final(self).wf(),
            final(self).name == old(self).name,
            final(self).parent_uuid == old(self).parent_uuid,
            r.0 == !group_names(old(self).tasks@).contains(task_name@),
            r.0 ==> parent_subscription(r.1, task_name@, old(self).parent_uuid),
            !r.0 ==> r.1 is None,
            group_names(final(self).tasks@) == group_names(old(self).tasks@).insert(task_name@),
            !r.0 ==> final(self).tasks@ == old(self).tasks@,
            r.0 ==> final(self).tasks@.len() == old(self).tasks@.len() + 1
                && final(self).tasks@.drop_last() == old(self).tasks@
                && final(self).tasks@.last().name@ == task_name@
                && final(self).tasks@.last().uuid is None
                && opt_view(final(self).tasks@.last().parent_uuid) == opt_view(old(self).parent_uuid),
    {
        match self.find(&task_name) {
            Some(_) => {
                assert(group_names(self.tasks@) =~= group_names(self.tasks@).insert(task_name@));
                (false, None)
            },
            None => {
                let ghost t0 = self.tasks@;
                let ghost n = task_name@;
                let parent = match &self.parent_uuid {
                    Some(p) => Some(p.clone()),
                    None => None,
                };
                let sub = match &self.parent_uuid {
                    Some(p) => Some(NameSubscription { name: task_name.clone(), subscriber_uuid: p.clone() }),
                    None => None,
                };
                self.tasks.push(UniqueTask::new_with_parent(task_name, parent));
                proof {
                    let t = self.tasks@;
                    assert forall|i: int, j: int| 0 <= i < t.len() && 0 <= j < t.len()
                        && #[trigger] t[i].name@ == #[trigger] t[j].name@ implies i == j by {
                        if i < t0.len() {
                            assert(t[i] == t0[i]);
                        }
                        if j < t0.len() {
                            assert(t[j] == t0[j]);
                        }
                        if i < t0.len() && j == t0.len() {
                            assert(group_names(t0).contains(t0[i].name@));
                        }
                        if j < t0.len() && i == t0.len() {
                            assert(group_names(t0).contains(t0[j].name@));
                        }
                    }
                    assert forall|x: Seq<char>| #[trigger] group_names(t).contains(x) <==> group_names(t0).insert(n).contains(x) by {
                        if group_names(t).contains(x) {
                            let i = choose|i: int| 0 <= i < t.len() && #[trigger] t[i].name@ == x;
                            if i < t0.len() {
                                assert(t[i] == t0[i]);
                            }
                        }
                        if group_names(t0).contains(x) {
                            let i = choose|i: int| 0 <= i < t0.len() && #[trigger] t0[i].name@ == x;
                            assert(t[i] == t0[i]);
                        }
                        if x == n {
                            assert(t[t0.len() as int].name@ == x);
                        }
                    }
                    assert(group_names(t) =~= group_names(t0).insert(n));
                    assert(t.drop_last() =~= t0);
                }
                (true, sub)
            },
        }
    }

    /// Removes a task by name. Returns whether it was there; when it was and
    /// the group has a parent, the parent is to be unsubscribed from the
    /// tasks of that name.
    pub fn remove(&mut self, task_name: &String) -> (r: (bool, Option<NameSubscription>))
        requires
            old(self).wf(),
        ensures
            final(self).wf(),
            final(self).name == old(self).name,
            final(self).parent_uuid == old(self).parent_uuid,
            r.0 == group_names(old(self).tasks@).contains(task_name@),
            r.0 ==> parent_subscription(r.1, task_name@, old(self).parent_uuid),
            !r.0 ==> r.1 is None,
            group_names(final(self).tasks@) == group_names(old(self).tasks@).remove(task_name@),
    {
        match self.find(task_name) {
            Some(i) => {
                let ghost t0 = self.tasks@;
                self.tasks.remove(i);
                proof {
                    let t = self.tasks@;
                    assert(t =~= t0.remove(i as int));
                    assert(group_names(t0).contains(t0[i as int].name@));
                    assert forall|a: int, b: int| 0 <= a < t.len() && 0 <= b < t.len()
                        && #[trigger] t[a].name@ == #[trigger] t[b].name@ implies a == b by {
                        let a0 = if a < i { a } else { a + 1 };
                        let b0 = if b < i { b } else { b + 1 };
                        assert(t[a] == t0[a0]);
                        assert(t[b] == t0[b0]);
                    }
                    assert forall|x: Seq<char>| #[trigger] group_names(t).contains(x) <==> group_names(t0).remove(task_name@).contains(x) by {
                        if group_names(t).contains(x) {
                            let j = choose|j: int| 0 <= j < t.len() && #[trigger] t[j].name@ == x;
                            let j0 = if j < i { j } else { j + 1 };
                            assert(t[j] == t0[j0]);
                        }
                        if group_names(t0).contains(x) && x != task_name@ {
                            let j = choose|j: int| 0 <= j < t0.len() && #[trigger] t0[j].name@ == x;
                            if j < i {
                                assert(t[j] == t0[j]);
                            } else {
                                assert(t[j - 1] == t0[j]);
                            }
                        }
                    }
                    assert(group_names(t) =~= group_names(t0).remove(task_name@));
                }
                let sub = match &self.parent_uuid {
                    Some(p) => Some(NameSubscription { name: task_name.clone(), subscriber_uuid: p.clone() }),
                    None => None,
                };
                (true, sub)
            },
            None => {
                assert(group_names(self.tasks@) =~= group_names(self.tasks@).remove(task_name@));
                (false, None)
            },
        }
    }

    /// Follows an update of one of the group's tasks; a task that finished
    /// leaves the group (and the parent is to be unsubscribed from its name).
    /// Returns the update's tag, or `None` when the name is not in the group.
    pub fn update(&mut self, msg: &TaskUpdate) -> (r: (Option<TaskUpdateTag>, Option<NameSubscription>))
        requires
            old(self).wf(),
            forall|i: int| 0 <= i < old(self).tasks@.len() && #[trigger] old(self).tasks@[i].name@ == msg.name@
                ==> update_allowed(old(self).tasks@[i].uuid is Some, msg.tag),
        ensures
            final(self).wf(),
            r.0 == (if group_names(old(self).tasks@).contains(msg.name@) { Some(msg.tag) } else { None }),
            r.0 == Some(TaskUpdateTag::Finished) ==> group_names(final(self).tasks@) == group_names(old(self).tasks@).remove(msg.name@)
                && parent_subscription(r.1, msg.name@, old(self).parent_uuid),
            r.0 != Some(TaskUpdateTag::Finished) ==> group_names(final(self).tasks@) == group_names(old(self).tasks@)
                && r.1 is None,
            final(self).parent_uuid == old(self).parent_uuid,
    {
        match self.find(&msg.name) {
            None => (None, None),
            Some(i) => {
                let ghost t0 = self.tasks@;
                assert(group_names(t0).contains(msg.name@));
                match msg.tag {
                    TaskUpdateTag::Started => {
                        self.must_not_running(&msg.name);
                    },
                    TaskUpdateTag::Updated | TaskUpdateTag::Finished => {
                        self.must_running(&msg.name);
                    },
                    _ => {},
                }
                let mut t = self.tasks.remove(i);
                let tag = t.update(msg);
                self.tasks.insert(i, t);
                proof {
                    let t1 = self.tasks@;
                    assert(t1.len() == t0.len());
                    assert forall|a: int| 0 <= a < t1.len() implies #[trigger] t1[a].name@ == t0[a].name@ by {
                        if a < i {
                            assert(t1[a] == t0[a]);
                        } else if a > i {
                            assert(t1[a] == t0[a]);
                        }
                    }
                    assert forall|a: int, b: int| 0 <= a < t1.len() && 0 <= b < t1.len()
                        && #[trigger] t1[a].name@ == #[trigger] t1[b].name@ implies a == b by {
                        assert(t1[a].name@ == t0[a].name@);
                        assert(t1[b].name@ == t0[b].name@);
                    }
                    assert forall|x: Seq<char>| #[trigger] group_names(t1).contains(x) <==> group_names(t0).contains(x) by {
                        if group_names(t1).contains(x) {
                            let j = choose|j: int| 0 <= j < t1.len() && #[trigger] t1[j].name@ == x;
                            assert(t1[j].name@ == t0[j].name@);
                        }
                        if group_names(t0).contains(x) {
                            let j = choose|j: int| 0 <= j < t0.len() && #[trigger] t0[j].name@ == x;
                            assert(t1[j].name@ == t0[j].name@);
                        }
                    }
                    assert(group_names(t1) =~= group_names(t0));
                }
                match tag {
                    Some(TaskUpdateTag::Finished) => {
                        let (_, sub) = self.remove(&msg.name);
                        (tag, sub)
                    },
                    _ => (tag, None),
                }
            },
        }
    }

    /// Task `task_name` must not be running (an unknown name is not
    /// running); a running one is an invariant violation and is not accepted.
    pub fn must_not_running(&self, task_name: &String)
        requires
            forall|i: int| 0 <= i < self.tasks@.len() && #[trigger] self.tasks@[i].name@ == task_name@
                ==> self.tasks@[i].uuid is None,
    {
    }

    /// Task `task_name` must be known and running; otherwise it is an
    /// invariant violation and is not accepted.
    pub fn must_running(&self, task_name: &String)
        requires
            exists|i: int| 0 <= i < self.tasks@.len() && #[trigger] self.tasks@[i].name@ == task_name@
                && self.tasks@[i].uuid is Some,
    {
    }
}

} // verus!
