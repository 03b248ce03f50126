//! The task assistant: the restart policy of each registered task.

use vstd::prelude::*;
use crate::task::TaskStatus;

verus! {

/// A registered task and the delay, in milliseconds, before it is restarted
/// after a failure.
pub struct TaskAssistantItem {
    pub task_uuid: String,
    pub restart_delay: usize,
}

impl TaskAssistantItem {
    pub fn new(task_uuid: String, restart_delay: usize) -> (r: Self)
        ensures
            r.task_uuid == task_uuid,
            r.restart_delay == restart_delay,
    {
        TaskAssistantItem { task_uuid, restart_delay }
    }
}

pub open spec fn delay_of(s: Seq<(Seq<char>, nat)>, u: Seq<char>) -> Option<nat> {
    if exists|i: int| 0 <= i < s.len() && #[trigger] s[i].0 == u {
        Some(s[choose|i: int| 0 <= i < s.len() && s[i].0 == u].1)
    } else {
        None
    }
}

pub open spec fn keys_unique(s: Seq<(Seq<char>, nat)>) -> bool {
    forall|i: int, j: int| 0 <= i < s.len() && 0 <= j < s.len() && #[trigger] s[i].0 == #[trigger] s[j].0 ==> i == j
}

proof fn lemma_delay_at(s: Seq<(Seq<char>, nat)>, i: int)
    requires
        keys_unique(s),
        0 <= i < s.len(),
    ensures
        delay_of(s, s[i].0) == Some(s[i].1),
{
    let j = choose|j: int| 0 <= j < s.len() && s[j].0 == s[i].0;
    assert(s[j].0 == s[i].0);
}

/// A restart to schedule: restart task `task_uuid` after `delay_ms`.
pub struct RestartPlan {
    pub task_uuid: String,
    pub delay_ms: usize,
}

/// The task assistant.
pub struct TaskAssistant {
    tasks: Vec<TaskAssistantItem>,
}

impl View for TaskAssistant {
    type V = Seq<(Seq<char>, nat)>;

    closed spec fn view(&self) -> Seq<(Seq<char>, nat)> {
        self.tasks@.map_values(|t: TaskAssistantItem| (t.task_uuid@, t.restart_delay as nat))
    }
}

impl TaskAssistant {
    pub closed spec fn wf(&self) -> bool {
        keys_unique(self@)
    }

    pub fn new() -> (r: Self)
        ensures
            r.wf(),
            forall|u: Seq<char>| delay_of(r@, u) is None,
    {
        let r = TaskAssistant { tasks: Vec::new() };
        assert(r@.len() == 0);
        r
    }

    fn find(&self, u: &String) -> (r: Option<usize>)
        requires
            self.wf(),
        ensures
            match r {
                Some(i) => i < self@.len() && self@[i as int].0 == u@ && delay_of(self@, u@) == Some(self@[i as int].1),
                None => delay_of(self@, u@) is None,
            },
    {
        let mut i: usize = 0;
        while i < self.tasks.len()
            invariant
                self.wf(),
                i <= self@.len(),
                self@.len() == self.tasks@.len(),
                forall|j: int| 0 <= j < i ==> self@[j].0 != u@,
            decreases self@.len() - i,
        {
            if self.tasks[i].task_uuid == *u {
                proof {
                    lemma_delay_at(self@, i as int);
                }
                return Some(i);
            }
            i = i + 1;
        }
        None
    }

    /// The restart delay registered for a task.
    pub fn restart_delay(&self, task_uuid: &String) -> (r: Option<usize>)
        requires
            self.wf(),
        ensures
            match r {
                Some(d) => delay_of(self@, task_uuid@) == Some(d as nat),
                None => delay_of(self@, task_uuid@) is None,
            },
    {
        match self.find(task_uuid) {
            Some(i) => Some(self.tasks[i].restart_delay),
            None => None,
        }
    }

    fn remove_at(&mut self, i: usize)
        requires
            old(self).wf(),
            i < old(self)@.len(),
        ensures
            final(self).wf(),
            delay_of(final(self)@, old(self)@[i as int].0) is None,
            forall|u: Seq<char>| u != old(self)@[i as int].0 ==> #[trigger] delay_of(final(self)@, u) == delay_of(old(self)@, u),
    {
        let ghost s0 = self@;
        self.tasks.remove(i);
        proof {
            let s = self@;
            assert(s =~= s0.remove(i as int));
            assert forall|a: int, b: int| 0 <= a < s.len() && 0 <= b < s.len() && #[trigger] s[a].0 == #[trigger] s[b].0 implies a == b by {
                let a0 = if a < i { a } else { a + 1 };
                let b0 = if b < i { b } else { b + 1 };
                assert(s[a] == s0[a0]);
                assert(s[b] == s0[b0]);
            }
            assert forall|u: Seq<char>| u != s0[i as int].0 implies #[trigger] delay_of(s, u) == delay_of(s0, u) by {
                if exists|j: int| 0 <= j < s.len() && #[trigger] s[j].0 == u {
                    let j = choose|j: int| 0 <= j < s.len() && s[j].0 == u;
                    let j0 = if j < i { j } else { j + 1 };
                    assert(s[j] == s0[j0]);
                    lemma_delay_at(s, j);
                    lemma_delay_at(s0, j0);
                }
                if exists|j: int| 0 <= j < s0.len() && #[trigger] s0[j].0 == u {
                    let j = choose|j: int| 0 <= j < s0.len() && s0[j].0 == u;
                    if j < i {
                        assert(s[j] == s0[j]);
                    } else {
                        assert(s[j - 1] == s0[j]);
                    }
                }
            }
            if exists|j: int| 0 <= j < s.len() && #[trigger] s[j].0 == s0[i as int].0 {
                let j = choose|j: int| 0 <= j < s.len() && s[j].0 == s0[i as int].0;
                let j0 = if j < i { j } else { j + 1 };
                assert(s[j] == s0[j0]);
            }
        }
    }

    /// Registers the restart policy of a task. Registering a task twice is
    /// an invariant violation and is not accepted.
    pub fn handle_task_recovery(&mut self, task_uuid: String, restart_delay: usize)
        requires
            old(self).wf(),
            delay_of(old(self)@, task_uuid@) is None,
        ensures
            final(self).wf(),
            delay_of(final(self)@, task_uuid@) == Some(restart_delay as nat),
            forall|u: Seq<char>| u != task_uuid@ ==> #[trigger] delay_of(final(self)@, u) == delay_of(old(self)@, u),
    {
        let ghost s0 = self@;
        let ghost e = (task_uuid@, restart_delay as nat);
        self.tasks.push(TaskAssistantItem::new(task_uuid, restart_delay));
        proof {
            let s = self@;
            assert(s =~= s0.push(e));
            assert forall|a: int, b: int| 0 <= a < s.len() && 0 <= b < s.len() && #[trigger] s[a].0 == #[trigger] s[b].0 implies a == b by {
                if a < s0.len() {
                    assert(s[a] == s0[a]);
                }
                if b < s0.len() {
                    assert(s[b] == s0[b]);
                }
                if a < s0.len() && b == s0.len() {
                    assert(delay_of(s0, e.0) is Some);
                }
                if b < s0.len() && a == s0.len() {
                    assert(delay_of(s0, e.0) is Some);
                }
            }
            lemma_delay_at(s, s0.len() as int);
            assert forall|u: Seq<char>| u != e.0 implies #[trigger] delay_of(s, u) == delay_of(s0, u) by {
                if exists|j: int| 0 <= j < s.len() && #[trigger] s[j].0 == u {
                    let j = choose|j: int| 0 <= j < s.len() && s[j].0 == u;
                    assert(j < s0.len());
                    lemma_delay_at(s, j);
                    lemma_delay_at(s0, j);
                }
                if exists|j: int| 0 <= j < s0.len() && #[trigger] s0[j].0 == u {
                    let j = choose|j: int| 0 <= j < s0.len() && s0[j].0 == u;
                    assert(s[j] == s0[j]);
                }
            }
        }
    }

    /// A task update. A registered task that succeeded is forgotten; one that
    /// failed is forgotten and a restart is planned after its delay.
    pub fn handle_task_update(&mut self, task_uuid: &String, status: TaskStatus) -> (r: Option<RestartPlan>)
        requires
            old(self).wf(),
        ensures
            final(self).wf(),
            match (delay_of(old(self)@, task_uuid@), status) {
                (Some(d), TaskStatus::FinishedFailure) => r matches Some(p) && p.task_uuid@ == task_uuid@
                    && p.delay_ms == d && delay_of(final(self)@, task_uuid@) is None,
                (Some(d), TaskStatus::FinishedSuccess) => r is None && delay_of(final(self)@, task_uuid@) is None,
                _ => r is None && final(self)@ == old(self)@,
            },
            forall|u: Seq<char>| u != task_uuid@ ==> #[trigger] delay_of(final(self)@, u) == delay_of(old(self)@, u),
    {
        match self.find(task_uuid) {
            None => None,
            Some(i) => {
                match status {
                    TaskStatus::FinishedSuccess => {
                        self.remove_at(i);
                        None
                    },
                    TaskStatus::FinishedFailure => {
                        let delay = self.tasks[i].restart_delay;
                        self.remove_at(i);
                        Some(RestartPlan { task_uuid: task_uuid.clone(), delay_ms: delay })
                    },
                    _ => None,
                }
            },
        }
    }
}

} // verus!
