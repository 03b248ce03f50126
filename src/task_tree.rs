//! The task tree: a forest of tasks keyed by uuid, with cascading stop,
//! close and restart.

use vstd::prelude::*;
use crate::task::{TaskStatus, WorkerTask};
use crate::plugin::WorkerPlugin;
use crate::text::{string_set, string_views, contains_string, insert_string, remove_string};
use crate::control_message::{ControlCommand, command_of};

verus! {

/// A task in the tree.
pub struct TaskTreeItem<P> {
    /// The task, kept to replay it on restart.
    pub task: WorkerTask<P>,
    /// The uuids of its child tasks.
    pub child_tasks: Vec<String>,
    pub task_status: TaskStatus,
    /// Whether the task runs on a controller (rather than a task reader).
    pub has_controller: bool,
}

impl<P> TaskTreeItem<P> {
    /// A running task with no children yet.
    pub fn new(task: WorkerTask<P>, has_controller: bool) -> (r: Self)
        ensures
            r.task == task,
            r.child_tasks@.len() == 0,
            r.task_status == TaskStatus::Running,
            r.has_controller == has_controller,
    {
        TaskTreeItem { task, child_tasks: Vec::new(), task_status: TaskStatus::Running, has_controller }
    }

    pub fn task_finished(&self) -> (r: bool)
        ensures
            r == self.task_status.finished(),
    {
        self.task_status.is_finished()
    }
}

/// A tree item as a value.
pub struct ItemView {
    pub uuid: Seq<char>,
    pub children: Set<Seq<char>>,
    pub status: TaskStatus,
    pub has_controller: bool,
    /// The stored task's name, parent, worker, plugin and executor.
    pub name: Seq<char>,
    pub parent: Seq<char>,
    pub worker_id: Seq<char>,
    pub plugin: WorkerPlugin,
    pub executor_path: Seq<char>,
}

impl<P> View for TaskTreeItem<P> {
    type V = ItemView;

    open spec fn view(&self) -> ItemView {
        ItemView {
            uuid: self.task.task_uuid@,
            children: string_set(self.child_tasks@),
            status: self.task_status,
            has_controller: self.has_controller,
            name: self.task.task_definition.name@,
            parent: self.task.task_definition.parent_task_uuid@,
            worker_id: self.task.worker_id@,
            plugin: self.task.task_definition.plugin,
            executor_path: self.task.task_definition.executor_path@,
        }
    }
}

pub open spec fn item_views<P>(v: Seq<TaskTreeItem<P>>) -> Seq<ItemView> {
    v.map_values(|i: TaskTreeItem<P>| i@)
}

/// Whether task `u` is in the tree.
pub open spec fn in_tree(s: Seq<ItemView>, u: Seq<char>) -> bool {
    exists|i: int| 0 <= i < s.len() && #[trigger] s[i].uuid == u
}

/// No two items share a uuid.
pub open spec fn unique(s: Seq<ItemView>) -> bool {
    forall|i: int, j: int|
        0 <= i < s.len() && 0 <= j < s.len() && #[trigger] s[i].uuid == #[trigger] s[j].uuid ==> i == j
}

/// The item of task `u`.
pub open spec fn item(s: Seq<ItemView>, u: Seq<char>) -> ItemView {
    s[choose|i: int| 0 <= i < s.len() && s[i].uuid == u]
}

/// `p` is a chain of tasks in the tree that starts at `u`, each the child
/// of the one before.
pub open spec fn is_path(s: Seq<ItemView>, u: Seq<char>, p: Seq<Seq<char>>) -> bool {
    &&& p.len() > 0
    &&& p[0] == u
    &&& in_tree(s, u)
    &&& forall|k: int| 0 <= k < p.len() - 1 ==>
        item(s, p[k]).children.contains(#[trigger] p[k + 1]) && in_tree(s, p[k + 1])
}

/// Task `x` is `u` or one of its descendants in the tree.
pub open spec fn in_subtree(s: Seq<ItemView>, u: Seq<char>, x: Seq<char>) -> bool {
    exists|p: Seq<Seq<char>>| #[trigger] is_path(s, u, p) && p.last() == x
}

proof fn lemma_item_at(s: Seq<ItemView>, i: int)
    requires
        unique(s),
        0 <= i < s.len(),
    ensures
        item(s, s[i].uuid) == s[i],
        in_tree(s, s[i].uuid),
{
    let j = choose|j: int| 0 <= j < s.len() && s[j].uuid == s[i].uuid;
    assert(s[j].uuid == s[i].uuid);
}

/// What the tree asks its surroundings to do.
pub enum TreeAction<P> {
    /// Send `StopTask` to the task's client, and to its controller if it has one.
    StopTask { task_uuid: String, to_controller: bool },
    /// Send `CloseTask` to the tracker, and to the task's controller if it has one.
    CloseTask { task_uuid: String, to_controller: bool },
    /// Report to the center that the task has finished.
    ReportFinished { task_uuid: String },
    /// Hand the task, under a new uuid, to the task processor.
    Reprocess { task: WorkerTask<P>, previous_uuid: String },
}

impl<P> TreeAction<P> {
    pub open spec fn stops(self, x: Seq<char>) -> bool {
        match self {
            TreeAction::StopTask { task_uuid, .. } => task_uuid@ == x,
            _ => false,
        }
    }
}

impl<P> TreeAction<P> {
    /// The uuid that a reprocessed task had before its restart.
    pub open spec fn reprocessed(self) -> Option<Seq<char>> {
        match self {
            TreeAction::Reprocess { previous_uuid, .. } => Some(previous_uuid@),
            _ => None,
        }
    }

    /// A `CloseTask` for task `x`, to its controller iff `ctl`.
    pub open spec fn closes(self, x: Seq<char>, ctl: bool) -> bool {
        match self {
            TreeAction::CloseTask { task_uuid, to_controller } => task_uuid@ == x && to_controller == ctl,
            _ => false,
        }
    }

    /// An action that fits the tree `s`: a `StopTask` goes to the controller
    /// exactly when the task has one.
    pub open spec fn stop_fits(self, s: Seq<ItemView>) -> bool {
        match self {
            TreeAction::StopTask { task_uuid, to_controller } =>
                in_tree(s, task_uuid@) && to_controller == item(s, task_uuid@).has_controller,
            _ => true,
        }
    }

    /// An action of closing the subtree of `u` in tree `v`.
    pub open spec fn close_fits(self, v: TreeView, u: Seq<char>) -> bool {
        match self {
            TreeAction::StopTask { task_uuid, to_controller } =>
                in_tree(v.items, task_uuid@) && to_controller == item(v.items, task_uuid@).has_controller,
            TreeAction::CloseTask { task_uuid, to_controller } =>
                in_subtree(v.items, u, task_uuid@) && item(v.items, task_uuid@).status.finished()
                && to_controller == item(v.items, task_uuid@).has_controller,
            TreeAction::Reprocess { task, previous_uuid } =>
                in_subtree(v.items, u, previous_uuid@) && item(v.items, previous_uuid@).status.finished()
                && v.to_restart.contains(previous_uuid@) && task.task_uuid@ != previous_uuid@
                && task.wf() && same_task(task, item(v.items, previous_uuid@)),
            TreeAction::ReportFinished { .. } => false,
        }
    }
}

/// `task` is the stored task of `it`, but for its uuid.
pub open spec fn same_task<P>(task: WorkerTask<P>, it: ItemView) -> bool {
    &&& task.task_definition.name@ == it.name
    &&& task.task_definition.parent_task_uuid@ == it.parent
    &&& task.worker_id@ == it.worker_id
    &&& task.task_definition.plugin == it.plugin
    &&& task.task_definition.executor_path@ == it.executor_path
}

/// Some action in `r` closes task `x`, to its controller iff `ctl`.
pub open spec fn closes_any<P>(r: Seq<TreeAction<P>>, x: Seq<char>, ctl: bool) -> bool {
    exists|k: int| 0 <= k < r.len() && #[trigger] r[k].closes(x, ctl)
}

/// Some action in `r` hands task `x` back under a new uuid.
pub open spec fn reprocesses_any<P>(r: Seq<TreeAction<P>>, x: Seq<char>) -> bool {
    exists|k: int| 0 <= k < r.len() && #[trigger] r[k].reprocessed() == Some(x)
}

/// Closing the subtree of `u` took tree `v` to tree `w` with actions `r`:
/// - a finished task of the subtree left the tree and both marks, got a
///   `CloseTask`, and, when marked for restart, exactly one `Reprocess` under
///   a new uuid;
/// - an unfinished task of the subtree stayed as it was, is marked to close
///   and got a `StopTask` (its restart mark is kept);
/// - every other task, and its marks, is unchanged;
/// - every action is one of these.
pub open spec fn closed_as<P>(v: TreeView, w: TreeView, u: Seq<char>, r: Seq<TreeAction<P>>) -> bool {
    let s = v.items;
    &&& forall|x: Seq<char>| #[trigger] in_subtree(s, u, x) && item(s, x).status.finished() ==>
        !in_tree(w.items, x) && !w.to_close.contains(x) && !w.to_restart.contains(x)
        && closes_any(r, x, item(s, x).has_controller)
        && (v.to_restart.contains(x) ==> reprocesses_any(r, x))
    &&& forall|x: Seq<char>| #[trigger] in_subtree(s, u, x) && !item(s, x).status.finished() ==>
        in_tree(w.items, x) && item(w.items, x) == item(s, x) && w.to_close.contains(x) && stops_any(r, x)
        && (w.to_restart.contains(x) == v.to_restart.contains(x))
    &&& forall|x: Seq<char>| !#[trigger] in_subtree(s, u, x) ==>
        (in_tree(w.items, x) == in_tree(s, x)) && (in_tree(s, x) ==> item(w.items, x) == item(s, x))
        && (w.to_close.contains(x) == v.to_close.contains(x)) && (w.to_restart.contains(x) == v.to_restart.contains(x))
    &&& forall|k: int| 0 <= k < r.len() ==> (#[trigger] r[k]).close_fits(v, u)
    &&& forall|k1: int, k2: int| 0 <= k1 < r.len() && 0 <= k2 < r.len() && (#[trigger] r[k1]).reprocessed() is Some
        && #[trigger] r[k2].reprocessed() == r[k1].reprocessed() ==> k1 == k2
}

/// Some action in `r` stops task `x`.
pub open spec fn stops_any<P>(r: Seq<TreeAction<P>>, x: Seq<char>) -> bool {
    exists|k: int| 0 <= k < r.len() && #[trigger] r[k].stops(x)
}

spec fn marked_unfinished(s: Seq<ItemView>, marks: Seq<bool>, i: int, x: Seq<char>) -> bool {
    exists|j: int| 0 <= j < i && marks[j] && !s[j].status.finished() && #[trigger] s[j].uuid == x
}

/// The tree as a value.
/// Every task that is not in `ts` has, in `w`, the presence and the marks
/// it had in `v`.
pub open spec fn untouched(v: TreeView, w: TreeView, ts: Seq<Seq<char>>) -> bool {
    forall|y: Seq<char>| !ts.contains(y) ==>
        (#[trigger] in_tree(w.items, y) == in_tree(v.items, y))
        && (w.to_close.contains(y) == v.to_close.contains(y))
        && (w.to_restart.contains(y) == v.to_restart.contains(y))
}

proof fn lemma_untouched_step(v: TreeView, a: TreeView, b: TreeView, ts: Seq<Seq<char>>, x: Seq<char>)
    requires
        untouched(v, a, ts),
        ts.contains(x),
        forall|y: Seq<char>| y != x ==> (#[trigger] in_tree(b.items, y) == in_tree(a.items, y))
            && (b.to_close.contains(y) == a.to_close.contains(y))
            && (b.to_restart.contains(y) == a.to_restart.contains(y)),
    ensures
        untouched(v, b, ts),
{
    assert forall|y: Seq<char>| !ts.contains(y) implies
        (#[trigger] in_tree(b.items, y) == in_tree(v.items, y))
        && (b.to_close.contains(y) == v.to_close.contains(y))
        && (b.to_restart.contains(y) == v.to_restart.contains(y)) by {
        assert(y != x);
        assert(in_tree(a.items, y) == in_tree(v.items, y));
    }
}

pub struct TreeView {
    pub items: Seq<ItemView>,
    pub to_close: Set<Seq<char>>,
    pub to_restart: Set<Seq<char>>,
}


/// The task tree.
pub struct TaskTree<P> {
    tasks: Vec<TaskTreeItem<P>>,
    tasks_to_close: Vec<String>,
    tasks_to_restart: Vec<String>,
}

impl<P> View for TaskTree<P> {
    type V = TreeView;

    closed spec fn view(&self) -> TreeView {
        TreeView {
            items: item_views(self.tasks@),
            to_close: string_set(self.tasks_to_close@),
            to_restart: string_set(self.tasks_to_restart@),
        }
    }
}

impl<P> TaskTree<P> {
    pub closed spec fn wf(&self) -> bool {
        &&& unique(self@.items)
        &&& forall|i: int| 0 <= i < self.tasks@.len() ==> (#[trigger] self.tasks@[i]).task.wf()
    }

    pub fn new() -> (r: Self)
        ensures
            r.wf(),
            r@.items.len() == 0,
            r@.to_close.is_empty(),
            r@.to_restart.is_empty(),
    {
        let r = TaskTree { tasks: Vec::new(), tasks_to_close: Vec::new(), tasks_to_restart: Vec::new() };
        assert(r@.to_close =~= Set::empty());
        assert(r@.to_restart =~= Set::empty());
        r
    }

    /// The position of task `u`.
    fn find(&self, u: &String) -> (r: Option<usize>)
        requires
            self.wf(),
        ensures
            match r {
                Some(i) => i < self@.items.len() && self@.items[i as int].uuid == u@
                    && item(self@.items, u@) == self@.items[i as int],
                None => !in_tree(self@.items, u@),
            },
    {
        let mut i: usize = 0;
        while i < self.tasks.len()
            invariant
                i <= self.tasks@.len(),
                self.wf(),
                forall|j: int| 0 <= j < i ==> self@.items[j].uuid != u@,
            decreases self.tasks@.len() - i,
        {
            if self.tasks[i].task.task_uuid == *u {
                proof {
                    lemma_item_at(self@.items, i as int);
                }
                return Some(i);
            }
            i = i + 1;
        }
        None
    }

    /// Whether task `u` is in the tree.
    pub fn contains(&self, u: &String) -> (r: bool)
        requires
            self.wf(),
        ensures
            r == in_tree(self@.items, u@),
    {
        self.find(u).is_some()
    }

    /// The positions of the tasks of the subtree of `u`, as marks.
    fn subtree_marks(&self, u: &String) -> (marks: Vec<bool>)
        requires
            self.wf(),
        ensures
            marks@.len() == self@.items.len(),
            forall|i: int| 0 <= i < marks@.len() ==>
                (marks@[i] <==> in_subtree(self@.items, u@, #[trigger] self@.items[i].uuid)),
    {
        let ghost s = self@.items;
        let n = self.tasks.len();
        let mut marks: Vec<bool> = Vec::new();
        let mut k: usize = 0;
        while k < n
            invariant
                k <= n,
                n == s.len(),
                marks@.len() == k,
                forall|j: int| 0 <= j < k ==> !marks@[j],
            decreases n - k,
        {
            marks.push(false);
            k = k + 1;
        }
        let mut count: usize = 0;
        let ghost mut mset: Set<int> = Set::empty();
        match self.find(u) {
            Some(i) => {
                marks.set(i, true);
                count = 1;
                proof {
                    mset = mset.insert(i as int);
                    let p = seq![u@];
                    assert(is_path(s, u@, p));
                    assert(in_subtree(s, u@, s[i as int].uuid));
                    assert(marks@[i as int] && s[i as int].uuid == u@);
                }
            },
            None => {
                proof {
                    assert forall|i: int| 0 <= i < n implies !in_subtree(s, u@, #[trigger] s[i].uuid) by {
                        if in_subtree(s, u@, s[i].uuid) {
                            let p = choose|p: Seq<Seq<char>>| #[trigger] is_path(s, u@, p) && p.last() == s[i].uuid;
                        }
                    }
                }
                return marks;
            },
        }
        let mut changed = true;
        while changed
            invariant
                self.wf(),
                s == self@.items,
                n == s.len(),
                marks@.len() == n,
                count <= n,
                mset.finite(),
                mset.len() == count,
                forall|j: int| mset.contains(j) <==> (0 <= j < n && marks@[j]),
                forall|j: int| 0 <= j < n && #[trigger] marks@[j] ==> in_subtree(s, u@, s[j].uuid),
                in_tree(s, u@),
                exists|j: int| 0 <= j < n && marks@[j] && s[j].uuid == u@,
                !changed ==> forall|j: int, c: Seq<char>|
                    0 <= j < n && marks@[j] && #[trigger] s[j].children.contains(c) && in_tree(s, c)
                    ==> exists|q: int| 0 <= q < n && marks@[q] && #[trigger] s[q].uuid == c,
            decreases n - count, if changed { 1int } else { 0int },
        {
            changed = false;
            let ghost count0 = count;
            let mut i: usize = 0;
            while i < n
                invariant
                    self.wf(),
                    s == self@.items,
                    n == s.len(),
                    marks@.len() == n,
                    i <= n,
                    count0 <= count <= n,
                    changed <==> count > count0,
                    mset.finite(),
                    mset.len() == count,
                    forall|j: int| mset.contains(j) <==> (0 <= j < n && marks@[j]),
                    forall|j: int| 0 <= j < n && #[trigger] marks@[j] ==> in_subtree(s, u@, s[j].uuid),
                    exists|j: int| 0 <= j < n && marks@[j] && s[j].uuid == u@,
                    !changed ==> forall|j: int, c: Seq<char>|
                        0 <= j < i && marks@[j] && #[trigger] s[j].children.contains(c) && in_tree(s, c)
                        ==> exists|q: int| 0 <= q < n && marks@[q] && #[trigger] s[q].uuid == c,
                decreases n - i,
            {
                if marks[i] {
                    let ghost mi = marks@;
                    let children = &self.tasks[i].child_tasks;
                    let mut c: usize = 0;
                    while c < children.len()
                        invariant
                            self.wf(),
                            s == self@.items,
                            n == s.len(),
                            i < n,
                            marks@.len() == n,
                            marks@[i as int],
                            string_set(children@) == s[i as int].children,
                            c <= children@.len(),
                            count0 <= count <= n,
                            changed <==> count > count0,
                            !changed ==> marks@ == mi,
                            mset.finite(),
                            mset.len() == count,
                            forall|j: int| mset.contains(j) <==> (0 <= j < n && marks@[j]),
                            forall|j: int| 0 <= j < n && #[trigger] marks@[j] ==> in_subtree(s, u@, s[j].uuid),
                            exists|j: int| 0 <= j < n && marks@[j] && s[j].uuid == u@,
                            !changed ==> forall|j: int, x: Seq<char>|
                                0 <= j < i && marks@[j] && #[trigger] s[j].children.contains(x) && in_tree(s, x)
                                ==> exists|q: int| 0 <= q < n && marks@[q] && #[trigger] s[q].uuid == x,
                            !changed ==> forall|d: int| 0 <= d < c ==> (#[trigger] in_tree(s, children@[d]@) ==>
                                exists|q: int| 0 <= q < n && marks@[q] && #[trigger] s[q].uuid == children@[d]@),
                        decreases children@.len() - c,
                    {
                        match self.find(&children[c]) {
                            Some(j) => {
                                if !marks[j] {
                                    let ghost w = choose|w: int| 0 <= w < n && marks@[w] && s[w].uuid == u@;
                                    proof {
                                        let ghost ui = s[i as int].uuid;
                                        lemma_item_at(s, i as int);
                                        assert(string_set(children@).contains(children@[c as int]@));
                                        assert(s[i as int].children.contains(s[j as int].uuid));
                                        lemma_reach_step(s, u@, ui, s[j as int].uuid);
                                        assert(!mset.contains(j as int));
                                        mset = mset.insert(j as int);
                                        lemma_marks_bound(mset, n as int);
                                    }
                                    marks.set(j, true);
                                    assert(marks@[w] && s[w].uuid == u@);
                                    count = count + 1;
                                    changed = true;
                                }
                            },
                            None => {},
                        }
                        c = c + 1;
                    }
                    proof {
                        if !changed {
                            assert forall|j: int, x: Seq<char>|
                                0 <= j < i + 1 && marks@[j] && #[trigger] s[j].children.contains(x) && in_tree(s, x)
                                implies exists|q: int| 0 <= q < n && marks@[q] && #[trigger] s[q].uuid == x by {
                                if j == i {
                                    let children = self.tasks@[i as int].child_tasks;
                                    assert(string_set(children@).contains(x));
                                    let d = choose|d: int| 0 <= d < children@.len() && #[trigger] children@[d]@ == x;
                                    assert(in_tree(s, children@[d]@));
                                }
                            }
                        }
                    }
                }
                i = i + 1;
            }
        }
        proof {
            assert forall|i: int| 0 <= i < n implies (marks@[i] <==> in_subtree(s, u@, #[trigger] s[i].uuid)) by {
                if in_subtree(s, u@, s[i].uuid) {
                    let p = choose|p: Seq<Seq<char>>| #[trigger] is_path(s, u@, p) && p.last() == s[i].uuid;
                    lemma_reach_marked(s, u@, p, marks@);
                    let q = choose|q: int| 0 <= q < n && marks@[q] && s[q].uuid == s[i].uuid;
                    assert(q == i);
                }
            }
        }
        marks
    }

    /// Stops task `u` and every task below it: a `StopTask` for each of them
    /// that has not finished.
    pub fn stop_task(&self, u: &String) -> (r: Vec<TreeAction<P>>)
        requires
            self.wf(),
        ensures
            forall|k: int| 0 <= k < r@.len() ==> (#[trigger] r@[k]) is StopTask,
            forall|k: int| 0 <= k < r@.len() ==> (#[trigger] r@[k]).stop_fits(self@.items),
            forall|x: Seq<char>|
                #[trigger] stops_any(r@, x)
                <==> (in_subtree(self@.items, u@, x) && !item(self@.items, x).status.finished()),
    {
        let ghost s = self@.items;
        let marks = self.subtree_marks(u);
        let mut r: Vec<TreeAction<P>> = Vec::new();
        let mut i: usize = 0;
        while i < self.tasks.len()
            invariant
                self.wf(),
                s == self@.items,
                i <= s.len(),
                marks@.len() == s.len(),
                forall|j: int| 0 <= j < marks@.len() ==>
                    (marks@[j] <==> in_subtree(s, u@, #[trigger] s[j].uuid)),
                forall|k: int| 0 <= k < r@.len() ==> (#[trigger] r@[k]) is StopTask,
                forall|k: int| 0 <= k < r@.len() ==> (#[trigger] r@[k]).stop_fits(s),
                forall|x: Seq<char>|
                    #[trigger] stops_any(r@, x)
                    <==> marked_unfinished(s, marks@, i as int, x),
            decreases s.len() - i,
        {
            assert(s[i as int] == self.tasks@[i as int]@);
            if marks[i] && !self.tasks[i].task_status.is_finished() {
                let a = TreeAction::StopTask {
                    task_uuid: self.tasks[i].task.task_uuid.clone(),
                    to_controller: self.tasks[i].has_controller,
                };
                let ghost r0 = r@;
                proof {
                    lemma_item_at(s, i as int);
                }
                r.push(a);
                proof {
                    assert(r@[r0.len() as int].stop_fits(s));
                    assert forall|x: Seq<char>|
                        #[trigger] stops_any(r@, x)
                        <==> marked_unfinished(s, marks@, i + 1, x) by {
                        if stops_any(r@, x) {
                            let k = choose|k: int| 0 <= k < r@.len() && (#[trigger] r@[k]).stops(x);
                            if k < r0.len() {
                                assert(r0[k].stops(x));
                                assert(stops_any(r0, x));
                                assert(marked_unfinished(s, marks@, i as int, x));
                                let j = choose|j: int| 0 <= j < i && marks@[j] && !s[j].status.finished() && #[trigger] s[j].uuid == x;
                                assert(marked_unfinished(s, marks@, i + 1, x));
                            } else {
                                assert(s[i as int].uuid == x);
                                assert(marked_unfinished(s, marks@, i + 1, x));
                            }
                        }
                        if marked_unfinished(s, marks@, i + 1, x) {
                            let j = choose|j: int| 0 <= j < i + 1 && marks@[j] && !s[j].status.finished() && #[trigger] s[j].uuid == x;
                            if j < i {
                                assert(marked_unfinished(s, marks@, i as int, x));
                                assert(stops_any(r0, x));
                                let k = choose|k: int| 0 <= k < r0.len() && (#[trigger] r0[k]).stops(x);
                                assert(r@[k].stops(x));
                            } else {
                                assert(r@[r0.len() as int].stops(x));
                            }
                        }
                    }
                }
            } else {
                proof {
                    assert forall|x: Seq<char>|
                        #[trigger] stops_any(r@, x)
                        <==> marked_unfinished(s, marks@, i + 1, x) by {
                        if marked_unfinished(s, marks@, i + 1, x) {
                            let j = choose|j: int| 0 <= j < i + 1 && marks@[j] && !s[j].status.finished() && #[trigger] s[j].uuid == x;
                            assert(j < i);
                        }
                    }
                }
            }
            i = i + 1;
        }
        proof {
            assert forall|x: Seq<char>|
                #[trigger] marked_unfinished(s, marks@, s.len() as int, x)
                <==> (in_subtree(s, u@, x) && !item(s, x).status.finished()) by {
                if marked_unfinished(s, marks@, s.len() as int, x) {
                    let j = choose|j: int| 0 <= j < s.len() && marks@[j] && !s[j].status.finished() && #[trigger] s[j].uuid == x;
                    lemma_item_at(s, j);
                }
                if in_subtree(s, u@, x) && !item(s, x).status.finished() {
                    let p = choose|p: Seq<Seq<char>>| #[trigger] is_path(s, u@, p) && p.last() == x;
                    lemma_path_has(s, u@, p);
                    let j = choose|j: int| 0 <= j < s.len() && s[j].uuid == x;
                    lemma_item_at(s, j);
                    assert(marks@[j]);
                }
            }
        }
        r
    }

    fn remove_item(&mut self, i: usize) -> (it: TaskTreeItem<P>)
        requires
            old(self).wf(),
            i < old(self)@.items.len(),
        ensures
            final(self).wf(),
            it@ == old(self)@.items[i as int],
            it.task.wf(),
            final(self)@.items == old(self)@.items.remove(i as int),
            final(self)@.to_close == old(self)@.to_close,
            final(self)@.to_restart == old(self)@.to_restart,
            forall|x: Seq<char>| in_tree(final(self)@.items, x) <==> (in_tree(old(self)@.items, x) && x != it@.uuid),
            forall|x: Seq<char>| #[trigger] in_tree(final(self)@.items, x) ==> item(final(self)@.items, x) == item(old(self)@.items, x),
    {
        let ghost s0 = self@.items;
        let ghost t0 = self.tasks@;
        let it = self.tasks.remove(i);
        assert(self@.items =~= s0.remove(i as int));
        proof {
            let s1 = self@.items;
            assert forall|x: Seq<char>| in_tree(s1, x) <==> (in_tree(s0, x) && x != s0[i as int].uuid) by {
                if in_tree(s1, x) {
                    let j = choose|j: int| 0 <= j < s1.len() && s1[j].uuid == x;
                    if j < i {
                        assert(s1[j] == s0[j]);
                    } else {
                        assert(s1[j] == s0[j + 1]);
                    }
                }
                if in_tree(s0, x) && x != s0[i as int].uuid {
                    let j = choose|j: int| 0 <= j < s0.len() && s0[j].uuid == x;
                    if j < i {
                        assert(s1[j] == s0[j]);
                    } else {
                        assert(s1[j - 1] == s0[j]);
                    }
                }
            }
            assert forall|a: int, b: int| 0 <= a < s1.len() && 0 <= b < s1.len() && #[trigger] s1[a].uuid == #[trigger] s1[b].uuid implies a == b by {
                let a0 = if a < i { a } else { a + 1 };
                let b0 = if b < i { b } else { b + 1 };
                assert(s1[a] == s0[a0]);
                assert(s1[b] == s0[b0]);
            }
            assert forall|j: int| 0 <= j < self.tasks@.len() implies (#[trigger] self.tasks@[j]).task.wf() by {
                if j < i {
                    assert(self.tasks@[j] == t0[j]);
                } else {
                    assert(self.tasks@[j] == t0[j + 1]);
                }
            }
            assert(t0[i as int].task.wf());
            assert forall|x: Seq<char>| #[trigger] in_tree(s1, x) implies item(s1, x) == item(s0, x) by {
                let j = choose|j: int| 0 <= j < s1.len() && s1[j].uuid == x;
                let j0 = if j < i { j } else { j + 1 };
                assert(s1[j] == s0[j0]);
                lemma_item_at(s1, j);
                lemma_item_at(s0, j0);
            }
        }
        it
    }

    fn put_item(&mut self, i: usize, it: TaskTreeItem<P>)
        requires
            old(self).wf(),
            i <= old(self)@.items.len(),
            it.task.wf(),
            !in_tree(old(self)@.items, it@.uuid),
        ensures
            final(self).wf(),
            final(self)@.items == old(self)@.items.insert(i as int, it@),
            final(self)@.to_close == old(self)@.to_close,
            final(self)@.to_restart == old(self)@.to_restart,
            forall|x: Seq<char>| in_tree(final(self)@.items, x) <==> (in_tree(old(self)@.items, x) || x == it@.uuid),
    {
        let ghost s0 = self@.items;
        let ghost t0 = self.tasks@;
        let ghost iv = it@;
        self.tasks.insert(i, it);
        assert(self@.items =~= s0.insert(i as int, iv));
        proof {
            let s1 = self@.items;
            assert(s1[i as int] == iv);
            assert forall|x: Seq<char>| in_tree(s1, x) <==> (in_tree(s0, x) || x == iv.uuid) by {
                if in_tree(s1, x) {
                    let j = choose|j: int| 0 <= j < s1.len() && s1[j].uuid == x;
                    if j < i {
                        assert(s1[j] == s0[j]);
                    } else if j > i {
                        assert(s1[j] == s0[j - 1]);
                    }
                }
                if in_tree(s0, x) {
                    let j = choose|j: int| 0 <= j < s0.len() && s0[j].uuid == x;
                    if j < i {
                        assert(s1[j] == s0[j]);
                    } else {
                        assert(s1[j + 1] == s0[j]);
                    }
                }
            }
            assert forall|a: int, b: int| 0 <= a < s1.len() && 0 <= b < s1.len() && #[trigger] s1[a].uuid == #[trigger] s1[b].uuid implies a == b by {
                if a != i && b != i {
                    let a0 = if a < i { a } else { a - 1 };
                    let b0 = if b < i { b } else { b - 1 };
                    assert(s1[a] == s0[a0]);
                    assert(s1[b] == s0[b0]);
                } else if a == i && b != i {
                    let b0 = if b < i { b } else { b - 1 };
                    assert(s1[b] == s0[b0]);
                } else if b == i && a != i {
                    let a0 = if a < i { a } else { a - 1 };
                    assert(s1[a] == s0[a0]);
                }
            }
            assert forall|j: int| 0 <= j < self.tasks@.len() implies (#[trigger] self.tasks@[j]).task.wf() by {
                if j < i {
                    assert(self.tasks@[j] == t0[j]);
                } else if j > i {
                    assert(self.tasks@[j] == t0[j - 1]);
                }
            }
        }
    }

    /// Inserts a new task (replacing one with the same uuid) and adds it to
    /// the children of its parent. A task whose parent is not in the tree is
    /// an invariant violation and is not accepted.
    pub fn process_new_task(&mut self, task: WorkerTask<P>, has_controller: bool)
        requires
            old(self).wf(),
            task.wf(),
            task.task_definition.parent_task_uuid@.len() == 0
                || in_tree(old(self)@.items, task.task_definition.parent_task_uuid@),
        ensures
            final(self).wf(),
            forall|x: Seq<char>| in_tree(final(self)@.items, x) <==> (in_tree(old(self)@.items, x) || x == task.task_uuid@),
            item(final(self)@.items, task.task_uuid@).status == TaskStatus::Running,
            item(final(self)@.items, task.task_uuid@).has_controller == has_controller,
            task.task_definition.parent_task_uuid@ != task.task_uuid@
                || task.task_definition.parent_task_uuid@.len() == 0
                ==> item(final(self)@.items, task.task_uuid@).children.is_empty(),
            task.task_definition.parent_task_uuid@.len() != 0 ==>
                item(final(self)@.items, task.task_definition.parent_task_uuid@).children.contains(task.task_uuid@),
            final(self)@.to_close == old(self)@.to_close,
            final(self)@.to_restart == old(self)@.to_restart,
    {
        let ghost u = task.task_uuid@;
        let ghost pu = task.task_definition.parent_task_uuid@;
        let uuid = task.task_uuid.clone();
        let parent = task.task_definition.parent_task_uuid.clone();
        let item = TaskTreeItem::new(task, has_controller);
        assert(item@.children =~= Set::empty());
        let ghost iv = item@;
        let pos: usize;
        match self.find(&uuid) {
            Some(i) => {
                let _old_item = self.remove_item(i);
                self.put_item(i, item);
                pos = i;
            },
            None => {
                let n = self.tasks.len();
                self.put_item(n, item);
                pos = n;
            },
        }
        proof {
            let s = self@.items;
            assert(s[pos as int] == iv);
            lemma_item_at(s, pos as int);
        }
        if parent.as_str().unicode_len() != 0 {
            match self.find(&parent) {
                Some(j) => {
                    let ghost s1 = self@.items;
                    let mut p = self.remove_item(j);
                    insert_string(&mut p.child_tasks, uuid);
                    self.put_item(j, p);
                    proof {
                        let s = self@.items;
                        lemma_item_at(s, j as int);
                        if pu != u {
                            assert(s1[pos as int] == iv);
                            assert(pos != j);
                            assert(s[pos as int] == iv);
                            lemma_item_at(s, pos as int);
                        }
                    }
                },
                None => {},
            }
        }
    }

    fn set_status(&mut self, i: usize, status: TaskStatus)
        requires
            old(self).wf(),
            i < old(self)@.items.len(),
        ensures
            final(self).wf(),
            final(self)@.items == old(self)@.items.update(i as int, ItemView { status, ..old(self)@.items[i as int] }),
            final(self)@.to_close == old(self)@.to_close,
            final(self)@.to_restart == old(self)@.to_restart,
    {
        let ghost s0 = self@.items;
        let mut it = self.remove_item(i);
        it.task_status = status;
        self.put_item(i, it);
        assert(self@.items =~= s0.update(i as int, ItemView { status, ..s0[i as int] }));
    }

    /// A task update: on a terminal status the task is marked finished, the
    /// center is told, and a task waiting to be closed is closed.
    pub fn handle_task_update(&mut self, u: &String, status: TaskStatus) -> (r: Vec<TreeAction<P>>)
        requires
            old(self).wf(),
        ensures
            final(self).wf(),
            !status.finished() ==> r@.len() == 0 && final(self)@ == old(self)@,
            status.finished() ==> r@.len() >= 1 && r@[0] == (TreeAction::<P>::ReportFinished { task_uuid: *u }),
            status.finished() && !old(self)@.to_close.contains(u@) ==> r@.len() == 1
                && (forall|x: Seq<char>| in_tree(final(self)@.items, x) <==> in_tree(old(self)@.items, x))
                && (in_tree(old(self)@.items, u@) ==> item(final(self)@.items, u@).status == status),
            status.finished() && old(self)@.to_close.contains(u@) && in_tree(old(self)@.items, u@) ==>
                !in_tree(final(self)@.items, u@) && !final(self)@.to_close.contains(u@)
                && r@.subrange(1, r@.len() as int).len() >= 1
                && closes_any(r@.subrange(1, r@.len() as int), u@, item(old(self)@.items, u@).has_controller),
    {
        let mut r: Vec<TreeAction<P>> = Vec::new();
        if !status.is_finished() {
            return r;
        }
        match self.find(u) {
            Some(i) => {
                let ghost s0 = self@.items;
                self.set_status(i, status);
                proof {
                    let s = self@.items;
                    assert forall|x: Seq<char>| in_tree(s, x) <==> in_tree(s0, x) by {
                        if in_tree(s, x) {
                            let j = choose|j: int| 0 <= j < s.len() && s[j].uuid == x;
                            assert(s0[j].uuid == x);
                        }
                        if in_tree(s0, x) {
                            let j = choose|j: int| 0 <= j < s0.len() && s0[j].uuid == x;
                            assert(s[j].uuid == x);
                        }
                    }
                    lemma_item_at(s, i as int);
                }
            },
            None => {},
        }
        r.push(TreeAction::ReportFinished { task_uuid: u.clone() });
        if contains_string(&self.tasks_to_close, u) {
            let ghost mid = self@;
            let mut more = self.close_task(u);
            let ghost mv = more@;
            r.append(&mut more);
            proof {
                assert(r@.subrange(1, r@.len() as int) =~= mv);
                if in_tree(old(self)@.items, u@) {
                    let p = seq![u@];
                    assert(is_path(mid.items, u@, p));
                    assert(in_subtree(mid.items, u@, u@));
                    assert(mv.len() >= 1) by {
                        let k = choose|k: int| 0 <= k < mv.len() && #[trigger] mv[k].closes(u@, item(mid.items, u@).has_controller);
                    }
                }
            }
        }
        r
    }

    /// Marks task `u` to be restarted and closes it; see `closed_as`. When
    /// `u` had finished, it leaves the tree and comes back, once, under a new
    /// uuid; otherwise it stays marked for restart until it is closed.
    pub fn restart_task(&mut self, u: &String) -> (r: Vec<TreeAction<P>>)
        requires
            old(self).wf(),
        ensures
            final(self).wf(),
            !in_tree(old(self)@.items, u@) ==> r@.len() == 0 && final(self)@ == old(self)@,
            in_tree(old(self)@.items, u@) ==> closed_as(
                TreeView { to_restart: old(self)@.to_restart.insert(u@), ..old(self)@ }, final(self)@, u@, r@),
    {
        if !self.contains(u) {
            return Vec::new();
        }
        insert_string(&mut self.tasks_to_restart, u.clone());
        self.close_task(u)
    }

    /// Closes task `u` and the tasks below it; see `closed_as`. A finished
    /// task is closed at once: `CloseTask` is sent, it leaves the tree and,
    /// when it was marked for restart, comes back to the processor under a new
    /// uuid. A task that has not finished is marked to be closed and stopped.
    #[verifier::rlimit(100)]
    pub fn close_task(&mut self, u: &String) -> (r: Vec<TreeAction<P>>)
        requires
            old(self).wf(),
        ensures
            final(self).wf(),
            !in_tree(old(self)@.items, u@) ==> r@.len() == 0 && final(self)@ == old(self)@,
            in_tree(old(self)@.items, u@) ==> closed_as(old(self)@, final(self)@, u@, r@),
    {
        let ghost v0 = self@;
        let ghost s0 = self@.items;
        let mut r: Vec<TreeAction<P>> = Vec::new();
        if !self.contains(u) {
            return r;
        }
        let marks = self.subtree_marks(u);
        let mut targets: Vec<String> = Vec::new();
        let mut fin: Vec<bool> = Vec::new();
        let mut i: usize = 0;
        while i < self.tasks.len()
            invariant
                self.wf(),
                self@ == v0,
                s0 == self@.items,
                i <= s0.len(),
                marks@.len() == s0.len(),
                forall|j: int| 0 <= j < marks@.len() ==>
                    (marks@[j] <==> in_subtree(s0, u@, #[trigger] s0[j].uuid)),
                targets@.len() == fin@.len(),
                forall|k: int| 0 <= k < targets@.len() ==> in_subtree(s0, u@, #[trigger] targets@[k]@)
                    && fin@[k] == item(s0, targets@[k]@).status.finished(),
                forall|a: int, b: int| 0 <= a < b < targets@.len() ==> #[trigger] targets@[a]@ != #[trigger] targets@[b]@,
                forall|k: int| #![trigger targets@[k]] 0 <= k < targets@.len() ==> exists|j: int| 0 <= j < i && #[trigger] s0[j].uuid == targets@[k]@,
                forall|j: int| #![trigger marks@[j]] 0 <= j < i && marks@[j] ==> exists|k: int| 0 <= k < targets@.len() && #[trigger] targets@[k]@ == s0[j].uuid,
            decreases s0.len() - i,
        {
            assert(s0[i as int] == self.tasks@[i as int]@);
            if marks[i] {
                let ghost t0 = targets@;
                proof {
                    lemma_item_at(s0, i as int);
                    assert forall|k: int| #![trigger t0[k]] 0 <= k < t0.len() implies t0[k]@ != s0[i as int].uuid by {
                        let j = choose|j: int| 0 <= j < i && #[trigger] s0[j].uuid == t0[k]@;
                    }
                }
                targets.push(self.tasks[i].task.task_uuid.clone());
                fin.push(self.tasks[i].task_status.is_finished());
                proof {
                    assert(targets@[t0.len() as int]@ == s0[i as int].uuid);
                    assert forall|k: int| #![trigger targets@[k]] 0 <= k < targets@.len() implies exists|j: int| 0 <= j < i + 1 && #[trigger] s0[j].uuid == targets@[k]@ by {
                        if k < t0.len() {
                            assert(targets@[k] == t0[k]);
                            let j = choose|j: int| 0 <= j < i && #[trigger] s0[j].uuid == t0[k]@;
                        } else {
                            assert(s0[i as int].uuid == targets@[k]@);
                        }
                    }
                    assert forall|j: int| #![trigger marks@[j]] 0 <= j < i + 1 && marks@[j] implies exists|k: int| 0 <= k < targets@.len() && #[trigger] targets@[k]@ == s0[j].uuid by {
                        if j < i {
                            let k = choose|k: int| 0 <= k < t0.len() && #[trigger] t0[k]@ == s0[j].uuid;
                            assert(targets@[k] == t0[k]);
                        } else {
                            assert(targets@[t0.len() as int]@ == s0[j].uuid);
                        }
                    }
                }
            }
            i = i + 1;
        }
        let mut t: usize = 0;
        assert(untouched(v0, self@, string_views(targets@)));
        while t < targets.len()
            invariant
                self.wf(),
                s0 == v0.items,
                targets@.len() == fin@.len(),
                t <= targets@.len(),
                forall|k: int| 0 <= k < targets@.len() ==> in_subtree(s0, u@, #[trigger] targets@[k]@)
                    && fin@[k] == item(s0, targets@[k]@).status.finished(),
                forall|a: int, b: int| 0 <= a < b < targets@.len() ==> #[trigger] targets@[a]@ != #[trigger] targets@[b]@,
                forall|y: Seq<char>| #[trigger] in_tree(self@.items, y) ==> in_tree(s0, y) && item(self@.items, y) == item(s0, y),
                forall|q: int| 0 <= q < t && fin@[q] ==> !in_tree(self@.items, #[trigger] targets@[q]@)
                    && !self@.to_close.contains(targets@[q]@) && !self@.to_restart.contains(targets@[q]@)
                    && closes_any(r@, targets@[q]@, item(s0, targets@[q]@).has_controller)
                    && (v0.to_restart.contains(targets@[q]@) ==> reprocesses_any(r@, targets@[q]@)),
                forall|q: int| 0 <= q < t && !fin@[q] ==> self@.to_close.contains(#[trigger] targets@[q]@)
                    && in_tree(self@.items, targets@[q]@) && stops_any(r@, targets@[q]@)
                    && (self@.to_restart.contains(targets@[q]@) == v0.to_restart.contains(targets@[q]@)),
                forall|q: int| t <= q < targets@.len() ==> in_tree(self@.items, #[trigger] targets@[q]@)
                    && (self@.to_close.contains(targets@[q]@) == v0.to_close.contains(targets@[q]@))
                    && (self@.to_restart.contains(targets@[q]@) == v0.to_restart.contains(targets@[q]@)),
                untouched(v0, self@, string_views(targets@)),
                forall|k: int| 0 <= k < r@.len() ==> (#[trigger] r@[k]).close_fits(v0, u@),
                forall|k: int| 0 <= k < r@.len() && (#[trigger] r@[k]).reprocessed() is Some ==>
                    exists|q: int| 0 <= q < t && #[trigger] targets@[q]@ == r@[k].reprocessed()->Some_0,
                forall|k1: int, k2: int| 0 <= k1 < r@.len() && 0 <= k2 < r@.len() && (#[trigger] r@[k1]).reprocessed() is Some
                    && #[trigger] r@[k2].reprocessed() == r@[k1].reprocessed() ==> k1 == k2,
            decreases targets@.len() - t,
        {
            let ghost cur = self@;
            let ghost r_before = r@;
            let x = &targets[t];
            let ghost xv = x@;
            if fin[t] {
                match self.find(x) {
                    Some(idx) => {
                        let it = self.remove_item(idx);
                        proof {
                            assert(it@ == item(cur.items, xv));
                            assert(item(cur.items, xv) == item(s0, xv));
                        }
                        r.push(TreeAction::CloseTask { task_uuid: x.clone(), to_controller: it.has_controller });
                        proof {
                            assert(in_subtree(s0, u@, targets@[t as int]@));
                            assert(fin@[t as int]);
                            assert(item(s0, xv).status.finished());
                            match r@.last() {
                                TreeAction::CloseTask { task_uuid, to_controller } => {
                                    assert(task_uuid@ == xv);
                                    assert(in_subtree(v0.items, u@, task_uuid@));
                                    assert(item(v0.items, task_uuid@).status.finished());
                                    assert(to_controller == item(v0.items, task_uuid@).has_controller);
                                },
                                _ => { assert(false); },
                            }
                            assert(r@.last().close_fits(v0, u@));
                        }
                        remove_string(&mut self.tasks_to_close, x);
                        if contains_string(&self.tasks_to_restart, x) {
                            assert(it@.uuid == xv);
                            assert(it.task.task_uuid@ == xv);
                            let mut task = it.task;
                            task.update_task_uuid();
                            r.push(TreeAction::Reprocess { task, previous_uuid: x.clone() });
                            proof {
                                assert(v0.to_restart.contains(xv));
                                assert(r@.last().close_fits(v0, u@));
                                assert(r@[r_before.len() as int].close_fits(v0, u@));
                            }
                            remove_string(&mut self.tasks_to_restart, x);
                        }
                    },
                    None => {
                        assert(false);
                    },
                }
                proof {
                    assert(!in_tree(self@.items, xv));
                    assert(r@[r_before.len() as int].closes(xv, item(s0, xv).has_controller));
                    if v0.to_restart.contains(xv) {
                        assert(r@[r_before.len() as int + 1].reprocessed() == Some(xv));
                    }
                    assert(r@.len() == r_before.len() + 1 || r@.len() == r_before.len() + 2);
                    assert forall|k: int| 0 <= k < r@.len() implies (#[trigger] r@[k]).close_fits(v0, u@) by {
                        if k < r_before.len() {
                            assert(r@[k] == r_before[k]);
                        }
                    }
                    assert forall|k: int| 0 <= k < r@.len() && (#[trigger] r@[k]).reprocessed() is Some implies
                        exists|q: int| 0 <= q < t + 1 && #[trigger] targets@[q]@ == r@[k].reprocessed()->Some_0 by {
                        if k < r_before.len() {
                            assert(r@[k] == r_before[k]);
                            let q = choose|q: int| 0 <= q < t && #[trigger] targets@[q]@ == r_before[k].reprocessed()->Some_0;
                        } else {
                            assert(targets@[t as int]@ == xv);
                        }
                    }
                    assert forall|k1: int, k2: int| 0 <= k1 < r@.len() && 0 <= k2 < r@.len() && (#[trigger] r@[k1]).reprocessed() is Some
                        && #[trigger] r@[k2].reprocessed() == r@[k1].reprocessed() implies k1 == k2 by {
                        if k1 < r_before.len() {
                            assert(r@[k1] == r_before[k1]);
                            let q = choose|q: int| 0 <= q < t && #[trigger] targets@[q]@ == r_before[k1].reprocessed()->Some_0;
                            assert(targets@[q]@ != targets@[t as int]@);
                        }
                        if k2 < r_before.len() {
                            assert(r@[k2] == r_before[k2]);
                            let q = choose|q: int| 0 <= q < t && #[trigger] targets@[q]@ == r_before[k2].reprocessed()->Some_0;
                            assert(targets@[q]@ != targets@[t as int]@);
                        }
                    }
                    assert forall|q: int| 0 <= q < t + 1 && fin@[q] implies !in_tree(self@.items, #[trigger] targets@[q]@)
                        && !self@.to_close.contains(targets@[q]@) && !self@.to_restart.contains(targets@[q]@)
                        && closes_any(r@, targets@[q]@, item(s0, targets@[q]@).has_controller)
                        && (v0.to_restart.contains(targets@[q]@) ==> reprocesses_any(r@, targets@[q]@)) by {
                        if q < t {
                            assert(targets@[q]@ != targets@[t as int]@);
                            let k = choose|k: int| 0 <= k < r_before.len() && #[trigger] r_before[k].closes(targets@[q]@, item(s0, targets@[q]@).has_controller);
                            assert(r@[k] == r_before[k]);
                            if v0.to_restart.contains(targets@[q]@) {
                                let k2 = choose|k2: int| 0 <= k2 < r_before.len() && #[trigger] r_before[k2].reprocessed() == Some(targets@[q]@);
                                assert(r@[k2] == r_before[k2]);
                            }
                        }
                    }
                    assert forall|q: int| 0 <= q < t + 1 && !fin@[q] implies self@.to_close.contains(#[trigger] targets@[q]@)
                        && in_tree(self@.items, targets@[q]@) && stops_any(r@, targets@[q]@)
                        && (self@.to_restart.contains(targets@[q]@) == v0.to_restart.contains(targets@[q]@)) by {
                        assert(targets@[q]@ != targets@[t as int]@);
                        let k = choose|k: int| 0 <= k < r_before.len() && #[trigger] r_before[k].stops(targets@[q]@);
                        assert(r@[k] == r_before[k]);
                    }
                    assert forall|q: int| t + 1 <= q < targets@.len() implies in_tree(self@.items, #[trigger] targets@[q]@)
                        && (self@.to_close.contains(targets@[q]@) == v0.to_close.contains(targets@[q]@))
                        && (self@.to_restart.contains(targets@[q]@) == v0.to_restart.contains(targets@[q]@)) by {
                        assert(targets@[q]@ != targets@[t as int]@);
                    }
                    assert(string_views(targets@)[t as int] == xv);
                    assert forall|y: Seq<char>| y != xv implies (#[trigger] in_tree(self@.items, y) == in_tree(cur.items, y))
                        && (self@.to_close.contains(y) == cur.to_close.contains(y))
                        && (self@.to_restart.contains(y) == cur.to_restart.contains(y)) by {}
                    lemma_untouched_step(v0, cur, self@, string_views(targets@), xv);
                }
            } else {
                insert_string(&mut self.tasks_to_close, x.clone());
                proof {
                    assert(is_path(self@.items, xv, seq![xv]));
                    assert(in_subtree(self@.items, xv, xv));
                }
                proof {
                    assert(in_tree(self@.items, xv));
                    assert(item(self@.items, xv) == item(s0, xv));
                    assert(!item(self@.items, xv).status.finished());
                }
                let mut stops = self.stop_task(x);
                let ghost sv = stops@;
                proof {
                    assert(stops_any(sv, xv));
                }
                r.append(&mut stops);
                proof {
                    assert(r@ == r_before + sv);
                    assert forall|j: int| 0 <= j < sv.len() implies (#[trigger] sv[j]).close_fits(v0, u@) by {
                        assert(sv[j].stop_fits(self@.items));
                        assert(sv[j] is StopTask);
                        match sv[j] {
                            TreeAction::StopTask { task_uuid, .. } => {
                                assert(in_tree(self@.items, task_uuid@));
                                assert(item(self@.items, task_uuid@) == item(s0, task_uuid@));
                            },
                            _ => {},
                        }
                    }
                    let k0 = choose|k: int| 0 <= k < sv.len() && #[trigger] sv[k].stops(xv);
                    assert(r@[r_before.len() as int + k0] == sv[k0]);
                    assert(stops_any(r@, xv));
                    assert forall|k: int| 0 <= k < r@.len() implies (#[trigger] r@[k]).close_fits(v0, u@) by {
                        if k < r_before.len() {
                            assert(r@[k] == r_before[k]);
                        } else {
                            assert(r@[k] == sv[k - r_before.len()]);
                        }
                    }
                    assert forall|k: int| 0 <= k < r@.len() && (#[trigger] r@[k]).reprocessed() is Some implies
                        exists|q: int| 0 <= q < t + 1 && #[trigger] targets@[q]@ == r@[k].reprocessed()->Some_0 by {
                        if k < r_before.len() {
                            assert(r@[k] == r_before[k]);
                            let q = choose|q: int| 0 <= q < t && #[trigger] targets@[q]@ == r_before[k].reprocessed()->Some_0;
                        } else {
                            assert(r@[k] == sv[k - r_before.len()]);
                            assert(sv[k - r_before.len()] is StopTask);
                        }
                    }
                    assert forall|k1: int, k2: int| 0 <= k1 < r@.len() && 0 <= k2 < r@.len() && (#[trigger] r@[k1]).reprocessed() is Some
                        && #[trigger] r@[k2].reprocessed() == r@[k1].reprocessed() implies k1 == k2 by {
                        if k1 >= r_before.len() {
                            assert(r@[k1] == sv[k1 - r_before.len()]);
                            assert(sv[k1 - r_before.len()] is StopTask);
                        }
                        if k2 >= r_before.len() {
                            assert(r@[k2] == sv[k2 - r_before.len()]);
                            assert(sv[k2 - r_before.len()] is StopTask);
                        }
                        assert(r@[k1] == r_before[k1]);
                        assert(r@[k2] == r_before[k2]);
                    }
                    assert forall|q: int| 0 <= q < t + 1 && fin@[q] implies !in_tree(self@.items, #[trigger] targets@[q]@)
                        && !self@.to_close.contains(targets@[q]@) && !self@.to_restart.contains(targets@[q]@)
                        && closes_any(r@, targets@[q]@, item(s0, targets@[q]@).has_controller)
                        && (v0.to_restart.contains(targets@[q]@) ==> reprocesses_any(r@, targets@[q]@)) by {
                        assert(targets@[q]@ != targets@[t as int]@);
                        let k = choose|k: int| 0 <= k < r_before.len() && #[trigger] r_before[k].closes(targets@[q]@, item(s0, targets@[q]@).has_controller);
                        assert(r@[k] == r_before[k]);
                        if v0.to_restart.contains(targets@[q]@) {
                            let k2 = choose|k2: int| 0 <= k2 < r_before.len() && #[trigger] r_before[k2].reprocessed() == Some(targets@[q]@);
                            assert(r@[k2] == r_before[k2]);
                        }
                    }
                    assert forall|q: int| 0 <= q < t + 1 && !fin@[q] implies self@.to_close.contains(#[trigger] targets@[q]@)
                        && in_tree(self@.items, targets@[q]@) && stops_any(r@, targets@[q]@)
                        && (self@.to_restart.contains(targets@[q]@) == v0.to_restart.contains(targets@[q]@)) by {
                        if q < t {
                            let k = choose|k: int| 0 <= k < r_before.len() && #[trigger] r_before[k].stops(targets@[q]@);
                            assert(r@[k] == r_before[k]);
                        }
                    }
                    assert forall|q: int| t + 1 <= q < targets@.len() implies in_tree(self@.items, #[trigger] targets@[q]@)
                        && (self@.to_close.contains(targets@[q]@) == v0.to_close.contains(targets@[q]@))
                        && (self@.to_restart.contains(targets@[q]@) == v0.to_restart.contains(targets@[q]@)) by {
                        assert(targets@[q]@ != targets@[t as int]@);
                    }
                    assert(string_views(targets@)[t as int] == xv);
                    assert forall|y: Seq<char>| y != xv implies (#[trigger] in_tree(self@.items, y) == in_tree(cur.items, y))
                        && (self@.to_close.contains(y) == cur.to_close.contains(y))
                        && (self@.to_restart.contains(y) == cur.to_restart.contains(y)) by {}
                    lemma_untouched_step(v0, cur, self@, string_views(targets@), xv);
                }
            }
            t = t + 1;
        }
        proof {
            let w = self@;
            assert forall|x: Seq<char>| #[trigger] in_subtree(s0, u@, x) implies
                exists|k: int| 0 <= k < targets@.len() && #[trigger] targets@[k]@ == x by {
                let p = choose|p: Seq<Seq<char>>| #[trigger] is_path(s0, u@, p) && p.last() == x;
                lemma_path_has(s0, u@, p);
                let j = choose|j: int| 0 <= j < s0.len() && s0[j].uuid == x;
                assert(marks@[j]);
            }
            assert forall|x: Seq<char>| #[trigger] in_subtree(s0, u@, x) && item(s0, x).status.finished() implies
                !in_tree(w.items, x) && !w.to_close.contains(x) && !w.to_restart.contains(x)
                && closes_any(r@, x, item(s0, x).has_controller)
                && (v0.to_restart.contains(x) ==> reprocesses_any(r@, x)) by {
                let k = choose|k: int| 0 <= k < targets@.len() && #[trigger] targets@[k]@ == x;
            }
            assert forall|x: Seq<char>| #[trigger] in_subtree(s0, u@, x) && !item(s0, x).status.finished() implies
                in_tree(w.items, x) && item(w.items, x) == item(s0, x) && w.to_close.contains(x) && stops_any(r@, x)
                && (w.to_restart.contains(x) == v0.to_restart.contains(x)) by {
                let k = choose|k: int| 0 <= k < targets@.len() && #[trigger] targets@[k]@ == x;
            }
            assert forall|x: Seq<char>| !#[trigger] in_subtree(s0, u@, x) implies
                (in_tree(w.items, x) == in_tree(s0, x)) && (in_tree(s0, x) ==> item(w.items, x) == item(s0, x))
                && (w.to_close.contains(x) == v0.to_close.contains(x)) && (w.to_restart.contains(x) == v0.to_restart.contains(x)) by {
                assert forall|q: int| 0 <= q < targets@.len() implies #[trigger] targets@[q]@ != x by {
                    assert(in_subtree(s0, u@, targets@[q]@));
                }
                if string_views(targets@).contains(x) {
                    let q = choose|q: int| 0 <= q < targets@.len() && string_views(targets@)[q] == x;
                    assert(targets@[q]@ == x);
                }
                assert(in_tree(w.items, x) == in_tree(s0, x));
                if in_tree(w.items, x) {
                    assert(item(w.items, x) == item(s0, x));
                }
            }
        }
        r
    }

    /// A control command for task `target`: `stop_task`, `close_task` and
    /// `restart_task` act on it; other commands are ignored.
    pub fn handle_control_message(&mut self, cmd: &str, target: &String) -> (r: Vec<TreeAction<P>>)
        requires
            old(self).wf(),
        ensures
            final(self).wf(),
            command_of(cmd@) == ControlCommand::StopTask ==> final(self)@ == old(self)@
                && forall|x: Seq<char>| #[trigger] stops_any(r@, x)
                    <==> (in_subtree(old(self)@.items, target@, x) && !item(old(self)@.items, x).status.finished()),
            command_of(cmd@) == ControlCommand::CloseTask && in_tree(old(self)@.items, target@)
                ==> closed_as(old(self)@, final(self)@, target@, r@),
            command_of(cmd@) == ControlCommand::RestartTask && in_tree(old(self)@.items, target@)
                ==> closed_as(TreeView { to_restart: old(self)@.to_restart.insert(target@), ..old(self)@ }, final(self)@, target@, r@),
            (command_of(cmd@) == ControlCommand::CloseTask || command_of(cmd@) == ControlCommand::RestartTask)
                && !in_tree(old(self)@.items, target@) ==> r@.len() == 0 && final(self)@ == old(self)@,
            command_of(cmd@) != ControlCommand::StopTask && command_of(cmd@) != ControlCommand::CloseTask
                && command_of(cmd@) != ControlCommand::RestartTask ==> r@.len() == 0 && final(self)@ == old(self)@,
    {
        match ControlCommand::from_str(cmd) {
            ControlCommand::StopTask => self.stop_task(target),
            ControlCommand::CloseTask => self.close_task(target),
            ControlCommand::RestartTask => self.restart_task(target),
            _ => Vec::new(),
        }
    }
}

proof fn lemma_path_has(s: Seq<ItemView>, u: Seq<char>, p: Seq<Seq<char>>)
    requires
        is_path(s, u, p),
    ensures
        in_tree(s, p.last()),
{
    if p.len() > 1 {
        let k = p.len() - 2;
        assert(item(s, p[k]).children.contains(p[k + 1]) && in_tree(s, p[k + 1]));
    }
}

proof fn lemma_reach_step(s: Seq<ItemView>, u: Seq<char>, y: Seq<char>, x: Seq<char>)
    requires
        in_subtree(s, u, y),
        item(s, y).children.contains(x),
        in_tree(s, x),
    ensures
        in_subtree(s, u, x),
{
    let p = choose|p: Seq<Seq<char>>| #[trigger] is_path(s, u, p) && p.last() == y;
    let q = p.push(x);
    assert forall|k: int| 0 <= k < q.len() - 1 implies
        item(s, q[k]).children.contains(#[trigger] q[k + 1]) && in_tree(s, q[k + 1]) by {
        if k < p.len() - 1 {
            assert(q[k] == p[k] && q[k + 1] == p[k + 1]);
            assert(item(s, p[k]).children.contains(p[k + 1]) && in_tree(s, p[k + 1]));
        }
    }
    assert(is_path(s, u, q));
}

proof fn lemma_marks_bound(mset: Set<int>, n: int)
    requires
        forall|j: int| mset.contains(j) ==> 0 <= j < n,
        n >= 0,
    ensures
        mset.finite(),
        mset.len() <= n,
{
    let r = vstd::set_lib::set_int_range(0, n);
    assert(mset.subset_of(r));
    vstd::set_lib::lemma_int_range(0, n);
    vstd::set_lib::lemma_len_subset(mset, r);
}

proof fn lemma_reach_marked(s: Seq<ItemView>, u: Seq<char>, p: Seq<Seq<char>>, marks: Seq<bool>)
    requires
        unique(s),
        marks.len() == s.len(),
        is_path(s, u, p),
        exists|j: int| 0 <= j < s.len() && marks[j] && s[j].uuid == u,
        forall|j: int, c: Seq<char>|
            0 <= j < s.len() && marks[j] && #[trigger] s[j].children.contains(c) && in_tree(s, c)
            ==> exists|q: int| 0 <= q < s.len() && marks[q] && #[trigger] s[q].uuid == c,
    ensures
        exists|q: int| 0 <= q < s.len() && marks[q] && s[q].uuid == p.last(),
    decreases p.len(),
{
    if p.len() > 1 {
        let p0 = p.drop_last();
        assert forall|k: int| 0 <= k < p0.len() - 1 implies
            item(s, p0[k]).children.contains(#[trigger] p0[k + 1]) && in_tree(s, p0[k + 1]) by {
            assert(p0[k] == p[k] && p0[k + 1] == p[k + 1]);
            assert(item(s, p[k]).children.contains(p[k + 1]) && in_tree(s, p[k + 1]));
        }
        assert(is_path(s, u, p0));
        lemma_reach_marked(s, u, p0, marks);
        let q = choose|q: int| 0 <= q < s.len() && marks[q] && s[q].uuid == p0.last();
        lemma_item_at(s, q);
        let k = p.len() - 2;
        assert(item(s, p[k]).children.contains(p[k + 1]) && in_tree(s, p[k + 1]));
        assert(s[q].children.contains(p.last()));
    }
}

} // verus!
