//! The task tracker: subscriptions to task updates, by task uuid and by task
//! name, and a replay cache of the last center message of each kind.

use vstd::prelude::*;
use crate::task::TaskStatus;
use crate::text::{string_set, string_views, contains_string, insert_string, remove_string, distinct_strings};
use crate::transport::{RawMessage, RawView};
use crate::control_message::{ControlCommand, command_of};

verus! {

/// The reason of a task update.
#[derive(Clone, Copy, PartialEq, Eq, Structural, Debug)]
pub enum TaskUpdateTag {
    Unknown,
    Started,
    Updated,
    Finished,
    Question,
}

/// An update of a task's status, with the center message that reports it.
pub struct TaskUpdate {
    pub task_uuid: String,
    pub name: String,
    pub status: TaskStatus,
    pub center_msg: Option<RawMessage>,
    pub tag: TaskUpdateTag,
}

impl TaskUpdate {
    pub fn new(task_uuid: String, status: TaskStatus, tag: TaskUpdateTag, name: String) -> (r: Self)
        ensures
            r.task_uuid == task_uuid,
            r.status == status,
            r.tag == tag,
            r.name == name,
            r.center_msg is None,
    {
        TaskUpdate { task_uuid, name, status, center_msg: None, tag }
    }

    pub fn with_center_msg(
        task_uuid: String,
        status: TaskStatus,
        center_msg: RawMessage,
        tag: TaskUpdateTag,
        name: String,
    ) -> (r: Self)
        ensures
            r.task_uuid == task_uuid,
            r.status == status,
            r.tag == tag,
            r.name == name,
            r.center_msg == Some(center_msg),
    {
        TaskUpdate { task_uuid, name, status, center_msg: Some(center_msg), tag }
    }
}

/// The subscribers and the replay cache of one task.
pub struct TrackerItem {
    pub task_uuid: String,
    pub subscribers: Vec<String>,
    pub started: Option<RawMessage>,
    pub updated: Option<RawMessage>,
    pub finished: Option<RawMessage>,
    pub question: Option<RawMessage>,
}

impl TrackerItem {
    /// An item with no subscribers and nothing cached.
    pub fn new(task_uuid: String) -> (r: Self)
        ensures
            r@ == (ItemView {
                uuid: task_uuid@,
                subscribers: Set::empty(),
                started: None,
                updated: None,
                finished: None,
                question: None,
            }),
    {
        let r = TrackerItem {
            task_uuid,
            subscribers: Vec::new(),
            started: None,
            updated: None,
            finished: None,
            question: None,
        };
        assert(string_set(r.subscribers@) =~= Set::empty());
        r
    }
}

pub open spec fn raw_opt(m: Option<RawMessage>) -> Option<RawView> {
    match m {
        Some(x) => Some(x@),
        None => None,
    }
}

/// A tracker item as a value.
pub struct ItemView {
    pub uuid: Seq<char>,
    pub subscribers: Set<Seq<char>>,
    pub started: Option<RawView>,
    pub updated: Option<RawView>,
    pub finished: Option<RawView>,
    pub question: Option<RawView>,
}

impl View for TrackerItem {
    type V = ItemView;

    open spec fn view(&self) -> ItemView {
        ItemView {
            uuid: self.task_uuid@,
            subscribers: string_set(self.subscribers@),
            started: raw_opt(self.started),
            updated: raw_opt(self.updated),
            finished: raw_opt(self.finished),
            question: raw_opt(self.question),
        }
    }
}

impl ItemView {
    /// The cache with the message for `tag` set to `m`.
    pub open spec fn cached(self, tag: TaskUpdateTag, m: RawView) -> ItemView {
        match tag {
            TaskUpdateTag::Started => ItemView { started: Some(m), ..self },
            TaskUpdateTag::Updated => ItemView { updated: Some(m), ..self },
            TaskUpdateTag::Finished => ItemView { finished: Some(m), ..self },
            TaskUpdateTag::Question => ItemView { question: Some(m), ..self },
            TaskUpdateTag::Unknown => self,
        }
    }
}

pub open spec fn opt_seq(m: Option<RawView>) -> Seq<RawView> {
    match m {
        Some(x) => seq![x],
        None => seq![],
    }
}

/// The cached messages of an item in replay order: started, updated,
/// finished, question.
pub open spec fn replay_order(it: ItemView) -> Seq<RawView> {
    opt_seq(it.started) + opt_seq(it.updated) + opt_seq(it.finished) + opt_seq(it.question)
}

/// The subscribers of the tasks of one name.
pub struct NameSubscribers {
    pub name: String,
    pub subscribers: Vec<String>,
}

pub struct TrackerView {
    pub items: Seq<ItemView>,
    pub recipients: Set<Seq<char>>,
    pub by_name: Seq<(Seq<char>, Set<Seq<char>>)>,
}

pub open spec fn has_item(s: Seq<ItemView>, u: Seq<char>) -> bool {
    exists|i: int| 0 <= i < s.len() && #[trigger] s[i].uuid == u
}

pub open spec fn item_of(s: Seq<ItemView>, u: Seq<char>) -> ItemView {
    s[choose|i: int| 0 <= i < s.len() && s[i].uuid == u]
}

pub open spec fn has_name(s: Seq<(Seq<char>, Set<Seq<char>>)>, n: Seq<char>) -> bool {
    exists|i: int| 0 <= i < s.len() && #[trigger] s[i].0 == n
}

pub open spec fn name_subscribers(s: Seq<(Seq<char>, Set<Seq<char>>)>, n: Seq<char>) -> Set<Seq<char>> {
    s[choose|i: int| 0 <= i < s.len() && s[i].0 == n].1
}

pub open spec fn items_unique(s: Seq<ItemView>) -> bool {
    forall|i: int, j: int| 0 <= i < s.len() && 0 <= j < s.len() && #[trigger] s[i].uuid == #[trigger] s[j].uuid ==> i == j
}

pub open spec fn names_unique(s: Seq<(Seq<char>, Set<Seq<char>>)>) -> bool {
    forall|i: int, j: int| 0 <= i < s.len() && 0 <= j < s.len() && #[trigger] s[i].0 == #[trigger] s[j].0 ==> i == j
}

proof fn lemma_item_of(s: Seq<ItemView>, i: int)
    requires
        items_unique(s),
        0 <= i < s.len(),
    ensures
        item_of(s, s[i].uuid) == s[i],
{
    let j = choose|j: int| 0 <= j < s.len() && s[j].uuid == s[i].uuid;
    assert(s[j].uuid == s[i].uuid);
}

proof fn lemma_name_of(s: Seq<(Seq<char>, Set<Seq<char>>)>, i: int)
    requires
        names_unique(s),
        0 <= i < s.len(),
    ensures
        name_subscribers(s, s[i].0) == s[i].1,
{
    let j = choose|j: int| 0 <= j < s.len() && s[j].0 == s[i].0;
    assert(s[j].0 == s[i].0);
}

/// Whom a task update goes to, in this order: each subscriber of the task
/// once (`lite`), the center (the attached message), each subscriber of the
/// task's name once (`lite`), and then the task tree, the task assistant and
/// the app state (`lite`). `lite` is the update without its center message.
pub struct Fanout {
    pub subscribers: Vec<String>,
    pub center: Option<RawMessage>,
    pub by_name: Vec<String>,
    pub lite: TaskUpdate,
}

/// The task tracker.
pub struct TaskTracker {
    items: Vec<TrackerItem>,
    task_update_recipients: Vec<String>,
    subscribers_by_name: Vec<NameSubscribers>,
}

pub open spec fn tracker_items(v: Seq<TrackerItem>) -> Seq<ItemView> {
    v.map_values(|it: TrackerItem| it@)
}

pub open spec fn name_entries(v: Seq<NameSubscribers>) -> Seq<(Seq<char>, Set<Seq<char>>)> {
    v.map_values(|e: NameSubscribers| (e.name@, string_set(e.subscribers@)))
}

impl View for TaskTracker {
    type V = TrackerView;

    closed spec fn view(&self) -> TrackerView {
        TrackerView {
            items: tracker_items(self.items@),
            recipients: string_set(self.task_update_recipients@),
            by_name: name_entries(self.subscribers_by_name@),
        }
    }
}

impl TaskTracker {
    pub closed spec fn wf(&self) -> bool {
        items_unique(self@.items) && names_unique(self@.by_name)
    }

    pub fn new() -> (r: Self)
        ensures
            r.wf(),
            r@.items.len() == 0,
            r@.recipients.is_empty(),
            r@.by_name.len() == 0,
    {
        let r = TaskTracker { items: Vec::new(), task_update_recipients: Vec::new(), subscribers_by_name: Vec::new() };
        assert(r@.recipients =~= Set::empty());
        r
    }

    fn find_item(&self, u: &String) -> (r: Option<usize>)
        requires
            self.wf(),
        ensures
            match r {
                Some(i) => i < self@.items.len() && self@.items[i as int].uuid == u@
                    && item_of(self@.items, u@) == self@.items[i as int],
                None => !has_item(self@.items, u@),
            },
    {
        let mut i: usize = 0;
        while i < self.items.len()
            invariant
                self.wf(),
                i <= self.items@.len(),
                forall|j: int| 0 <= j < i ==> self@.items[j].uuid != u@,
            decreases self.items@.len() - i,
        {
            if self.items[i].task_uuid == *u {
                proof {
                    lemma_item_of(self@.items, i as int);
                }
                return Some(i);
            }
            i = i + 1;
        }
        None
    }

    fn find_name(&self, n: &String) -> (r: Option<usize>)
        requires
            self.wf(),
        ensures
            match r {
                Some(i) => i < self@.by_name.len() && self@.by_name[i as int].0 == n@
                    && name_subscribers(self@.by_name, n@) == self@.by_name[i as int].1,
                None => !has_name(self@.by_name, n@),
            },
    {
        let mut i: usize = 0;
        while i < self.subscribers_by_name.len()
            invariant
                self.wf(),
                i <= self.subscribers_by_name@.len(),
                forall|j: int| 0 <= j < i ==> self@.by_name[j].0 != n@,
            decreases self.subscribers_by_name@.len() - i,
        {
            if self.subscribers_by_name[i].name == *n {
                proof {
                    lemma_name_of(self@.by_name, i as int);
                }
                return Some(i);
            }
            i = i + 1;
        }
        None
    }

    /// Replaces item `i` by one with the same uuid.
    fn replace_item(&mut self, i: usize, it: TrackerItem)
        requires
            old(self).wf(),
            i < old(self)@.items.len(),
            it@.uuid == old(self)@.items[i as int].uuid,
        ensures
            final(self).wf(),
            final(self)@ == (TrackerView { items: old(self)@.items.update(i as int, it@), ..old(self)@ }),
    {
        let ghost iv = it@;
        self.items.set(i, it);
        assert(tracker_items(self.items@) =~= old(self)@.items.update(i as int, iv));
        assert(self@.items.map_values(|x: ItemView| x.uuid) =~= old(self)@.items.map_values(|x: ItemView| x.uuid));
        assert forall|a: int, b: int| 0 <= a < self@.items.len() && 0 <= b < self@.items.len()
            && #[trigger] self@.items[a].uuid == #[trigger] self@.items[b].uuid implies a == b by {
            assert(self@.items[a].uuid == old(self)@.items[a].uuid);
            assert(self@.items[b].uuid == old(self)@.items[b].uuid);
        }
    }

    /// Replaces name entry `i` by one with the same name.
    fn replace_name(&mut self, i: usize, e: NameSubscribers)
        requires
            old(self).wf(),
            i < old(self)@.by_name.len(),
            e.name@ == old(self)@.by_name[i as int].0,
        ensures
            final(self).wf(),
            final(self)@ == (TrackerView {
                by_name: old(self)@.by_name.update(i as int, (e.name@, string_set(e.subscribers@))),
                ..old(self)@
            }),
    {
        let ghost ev = (e.name@, string_set(e.subscribers@));
        self.subscribers_by_name.set(i, e);
        assert(name_entries(self.subscribers_by_name@) =~= old(self)@.by_name.update(i as int, ev));
        assert forall|a: int, b: int| 0 <= a < self@.by_name.len() && 0 <= b < self@.by_name.len()
            && #[trigger] self@.by_name[a].0 == #[trigger] self@.by_name[b].0 implies a == b by {
            assert(self@.by_name[a].0 == old(self)@.by_name[a].0);
            assert(self@.by_name[b].0 == old(self)@.by_name[b].0);
        }
    }

    /// Whether `id` is a registered recipient of task updates.
    pub fn is_registered(&self, id: &String) -> (r: bool)
        ensures
            r == self@.recipients.contains(id@),
    {
        contains_string(&self.task_update_recipients, id)
    }

    /// Registers a recipient of task updates. Registering one twice is an
    /// invariant violation and is not accepted.
    pub fn register_task_update_recipient(&mut self, id: String)
        requires
            old(self).wf(),
            !old(self)@.recipients.contains(id@),
        ensures
            final(self).wf(),
            final(self)@ == (TrackerView { recipients: old(self)@.recipients.insert(id@), ..old(self)@ }),
    {
        insert_string(&mut self.task_update_recipients, id);
    }

    pub fn unregister_task_update_recipient(&mut self, id: &String)
        requires
            old(self).wf(),
        ensures
            final(self).wf(),
            final(self)@ == (TrackerView { recipients: old(self)@.recipients.remove(id@), ..old(self)@ }),
    {
        remove_string(&mut self.task_update_recipients, id);
    }

    /// Subscribes `subscriber_uuid` to the updates of task `task_uuid`, or,
    /// `by_name`, of every task named `name`. A by-uuid subscription of one
    /// already subscribed by name is ignored. A subscriber given without an
    /// address must be a registered recipient.
    pub fn subscribe(&mut self, task_uuid: String, subscriber_uuid: String, name: String, by_name: bool, has_addr: bool)
        requires
            old(self).wf(),
            has_addr || old(self)@.recipients.contains(subscriber_uuid@),
            by_name ==> name@.len() > 0,
        ensures
            final(self).wf(),
            final(self)@.recipients == old(self)@.recipients,
            by_name ==> final(self)@.items == old(self)@.items
                && has_name(final(self)@.by_name, name@)
                && name_subscribers(final(self)@.by_name, name@) == (if has_name(old(self)@.by_name, name@) {
                    name_subscribers(old(self)@.by_name, name@)
                } else {
                    Set::empty()
                }).insert(subscriber_uuid@),
            !by_name && has_name(old(self)@.by_name, name@)
                && name_subscribers(old(self)@.by_name, name@).contains(subscriber_uuid@)
                ==> final(self)@ == old(self)@,
            !by_name && !(has_name(old(self)@.by_name, name@)
                && name_subscribers(old(self)@.by_name, name@).contains(subscriber_uuid@))
                ==> final(self)@.by_name == old(self)@.by_name
                && has_item(final(self)@.items, task_uuid@)
                && item_of(final(self)@.items, task_uuid@).subscribers == (if has_item(old(self)@.items, task_uuid@) {
                    item_of(old(self)@.items, task_uuid@).subscribers
                } else {
                    Set::empty()
                }).insert(subscriber_uuid@),
            !by_name ==> final(self)@.items.len() <= old(self)@.items.len() + 1
                && (forall|j: int| 0 <= j < old(self)@.items.len() && old(self)@.items[j].uuid != task_uuid@
                    ==> #[trigger] final(self)@.items[j] == old(self)@.items[j])
                && (forall|j: int| old(self)@.items.len() <= j < final(self)@.items.len()
                    ==> (#[trigger] final(self)@.items[j]).uuid == task_uuid@),
    {
        if by_name {
            match self.find_name(&name) {
                Some(i) => {
                    let mut subs = self.subscribers_by_name[i].subscribers.clone();
                    assert(subs@ =~= self.subscribers_by_name@[i as int].subscribers@);
                    insert_string(&mut subs, subscriber_uuid);
                    self.replace_name(i, NameSubscribers { name, subscribers: subs });
                    proof {
                        lemma_name_of(self@.by_name, i as int);
                    }
                },
                None => {
                    let mut subs: Vec<String> = Vec::new();
                    insert_string(&mut subs, subscriber_uuid);
                    let ghost nb = self@.by_name;
                    let ghost ev = (name@, string_set(subs@));
                    assert(string_set(Seq::<String>::empty()) =~= Set::empty());
                    self.subscribers_by_name.push(NameSubscribers { name, subscribers: subs });
                    proof {
                        assert(self@.by_name =~= nb.push(ev));
                        let s = self@.by_name;
                        assert forall|a: int, b: int| 0 <= a < s.len() && 0 <= b < s.len()
                            && #[trigger] s[a].0 == #[trigger] s[b].0 implies a == b by {
                            if a < nb.len() && b < nb.len() {
                                assert(s[a] == nb[a] && s[b] == nb[b]);
                            } else if a < nb.len() {
                                assert(s[a] == nb[a]);
                            } else if b < nb.len() {
                                assert(s[b] == nb[b]);
                            }
                        }
                        lemma_name_of(s, nb.len() as int);
                    }
                },
            }
            return;
        }
        match self.find_name(&name) {
            Some(i) => {
                if contains_string(&self.subscribers_by_name[i].subscribers, &subscriber_uuid) {
                    return;
                }
            },
            None => {},
        }
        let ghost s0 = self@.items;
        let ghost tu = task_uuid@;
        assert(s0 == old(self)@.items);
        assert(self@.by_name == old(self)@.by_name);
        match self.find_item(&task_uuid) {
            Some(i) => {
                let mut subs = self.items[i].subscribers.clone();
                assert(subs@ =~= self.items@[i as int].subscribers@);
                insert_string(&mut subs, subscriber_uuid);
                let it = TrackerItem {
                    task_uuid,
                    subscribers: subs,
                    started: copy_opt(&self.items[i].started),
                    updated: copy_opt(&self.items[i].updated),
                    finished: copy_opt(&self.items[i].finished),
                    question: copy_opt(&self.items[i].question),
                };
                let ghost before_replace = self@.items;
                self.replace_item(i, it);
                proof {
                    let s = self@.items;
                    lemma_item_of(s, i as int);
                    assert(before_replace == s0);
                    assert(s == s0.update(i as int, s[i as int]));
                    assert(s0[i as int].uuid == tu);
                    assert forall|u: Seq<char>| u != tu implies (#[trigger] has_item(s, u) == has_item(s0, u))
                        && (has_item(s0, u) ==> item_of(s, u) == item_of(s0, u)) by {
                        if has_item(s, u) {
                            let j = choose|j: int| 0 <= j < s.len() && s[j].uuid == u;
                            assert(j != i);
                            assert(s0[j].uuid == u);
                        }
                        if has_item(s0, u) {
                            let j = choose|j: int| 0 <= j < s0.len() && s0[j].uuid == u;
                            assert(j != i);
                            assert(s[j] == s0[j]);
                            lemma_item_of(s, j);
                            lemma_item_of(s0, j);
                        }
                    }
                }
            },
            None => {
                let mut subs: Vec<String> = Vec::new();
                insert_string(&mut subs, subscriber_uuid);
                assert(string_set(Seq::<String>::empty()) =~= Set::empty());
                let new_item = TrackerItem {
                    task_uuid,
                    subscribers: subs,
                    started: None,
                    updated: None,
                    finished: None,
                    question: None,
                };
                assert(new_item@.uuid == tu);
                let ghost before_push = self@.items;
                assert(before_push == s0);
                self.push_item(new_item);
                proof {
                    let s = self@.items;
                    assert(s == s0.push(s[s0.len() as int]));
                    assert(s[s0.len() as int].uuid == tu);
                    assert forall|u: Seq<char>| u != tu implies (#[trigger] has_item(s, u) == has_item(s0, u))
                        && (has_item(s0, u) ==> item_of(s, u) == item_of(s0, u)) by {
                        if has_item(s, u) {
                            let j = choose|j: int| 0 <= j < s.len() && s[j].uuid == u;
                            assert(j < s0.len());
                            assert(s0[j].uuid == u);
                        }
                        if has_item(s0, u) {
                            let j = choose|j: int| 0 <= j < s0.len() && s0[j].uuid == u;
                            assert(s[j] == s0[j]);
                            lemma_item_of(s, j);
                            lemma_item_of(s0, j);
                        }
                    }
                }
            },
        }
    }

    fn push_item(&mut self, it: TrackerItem)
        requires
            old(self).wf(),
            !has_item(old(self)@.items, it@.uuid),
        ensures
            final(self).wf(),
            final(self)@ == (TrackerView { items: old(self)@.items.push(it@), ..old(self)@ }),
            has_item(final(self)@.items, it@.uuid),
            item_of(final(self)@.items, it@.uuid) == it@,
    {
        let ghost s0 = self@.items;
        let ghost iv = it@;
        self.items.push(it);
        assert(self@.items =~= s0.push(iv));
        proof {
        let s = self@.items;
        assert forall|a: int, b: int| 0 <= a < s.len() && 0 <= b < s.len()
            && #[trigger] s[a].uuid == #[trigger] s[b].uuid implies a == b by {
            if a < s0.len() && b < s0.len() {
                assert(s[a] == s0[a] && s[b] == s0[b]);
            } else if a < s0.len() {
                assert(s[a] == s0[a]);
            } else if b < s0.len() {
                assert(s[b] == s0[b]);
            }
        }
        lemma_item_of(s, s0.len() as int);
        }
    }

    /// Unsubscribes `subscriber_uuid` from task `task_uuid`, or, `by_name`,
    /// from the tasks named `name`, which must be a known, non-empty name.
    pub fn unsubscribe(&mut self, task_uuid: &String, subscriber_uuid: &String, name: &String, by_name: bool)
        requires
            old(self).wf(),
            by_name ==> name@.len() > 0 && has_name(old(self)@.by_name, name@),
        ensures
            final(self).wf(),
            final(self)@.recipients == old(self)@.recipients,
            by_name ==> final(self)@.items == old(self)@.items
                && has_name(final(self)@.by_name, name@)
                && name_subscribers(final(self)@.by_name, name@)
                    == name_subscribers(old(self)@.by_name, name@).remove(subscriber_uuid@),
            !by_name ==> final(self)@.by_name == old(self)@.by_name
                && (forall|u: Seq<char>| has_item(final(self)@.items, u) <==> has_item(old(self)@.items, u))
                && (has_item(old(self)@.items, task_uuid@) ==>
                    item_of(final(self)@.items, task_uuid@).subscribers
                        == item_of(old(self)@.items, task_uuid@).subscribers.remove(subscriber_uuid@)),
    {
        if by_name {
            match self.find_name(name) {
                Some(i) => {
                    let mut subs = self.subscribers_by_name[i].subscribers.clone();
                    assert(subs@ =~= self.subscribers_by_name@[i as int].subscribers@);
                    remove_string(&mut subs, subscriber_uuid);
                    self.replace_name(i, NameSubscribers { name: name.clone(), subscribers: subs });
                    proof {
                        lemma_name_of(self@.by_name, i as int);
                        assert(self@.by_name[i as int].0 == name@);
                    }
                },
                None => {},
            }
            return;
        }
        match self.find_item(task_uuid) {
            Some(i) => {
                let ghost s0 = self@.items;
                let mut subs = self.items[i].subscribers.clone();
                assert(subs@ =~= self.items@[i as int].subscribers@);
                remove_string(&mut subs, subscriber_uuid);
                let it = TrackerItem {
                    task_uuid: task_uuid.clone(),
                    subscribers: subs,
                    started: copy_opt(&self.items[i].started),
                    updated: copy_opt(&self.items[i].updated),
                    finished: copy_opt(&self.items[i].finished),
                    question: copy_opt(&self.items[i].question),
                };
                self.replace_item(i, it);
                proof {
                    lemma_item_of(self@.items, i as int);
                    let s = self@.items;
                    assert forall|u: Seq<char>| has_item(s, u) <==> has_item(s0, u) by {
                        if has_item(s, u) {
                            let j = choose|j: int| 0 <= j < s.len() && s[j].uuid == u;
                            assert(s0[j].uuid == u);
                        }
                        if has_item(s0, u) {
                            let j = choose|j: int| 0 <= j < s0.len() && s0[j].uuid == u;
                            assert(s[j].uuid == u);
                        }
                    }
                }
            },
            None => {},
        }
    }

    /// The cached center messages of task `orig_id`, in the order started,
    /// updated, finished, question (none for an unknown task).
    pub fn cmd_send_center_messages(&self, orig_id: &String) -> (r: Vec<RawMessage>)
        requires
            self.wf(),
        ensures
            has_item(self@.items, orig_id@) ==>
                r@.map_values(|m: RawMessage| m@) == replay_order(item_of(self@.items, orig_id@)),
            !has_item(self@.items, orig_id@) ==> r@.len() == 0,
    {
        let mut r: Vec<RawMessage> = Vec::new();
        match self.find_item(orig_id) {
            Some(i) => {
                let it = &self.items[i];
                let ghost iv = it@;
                push_opt(&mut r, &it.started);
                push_opt(&mut r, &it.updated);
                push_opt(&mut r, &it.finished);
                push_opt(&mut r, &it.question);
                assert(r@.map_values(|m: RawMessage| m@) =~= replay_order(iv));
            },
            None => {},
        }
        r
    }

    /// Removes the cached question of a task.
    pub fn dismiss_task_question(&mut self, task_uuid: &String)
        requires
            old(self).wf(),
        ensures
            final(self).wf(),
            final(self)@.by_name == old(self)@.by_name,
            final(self)@.recipients == old(self)@.recipients,
            forall|u: Seq<char>| has_item(final(self)@.items, u) <==> has_item(old(self)@.items, u),
            has_item(old(self)@.items, task_uuid@) ==> item_of(final(self)@.items, task_uuid@)
                == (ItemView { question: None, ..item_of(old(self)@.items, task_uuid@) }),
    {
        match self.find_item(task_uuid) {
            Some(i) => {
                let ghost s0 = self@.items;
                let subs = self.items[i].subscribers.clone();
                assert(subs@ =~= self.items@[i as int].subscribers@);
                let it = TrackerItem {
                    task_uuid: task_uuid.clone(),
                    subscribers: subs,
                    started: copy_opt(&self.items[i].started),
                    updated: copy_opt(&self.items[i].updated),
                    finished: copy_opt(&self.items[i].finished),
                    question: None,
                };
                self.replace_item(i, it);
                proof {
                    lemma_item_of(self@.items, i as int);
                    let s = self@.items;
                    assert forall|u: Seq<char>| has_item(s, u) <==> has_item(s0, u) by {
                        if has_item(s, u) {
                            let j = choose|j: int| 0 <= j < s.len() && s[j].uuid == u;
                            assert(s0[j].uuid == u);
                        }
                        if has_item(s0, u) {
                            let j = choose|j: int| 0 <= j < s0.len() && s0[j].uuid == u;
                            assert(s[j].uuid == u);
                        }
                    }
                }
            },
            None => {},
        }
    }

    /// Removes subscriber `x` from every item and every name.
    fn remove_subscriber_everywhere(&mut self, x: &String)
        requires
            old(self).wf(),
        ensures
            final(self).wf(),
            final(self)@.recipients == old(self)@.recipients,
            final(self)@.items.len() == old(self)@.items.len(),
            forall|j: int| 0 <= j < final(self)@.items.len() ==> #[trigger] final(self)@.items[j]
                == (ItemView { subscribers: old(self)@.items[j].subscribers.remove(x@), ..old(self)@.items[j] }),
            final(self)@.by_name.len() == old(self)@.by_name.len(),
            forall|j: int| 0 <= j < final(self)@.by_name.len() ==> #[trigger] final(self)@.by_name[j]
                == (old(self)@.by_name[j].0, old(self)@.by_name[j].1.remove(x@)),
    {
        let ghost ov = self@;
        let mut items: Vec<TrackerItem> = Vec::new();
        let mut j: usize = 0;
        while j < self.items.len()
            invariant
                self@ == ov,
                j <= ov.items.len(),
                items@.len() == j,
                forall|q: int| 0 <= q < j ==> #[trigger] items@[q]@
                    == (ItemView { subscribers: ov.items[q].subscribers.remove(x@), ..ov.items[q] }),
            decreases ov.items.len() - j,
        {
            items.push(without_subscriber(&self.items[j], x));
            j = j + 1;
        }
        let mut names: Vec<NameSubscribers> = Vec::new();
        let mut j: usize = 0;
        while j < self.subscribers_by_name.len()
            invariant
                self@ == ov,
                j <= ov.by_name.len(),
                names@.len() == j,
                forall|q: int| 0 <= q < j ==> (#[trigger] names@[q]).name@ == ov.by_name[q].0
                    && string_set(names@[q].subscribers@) == ov.by_name[q].1.remove(x@),
            decreases ov.by_name.len() - j,
        {
            names.push(name_without_subscriber(&self.subscribers_by_name[j], x));
            j = j + 1;
        }
        self.items = items;
        self.subscribers_by_name = names;
        proof {
            let s = self@.items;
            assert forall|a: int, b: int| 0 <= a < s.len() && 0 <= b < s.len()
                && #[trigger] s[a].uuid == #[trigger] s[b].uuid implies a == b by {
                assert(s[a].uuid == ov.items[a].uuid);
                assert(s[b].uuid == ov.items[b].uuid);
            }
            let t = self@.by_name;
            assert forall|a: int, b: int| 0 <= a < t.len() && 0 <= b < t.len()
                && #[trigger] t[a].0 == #[trigger] t[b].0 implies a == b by {
                assert(t[a].0 == ov.by_name[a].0);
                assert(t[b].0 == ov.by_name[b].0);
            }
        }
    }

    /// Fans a task update out. The item of the task is created if needed;
    /// an attached center message is published and cached under the update's
    /// tag. On a terminal status the task, as a subscriber, is removed from
    /// every item and every name, and as a recipient; its item stays until
    /// the task is closed.
    #[verifier::rlimit(100)]
    pub fn handle_task_update(&mut self, upd: TaskUpdate) -> (r: Fanout)
        requires
            old(self).wf(),
        ensures
            final(self).wf(),
            ({
                let x = upd.task_uuid@;
                let before = if has_item(old(self)@.items, x) {
                    item_of(old(self)@.items, x)
                } else {
                    ItemView { uuid: x, subscribers: Set::empty(), started: None, updated: None, finished: None, question: None }
                };
                let cached = match upd.center_msg {
                    Some(m) => before.cached(upd.tag, m@),
                    None => before,
                };
                &&& string_set(r.subscribers@) == before.subscribers
                &&& string_views(r.subscribers@).no_duplicates()
                &&& string_views(r.by_name@).no_duplicates()
                &&& r.lite.task_uuid@ == x && r.lite.name@ == upd.name@ && r.lite.status == upd.status
                    && r.lite.tag == upd.tag && r.lite.center_msg is None
                &&& raw_opt(r.center) == raw_opt(upd.center_msg)
                &&& string_set(r.by_name@) == (if has_name(old(self)@.by_name, upd.name@) {
                        name_subscribers(old(self)@.by_name, upd.name@)
                    } else {
                        Set::empty()
                    })
                &&& has_item(final(self)@.items, x)
                &&& forall|u: Seq<char>| has_item(final(self)@.items, u) <==> (has_item(old(self)@.items, u) || u == x)
                &&& !upd.status.finished() ==> item_of(final(self)@.items, x) == cached
                    && final(self)@.recipients == old(self)@.recipients
                    && final(self)@.by_name == old(self)@.by_name
                &&& upd.status.finished() ==> item_of(final(self)@.items, x)
                    == (ItemView { subscribers: cached.subscribers.remove(x), ..cached })
                    && !final(self)@.recipients.contains(x)
                    && (forall|j: int| 0 <= j < final(self)@.items.len()
                        ==> !(#[trigger] final(self)@.items[j]).subscribers.contains(x))
                    && (forall|j: int| 0 <= j < final(self)@.by_name.len()
                        ==> !(#[trigger] final(self)@.by_name[j]).1.contains(x))
                &&& forall|u: Seq<char>| u != x && #[trigger] has_item(old(self)@.items, u) ==>
                    item_of(final(self)@.items, u) == (if upd.status.finished() {
                        ItemView { subscribers: item_of(old(self)@.items, u).subscribers.remove(x), ..item_of(old(self)@.items, u) }
                    } else {
                        item_of(old(self)@.items, u)
                    })
            }),
    {
        let ghost x = upd.task_uuid@;
        let ghost ov = self@;
        let upd = upd;
        let i: usize = match self.find_item(&upd.task_uuid) {
            Some(i) => i,
            None => {
                let n = self.items.len();
                self.push_item(TrackerItem::new(upd.task_uuid.clone()));
                n
            },
        };
        proof {
            lemma_item_of(self@.items, i as int);
            let s = self@.items;
            assert(s.len() >= ov.items.len());
            assert forall|j: int| 0 <= j < ov.items.len() implies #[trigger] s[j] == ov.items[j] by {}
            assert forall|u: Seq<char>| has_item(s, u) <==> (has_item(ov.items, u) || u == x) by {
                if has_item(ov.items, u) {
                    let j = choose|j: int| 0 <= j < ov.items.len() && ov.items[j].uuid == u;
                    assert(s[j].uuid == u);
                }
            }
        }
        let ghost before = self@.items[i as int];
        let subscribers = self.items[i].subscribers.clone();
        assert(subscribers@ =~= self.items@[i as int].subscribers@);
        let ghost s1 = self@.items;
        let lite = TaskUpdate::new(upd.task_uuid.clone(), upd.status, upd.tag, upd.name.clone());
        let center = match upd.center_msg {
            Some(m) => {
                let published = m.copy();
                let it = TrackerItem {
                    task_uuid: upd.task_uuid.clone(),
                    subscribers: subscribers.clone(),
                    started: copy_opt(&self.items[i].started),
                    updated: copy_opt(&self.items[i].updated),
                    finished: copy_opt(&self.items[i].finished),
                    question: copy_opt(&self.items[i].question),
                };
                let ghost mv = m@;
                let it = match upd.tag {
                    TaskUpdateTag::Started => TrackerItem { started: Some(m), ..it },
                    TaskUpdateTag::Updated => TrackerItem { updated: Some(m), ..it },
                    TaskUpdateTag::Finished => TrackerItem { finished: Some(m), ..it },
                    TaskUpdateTag::Question => TrackerItem { question: Some(m), ..it },
                    TaskUpdateTag::Unknown => it,
                };
                assert(it.subscribers@ =~= subscribers@);
                assert(it@ == before.cached(upd.tag, mv));
                self.replace_item(i, it);
                Some(published)
            },
            None => None,
        };
        proof {
            let s = self@.items;
            lemma_item_of(s, i as int);
            assert forall|u: Seq<char>| has_item(s, u) <==> has_item(s1, u) by {
                if has_item(s, u) {
                    let j = choose|j: int| 0 <= j < s.len() && s[j].uuid == u;
                    assert(s1[j].uuid == u);
                }
                if has_item(s1, u) {
                    let j = choose|j: int| 0 <= j < s1.len() && s1[j].uuid == u;
                    assert(s[j].uuid == u);
                }
            }
        }
        let by_name = match self.find_name(&upd.name) {
            Some(k) => {
                let v = self.subscribers_by_name[k].subscribers.clone();
                assert(v@ =~= self.subscribers_by_name@[k as int].subscribers@);
                v
            },
            None => {
                let v: Vec<String> = Vec::new();
                assert(string_set(v@) =~= Set::empty());
                v
            },
        };
        let ghost s2 = self@.items;
        proof {
            assert forall|j: int| 0 <= j < s2.len() && j != i implies #[trigger] s2[j] == s1[j] by {}
            assert(s2.len() == s1.len());
        }
        if upd.status.is_finished() {
            remove_string(&mut self.task_update_recipients, &upd.task_uuid);
            self.remove_subscriber_everywhere(&upd.task_uuid);
            proof {
                let s = self@.items;
                assert(s[i as int].uuid == s2[i as int].uuid);
                lemma_item_of(s, i as int);
                assert forall|u: Seq<char>| has_item(s, u) <==> has_item(s2, u) by {
                    if has_item(s, u) {
                        let j = choose|j: int| 0 <= j < s.len() && s[j].uuid == u;
                        assert(s2[j].uuid == u);
                    }
                    if has_item(s2, u) {
                        let j = choose|j: int| 0 <= j < s2.len() && s2[j].uuid == u;
                        assert(s[j].uuid == u);
                    }
                }
            }
        }
        proof {
            let s = self@.items;
            assert forall|u: Seq<char>| u != x && #[trigger] has_item(ov.items, u) implies
                item_of(s, u) == (if upd.status.finished() {
                    ItemView { subscribers: item_of(ov.items, u).subscribers.remove(x), ..item_of(ov.items, u) }
                } else {
                    item_of(ov.items, u)
                }) by {
                let j = choose|j: int| 0 <= j < ov.items.len() && ov.items[j].uuid == u;
                lemma_item_of(ov.items, j);
                assert(s1[j] == ov.items[j]);
                assert(j != i);
                assert(s2[j] == s1[j]);
                lemma_item_of(s, j);
            }
        }
        let subscribers = distinct_strings(&subscribers);
        let by_name = distinct_strings(&by_name);
        Fanout { subscribers, center, by_name, lite }
    }

    /// A control command about task `orig_id`: `send_center_messages`
    /// replays its cached center messages, `task_answer` dismisses its
    /// question; other commands are ignored.
    pub fn handle_control_msg(&mut self, cmd: &str, orig_id: &String) -> (r: Vec<RawMessage>)
        requires
            old(self).wf(),
        ensures
            final(self).wf(),
            command_of(cmd@) == ControlCommand::SendCenterMessages ==> final(self)@ == old(self)@
                && (has_item(old(self)@.items, orig_id@) ==>
                    r@.map_values(|m: RawMessage| m@) == replay_order(item_of(old(self)@.items, orig_id@)))
                && (!has_item(old(self)@.items, orig_id@) ==> r@.len() == 0),
            command_of(cmd@) == ControlCommand::TaskAnswer ==> r@.len() == 0
                && (has_item(old(self)@.items, orig_id@) ==> item_of(final(self)@.items, orig_id@)
                    == (ItemView { question: None, ..item_of(old(self)@.items, orig_id@) })),
            command_of(cmd@) != ControlCommand::SendCenterMessages && command_of(cmd@) != ControlCommand::TaskAnswer
                ==> r@.len() == 0 && final(self)@ == old(self)@,
    {
        match ControlCommand::from_str(cmd) {
            ControlCommand::SendCenterMessages => self.cmd_send_center_messages(orig_id),
            ControlCommand::TaskAnswer => {
                self.dismiss_task_question(orig_id);
                Vec::new()
            },
            _ => Vec::new(),
        }
    }

    /// Forgets the item of a closed task.
    pub fn handle_close_task(&mut self, task_uuid: &String)
        requires
            old(self).wf(),
        ensures
            final(self).wf(),
            final(self)@.by_name == old(self)@.by_name,
            final(self)@.recipients == old(self)@.recipients,
            forall|u: Seq<char>| has_item(final(self)@.items, u) <==> (has_item(old(self)@.items, u) && u != task_uuid@),
    {
        match self.find_item(task_uuid) {
            Some(i) => {
                let ghost s0 = self@.items;
                let _it = self.items.remove(i);
                assert(self@.items =~= s0.remove(i as int));
                proof {
                let s = self@.items;
                assert forall|u: Seq<char>| has_item(s, u) <==> (has_item(s0, u) && u != task_uuid@) by {
                    if has_item(s, u) {
                        let j = choose|j: int| 0 <= j < s.len() && s[j].uuid == u;
                        if j < i {
                            assert(s[j] == s0[j]);
                        } else {
                            assert(s[j] == s0[j + 1]);
                        }
                    }
                    if has_item(s0, u) && u != task_uuid@ {
                        let j = choose|j: int| 0 <= j < s0.len() && s0[j].uuid == u;
                        if j < i {
                            assert(s[j] == s0[j]);
                        } else {
                            assert(s[j - 1] == s0[j]);
                        }
                    }
                }
                assert forall|a: int, b: int| 0 <= a < s.len() && 0 <= b < s.len()
                    && #[trigger] s[a].uuid == #[trigger] s[b].uuid implies a == b by {
                    let a0 = if a < i { a } else { a + 1 };
                    let b0 = if b < i { b } else { b + 1 };
                    assert(s[a] == s0[a0]);
                    assert(s[b] == s0[b0]);
                }
                }
            },
            None => {},
        }
    }
}

fn without_subscriber(it: &TrackerItem, x: &String) -> (r: TrackerItem)
    ensures
        r@ == (ItemView { subscribers: it@.subscribers.remove(x@), ..it@ }),
{
    let mut subs = it.subscribers.clone();
    assert(subs@ =~= it.subscribers@);
    remove_string(&mut subs, x);
    TrackerItem {
        task_uuid: it.task_uuid.clone(),
        subscribers: subs,
        started: copy_opt(&it.started),
        updated: copy_opt(&it.updated),
        finished: copy_opt(&it.finished),
        question: copy_opt(&it.question),
    }
}

fn name_without_subscriber(e: &NameSubscribers, x: &String) -> (r: NameSubscribers)
    ensures
        r.name@ == e.name@,
        string_set(r.subscribers@) == string_set(e.subscribers@).remove(x@),
{
    let mut subs = e.subscribers.clone();
    assert(subs@ =~= e.subscribers@);
    remove_string(&mut subs, x);
    NameSubscribers { name: e.name.clone(), subscribers: subs }
}

fn copy_opt(m: &Option<RawMessage>) -> (r: Option<RawMessage>)
    ensures
        raw_opt(r) == raw_opt(*m),
{
    match m {
        Some(x) => Some(x.copy()),
        None => None,
    }
}

fn push_opt(r: &mut Vec<RawMessage>, m: &Option<RawMessage>)
    ensures
        final(r)@.map_values(|x: RawMessage| x@) == old(r)@.map_values(|x: RawMessage| x@) + opt_seq(raw_opt(*m)),
{
    match m {
        Some(x) => {
            let ghost r0 = r@;
            r.push(x.copy());
            assert(r@.map_values(|x: RawMessage| x@) =~= r0.map_values(|x: RawMessage| x@) + opt_seq(raw_opt(*m)));
        },
        None => {
            assert(r@.map_values(|x: RawMessage| x@) =~= r@.map_values(|x: RawMessage| x@) + opt_seq(raw_opt(*m)));
        },
    }
}

} // verus!
