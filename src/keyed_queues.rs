//! Queues of items kept by string key, each in arrival order.

use vstd::prelude::*;

verus! {

/// The queue of one key.
pub struct KeyedQueue<T> {
    pub key: String,
    pub items: Vec<T>,
}

pub open spec fn has_key<T>(s: Seq<(Seq<char>, Seq<T>)>, k: Seq<char>) -> bool {
    exists|i: int| 0 <= i < s.len() && #[trigger] s[i].0 == k
}

/// The queue of key `k`, or `None` when the key has none.
pub open spec fn queue_of<T>(s: Seq<(Seq<char>, Seq<T>)>, k: Seq<char>) -> Option<Seq<T>> {
    if has_key(s, k) {
        Some(s[choose|i: int| 0 <= i < s.len() && s[i].0 == k].1)
    } else {
        None
    }
}

pub open spec fn keys_unique<T>(s: Seq<(Seq<char>, Seq<T>)>) -> bool {
    forall|i: int, j: int| 0 <= i < s.len() && 0 <= j < s.len() && #[trigger] s[i].0 == #[trigger] s[j].0 ==> i == j
}

proof fn lemma_queue_at<T>(s: Seq<(Seq<char>, Seq<T>)>, i: int)
    requires
        keys_unique(s),
        0 <= i < s.len(),
    ensures
        queue_of(s, s[i].0) == Some(s[i].1),
{
    let j = choose|j: int| 0 <= j < s.len() && s[j].0 == s[i].0;
    assert(s[j].0 == s[i].0);
}

/// Queues by key.
pub struct KeyedQueues<T> {
    entries: Vec<KeyedQueue<T>>,
}

impl<T> View for KeyedQueues<T> {
    type V = Seq<(Seq<char>, Seq<T>)>;

    closed spec fn view(&self) -> Seq<(Seq<char>, Seq<T>)> {
        self.entries@.map_values(|e: KeyedQueue<T>| (e.key@, e.items@))
    }
}

impl<T> KeyedQueues<T> {
    pub closed spec fn wf(&self) -> bool {
        keys_unique(self@)
    }

    pub fn new() -> (r: Self)
        ensures
            r.wf(),
            forall|k: Seq<char>| queue_of(r@, k) is None,
    {
        let r = KeyedQueues { entries: Vec::new() };
        assert(r@.len() == 0);
        r
    }

    fn find(&self, k: &String) -> (r: Option<usize>)
        ensures
            match r {
                Some(i) => i < self@.len() && self@[i as int].0 == k@,
                None => !has_key(self@, k@),
            },
    {
        let mut i: usize = 0;
        while i < self.entries.len()
            invariant
                i <= self@.len(),
                self@.len() == self.entries@.len(),
                forall|j: int| 0 <= j < i ==> self@[j].0 != k@,
            decreases self@.len() - i,
        {
            if self.entries[i].key == *k {
                return Some(i);
            }
            i = i + 1;
        }
        None
    }

    /// Whether key `k` has a queue.
    pub fn contains(&self, k: &String) -> (r: bool)
        requires
            self.wf(),
        ensures
            r == (queue_of(self@, k@) is Some),
    {
        self.find(k).is_some()
    }

    /// Appends `item` to the queue of `k`, which is created if needed.
    pub fn push(&mut self, k: String, item: T)
        requires
            old(self).wf(),
        ensures
            final(self).wf(),
            queue_of(final(self)@, k@) == Some(
                match queue_of(old(self)@, k@) {
                    Some(q) => q,
                    None => Seq::<T>::empty(),
                }.push(item)),
            forall|x: Seq<char>| x != k@ ==> #[trigger] queue_of(final(self)@, x) == queue_of(old(self)@, x),
    {
        let ghost s0 = self@;
        let ghost kv = k@;
        let ghost iv = item;
        match self.find(&k) {
            Some(i) => {
                proof {
                    lemma_queue_at(s0, i as int);
                }
                let mut e = self.entries.remove(i);
                e.items.push(item);
                let ghost ev = (e.key@, e.items@);
                self.entries.insert(i, e);
                proof {
                    let s = self@;
                    assert(s =~= s0.update(i as int, ev));
                    assert forall|a: int, b: int| 0 <= a < s.len() && 0 <= b < s.len() && #[trigger] s[a].0 == #[trigger] s[b].0 implies a == b by {
                        assert(s[a].0 == s0[a].0 && s[b].0 == s0[b].0);
                    }
                    lemma_queue_at(s, i as int);
                    assert forall|x: Seq<char>| x != kv implies #[trigger] queue_of(s, x) == queue_of(s0, x) by {
                        if has_key(s, x) {
                            let j = choose|j: int| 0 <= j < s.len() && s[j].0 == x;
                            lemma_queue_at(s, j);
                            lemma_queue_at(s0, j);
                        }
                        if has_key(s0, x) {
                            let j = choose|j: int| 0 <= j < s0.len() && s0[j].0 == x;
                            assert(s[j].0 == x);
                        }
                    }
                }
            },
            None => {
                let mut v: Vec<T> = Vec::new();
                v.push(item);
                let e = KeyedQueue { key: k, items: v };
                let ghost ev = (e.key@, e.items@);
                self.entries.push(e);
                proof {
                    let s = self@;
                    assert(s =~= s0.push(ev));
                    assert forall|a: int, b: int| 0 <= a < s.len() && 0 <= b < s.len() && #[trigger] s[a].0 == #[trigger] s[b].0 implies a == b by {
                        if a < s0.len() {
                            assert(s[a] == s0[a]);
                        }
                        if b < s0.len() {
                            assert(s[b] == s0[b]);
                        }
                    }
                    lemma_queue_at(s, s0.len() as int);
                    assert(ev.1 =~= Seq::<T>::empty().push(iv));
                    assert forall|x: Seq<char>| x != kv implies #[trigger] queue_of(s, x) == queue_of(s0, x) by {
                        if has_key(s, x) {
                            let j = choose|j: int| 0 <= j < s.len() && s[j].0 == x;
                            assert(j < s0.len());
                            lemma_queue_at(s, j);
                            lemma_queue_at(s0, j);
                        }
                        if has_key(s0, x) {
                            let j = choose|j: int| 0 <= j < s0.len() && s0[j].0 == x;
                            assert(s[j].0 == x);
                        }
                    }
                }
            },
        }
    }

    /// Takes the whole queue of `k` away, in its order.
    pub fn take(&mut self, k: &String) -> (r: Option<Vec<T>>)
        requires
            old(self).wf(),
        ensures
            final(self).wf(),
            match queue_of(old(self)@, k@) {
                Some(q) => r matches Some(v) && v@ == q,
                None => r is None,
            },
            queue_of(final(self)@, k@) is None,
            forall|x: Seq<char>| x != k@ ==> #[trigger] queue_of(final(self)@, x) == queue_of(old(self)@, x),
    {
        let ghost s0 = self@;
        match self.find(k) {
            Some(i) => {
                proof {
                    lemma_queue_at(s0, i as int);
                }
                let e = self.entries.remove(i);
                proof {
                    let s = self@;
                    assert(s =~= s0.remove(i as int));
                    assert forall|a: int, b: int| 0 <= a < s.len() && 0 <= b < s.len() && #[trigger] s[a].0 == #[trigger] s[b].0 implies a == b by {
                        let a0 = if a < i { a } else { a + 1 };
                        let b0 = if b < i { b } else { b + 1 };
                        assert(s[a] == s0[a0]);
                        assert(s[b] == s0[b0]);
                    }
                    assert forall|x: Seq<char>| x != k@ implies #[trigger] queue_of(s, x) == queue_of(s0, x) by {
                        if has_key(s, x) {
                            let j = choose|j: int| 0 <= j < s.len() && s[j].0 == x;
                            let j0 = if j < i { j } else { j + 1 };
                            assert(s[j] == s0[j0]);
                            lemma_queue_at(s, j);
                            lemma_queue_at(s0, j0);
                        }
                        if has_key(s0, x) {
                            let j = choose|j: int| 0 <= j < s0.len() && s0[j].0 == x;
                            if j < i {
                                assert(s[j] == s0[j]);
                            } else {
                                assert(s[j - 1] == s0[j]);
                            }
                        }
                    }
                    if has_key(s, k@) {
                        let j = choose|j: int| 0 <= j < s.len() && s[j].0 == k@;
                        let j0 = if j < i { j } else { j + 1 };
                        assert(s[j] == s0[j0]);
                    }
                }
                Some(e.items)
            },
            None => None,
        }
    }
}

} // verus!
