//! A pool of worker controllers, created lazily up to a fixed capacity and
//! probed in round-robin order for a new task.

use vstd::prelude::*;
use crate::controller::{WorkerController, ControllerView, fresh_controller};
use crate::text::{decimal, digit_char, to_decimal};

verus! {

/// A pool as a value.
pub struct PoolView {
    pub controllers: Seq<ControllerView>,
    pub ids: Seq<Seq<char>>,
    pub capacity: nat,
    pub next_to_use: nat,
    pub external: bool,
    pub simple: bool,
}

impl PoolView {
    pub open spec fn wf(self) -> bool {
        &&& 0 < self.capacity
        &&& self.controllers.len() == self.ids.len()
        &&& self.controllers.len() <= self.capacity
        &&& (self.controllers.len() == 0 ==> self.next_to_use == 0)
        &&& (self.controllers.len() > 0 ==> self.next_to_use < self.controllers.len())
        &&& forall|j: int| 0 <= j < self.ids.len() ==> #[trigger] self.ids[j] == decimal(j as nat)
    }

    /// The pool after the lazy creation step of `next`, and whether a
    /// controller was created. A new controller is named after its position,
    /// so ids are distinct and increasing.
    pub open spec fn grown(self) -> (PoolView, bool) {
        if self.controllers.len() < self.capacity {
            let id = decimal(self.controllers.len());
            (PoolView {
                controllers: self.controllers.push(fresh_controller(id, self.external, self.simple)),
                ids: self.ids.push(id),
                ..self
            }, true)
        } else {
            (self, false)
        }
    }

    /// The position `k` steps after the cursor.
    pub open spec fn at(self, k: int) -> int {
        (self.next_to_use + k) % (self.controllers.len() as int)
    }

    /// The number of steps from the cursor, `k` or later, to the first
    /// controller that accepts a reservation for `t`.
    pub open spec fn probe_from(self, t: Seq<char>, k: int) -> Option<int>
        decreases self.controllers.len() - k,
    {
        if k < 0 || k >= self.controllers.len() {
            None
        } else if self.controllers[self.at(k)].reserve(t).1 {
            Some(k)
        } else {
            self.probe_from(t, k + 1)
        }
    }

    /// What `next(t)` does: grow, then probe each controller once from the
    /// cursor on, advancing the cursor on each probe. On success the result is
    /// the position of the reserved controller, the id found at the advanced
    /// cursor, and whether a controller was created.
    pub open spec fn next(self, t: Seq<char>) -> (PoolView, Option<(int, Seq<char>, bool)>) {
        let (g, created) = self.grown();
        match g.probe_from(t, 0) {
            None => (g, None),
            Some(k) => {
                let i = g.at(k);
                let after = g.at(k + 1);
                (PoolView {
                    controllers: g.controllers.update(i, g.controllers[i].reserve(t).0),
                    next_to_use: after as nat,
                    ..g
                }, Some((i, g.ids[after], created)))
            },
        }
    }
}

proof fn lemma_step(g: PoolView, k: int, i: int)
    requires
        g.wf(),
        g.controllers.len() > 0,
        0 <= k <= g.controllers.len(),
        i == (if k < g.controllers.len() - g.next_to_use {
            g.next_to_use + k
        } else if k - (g.controllers.len() - g.next_to_use) < g.controllers.len() {
            k - (g.controllers.len() - g.next_to_use)
        } else {
            0
        }),
    ensures
        i == g.at(k),
{
    let n = g.controllers.len() as int;
    let x = g.next_to_use + k;
    if x < n {
        vstd::arithmetic::div_mod::lemma_small_mod(x as nat, n as nat);
    } else {
        vstd::arithmetic::div_mod::lemma_mod_add_multiples_vanish(x - n, n);
        if x - n < n {
            vstd::arithmetic::div_mod::lemma_small_mod((x - n) as nat, n as nat);
        } else {
            vstd::arithmetic::div_mod::lemma_mod_self_0(n);
        }
    }
}

proof fn lemma_decimal_nonempty(n: nat)
    ensures
        decimal(n).len() >= 1,
        n >= 10 ==> decimal(n).len() >= 2,
    decreases n,
{
    if n >= 10 {
        lemma_decimal_nonempty(n / 10);
    }
}

proof fn lemma_digit_injective(x: nat, y: nat)
    requires
        x < 10,
        y < 10,
        digit_char(x) == digit_char(y),
    ensures
        x == y,
{
    assert(x == 0 || x == 1 || x == 2 || x == 3 || x == 4 || x == 5 || x == 6 || x == 7 || x == 8 || x == 9);
    assert(y == 0 || y == 1 || y == 2 || y == 3 || y == 4 || y == 5 || y == 6 || y == 7 || y == 8 || y == 9);
}

/// Different numbers have different decimal notations.
pub proof fn lemma_decimal_injective(a: nat, b: nat)
    requires
        decimal(a) == decimal(b),
    ensures
        a == b,
    decreases a,
{
    lemma_decimal_nonempty(a);
    lemma_decimal_nonempty(b);
    if a < 10 && b < 10 {
        assert(decimal(a) == seq![digit_char(a)]);
        assert(decimal(b) == seq![digit_char(b)]);
        assert(seq![digit_char(a)][0] == digit_char(a));
        assert(seq![digit_char(b)][0] == digit_char(b));
        lemma_digit_injective(a, b);
    } else if a >= 10 && b >= 10 {
        let da = decimal(a);
        let db = decimal(b);
        assert(da.last() == digit_char(a % 10));
        assert(db.last() == digit_char(b % 10));
        assert(da.drop_last() =~= decimal(a / 10));
        assert(db.drop_last() =~= decimal(b / 10));
        lemma_decimal_injective(a / 10, b / 10);
        lemma_digit_injective(a % 10, b % 10);
        assert(a == 10 * (a / 10) + a % 10) by (nonlinear_arith);
        assert(b == 10 * (b / 10) + b % 10) by (nonlinear_arith);
    } else {
        assert(decimal(a).len() == decimal(b).len());
    }
}

/// A controller that `next` creates gets an id that no earlier controller
/// of the pool has.
pub proof fn lemma_new_id_fresh(p: PoolView)
    requires
        p.wf(),
        p.controllers.len() < p.capacity,
    ensures
        p.grown().1,
        forall|j: int| 0 <= j < p.ids.len() ==> #[trigger] p.ids[j] != p.grown().0.ids[p.ids.len() as int],
{
    assert forall|j: int| 0 <= j < p.ids.len() implies #[trigger] p.ids[j] != p.grown().0.ids[p.ids.len() as int] by {
        if p.ids[j] == decimal(p.ids.len()) {
            lemma_decimal_injective(j as nat, p.ids.len());
        }
    }
}

/// A reservation that succeeds records the task on the controller.
pub proof fn lemma_reservation_recorded(c: ControllerView, t: Seq<char>)
    ensures
        c.reserve(t).1 ==> !c.reserved.contains(t),
        c.reserved.contains(t) ==> !c.reserve(t).1,
        c.reserve(t).1 ==> c.reserve(t).0.reserved.contains(t),
        !c.reserve(t).1 ==> c.reserve(t).0 == c,
        c.reserve(t).0.state == c.state,
{
}

/// One `next` call reserves the task on at most one controller: every
/// controller but the one returned is left as it was.
pub proof fn lemma_next_reserves_once(p: PoolView, t: Seq<char>)
    requires
        p.wf(),
    ensures
        ({
            let (g, _) = p.grown();
            let (q, r) = p.next(t);
            &&& q.controllers.len() == g.controllers.len()
            &&& match r {
                Some((i, _, _)) => forall|j: int| 0 <= j < g.controllers.len() && j != i
                    ==> #[trigger] q.controllers[j] == g.controllers[j],
                None => q.controllers == g.controllers,
            }
        }),
{
}

/// With two controllers, both able to take new tasks, and the pool full,
/// two successive `next` calls for two new tasks pick the two controllers in
/// turn.
pub proof fn lemma_pool_round_robin(p: PoolView, t1: Seq<char>, t2: Seq<char>)
    requires
        p.wf(),
        p.capacity == 2,
        p.controllers.len() == 2,
        p.controllers[0].can_reserve(),
        p.controllers[1].can_reserve(),
        forall|j: int| 0 <= j < 2 ==> !(#[trigger] p.controllers[j]).reserved.contains(t1)
            && !p.controllers[j].reserved.contains(t2),
    ensures
        ({
            let (p1, r1) = p.next(t1);
            let (p2, r2) = p1.next(t2);
            &&& r1 matches Some((i1, _, false))
            &&& r2 matches Some((i2, _, false))
            &&& i1 == p.next_to_use
            &&& i2 == 1 - i1
        }),
{
    let (p1, r1) = p.next(t1);
    assert(p.grown().0 == p);
    assert(p.at(0) == p.next_to_use) by {
        vstd::arithmetic::div_mod::lemma_small_mod(p.next_to_use, 2);
    }
    assert(p.probe_from(t1, 0) == Some(0int));
    assert(p.at(1) == 1 - p.next_to_use) by {
        if p.next_to_use == 0 {
            vstd::arithmetic::div_mod::lemma_small_mod(1, 2);
        } else {
            vstd::arithmetic::div_mod::lemma_mod_self_0(2);
        }
    }
    let i1 = p.next_to_use as int;
    lemma_reservation_recorded(p.controllers[i1], t1);
    assert(p1.controllers[0].can_reserve());
    assert(p1.controllers[1].can_reserve());
    assert(!p1.controllers[1 - i1].reserved.contains(t2));
    assert(p1.wf());
    assert(p1.grown().0 == p1);
    assert(p1.at(0) == p1.next_to_use) by {
        vstd::arithmetic::div_mod::lemma_small_mod(p1.next_to_use, 2);
    }
    assert(p1.probe_from(t2, 0) == Some(0int));
}

/// A pool of worker controllers.
pub struct ControllerPool {
    controllers: Vec<WorkerController>,
    controller_ids: Vec<String>,
    capacity: usize,
    next_to_use: usize,
    external_worker: bool,
    simple_protocol: bool,
}

impl View for ControllerPool {
    type V = PoolView;

    closed spec fn view(&self) -> PoolView {
        PoolView {
            controllers: self.controllers@.map_values(|c: WorkerController| c@),
            ids: self.controller_ids@.map_values(|s: String| s@),
            capacity: self.capacity as nat,
            next_to_use: self.next_to_use as nat,
            external: self.external_worker,
            simple: self.simple_protocol,
        }
    }
}

impl ControllerPool {
    /// An empty pool that will hold up to `capacity` controllers.
    pub fn new(capacity: usize, external_worker: bool, simple_protocol: bool) -> (r: Self)
        requires
            capacity > 0,
        ensures
            r@.wf(),
            r@.controllers.len() == 0,
            r@.capacity == capacity,
            r@.external == external_worker,
            r@.simple == simple_protocol,
    {
        ControllerPool {
            controllers: Vec::new(),
            controller_ids: Vec::new(),
            capacity,
            next_to_use: 0,
            external_worker,
            simple_protocol,
        }
    }

    pub fn len(&self) -> (r: usize)
        ensures
            r == self@.controllers.len(),
    {
        self.controllers.len()
    }

    /// The controller at position `i`.
    pub fn controller(&self, i: usize) -> (r: &WorkerController)
        requires
            i < self@.controllers.len(),
        ensures
            r@ == self@.controllers[i as int],
    {
        &self.controllers[i]
    }

    /// Takes the controller at position `i` out of the pool, to be put back
    /// with `put_controller`.
    pub fn take_controller(&mut self, i: usize) -> (r: WorkerController)
        requires
            i < old(self)@.controllers.len(),
        ensures
            r@ == old(self)@.controllers[i as int],
            final(self)@ == (PoolView { controllers: old(self)@.controllers.remove(i as int), ..old(self)@ }),
    {
        let c = self.controllers.remove(i);
        assert(self.controllers@.map_values(|c: WorkerController| c@)
            =~= old(self)@.controllers.remove(i as int));
        c
    }

    /// Puts a controller back at position `i`.
    pub fn put_controller(&mut self, i: usize, c: WorkerController)
        requires
            i <= old(self)@.controllers.len(),
        ensures
            final(self)@ == (PoolView { controllers: old(self)@.controllers.insert(i as int, c@), ..old(self)@ }),
    {
        self.controllers.insert(i, c);
        assert(self.controllers@.map_values(|c: WorkerController| c@)
            =~= old(self)@.controllers.insert(i as int, c@));
    }

    fn grow(&mut self) -> (created: bool)
        requires
            old(self)@.wf(),
        ensures
            (final(self)@, created) == old(self)@.grown(),
            final(self)@.wf(),
    {
        if self.controllers.len() < self.capacity {
            let id = to_decimal(self.controllers.len());
            let c = WorkerController::new(id.clone(), self.external_worker, self.simple_protocol);
            let ghost cs = self.controllers@;
            let ghost is = self.controller_ids@;
            self.controller_ids.push(id);
            self.controllers.push(c);
            assert(self.controllers@.map_values(|c: WorkerController| c@)
                =~= cs.map_values(|c: WorkerController| c@).push(c@));
            assert(self.controller_ids@.map_values(|s: String| s@)
                =~= is.map_values(|s: String| s@).push(id@));
            true
        } else {
            false
        }
    }

    /// Finds a controller for task `task_uuid`; see `PoolView::next`.
    pub fn next(&mut self, task_uuid: &String) -> (r: Option<(usize, String, bool)>)
        requires
            old(self)@.wf(),
        ensures
            final(self)@.wf(),
            final(self)@ == old(self)@.next(task_uuid@).0,
            match (r, old(self)@.next(task_uuid@).1) {
                (None, None) => true,
                (Some((i, id, c)), Some((si, sid, sc))) => i == si && id@ == sid && c == sc,
                _ => false,
            },
    {
        let ghost pre = self@;
        let created = self.grow();
        let ghost g = self@;
        let n = self.controllers.len();
        let orig = self.next_to_use;
        let mut k: usize = 0;
        while k < n
            invariant
                g.wf(),
                n == g.controllers.len(),
                n > 0,
                k <= n,
                orig == g.next_to_use,
                self@ == g,
                g.probe_from(task_uuid@, 0) == g.probe_from(task_uuid@, k as int),
                pre.grown() == (g, created),
                pre == old(self)@,
            decreases n - k,
        {
            let i = if k < n - orig { orig + k } else { k - (n - orig) };
            proof {
                lemma_step(g, k as int, i as int);
            }
            let mut c = self.take_controller(i);
            let ok = c.reserve_for_task(task_uuid);
            self.put_controller(i, c);
            assert(self@.controllers =~= g.controllers.update(i as int, g.controllers[i as int].reserve(task_uuid@).0));
            if ok {
                let after = if i + 1 < n { i + 1 } else { 0 };
                proof {
                    lemma_step(g, k as int + 1, after as int);
                }
                assert(g.probe_from(task_uuid@, k as int) == Some(k as int));
                self.next_to_use = after;
                let id = self.controller_ids[after].clone();
                assert(g.ids[after as int] == self.controller_ids@[after as int]@);
                return Some((i, id, created));
            }
            assert(self@.controllers =~= g.controllers);
            k = k + 1;
        }
        assert(g.probe_from(task_uuid@, n as int) is None);
        None
    }
}

} // verus!
