//! A group of recipients that a message goes to, to all of them or to one in
//! turn.

use vstd::prelude::*;
use crate::text::{string_set, remove_string};

verus! {

/// The recipients of a group, by uuid, in registration order.
pub struct RecipientGroup {
    pub recipients: Vec<String>,
    pub next_idx: usize,
}

impl RecipientGroup {
    pub open spec fn wf(&self) -> bool {
        if self.recipients@.len() == 0 { self.next_idx == 0 } else { self.next_idx < self.recipients@.len() }
    }

    pub open spec fn ids(&self) -> Seq<Seq<char>> {
        self.recipients@.map_values(|s: String| s@)
    }

    pub fn new() -> (r: Self)
        ensures
            r.wf(),
            r.recipients@.len() == 0,
    {
        RecipientGroup { recipients: Vec::new(), next_idx: 0 }
    }

    /// Registers recipient `uuid`; one registered already keeps its place.
    pub fn register_recipient(&mut self, uuid: String)
        requires
            old(self).wf(),
        ensures
            final(self).wf(),
            old(self).ids().contains(uuid@) ==> final(self).ids() == old(self).ids(),
            !old(self).ids().contains(uuid@) ==> final(self).ids() == old(self).ids().push(uuid@),
    {
        let mut i: usize = 0;
        while i < self.recipients.len()
            invariant
                self.wf(),
                self.recipients == old(self).recipients,
                self.next_idx == old(self).next_idx,
                i <= self.recipients@.len(),
                forall|j: int| 0 <= j < i ==> self.recipients@[j]@ != uuid@,
            decreases self.recipients@.len() - i,
        {
            if self.recipients[i] == uuid {
                assert(self.ids()[i as int] == uuid@);
                return;
            }
            i = i + 1;
        }
        let ghost u = uuid@;
        let ghost r0 = self.recipients@;
        self.recipients.push(uuid);
        assert(self.ids() =~= r0.map_values(|s: String| s@).push(u));
        proof {
            let rv = r0.map_values(|s: String| s@);
            if rv.contains(u) {
                let q = choose|q: int| 0 <= q < rv.len() && #[trigger] rv[q] == u;
                assert(r0[q]@ == u);
            }
        }
    }

    /// Forgets recipient `uuid`; the turn starts again at the first one.
    pub fn unregister_recipient(&mut self, uuid: &String)
        requires
            old(self).wf(),
        ensures
            final(self).wf(),
            string_set(final(self).recipients@) == string_set(old(self).recipients@).remove(uuid@),
            final(self).next_idx == 0,
    {
        remove_string(&mut self.recipients, uuid);
        self.next_idx = 0;
    }

    /// Every recipient of the group, for a message to all of them.
    pub fn send_all(&self) -> (r: &Vec<String>)
        ensures
            r == &self.recipients,
    {
        &self.recipients
    }

    /// The recipient whose turn it is; the turn passes to the next one.
    pub fn send_rr(&mut self) -> (r: Option<String>)
        requires
            old(self).wf(),
        ensures
            final(self).wf(),
            final(self).recipients == old(self).recipients,
            old(self).recipients@.len() == 0 ==> r is None,
            old(self).recipients@.len() > 0 ==> (r matches Some(id)
                && id@ == old(self).recipients@[old(self).next_idx as int]@
                && final(self).next_idx == (if old(self).next_idx + 1 >= old(self).recipients@.len() {
                    0
                } else {
                    old(self).next_idx + 1
                })),
    {
        if self.recipients.len() == 0 {
            return None;
        }
        let r = self.recipients[self.next_idx].clone();
        if self.next_idx >= self.recipients.len() - 1 {
            self.next_idx = 0;
        } else {
            self.next_idx = self.next_idx + 1;
        }
        Some(r)
    }
}

} // verus!
