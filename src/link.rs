//! Links from a sender to recipients known by uuid. A message for a
//! recipient that has not registered yet is held, and handed over, in order,
//! when it registers.

use vstd::prelude::*;
use crate::keyed_queues::{KeyedQueues, queue_of};
use crate::text::{string_set, contains_string, insert_string, remove_string};

verus! {

/// The registered recipients and the messages held for the others.
pub struct SenderRecipientLink<M> {
    pub recipients: Vec<String>,
    pub delayed: KeyedQueues<M>,
}

impl<M> SenderRecipientLink<M> {
    pub open spec fn wf(&self) -> bool {
        self.delayed.wf()
    }

    pub open spec fn registered(&self) -> Set<Seq<char>> {
        string_set(self.recipients@)
    }

    pub fn new() -> (r: Self)
        ensures
            r.wf(),
            r.registered().is_empty(),
            forall|u: Seq<char>| queue_of(r.delayed@, u) is None,
    {
        let r = SenderRecipientLink { recipients: Vec::new(), delayed: KeyedQueues::new() };
        assert(r.registered() =~= Set::empty());
        r
    }

    /// A message for recipient `uuid`: handed back to be sent now when the
    /// recipient is registered, held otherwise.
    pub fn send_when_ready(&mut self, uuid: String, msg: M) -> (r: Option<M>)
        requires
            old(self).wf(),
        ensures
            final(self).wf(),
            final(self).registered() == old(self).registered(),
            old(self).registered().contains(uuid@) ==> r == Some(msg) && final(self).delayed@ == old(self).delayed@,
            !old(self).registered().contains(uuid@) ==> r is None
                && queue_of(final(self).delayed@, uuid@) == Some(match queue_of(old(self).delayed@, uuid@) {
                    Some(q) => q,
                    None => Seq::<M>::empty(),
                }.push(msg))
                && forall|u: Seq<char>| u != uuid@ ==> #[trigger] queue_of(final(self).delayed@, u) == queue_of(old(self).delayed@, u),
    {
        if contains_string(&self.recipients, &uuid) {
            Some(msg)
        } else {
            self.delayed.push(uuid, msg);
            None
        }
    }

    /// Registers recipient `uuid` and hands back the messages held for it,
    /// in the order they came.
    pub fn register_recipient(&mut self, uuid: String) -> (r: Vec<M>)
        requires
            old(self).wf(),
        ensures
            final(self).wf(),
            final(self).registered() == old(self).registered().insert(uuid@),
            r@ == match queue_of(old(self).delayed@, uuid@) {
                Some(q) => q,
                None => Seq::<M>::empty(),
            },
            queue_of(final(self).delayed@, uuid@) is None,
            forall|u: Seq<char>| u != uuid@ ==> #[trigger] queue_of(final(self).delayed@, u) == queue_of(old(self).delayed@, u),
    {
        let held = match self.delayed.take(&uuid) {
            Some(v) => v,
            None => Vec::new(),
        };
        insert_string(&mut self.recipients, uuid);
        held
    }

    pub fn unregister_recipient(&mut self, uuid: &String)
        requires
            old(self).wf(),
        ensures
            final(self).wf(),
            final(self).registered() == old(self).registered().remove(uuid@),
            final(self).delayed@ == old(self).delayed@,
    {
        remove_string(&mut self.recipients, uuid);
    }
}

} // verus!
