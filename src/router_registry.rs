//! The registry through which routers are shut down: for each router
//! backend address, its running flag and a connector that can wake it.

use vstd::prelude::*;
use crate::text::{string_set, contains_string, insert_string};

verus! {

/// What stopping a router takes.
#[derive(Clone, Copy, PartialEq, Eq, Structural, Debug)]
pub struct StopPlan {
    /// Clear the router's running flag.
    pub clear_flag: bool,
    /// Send a dummy frame through the registered connector, so that the
    /// router's poll loop wakes and sees the flag.
    pub wake_up: bool,
}

/// Routers by backend address.
pub struct RouterRegistry {
    /// Routers whose running flag is registered.
    pub flags: Vec<String>,
    /// Routers with a registered connector.
    pub connectors: Vec<String>,
    /// Routers that were asked to stop.
    pub stopped: Vec<String>,
}

impl RouterRegistry {
    pub fn new() -> (r: Self)
        ensures
            string_set(r.flags@).is_empty(),
            string_set(r.connectors@).is_empty(),
            string_set(r.stopped@).is_empty(),
    {
        let r = RouterRegistry { flags: Vec::new(), connectors: Vec::new(), stopped: Vec::new() };
        assert(string_set(r.flags@) =~= Set::empty());
        assert(string_set(r.connectors@) =~= Set::empty());
        assert(string_set(r.stopped@) =~= Set::empty());
        r
    }

    /// Registers the running flag of the router at `address`.
    pub fn register_running(&mut self, address: String)
        ensures
            string_set(final(self).flags@) == string_set(old(self).flags@).insert(address@),
            final(self).connectors == old(self).connectors,
            final(self).stopped == old(self).stopped,
    {
        insert_string(&mut self.flags, address);
    }

    /// Registers a connector of the router at `address`.
    pub fn register_connector(&mut self, address: String)
        ensures
            string_set(final(self).connectors@) == string_set(old(self).connectors@).insert(address@),
            final(self).flags == old(self).flags,
            final(self).stopped == old(self).stopped,
    {
        insert_string(&mut self.connectors, address);
    }

    /// Stops the router at `address`: its flag is cleared if registered, and
    /// it is woken through its connector if one is registered.
    pub fn stop(&mut self, address: String) -> (r: StopPlan)
        ensures
            r.clear_flag == string_set(old(self).flags@).contains(address@),
            r.wake_up == string_set(old(self).connectors@).contains(address@),
            string_set(final(self).stopped@) == (if r.clear_flag {
                string_set(old(self).stopped@).insert(address@)
            } else {
                string_set(old(self).stopped@)
            }),
            final(self).flags == old(self).flags,
            final(self).connectors == old(self).connectors,
    {
        let clear_flag = contains_string(&self.flags, &address);
        let wake_up = contains_string(&self.connectors, &address);
        if clear_flag {
            insert_string(&mut self.stopped, address);
        }
        StopPlan { clear_flag, wake_up }
    }

    /// Whether the poll loop of the router at `address` goes on: its flag is
    /// registered and it was not asked to stop.
    pub fn is_running(&self, address: &String) -> (r: bool)
        ensures
            r == (string_set(self.flags@).contains(address@) && !string_set(self.stopped@).contains(address@)),
    {
        contains_string(&self.flags, address) && !contains_string(&self.stopped, address)
    }
}

/// Once stopped, a registered router's loop does not go on.
pub proof fn lemma_stop_ends_loop(reg: RouterRegistry, after: RouterRegistry, address: Seq<char>)
    requires
        string_set(reg.flags@).contains(address),
        after.flags == reg.flags,
        string_set(after.stopped@) == string_set(reg.stopped@).insert(address),
    ensures
        !(string_set(after.flags@).contains(address) && !string_set(after.stopped@).contains(address)),
{
}

} // verus!
