//! The router that faces the worker processes.

use vstd::prelude::*;
use crate::transport::RouterSettings;

verus! {

/// The worker router: passive, listening for workers on `router_port` on all
/// interfaces, with its backend in process.
pub fn start(router_port: &str) -> (r: RouterSettings)
    ensures
        r.frontend_address@ == "tcp://*:"@ + router_port@,
        r.backend_address@ == "inproc://router"@,
        !r.active_mode,
{
    RouterSettings {
        frontend_address: String::from_str("tcp://*:").concat(router_port),
        backend_address: String::from_str("inproc://router"),
        active_mode: false,
    }
}

} // verus!
