//! The router that faces the center.

use vstd::prelude::*;
use crate::transport::RouterSettings;

verus! {

/// The center router: active, connecting to the configured center address
/// (empty when none is configured), with its backend in process.
pub fn start(center_address: Option<String>) -> (r: RouterSettings)
    ensures
        match center_address {
            Some(a) => r.frontend_address == a,
            None => r.frontend_address@.len() == 0,
        },
        r.backend_address@ == "inproc://center_router"@,
        r.active_mode,
{
    let frontend_address = match center_address {
        Some(v) => v,
        None => String::new(),
    };
    RouterSettings {
        frontend_address,
        backend_address: String::from_str("inproc://center_router"),
        active_mode: true,
    }
}

} // verus!
