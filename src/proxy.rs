//! The proxies handed to headless browser plugins, in round-robin order.

use vstd::prelude::*;
use crate::text::str_eq;

verus! {

/// A proxy: its kind ("socks5" or "http") and its `host:port`.
pub struct Proxy {
    pub type_: String,
    pub address: String,
}

impl Proxy {
    pub fn copy(&self) -> (r: Proxy)
        ensures
            r.type_@ == self.type_@,
            r.address@ == self.address@,
    {
        Proxy { type_: self.type_.clone(), address: self.address.clone() }
    }
}

/// The proxy list and the position of the next one to hand out.
pub struct Proxies {
    pub proxies: Vec<Proxy>,
    pub next_to_use: usize,
}

impl Proxies {
    pub open spec fn wf(&self) -> bool {
        self.proxies@.len() == 0 || self.next_to_use < self.proxies@.len()
    }

    pub fn new(proxies: Vec<Proxy>) -> (r: Self)
        ensures
            r.wf(),
            r.proxies == proxies,
            r.next_to_use == 0,
    {
        Proxies { proxies, next_to_use: 0 }
    }
}

/// Whether proxies are disabled: the `proxy.disabled` setting is "true".
pub fn no_proxy(disabled: Option<&str>) -> (r: bool)
    ensures
        r == (disabled matches Some(v) && v@ == "true"@),
{
    match disabled {
        Some(v) => str_eq(v, "true"),
        None => false,
    }
}

/// The next proxy, round robin; none when proxies are disabled.
pub fn next(proxies: &mut Proxies, no_proxy: bool) -> (r: Option<Proxy>)
    requires
        old(proxies).wf(),
        !no_proxy ==> old(proxies).proxies@.len() > 0,
    ensures
        final(proxies).wf(),
        final(proxies).proxies == old(proxies).proxies,
        no_proxy ==> r is None && final(proxies).next_to_use == old(proxies).next_to_use,
        !no_proxy ==> (r matches Some(p)
            && p.type_@ == old(proxies).proxies@[old(proxies).next_to_use as int].type_@
            && p.address@ == old(proxies).proxies@[old(proxies).next_to_use as int].address@
            && final(proxies).next_to_use == (if old(proxies).next_to_use + 1 >= old(proxies).proxies@.len() {
                0
            } else {
                old(proxies).next_to_use + 1
            })),
{
    if no_proxy {
        return None;
    }
    let idx = proxies.next_to_use;
    let p = proxies.proxies[idx].copy();
    if idx >= proxies.proxies.len() - 1 {
        proxies.next_to_use = 0;
    } else {
        proxies.next_to_use = idx + 1;
    }
    Some(p)
}

} // verus!
