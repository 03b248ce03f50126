//! Paths and process settings derived from the configuration.

use vstd::prelude::*;
use crate::text::str_eq;

verus! {

/// A path that starts with `var_name` with that prefix replaced by `dir`;
/// `None` for a path that does not start with it (it is then relative to the
/// current directory).
pub fn full_path(relative_path: &str, var_name: &str, dir: &str) -> (r: Option<String>)
    ensures
        relative_path@.len() >= var_name@.len() && relative_path@.subrange(0, var_name@.len() as int) == var_name@
            ==> (r matches Some(p) && p@ == dir@ + relative_path@.subrange(var_name@.len() as int, relative_path@.len() as int)),
        !(relative_path@.len() >= var_name@.len() && relative_path@.subrange(0, var_name@.len() as int) == var_name@)
            ==> r is None,
{
    let n = relative_path.unicode_len();
    let k = var_name.unicode_len();
    if n < k {
        return None;
    }
    let head = relative_path.substring_char(0, k);
    if !str_eq(head, var_name) {
        return None;
    }
    let rest = relative_path.substring_char(k, n);
    Some(String::from_str(dir).concat(rest))
}

/// The arguments of a worker process: its main script, its worker id and
/// the controller endpoint on this host.
pub fn worker_process_args(main_path: String, worker_id: &str, router_port: &str) -> (r: Vec<String>)
    ensures
        r@.len() == 3,
        r@[0] == main_path,
        r@[1]@ == "--worker_id="@ + worker_id@,
        r@[2]@ == "--controller=tcp://127.0.0.1:"@ + router_port@,
{
    let mut r: Vec<String> = Vec::new();
    r.push(main_path);
    r.push(String::from_str("--worker_id=").concat(worker_id));
    r.push(String::from_str("--controller=tcp://127.0.0.1:").concat(router_port));
    r
}

/// The `NODE_PATH` of a worker process: the configured module directory,
/// followed by the inherited value, if any, after a `;`.
pub fn node_path_env(module_dir: String, inherited: Option<String>) -> (r: String)
    ensures
        match inherited {
            Some(p) => r@ == module_dir@ + ";"@ + p@,
            None => r@ == module_dir@,
        },
{
    match inherited {
        Some(p) => module_dir.concat(";").concat(p.as_str()),
        None => module_dir,
    }
}

} // verus!
