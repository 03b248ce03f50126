//! Worker plugins: the mode a worker process must be in to run a task.

use vstd::prelude::*;
use crate::text::str_eq;
use crate::proxy::Proxy;

verus! {

/// A logical mode of a worker process.
#[derive(Clone, Copy, PartialEq, Eq, Structural, Debug)]
pub enum WorkerPlugin {
    Basic,
    HeadlessBrowser,
    NoPlugin,
}

/// The wire name of a plugin.
pub open spec fn plugin_name(p: WorkerPlugin) -> Seq<char> {
    match p {
        WorkerPlugin::Basic => "basic"@,
        WorkerPlugin::HeadlessBrowser => "headless_browser"@,
        WorkerPlugin::NoPlugin => "none"@,
    }
}

/// The plugin that a wire name selects; every unknown name selects `None`.
pub open spec fn plugin_of(s: Seq<char>) -> WorkerPlugin {
    if s == "basic"@ {
        WorkerPlugin::Basic
    } else if s == "headless_browser"@ {
        WorkerPlugin::HeadlessBrowser
    } else {
        WorkerPlugin::NoPlugin
    }
}

impl WorkerPlugin {
    pub fn as_str(ws: WorkerPlugin) -> (r: &'static str)
        ensures
            r@ == plugin_name(ws),
    {
        match ws {
            WorkerPlugin::Basic => "basic",
            WorkerPlugin::HeadlessBrowser => "headless_browser",
            WorkerPlugin::NoPlugin => "none",
        }
    }

    pub fn from_str(s: &str) -> (r: WorkerPlugin)
        ensures
            r == plugin_of(s@),
    {
        if str_eq(s, "basic") {
            WorkerPlugin::Basic
        } else if str_eq(s, "headless_browser") {
            WorkerPlugin::HeadlessBrowser
        } else {
            WorkerPlugin::NoPlugin
        }
    }
}

impl Default for WorkerPlugin {
    fn default() -> (r: WorkerPlugin)
        ensures
            r == WorkerPlugin::NoPlugin,
    {
        WorkerPlugin::NoPlugin
    }
}

/// Reading a plugin back from its wire name gives the same plugin.
pub proof fn lemma_plugin_name_round_trip(p: WorkerPlugin)
    ensures
        plugin_of(plugin_name(p)) == p,
{
    reveal_strlit("basic");
    reveal_strlit("headless_browser");
    reveal_strlit("none");
    assert("none"@.len() != "basic"@.len());
    assert("none"@.len() != "headless_browser"@.len());
    assert("basic"@.len() != "headless_browser"@.len());
}

/// What a worker needs to load a plugin: its name, the path of its code and
/// its parameters as (key, value) pairs with distinct keys.
pub struct PluginSettings {
    pub name: String,
    pub path: String,
    pub params: Vec<(String, String)>,
}

impl PluginSettings {
    pub fn new(name: String, path: String, params: Vec<(String, String)>) -> (r: Self)
        ensures
            r.name == name,
            r.path == path,
            r.params == params,
    {
        PluginSettings { name, path, params }
    }

    pub fn empty() -> (r: Self)
        ensures
            r.name@.len() == 0,
            r.path@.len() == 0,
            r.params@.len() == 0,
    {
        PluginSettings::new(String::new(), String::new(), Vec::new())
    }
}

/// The parameters of a headless browser: its user agent, the proxy server
/// (`type://address`) when there is one, and `dev_tools` when that setting is
/// "yes".
pub fn params_headless_browser(user_agent: String, proxy: Option<Proxy>, dev_tools: Option<&str>) -> (r: Vec<(String, String)>)
    ensures
        r@.len() == 1 + (if proxy is Some { 1int } else { 0 }) + (if dev_tools matches Some(v) && v@ == "yes"@ { 1int } else { 0 }),
        r@[0].0@ == "user_agent"@ && r@[0].1 == user_agent,
        proxy is Some ==> r@[1].0@ == "proxy_server"@
            && r@[1].1@ == proxy->Some_0.type_@ + "://"@ + proxy->Some_0.address@,
        (dev_tools matches Some(v) && v@ == "yes"@) ==> r@.last().0@ == "dev_tools"@ && r@.last().1@ == "yes"@,
{
    let mut params: Vec<(String, String)> = Vec::new();
    params.push((String::from_str("user_agent"), user_agent));
    match proxy {
        Some(p) => {
            let server = p.type_.concat("://").concat(p.address.as_str());
            params.push((String::from_str("proxy_server"), server));
        },
        None => {},
    }
    match dev_tools {
        Some(v) => {
            if str_eq(v, "yes") {
                params.push((String::from_str("dev_tools"), String::from_str("yes")));
            }
        },
        None => {},
    }
    params
}

/// The settings of a plugin: its name, the path of its script under the
/// worker directory `x_dir`, and its parameters.
pub fn plugin_settings(
    plugin: WorkerPlugin,
    x_dir: &str,
    user_agent: String,
    proxy: Option<Proxy>,
    dev_tools: Option<&str>,
) -> (r: PluginSettings)
    ensures
        plugin == WorkerPlugin::Basic ==> r.name@ == "basic"@
            && r.path@ == x_dir@ + "/build/src/plugin/basic_plugin.js"@ && r.params@.len() == 0,
        plugin == WorkerPlugin::HeadlessBrowser ==> r.name@ == "headless_browser"@
            && r.path@ == x_dir@ + "/build/src/plugin/headless_browser_plugin.js"@
            && r.params@.len() >= 1 && r.params@[0].1 == user_agent,
        plugin == WorkerPlugin::NoPlugin ==> r.name@.len() == 0 && r.path@.len() == 0 && r.params@.len() == 0,
{
    match plugin {
        WorkerPlugin::Basic => PluginSettings::new(
            String::from_str(WorkerPlugin::as_str(plugin)),
            String::from_str(x_dir).concat("/build/src/plugin/basic_plugin.js"),
            Vec::new(),
        ),
        WorkerPlugin::HeadlessBrowser => PluginSettings::new(
            String::from_str(WorkerPlugin::as_str(plugin)),
            String::from_str(x_dir).concat("/build/src/plugin/headless_browser_plugin.js"),
            params_headless_browser(user_agent, proxy, dev_tools),
        ),
        WorkerPlugin::NoPlugin => PluginSettings::empty(),
    }
}

} // verus!
