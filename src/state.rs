//! The lifecycle state of a worker process as its controller sees it.

use vstd::prelude::*;
use crate::plugin::WorkerPlugin;

verus! {

/// Worker state.
#[derive(Clone, Copy, PartialEq, Eq, Structural, Debug)]
pub enum WS {
    /// Worker process is starting.
    Starting,
    /// Worker is preparing for its job.
    Preparing,
    /// Worker is ready to accept a new task.
    Ready,
    /// Worker is executing a task.
    Busy,
    /// Worker process is terminating.
    Exiting,
    /// An error occurred in the worker.
    Error,
    /// The state at the moment of creation.
    Initial,
}

pub open spec fn ws_name(ws: WS) -> Seq<char> {
    match ws {
        WS::Starting => "starting"@,
        WS::Preparing => "preparing"@,
        WS::Ready => "ready"@,
        WS::Busy => "busy"@,
        WS::Exiting => "exiting"@,
        WS::Error => "error"@,
        WS::Initial => "initial"@,
    }
}

impl WS {
    pub fn as_str(ws: &WS) -> (r: &'static str)
        ensures
            r@ == ws_name(*ws),
    {
        match ws {
            WS::Starting => "starting",
            WS::Preparing => "preparing",
            WS::Ready => "ready",
            WS::Busy => "busy",
            WS::Exiting => "exiting",
            WS::Error => "error",
            WS::Initial => "initial",
        }
    }
}

/// The state of a worker together with the plugin it has loaded.
#[derive(Clone, Copy, PartialEq, Eq, Structural, Debug)]
pub struct WorkerState {
    pub current_state: WS,
    pub plugin: WorkerPlugin,
}

impl WorkerState {
    pub fn new() -> (r: Self)
        ensures
            r.current_state == WS::Initial,
            r.plugin == WorkerPlugin::NoPlugin,
    {
        WorkerState { current_state: WS::Initial, plugin: WorkerPlugin::NoPlugin }
    }

    pub fn current_state(&self) -> (r: WS)
        ensures
            r == self.current_state,
    {
        self.current_state
    }

    pub fn is_starting(&self) -> (r: bool)
        ensures
            r == (self.current_state == WS::Starting),
    {
        self.current_state == WS::Starting
    }

    pub fn is_ready(&self) -> (r: bool)
        ensures
            r == (self.current_state == WS::Ready),
    {
        self.current_state == WS::Ready
    }

    pub fn is_initial(&self) -> (r: bool)
        ensures
            r == (self.current_state == WS::Initial),
    {
        self.current_state == WS::Initial
    }

    pub fn set(&mut self, state: WS)
        ensures
            final(self).current_state == state,
            final(self).plugin == old(self).plugin,
    {
        self.current_state = state;
    }

    pub fn is_plugin(&self, plugin: WorkerPlugin) -> (r: bool)
        ensures
            r == (self.plugin == plugin),
    {
        self.plugin == plugin
    }

    pub fn plugin(&mut self, plugin: WorkerPlugin)
        ensures
            final(self).plugin == plugin,
            final(self).current_state == old(self).current_state,
    {
        self.plugin = plugin;
    }
}

} // verus!
