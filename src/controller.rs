//! The worker controller: the state machine that owns one worker process,
//! gates requests on readiness and plugin, buffers what cannot be delivered
//! yet and routes replies to the registered clients.
//!
//! Each handler changes the controller and returns the actions that its
//! surroundings must perform, in order.

use vstd::prelude::*;
use crate::plugin::{WorkerPlugin, plugin_of, plugin_name, lemma_plugin_name_round_trip};
use crate::state::{WS, WorkerState};
use crate::control_message::ControlMessage;
use crate::worker_message::{Dest, WorkerMessage, MessageView, views, copy_bytes};

verus! {

/// A client registered for a task, and whether a task writer shadows it.
pub struct ActiveClient {
    pub task_uuid: String,
    pub has_writer: bool,
}

/// What a controller asks its surroundings to do.
pub enum ControllerAction {
    /// Send a message to the worker process.
    SendToWorker(WorkerMessage),
    /// Send the worker a request to load a plugin.
    SetupPlugin { plugin: WorkerPlugin, identity: Vec<u8> },
    /// Send the worker a request to stop everything it runs.
    StopAll { identity: Vec<u8> },
    /// Send the worker a `stop_task` control request.
    StopTask { task_uuid: String, identity: Vec<u8> },
    /// Send the worker a heartbeat request.
    HeartbeatRequest { identity: Vec<u8> },
    /// Hand a reply to the client of its task (and to its writer, if any).
    DeliverToClient { message: WorkerMessage, to_writer: bool },
    /// Spawn the worker process.
    SpawnWorker,
    /// Kill the worker process and spawn a new one.
    RecoverWorker,
    /// Restart both heartbeat timers.
    ResetHeartbeat,
    /// Tell the task reprocessor that this worker is ready.
    WorkerReady,
    /// Hand a control response from the worker to the control registry.
    RelayControl(ControlMessage),
}

/// An action as a value.
pub enum Effect {
    SendToWorker(MessageView),
    SetupPlugin(WorkerPlugin, Seq<u8>),
    StopAll(Seq<u8>),
    StopTask(Seq<char>, Seq<u8>),
    HeartbeatRequest(Seq<u8>),
    DeliverToClient(MessageView, bool),
    SpawnWorker,
    RecoverWorker,
    ResetHeartbeat,
    WorkerReady,
    RelayControl(ControlMessage),
}

impl View for ControllerAction {
    type V = Effect;

    open spec fn view(&self) -> Effect {
        match self {
            ControllerAction::SendToWorker(m) => Effect::SendToWorker(m@),
            ControllerAction::SetupPlugin { plugin, identity } => Effect::SetupPlugin(*plugin, identity@),
            ControllerAction::StopAll { identity } => Effect::StopAll(identity@),
            ControllerAction::StopTask { task_uuid, identity } => Effect::StopTask(task_uuid@, identity@),
            ControllerAction::HeartbeatRequest { identity } => Effect::HeartbeatRequest(identity@),
            ControllerAction::DeliverToClient { message, to_writer } => Effect::DeliverToClient(message@, *to_writer),
            ControllerAction::SpawnWorker => Effect::SpawnWorker,
            ControllerAction::RecoverWorker => Effect::RecoverWorker,
            ControllerAction::ResetHeartbeat => Effect::ResetHeartbeat,
            ControllerAction::WorkerReady => Effect::WorkerReady,
            ControllerAction::RelayControl(m) => Effect::RelayControl(*m),
        }
    }
}

/// Some effect sends the worker a request or a plugin setup.
pub open spec fn worker_acted(e: Seq<Effect>) -> bool {
    exists|k: int| 0 <= k < e.len() && (#[trigger] e[k] is SendToWorker || e[k] is SetupPlugin)
}

pub open spec fn effects(a: Seq<ControllerAction>) -> Seq<Effect> {
    a.map_values(|x: ControllerAction| x@)
}

/// The client registered last for task `t`: `Some(has_writer)`, or `None`.
pub open spec fn client_of(cs: Seq<(Seq<char>, bool)>, t: Seq<char>) -> Option<bool>
    decreases cs.len(),
{
    if cs.len() == 0 {
        None
    } else if cs.last().0 == t {
        Some(cs.last().1)
    } else {
        client_of(cs.drop_last(), t)
    }
}

/// The (task, has_writer) entries of registered clients.
pub open spec fn client_entries(v: Seq<ActiveClient>) -> Seq<(Seq<char>, bool)> {
    v.map_values(|a: ActiveClient| (a.task_uuid@, a.has_writer))
}

/// The entries of tasks other than `t`, in their order.
pub open spec fn without_task(cs: Seq<(Seq<char>, bool)>, t: Seq<char>) -> Seq<(Seq<char>, bool)>
    decreases cs.len(),
{
    if cs.len() == 0 {
        cs
    } else if cs.last().0 != t {
        without_task(cs.drop_last(), t).push(cs.last())
    } else {
        without_task(cs.drop_last(), t)
    }
}

/// The set of the strings in `v`.
pub open spec fn names_set(v: Seq<String>) -> Set<Seq<char>> {
    Set::new(|x: Seq<char>| exists|j: int| 0 <= j < v.len() && #[trigger] v[j]@ == x)
}

/// A new controller: `Initial`, no plugin, no identity, nothing registered,
/// reserved or delayed.
pub open spec fn fresh_controller(id: Seq<char>, external: bool, simple: bool) -> ControllerView {
    ControllerView {
        id,
        identity: seq![],
        state: WorkerState { current_state: WS::Initial, plugin: WorkerPlugin::NoPlugin },
        clients: seq![],
        reserved: Set::empty(),
        delayed_worker: seq![],
        delayed_client: seq![],
        external,
        simple,
    }
}

/// A controller as a value.
pub struct ControllerView {
    pub id: Seq<char>,
    pub identity: Seq<u8>,
    pub state: WorkerState,
    pub clients: Seq<(Seq<char>, bool)>,
    pub reserved: Set<Seq<char>>,
    pub delayed_worker: Seq<MessageView>,
    pub delayed_client: Seq<MessageView>,
    pub external: bool,
    pub simple: bool,
}

impl ControllerView {
    pub open spec fn with_state(self, s: WS) -> ControllerView {
        ControllerView { state: WorkerState { current_state: s, plugin: self.state.plugin }, ..self }
    }

    /// Whether a reservation succeeds in this state.
    pub open spec fn can_reserve(self) -> bool {
        self.state.current_state == WS::Ready || self.state.current_state == WS::Starting
            || (self.external && self.state.current_state == WS::Initial)
    }

    /// A request from a client to the worker: admission.
    pub open spec fn send_regular(self, m: MessageView) -> (ControllerView, Seq<Effect>) {
        self.admission(m, true)
    }

    /// Admission of a request. A request whose task has no registered client
    /// waits in the delayed client queue; one that the worker cannot take
    /// now waits in the delayed worker queue. When it is sent, the worker
    /// turns `Busy` if
    /// `busy_on_send` (a flush of the delayed queue turns it `Busy` once, at
    /// its end).
    pub open spec fn admission(self, m: MessageView, busy_on_send: bool) -> (ControllerView, Seq<Effect>) {
        let delayed = ControllerView { delayed_worker: self.delayed_worker.push(m), ..self };
        if client_of(self.clients, m.task()) is None {
            (ControllerView { delayed_client: self.delayed_client.push(m), ..self }, seq![])
        } else if !self.simple && self.state.current_state != WS::Ready {
            (delayed, seq![])
        } else if !self.simple && plugin_of(m.plugin()) != self.state.plugin {
            (delayed.with_state(WS::Busy), seq![Effect::SetupPlugin(plugin_of(m.plugin()), self.identity)])
        } else {
            let sent = Effect::SendToWorker(MessageView { identity: self.identity, payload: m.payload });
            if self.simple || !busy_on_send {
                (self, seq![sent])
            } else {
                (self.with_state(WS::Busy), seq![sent])
            }
        }
    }

    /// A reply from the worker to a client: routing.
    pub open spec fn send_to_client(self, m: MessageView) -> (ControllerView, Seq<Effect>) {
        match client_of(self.clients, m.task()) {
            Some(w) => (ControllerView { identity: m.identity, ..self }, seq![Effect::DeliverToClient(m, w)]),
            None => (ControllerView { delayed_client: self.delayed_client.push(m), ..self }, seq![]),
        }
    }

    pub open spec fn flush_worker(self, ms: Seq<MessageView>) -> (ControllerView, Seq<Effect>)
        decreases ms.len(),
    {
        if ms.len() == 0 {
            (self, seq![])
        } else {
            let (c1, e1) = self.flush_worker(ms.drop_last());
            let (c2, e2) = c1.admission(ms.last(), false);
            (c2, e1 + e2)
        }
    }

    pub open spec fn flush_client(self, ms: Seq<MessageView>) -> (ControllerView, Seq<Effect>)
        decreases ms.len(),
    {
        if ms.len() == 0 {
            (self, seq![])
        } else {
            let (c1, e1) = self.flush_client(ms.drop_last());
            let (c2, e2) = c1.redeliver(ms.last());
            (c2, e1 + e2)
        }
    }

    /// A message of the delayed client queue, handled again: a request (for
    /// the worker) goes through admission, a reply through routing.
    pub open spec fn redeliver(self, m: MessageView) -> (ControllerView, Seq<Effect>) {
        if m.payload.dest == Dest::Worker {
            self.admission(m, false)
        } else {
            self.send_to_client(m)
        }
    }

    /// Both delayed queues are taken and each message in them is handled
    /// again, the worker queue first, each in its order. The worker stays
    /// ready during the flush and turns `Busy` once, after it, when the flush
    /// sent it anything.
    pub open spec fn send_delayed(self) -> (ControllerView, Seq<Effect>) {
        let (c1, e1) = ControllerView { delayed_worker: seq![], ..self }.flush_worker(self.delayed_worker);
        let (c2, e2) = ControllerView { delayed_client: seq![], ..c1 }.flush_client(c1.delayed_client);
        let c3 = if !self.simple && worker_acted(e1 + e2) { c2.with_state(WS::Busy) } else { c2 };
        (c3, e1 + e2)
    }

    pub open spec fn on_ready(self) -> (ControllerView, Seq<Effect>) {
        let (c, e) = self.with_state(WS::Ready).send_delayed();
        (c, seq![Effect::WorkerReady] + e)
    }

    pub open spec fn on_started(self, identity: Seq<u8>) -> (ControllerView, Seq<Effect>) {
        let (c, e) = ControllerView { identity, ..self }.on_ready();
        if self.external {
            (c, e)
        } else {
            (c, seq![Effect::ResetHeartbeat] + e)
        }
    }

    pub open spec fn on_plugin_ready(self, name: Option<Seq<char>>) -> (ControllerView, Seq<Effect>) {
        match name {
            Some(n) => ControllerView {
                state: WorkerState { current_state: self.state.current_state, plugin: plugin_of(n) },
                ..self
            }.on_ready(),
            None => (self, seq![]),
        }
    }

    pub open spec fn on_heartbeat_response(self, identity: Seq<u8>) -> (ControllerView, Seq<Effect>) {
        if self.external {
            let c = ControllerView { identity, ..self };
            if self.state.current_state == WS::Initial {
                (c.with_state(WS::Busy), seq![Effect::StopAll(identity)])
            } else {
                (c, seq![])
            }
        } else {
            (self, seq![Effect::ResetHeartbeat])
        }
    }

    pub open spec fn on_worker_message(self, m: MessageView) -> (ControllerView, Seq<Effect>) {
        if m.payload.dest == Dest::Client {
            self.send_to_client(m)
        } else if m.payload.dest == Dest::Worker && self.reserved.contains(m.task()) {
            self.send_regular(m)
        } else {
            (self, seq![])
        }
    }

    pub open spec fn register_client(self, t: Seq<char>, w: bool) -> (ControllerView, Seq<Effect>) {
        ControllerView { clients: self.clients.push((t, w)), ..self }.send_delayed()
    }

    pub open spec fn reserve(self, t: Seq<char>) -> (ControllerView, bool) {
        if self.can_reserve() && !self.reserved.contains(t) {
            (ControllerView { reserved: self.reserved.insert(t), ..self }, true)
        } else {
            (self, false)
        }
    }

    /// Requests admitted one after another, in order.
    pub open spec fn send_each(self, ms: Seq<MessageView>) -> (ControllerView, Seq<Effect>)
        decreases ms.len(),
    {
        if ms.len() == 0 {
            (self, seq![])
        } else {
            let (c1, e1) = self.send_each(ms.drop_last());
            let (c2, e2) = c1.send_regular(ms.last());
            (c2, e1 + e2)
        }
    }

    /// Messages handled one after another, in order.
    pub open spec fn feed(self, ms: Seq<MessageView>) -> (ControllerView, Seq<Effect>)
        decreases ms.len(),
    {
        if ms.len() == 0 {
            (self, seq![])
        } else {
            let (c1, e1) = self.feed(ms.drop_last());
            let (c2, e2) = c1.on_worker_message(ms.last());
            (c2, e1 + e2)
        }
    }

    pub open spec fn close_task(self, t: Seq<char>) -> ControllerView {
        ControllerView { clients: without_task(self.clients, t), ..self }
    }
}

/// Replies of one task, handed to its client.
pub open spec fn deliveries(ms: Seq<MessageView>, w: bool) -> Seq<Effect> {
    ms.map_values(|m: MessageView| Effect::DeliverToClient(m, w))
}

/// The messages of `ms` for task `t`, in their order.
pub open spec fn of_task(ms: Seq<MessageView>, t: Seq<char>) -> Seq<MessageView>
    decreases ms.len(),
{
    if ms.len() == 0 {
        ms
    } else if ms.last().task() == t {
        of_task(ms.drop_last(), t).push(ms.last())
    } else {
        of_task(ms.drop_last(), t)
    }
}

/// The messages of `ms` for tasks other than `t`, in their order.
pub open spec fn not_of_task(ms: Seq<MessageView>, t: Seq<char>) -> Seq<MessageView>
    decreases ms.len(),
{
    if ms.len() == 0 {
        ms
    } else if ms.last().task() != t {
        not_of_task(ms.drop_last(), t).push(ms.last())
    } else {
        not_of_task(ms.drop_last(), t)
    }
}

/// Buffered replies (not requests) whose tasks have no client in `cs`,
/// except task `t`, whose client is `w`.
pub open spec fn replies_waiting(cs: Seq<(Seq<char>, bool)>, ms: Seq<MessageView>, t: Seq<char>) -> bool {
    forall|i: int| 0 <= i < ms.len() ==> (#[trigger] ms[i]).payload.dest != Dest::Worker
        && (ms[i].task() != t ==> client_of(cs, ms[i].task()) is None)
}

proof fn lemma_flush_client_replies(c: ControllerView, ms: Seq<MessageView>, t: Seq<char>, w: bool)
    requires
        client_of(c.clients, t) == Some(w),
        replies_waiting(c.clients, ms, t),
    ensures
        c.flush_client(ms).1 == deliveries(of_task(ms, t), w),
        c.flush_client(ms).0.clients == c.clients,
        c.flush_client(ms).0.delayed_client == c.delayed_client + not_of_task(ms, t),
        c.flush_client(ms).0.delayed_worker == c.delayed_worker,
        c.flush_client(ms).0.state == c.state,
        c.flush_client(ms).0.simple == c.simple,
    decreases ms.len(),
{
    if ms.len() > 0 {
        let m0 = ms.drop_last();
        assert forall|i: int| 0 <= i < m0.len() implies (#[trigger] m0[i]).payload.dest != Dest::Worker
            && (m0[i].task() != t ==> client_of(c.clients, m0[i].task()) is None) by {
            assert(m0[i] == ms[i]);
        }
        lemma_flush_client_replies(c, m0, t, w);
        let m = ms.last();
        assert(m == ms[ms.len() - 1]);
        if m.task() == t {
            assert(deliveries(of_task(ms, t), w) =~= deliveries(of_task(m0, t), w) + seq![Effect::DeliverToClient(m, w)]);
        } else {
            assert(c.delayed_client + not_of_task(ms, t) =~= (c.delayed_client + not_of_task(m0, t)).push(m));
            assert(deliveries(of_task(m0, t), w) + seq![] =~= deliveries(of_task(m0, t), w));
        }
    } else {
        assert(deliveries(of_task(ms, t), w) =~= seq![]);
        assert(c.delayed_client + not_of_task(ms, t) =~= c.delayed_client);
    }
}

proof fn lemma_flush_worker_keeps(c: ControllerView, ms: Seq<MessageView>)
    requires
        forall|i: int| 0 <= i < ms.len() ==> client_of(c.clients, (#[trigger] ms[i]).task()) is Some,
    ensures
        c.flush_worker(ms).0.clients == c.clients,
        c.flush_worker(ms).0.delayed_client == c.delayed_client,
        c.flush_worker(ms).0.simple == c.simple,
    decreases ms.len(),
{
    if ms.len() > 0 {
        let m0 = ms.drop_last();
        assert forall|i: int| 0 <= i < m0.len() implies client_of(c.clients, (#[trigger] m0[i]).task()) is Some by {
            assert(m0[i] == ms[i]);
        }
        lemma_flush_worker_keeps(c, m0);
        assert(ms.last() == ms[ms.len() - 1]);
    }
}

/// Replies that reached the controller before the client of their task
/// registered wait for it. When the client of task `t` registers, the
/// replies for `t` are delivered to it, in their order, after whatever the
/// flush of waiting requests did; the replies of other tasks keep waiting,
/// in their order.
pub proof fn lemma_delayed_client_buffering(c: ControllerView, t: Seq<char>, w: bool)
    requires
        forall|i: int| 0 <= i < c.delayed_client.len() ==> (#[trigger] c.delayed_client[i]).payload.dest != Dest::Worker
            && client_of(c.clients, c.delayed_client[i].task()) is None,
        forall|i: int| 0 <= i < c.delayed_worker.len() ==> client_of(c.clients, (#[trigger] c.delayed_worker[i]).task()) is Some,
    ensures
        ({
            let (c2, e) = c.register_client(t, w);
            let n = of_task(c.delayed_client, t).len();
            &&& e.len() >= n
            &&& e.subrange(e.len() - n, e.len() as int) == deliveries(of_task(c.delayed_client, t), w)
            &&& c2.delayed_client == not_of_task(c.delayed_client, t)
        }),
{
    let c0 = ControllerView { clients: c.clients.push((t, w)), ..c };
    assert(client_of(c0.clients, t) == Some(w));
    assert forall|x: Seq<char>| x != t implies #[trigger] client_of(c0.clients, x) == client_of(c.clients, x) by {
        assert(c0.clients.drop_last() =~= c.clients);
    }
    assert forall|i: int| 0 <= i < c0.delayed_worker.len() implies client_of(c0.clients, (#[trigger] c0.delayed_worker[i]).task()) is Some by {
        let x = c0.delayed_worker[i].task();
        if x != t {
            assert(client_of(c0.clients, x) == client_of(c.clients, x));
        }
    }
    let c1 = ControllerView { delayed_worker: seq![], ..c0 };
    lemma_flush_worker_keeps(c1, c0.delayed_worker);
    let (f, e1) = c1.flush_worker(c0.delayed_worker);
    let d = ControllerView { delayed_client: seq![], ..f };
    assert(replies_waiting(d.clients, f.delayed_client, t)) by {
        assert forall|i: int| 0 <= i < f.delayed_client.len() implies (#[trigger] f.delayed_client[i]).payload.dest != Dest::Worker
            && (f.delayed_client[i].task() != t ==> client_of(d.clients, f.delayed_client[i].task()) is None) by {
            let x = c.delayed_client[i].task();
            if x != t {
                assert(client_of(c0.clients, x) == client_of(c.clients, x));
            }
        }
    }
    lemma_flush_client_replies(d, f.delayed_client, t, w);
    let (g, e2) = d.flush_client(f.delayed_client);
    assert(Seq::<MessageView>::empty() + not_of_task(c.delayed_client, t) =~= not_of_task(c.delayed_client, t));
    let (c2, e) = c.register_client(t, w);
    let n = of_task(c.delayed_client, t).len();
    assert(deliveries(of_task(c.delayed_client, t), w).len() == n);
    assert(e == e1 + e2);
    assert(e.subrange(e.len() - n, e.len() as int) =~= deliveries(of_task(c.delayed_client, t), w));
}

/// A request for a reserved task whose client is registered, asking for
/// plugin `p`.
pub open spec fn wants_plugin(c: ControllerView, m: MessageView, p: WorkerPlugin) -> bool {
    &&& m.payload.dest == Dest::Worker
    &&& c.reserved.contains(m.task())
    &&& client_of(c.clients, m.task()) is Some
    &&& plugin_of(m.plugin()) == p
}

/// Requests for plugin `p`, each for a task whose client is registered,
/// admitted one after another while the ready worker has another plugin:
/// a single plugin setup is sent, nothing else goes to the worker, the
/// requests wait in their order and the worker is `Busy`.
pub proof fn lemma_requests_gate(c: ControllerView, ms: Seq<MessageView>, p: WorkerPlugin)
    requires
        !c.simple,
        c.state.current_state == WS::Ready,
        c.state.plugin != p,
        forall|i: int| 0 <= i < ms.len() ==> client_of(c.clients, (#[trigger] ms[i]).task()) is Some
            && plugin_of(ms[i].plugin()) == p,
    ensures
        c.send_each(ms).0 == (if ms.len() == 0 { c } else {
            ControllerView { delayed_worker: c.delayed_worker + ms, ..c.with_state(WS::Busy) }
        }),
        c.send_each(ms).1 == (if ms.len() == 0 { seq![] } else { seq![Effect::SetupPlugin(p, c.identity)] }),
    decreases ms.len(),
{
    if ms.len() > 0 {
        let m0 = ms.drop_last();
        assert forall|i: int| 0 <= i < m0.len() implies client_of(c.clients, (#[trigger] m0[i]).task()) is Some
            && plugin_of(m0[i].plugin()) == p by {
            assert(m0[i] == ms[i]);
        }
        lemma_requests_gate(c, m0, p);
        let m = ms.last();
        assert(m == ms[ms.len() - 1]);
        assert(c.delayed_worker + ms =~= (c.delayed_worker + m0).push(m));
        if m0.len() == 0 {
            assert(c.delayed_worker.push(m) =~= c.delayed_worker + ms);
            assert(seq![] + seq![Effect::SetupPlugin(p, c.identity)] =~= seq![Effect::SetupPlugin(p, c.identity)]);
        } else {
            assert(seq![Effect::SetupPlugin(p, c.identity)] + seq![] =~= seq![Effect::SetupPlugin(p, c.identity)]);
        }
    }
}

proof fn lemma_feed_gate(c: ControllerView, ms: Seq<MessageView>, p: WorkerPlugin)
    requires
        !c.simple,
        c.state.current_state == WS::Ready,
        c.state.plugin != p,
        forall|i: int| 0 <= i < ms.len() ==> wants_plugin(c, #[trigger] ms[i], p),
    ensures
        c.feed(ms).0 == (if ms.len() == 0 { c } else {
            ControllerView { delayed_worker: c.delayed_worker + ms, ..c.with_state(WS::Busy) }
        }),
        c.feed(ms).1 == (if ms.len() == 0 { seq![] } else { seq![Effect::SetupPlugin(p, c.identity)] }),
    decreases ms.len(),
{
    if ms.len() > 0 {
        let m0 = ms.drop_last();
        assert forall|i: int| 0 <= i < m0.len() implies wants_plugin(c, #[trigger] m0[i], p) by {
            assert(m0[i] == ms[i]);
        }
        lemma_feed_gate(c, m0, p);
        let m = ms.last();
        assert(wants_plugin(c, ms[ms.len() - 1], p));
        assert(c.delayed_worker + ms =~= (c.delayed_worker + m0).push(m));
        if m0.len() == 0 {
            assert(c.delayed_worker.push(m) =~= c.delayed_worker + ms);
            assert(seq![] + seq![Effect::SetupPlugin(p, c.identity)] =~= seq![Effect::SetupPlugin(p, c.identity)]);
        } else {
            assert(seq![Effect::SetupPlugin(p, c.identity)] + seq![] =~= seq![Effect::SetupPlugin(p, c.identity)]);
        }
    }
}

/// The requests of `ms`, sent to the worker from `identity`.
pub open spec fn sends(ms: Seq<MessageView>, identity: Seq<u8>) -> Seq<Effect> {
    ms.map_values(|m: MessageView| Effect::SendToWorker(MessageView { identity, payload: m.payload }))
}

proof fn lemma_flush_sends(c: ControllerView, ms: Seq<MessageView>, p: WorkerPlugin)
    requires
        !c.simple,
        c.state == (WorkerState { current_state: WS::Ready, plugin: p }),
        forall|i: int| 0 <= i < ms.len() ==> client_of(c.clients, (#[trigger] ms[i]).task()) is Some
            && plugin_of(ms[i].plugin()) == p,
    ensures
        c.flush_worker(ms) == (c, sends(ms, c.identity)),
    decreases ms.len(),
{
    if ms.len() > 0 {
        let m0 = ms.drop_last();
        assert forall|i: int| 0 <= i < m0.len() implies client_of(c.clients, (#[trigger] m0[i]).task()) is Some
            && plugin_of(m0[i].plugin()) == p by {
            assert(m0[i] == ms[i]);
        }
        lemma_flush_sends(c, m0, p);
        assert(ms.last() == ms[ms.len() - 1]);
        assert(sends(ms, c.identity) =~= sends(m0, c.identity)
            + seq![Effect::SendToWorker(MessageView { identity: c.identity, payload: ms.last().payload })]);
    } else {
        assert(sends(ms, c.identity) =~= seq![]);
    }
}

proof fn lemma_flush_client_waiting(c: ControllerView, ms: Seq<MessageView>)
    requires
        forall|i: int| 0 <= i < ms.len() ==> (#[trigger] ms[i]).payload.dest != Dest::Worker
            && client_of(c.clients, ms[i].task()) is None,
    ensures
        c.flush_client(ms) == (ControllerView { delayed_client: c.delayed_client + ms, ..c }, Seq::<Effect>::empty()),
    decreases ms.len(),
{
    if ms.len() > 0 {
        let m0 = ms.drop_last();
        assert forall|i: int| 0 <= i < m0.len() implies (#[trigger] m0[i]).payload.dest != Dest::Worker
            && client_of(c.clients, m0[i].task()) is None by {
            assert(m0[i] == ms[i]);
        }
        lemma_flush_client_waiting(c, m0);
        assert(ms.last() == ms[ms.len() - 1]);
        assert(c.delayed_client + ms =~= (c.delayed_client + m0).push(ms.last()));
        assert(Seq::<Effect>::empty() + Seq::<Effect>::empty() =~= Seq::<Effect>::empty());
    } else {
        assert(c.delayed_client + ms =~= c.delayed_client);
    }
}

/// A worker that becomes ready with plugin `p` gets every waiting request
/// for `p`, in their order, and turns `Busy` once.
pub proof fn lemma_ready_flushes_all(c: ControllerView, p: WorkerPlugin)
    requires
        !c.simple,
        c.state.plugin == p,
        c.delayed_worker.len() > 0,
        forall|i: int| 0 <= i < c.delayed_worker.len() ==> client_of(c.clients, (#[trigger] c.delayed_worker[i]).task()) is Some
            && plugin_of(c.delayed_worker[i].plugin()) == p,
        forall|i: int| 0 <= i < c.delayed_client.len() ==> (#[trigger] c.delayed_client[i]).payload.dest != Dest::Worker
            && client_of(c.clients, c.delayed_client[i].task()) is None,
    ensures
        ({
            let (c2, e2) = c.on_ready();
            &&& e2 == seq![Effect::WorkerReady] + sends(c.delayed_worker, c.identity)
            &&& c2.delayed_worker.len() == 0
            &&& c2.delayed_client == c.delayed_client
            &&& c2.state == WorkerState { current_state: WS::Busy, plugin: p }
        }),
{
    let ms = c.delayed_worker;
    let r0 = ControllerView { delayed_worker: seq![], ..c.with_state(WS::Ready) };
    lemma_flush_sends(r0, ms, p);
    let d = ControllerView { delayed_client: seq![], ..r0 };
    lemma_flush_client_waiting(d, r0.delayed_client);
    assert(Seq::<MessageView>::empty() + c.delayed_client =~= c.delayed_client);
    let e1 = sends(ms, c.identity);
    assert(e1 + Seq::<Effect>::empty() =~= e1);
    assert(e1[0] is SendToWorker);
    assert(worker_acted(e1 + Seq::<Effect>::empty()));
    let (c2, e2) = c.on_ready();
    assert(e2 =~= seq![Effect::WorkerReady] + sends(ms, c.identity));
}

/// Requests that ask a ready worker for another plugin than the loaded one
/// cause a single plugin setup and wait, in their order, with nothing sent to
/// the worker. When the plugin is ready, all of them are sent, in their order.
pub proof fn lemma_plugin_gate(c: ControllerView, ms: Seq<MessageView>, p: WorkerPlugin)
    requires
        !c.simple,
        c.state.current_state == WS::Ready,
        c.state.plugin != p,
        c.delayed_worker.len() == 0,
        c.delayed_client.len() == 0,
        ms.len() > 0,
        forall|i: int| 0 <= i < ms.len() ==> wants_plugin(c, #[trigger] ms[i], p),
    ensures
        ({
            let (c1, e1) = c.feed(ms);
            let (c2, e2) = c1.on_plugin_ready(Some(plugin_name(p)));
            &&& e1 == seq![Effect::SetupPlugin(p, c.identity)]
            &&& c1.delayed_worker == ms
            &&& e2 == seq![Effect::WorkerReady] + sends(ms, c.identity)
            &&& c2.delayed_worker.len() == 0
            &&& c2.state == WorkerState { current_state: WS::Busy, plugin: p }
        }),
{
    lemma_feed_gate(c, ms, p);
    let (c1, e1) = c.feed(ms);
    assert(c.delayed_worker + ms =~= ms);
    lemma_plugin_name_round_trip(p);
    let c1p = ControllerView { state: WorkerState { current_state: c1.state.current_state, plugin: p }, ..c1 };
    assert forall|i: int| 0 <= i < c1p.delayed_worker.len() implies client_of(c1p.clients, (#[trigger] c1p.delayed_worker[i]).task()) is Some
        && plugin_of(c1p.delayed_worker[i].plugin()) == p by {
        assert(wants_plugin(c, ms[i], p));
    }
    lemma_ready_flushes_all(c1p, p);
}

/// An event that a worker process reports to its controller.
pub enum ControllerEvent {
    /// The worker process has started; it speaks from `identity`.
    Started { identity: Vec<u8> },
    /// The worker is ready for a new task.
    Ready,
    /// The worker has loaded the plugin named `name` (`None`: the name is missing).
    PluginReady { name: Option<String> },
    /// The worker reports an error.
    Error,
    /// The worker answers a heartbeat from `identity`.
    HeartbeatResponse { identity: Vec<u8> },
    /// The worker answers a control request.
    ControlResponse { message: ControlMessage },
    /// Any other subject.
    Other,
}

/// The controller of one worker process.
pub struct WorkerController {
    id: String,
    identity: Vec<u8>,
    state: WorkerState,
    active_clients: Vec<ActiveClient>,
    delayed_worker_messages: Vec<WorkerMessage>,
    delayed_client_messages: Vec<WorkerMessage>,
    reserved_tasks: Vec<String>,
    external_worker: bool,
    simple_protocol: bool,
}

impl View for WorkerController {
    type V = ControllerView;

    closed spec fn view(&self) -> ControllerView {
        ControllerView {
            id: self.id@,
            identity: self.identity@,
            state: self.state,
            clients: client_entries(self.active_clients@),
            reserved: names_set(self.reserved_tasks@),
            delayed_worker: views(self.delayed_worker_messages@),
            delayed_client: views(self.delayed_client_messages@),
            external: self.external_worker,
            simple: self.simple_protocol,
        }
    }
}

proof fn lemma_views_push(ms: Seq<WorkerMessage>, m: WorkerMessage)
    ensures
        views(ms.push(m)) == views(ms).push(m@),
{
    assert(views(ms.push(m)) =~= views(ms).push(m@));
}

proof fn lemma_effects_push(a: Seq<ControllerAction>, x: ControllerAction)
    ensures
        effects(a.push(x)) == effects(a).push(x@),
{
    assert(effects(a.push(x)) =~= effects(a).push(x@));
}

impl WorkerController {
    /// A controller for worker `id`, in state `Initial` with no plugin.
    pub fn new(id: String, external_worker: bool, simple_protocol: bool) -> (r: Self)
        ensures
            r@ == fresh_controller(id@, external_worker, simple_protocol),
    {
        let r = WorkerController {
            id,
            identity: Vec::new(),
            state: WorkerState::new(),
            active_clients: Vec::new(),
            delayed_worker_messages: Vec::new(),
            delayed_client_messages: Vec::new(),
            reserved_tasks: Vec::new(),
            external_worker,
            simple_protocol,
        };
        assert(r@.reserved =~= Set::empty());
        assert(r@.identity =~= seq![]);
        assert(r@.clients =~= seq![]);
        assert(r@.delayed_worker =~= seq![]);
        assert(r@.delayed_client =~= seq![]);
        r
    }

    pub fn id(&self) -> (r: &String)
        ensures
            r@ == self@.id,
    {
        &self.id
    }

    pub fn state(&self) -> (r: WorkerState)
        ensures
            r == self@.state,
    {
        self.state
    }

    pub fn delayed_worker_count(&self) -> (r: usize)
        ensures
            r == self@.delayed_worker.len(),
    {
        self.delayed_worker_messages.len()
    }

    pub fn delayed_client_count(&self) -> (r: usize)
        ensures
            r == self@.delayed_client.len(),
    {
        self.delayed_client_messages.len()
    }

    fn set_state(&mut self, s: WS)
        ensures
            final(self)@ == old(self)@.with_state(s),
    {
        self.state.set(s);
    }

    /// The client registered for task `t`, as `Some(has_writer)`.
    pub fn find_client(&self, t: &String) -> (r: Option<bool>)
        ensures
            r == client_of(self@.clients, t@),
    {
        let ghost cv = self@.clients;
        let mut i: usize = self.active_clients.len();
        assert(cv.take(i as int) =~= cv);
        while i > 0
            invariant
                i <= self.active_clients@.len(),
                cv == self@.clients,
                client_of(cv, t@) == client_of(cv.take(i as int), t@),
            decreases i,
        {
            i = i - 1;
            assert(cv.take(i as int + 1).drop_last() =~= cv.take(i as int));
            if self.active_clients[i].task_uuid == *t {
                return Some(self.active_clients[i].has_writer);
            }
        }
        assert(cv.take(0) =~= seq![]);
        None
    }

    /// Whether the controller has been reserved for task `t`.
    pub fn is_reserved_for_task(&self, t: &String) -> (r: bool)
        ensures
            r == self@.reserved.contains(t@),
    {
        let mut i: usize = 0;
        while i < self.reserved_tasks.len()
            invariant
                i <= self.reserved_tasks@.len(),
                forall|j: int| 0 <= j < i ==> self.reserved_tasks@[j]@ != t@,
            decreases self.reserved_tasks@.len() - i,
        {
            if self.reserved_tasks[i] == *t {
                assert(self.reserved_tasks@[i as int]@ == t@);
                return true;
            }
            i = i + 1;
        }
        false
    }

    fn push_action(acts: &mut Vec<ControllerAction>, a: ControllerAction)
        ensures
            effects(final(acts)@) == effects(old(acts)@).push(a@),
    {
        proof {
            lemma_effects_push(acts@, a);
        }
        acts.push(a);
    }

    fn delay_worker_message(&mut self, m: WorkerMessage)
        ensures
            final(self)@ == (ControllerView { delayed_worker: old(self)@.delayed_worker.push(m@), ..old(self)@ }),
    {
        proof {
            lemma_views_push(self.delayed_worker_messages@, m);
        }
        self.delayed_worker_messages.push(m);
    }

    fn delay_client_message(&mut self, m: WorkerMessage)
        ensures
            final(self)@ == (ControllerView { delayed_client: old(self)@.delayed_client.push(m@), ..old(self)@ }),
    {
        proof {
            lemma_views_push(self.delayed_client_messages@, m);
        }
        self.delayed_client_messages.push(m);
    }

    /// Whether an action from position `from` on sends the worker a request
    /// or a plugin setup.
    fn worker_acted_from(acts: &Vec<ControllerAction>, from: usize) -> (r: bool)
        requires
            from <= acts@.len(),
        ensures
            r == worker_acted(effects(acts@).subrange(from as int, acts@.len() as int)),
    {
        let ghost e = effects(acts@).subrange(from as int, acts@.len() as int);
        let mut k: usize = from;
        while k < acts.len()
            invariant
                from <= k <= acts@.len(),
                e == effects(acts@).subrange(from as int, acts@.len() as int),
                forall|j: int| 0 <= j < k - from ==> !(e[j] is SendToWorker || e[j] is SetupPlugin),
            decreases acts@.len() - k,
        {
            match &acts[k] {
                ControllerAction::SendToWorker(_) | ControllerAction::SetupPlugin { .. } => {
                    assert(e[k - from] is SendToWorker || e[k - from] is SetupPlugin);
                    return true;
                },
                _ => {
                    assert(!(e[k - from] is SendToWorker || e[k - from] is SetupPlugin));
                },
            }
            k = k + 1;
        }
        false
    }

    /// Admission of a request from a client to the worker.
    fn send_regular_message_to_worker(&mut self, m: WorkerMessage, busy_on_send: bool, acts: &mut Vec<ControllerAction>)
        ensures
            final(self)@ == old(self)@.admission(m@, busy_on_send).0,
            effects(final(acts)@) == effects(old(acts)@) + old(self)@.admission(m@, busy_on_send).1,
    {
        let ghost a0 = effects(acts@);
        let client = self.find_client(&m.payload.task_uuid);
        if client.is_none() {
            self.delay_client_message(m);
            assert(a0 + seq![] =~= a0);
            return;
        }
        if !self.simple_protocol && !self.state.is_ready() {
            self.delay_worker_message(m);
            assert(a0 + seq![] =~= a0);
            return;
        }
        if !self.simple_protocol {
            let desired = WorkerPlugin::from_str(m.payload.plugin.as_str());
            if !self.state.is_plugin(desired) {
                let identity = copy_bytes(&self.identity);
                self.delay_worker_message(m);
                Self::push_action(acts, ControllerAction::SetupPlugin { plugin: desired, identity });
                self.set_state(WS::Busy);
                assert(effects(acts@) =~= a0 + seq![Effect::SetupPlugin(desired, identity@)]);
                return;
            }
        }
        let identity = copy_bytes(&self.identity);
        let msg = WorkerMessage { identity, payload: m.payload };
        Self::push_action(acts, ControllerAction::SendToWorker(msg));
        if !self.simple_protocol && busy_on_send {
            self.set_state(WS::Busy);
        }
        assert(effects(acts@) =~= a0 + seq![Effect::SendToWorker(msg@)]);
    }

    /// Routing of a reply from the worker to the client of its task.
    fn send_message_to_client(&mut self, m: WorkerMessage, acts: &mut Vec<ControllerAction>)
        ensures
            final(self)@ == old(self)@.send_to_client(m@).0,
            effects(final(acts)@) == effects(old(acts)@) + old(self)@.send_to_client(m@).1,
    {
        let ghost a0 = effects(acts@);
        match self.find_client(&m.payload.task_uuid) {
            Some(w) => {
                self.identity = copy_bytes(&m.identity);
                let ghost mv = m@;
                Self::push_action(acts, ControllerAction::DeliverToClient { message: m, to_writer: w });
                assert(effects(acts@) =~= a0 + seq![Effect::DeliverToClient(mv, w)]);
            },
            None => {
                proof {
                    lemma_views_push(self.delayed_client_messages@, m);
                }
                self.delayed_client_messages.push(m);
                assert(a0 + seq![] =~= a0);
            },
        }
    }

    /// Takes both delayed queues and handles each message again.
    fn send_delayed_messages(&mut self, acts: &mut Vec<ControllerAction>)
        ensures
            final(self)@ == old(self)@.send_delayed().0,
            effects(final(acts)@) == effects(old(acts)@) + old(self)@.send_delayed().1,
    {
        let ghost a0 = effects(acts@);
        let ghost start = self@;
        let acts_len0 = acts.len();
        let mut msgs: Vec<WorkerMessage> = Vec::new();
        std::mem::swap(&mut msgs, &mut self.delayed_worker_messages);
        let ghost w = views(msgs@);
        let ghost c0 = self@;
        assert(c0 == ControllerView { delayed_worker: seq![], ..start }) by {
            assert(views(Seq::<WorkerMessage>::empty()) =~= seq![]);
        }
        let ghost mut i: int = 0;
        assert(w.take(0) =~= seq![]);
        assert(a0 + seq![] =~= a0);
        while msgs.len() > 0
            invariant
                0 <= i <= w.len(),
                views(msgs@) == w.skip(i),
                self@ == c0.flush_worker(w.take(i)).0,
                effects(acts@) == a0 + c0.flush_worker(w.take(i)).1,
                self@.simple == start.simple,
            decreases msgs@.len(),
        {
            assert(views(msgs@).len() == msgs@.len());
            let ghost before = msgs@;
            let m = msgs.remove(0);
            proof {
                assert(w.take(i + 1).drop_last() =~= w.take(i));
                assert(views(before)[0] == w.skip(i)[0]);
                assert forall|q: int| 0 <= q < msgs@.len() implies views(msgs@)[q] == w.skip(i + 1)[q] by {
                    assert(msgs@[q] == before[q + 1]);
                    assert(views(before)[q + 1] == w.skip(i)[q + 1]);
                }
                assert(views(msgs@) =~= w.skip(i + 1));
            }
            self.send_regular_message_to_worker(m, false, acts);
            proof {
                i = i + 1;
                assert(effects(acts@) =~= a0 + c0.flush_worker(w.take(i)).1);
            }
        }
        assert(w.take(i) =~= w);
        assert(effects(acts@) == a0 + c0.flush_worker(w).1);
        assert(effects(acts@).len() == acts@.len());
        assert(a0.len() == acts_len0);
        assert(effects(old(acts)@).len() == old(acts)@.len());
        let ghost f = c0.flush_worker(w);
        assert(self@ == f.0);
        let ghost mid = self@;
        let ghost a1 = effects(acts@);
        let mut cmsgs: Vec<WorkerMessage> = Vec::new();
        std::mem::swap(&mut cmsgs, &mut self.delayed_client_messages);
        let ghost k = views(cmsgs@);
        let ghost d0 = self@;
        assert(d0 == ControllerView { delayed_client: seq![], ..mid }) by {
            assert(views(Seq::<WorkerMessage>::empty()) =~= seq![]);
        }
        let ghost mut j: int = 0;
        assert(k.take(0) =~= seq![]);
        assert(a1 + seq![] =~= a1);
        while cmsgs.len() > 0
            invariant
                0 <= j <= k.len(),
                views(cmsgs@) == k.skip(j),
                self@ == d0.flush_client(k.take(j)).0,
                effects(acts@) == a1 + d0.flush_client(k.take(j)).1,
                self@.simple == start.simple,
                a1 == a0 + f.1,
                a0.len() == acts_len0,
                k == mid.delayed_client,
                d0 == (ControllerView { delayed_client: seq![], ..mid }),
                mid == f.0,
                f == c0.flush_worker(w),
                c0 == (ControllerView { delayed_worker: seq![], ..start }),
                w == start.delayed_worker,
            decreases cmsgs@.len(),
        {
            assert(views(cmsgs@).len() == cmsgs@.len());
            let ghost before = cmsgs@;
            let m = cmsgs.remove(0);
            proof {
                assert(k.take(j + 1).drop_last() =~= k.take(j));
                assert(views(before)[0] == k.skip(j)[0]);
                assert forall|q: int| 0 <= q < cmsgs@.len() implies views(cmsgs@)[q] == k.skip(j + 1)[q] by {
                    assert(cmsgs@[q] == before[q + 1]);
                    assert(views(before)[q + 1] == k.skip(j)[q + 1]);
                }
                assert(views(cmsgs@) =~= k.skip(j + 1));
            }
            match m.payload.dest {
                Dest::Worker => self.send_regular_message_to_worker(m, false, acts),
                _ => self.send_message_to_client(m, acts),
            }
            proof {
                j = j + 1;
                assert(effects(acts@) =~= a1 + d0.flush_client(k.take(j)).1);
            }
        }
        assert(k.take(j) =~= k);
        assert(k == mid.delayed_client);
        let ghost g = d0.flush_client(k);
        assert(effects(acts@) == a0 + (f.1 + g.1)) by {
            assert(a1 + g.1 =~= a0 + (f.1 + g.1));
        }
        assert(effects(acts@).subrange(acts_len0 as int, acts@.len() as int) =~= f.1 + g.1);
        if !self.simple_protocol && Self::worker_acted_from(acts, acts_len0) {
            self.set_state(WS::Busy);
        }
        assert(self@ == start.send_delayed().0);
        assert(effects(acts@) =~= a0 + start.send_delayed().1);
    }

    fn become_ready(&mut self, acts: &mut Vec<ControllerAction>)
        ensures
            final(self)@ == old(self)@.on_ready().0,
            effects(final(acts)@) == effects(old(acts)@) + old(self)@.on_ready().1,
    {
        let ghost a0 = effects(acts@);
        self.set_state(WS::Ready);
        Self::push_action(acts, ControllerAction::WorkerReady);
        self.send_delayed_messages(acts);
        assert(effects(acts@) =~= a0 + old(self)@.on_ready().1);
    }

    /// Handles an event reported by the worker process.
    pub fn handle_controller_event(&mut self, ev: ControllerEvent) -> (r: Vec<ControllerAction>)
        ensures
            ({
                let (c, e) = match ev {
                    ControllerEvent::Started { identity } => old(self)@.on_started(identity@),
                    ControllerEvent::Ready => old(self)@.on_ready(),
                    ControllerEvent::PluginReady { name } => old(self)@.on_plugin_ready(
                        match name { Some(n) => Some(n@), None => None },
                    ),
                    ControllerEvent::HeartbeatResponse { identity } => old(self)@.on_heartbeat_response(identity@),
                    ControllerEvent::ControlResponse { message } => (old(self)@, seq![Effect::RelayControl(message)]),
                    _ => (old(self)@, seq![]),
                };
                final(self)@ == c && effects(r@) == e
            }),
    {
        let mut acts: Vec<ControllerAction> = Vec::new();
        assert(effects(acts@) =~= seq![]);
        match ev {
            ControllerEvent::Started { identity } => {
                self.identity = identity;
                if !self.external_worker {
                    Self::push_action(&mut acts, ControllerAction::ResetHeartbeat);
                }
                self.become_ready(&mut acts);
            },
            ControllerEvent::Ready => {
                self.become_ready(&mut acts);
                assert(effects(acts@) =~= old(self)@.on_ready().1);
            },
            ControllerEvent::PluginReady { name } => {
                match name {
                    Some(n) => {
                        let p = WorkerPlugin::from_str(n.as_str());
                        self.state.plugin(p);
                        self.become_ready(&mut acts);
                        assert(effects(acts@) =~= old(self)@.on_plugin_ready(Some(n@)).1);
                    },
                    None => {},
                }
            },
            ControllerEvent::HeartbeatResponse { identity } => {
                if self.external_worker {
                    let ghost idv = identity@;
                    let id2 = copy_bytes(&identity);
                    self.identity = identity;
                    if self.state.is_initial() {
                        Self::push_action(&mut acts, ControllerAction::StopAll { identity: id2 });
                        self.set_state(WS::Busy);
                        assert(effects(acts@) =~= seq![Effect::StopAll(idv)]);
                    }
                } else {
                    Self::push_action(&mut acts, ControllerAction::ResetHeartbeat);
                    assert(effects(acts@) =~= seq![Effect::ResetHeartbeat]);
                }
            },
            ControllerEvent::ControlResponse { message } => {
                let ghost mv = message;
                Self::push_action(&mut acts, ControllerAction::RelayControl(message));
                assert(effects(acts@) =~= seq![Effect::RelayControl(mv)]);
            },
            _ => {},
        }
        acts
    }

    /// Handles a message that travels through the controller: replies go to
    /// clients, requests for reserved tasks to the worker, the rest is dropped.
    pub fn handle_worker_message(&mut self, m: WorkerMessage) -> (r: Vec<ControllerAction>)
        ensures
            final(self)@ == old(self)@.on_worker_message(m@).0,
            effects(r@) == old(self)@.on_worker_message(m@).1,
    {
        let mut acts: Vec<ControllerAction> = Vec::new();
        assert(effects(acts@) =~= seq![]);
        match m.payload.dest {
            Dest::Client => {
                self.send_message_to_client(m, &mut acts);
                assert(effects(acts@) =~= old(self)@.on_worker_message(m@).1);
            },
            Dest::Worker => {
                if self.is_reserved_for_task(&m.payload.task_uuid) {
                    self.send_regular_message_to_worker(m, true, &mut acts);
                    assert(effects(acts@) =~= old(self)@.on_worker_message(m@).1);
                }
            },
            _ => {},
        }
        acts
    }

    /// Registers the client of task `task_uuid`, then flushes both delayed
    /// queues.
    pub fn register_client(&mut self, task_uuid: String, has_writer: bool) -> (r: Vec<ControllerAction>)
        ensures
            final(self)@ == old(self)@.register_client(task_uuid@, has_writer).0,
            effects(r@) == old(self)@.register_client(task_uuid@, has_writer).1,
    {
        let mut acts: Vec<ControllerAction> = Vec::new();
        let ghost cv = self@;
        let ghost ent = (task_uuid@, has_writer);
        let ghost old_clients = self.active_clients@;
        self.active_clients.push(ActiveClient { task_uuid, has_writer });
        assert(client_entries(self.active_clients@) =~= client_entries(old_clients).push(ent));
        assert(self@ == ControllerView { clients: cv.clients.push(ent), ..cv });
        assert(effects(acts@) =~= seq![]);
        self.send_delayed_messages(&mut acts);
        assert(effects(acts@) =~= cv.register_client(ent.0, has_writer).1);
        acts
    }

    /// Reserves the controller for a task when its state admits one.
    pub fn reserve_for_task(&mut self, task_uuid: &String) -> (r: bool)
        ensures
            (final(self)@, r) == old(self)@.reserve(task_uuid@),
    {
        if !self.state.is_ready() && !self.state.is_starting()
            && !(self.external_worker && self.state.is_initial()) {
            return false;
        }
        if self.is_reserved_for_task(task_uuid) {
            return false;
        }
        let ghost sv = self.reserved_tasks@;
        self.reserved_tasks.push(task_uuid.clone());
        assert(self@.reserved =~= old(self)@.reserved.insert(task_uuid@)) by {
            let nv = self.reserved_tasks@;
            assert forall|x: Seq<char>| #[trigger] names_set(nv).contains(x) <==> (names_set(sv).contains(x) || x == task_uuid@) by {
                if names_set(nv).contains(x) {
                    let k = choose|k: int| 0 <= k < nv.len() && #[trigger] nv[k]@ == x;
                    if k < sv.len() {
                        assert(sv[k]@ == x);
                    }
                }
                if names_set(sv).contains(x) {
                    let k = choose|k: int| 0 <= k < sv.len() && #[trigger] sv[k]@ == x;
                    assert(nv[k]@ == x);
                }
                if x == task_uuid@ {
                    assert(nv[sv.len() as int]@ == x);
                }
            }
        }
        true
    }

    /// Asks the worker to stop a task; sent at once, past admission.
    pub fn handle_stop_task(&self, task_uuid: String) -> (r: ControllerAction)
        ensures
            r@ == Effect::StopTask(task_uuid@, self@.identity),
    {
        ControllerAction::StopTask { task_uuid, identity: copy_bytes(&self.identity) }
    }

    /// Forgets the client of a task.
    pub fn handle_close_task(&mut self, task_uuid: &String)
        ensures
            final(self)@ == old(self)@.close_task(task_uuid@),
    {
        let mut old_clients: Vec<ActiveClient> = Vec::new();
        std::mem::swap(&mut old_clients, &mut self.active_clients);
        let ghost ov = client_entries(old_clients@);
        let mut kept: Vec<ActiveClient> = Vec::new();
        let ghost mut i: int = 0;
        assert(ov.take(0) =~= seq![]);
        assert(client_entries(kept@) =~= seq![]);
        while old_clients.len() > 0
            invariant
                0 <= i <= ov.len(),
                client_entries(old_clients@) == ov.skip(i),
                client_entries(kept@) == without_task(ov.take(i), task_uuid@),
            decreases old_clients@.len(),
        {
            assert(client_entries(old_clients@).len() == old_clients@.len());
            let ghost before = old_clients@;
            let c = old_clients.remove(0);
            let ghost centry = (c.task_uuid@, c.has_writer);
            proof {
                assert(client_entries(before)[0] == ov.skip(i)[0]);
                assert(client_entries(before)[0] == (c.task_uuid@, c.has_writer));
                assert forall|q: int| 0 <= q < old_clients@.len() implies client_entries(old_clients@)[q] == ov.skip(i + 1)[q] by {
                    assert(old_clients@[q] == before[q + 1]);
                    assert(client_entries(before)[q + 1] == ov.skip(i)[q + 1]);
                }
                assert(client_entries(old_clients@) =~= ov.skip(i + 1));
                assert(ov.take(i + 1).drop_last() =~= ov.take(i));
                assert(ov.take(i + 1).last() == ov[i]);
            }
            proof {
                assert(ov.skip(i)[0] == ov[i]);
                assert(ov[i] == centry);
            }
            if c.task_uuid != *task_uuid {
                let ghost kv = kept@;
                kept.push(c);
                assert(client_entries(kept@) =~= client_entries(kv).push(centry));
            }
            proof {
                i = i + 1;
            }
        }
        assert(ov.take(i) =~= ov);
        self.active_clients = kept;
        assert(self@ =~= old(self)@.close_task(task_uuid@));
    }

    /// The heartbeat interval has elapsed.
    pub fn handle_heartbeat_interval(&self) -> (r: ControllerAction)
        ensures
            r@ == Effect::HeartbeatRequest(self@.identity),
    {
        ControllerAction::HeartbeatRequest { identity: copy_bytes(&self.identity) }
    }

    /// No heartbeat response came in time: the worker is in error and is to
    /// be recovered.
    pub fn handle_heartbeat_timeout(&mut self) -> (r: ControllerAction)
        ensures
            final(self)@ == old(self)@.with_state(WS::Error),
            r@ == Effect::RecoverWorker,
    {
        self.set_state(WS::Error);
        ControllerAction::RecoverWorker
    }

    /// The outcome of spawning the worker process.
    pub fn worker_spawned(&mut self, ok: bool)
        ensures
            final(self)@ == old(self)@.with_state(if ok { WS::Starting } else { WS::Error }),
    {
        if ok {
            self.set_state(WS::Starting);
        } else {
            self.set_state(WS::Error);
        }
    }

    /// The controller has started: a managed worker process is to be spawned.
    pub fn started(&self) -> (r: Option<ControllerAction>)
        ensures
            self@.external ==> r is None,
            !self@.external ==> r == Some(ControllerAction::SpawnWorker),
    {
        if self.external_worker {
            None
        } else {
            Some(ControllerAction::SpawnWorker)
        }
    }
}

} // verus!
