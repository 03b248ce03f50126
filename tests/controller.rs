use patoka::controller::{ControllerAction, ControllerEvent, WorkerController};
use patoka::controller_pool::ControllerPool;
use patoka::plugin::WorkerPlugin;
use patoka::state::WS;
use patoka::worker_message::{Dest, WorkerMessage, WorkerMessagePayload};

fn msg(dest: Dest, task: &str, plugin: &str, identity: &[u8]) -> WorkerMessage {
    WorkerMessage::with_identity(
        identity.to_vec(),
        WorkerMessagePayload {
            dest,
            worker_id: "0".to_string(),
            task_uuid: task.to_string(),
            plugin: plugin.to_string(),
            data: serde_json::Value::String(task.to_string() + "-data"),
        },
    )
}

fn sent_tasks(acts: &[ControllerAction]) -> Vec<String> {
    acts.iter()
        .filter_map(|a| match a {
            ControllerAction::SendToWorker(m) => Some(m.payload.task_uuid.clone()),
            _ => None,
        })
        .collect()
}

fn setups(acts: &[ControllerAction]) -> Vec<WorkerPlugin> {
    acts.iter()
        .filter_map(|a| match a {
            ControllerAction::SetupPlugin { plugin, .. } => Some(*plugin),
            _ => None,
        })
        .collect()
}

fn ready_controller() -> WorkerController {
    let mut c = WorkerController::new("0".to_string(), false, false);
    let acts = c.handle_controller_event(ControllerEvent::Started { identity: b"w0".to_vec() });
    assert!(matches!(acts[0], ControllerAction::ResetHeartbeat));
    assert!(matches!(acts[1], ControllerAction::WorkerReady));
    assert_eq!(c.state().current_state, WS::Ready);
    c
}

#[test]
fn task_plugin_switch() {
    let mut c = ready_controller();
    assert_eq!(c.state().plugin, WorkerPlugin::NoPlugin);
    for t in ["t1", "t2"] {
        assert!(c.reserve_for_task(&t.to_string()));
        assert!(c.register_client(t.to_string(), false).is_empty());
    }
    let a1 = c.handle_worker_message(msg(Dest::Worker, "t1", "basic", b""));
    let a2 = c.handle_worker_message(msg(Dest::Worker, "t2", "basic", b""));
    let mut all = a1;
    all.extend(a2);
    assert_eq!(setups(&all), vec![WorkerPlugin::Basic]);
    assert!(sent_tasks(&all).is_empty());
    assert_eq!(c.delayed_worker_count(), 2);
    assert_eq!(c.state().current_state, WS::Busy);

    let acts = c.handle_controller_event(ControllerEvent::PluginReady { name: Some("basic".to_string()) });
    assert_eq!(c.state().plugin, WorkerPlugin::Basic);
    assert_eq!(sent_tasks(&acts), vec!["t1".to_string(), "t2".to_string()]);
    assert_eq!(c.delayed_worker_count(), 0);
    assert_eq!(c.state().current_state, WS::Busy);
    match &acts[1] {
        ControllerAction::SendToWorker(m) => assert_eq!(m.identity, b"w0".to_vec()),
        _ => panic!("expected a send to the worker"),
    }
}

#[test]
fn replies_wait_for_their_client() {
    let mut c = ready_controller();
    c.handle_worker_message(msg(Dest::Client, "t9", "", b"w1"));
    c.handle_worker_message(msg(Dest::Client, "t9", "", b"w2"));
    assert_eq!(c.delayed_client_count(), 2);
    let acts = c.register_client("t9".to_string(), true);
    let delivered: Vec<Vec<u8>> = acts.iter()
        .filter_map(|a| match a {
            ControllerAction::DeliverToClient { message, to_writer } => {
                assert!(*to_writer);
                Some(message.identity.clone())
            },
            _ => None,
        })
        .collect();
    assert_eq!(delivered, vec![b"w1".to_vec(), b"w2".to_vec()]);
    assert_eq!(c.delayed_client_count(), 0);
}

#[test]
fn requests_for_unreserved_tasks_are_dropped() {
    let mut c = ready_controller();
    c.register_client("t1".to_string(), false);
    let acts = c.handle_worker_message(msg(Dest::Worker, "t1", "none", b""));
    assert!(acts.is_empty());
    assert_eq!(c.delayed_worker_count(), 0);
}

#[test]
fn request_is_sent_when_ready_with_its_plugin() {
    let mut c = ready_controller();
    assert!(c.reserve_for_task(&"t1".to_string()));
    c.register_client("t1".to_string(), false);
    let acts = c.handle_worker_message(msg(Dest::Worker, "t1", "none", b""));
    assert_eq!(sent_tasks(&acts), vec!["t1".to_string()]);
    assert_eq!(c.state().current_state, WS::Busy);
    assert!(!c.reserve_for_task(&"t2".to_string()));
}

#[test]
fn request_without_client_waits() {
    let mut c = ready_controller();
    assert!(c.reserve_for_task(&"t1".to_string()));
    let acts = c.handle_worker_message(msg(Dest::Worker, "t1", "none", b""));
    assert!(acts.is_empty());
    assert_eq!(c.delayed_client_count(), 1);
    assert_eq!(c.delayed_worker_count(), 0);
    let acts = c.register_client("t1".to_string(), false);
    assert_eq!(sent_tasks(&acts), vec!["t1".to_string()]);
    assert_eq!(c.delayed_client_count(), 0);
    assert_eq!(c.state().current_state, WS::Busy);
}

#[test]
fn replies_of_other_tasks_keep_waiting() {
    let mut c = ready_controller();
    c.handle_worker_message(msg(Dest::Client, "t1", "", b"a"));
    c.handle_worker_message(msg(Dest::Client, "t2", "", b"b"));
    c.handle_worker_message(msg(Dest::Client, "t1", "", b"c"));
    let acts = c.register_client("t1".to_string(), false);
    let delivered: Vec<Vec<u8>> = acts.iter()
        .filter_map(|a| match a {
            ControllerAction::DeliverToClient { message, .. } => Some(message.identity.clone()),
            _ => None,
        })
        .collect();
    assert_eq!(delivered, vec![b"a".to_vec(), b"c".to_vec()]);
    assert_eq!(c.delayed_client_count(), 1);
    assert_eq!(c.state().current_state, WS::Ready);
}

#[test]
fn reservation_depends_on_state() {
    let mut c = WorkerController::new("0".to_string(), false, false);
    assert!(!c.reserve_for_task(&"t".to_string()));
    c.worker_spawned(true);
    assert_eq!(c.state().current_state, WS::Starting);
    assert!(c.reserve_for_task(&"t".to_string()));
    assert!(c.is_reserved_for_task(&"t".to_string()));
    assert!(!c.reserve_for_task(&"t".to_string()));
    let mut e = WorkerController::new("1".to_string(), true, false);
    assert!(e.reserve_for_task(&"t".to_string()));
}

#[test]
fn heartbeat_timeout_recovers_worker() {
    let mut c = ready_controller();
    let a = c.handle_heartbeat_timeout();
    assert!(matches!(a, ControllerAction::RecoverWorker));
    assert_eq!(c.state().current_state, WS::Error);
    c.worker_spawned(true);
    assert_eq!(c.state().current_state, WS::Starting);
    match c.handle_heartbeat_interval() {
        ControllerAction::HeartbeatRequest { identity } => assert_eq!(identity, b"w0".to_vec()),
        _ => panic!("expected a heartbeat request"),
    }
}

#[test]
fn external_worker_is_stopped_on_first_heartbeat() {
    let mut c = WorkerController::new("0".to_string(), true, false);
    assert!(c.started().is_none());
    let acts = c.handle_controller_event(ControllerEvent::HeartbeatResponse { identity: b"x".to_vec() });
    assert!(matches!(&acts[0], ControllerAction::StopAll { identity } if identity == &b"x".to_vec()));
    assert_eq!(c.state().current_state, WS::Busy);
    let mut m = WorkerController::new("1".to_string(), false, false);
    assert!(matches!(m.started(), Some(ControllerAction::SpawnWorker)));
    let acts = m.handle_controller_event(ControllerEvent::HeartbeatResponse { identity: b"x".to_vec() });
    assert!(matches!(acts[0], ControllerAction::ResetHeartbeat));
}

#[test]
fn control_responses_are_relayed() {
    let mut c = ready_controller();
    let m = patoka::control_message::ControlMessage::request("d", "o", "stop_task").response(serde_json::Value::Null);
    let acts = c.handle_controller_event(ControllerEvent::ControlResponse { message: m });
    assert!(matches!(&acts[0], ControllerAction::RelayControl(x) if x.cmd == "stop_task"));
    assert_eq!(acts.len(), 1);
}

#[test]
fn closed_task_replies_wait_again() {
    let mut c = ready_controller();
    c.register_client("t1".to_string(), false);
    c.handle_close_task(&"t1".to_string());
    assert_eq!(c.find_client(&"t1".to_string()), None);
    c.handle_worker_message(msg(Dest::Client, "t1", "", b"w"));
    assert_eq!(c.delayed_client_count(), 1);
    match c.handle_stop_task("t1".to_string()) {
        ControllerAction::StopTask { task_uuid, identity } => {
            assert_eq!(task_uuid, "t1");
            assert_eq!(identity, b"w0".to_vec());
        },
        _ => panic!("expected a stop request"),
    }
}

fn make_ready(pool: &mut ControllerPool, i: usize) {
    let mut c = pool.take_controller(i);
    c.handle_controller_event(ControllerEvent::Ready);
    pool.put_controller(i, c);
}

#[test]
fn pool_round_robin() {
    let mut pool = ControllerPool::new(2, false, false);
    // First call creates controller "0"; it is `Initial` and refuses.
    let r = pool.next(&"a".to_string());
    assert!(r.is_none());
    assert_eq!(pool.len(), 1);
    make_ready(&mut pool, 0);
    let r = pool.next(&"b".to_string()).unwrap();
    // A second controller is created, named after its position.
    assert_eq!(pool.len(), 2);
    assert_eq!(pool.controller(0).id(), "0");
    assert_eq!(pool.controller(1).id(), "1");
    assert_eq!((r.0, r.2), (0, true));
    make_ready(&mut pool, 1);
    let r1 = pool.next(&"c".to_string()).unwrap();
    let r2 = pool.next(&"d".to_string()).unwrap();
    let r3 = pool.next(&"e".to_string()).unwrap();
    assert_eq!((r1.0, r2.0, r3.0), (1, 0, 1));
    assert!(!r1.2 && !r2.2 && !r3.2);
    // The id handed back is the one at the advanced cursor.
    assert_eq!(r1.1, "0");
    assert_eq!(r2.1, "1");
    // A task is reserved at most once per controller.
    assert!(pool.next(&"c".to_string()).is_some());
    let mut c0 = pool.take_controller(0);
    assert!(!c0.reserve_for_task(&"d".to_string()));
    pool.put_controller(0, c0);
}
