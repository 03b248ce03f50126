use patoka::center_message::{Dest as CenterDest, Subject as CenterSubject};
use patoka::controller::{ControllerEvent, WorkerController};
use patoka::controller_pool::ControllerPool;
use patoka::dispatcher::{route_center, route_inbound_worker, route_outbound_worker, CenterRoute, WorkerRoute};
use patoka::env::{full_path, node_path_env, worker_process_args};
use patoka::link::SenderRecipientLink;
use patoka::message_tracker::ControlMessageTracker;
use patoka::plugin::{params_headless_browser, plugin_settings, WorkerPlugin};
use patoka::processor::{process_task, ArbiterPool, Placement};
use patoka::proxy::Proxy;
use patoka::recipient_group::RecipientGroup;
use patoka::worker_message::Dest;

#[test]
fn dispatch_routes() {
    assert_eq!(route_inbound_worker(Dest::Controller), WorkerRoute::ToController);
    assert_eq!(route_inbound_worker(Dest::Client), WorkerRoute::ToController);
    assert_eq!(route_inbound_worker(Dest::Worker), WorkerRoute::Drop);
    assert_eq!(route_outbound_worker(Dest::Worker), WorkerRoute::ToWorker);
    assert_eq!(route_outbound_worker(Dest::ExternalIn), WorkerRoute::Drop);
    assert_eq!(route_center(CenterDest::App, CenterSubject::Control), CenterRoute::Control);
    assert_eq!(route_center(CenterDest::App, CenterSubject::TaskResult), CenterRoute::Entity);
    assert_eq!(route_center(CenterDest::Center, CenterSubject::Control), CenterRoute::Drop);
}

#[test]
fn link_holds_messages_until_registration() {
    let mut link: SenderRecipientLink<u32> = SenderRecipientLink::new();
    assert_eq!(link.send_when_ready("r".into(), 1), None);
    assert_eq!(link.send_when_ready("r".into(), 2), None);
    assert_eq!(link.send_when_ready("s".into(), 9), None);
    assert_eq!(link.register_recipient("r".into()), vec![1, 2]);
    assert_eq!(link.send_when_ready("r".into(), 3), Some(3));
    link.unregister_recipient(&"r".to_string());
    assert_eq!(link.send_when_ready("r".into(), 4), None);
    assert_eq!(link.register_recipient("s".into()), vec![9]);
}

#[test]
fn control_requests_and_responses() {
    let mut t = ControlMessageTracker::new("task".into());
    assert!(t.send_request("m1".into(), "task_answer").dismiss_question);
    assert!(!t.send_request("m2".into(), "stop_task").dismiss_question);
    assert_eq!(t.handle_response(&"m1".to_string(), "ok").map(|o| o.success), Some(true));
    assert_eq!(t.handle_response(&"m1".to_string(), "ok"), None);
    assert_eq!(t.handle_response(&"m2".to_string(), "failed").map(|o| o.success), Some(false));
    t.clear_unresponded();
}

#[test]
fn recipient_group_round_robin() {
    let mut g = RecipientGroup::new();
    assert_eq!(g.send_rr(), None);
    g.register_recipient("a".into());
    g.register_recipient("b".into());
    g.register_recipient("a".into());
    assert_eq!(g.send_all().len(), 2);
    assert_eq!(g.send_rr(), Some("a".to_string()));
    assert_eq!(g.send_rr(), Some("b".to_string()));
    assert_eq!(g.send_rr(), Some("a".to_string()));
    g.unregister_recipient(&"a".to_string());
    assert_eq!(g.send_rr(), Some("b".to_string()));
}

#[test]
fn processor_places_tasks() {
    let mut pool = ControllerPool::new(1, false, false);
    assert!(matches!(process_task(true, &"t".to_string(), &mut pool), Placement::Reader));
    assert_eq!(pool.len(), 0);
    assert!(matches!(process_task(false, &"t".to_string(), &mut pool), Placement::Reprocess));
    assert_eq!(pool.len(), 1);
    let mut c = pool.take_controller(0);
    c.handle_controller_event(ControllerEvent::Ready);
    pool.put_controller(0, c);
    match process_task(false, &"t2".to_string(), &mut pool) {
        Placement::Controller { index, worker_id, created } => {
            assert_eq!(index, 0);
            assert_eq!(worker_id, "0");
            assert!(!created);
        },
        _ => panic!("expected a controller"),
    }
    let mut a = ArbiterPool::new(3);
    assert_eq!((a.next(), a.next(), a.next(), a.next()), (0, 1, 2, 0));
}

#[test]
fn reservation_is_granted_once_per_task() {
    let mut c = WorkerController::new("0".into(), false, false);
    c.handle_controller_event(ControllerEvent::Ready);
    assert!(c.reserve_for_task(&"t".to_string()));
    assert!(!c.reserve_for_task(&"t".to_string()));
    assert!(c.reserve_for_task(&"u".to_string()));
}

#[test]
fn worker_process_settings() {
    assert_eq!(full_path("$X/build/main.js", "$X", "/opt/x"), Some("/opt/x/build/main.js".to_string()));
    assert_eq!(full_path("build/main.js", "$X", "/opt/x"), None);
    assert_eq!(full_path("$", "$X", "/opt/x"), None);
    let args = worker_process_args("/opt/x/main.js".into(), "3", "5555");
    assert_eq!(args, vec!["/opt/x/main.js", "--worker_id=3", "--controller=tcp://127.0.0.1:5555"]);
    assert_eq!(node_path_env("/m".into(), Some("/a".into())), "/m;/a");
    assert_eq!(node_path_env("/m".into(), None), "/m");
}

#[test]
fn plugin_settings_by_plugin() {
    let proxy = Proxy { type_: "http".into(), address: "h:1".into() };
    let p = params_headless_browser("UA".into(), Some(proxy), Some("yes"));
    assert_eq!(p, vec![
        ("user_agent".to_string(), "UA".to_string()),
        ("proxy_server".to_string(), "http://h:1".to_string()),
        ("dev_tools".to_string(), "yes".to_string()),
    ]);
    assert_eq!(params_headless_browser("UA".into(), None, Some("no")).len(), 1);
    let b = plugin_settings(WorkerPlugin::Basic, "/x", "UA".into(), None, None);
    assert_eq!(b.name, "basic");
    assert_eq!(b.path, "/x/build/src/plugin/basic_plugin.js");
    assert!(b.params.is_empty());
    let h = plugin_settings(WorkerPlugin::HeadlessBrowser, "/x", "UA".into(), None, None);
    assert_eq!(h.path, "/x/build/src/plugin/headless_browser_plugin.js");
    assert_eq!(h.params[0].1, "UA");
    let n = plugin_settings(WorkerPlugin::NoPlugin, "/x", "UA".into(), None, None);
    assert!(n.name.is_empty() && n.path.is_empty());
}

#[test]
fn task_state_reports() {
    let mut s = patoka::task_state::TaskState::new(5u8, 100);
    assert_eq!(s.status, patoka::task::TaskStatus::Unknown);
    s.started("t".into(), 200);
    assert_eq!(s.status, patoka::task::TaskStatus::Running);
    let r = s.report("info");
    assert_eq!(r.task_uuid, "t");
    assert_eq!(r.started_at, 200);
    assert_eq!(r.info, "info");
    let item = patoka::tracker::TrackerItem::new("u".into());
    assert!(item.subscribers.is_empty() && item.question.is_none());
}
