use patoka::app_state::{AppState, AppStatus, AppStatusReport};
use patoka::center_message::{self, send_center_task_closed};
use patoka::control_message::{ControlCommand, ControlMessage, Type};
use patoka::controller_message::Subject as ControllerSubject;
use patoka::error_handler::{TaskErrorHandler, TaskErrorHandlerParams};
use patoka::plugin::{PluginSettings, WorkerPlugin};
use patoka::proxy::{next, no_proxy, Proxies, Proxy};
use patoka::reprocessor::TaskReprocessor;
use patoka::state::WS;
use patoka::task::{GenTaskDefinition, TaskStatus, WorkerTask};
use patoka::tracker::{TaskUpdate, TaskUpdateTag};
use patoka::unique_task::{UniqueTask, UniqueTaskGroup};
use patoka::worker_message::{Dest as WorkerDest, WorkerMessage, WorkerMessagePayload};
use patoka::task_io::{should_be_sent, should_be_written, MessageKind};

#[test]
fn worker_plugin_names() {
    assert_eq!(WorkerPlugin::as_str(WorkerPlugin::Basic), "basic");
    assert_eq!(WorkerPlugin::as_str(WorkerPlugin::HeadlessBrowser), "headless_browser");
    assert_eq!(WorkerPlugin::as_str(WorkerPlugin::NoPlugin), "none");
    assert_eq!(WorkerPlugin::from_str("headless_browser"), WorkerPlugin::HeadlessBrowser);
    assert_eq!(WorkerPlugin::from_str("basic"), WorkerPlugin::Basic);
    assert_eq!(WorkerPlugin::from_str("other"), WorkerPlugin::NoPlugin);
    assert_eq!(WorkerPlugin::default(), WorkerPlugin::NoPlugin);
    let e = PluginSettings::empty();
    assert!(e.name.is_empty() && e.path.is_empty() && e.params.is_empty());
    let s = PluginSettings::new("basic".into(), "/p".into(), vec![("k".into(), "v".into())]);
    assert_eq!(s.params.len(), 1);
}

#[test]
fn destination_and_subject_names() {
    for (s, d) in [("controller", WorkerDest::Controller), ("client", WorkerDest::Client), ("worker", WorkerDest::Worker),
                   ("external_in", WorkerDest::ExternalIn), ("external_out", WorkerDest::ExternalOut), ("unknown", WorkerDest::Unknown)] {
        assert_eq!(WorkerDest::from_str(s), d);
        assert_eq!(d.as_str(), s);
    }
    assert_eq!(WorkerDest::from_str("x"), WorkerDest::Unknown);
    assert_eq!(center_message::Dest::from_str("center"), center_message::Dest::Center);
    assert_eq!(center_message::Dest::from_str("app"), center_message::Dest::App);
    assert_eq!(center_message::Dest::from_str("zzz"), center_message::Dest::Unknown);
    assert_eq!(center_message::Dest::App.as_str(), "app");
    assert_eq!(center_message::Subject::from_str("task_question"), center_message::Subject::TaskQuestion);
    assert_eq!(center_message::Subject::from_str("nope"), center_message::Subject::Unknown);
    assert_eq!(center_message::Subject::AppStatusReport.as_str(), "app_status_report");
    assert_eq!(ControllerSubject::from_str("plugin_ready"), ControllerSubject::PluginReady);
    assert_eq!(ControllerSubject::from_str("stop_all"), ControllerSubject::Custom("stop_all".to_string()));
    assert_eq!(ControllerSubject::Custom("x".into()).as_str(), "x");
    assert_eq!(ControllerSubject::HeartbeatResponse.as_str(), "heartbeat_response");
    assert_eq!(WS::as_str(&WS::Busy), "busy");
}

#[test]
fn center_messages() {
    let m = send_center_task_closed("t1");
    assert_eq!(m.dest, center_message::Dest::Center);
    assert_eq!(m.subject, center_message::Subject::TaskStatusUpdate);
    assert_eq!(m.entity_id, "t1");
    assert_eq!(m.message, "closed");
    assert!(m.data.is_none());
    assert!(m.ts > 0);
    let f = center_message::send_center_task_finished("t2", TaskStatus::FinishedSuccess);
    assert_eq!(f.payload.message, "finished_success");
    assert_eq!(f.tag, TaskUpdateTag::Finished);
    assert_eq!(center_message::send_center_task_finished("t2", TaskStatus::FinishedFailure).payload.message, "finished_failure");
    let s = center_message::send_center_task_started("t3", serde_json::Value::Bool(true));
    assert_eq!((s.payload.message.as_str(), s.tag, s.status), ("started", TaskUpdateTag::Started, TaskStatus::Running));
    assert_eq!(center_message::send_center_task_updated("t3", serde_json::Value::Null).tag, TaskUpdateTag::Updated);
    let q = center_message::send_center_task_question("t3", serde_json::Value::Null);
    assert_eq!((q.payload.subject, q.tag), (center_message::Subject::TaskQuestion, TaskUpdateTag::Question));
    let r = center_message::send_center_task_result("t3", serde_json::Value::Null);
    assert_eq!((r.subject, r.message.as_str()), (center_message::Subject::TaskResult, "task_result"));
}

#[test]
fn control_messages() {
    let r = ControlMessage::request("dest", "orig", "stop_task");
    assert_eq!(r.type_, Type::Request);
    assert_eq!(r.uuid.len(), 36);
    assert_eq!(r.dest(), "dest");
    assert!(r.data.is_null());
    let resp = r.response(serde_json::Value::Bool(true));
    assert_eq!(resp.type_, Type::Response);
    assert_eq!(resp.dest(), "orig");
    assert_eq!(Type::from_str("response"), Type::Response);
    assert_eq!(Type::from_str("zz"), Type::Unknown);
    assert_eq!(Type::Request.as_str(), "request");
    assert_eq!(ControlCommand::from_str("restart_task"), ControlCommand::RestartTask);
    assert_eq!(ControlCommand::from_str("send_center_messages"), ControlCommand::SendCenterMessages);
    assert_eq!(ControlCommand::from_str("whatever"), ControlCommand::Other);
}

#[test]
fn error_handler_counts_errors_in_a_row() {
    let mut params = TaskErrorHandlerParams::new();
    params.max_errors_then_failure = 2;
    let mut h = TaskErrorHandler::new("t".into(), params);
    assert!(!h.check_error(true).stop);
    assert!(!h.check_error(false).stop);
    assert_eq!(h.error_counter, 0);
    assert!(!h.check_error(true).stop);
    assert!(!h.check_error(true).stop);
    assert_eq!(h.task_finished_status(), TaskStatus::FinishedSuccess);
    let o = h.check_error(true);
    assert!(o.is_error && o.stop);
    assert!(h.failure());
    assert_eq!(h.task_finished_status(), TaskStatus::FinishedFailure);
    let mut z = TaskErrorHandler::new("u".into(), TaskErrorHandlerParams::new());
    assert!(z.check_error(true).stop);
}

fn data_with(key: &str) -> serde_json::Value {
    let mut m = serde_json::Map::new();
    m.insert(key.to_string(), serde_json::Value::String("x".to_string()));
    serde_json::Value::Object(m)
}

fn message_with(data: serde_json::Value) -> WorkerMessage {
    WorkerMessage::new(WorkerMessagePayload {
        dest: WorkerDest::Client,
        worker_id: "0".into(),
        task_uuid: "t".into(),
        plugin: String::new(),
        data,
    })
}

#[test]
fn error_handler_reads_messages() {
    let mut h = TaskErrorHandler::new("t".into(), TaskErrorHandlerParams::new());
    let o = h.check(&message_with(data_with("result")));
    assert!(!o.is_error);
    let o = h.check(&message_with(data_with("error")));
    assert!(o.is_error && o.stop);
    assert!(!message_with(serde_json::Value::Null).error());
}

#[test]
fn message_kinds_and_filters() {
    let types = vec!["task_result".to_string(), "error".to_string()];
    let r = message_with(data_with("task_result"));
    let q = message_with(data_with("task_question"));
    let e = message_with(data_with("error"));
    let o = message_with(data_with("other"));
    assert_eq!(r.kind(), MessageKind::TaskResult);
    assert_eq!(q.kind(), MessageKind::TaskQuestion);
    assert_eq!(e.kind(), MessageKind::Error);
    assert_eq!(o.kind(), MessageKind::Other);
    assert!(should_be_sent(r.kind(), &types));
    assert!(!should_be_sent(q.kind(), &types));
    assert!(should_be_written(e.kind(), &types));
    assert!(!should_be_written(o.kind(), &types));
}

#[test]
fn app_state_status() {
    let mut s = AppState::new(None, Some("name".into()), None, 5);
    assert!(s.app_id.starts_with("app-"));
    assert_eq!(s.app_id.len(), 40);
    assert_eq!(s.status, AppStatus::Idle);
    assert!(!s.handle_task_update("t".into(), TaskUpdateTag::Updated));
    assert!(s.handle_task_update("t".into(), TaskUpdateTag::Started));
    assert_eq!(s.status, AppStatus::Running);
    let r = s.generate_status_report();
    assert_eq!(r.status_as_str(), "running");
    assert_eq!(r.active_task_uuids, vec!["t".to_string()]);
    s.handle_close_task(&"t".to_string());
    assert_eq!(s.status, AppStatus::Idle);
    let r2 = s.generate_status_report();
    assert!(r.compare_attributes(&r2));
    assert_eq!(AppStatusReport::status_from_str("error"), AppStatus::Error);
    assert_eq!(AppStatusReport::status_from_str("?"), AppStatus::Unknown);
    let named = AppState::new(Some("id-1".into()), None, Some("http://u".into()), 0);
    assert_eq!(named.app_id, "id-1");
    assert_eq!(named.url, "http://u");
}

#[test]
fn proxies_round_robin() {
    assert!(no_proxy(Some("true")));
    assert!(!no_proxy(Some("false")));
    assert!(!no_proxy(None));
    let list = vec![
        Proxy { type_: "http".into(), address: "h:1".into() },
        Proxy { type_: "socks5".into(), address: "s:2".into() },
    ];
    let mut p = Proxies::new(list);
    assert_eq!(next(&mut p, false).unwrap().address, "h:1");
    assert_eq!(next(&mut p, false).unwrap().type_, "socks5");
    assert_eq!(next(&mut p, false).unwrap().address, "h:1");
    assert!(next(&mut p, true).is_none());
}

#[test]
fn unique_tasks() {
    let mut g = UniqueTaskGroup::new_with_parent("g".into(), "parent".into());
    let (added, sub) = g.add("a".into());
    assert!(added);
    let sub = sub.unwrap();
    assert_eq!((sub.name.as_str(), sub.subscriber_uuid.as_str()), ("a", "parent"));
    let (again, sub) = g.add("a".into());
    assert!(!again && sub.is_none());
    assert_eq!(g.tasks[0].parent_uuid, Some("parent".to_string()));
    assert_eq!(g.tasks[0].uuid, None);
    g.must_not_running(&"a".to_string());
    let start = TaskUpdate::new("u1".into(), TaskStatus::Running, TaskUpdateTag::Started, "a".into());
    assert_eq!(g.update(&start).0, Some(TaskUpdateTag::Started));
    g.must_running(&"a".to_string());
    let other = TaskUpdate::new("u2".into(), TaskStatus::Running, TaskUpdateTag::Started, "b".into());
    assert_eq!(g.update(&other).0, None);
    let fin = TaskUpdate::new("u1".into(), TaskStatus::FinishedSuccess, TaskUpdateTag::Finished, "a".into());
    let (tag, unsub) = g.update(&fin);
    assert_eq!(tag, Some(TaskUpdateTag::Finished));
    assert_eq!(unsub.unwrap().name, "a");
    assert!(g.tasks.is_empty());
    let (removed, unsub) = g.remove(&"a".to_string());
    assert!(!removed && unsub.is_none());
    let mut lone = UniqueTaskGroup::new("h".into());
    let (added, sub) = lone.add("z".into());
    assert!(added && sub.is_none());
    let (removed, unsub) = lone.remove(&"z".to_string());
    assert!(removed && unsub.is_none());
    let mut t = UniqueTask::new("x".into());
    t.must_not_running();
    let s = TaskUpdate::new("u".into(), TaskStatus::Running, TaskUpdateTag::Started, "x".into());
    t.update(&s);
    assert_eq!(t.uuid, Some("u".to_string()));
    t.must_running();
}

#[test]
fn reprocessor_priorities() {
    let mk = |uuid: &str, worker: &str| {
        let mut t = WorkerTask::new_with_uuid(GenTaskDefinition::new_none_plugin((), "n"), uuid.to_string());
        if !worker.is_empty() {
            t.update_worker_id(worker.to_string());
        }
        t
    };
    let mut r = TaskReprocessor::new();
    r.reprocess_task(mk("a", ""));
    r.reprocess_task(mk("b", ""));
    r.reprocess_task(mk("c", "w1"));
    r.reprocess_task(mk("d", "w1"));
    let got: Vec<String> = r.worker_ready(&"w1".to_string()).into_iter().map(|t| t.task_uuid).collect();
    assert_eq!(got, vec!["c", "d"]);
    let got: Vec<String> = r.worker_ready(&"w1".to_string()).into_iter().map(|t| t.task_uuid).collect();
    assert_eq!(got, vec!["a", "b"]);
    assert!(r.worker_ready(&"w2".to_string()).is_empty());
}
