use patoka::task::TaskStatus;
use patoka::tracker::{TaskTracker, TaskUpdate, TaskUpdateTag};
use patoka::transport::RawMessage;

fn update(uuid: &str, status: TaskStatus, tag: TaskUpdateTag, body: Option<&str>) -> TaskUpdate {
    match body {
        Some(b) => TaskUpdate::with_center_msg(uuid.to_string(), status, RawMessage::with_body(b), tag, "job".to_string()),
        None => TaskUpdate::new(uuid.to_string(), status, tag, "job".to_string()),
    }
}

fn sorted(mut v: Vec<String>) -> Vec<String> {
    v.sort();
    v
}

#[test]
fn replay_in_tag_order() {
    let mut tr = TaskTracker::new();
    tr.handle_task_update(update("t", TaskStatus::Running, TaskUpdateTag::Question, Some("q")));
    tr.handle_task_update(update("t", TaskStatus::Running, TaskUpdateTag::Updated, Some("u1")));
    tr.handle_task_update(update("t", TaskStatus::Running, TaskUpdateTag::Started, Some("s")));
    tr.handle_task_update(update("t", TaskStatus::Running, TaskUpdateTag::Updated, Some("u2")));
    let r: Vec<String> = tr.handle_control_msg("send_center_messages", &"t".to_string())
        .into_iter().map(|m| m.body).collect();
    assert_eq!(r, vec!["s", "u2", "q"]);
    tr.handle_control_msg("task_answer", &"t".to_string());
    let r: Vec<String> = tr.cmd_send_center_messages(&"t".to_string()).into_iter().map(|m| m.body).collect();
    assert_eq!(r, vec!["s", "u2"]);
    assert!(tr.cmd_send_center_messages(&"other".to_string()).is_empty());
}

#[test]
fn fanout_and_terminal_cleanup() {
    let mut tr = TaskTracker::new();
    tr.register_task_update_recipient("p".to_string());
    tr.subscribe("child".to_string(), "p".to_string(), String::new(), false, false);
    tr.subscribe("p".to_string(), "child".to_string(), String::new(), false, true);
    tr.subscribe(String::new(), "child".to_string(), "job".to_string(), true, true);
    tr.subscribe(String::new(), "w".to_string(), "job".to_string(), true, true);
    let f = tr.handle_task_update(update("child", TaskStatus::Running, TaskUpdateTag::Updated, Some("c")));
    assert_eq!(f.subscribers, vec!["p".to_string()]);
    assert_eq!(f.center.unwrap().body, "c");
    assert_eq!(sorted(f.by_name), vec!["child".to_string(), "w".to_string()]);
    let f = tr.handle_task_update(update("child", TaskStatus::FinishedSuccess, TaskUpdateTag::Finished, None));
    assert!(f.center.is_none());
    // "child" no longer subscribes to anything.
    let f = tr.handle_task_update(update("p", TaskStatus::Running, TaskUpdateTag::Updated, None));
    assert!(f.subscribers.is_empty());
    assert_eq!(f.by_name, vec!["w".to_string()]);
    // The finished task's item stays until it is closed.
    let r = tr.cmd_send_center_messages(&"child".to_string());
    assert_eq!(r.len(), 1);
    tr.handle_close_task(&"child".to_string());
    assert!(tr.cmd_send_center_messages(&"child".to_string()).is_empty());
}

#[test]
fn by_uuid_subscription_is_ignored_when_subscribed_by_name() {
    let mut tr = TaskTracker::new();
    tr.subscribe(String::new(), "s".to_string(), "job".to_string(), true, true);
    tr.subscribe("t".to_string(), "s".to_string(), "job".to_string(), false, true);
    let f = tr.handle_task_update(update("t", TaskStatus::Running, TaskUpdateTag::Started, None));
    assert!(f.subscribers.is_empty());
    assert_eq!(f.by_name, vec!["s".to_string()]);
    tr.unsubscribe(&String::new(), &"s".to_string(), &"job".to_string(), true);
    let f = tr.handle_task_update(update("t", TaskStatus::Running, TaskUpdateTag::Updated, None));
    assert!(f.by_name.is_empty());
}

#[test]
fn unsubscribe_by_uuid() {
    let mut tr = TaskTracker::new();
    tr.subscribe("t".to_string(), "s".to_string(), String::new(), false, true);
    tr.unsubscribe(&"t".to_string(), &"s".to_string(), &String::new(), false);
    let f = tr.handle_task_update(update("t", TaskStatus::Running, TaskUpdateTag::Updated, None));
    assert!(f.subscribers.is_empty());
    assert!(!tr.is_registered(&"s".to_string()));
}
