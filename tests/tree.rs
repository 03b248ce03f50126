use patoka::plugin::WorkerPlugin;
use patoka::task::{GenTaskDefinition, TaskStatus, WorkerTask};
use patoka::task_assistant::TaskAssistant;
use patoka::task_tree::{TaskTree, TreeAction};

fn task(uuid: &str, parent: &str) -> WorkerTask<u32> {
    let def = GenTaskDefinition::subtask(WorkerPlugin::Basic, "exec.js", 7, parent.to_string(), "job");
    WorkerTask::new_with_uuid(def, uuid.to_string())
}

fn stopped(acts: &[TreeAction<u32>]) -> Vec<String> {
    let mut v: Vec<String> = acts.iter()
        .filter_map(|a| match a {
            TreeAction::StopTask { task_uuid, .. } => Some(task_uuid.clone()),
            _ => None,
        })
        .collect();
    v.sort();
    v
}

fn tree() -> TaskTree<u32> {
    // root -> a -> a1, root -> b
    let mut t = TaskTree::new();
    t.process_new_task(task("root", ""), true);
    t.process_new_task(task("a", "root"), true);
    t.process_new_task(task("b", "root"), false);
    t.process_new_task(task("a1", "a"), true);
    t
}

#[test]
fn stop_cascades_to_descendants() {
    let t = tree();
    let acts = t.stop_task(&"root".to_string());
    assert_eq!(stopped(&acts), vec!["a", "a1", "b", "root"]);
    let acts = t.stop_task(&"a".to_string());
    assert_eq!(stopped(&acts), vec!["a", "a1"]);
    assert!(t.stop_task(&"zzz".to_string()).is_empty());
}

#[test]
fn stop_skips_finished_tasks() {
    let mut t = tree();
    let acts = t.handle_task_update(&"a1".to_string(), TaskStatus::FinishedSuccess);
    assert!(matches!(&acts[0], TreeAction::ReportFinished { task_uuid } if task_uuid == "a1"));
    let acts = t.stop_task(&"root".to_string());
    assert_eq!(stopped(&acts), vec!["a", "b", "root"]);
    let acts = t.handle_control_message("stop_task", &"a".to_string());
    assert_eq!(stopped(&acts), vec!["a"]);
}

#[test]
fn close_waits_for_finish() {
    let mut t = tree();
    let acts = t.close_task(&"b".to_string());
    assert_eq!(stopped(&acts), vec!["b"]);
    assert!(t.contains(&"b".to_string()));
    let acts = t.handle_task_update(&"b".to_string(), TaskStatus::FinishedFailure);
    assert!(matches!(&acts[0], TreeAction::ReportFinished { .. }));
    assert!(acts.iter().any(|a| matches!(a, TreeAction::CloseTask { task_uuid, to_controller: false } if task_uuid == "b")));
    assert!(!t.contains(&"b".to_string()));
    assert!(t.contains(&"root".to_string()));
}

#[test]
fn failure_restart() {
    let mut assistant = TaskAssistant::new();
    assistant.handle_task_recovery("b".to_string(), 200);
    let mut t = tree();
    t.handle_task_update(&"b".to_string(), TaskStatus::FinishedFailure);
    let plan = assistant.handle_task_update(&"b".to_string(), TaskStatus::FinishedFailure).unwrap();
    assert_eq!(plan.task_uuid, "b");
    assert!(plan.delay_ms >= 200);
    assert_eq!(assistant.restart_delay(&"b".to_string()), None);
    assert!(assistant.handle_task_update(&"b".to_string(), TaskStatus::FinishedFailure).is_none());
    let acts = t.restart_task(&plan.task_uuid);
    let restarted: Vec<&WorkerTask<u32>> = acts.iter()
        .filter_map(|a| match a {
            TreeAction::Reprocess { task, previous_uuid } => {
                assert_eq!(previous_uuid, "b");
                Some(task)
            },
            _ => None,
        })
        .collect();
    assert_eq!(restarted.len(), 1);
    assert_ne!(restarted[0].task_uuid, "b");
    assert_eq!(restarted[0].task_uuid, restarted[0].task_definition.task_uuid);
    assert_eq!(restarted[0].task_uuid.len(), 36);
    assert!(!t.contains(&"b".to_string()));
    let new_uuid = restarted[0].task_uuid.clone();
    let mut again = task(&new_uuid, "root");
    again.update_worker_id("1".to_string());
    t.process_new_task(again, true);
    assert!(t.contains(&new_uuid));
}

#[test]
fn assistant_forgets_success() {
    let mut a = TaskAssistant::new();
    a.handle_task_recovery("x".to_string(), 5);
    assert_eq!(a.restart_delay(&"x".to_string()), Some(5));
    assert!(a.handle_task_update(&"x".to_string(), TaskStatus::Running).is_none());
    assert_eq!(a.restart_delay(&"x".to_string()), Some(5));
    assert!(a.handle_task_update(&"x".to_string(), TaskStatus::FinishedSuccess).is_none());
    assert_eq!(a.restart_delay(&"x".to_string()), None);
}

#[test]
fn restart_of_unknown_task_does_nothing() {
    let mut t = tree();
    assert!(t.restart_task(&"nope".to_string()).is_empty());
    assert!(t.handle_control_message("unknown_cmd", &"a".to_string()).is_empty());
}

#[test]
fn new_task_gets_random_uuid() {
    let def = GenTaskDefinition::new_none_plugin(1u8, "n");
    let t1 = WorkerTask::new(def);
    let t2 = WorkerTask::new(GenTaskDefinition::new_none_plugin(1u8, "n"));
    assert_eq!(t1.task_uuid.len(), 36);
    assert_ne!(t1.task_uuid, t2.task_uuid);
    assert_eq!(t1.plugin(), WorkerPlugin::NoPlugin);
    assert_eq!(t1.name(), "n");
    assert_eq!(t1.worker_id(), "");
}

#[test]
fn restart_of_running_task_waits_for_its_finish() {
    let mut t = tree();
    let acts = t.restart_task(&"b".to_string());
    assert_eq!(stopped(&acts), vec!["b"]);
    assert!(t.contains(&"b".to_string()));
    let acts = t.handle_task_update(&"b".to_string(), TaskStatus::FinishedSuccess);
    assert!(acts.iter().any(|a| matches!(a, TreeAction::Reprocess { previous_uuid, task }
        if previous_uuid == "b" && task.task_uuid != "b")));
    assert!(acts.iter().any(|a| matches!(a, TreeAction::CloseTask { task_uuid, to_controller: false } if task_uuid == "b")));
    assert!(!t.contains(&"b".to_string()));
}

#[test]
fn close_of_parent_closes_finished_children() {
    let mut t = tree();
    t.handle_task_update(&"a1".to_string(), TaskStatus::FinishedSuccess);
    let acts = t.close_task(&"a".to_string());
    assert!(acts.iter().any(|a| matches!(a, TreeAction::CloseTask { task_uuid, to_controller: true } if task_uuid == "a1")));
    assert_eq!(stopped(&acts), vec!["a"]);
    assert!(!t.contains(&"a1".to_string()));
    assert!(t.contains(&"a".to_string()));
    assert!(t.contains(&"b".to_string()));
}
