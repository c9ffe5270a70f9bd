use task_master_sync::clock::Timestamp;
use task_master_sync::models::task::Task;
use task_master_sync::state::{StateTracker, SyncState};

fn task(id: &str, title: &str, status: &str) -> Task {
    Task {
        id: id.to_string(),
        title: title.to_string(),
        description: String::new(),
        status: status.to_string(),
        priority: None,
        dependencies: vec![],
        details: None,
        test_strategy: None,
        subtasks: vec![],
        assignee: None,
    }
}

fn tracker() -> StateTracker {
    StateTracker::new("state.json", None)
}

#[test]
fn test_state_persistence() {
    let mut tracker = tracker();
    let task = Task {
        id: "123".to_string(),
        title: "Test Task".to_string(),
        description: "Test description".to_string(),
        status: "pending".to_string(),
        priority: Some("high".to_string()),
        dependencies: vec![],
        details: None,
        test_strategy: None,
        subtasks: vec![],
        assignee: None,
    };

    tracker.record_synced("123", "github-123", Some("draft-123"), &task).unwrap();

    assert!(tracker.is_synced("123"));
    assert_eq!(tracker.get_github_item_id("123"), Some("github-123".to_string()));
    assert_eq!(tracker.state_file(), "state.json");

    let kept = tracker.state();
    assert_eq!(kept.task_mappings.get("123").unwrap(), "github-123");
    assert!(kept.synced_tasks.contains("123"));
    assert_eq!(kept.task_metadata.get("123").unwrap().title, "Test Task");
    assert!(kept.last_sync.is_some());
}

#[test]
fn test_orphaned_detection() {
    let mut tracker = tracker();

    let task1 = task("1", "Task 1", "pending");
    let task2 = task("2", "Task 2", "pending");

    tracker.record_synced("1", "gh-1", None, &task1).unwrap();
    tracker.record_synced("2", "gh-2", None, &task2).unwrap();

    let orphaned = tracker.find_orphaned_items(&[task1]);
    assert_eq!(orphaned, vec!["2"]);
}

#[test]
fn test_batch_updates() {
    let mut tracker = tracker();

    let updates = vec![
        ("1".to_string(), "gh-1".to_string(), None, task("1", "Task 1", "done")),
        (
            "2".to_string(),
            "gh-2".to_string(),
            Some("draft-2".to_string()),
            task("2", "Task 2", "in-progress"),
        ),
    ];

    tracker.batch_record_synced(updates).unwrap();

    assert!(tracker.is_synced("1"));
    assert!(tracker.is_synced("2"));

    let metadata = tracker.get_task_metadata("2").unwrap();
    assert_eq!(metadata.draft_issue_id, Some("draft-2".to_string()));
    assert_eq!(metadata.status, "in-progress");
}

#[test]
fn test_clear_state() {
    let mut tracker = tracker();

    let task = task("test", "Test", "pending");

    tracker.record_synced("test", "gh-test", None, &task).unwrap();
    assert!(tracker.is_synced("test"));

    tracker.clear().unwrap();
    assert!(!tracker.is_synced("test"));
    assert_eq!(tracker.get_synced_ids().len(), 0);
}

#[test]
fn test_state_removal() {
    let mut tracker = tracker();
    tracker.record_synced("a", "gh-a", Some("d-a"), &task("a", "A", "pending")).unwrap();
    tracker.record_synced("b", "gh-b", None, &task("b", "B", "pending")).unwrap();
    tracker.remove_task("a").unwrap();
    assert!(!tracker.is_synced("a"));
    assert_eq!(tracker.get_github_item_id("a"), None);
    assert!(tracker.get_task_metadata("a").is_none());
    assert!(tracker.is_synced("b"));
    assert_eq!(tracker.get_synced_ids(), vec!["b"]);
    tracker.remove_task("never-there").unwrap();
    assert_eq!(tracker.get_stats().total_synced, 1);
}

#[test]
fn record_at_a_given_time_is_exact() {
    let mut tracker = tracker();
    let at = Timestamp { secs: 1_700_000_000, nanos: 5 };
    tracker.record_synced_at("1", "gh-1", Some("draft-1"), &task("1", "One", "pending"), at).unwrap();
    let m = tracker.get_task_metadata("1").unwrap();
    assert_eq!(m.github_item_id, "gh-1");
    assert_eq!(m.draft_issue_id, Some("draft-1".to_string()));
    assert_eq!(m.title, "One");
    assert_eq!(m.last_updated, at);
    assert_eq!(tracker.get_stats().last_sync, Some(at));
    let later = Timestamp { secs: 1_700_000_100, nanos: 0 };
    tracker.update_task_metadata_at("1", &task("1", "Renamed", "done"), later).unwrap();
    let m = tracker.get_task_metadata("1").unwrap();
    assert_eq!(m.title, "Renamed");
    assert_eq!(m.status, "done");
    assert_eq!(m.github_item_id, "gh-1");
    assert_eq!(m.last_updated, later);
    tracker.update_task_metadata_at("2", &task("2", "Unknown", "done"), at).unwrap();
    assert!(tracker.get_task_metadata("2").is_none());
    assert_eq!(tracker.get_stats().last_sync, Some(at));
}

#[test]
fn an_id_maps_to_one_item_at_a_time() {
    let mut tracker = tracker();
    let t = task("1", "One", "pending");
    tracker.record_synced("1", "gh-old", None, &t).unwrap();
    tracker.record_synced("1", "gh-new", None, &t).unwrap();
    assert_eq!(tracker.get_github_item_id("1"), Some("gh-new".to_string()));
    assert_eq!(tracker.get_synced_ids(), vec!["1"]);
    assert_eq!(tracker.state().task_mappings.len(), 1);
}

#[test]
fn the_clock_is_read_when_recording() {
    let mut tracker = tracker();
    assert!(tracker.get_stats().last_sync.is_none());
    tracker.record_synced("1", "gh-1", None, &task("1", "One", "pending")).unwrap();
    let stamp = tracker.get_stats().last_sync.unwrap();
    assert!(stamp.secs > 1_600_000_000);
    assert_eq!(tracker.get_task_metadata("1").unwrap().last_updated, stamp);
}

#[test]
fn orphans_keep_the_order_of_synchronisation() {
    let mut tracker = tracker();
    for id in ["c", "a", "b", "d"] {
        tracker.record_synced(id, "gh", None, &task(id, id, "pending")).unwrap();
    }
    let current = vec![task("a", "a", "pending"), task("x", "x", "pending")];
    assert_eq!(tracker.find_orphaned_items(&current), vec!["c", "b", "d"]);
    assert!(tracker.find_orphaned_items(&[
        task("a", "", ""),
        task("b", "", ""),
        task("c", "", ""),
        task("d", "", "")
    ])
    .is_empty());
}

#[test]
fn a_loaded_state_is_taken_over() {
    let mut first = tracker();
    first.record_synced("1", "gh-1", None, &task("1", "One", "pending")).unwrap();
    let mut loaded = SyncState::default();
    loaded.task_mappings.insert("9".to_string(), "gh-9".to_string());
    loaded.synced_tasks.insert("9".to_string());
    let second = StateTracker::new("other.json", Some(loaded));
    assert!(second.is_synced("9"));
    assert_eq!(second.get_github_item_id("9"), Some("gh-9".to_string()));
    assert!(!second.is_synced("1"));
}
