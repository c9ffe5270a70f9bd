use task_master_sync::delta::{
    content_text, fingerprint_with, DeltaSyncEngine, TaskChange, TaskSnapshot,
};
use task_master_sync::error::TaskMasterError;
use task_master_sync::models::task::Task;
use task_master_sync::strmap::StrMap;

fn task(id: &str, title: &str, description: &str) -> Task {
    Task {
        id: id.to_string(),
        title: title.to_string(),
        description: description.to_string(),
        status: "pending".to_string(),
        priority: None,
        dependencies: vec![],
        details: None,
        test_strategy: None,
        subtasks: vec![],
        assignee: None,
    }
}

fn change_id(c: &TaskChange) -> (&'static str, String) {
    match c {
        TaskChange::Added(t) => ("added", t.id.clone()),
        TaskChange::Modified(_, t) => ("modified", t.id.clone()),
        TaskChange::Removed(t) => ("removed", t.id.clone()),
    }
}

#[test]
fn test_fingerprint_creation() {
    let task = Task {
        id: "test-1".to_string(),
        title: "Test Task".to_string(),
        description: "Test description".to_string(),
        status: "pending".to_string(),
        priority: Some("high".to_string()),
        dependencies: vec!["dep-1".to_string()],
        subtasks: vec![],
        details: None,
        test_strategy: None,
        assignee: Some("user1".to_string()),
    };

    let engine = DeltaSyncEngine::new("test");
    let fingerprint = engine.create_fingerprint(&task);

    assert_eq!(fingerprint.id, "test-1");
    assert_eq!(fingerprint.title, "Test Task");
    assert_eq!(fingerprint.status, "pending");
    assert_eq!(fingerprint.priority, Some("high".to_string()));
    assert_eq!(fingerprint.assignee, Some("user1".to_string()));
    assert_eq!(fingerprint.dependencies, vec!["dep-1".to_string()]);
    assert!(!fingerprint.content_hash.is_empty());
}

#[test]
fn test_change_detection() {
    let engine = DeltaSyncEngine::new("master");
    let first = vec![task("1", "One", "a"), task("2", "Two", "b"), task("3", "Three", "c")];
    let mut changed = task("2", "Two", "b changed");
    changed.status = "done".to_string();
    let second = vec![task("1", "One", "a"), changed, task("4", "Four", "d")];
    let previous = engine.create_snapshot(&first);
    let current = engine.create_snapshot(&second);
    let changes = engine.compare_snapshots(&previous, &current, &second).unwrap();
    let seen: Vec<(&str, String)> = changes.iter().map(change_id).collect();
    assert_eq!(
        seen,
        vec![
            ("modified", "2".to_string()),
            ("removed", "3".to_string()),
            ("added", "4".to_string()),
        ]
    );
}

#[test]
fn content_hash_is_the_md5_of_the_debug_text() {
    let engine = DeltaSyncEngine::new("test");
    let fp = engine.create_fingerprint(&task("1", "T", "Test description"));
    assert_eq!(fp.content_hash, "c3681124330c3c1539d420b0d4a91643");
    let empty = engine.create_fingerprint(&task("1", "T", ""));
    assert_eq!(empty.content_hash, "0567170d2a33421e4d381c2a64e9c85c");
}

#[test]
fn content_hash_escapes_and_counts_subtasks() {
    let engine = DeltaSyncEngine::new("test");
    let mut t = task("1", "T", "a\"b\nc");
    t.details = Some("d".to_string());
    t.test_strategy = Some("t\\s".to_string());
    t.subtasks = vec![task("1.1", "s1", ""), task("1.2", "s2", "")];
    let fp = engine.create_fingerprint(&t);
    assert_eq!(fp.content_hash, "5b5733dca85ce039bfdddf55a9d01c62");
    let mut many = task("9", "T", "x");
    many.subtasks = (0..12).map(|i| task(&format!("9.{i}"), "s", "")).collect();
    assert_eq!(engine.create_fingerprint(&many).content_hash, "94391ced93f0c9c2b66a4f089884d930");
}

#[test]
fn content_hash_ignores_title_status_priority_and_assignee() {
    let engine = DeltaSyncEngine::new("test");
    let a = task("1", "One", "same");
    let mut b = task("2", "Other title", "same");
    b.status = "done".to_string();
    b.priority = Some("low".to_string());
    b.assignee = Some("someone".to_string());
    b.dependencies = vec!["7".to_string()];
    let fa = engine.create_fingerprint(&a);
    let fb = engine.create_fingerprint(&b);
    assert_eq!(fa.content_hash, fb.content_hash);
    assert!(!fa.same_as(&fb));
    let mut c = task("1", "One", "same");
    c.details = Some("more".to_string());
    assert_ne!(engine.create_fingerprint(&c).content_hash, fa.content_hash);
}

#[test]
fn snapshot_path_names_the_tag() {
    let engine = DeltaSyncEngine::new("sprint-1");
    assert_eq!(engine.snapshot_path(), ".taskmaster/snapshots/sprint-1-snapshot.json");
}

#[test]
fn unchanged_tasks_have_no_changes() {
    let engine = DeltaSyncEngine::new("master");
    let tasks = vec![task("1", "One", "a"), task("2", "Two", "b")];
    let previous = engine.create_snapshot(&tasks);
    let current = engine.create_snapshot(&tasks);
    let changes = engine.compare_snapshots(&previous, &current, &tasks).unwrap();
    assert!(changes.is_empty());
}

#[test]
fn title_change_alone_is_a_modification() {
    let engine = DeltaSyncEngine::new("master");
    let first = vec![task("1", "One", "a")];
    let second = vec![task("1", "Renamed", "a")];
    let previous = engine.create_snapshot(&first);
    let current = engine.create_snapshot(&second);
    let changes = engine.compare_snapshots(&previous, &current, &second).unwrap();
    assert_eq!(changes.len(), 1);
    match &changes[0] {
        TaskChange::Modified(old, new) => {
            assert_eq!(old.title, "Renamed");
            assert_eq!(new.title, "Renamed");
        }
        other => panic!("unexpected: {:?}", other),
    }
}

#[test]
fn removed_task_is_rebuilt_from_its_fingerprint() {
    let engine = DeltaSyncEngine::new("master");
    let mut gone = task("7", "Gone", "body that is lost");
    gone.priority = Some("high".to_string());
    gone.details = Some("lost too".to_string());
    gone.dependencies = vec!["1".to_string()];
    let previous = engine.create_snapshot(&[gone]);
    let current = engine.create_snapshot(&[]);
    let changes = engine.compare_snapshots(&previous, &current, &[]).unwrap();
    assert_eq!(changes.len(), 1);
    match &changes[0] {
        TaskChange::Removed(t) => {
            assert_eq!(t.id, "7");
            assert_eq!(t.title, "Gone");
            assert_eq!(t.description, "");
            assert_eq!(t.priority, Some("high".to_string()));
            assert_eq!(t.details, None);
            assert_eq!(t.dependencies, vec!["1".to_string()]);
        }
        other => panic!("unexpected: {:?}", other),
    }
}

#[test]
fn impact_reaches_direct_dependents_only() {
    let engine = DeltaSyncEngine::new("master");
    let a = task("a", "A", "");
    let mut b = task("b", "B", "");
    b.dependencies = vec!["a".to_string()];
    let mut c = task("c", "C", "");
    c.dependencies = vec!["b".to_string()];
    let all = vec![a.clone(), b, c];
    let changes = vec![TaskChange::Added(Box::new(a))];
    let impacted = engine.calculate_impacted_tasks(&changes, &all);
    assert_eq!(impacted.len(), 2);
    assert!(impacted.contains("a"));
    assert!(impacted.contains("b"));
    assert!(!impacted.contains("c"));
}

#[test]
fn detect_changes_without_snapshot_adds_every_task() {
    let engine = DeltaSyncEngine::new("master");
    let mut by_tag: StrMap<Vec<Task>> = StrMap::new();
    by_tag.insert("master".to_string(), vec![task("1", "One", "a"), task("2", "Two", "b")]);
    let (change_set, snapshot) = engine.detect_changes(None, &by_tag, "master").unwrap();
    let seen: Vec<(&str, String)> = change_set.changes.iter().map(change_id).collect();
    assert_eq!(seen, vec![("added", "1".to_string()), ("added", "2".to_string())]);
    assert_eq!(snapshot.tasks.len(), 2);
    assert_eq!(change_set.impacted_task_ids.len(), 2);
}

#[test]
fn detect_changes_twice_finds_nothing_the_second_time() {
    let engine = DeltaSyncEngine::new("master");
    let mut by_tag: StrMap<Vec<Task>> = StrMap::new();
    by_tag.insert("master".to_string(), vec![task("1", "One", "a"), task("2", "Two", "b")]);
    let (_, snapshot) = engine.detect_changes(None, &by_tag, "master").unwrap();
    let previous: TaskSnapshot = snapshot;
    let (second, _) = engine.detect_changes(Some(&previous), &by_tag, "master").unwrap();
    assert!(second.changes.is_empty());
    assert_eq!(second.impacted_task_ids.len(), 0);
}

#[test]
fn detect_changes_fails_for_an_unknown_tag() {
    let engine = DeltaSyncEngine::new("master");
    let by_tag: StrMap<Vec<Task>> = StrMap::new();
    match engine.detect_changes(None, &by_tag, "nope") {
        Err(TaskMasterError::InvalidTaskFormat(text)) => assert_eq!(text, "Tag 'nope' not found"),
        other => panic!("unexpected: {:?}", other.map(|_| ())),
    }
}

#[test]
fn snapshot_keeps_the_last_task_of_an_id() {
    let engine = DeltaSyncEngine::new("master");
    let snapshot = engine.create_snapshot(&[task("1", "First", "a"), task("1", "Second", "b")]);
    assert_eq!(snapshot.tasks.len(), 1);
    assert_eq!(snapshot.tasks.get("1").unwrap().title, "Second");
    assert!(snapshot.timestamp.secs > 0);
}

#[test]
fn content_text_joins_its_parts_with_colons() {
    assert_eq!(content_text("\"d\"", None, None, 0), "\"d\":None:None:0");
    assert_eq!(
        content_text("\"d\"", Some("\"x\""), Some("\"y\""), 12),
        "\"d\":Some(\"x\"):Some(\"y\"):12"
    );
    assert_eq!(content_text("", Some(""), None, 3), ":Some():None:3");
}

#[test]
fn fingerprint_takes_the_hash_as_given() {
    let mut t = task("1", "One", "body");
    t.priority = Some("high".to_string());
    t.assignee = Some("a".to_string());
    t.dependencies = vec!["0".to_string()];
    let fp = fingerprint_with(&t, "abc".to_string());
    assert_eq!(fp.id, "1");
    assert_eq!(fp.title, "One");
    assert_eq!(fp.status, "pending");
    assert_eq!(fp.priority, Some("high".to_string()));
    assert_eq!(fp.assignee, Some("a".to_string()));
    assert_eq!(fp.dependencies, vec!["0".to_string()]);
    assert_eq!(fp.content_hash, "abc");
}
