use task_master_sync::error::TaskMasterError;
use task_master_sync::models::task::Task;
use task_master_sync::strmap::{StrMap, StrSet};
use task_master_sync::subtasks::{find_root_tasks, SubtaskConfig, SubtaskHandler, TaskNode};

fn task(id: &str, title: &str) -> Task {
    Task {
        id: id.to_string(),
        title: title.to_string(),
        description: String::new(),
        status: "pending".to_string(),
        priority: None,
        dependencies: vec![],
        details: None,
        test_strategy: None,
        subtasks: vec![],
        assignee: None,
    }
}

fn node(t: Task, children: Vec<TaskNode>) -> TaskNode {
    TaskNode { task: t, children, github_item_id: None, parent_id: None, level: 0 }
}

#[test]
fn test_hierarchy_building() {
    let handler = SubtaskHandler::new();
    let nodes = handler.build_hierarchy(vec![task("1", "One"), task("2", "Two")]);
    assert_eq!(nodes.len(), 2);
    assert_eq!(nodes[0].task.id, "1");
    assert_eq!(nodes[1].task.title, "Two");
    assert_eq!(nodes[0].level, 0);
    assert!(nodes[0].children.is_empty());
    assert!(nodes[0].parent_id.is_none());
    assert!(nodes[0].github_item_id.is_none());
}

#[test]
fn test_parent_child_relationships() {
    let mut handler = SubtaskHandler::new();
    handler.record_subtask("1", "1.1", "item-a");
    handler.record_subtask("1", "1.2", "item-b");
    handler.record_subtask("2", "2.1", "item-c");
    assert_eq!(handler.get_child_ids("1"), vec!["1.1", "1.2"]);
    assert_eq!(handler.get_child_ids("2"), vec!["2.1"]);
    assert!(handler.get_child_ids("3").is_empty());
    assert_eq!(handler.get_parent_id("1.2"), Some("1".to_string()));
    assert_eq!(handler.get_parent_id("2.1"), Some("2".to_string()));
    assert_eq!(handler.get_parent_id("1"), None);
}

#[test]
fn test_hierarchy_validation() {
    let mut handler = SubtaskHandler::new();
    handler.record_subtask("A", "B", "item-b");
    handler.record_subtask("B", "C", "item-c");
    handler.record_subtask("C", "D", "item-d");
    let tasks = vec![task("A", "a"), task("B", "b"), task("C", "c"), task("D", "d")];
    assert!(handler.validate_hierarchy(&tasks).is_ok());
}

#[test]
fn cycle_of_two_is_rejected() {
    let mut handler = SubtaskHandler::new();
    handler.record_subtask("A", "B", "item-b");
    handler.record_subtask("B", "A", "item-a");
    match handler.validate_hierarchy(&[task("X", "x"), task("B", "b"), task("A", "a")]) {
        Err(TaskMasterError::DependencyCycle(text)) => {
            assert_eq!(text, "Circular reference detected in task hierarchy starting with B")
        }
        other => panic!("unexpected: {:?}", other),
    }
    assert!(handler.validate_hierarchy(&[task("X", "x")]).is_ok());
}

#[test]
fn shared_child_is_no_cycle() {
    let mut handler = SubtaskHandler::new();
    handler.record_subtask("A", "B", "item-b");
    handler.record_subtask("A", "C", "item-c");
    handler.record_subtask("B", "D", "item-d");
    handler.record_subtask("C", "D", "item-d");
    assert!(handler.validate_hierarchy(&[task("A", "a")]).is_ok());
    let mut visited = StrSet::new();
    assert!(!handler.has_circular_reference("A", &mut visited));
    assert_eq!(visited.len(), 0);
    visited.insert("D".to_string());
    assert!(handler.has_circular_reference("A", &mut visited));
}

#[test]
fn self_loop_is_a_cycle() {
    let mut handler = SubtaskHandler::new();
    handler.record_subtask("A", "A", "item-a");
    assert!(handler.validate_hierarchy(&[task("A", "a")]).is_err());
}

#[test]
fn flatten_puts_each_node_before_its_children() {
    let handler = SubtaskHandler::new();
    let tree = vec![
        node(
            task("1", "one"),
            vec![node(task("1.1", "a"), vec![node(task("1.1.1", "b"), vec![])]), node(task("1.2", "c"), vec![])],
        ),
        node(task("2", "two"), vec![]),
    ];
    let flat = handler.flatten_hierarchy(tree);
    let ids: Vec<&str> = flat.iter().map(|t| t.id.as_str()).collect();
    assert_eq!(ids, vec!["1", "1.1", "1.1.1", "1.2", "2"]);
}

#[test]
fn separate_issue_needs_length_and_a_reason() {
    let handler = SubtaskHandler::new();
    let config = SubtaskHandler::default_config();
    assert_eq!(config.complexity_threshold, 100);
    let mut short = task("1.1", "short");
    short.assignee = Some("someone".to_string());
    short.description = "x".repeat(99);
    assert!(!handler.should_create_separate_issue(&short, &config));
    let mut exact = task("1.2", "exact");
    exact.description = "x".repeat(100);
    assert!(!handler.should_create_separate_issue(&exact, &config));
    exact.assignee = Some("someone".to_string());
    assert!(handler.should_create_separate_issue(&exact, &config));
    let mut long = task("1.3", "long");
    long.description = "x".repeat(101);
    assert!(handler.should_create_separate_issue(&long, &config));
    let strict = SubtaskConfig {
        create_separate_if_has_subtasks: true,
        create_separate_if_has_assignee: false,
        create_separate_if_complex: false,
        complexity_threshold: 100,
    };
    assert!(!handler.should_create_separate_issue(&exact, &strict));
    exact.subtasks = vec![task("1.2.1", "child")];
    assert!(handler.should_create_separate_issue(&exact, &strict));
    let mut wide = task("1.4", "wide");
    wide.description = "é".repeat(50);
    wide.details = Some("d".to_string());
    assert!(handler.should_create_separate_issue(&wide, &config));
}

#[test]
fn subtask_issue_names_its_parent() {
    let handler = SubtaskHandler::new();
    let parent = task("1", "Parent");
    let mut sub = task("1.1", "Child");
    sub.description = "Do it".to_string();
    sub.details = Some("How".to_string());
    sub.test_strategy = Some("Check".to_string());
    sub.assignee = Some("swe-1".to_string());
    let issue = handler.create_subtask_issue(&parent, &sub);
    assert_eq!(issue.subtask_id, "1.1");
    assert_eq!(issue.title, "Child [Parent]");
    assert_eq!(
        issue.body,
        "Do it\n\n**Parent Task:** Parent\n\n## Details\nHow\n\n## Test Strategy\nCheck"
    );
    assert_eq!(issue.assignees, Some(vec!["swe-1".to_string()]));
}

#[test]
fn process_subtasks_plans_only_in_enhanced_mode() {
    let mut parent = task("1", "Parent");
    let mut big = task("1.1", "Big");
    big.description = "y".repeat(150);
    parent.subtasks = vec![task("1.0", "small"), big];
    let config = SubtaskHandler::default_config();
    let enhanced = SubtaskHandler::new();
    assert!(enhanced.is_enhanced_mode());
    let planned = enhanced.process_subtasks(&parent, &config);
    assert_eq!(planned.len(), 1);
    assert_eq!(planned[0].subtask_id, "1.1");
    let basic = SubtaskHandler::new_basic();
    assert!(!basic.is_enhanced_mode());
    assert!(basic.process_subtasks(&parent, &config).is_empty());
}

#[test]
fn levels_and_labels() {
    let mut handler = SubtaskHandler::new();
    assert!(handler.is_subtask("1.2"));
    assert!(!handler.is_subtask("12"));
    assert_eq!(handler.get_task_level("1"), 0);
    assert_eq!(handler.get_task_level("1.2.3"), 2);
    handler.record_subtask("1", "1.1", "item");
    let mut parent = task("1", "p");
    parent.subtasks = vec![task("1.1", "c"), task("1.2", "d")];
    assert_eq!(handler.format_hierarchy_field(&parent), "Parent task (2 subtasks)");
    assert_eq!(handler.format_hierarchy_field(&task("1.1", "c")), "Subtask");
    assert_eq!(handler.format_hierarchy_field(&task("5", "r")), "Root task");
    let mut fields: StrMap<String> = StrMap::new();
    handler.add_hierarchy_fields(&mut fields, &parent);
    assert_eq!(fields.get("Hierarchy").unwrap(), "Parent task (2 subtasks)");
    assert_eq!(fields.get("Subtask Count").unwrap(), "2");
    assert!(fields.get("Parent Task").is_none());
    let mut child_fields: StrMap<String> = StrMap::new();
    handler.add_hierarchy_fields(&mut child_fields, &task("1.1", "c"));
    assert_eq!(child_fields.get("Parent Task").unwrap(), "1");
    assert!(child_fields.get("Subtask Count").is_none());
}

#[test]
fn root_tasks_have_no_dot() {
    let tasks = vec![task("1", "a"), task("1.1", "b"), task("2", "c")];
    let roots = find_root_tasks(&tasks);
    let ids: Vec<&str> = roots.iter().map(|t| t.id.as_str()).collect();
    assert_eq!(ids, vec!["1", "2"]);
}
