use task_master_sync::error::TaskMasterError;
use task_master_sync::json::JsonValue;
use task_master_sync::models::task::{TaggedTasks, Task, TaskmasterFile, TaskmasterTasks};
use task_master_sync::strmap::StrMap;
use task_master_sync::taskmaster::format::{task_file_shape, validate_json_structure, TaskFileShape};
use task_master_sync::taskmaster::TaskMasterReader;

fn task(id: &str, title: &str) -> Task {
    Task {
        id: id.to_string(),
        title: title.to_string(),
        description: String::new(),
        status: "pending".to_string(),
        priority: None,
        dependencies: vec![],
        details: None,
        test_strategy: None,
        subtasks: vec![],
        assignee: None,
    }
}

fn object(members: Vec<(&str, JsonValue)>) -> JsonValue {
    JsonValue::Object(members.into_iter().map(|(k, v)| (k.to_string(), v)).collect())
}

#[test]
fn test_json_structure_validation() {
    let valid_tagged = object(vec![("master", object(vec![("tasks", JsonValue::Array(vec![]))]))]);
    assert!(validate_json_structure(&valid_tagged).is_ok());

    let valid_legacy = object(vec![("tasks", JsonValue::Array(vec![]))]);
    assert!(validate_json_structure(&valid_legacy).is_ok());

    let invalid_array = JsonValue::Array(vec![]);
    assert!(validate_json_structure(&invalid_array).is_err());

    let invalid_tag = object(vec![("master", object(vec![("notTasks", JsonValue::Array(vec![]))]))]);
    assert!(validate_json_structure(&invalid_tag).is_err());
}

#[test]
fn structure_faults_are_named() {
    match validate_json_structure(&JsonValue::Null) {
        Err(TaskMasterError::InvalidTaskFormat(text)) => assert_eq!(text, "Root must be an object"),
        other => panic!("unexpected: {:?}", other),
    }
    let not_object = object(vec![
        ("good", object(vec![("tasks", JsonValue::Array(vec![]))])),
        ("bad", JsonValue::Text("x".to_string())),
    ]);
    match validate_json_structure(&not_object) {
        Err(TaskMasterError::InvalidTaskFormat(text)) => {
            assert_eq!(text, "Tag 'bad' must contain an object")
        }
        other => panic!("unexpected: {:?}", other),
    }
    let no_list = object(vec![("sprint", object(vec![("tasks", JsonValue::Bool(true))]))]);
    match validate_json_structure(&no_list) {
        Err(TaskMasterError::InvalidTaskFormat(text)) => {
            assert_eq!(text, "Tag 'sprint' must contain a 'tasks' array")
        }
        other => panic!("unexpected: {:?}", other),
    }
    assert!(validate_json_structure(&object(vec![])).is_ok());
}

#[test]
fn test_load_tasks_tagged_format() {
    let mut map: StrMap<TaggedTasks> = StrMap::new();
    map.insert("master".to_string(), TaggedTasks { tasks: vec![task("1", "Test Task")], metadata: None });
    let mut reader = TaskMasterReader::new(".");
    let tasks = reader.load_tasks(TaskmasterFile { version: None, tasks: TaskmasterTasks::Tagged(map) });

    assert_eq!(tasks.len(), 1);
    assert!(tasks.contains_key("master"));
    assert_eq!(tasks.get("master").unwrap().tasks.len(), 1);
    assert_eq!(tasks.get("master").unwrap().tasks[0].title, "Test Task");
}

#[test]
fn test_load_tasks_legacy_format() {
    let mut reader = TaskMasterReader::new(".");
    let tasks = reader.load_tasks(TaskmasterFile {
        version: None,
        tasks: TaskmasterTasks::Legacy { tasks: vec![task("1", "Legacy Task")] },
    });

    assert_eq!(tasks.len(), 1);
    assert!(tasks.contains_key("master"));
    assert_eq!(tasks.get("master").unwrap().tasks.len(), 1);
    assert_eq!(tasks.get("master").unwrap().tasks[0].title, "Legacy Task");
}

#[test]
fn reader_hands_out_tasks_by_tag_and_all_together() {
    let mut map: StrMap<TaggedTasks> = StrMap::new();
    map.insert("a".to_string(), TaggedTasks { tasks: vec![task("1", "one"), task("2", "two")], metadata: None });
    map.insert("b".to_string(), TaggedTasks { tasks: vec![task("3", "three")], metadata: None });
    let mut reader = TaskMasterReader::new("/project");
    assert_eq!(reader.tasks_path(), "/project/.taskmaster/tasks/tasks.json");
    assert!(reader.get_all_tasks().is_empty());
    reader.load_tasks(TaskmasterFile { version: Some("1".to_string()), tasks: TaskmasterTasks::Tagged(map) });
    assert_eq!(reader.get_tasks_for_tag("a").unwrap().len(), 2);
    assert!(reader.get_tasks_for_tag("c").is_none());
    let ids: Vec<String> = reader.get_all_tasks().into_iter().map(|t| t.id).collect();
    assert_eq!(ids, vec!["1", "2", "3"]);
}

#[test]
fn a_bare_title_becomes_a_pending_subtask() {
    let t = Task::from_subtask_title(3, "Write docs".to_string());
    assert_eq!(t.id, "subtask-3");
    assert_eq!(t.title, "Write docs");
    assert_eq!(t.status, "pending");
    assert_eq!(t.description, "");
    assert!(t.subtasks.is_empty());
    assert_eq!(Task::from_subtask_title(120, String::new()).id, "subtask-120");
}

#[test]
fn a_copy_of_a_task_is_equal_to_it() {
    let mut t = task("1", "one");
    t.subtasks = vec![task("1.1", "sub")];
    t.dependencies = vec!["0".to_string()];
    t.priority = Some("high".to_string());
    assert_eq!(t.clone(), t);
}

#[test]
fn the_shape_of_a_file_is_chosen_by_what_it_holds() {
    let legacy = object(vec![("tasks", JsonValue::Array(vec![]))]);
    assert_eq!(task_file_shape(&legacy).unwrap(), TaskFileShape::Legacy);
    let tagged = object(vec![("master", object(vec![("tasks", JsonValue::Array(vec![]))]))]);
    assert_eq!(task_file_shape(&tagged).unwrap(), TaskFileShape::Tagged);
    assert!(task_file_shape(&JsonValue::Array(vec![])).is_err());
    assert!(task_file_shape(&object(vec![("master", JsonValue::Null)])).is_err());
}

#[test]
fn a_text_is_read_as_a_document() {
    let doc = JsonValue::parse(r#"{"b": [1, -2.5, true, null, "x"], "a": {"tasks": []}}"#).unwrap();
    assert!(doc.is_object());
    let list = doc.get("b").unwrap();
    assert!(list.is_array());
    match list {
        JsonValue::Array(items) => {
            assert_eq!(items.len(), 5);
            assert!(matches!(&items[0], JsonValue::Number(n) if n == "1"));
            assert!(matches!(&items[1], JsonValue::Number(n) if n == "-2.5"));
            assert!(matches!(&items[2], JsonValue::Bool(true)));
            assert!(matches!(&items[3], JsonValue::Null));
            assert_eq!(items[4].as_str(), Some("x"));
        }
        other => panic!("unexpected: {:?}", other),
    }
    assert!(doc.get("missing").is_none());
    assert!(validate_json_structure(&doc).is_err());
    let tagged = JsonValue::parse(r#"{"master": {"tasks": []}}"#).unwrap();
    assert_eq!(task_file_shape(&tagged).unwrap(), TaskFileShape::Tagged);
    match JsonValue::parse("[1, 2") {
        Err(TaskMasterError::JsonError(text)) => assert!(text.contains("line 1")),
        other => panic!("unexpected: {:?}", other),
    }
}
