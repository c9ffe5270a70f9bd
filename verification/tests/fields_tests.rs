use task_master_sync::error::TaskMasterError;
use task_master_sync::fields::{
    option_with_name, status_label_for, FieldManager, FieldMapping, FieldTransformer, OptionStep,
};
use task_master_sync::json::JsonValue;
use task_master_sync::models::github::{CustomField, FieldOption, GitHubFieldType};
use task_master_sync::models::task::Task;
use task_master_sync::strmap::StrMap;
use task_master_sync::sync::SyncOptions;

fn task(id: &str, status: &str, assignee: Option<&str>) -> Task {
    Task {
        id: id.to_string(),
        title: "Test Task".to_string(),
        description: "Test description".to_string(),
        status: status.to_string(),
        priority: None,
        dependencies: vec![],
        details: None,
        test_strategy: None,
        subtasks: vec![],
        assignee: assignee.map(|a| a.to_string()),
    }
}

fn status_field() -> CustomField {
    CustomField {
        id: "F_status".to_string(),
        name: "Status".to_string(),
        data_type: "SINGLE_SELECT".to_string(),
        options: Some(vec![
            FieldOption { id: "O_todo".to_string(), name: "Todo".to_string(), color: None },
            FieldOption {
                id: "O_qa".to_string(),
                name: "QA Review".to_string(),
                color: Some("BLUE".to_string()),
            },
        ]),
    }
}

#[test]
fn test_field_mapping() {
    let manager = FieldManager::new();

    assert!(manager.get_mapping("id").is_some());
    assert!(manager.get_mapping("status").is_some());
    assert!(manager.get_mapping("priority").is_some());
    assert!(manager.get_mapping("dependencies").is_some());
    assert!(manager.get_mapping("testStrategy").is_some());
}

#[test]
fn test_value_transformation() {
    let manager = FieldManager::new();

    assert_eq!(manager.transform_status("pending").unwrap(), "Todo");
    assert_eq!(manager.transform_status("in-progress").unwrap(), "In Progress");
    assert_eq!(manager.transform_status("review").unwrap(), "QA Review");
    assert_eq!(manager.transform_status("done").unwrap(), "QA Review");

    assert_eq!(manager.transform_priority("high").unwrap(), "high");
    assert_eq!(manager.transform_priority("medium").unwrap(), "medium");
    assert_eq!(manager.transform_priority("low").unwrap(), "low");
}

#[test]
fn test_task_to_github_mapping() {
    let manager = FieldManager::new();

    let task = Task {
        id: "1".to_string(),
        title: "Test Task".to_string(),
        description: "Test description".to_string(),
        status: "pending".to_string(),
        priority: Some("high".to_string()),
        dependencies: vec!["2".to_string(), "3".to_string()],
        subtasks: vec![],
        test_strategy: Some("Unit tests".to_string()),
        details: Some("".to_string()),
        assignee: None,
    };

    let mapped_fields = manager.map_task_to_github(&task).unwrap();

    assert_eq!(mapped_fields.get("TM_ID").unwrap(), "1");
    assert_eq!(mapped_fields.get("Status").unwrap(), "Todo");
    assert_eq!(mapped_fields.get("Dependencies").unwrap(), "2,3");
    assert_eq!(mapped_fields.get("Test Strategy").unwrap(), "Unit tests");
}

#[test]
fn test_custom_mapping() {
    let mut manager = FieldManager::new();

    let custom_mapping = FieldMapping {
        taskmaster_field: "complexity".to_string(),
        github_field: "Story Points".to_string(),
        field_type: GitHubFieldType::Number,
        transformer: None,
    };

    manager.add_custom_mapping(custom_mapping.clone()).unwrap();

    let retrieved = manager.get_mapping("complexity").unwrap();
    assert_eq!(retrieved.github_field, "Story Points");
}

#[test]
fn test_assignee_maps_to_agent_field() {
    let manager = FieldManager::new();

    let mapping = manager.get_mapping("assignee").expect("assignee mapping should exist");

    assert_eq!(mapping.taskmaster_field, "assignee");
    assert_eq!(mapping.github_field, "Agent", "Should map to Agent, not Assignee");
}

#[test]
fn test_task_with_assignee_creates_agent_field() {
    let manager = FieldManager::new();

    let task = Task {
        id: "test-123".to_string(),
        title: "Test Task".to_string(),
        description: "Test description".to_string(),
        status: "in-progress".to_string(),
        priority: Some("high".to_string()),
        dependencies: vec![],
        subtasks: vec![],
        test_strategy: None,
        details: None,
        assignee: Some("swe-1-5dlabs".to_string()),
    };

    let fields = manager.map_task_to_github(&task).expect("mapping should succeed");

    assert!(fields.contains_key("Agent"), "Agent field should be present");
    assert_eq!(
        fields.get("Agent").unwrap().as_str(),
        "swe-1-5dlabs",
        "Agent field should contain the assignee value"
    );

    assert!(fields.contains_key("TM_ID"));
    assert!(fields.contains_key("Status"));
}

#[test]
fn test_multiple_assignees_map_correctly() {
    let manager = FieldManager::new();

    let test_cases = vec![
        ("swe-1-5dlabs", "SWE-1 assignee"),
        ("swe-2-5dlabs", "SWE-2 assignee"),
        ("qa0-5dlabs", "QA assignee"),
        ("pm0-5dlabs", "PM assignee"),
    ];

    for (assignee, description) in test_cases {
        let task = Task {
            id: format!("test-{assignee}"),
            title: description.to_string(),
            description: "Test".to_string(),
            status: "pending".to_string(),
            priority: None,
            dependencies: vec![],
            subtasks: vec![],
            test_strategy: None,
            details: None,
            assignee: Some(assignee.to_string()),
        };

        let fields = manager.map_task_to_github(&task).expect("mapping should succeed");

        assert_eq!(
            fields.get("Agent").unwrap().as_str(),
            assignee,
            "Agent field should map {description} correctly"
        );
    }
}

#[test]
fn test_no_assignee_no_agent_field() {
    let manager = FieldManager::new();

    let task = Task {
        id: "test-no-assignee".to_string(),
        title: "Task without assignee".to_string(),
        description: "Test".to_string(),
        status: "pending".to_string(),
        priority: None,
        dependencies: vec![],
        subtasks: vec![],
        test_strategy: None,
        details: None,
        assignee: None,
    };

    let fields = manager.map_task_to_github(&task).expect("mapping should succeed");

    assert!(
        !fields.contains_key("Agent"),
        "Agent field should not be present when task has no assignee"
    );
}

#[test]
fn status_table_is_complete() {
    let manager = FieldManager::new();
    let table = [
        ("pending", "Todo"),
        ("in-progress", "In Progress"),
        ("review", "QA Review"),
        ("qa", "QA Review"),
        ("qa-review", "QA Review"),
        ("done", "QA Review"),
        ("completed", "QA Review"),
        ("blocked", "Blocked"),
    ];
    for (status, label) in table {
        assert_eq!(manager.transform_status(status).unwrap(), label);
    }
    assert_eq!(manager.transform_status("someday").unwrap(), "someday");
    assert_eq!(manager.transform_status("Weird Status").unwrap(), "Weird Status");
    assert_eq!(manager.transform_status("").unwrap(), "");
}

#[test]
fn a_status_is_matched_as_it_is_written() {
    let manager = FieldManager::new();
    assert_eq!(manager.transform_status("Pending").unwrap(), "Pending");
    assert_eq!(manager.transform_status("PENDING").unwrap(), "PENDING");
    assert_eq!(manager.transform_status("Done").unwrap(), "Done");
    assert_eq!(manager.transform_status("QA").unwrap(), "QA");
    assert_eq!(manager.transform_status(" pending").unwrap(), " pending");
    assert_eq!(status_label_for("blocked"), "Blocked");
    assert_eq!(status_label_for("BLOCKED"), "BLOCKED");
    assert_eq!(status_label_for("other"), "other");
}

#[test]
fn a_priority_is_read_in_any_case() {
    let manager = FieldManager::new();
    assert_eq!(manager.transform_priority("HIGH").unwrap(), "high");
    assert_eq!(manager.transform_priority("Urgent").unwrap(), "urgent");
}

#[test]
fn mapped_fields_come_in_order_and_leave_out_what_is_absent() {
    let manager = FieldManager::new();
    let mut t = task("9", "done", None);
    t.priority = Some("HIGH".to_string());
    let fields = manager.map_task_to_github(&t).unwrap();
    let names: Vec<String> = (0..fields.len()).map(|i| fields.key_at(i).clone()).collect();
    assert_eq!(names, vec!["TM_ID", "Status", "Priority", "Dependencies"]);
    assert_eq!(fields.get("Status").unwrap(), "QA Review");
    assert_eq!(fields.get("Priority").unwrap(), "high");
    assert_eq!(fields.get("Dependencies").unwrap(), "");
    assert!(fields.get("Test Strategy").is_none());
    t.status = "Done".to_string();
    assert_eq!(manager.map_task_to_github(&t).unwrap().get("Status").unwrap(), "Done");
}

#[test]
fn incompatible_mapping_is_rejected_at_registration() {
    let mut manager = FieldManager::new();
    let bad = FieldMapping {
        taskmaster_field: "effort".to_string(),
        github_field: "Effort".to_string(),
        field_type: GitHubFieldType::Number,
        transformer: Some(FieldTransformer::StatusMapper),
    };
    match manager.add_custom_mapping(bad) {
        Err(TaskMasterError::InvalidTaskFormat(text)) => {
            assert_eq!(text, "Incompatible field type and transformer for field: effort")
        }
        other => panic!("unexpected: {:?}", other),
    }
    assert!(manager.get_mapping("effort").is_none());
    let custom = FieldMapping {
        taskmaster_field: "x".to_string(),
        github_field: "X".to_string(),
        field_type: GitHubFieldType::Text,
        transformer: Some(FieldTransformer::Custom("f".to_string())),
    };
    assert!(manager.validate_field_mapping(&custom).is_err());
    let select = FieldMapping {
        taskmaster_field: "y".to_string(),
        github_field: "Y".to_string(),
        field_type: GitHubFieldType::SingleSelect,
        transformer: None,
    };
    assert!(manager.validate_field_mapping(&select).is_ok());
    let date = FieldMapping {
        taskmaster_field: "z".to_string(),
        github_field: "Z".to_string(),
        field_type: GitHubFieldType::Text,
        transformer: Some(FieldTransformer::DateFormatter),
    };
    assert!(manager.validate_field_mapping(&date).is_ok());
}

#[test]
fn init_mappings_sets_the_kind_by_the_remote_name() {
    let mut manager = FieldManager::new();
    let mut configured: StrMap<String> = StrMap::new();
    configured.insert("state".to_string(), "Status".to_string());
    configured.insert("note".to_string(), "Notes".to_string());
    manager.init_mappings(configured).unwrap();
    assert_eq!(manager.get_mapping("state").unwrap().field_type, GitHubFieldType::SingleSelect);
    assert_eq!(manager.get_mapping("note").unwrap().field_type, GitHubFieldType::Text);
    assert!(manager.get_mapping("state").unwrap().transformer.is_none());
}

#[test]
fn option_lookup_ignores_case() {
    let mut manager = FieldManager::new();
    manager.set_github_fields(vec![status_field()]);
    assert_eq!(manager.get_option_id("Status", "qa review"), Some("O_qa".to_string()));
    assert_eq!(manager.get_option_id("Status", "TODO"), Some("O_todo".to_string()));
    assert_eq!(manager.get_option_id("Status", "Blocked"), None);
    assert_eq!(manager.get_option_id("Priority", "high"), None);
    assert_eq!(manager.get_github_field_id("Status"), Some("F_status".to_string()));
    assert_eq!(manager.github_fields().len(), 1);
}

#[test]
fn ensure_option_exists_finds_creates_or_fails() {
    let mut manager = FieldManager::new();
    manager.set_github_fields(vec![status_field()]);
    match manager.ensure_option_exists("Status", "todo") {
        OptionStep::Found(id) => assert_eq!(id, "O_todo"),
        other => panic!("unexpected: {:?}", other),
    }
    match manager.ensure_option_exists("Status", "Blocked") {
        OptionStep::Create { field_id, option_name, color } => {
            assert_eq!(field_id, "F_status");
            assert_eq!(option_name, "Blocked");
            assert_eq!(color, "GRAY");
        }
        other => panic!("unexpected: {:?}", other),
    }
    match manager.ensure_option_exists("Agent", "swe-1") {
        OptionStep::MissingField(TaskMasterError::ConfigError(text)) => {
            assert_eq!(text, "Field 'Agent' not found")
        }
        other => panic!("unexpected: {:?}", other),
    }
}

#[test]
fn missing_required_fields_are_listed_with_their_kind() {
    let manager = FieldManager::new();
    let existing = vec![
        CustomField {
            id: "F1".to_string(),
            name: "TM_ID".to_string(),
            data_type: "TEXT".to_string(),
            options: None,
        },
        CustomField {
            id: "F2".to_string(),
            name: "Priority".to_string(),
            data_type: "SINGLE_SELECT".to_string(),
            options: Some(vec![]),
        },
    ];
    let missing = manager.sync_fields_to_github(&existing);
    assert_eq!(
        missing,
        vec![
            ("Dependencies".to_string(), "TEXT".to_string()),
            ("Test Strategy".to_string(), "TEXT".to_string()),
            ("Agent".to_string(), "SINGLE_SELECT".to_string()),
        ]
    );
}

#[test]
fn assignee_goes_by_status_name_and_table() {
    let manager = FieldManager::new();
    let mut table: StrMap<String> = StrMap::new();
    table.insert("qa".to_string(), "qa0-5dlabs".to_string());
    table.insert("swe-1".to_string(), "swe-1-5dlabs".to_string());
    assert_eq!(
        manager.get_github_assignee(&task("1", "done", Some("swe-1")), Some(&table)),
        Some("qa0-5dlabs".to_string())
    );
    assert_eq!(
        manager.get_github_assignee(&task("1", "pending", Some("swe-1")), Some(&table)),
        Some("swe-1-5dlabs".to_string())
    );
    assert_eq!(
        manager.get_github_assignee(&task("1", "pending", Some("pm0-5dlabs")), Some(&table)),
        Some("pm0-5dlabs".to_string())
    );
    assert_eq!(manager.get_github_assignee(&task("1", "pending", Some("ghost")), Some(&table)), None);
    assert_eq!(manager.get_github_assignee(&task("1", "pending", None), Some(&table)), None);
    assert_eq!(manager.get_github_assignee(&task("1", "done", Some("swe-1")), None), None);
}

#[test]
fn agents_table_is_read_from_the_document() {
    let agent = |name: &str| {
        JsonValue::Object(vec![("githubUsername".to_string(), JsonValue::Text(name.to_string()))])
    };
    let doc = JsonValue::Object(vec![(
        "agentMapping".to_string(),
        JsonValue::Object(vec![(
            "agents".to_string(),
            JsonValue::Object(vec![
                ("swe-1".to_string(), agent("swe-1-5dlabs")),
                ("broken".to_string(), JsonValue::Object(vec![])),
                ("qa".to_string(), agent("qa0-5dlabs")),
            ]),
        )]),
    )]);
    let table = FieldManager::agent_mapping_from(&doc);
    assert_eq!(table.len(), 2);
    assert_eq!(table.get("swe-1").unwrap(), "swe-1-5dlabs");
    assert_eq!(table.get("qa").unwrap(), "qa0-5dlabs");
    assert!(FieldManager::agent_mapping_from(&JsonValue::Null).is_empty());
}

#[test]
fn agents_table_is_read_from_the_text_of_the_file() {
    let content = r#"{
        "agentMapping": {
            "agents": {
                "swe-1": { "githubUsername": "swe-1-5dlabs", "role": "dev" },
                "qa": { "githubUsername": "qa0-5dlabs" },
                "nobody": { "githubUsername": 7 }
            }
        }
    }"#;
    let table = FieldManager::load_agent_mapping(content).unwrap();
    assert_eq!(table.len(), 2);
    assert_eq!(table.get("qa").unwrap(), "qa0-5dlabs");
    assert_eq!(table.get("swe-1").unwrap(), "swe-1-5dlabs");
    assert!(FieldManager::load_agent_mapping("{}").unwrap().is_empty());
    match FieldManager::load_agent_mapping("{ not json") {
        Err(TaskMasterError::ConfigError(text)) => assert_eq!(text, "Invalid agent mapping JSON"),
        other => panic!("unexpected: {:?}", other.map(|t| t.len())),
    }
}

#[test]
fn mapping_with_a_given_lower_case_priority_is_exact() {
    let manager = FieldManager::new();
    let mut t = task("5", "done", Some("swe-1"));
    t.priority = Some("HiGh".to_string());
    let fields = manager.map_task_with(&t, Some("high"));
    assert_eq!(fields.get("Status").unwrap(), "QA Review");
    assert_eq!(fields.get("Priority").unwrap(), "high");
    assert_eq!(fields.get("Agent").unwrap(), "swe-1");
    t.status = "DoNe".to_string();
    let passed = manager.map_task_with(&t, None);
    assert_eq!(passed.get("Status").unwrap(), "DoNe");
    assert_eq!(passed.get("Priority").unwrap(), "HiGh");
    let mut table: StrMap<String> = StrMap::new();
    table.insert("qa".to_string(), "qa0-5dlabs".to_string());
    t.status = "qa-review".to_string();
    assert_eq!(manager.get_github_assignee(&t, Some(&table)), Some("qa0-5dlabs".to_string()));
    t.status = "QA-Review".to_string();
    assert_eq!(manager.get_github_assignee(&t, Some(&table)), None);
    t.status = "QA Review".to_string();
    assert_eq!(manager.get_github_assignee(&t, Some(&table)), Some("qa0-5dlabs".to_string()));
    assert_eq!(manager.get_github_assignee(&t, None), None);
}

#[test]
fn a_dry_run_creates_no_field() {
    let manager = FieldManager::new();
    let existing = vec![CustomField {
        id: "F1".to_string(),
        name: "TM_ID".to_string(),
        data_type: "TEXT".to_string(),
        options: None,
    }];
    let dry = SyncOptions { dry_run: true, ..SyncOptions::default() };
    assert!(manager.fields_to_create(&dry, &existing).is_empty());
    assert!(manager.fields_to_create(&dry, &[]).is_empty());
    let real = SyncOptions::default();
    let names: Vec<String> =
        manager.fields_to_create(&real, &existing).into_iter().map(|(n, _)| n).collect();
    assert_eq!(names, vec!["Dependencies", "Test Strategy", "Priority", "Agent"]);
    assert_eq!(manager.fields_to_create(&real, &[]).len(), 5);
}

#[test]
fn a_choice_is_found_by_its_lower_case_name() {
    let options = vec![
        FieldOption { id: "O1".to_string(), name: "To Do".to_string(), color: None },
        FieldOption { id: "O2".to_string(), name: "Done".to_string(), color: None },
        FieldOption { id: "O3".to_string(), name: "DONE".to_string(), color: None },
    ];
    let names = vec!["to do".to_string(), "done".to_string(), "done".to_string()];
    assert_eq!(option_with_name(&options, &names, "done"), Some("O2".to_string()));
    assert_eq!(option_with_name(&options, &names, "to do"), Some("O1".to_string()));
    assert_eq!(option_with_name(&options, &names, "Done"), None);
    assert_eq!(option_with_name(&options, &vec![], "done"), None);
}
