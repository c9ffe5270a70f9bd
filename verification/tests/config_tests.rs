use task_master_sync::clock::Timestamp;
use task_master_sync::config::ConfigManager;
use task_master_sync::error::TaskMasterError;
use task_master_sync::models::config::{ProjectMapping, SubtaskMode};
use task_master_sync::strmap::StrMap;

#[test]
fn config_test_config_validation() {
    let mut manager = ConfigManager::default();

    assert!(manager.validate().is_err());

    manager.set_organization("test-org".to_string());

    assert!(manager.validate().is_ok());

    manager.config_mut().project_mappings.insert(
        "invalid".to_string(),
        ProjectMapping {
            project_number: 0,
            project_id: "".to_string(),
            repository: None,
            subtask_mode: SubtaskMode::default(),
            field_mappings: None,
        },
    );

    assert!(manager.validate().is_err());
}

#[test]
fn test_field_mappings() {
    let mut manager = ConfigManager::default();
    manager.add_project_mapping("master", 123, "PVT_123".to_string());

    let mut mappings: StrMap<String> = StrMap::new();
    mappings.insert("tm_id".to_string(), "TM_ID".to_string());
    mappings.insert("dependencies".to_string(), "Dependencies".to_string());

    manager.update_field_mappings("master", mappings);

    let retrieved = manager.field_mappings("master").unwrap();
    assert_eq!(retrieved.get("tm_id").unwrap(), "TM_ID");
    assert_eq!(retrieved.get("dependencies").unwrap(), "Dependencies");
}

#[test]
fn validation_names_the_fault() {
    let mut manager = ConfigManager::new("x.json");
    match manager.validate() {
        Err(TaskMasterError::ConfigError(text)) => assert_eq!(text, "Organization name is required"),
        other => panic!("unexpected: {:?}", other),
    }
    manager.set_organization("org".to_string());
    manager.add_project_mapping("good", 3, "PVT_3".to_string());
    manager.add_project_mapping("no-id", 4, String::new());
    manager.add_project_mapping("no-number", 0, "PVT_0".to_string());
    match manager.validate() {
        Err(TaskMasterError::ConfigError(text)) => {
            assert_eq!(text, "Project ID is missing for tag: no-id")
        }
        other => panic!("unexpected: {:?}", other),
    }
    manager.add_project_mapping("no-id", 4, "PVT_4".to_string());
    match manager.validate() {
        Err(TaskMasterError::ConfigError(text)) => {
            assert_eq!(text, "Invalid project number for tag: no-number")
        }
        other => panic!("unexpected: {:?}", other),
    }
}

#[test]
fn mappings_and_last_sync_are_kept_by_tag() {
    let mut manager = ConfigManager::for_project(".taskmaster");
    assert_eq!(manager.config_path(), ".taskmaster/sync-config.json");
    assert_eq!(ConfigManager::default().config_path(), ".taskmaster/sync-config.json");
    assert_eq!(manager.organization(), "");
    manager.add_project_mapping("master", 123, "PVT_123".to_string());
    let mapping = manager.get_project_mapping("master").unwrap();
    assert_eq!(mapping.project_number, 123);
    assert_eq!(mapping.project_id, "PVT_123");
    assert_eq!(mapping.subtask_mode, SubtaskMode::Nested);
    assert!(mapping.repository.is_none());
    assert!(manager.get_project_mapping("other").is_none());
    assert!(manager.field_mappings("master").is_none());
    manager.update_field_mappings("other", StrMap::new());
    assert!(manager.get_project_mapping("other").is_none());
    let at = Timestamp { secs: 10, nanos: 0 };
    manager.update_last_sync_at("master", at);
    assert_eq!(manager.config().last_sync.get("master"), Some(&at));
    manager.update_last_sync("master");
    assert!(manager.config().last_sync.get("master").unwrap().secs > 10);
    assert_eq!(manager.config().version, "1.0.0");
}
