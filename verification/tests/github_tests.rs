use task_master_sync::error::TaskMasterError;
use task_master_sync::github::utils::{format_field_value, parse_project_url, FieldPayload};
use task_master_sync::github::{
    create_custom_field, default_field_options, has_service_errors, split_repository,
    FieldCreation, GitHubAPI, RetryStep,
};
use task_master_sync::json::JsonValue;

#[test]
fn github_test_parse_project_url() {
    let url = "https://github.com/orgs/myorg/projects/123";
    let (org, number) = parse_project_url(url).unwrap();
    assert_eq!(org, "myorg");
    assert_eq!(number, 123);
}

#[test]
fn test_parse_invalid_url() {
    let url = "https://github.com/user/repo";
    assert!(parse_project_url(url).is_err());
}

#[test]
fn test_format_field_value() {
    let text_value = format_field_value("Hello", "TEXT");
    assert_eq!(text_value, FieldPayload::Text("Hello".to_string()));

    let number_value = format_field_value("42", "NUMBER");
    assert_eq!(number_value, FieldPayload::Number("42".to_string()));
}

#[test]
fn format_field_value_by_kind() {
    assert_eq!(
        format_field_value("O_1", "SINGLE_SELECT"),
        FieldPayload::SingleSelectOptionId("O_1".to_string())
    );
    assert_eq!(format_field_value("x", "DATE"), FieldPayload::Text("x".to_string()));
}

#[test]
fn parse_project_url_names_what_is_wrong() {
    match parse_project_url("https://github.com/orgs/myorg/projects/abc") {
        Err(TaskMasterError::InvalidTaskFormat(text)) => {
            assert_eq!(text, "Invalid project number in URL")
        }
        other => panic!("unexpected: {:?}", other),
    }
    match parse_project_url("https://github.com/orgs/myorg/projects") {
        Err(TaskMasterError::InvalidTaskFormat(text)) => {
            assert_eq!(text, "Invalid project number in URL")
        }
        other => panic!("unexpected: {:?}", other),
    }
    match parse_project_url("https://github.com/users/me/projects/1") {
        Err(TaskMasterError::InvalidTaskFormat(text)) => {
            assert_eq!(text, "Invalid GitHub project URL format")
        }
        other => panic!("unexpected: {:?}", other),
    }
    assert_eq!(
        parse_project_url("https://github.com/orgs/o/projects/-5/views/1").unwrap(),
        ("o".to_string(), -5)
    );
}

#[test]
fn retry_delay_doubles_until_the_attempts_are_used_up() {
    let api = GitHubAPI::new("5dlabs".to_string());
    assert_eq!(api.organization(), "5dlabs");
    assert_eq!(api.max_attempts(), 3);
    assert_eq!(api.after_transport_failure(0), RetryStep::RetryAfter(1000));
    assert_eq!(api.after_transport_failure(1), RetryStep::RetryAfter(2000));
    assert_eq!(api.after_transport_failure(2), RetryStep::GiveUp);
}

#[test]
fn new_fields_start_with_their_choices() {
    let names = |name: &str| -> Vec<&'static str> {
        default_field_options(name).iter().map(|o| o.name).collect()
    };
    assert_eq!(names("Priority"), vec!["high", "medium", "low"]);
    assert_eq!(names("Status"), vec!["To Do", "In Progress", "QA Review", "Done", "Blocked"]);
    assert_eq!(names("Agent"), vec!["Unassigned"]);
    assert_eq!(names("Other"), vec!["Default"]);
    let status = default_field_options("Status");
    assert_eq!(status[2].color, "BLUE");
    assert_eq!(status[2].description, "Task completed, awaiting QA approval");
}

#[test]
fn field_creation_by_kind() {
    assert!(matches!(create_custom_field("TM_ID", "TEXT"), Ok(FieldCreation::Text)));
    match create_custom_field("Priority", "SINGLE_SELECT") {
        Ok(FieldCreation::SingleSelect(options)) => assert_eq!(options.len(), 3),
        other => panic!("unexpected: {:?}", other),
    }
    match create_custom_field("When", "DATE") {
        Err(TaskMasterError::InvalidTaskFormat(text)) => {
            assert_eq!(text, "Unsupported field type: DATE")
        }
        other => panic!("unexpected: {:?}", other),
    }
}

#[test]
fn repository_is_owner_and_name() {
    assert_eq!(
        split_repository("5dlabs/taskmaster-sync").unwrap(),
        ("5dlabs".to_string(), "taskmaster-sync".to_string())
    );
    match split_repository("just-a-name") {
        Err(TaskMasterError::ConfigError(text)) => {
            assert_eq!(text, "Invalid repository format 'just-a-name'. Expected 'owner/name'")
        }
        other => panic!("unexpected: {:?}", other),
    }
    assert!(split_repository("a/b/c").is_err());
}

#[test]
fn an_answer_with_errors_is_final() {
    let answer = |errors: JsonValue| {
        JsonValue::Object(vec![
            ("data".to_string(), JsonValue::Null),
            ("errors".to_string(), errors),
        ])
    };
    let error = JsonValue::Object(vec![("message".to_string(), JsonValue::Text("no".to_string()))]);
    assert!(has_service_errors(&answer(JsonValue::Array(vec![error]))));
    assert!(!has_service_errors(&answer(JsonValue::Array(vec![]))));
    assert!(!has_service_errors(&answer(JsonValue::Null)));
    assert!(!has_service_errors(&JsonValue::Object(vec![])));
}
