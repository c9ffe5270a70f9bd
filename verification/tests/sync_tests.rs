use task_master_sync::clock::Timestamp;
use task_master_sync::config::ConfigManager;
use task_master_sync::delta::DeltaSyncEngine;
use task_master_sync::error::TaskMasterError;
use task_master_sync::github::utils::FieldPayload;
use task_master_sync::github::CreateItemResult;
use task_master_sync::models::config::{ProjectMapping, SubtaskMode};
use task_master_sync::models::github::{
    CustomField, FieldOption, FieldValue, FieldValueContent, Project, ProjectItem,
};
use task_master_sync::models::task::{TaggedTasks, Task};
use task_master_sync::state::StateTracker;
use task_master_sync::strmap::StrMap;
use task_master_sync::sync::duplicates::find_duplicates;
use task_master_sync::sync::plan::{FieldWritePlan, ValueStep, FIELD_UPDATE_DELAY_MS};
use task_master_sync::sync::run::{
    plan_work, DeletionOutcome, StepOutcome, SyncRun, TaskAction,
};
use task_master_sync::sync::{format_body, ProjectStep, SyncDirection, SyncEngine, SyncOptions};
use task_master_sync::subtasks::SubtaskHandler;

const AT: Timestamp = Timestamp { secs: 1_700_000_000, nanos: 0 };

fn task(id: &str, title: &str) -> Task {
    Task {
        id: id.to_string(),
        title: title.to_string(),
        description: "d".to_string(),
        status: "pending".to_string(),
        priority: None,
        dependencies: vec![],
        details: None,
        test_strategy: None,
        subtasks: vec![],
        assignee: None,
    }
}

fn text_field(name: &str) -> CustomField {
    CustomField {
        id: format!("F_{name}"),
        name: name.to_string(),
        data_type: "TEXT".to_string(),
        options: None,
    }
}

fn item(id: &str, title: &str, tm_id: Option<&str>) -> ProjectItem {
    ProjectItem {
        id: id.to_string(),
        title: title.to_string(),
        body: None,
        field_values: match tm_id {
            Some(t) => vec![FieldValue {
                field: text_field("TM_ID"),
                value: FieldValueContent::Text(t.to_string()),
            }],
            None => vec![],
        },
    }
}

fn project() -> Project {
    Project {
        id: "PVT_1".to_string(),
        number: 9,
        title: "Board".to_string(),
        url: "https://example.invalid/9".to_string(),
        description: None,
    }
}

fn engine() -> SyncEngine {
    let mut config = ConfigManager::new("cfg.json");
    config.set_organization("5dlabs".to_string());
    SyncEngine::new(config, "master", project(), StateTracker::new("state.json", None)).unwrap()
}

fn options(dry_run: bool) -> SyncOptions {
    SyncOptions { dry_run, ..SyncOptions::default() }
}

fn counts(run: &SyncRun) -> (usize, usize, usize, usize, usize) {
    let s = run.stats();
    (s.created, s.updated, s.deleted, s.skipped, s.errors.len())
}

#[test]
fn test_sync_engine() {
    let e = engine();
    assert_eq!(e.tag, "master");
    assert_eq!(e.project_number(), 9);
    assert!(e.validate_sync_setup().is_ok());
    assert!(e.fields().get_mapping("id").is_some());
    let mut no_org = ConfigManager::new("cfg.json");
    no_org.set_organization(String::new());
    match SyncEngine::new(no_org, "master", project(), StateTracker::new("s.json", None)) {
        Err(TaskMasterError::ConfigError(text)) => assert_eq!(text, "Organization not configured"),
        _ => panic!("an engine without organisation"),
    }
}

#[test]
fn test_sync_dry_run() {
    let tasks = vec![task("dry-run-1", "Dry Run Test Task")];
    let mut state = StateTracker::new("state.json", None);
    let dry = options(true);
    assert!(dry.uses_delta());
    assert!(engine().fields().fields_to_create(&dry, &[]).is_empty());
    let mut run = SyncRun::begin(&dry, vec![], tasks.len(), AT);
    let mut by_tag: StrMap<Vec<Task>> = StrMap::new();
    by_tag.insert("dry-run-test".to_string(), tasks.clone());
    let (changes, _) =
        DeltaSyncEngine::new("dry-run-test").detect_changes(None, &by_tag, "dry-run-test").unwrap();
    let plan = plan_work(&tasks, Some(&changes));
    assert_eq!(plan.tasks, vec![0]);
    assert!(plan.removed.is_empty());
    for &k in &plan.tasks {
        assert!(matches!(run.decide_task(&tasks[k]), TaskAction::Skip));
        run.apply(&mut state, &tasks[k], StepOutcome::Skipped, AT);
    }
    let result = engine().finish(run.into_stats(), AT);

    assert_eq!(result.stats.created, 0);
    assert_eq!(result.stats.updated, 0);
    assert_eq!(result.stats.deleted, 0);
    assert_eq!(result.stats.skipped, 1);
    assert_eq!(result.project_number, 9);
    assert!(result.conflicts.is_empty());
    assert_eq!(state.get_synced_ids().len(), 0);
    assert!(state.get_stats().last_sync.is_none());
    assert!(!options(true).persists_state());
    assert!(options(false).persists_state());
}

#[test]
fn dry_run_skips_tasks_that_have_items() {
    let tasks = vec![task("1", "One"), task("2", "Two"), task("3", "Three")];
    let items = vec![item("I1", "One", Some("1")), item("I2", "Two", None)];
    let mut state = StateTracker::new("state.json", None);
    let mut run = SyncRun::begin(&options(true), items, tasks.len(), AT);
    for t in &tasks {
        run.apply(&mut state, t, StepOutcome::Skipped, AT);
    }
    assert_eq!(counts(&run), (0, 0, 0, 3, 0));
    assert_eq!(run.deletion_request("1"), None);
    run.apply_orphan(&mut state, "1", DeletionOutcome::NotAttempted, AT);
    assert_eq!(counts(&run), (0, 0, 0, 3, 0));
    run.apply_removal(&mut state, "1", DeletionOutcome::NotAttempted, AT);
    assert_eq!(counts(&run), (0, 0, 1, 3, 0));
    run.apply_removal(&mut state, "unknown", DeletionOutcome::NotAttempted, AT);
    assert_eq!(counts(&run), (0, 0, 1, 3, 0));
    assert!(state.get_stats().last_sync.is_none());
}

#[test]
fn duplicate_by_title_is_updated_not_created() {
    let foo = task("7", "Foo");
    let mut state = StateTracker::new("state.json", None);
    let mut run = SyncRun::begin(&options(false), vec![item("I_foo", "Foo", None)], 1, AT);
    match run.decide_task(&foo) {
        TaskAction::UpdateDuplicate(found) => assert_eq!(found.id, "I_foo"),
        other => panic!("unexpected: {:?}", other),
    }
    run.apply(&mut state, &foo, StepOutcome::Updated, AT);
    assert_eq!(counts(&run), (0, 1, 0, 0, 0));
    match run.decide_task(&foo) {
        TaskAction::Update(found) => assert_eq!(found.id, "I_foo"),
        other => panic!("unexpected: {:?}", other),
    }
    assert_eq!(run.deletion_request("7"), Some("I_foo".to_string()));
}

#[test]
fn several_items_of_one_title_lead_to_a_creation() {
    let foo = task("7", "Foo");
    let items = vec![item("I_a", "Foo", None), item("I_b", "Foo", None)];
    let mut state = StateTracker::new("state.json", None);
    let mut run = SyncRun::begin(&options(false), items, 1, AT);
    assert!(matches!(run.decide_task(&foo), TaskAction::Create));
    let created = CreateItemResult {
        project_item_id: "I_new".to_string(),
        draft_issue_id: "D_new".to_string(),
    };
    run.apply(&mut state, &foo, StepOutcome::Created(created), AT);
    assert_eq!(counts(&run), (1, 0, 0, 0, 0));
    assert_eq!(state.get_github_item_id("7"), Some("I_new".to_string()));
    assert_eq!(state.get_task_metadata("7").unwrap().draft_issue_id, Some("D_new".to_string()));
    assert!(state.is_synced("7"));
}

#[test]
fn the_item_with_the_id_is_updated() {
    let one = task("1", "Renamed");
    let mut state = StateTracker::new("state.json", None);
    state.record_synced_at("1", "I1", Some("D1"), &task("1", "One"), AT).unwrap();
    let items = vec![item("I0", "Renamed", None), item("I1", "One", Some("1"))];
    let mut run = SyncRun::begin(&options(false), items, 1, AT);
    match run.decide_task(&one) {
        TaskAction::Update(found) => assert_eq!(found.id, "I1"),
        other => panic!("unexpected: {:?}", other),
    }
    let later = Timestamp { secs: AT.secs + 5, nanos: 0 };
    run.apply(&mut state, &one, StepOutcome::Updated, later);
    assert_eq!(counts(&run), (0, 1, 0, 0, 0));
    assert_eq!(state.get_task_metadata("1").unwrap().title, "Renamed");
    assert_eq!(state.get_stats().last_sync, Some(later));
}

#[test]
fn failures_are_listed_and_the_run_goes_on() {
    let tasks = vec![task("1", "One"), task("2", "Two"), task("3", "Three")];
    let items = vec![item("I1", "One", Some("1")), item("I3", "Three", None)];
    let mut state = StateTracker::new("state.json", None);
    let mut run = SyncRun::begin(&options(false), items, 3, AT);
    let fail = |text: &str| StepOutcome::Failed(TaskMasterError::GitHubError(text.to_string()));
    run.apply(&mut state, &tasks[0], fail("boom"), AT);
    run.apply(&mut state, &tasks[1], fail("bang"), AT);
    run.apply(&mut state, &tasks[2], fail("crash"), AT);
    assert_eq!(counts(&run), (0, 0, 0, 0, 3));
    assert_eq!(
        run.stats().errors,
        vec![
            "Failed to update 1: GitHub API error: boom",
            "Failed to create 2: GitHub API error: bang",
            "Failed to update duplicate 3: GitHub API error: crash",
        ]
    );
    assert_eq!(state.get_synced_ids().len(), 0);
    run.apply(&mut state, &tasks[0], StepOutcome::Skipped, AT);
    assert_eq!(counts(&run), (0, 0, 0, 0, 3));
    run.apply(&mut state, &tasks[0], StepOutcome::Updated, AT);
    assert_eq!(counts(&run), (0, 1, 0, 0, 3));
    assert!(run.can_count());
}

#[test]
fn removals_and_orphans_are_deleted_through_the_index() {
    let mut state = StateTracker::new("state.json", None);
    state.record_synced_at("1", "I1", None, &task("1", "One"), AT).unwrap();
    state.record_synced_at("2", "I2", None, &task("2", "Two"), AT).unwrap();
    state.record_synced_at("3", "I3", None, &task("3", "Three"), AT).unwrap();
    let items = vec![item("I1", "One", Some("1")), item("I2", "Two", Some("2"))];
    let mut run = SyncRun::begin(&options(false), items, 0, AT);
    assert_eq!(run.deletion_request("1"), Some("I1".to_string()));
    assert_eq!(run.deletion_request("3"), None);
    run.apply_removal(&mut state, "1", DeletionOutcome::Deleted, AT);
    assert!(!state.is_synced("1"));
    run.apply_removal(
        &mut state,
        "2",
        DeletionOutcome::Failed(TaskMasterError::GitHubError("no".to_string())),
        AT,
    );
    assert!(state.is_synced("2"));
    run.apply_orphan(
        &mut state,
        "2",
        DeletionOutcome::Failed(TaskMasterError::GitHubError("still no".to_string())),
        AT,
    );
    run.apply_orphan(&mut state, "2", DeletionOutcome::Deleted, AT);
    run.apply_orphan(&mut state, "3", DeletionOutcome::Deleted, AT);
    assert!(!state.is_synced("2"));
    assert!(state.is_synced("3"));
    assert_eq!(counts(&run), (0, 0, 2, 0, 2));
    assert_eq!(
        run.stats().errors,
        vec![
            "Failed to delete removed task 2: GitHub API error: no",
            "Failed to delete orphaned item 2: GitHub API error: still no",
        ]
    );
}

#[test]
fn second_run_over_unchanged_tasks_has_no_work() {
    let delta = DeltaSyncEngine::new("master");
    let mut by_tag: StrMap<Vec<Task>> = StrMap::new();
    by_tag.insert("master".to_string(), vec![task("1", "One"), task("2", "Two")]);
    let tasks = vec![task("1", "One"), task("2", "Two")];
    let (first, snapshot) = delta.detect_changes(None, &by_tag, "master").unwrap();
    let first_plan = plan_work(&tasks, Some(&first));
    assert_eq!(first_plan.tasks, vec![0, 1]);
    assert!(first_plan.removed.is_empty());
    let (second, _) = delta.detect_changes(Some(&snapshot), &by_tag, "master").unwrap();
    let second_plan = plan_work(&tasks, Some(&second));
    assert!(second_plan.tasks.is_empty());
    assert!(second_plan.removed.is_empty());
    let run = SyncRun::begin(&options(false), vec![], tasks.len(), AT);
    assert_eq!(run.stats().created, 0);
}

#[test]
fn work_follows_the_changes() {
    let delta = DeltaSyncEngine::new("master");
    let before = vec![task("1", "One"), task("2", "Two"), task("3", "Three")];
    let mut two = task("2", "Two");
    two.status = "done".to_string();
    let after = vec![task("4", "Four"), two, task("1", "One")];
    let mut by_tag: StrMap<Vec<Task>> = StrMap::new();
    by_tag.insert("master".to_string(), after.clone());
    let previous = delta.create_snapshot(&before);
    let (changes, _) = delta.detect_changes(Some(&previous), &by_tag, "master").unwrap();
    let plan = plan_work(&after, Some(&changes));
    assert_eq!(plan.tasks, vec![1, 0]);
    assert_eq!(plan.removed, vec!["3"]);
    let full = plan_work(&after, None);
    assert_eq!(full.tasks, vec![0, 1, 2]);
    assert!(full.removed.is_empty());
    assert!(SyncOptions::default().uses_delta());
    assert!(!SyncOptions { force: true, ..SyncOptions::default() }.uses_delta());
    assert!(!SyncOptions { use_delta_sync: false, ..SyncOptions::default() }.uses_delta());
}

#[test]
fn sync_opens_only_towards_the_remote_side_and_for_a_known_tag() {
    let e = engine();
    let mut all: StrMap<TaggedTasks> = StrMap::new();
    all.insert("master".to_string(), TaggedTasks { tasks: vec![task("1", "One")], metadata: None });
    let tasks = e.sync("master", &SyncOptions::default(), &all).unwrap();
    assert_eq!(tasks.tasks.len(), 1);
    match e.sync("other", &SyncOptions::default(), &all) {
        Err(TaskMasterError::InvalidTaskFormat(text)) => assert_eq!(text, "Tag 'other' not found"),
        _ => panic!("an unknown tag was accepted"),
    }
    let from = SyncOptions { direction: SyncDirection::FromGitHub, ..SyncOptions::default() };
    match e.sync("master", &from, &all) {
        Err(TaskMasterError::NotImplemented(text)) => {
            assert_eq!(text, "Sync from GitHub not yet implemented")
        }
        _ => panic!("a sync from the remote side was accepted"),
    }
    let both = SyncOptions { direction: SyncDirection::Bidirectional, ..SyncOptions::default() };
    match e.sync("master", &both, &all) {
        Err(TaskMasterError::NotImplemented(text)) => {
            assert_eq!(text, "Bidirectional sync not yet implemented")
        }
        _ => panic!("a sync in both directions was accepted"),
    }
}

#[test]
fn body_lists_inline_subtasks_and_names_the_separate_ones() {
    let mut t = task("1", "Parent");
    t.description = "Main".to_string();
    t.details = Some("More".to_string());
    t.test_strategy = Some("Try".to_string());
    let mut done = task("1.1", "First");
    done.status = "done".to_string();
    done.description = String::new();
    let mut big = task("1.2", "Big");
    big.description = "z".repeat(120);
    let mut open = task("1.3", "Third");
    open.description = String::new();
    t.subtasks = vec![done, big, open];
    let config = SubtaskHandler::default_config();
    assert_eq!(
        format_body(&t, true, &config),
        "Main\n\n## Details\nMore\n\n## Test Strategy\nTry\n\n## Subtasks\n1. [x] First - done\n2. [ ] Third - pending\n\n### Complex Subtasks (Separate Issues)\n- Big _(will be created as separate issue)_\n"
    );
    assert_eq!(
        format_body(&t, false, &config),
        "Main\n\n## Details\nMore\n\n## Test Strategy\nTry\n\n## Subtasks\n1. [x] First - done\n2. [ ] Big - pending\n3. [ ] Third - pending\n"
    );
    assert_eq!(format_body(&task("2", "Plain"), true, &config), "d");
    let e = engine();
    assert_eq!(e.format_task_body_enhanced(&t), format_body(&t, true, &config));
    assert_eq!(e.format_task_body(&t), format_body(&t, true, &config));
    assert!(e.should_create_separate_subtask_issue(&t.subtasks[1]));
    assert!(!e.should_create_separate_subtask_issue(&t.subtasks[0]));
}

#[test]
fn the_task_id_is_read_from_the_identity_field() {
    let e = engine();
    assert_eq!(e.extract_tm_id(&item("I", "T", Some("42"))), Some("42".to_string()));
    assert_eq!(e.extract_tm_id(&item("I", "T", None)), None);
    let mixed = ProjectItem {
        id: "I".to_string(),
        title: "T".to_string(),
        body: None,
        field_values: vec![
            FieldValue { field: text_field("Other"), value: FieldValueContent::Text("x".to_string()) },
            FieldValue {
                field: text_field("TM_ID"),
                value: FieldValueContent::Number("5".to_string()),
            },
            FieldValue { field: text_field("TM_ID"), value: FieldValueContent::Text("7".to_string()) },
        ],
    };
    assert_eq!(e.extract_tm_id(&mixed), Some("7".to_string()));
}

#[test]
fn repository_is_read_from_remote_addresses() {
    assert_eq!(
        SyncEngine::parse_github_url("git@github.com:5dlabs/taskmaster-sync.git"),
        Some("5dlabs/taskmaster-sync".to_string())
    );
    assert_eq!(
        SyncEngine::parse_github_url("https://github.com/5dlabs/taskmaster-sync.git"),
        Some("5dlabs/taskmaster-sync".to_string())
    );
    assert_eq!(
        SyncEngine::parse_github_url("https://github.com/owner/repo"),
        Some("owner/repo".to_string())
    );
    assert_eq!(SyncEngine::parse_github_url("https://gitlab.com/owner/repo.git"), None);
    assert_eq!(
        SyncEngine::detect_repository(Some("env/repo".to_string()), Some("git@github.com:a/b.git")),
        Some("env/repo".to_string())
    );
    assert_eq!(
        SyncEngine::detect_repository(None, Some("git@github.com:a/b.git")),
        Some("a/b".to_string())
    );
    assert_eq!(SyncEngine::detect_repository(None, None), None);
}

#[test]
fn projects_are_created_on_request_only() {
    assert_eq!(SyncEngine::project_step(0, false, None), ProjectStep::Create);
    assert_eq!(SyncEngine::project_step(5, true, None), ProjectStep::Use);
    assert_eq!(SyncEngine::project_step(5, false, Some("true")), ProjectStep::CreateInstead);
    assert_eq!(SyncEngine::project_step(5, false, Some("1")), ProjectStep::Fail);
    assert_eq!(SyncEngine::project_step(5, false, None), ProjectStep::Fail);
    let mapping = ProjectMapping {
        project_number: 1,
        project_id: "P".to_string(),
        repository: Some("5dlabs/board".to_string()),
        subtask_mode: SubtaskMode::Nested,
        field_mappings: None,
    };
    assert_eq!(
        SyncEngine::project_title("master", Some(&mapping), Some("x/y")),
        "TaskMaster - board (master)"
    );
    let bare = ProjectMapping { repository: None, ..mapping_copy(&mapping) };
    assert_eq!(SyncEngine::project_title("master", Some(&bare), Some("x/y")), "TaskMaster - master (master)");
    assert_eq!(SyncEngine::project_title("master", None, Some("x/y")), "TaskMaster - y (master)");
    assert_eq!(SyncEngine::project_title("master", None, None), "TaskMaster Project - master");
    assert_eq!(
        SyncEngine::project_repository(Some(&mapping), Some("x/y")),
        Some("5dlabs/board".to_string())
    );
    assert_eq!(SyncEngine::project_repository(Some(&bare), Some("x/y")), Some("x/y".to_string()));
    assert_eq!(SyncEngine::project_repository(None, None), None);
    let e = SyncEngine::project_not_found_error(12, "master", "5dlabs");
    match e {
        TaskMasterError::ConfigError(text) => {
            assert!(text.starts_with("Project #12 not found. To auto-create a project:\n\nOption 1"));
            assert!(text.contains("task-master-sync sync master 0\n"));
            assert!(text.ends_with("--org 5dlabs\n   task-master-sync setup-project <PROJECT_NUMBER>"));
        }
        other => panic!("unexpected: {:?}", other),
    }
}

fn mapping_copy(m: &ProjectMapping) -> ProjectMapping {
    task_master_sync::sync::clone_mapping(m)
}

#[test]
fn a_created_project_is_noted_in_the_settings() {
    let mut config = ConfigManager::new("cfg.json");
    SyncEngine::register_created_project(&mut config, "master", &project(), Some("a/b".to_string()));
    let m = config.get_project_mapping("master").unwrap();
    assert_eq!((m.project_number, m.project_id.as_str()), (9, "PVT_1"));
    assert_eq!(m.repository, Some("a/b".to_string()));
    config.add_project_mapping("old", 1, "PVT_old".to_string());
    SyncEngine::register_created_project(&mut config, "old", &project(), Some("c/d".to_string()));
    let m = config.get_project_mapping("old").unwrap();
    assert_eq!((m.project_number, m.project_id.as_str()), (9, "PVT_1"));
    assert_eq!(m.repository, Some("c/d".to_string()));
    SyncEngine::register_created_project(&mut config, "master", &project(), Some("x/y".to_string()));
    assert_eq!(config.get_project_mapping("master").unwrap().repository, Some("a/b".to_string()));
}

#[test]
fn field_writes_are_planned() {
    let mut e = engine();
    assert_eq!(FIELD_UPDATE_DELAY_MS, 50);
    assert!(matches!(e.plan_field_write("TM_ID", "1", false), FieldWritePlan::Refresh));
    assert!(matches!(e.plan_field_write("TM_ID", "1", true), FieldWritePlan::Skip));
    let status = CustomField {
        id: "F_status".to_string(),
        name: "Status".to_string(),
        data_type: "SINGLE_SELECT".to_string(),
        options: Some(vec![FieldOption {
            id: "O_todo".to_string(),
            name: "Todo".to_string(),
            color: None,
        }]),
    };
    e.fields_mut().set_github_fields(vec![text_field("TM_ID"), status]);
    match e.plan_field_write("TM_ID", "1", false) {
        FieldWritePlan::Write { field_id, payload } => {
            assert_eq!(field_id, "F_TM_ID");
            assert_eq!(payload, FieldPayload::Text("1".to_string()));
        }
        other => panic!("unexpected: {:?}", other),
    }
    match e.plan_field_write("Status", "todo", false) {
        FieldWritePlan::Write { field_id, payload } => {
            assert_eq!(field_id, "F_status");
            assert_eq!(payload, FieldPayload::SingleSelectOptionId("O_todo".to_string()));
        }
        other => panic!("unexpected: {:?}", other),
    }
    match e.plan_field_write("Status", "", false) {
        FieldWritePlan::Write { payload, .. } => assert_eq!(payload, FieldPayload::Text(String::new())),
        other => panic!("unexpected: {:?}", other),
    }
    match e.plan_field_write("Status", "QA Review", false) {
        FieldWritePlan::CreateOption { field_id, option_name, color } => {
            assert_eq!((field_id.as_str(), option_name.as_str(), color.as_str()), ("F_status", "QA Review", "GRAY"));
        }
        other => panic!("unexpected: {:?}", other),
    }
    match e.format_field_value_enhanced("Agent", "swe-1") {
        ValueStep::Fail(TaskMasterError::ConfigError(text)) => assert_eq!(text, "Field 'Agent' not found"),
        other => panic!("unexpected: {:?}", other),
    }
    assert_eq!(e.format_field_value("Status", "x"), FieldPayload::Text("x".to_string()));
}

#[test]
fn the_identity_field_is_written_again_if_it_was_missed() {
    let mut e = engine();
    let t = task("42", "T");
    assert_eq!(e.emergency_identity_write(&t, false), None);
    e.fields_mut().set_github_fields(vec![text_field("TM_ID")]);
    assert_eq!(
        e.emergency_identity_write(&t, false),
        Some(("F_TM_ID".to_string(), FieldPayload::Text("42".to_string())))
    );
    assert_eq!(e.emergency_identity_write(&t, true), None);
    assert!(SyncEngine::identity_written(false, "TM_ID", true));
    assert!(!SyncEngine::identity_written(false, "TM_ID", false));
    assert!(!SyncEngine::identity_written(false, "Status", true));
    assert!(SyncEngine::identity_written(true, "Status", false));
}

#[test]
fn requests_carry_title_body_and_repository() {
    let e = engine();
    let t = task("1", "One");
    let creation = e.creation_request(&t, None);
    assert_eq!(creation.title, "One");
    assert_eq!(creation.body, "d");
    assert!(creation.repository.is_none());
    assert!(creation.assignees.is_none());
    assert!(e.update_request(&t, None).is_none());
    let mut config = ConfigManager::new("cfg.json");
    config.set_organization("5dlabs".to_string());
    SyncEngine::register_created_project(&mut config, "master", &project(), Some("a/b".to_string()));
    let mut state = StateTracker::new("state.json", None);
    state.record_synced_at("1", "I1", Some("D1"), &t, AT).unwrap();
    let e = SyncEngine::new(config, "master", project(), state).unwrap();
    let mut agents: StrMap<String> = StrMap::new();
    agents.insert("swe-1".to_string(), "swe-1-5dlabs".to_string());
    let mut assigned = task("1", "One");
    assigned.assignee = Some("swe-1".to_string());
    let creation = e.creation_request(&assigned, Some(&agents));
    assert_eq!(creation.repository, Some("a/b".to_string()));
    assert_eq!(creation.assignees, Some(vec!["swe-1-5dlabs".to_string()]));
    let update = e.update_request(&assigned, Some(&agents)).unwrap();
    assert_eq!(update.content_id, "D1");
    assert_eq!(update.title, "One");
    assert_eq!(update.assignee, Some("swe-1-5dlabs".to_string()));
}

#[test]
fn a_new_status_field_gets_the_choice_for_tasks_in_qa() {
    let option = |name: &str| FieldOption { id: name.to_string(), name: name.to_string(), color: None };
    let lacking = CustomField {
        id: "F1".to_string(),
        name: "Status".to_string(),
        data_type: "SINGLE_SELECT".to_string(),
        options: Some(vec![option("Todo"), option("Done")]),
    };
    let complete = CustomField {
        id: "F2".to_string(),
        name: "Status".to_string(),
        data_type: "SINGLE_SELECT".to_string(),
        options: Some(vec![option("QA Review")]),
    };
    let no_options = CustomField {
        id: "F3".to_string(),
        name: "Status".to_string(),
        data_type: "SINGLE_SELECT".to_string(),
        options: None,
    };
    assert_eq!(
        SyncEngine::setup_project_fields(&[text_field("TM_ID"), lacking, complete, no_options]),
        vec!["F1"]
    );
}

#[test]
fn a_cycle_in_the_hierarchy_stops_the_run_at_its_opening() {
    let mut e = engine();
    let mut all: StrMap<TaggedTasks> = StrMap::new();
    all.insert(
        "master".to_string(),
        TaggedTasks { tasks: vec![task("A", "a"), task("B", "b")], metadata: None },
    );
    assert!(e.sync("master", &SyncOptions::default(), &all).is_ok());
    e.record_subtask("A", "B", "item-b");
    assert!(e.sync("master", &SyncOptions::default(), &all).is_ok());
    e.record_subtask("B", "A", "item-a");
    match e.sync("master", &SyncOptions::default(), &all) {
        Err(TaskMasterError::DependencyCycle(text)) => {
            assert_eq!(text, "Circular reference detected in task hierarchy starting with A")
        }
        _ => panic!("a cycle was accepted"),
    }
    assert_eq!(e.subtasks().get_child_ids("A"), vec!["B"]);
}

#[test]
fn an_item_of_another_task_is_no_duplicate() {
    let first = task("1", "Foo");
    let second = task("2", "Foo");
    let mut state = StateTracker::new("state.json", None);
    let mut run = SyncRun::begin(&options(false), vec![item("I1", "Foo", Some("1"))], 2, AT);
    assert!(run.is_tracked("I1"));
    assert!(!run.is_tracked("I2"));
    assert!(matches!(run.decide_task(&first), TaskAction::Update(_)));
    assert!(matches!(run.decide_task(&second), TaskAction::Create));
    let mut lost = SyncRun::begin(&options(false), vec![item("I9", "Foo", None)], 2, AT);
    assert!(matches!(lost.decide_task(&first), TaskAction::UpdateDuplicate(_)));
    lost.apply(&mut state, &first, StepOutcome::Updated, AT);
    assert!(lost.is_tracked("I9"));
    assert!(matches!(lost.decide_task(&second), TaskAction::Create));
    run.apply(&mut state, &first, StepOutcome::Updated, AT);
    assert_eq!(counts(&run), (0, 1, 0, 0, 0));
}

#[test]
fn duplicates_are_found_and_all_but_the_first_go() {
    let items = vec![
        item("I1", "Foo", Some("1")),
        item("I2", "Bar", Some("2")),
        item("I3", "Foo", Some("1")),
        item("I4", "Foo", None),
        item("I5", "Baz", None),
        item("I6", "Qux", Some("")),
        item("I7", "Qux", None),
        item("I8", "Bar", Some("1")),
    ];
    let report = find_duplicates(&items);
    assert_eq!(report.total_items, 8);
    assert_eq!(report.without_id, 3);
    assert_eq!(report.by_id, vec![("1".to_string(), 3)]);
    assert_eq!(
        report.by_title,
        vec![("Foo".to_string(), 3), ("Bar".to_string(), 2), ("Qux".to_string(), 2)]
    );
    assert_eq!(report.deletions, vec!["I3", "I8", "I4"]);
    let clean = find_duplicates(&[item("I1", "Foo", Some("1")), item("I2", "Bar", None)]);
    assert!(clean.by_id.is_empty() && clean.by_title.is_empty() && clean.deletions.is_empty());
    assert_eq!(clean.without_id, 1);
}
