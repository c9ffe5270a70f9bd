use task_master_sync::error::TaskMasterError;
use task_master_sync::progress::messages::{batch_operation, sync_starting, task_processing};
use task_master_sync::progress::SyncStats;
use task_master_sync::strmap::{StrMap, StrSet};
use task_master_sync::text::{
    contains_str, count_char, decimal_string, find_str, join, signed_decimal_string, str_eq,
    trim_char, trim_end_matches,
};

#[test]
fn errors_are_shown_with_their_kind() {
    let cases = vec![
        (TaskMasterError::AuthError("a".to_string()), "GitHub authentication failed: a"),
        (TaskMasterError::TaskNotFound("b".to_string()), "Task not found: b"),
        (TaskMasterError::ConfigError("c".to_string()), "Configuration error: c"),
        (TaskMasterError::GitHubError("d".to_string()), "GitHub API error: d"),
        (TaskMasterError::WatchError("e".to_string()), "File watch error: e"),
        (TaskMasterError::IoError("f".to_string()), "IO error: f"),
        (TaskMasterError::JsonError("g".to_string()), "JSON parsing error: g"),
        (TaskMasterError::InvalidTaskFormat("h".to_string()), "Invalid task format: h"),
        (TaskMasterError::DependencyCycle("i".to_string()), "Dependency cycle detected: i"),
        (TaskMasterError::NotImplemented("j".to_string()), "Not implemented: j"),
    ];
    for (e, line) in cases {
        assert_eq!(e.message(), line);
    }
}

#[test]
fn progress_lines() {
    assert_eq!(sync_starting(12), "Starting sync of 12 tasks...");
    assert_eq!(sync_starting(0), "Starting sync of 0 tasks...");
    assert_eq!(task_processing("1.2", "Title"), "Processing task 1.2: Title");
    assert_eq!(batch_operation("update", 7), "Batch update 7 items");
}

#[test]
fn stats_start_at_zero() {
    let s = SyncStats::default();
    assert_eq!((s.created, s.updated, s.deleted, s.skipped), (0, 0, 0, 0));
    assert!(s.errors.is_empty() && s.warnings.is_empty());
    let t = SyncStats::starting(4, None);
    assert_eq!(t.total_tasks, 4);
    assert_eq!(t.completed(), 0);
}

#[test]
fn string_map_keeps_order_and_replaces_in_place() {
    let mut m: StrMap<String> = StrMap::new();
    assert!(m.is_empty());
    m.insert("b".to_string(), "1".to_string());
    m.insert("a".to_string(), "2".to_string());
    m.insert("b".to_string(), "3".to_string());
    assert_eq!(m.len(), 2);
    assert_eq!(m.key_at(0), "b");
    assert_eq!(m.value_at(0), "3");
    assert_eq!(m.index_of("a"), Some(1));
    assert_eq!(m.remove("b"), Some("3".to_string()));
    assert_eq!(m.remove("b"), None);
    assert_eq!(m.key_at(0), "a");
    assert!(!m.contains_key("b"));
}

#[test]
fn string_set_holds_each_member_once() {
    let mut s = StrSet::new();
    assert!(s.insert("x".to_string()));
    assert!(!s.insert("x".to_string()));
    assert!(s.insert("y".to_string()));
    assert_eq!(s.len(), 2);
    assert_eq!(s.member_at(1), "y");
    assert!(s.remove("x"));
    assert!(!s.remove("x"));
    assert_eq!(s.index_of("y"), Some(0));
}

#[test]
fn text_helpers() {
    assert_eq!(find_str("héllo wörld", "wö"), Some(6));
    assert_eq!(find_str("abc", ""), Some(0));
    assert_eq!(find_str("abc", "abcd"), None);
    assert!(contains_str("swe-1-5dlabs", "5dlabs"));
    assert!(!contains_str("swe-1", "5dlabs"));
    assert_eq!(count_char("1.2.3", '.'), 2);
    assert_eq!(join(&vec!["a".to_string(), "b".to_string(), "c".to_string()], ","), "a,b,c");
    assert_eq!(join(&vec![], ","), "");
    assert_eq!(trim_char("''a'b''", '\''), "a'b");
    assert_eq!(trim_char("'''", '\''), "");
    assert_eq!(trim_end_matches("repo.git.git", ".git"), "repo");
    assert_eq!(trim_end_matches("repo.gitx", ".git"), "repo.gitx");
    assert_eq!(decimal_string(0), "0");
    assert_eq!(decimal_string(1234567890), "1234567890");
    assert_eq!(signed_decimal_string(-42), "-42");
    assert_eq!(signed_decimal_string(i32::MIN), "-2147483648");
    assert!(str_eq("ä", "ä"));
    assert!(!str_eq("a", "b"));
}
