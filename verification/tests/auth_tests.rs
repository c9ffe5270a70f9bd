use task_master_sync::auth::GitHubAuth;
use task_master_sync::error::TaskMasterError;

const REPORT: &str = "✓ Logged in to github.com account testuser (keyring)
✓ Git operations for github.com configured to use https protocol.
✓ Token: gho_************************************
✓ Token scopes: 'admin:public_key', 'gist', 'read:org', 'repo'";

#[test]
fn test_extract_username() {
    let username = GitHubAuth::extract_username(REPORT);
    assert_eq!(username, Some("testuser".to_string()));
}

#[test]
fn test_extract_scopes() {
    let scopes = GitHubAuth::extract_scopes(REPORT);
    assert_eq!(scopes, vec!["admin:public_key", "gist", "read:org", "repo"]);
}

#[test]
fn extract_username_without_account_is_none() {
    assert_eq!(GitHubAuth::extract_username("nothing to see"), None);
    assert_eq!(GitHubAuth::extract_username("account someone"), None);
}

#[test]
fn extract_scopes_stops_at_the_end_of_the_line() {
    let scopes = GitHubAuth::extract_scopes("Token scopes: 'repo', 'gist'\nmore text, here");
    assert_eq!(scopes, vec!["repo", "gist"]);
    assert!(GitHubAuth::extract_scopes("no scopes").is_empty());
}

#[test]
fn parse_auth_status_reads_a_login() {
    let status = GitHubAuth::parse_auth_status(REPORT).unwrap();
    assert!(status.authenticated);
    assert_eq!(status.username, Some("testuser".to_string()));
    assert_eq!(status.scopes.len(), 4);
}

#[test]
fn parse_auth_status_rejects_a_missing_login() {
    match GitHubAuth::parse_auth_status("You are not logged into any GitHub hosts.") {
        Err(TaskMasterError::AuthError(text)) => {
            assert_eq!(text, "Not authenticated with GitHub. Please run 'gh auth login'");
        }
        other => panic!("unexpected: {:?}", other),
    }
}
