use dscode::git::{
    commit_entry, fast_forward_ref, get_status_string, is_staged, log_limit, pull_action, pull_report,
    stash_message, validate_branch_name, validate_file_path, GitError, PullAction,
};

#[test]
fn test_validate_file_path_valid() {
    assert!(validate_file_path("src/main.rs").is_ok());
    assert!(validate_file_path("file.txt").is_ok());
    assert!(validate_file_path("foo/bar/baz.rs").is_ok());
}

#[test]
fn test_validate_file_path_absolute() {
    assert!(validate_file_path("/etc/passwd").is_err());
    assert!(validate_file_path("/home/user/file.txt").is_err());
}

#[test]
fn test_validate_file_path_traversal() {
    assert!(validate_file_path("../secret.txt").is_err());
    assert!(validate_file_path("foo/../../../etc/passwd").is_err());
    assert!(validate_file_path("foo/bar/../../baz").is_err());
}

#[test]
fn test_validate_file_path_empty() {
    assert!(validate_file_path("").is_err());
}

#[test]
fn test_validate_branch_name_valid() {
    assert!(validate_branch_name("main").is_ok());
    assert!(validate_branch_name("feature/new-thing").is_ok());
    assert!(validate_branch_name("release-1.0").is_ok());
}

#[test]
fn test_validate_branch_name_invalid() {
    assert!(validate_branch_name("").is_err());
    assert!(validate_branch_name("-starts-with-dash").is_err());
    assert!(validate_branch_name("branch.lock").is_err());
    assert!(validate_branch_name("branch..name").is_err());
    assert!(validate_branch_name("branch name").is_err());
    assert!(validate_branch_name("branch~name").is_err());
}

#[test]
fn file_path_errors_carry_their_messages() {
    let e = validate_file_path("").unwrap_err();
    assert_eq!(e.message(), "Invalid file path: Empty path is not allowed");
    let e = validate_file_path("/abs").unwrap_err();
    assert!(matches!(e, GitError::InvalidPath { .. }));
}

#[test]
fn status_strings_follow_the_flags() {
    assert_eq!(get_status_string(1), "added");
    assert_eq!(get_status_string(256), "modified");
    assert_eq!(get_status_string(128), "added");
    assert_eq!(get_status_string(512), "deleted");
    assert_eq!(get_status_string(0), "");
    assert!(is_staged(1));
    assert!(!is_staged(128));
}

#[test]
fn pull_reports_each_outcome() {
    assert!(matches!(pull_action(true, true), PullAction::UpToDate));
    assert!(matches!(pull_action(false, true), PullAction::FastForward));
    assert!(matches!(pull_action(false, false), PullAction::MergeRequired));
    assert_eq!(pull_report(&PullAction::UpToDate).ok().unwrap(), "Already up to date");
    assert_eq!(pull_report(&PullAction::FastForward).ok().unwrap(), "Fast-forwarded");
    match pull_report(&PullAction::MergeRequired) {
        Err(e) => assert_eq!(e.message(), "Operation failed: Merge required - not yet implemented"),
        Ok(_) => panic!("a merge is not carried out"),
    }
}

#[test]
fn fast_forward_ref_defaults_to_master() {
    assert_eq!(fast_forward_ref(Some("main")), "refs/heads/main");
    assert_eq!(fast_forward_ref(None), "refs/heads/master");
}

#[test]
fn stash_and_log_defaults() {
    assert_eq!(stash_message(None), "WIP on stash");
    assert_eq!(stash_message(Some("before rebase")), "before rebase");
    assert_eq!(log_limit(None), 100);
    assert_eq!(log_limit(Some(5)), 5);
}

#[test]
fn commit_entry_fills_missing_fields() {
    let c = commit_entry("abc".to_string(), None, None, None, 42, vec!["p1".to_string()]);
    assert_eq!(c.author, "Unknown");
    assert_eq!(c.email, "");
    assert_eq!(c.message, "");
    assert_eq!(c.timestamp, 42);
    assert_eq!(c.parent_ids, vec!["p1".to_string()]);
    let d = commit_entry("def".to_string(), Some("Ada"), Some("ada@example.com"), Some("fix"), 7, vec![]);
    assert_eq!(d.id, "def");
    assert_eq!(d.author, "Ada");
    assert_eq!(d.email, "ada@example.com");
    assert_eq!(d.message, "fix");
}
