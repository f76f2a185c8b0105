use codex_monitor_daemon::gitquery::{
    command_error_detail, github_search_query, normalize_git_path, parse_github_repo,
    pick_remote_name, resolve_issue_total, sort_branches, sort_strings, status_code_for,
};
use codex_monitor_daemon::model::BranchInfo;
use codex_monitor_daemon::should_skip_dir;

#[test]
fn normalize_git_path_turns_backslashes() {
    assert_eq!(normalize_git_path("a\\b\\c.rs"), "a/b/c.rs");
    assert_eq!(normalize_git_path("a/b"), "a/b");
}

#[test]
fn status_letters_follow_precedence() {
    assert_eq!(status_code_for(true, true, false, false, false), "A");
    assert_eq!(status_code_for(false, true, false, false, false), "M");
    assert_eq!(status_code_for(false, false, true, false, false), "D");
    assert_eq!(status_code_for(false, false, false, true, false), "R");
    assert_eq!(status_code_for(false, false, false, false, true), "T");
    assert_eq!(status_code_for(false, false, false, false, false), "--");
}

#[test]
fn parse_github_repo_recognizes_remote_shapes() {
    assert_eq!(parse_github_repo("git@github.com:me/proj.git"), Some("me/proj".to_string()));
    assert_eq!(
        parse_github_repo("ssh://git@github.com/me/proj/"),
        Some("me/proj".to_string())
    );
    assert_eq!(
        parse_github_repo("https://github.com/me/proj.git"),
        Some("me/proj".to_string())
    );
    assert_eq!(parse_github_repo("  https://github.com/me/proj  "), Some("me/proj".to_string()));
    assert_eq!(parse_github_repo("https://example.com/me/proj"), None);
    assert_eq!(parse_github_repo(""), None);
    assert_eq!(parse_github_repo("https://github.com/"), None);
}

#[test]
fn remote_selection_prefers_origin() {
    let remotes = vec![Some("upstream".to_string()), Some("origin".to_string())];
    assert_eq!(pick_remote_name(&remotes), Some("origin".to_string()));
    let remotes = vec![None, Some("fork".to_string())];
    assert_eq!(pick_remote_name(&remotes), Some("fork".to_string()));
    let remotes = vec![None, Some(String::new())];
    assert_eq!(pick_remote_name(&remotes), None);
    assert_eq!(pick_remote_name(&Vec::new()), None);
}

#[test]
fn error_detail_prefers_stderr_then_stdout() {
    assert_eq!(command_error_detail(" boom \n", "out", "Git command failed."), "boom");
    assert_eq!(command_error_detail("  ", " out ", "Git command failed."), "out");
    assert_eq!(command_error_detail("", "", "Git command failed."), "Git command failed.");
}

#[test]
fn search_query_is_plus_separated() {
    assert_eq!(github_search_query("me/proj"), "repo:me/proj+is:issue+is:open");
    assert_eq!(github_search_query("a b"), "repo:a+b+is:issue+is:open");
}

#[test]
fn issue_total_falls_back_to_listing_size() {
    assert_eq!(resolve_issue_total(" 42 \n", 3), 42);
    assert_eq!(resolve_issue_total("nope", 3), 3);
    assert_eq!(resolve_issue_total("", 3), 3);
}

#[test]
fn branch_listing_is_newest_first() {
    let mut branches = vec![
        BranchInfo { name: "old".to_string(), last_commit: 10 },
        BranchInfo { name: "new".to_string(), last_commit: 30 },
        BranchInfo { name: "mid".to_string(), last_commit: 20 },
    ];
    sort_branches(&mut branches);
    let names: Vec<&str> = branches.iter().map(|b| b.name.as_str()).collect();
    assert_eq!(names, vec!["new", "mid", "old"]);
}

#[test]
fn file_listing_is_name_ordered() {
    let mut files = vec!["b.rs".to_string(), "a/z.rs".to_string(), "a.rs".to_string()];
    sort_strings(&mut files);
    assert_eq!(files, vec!["a.rs".to_string(), "a/z.rs".to_string(), "b.rs".to_string()]);
}

#[test]
fn walk_skips_build_and_scm_directories() {
    assert!(should_skip_dir(".git"));
    assert!(should_skip_dir("node_modules"));
    assert!(should_skip_dir("dist"));
    assert!(should_skip_dir("target"));
    assert!(should_skip_dir("release-artifacts"));
    assert!(!should_skip_dir("src"));
}
