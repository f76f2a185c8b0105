use codex_monitor_daemon::strutil::{parse_u64, starts_with, str_eq, str_le, trim, u64_to_dec};
use codex_monitor_daemon::worktree::{
    patch_gitignore, sanitize_worktree_name, unique_worktree_path, worktree_add_args,
};

#[test]
fn trim_removes_surrounding_blanks() {
    assert_eq!(trim("  hello \t\r\n"), "hello");
    assert_eq!(trim(""), "");
    assert_eq!(trim("   "), "");
    assert_eq!(trim("a b"), "a b");
}

#[test]
fn string_primitives() {
    assert!(str_eq("abc", "abc"));
    assert!(!str_eq("abc", "abd"));
    assert!(!str_eq("abc", "ab"));
    assert!(starts_with("https://x", "https://"));
    assert!(!starts_with("http", "https://"));
    assert!(str_le("alpha", "bravo"));
    assert!(str_le("alpha", "alpha"));
    assert!(!str_le("bravo", "alpha"));
    assert!(str_le("ab", "abc"));
}

#[test]
fn decimal_round_trip() {
    assert_eq!(u64_to_dec(0), "0");
    assert_eq!(u64_to_dec(12345), "12345");
    assert_eq!(u64_to_dec(u64::MAX), "18446744073709551615");
    assert_eq!(parse_u64("0"), Some(0));
    assert_eq!(parse_u64("42"), Some(42));
    assert_eq!(parse_u64("18446744073709551615"), Some(u64::MAX));
    assert_eq!(parse_u64("18446744073709551616"), None);
    assert_eq!(parse_u64(""), None);
    assert_eq!(parse_u64("12a"), None);
}

#[test]
fn sanitize_worktree_name_cases() {
    assert_eq!(sanitize_worktree_name("feature/login"), "feature-login");
    assert_eq!(sanitize_worktree_name("a b&c"), "a-b-c");
    assert_eq!(sanitize_worktree_name("--x--"), "x");
    assert_eq!(sanitize_worktree_name("///"), "worktree");
    assert_eq!(sanitize_worktree_name(""), "worktree");
    assert_eq!(sanitize_worktree_name("ok_name.v1-x"), "ok_name.v1-x");
}

#[test]
fn unique_worktree_path_suffixes_collisions() {
    let taken: Vec<String> = Vec::new();
    assert_eq!(unique_worktree_path(&taken, "wt").unwrap(), "wt");
    let taken = vec!["wt".to_string()];
    let second = unique_worktree_path(&taken, "wt").unwrap();
    assert_eq!(second, "wt-2");
    let taken = vec!["wt".to_string(), second.clone()];
    let third = unique_worktree_path(&taken, "wt").unwrap();
    assert_eq!(third, "wt-3");
    assert_ne!(second, third);
}

#[test]
fn unique_worktree_path_prefers_base_then_least_suffix() {
    // A free base wins even when suffixes are taken.
    let taken = vec!["wt-2".to_string(), "wt-3".to_string()];
    assert_eq!(unique_worktree_path(&taken, "wt").unwrap(), "wt");
    // The least free suffix wins, not just any free one.
    let taken = vec!["wt".to_string(), "wt-2".to_string(), "wt-4".to_string()];
    assert_eq!(unique_worktree_path(&taken, "wt").unwrap(), "wt-3");
}

#[test]
fn unique_worktree_path_exhaustion_fails() {
    let mut taken = vec!["wt".to_string()];
    for k in 2..1000 {
        taken.push(format!("wt-{k}"));
    }
    match unique_worktree_path(&taken, "wt") {
        Err(m) => assert_eq!(m, "no free worktree directory name"),
        Ok(p) => panic!("expected exhaustion, got {p}"),
    }
}

#[test]
fn worktree_add_args_fork() {
    let attach = worktree_add_args(true, "feat", "/tmp/p/.codex-worktrees/feat");
    assert_eq!(attach, vec!["worktree", "add", "/tmp/p/.codex-worktrees/feat", "feat"]);
    let create = worktree_add_args(false, "feat", "/tmp/p/.codex-worktrees/feat");
    assert_eq!(create, vec!["worktree", "add", "-b", "feat", "/tmp/p/.codex-worktrees/feat"]);
}

#[test]
fn patch_gitignore_is_idempotent() {
    let first = patch_gitignore("").expect("empty file should be patched");
    assert_eq!(first, ".codex-worktrees/\n");
    assert!(patch_gitignore(first.as_str()).is_none());

    let patched = patch_gitignore("target\n").expect("should append");
    assert_eq!(patched, "target\n.codex-worktrees/\n");
    assert!(patch_gitignore(patched.as_str()).is_none());

    // A missing final line break is preserved by adding one first.
    let patched = patch_gitignore("target").expect("should append");
    assert_eq!(patched, "target\n.codex-worktrees/\n");

    // The probe sees the line through surrounding blanks.
    assert!(patch_gitignore("  .codex-worktrees/  \nother\n").is_none());
}
