use codex_monitor_daemon::model::{AppSettings, WorkspaceKind, WorkspaceSettings};
use codex_monitor_daemon::registry::{sort_workspaces, Registry};

fn add_main(reg: &mut Registry, path: &str) -> String {
    let entry = reg
        .prepare_add_workspace(path, None)
        .expect("id allocation");
    let id = entry.id.clone();
    assert!(reg.commit_add_workspace(entry));
    id
}

fn add_worktree(reg: &mut Registry, parent_id: &str, branch: &str) -> String {
    let (parent, trimmed) = reg
        .prepare_add_worktree(parent_id, branch)
        .expect("worktree plan");
    let path = format!("{}/.codex-worktrees/{}", parent.path, trimmed);
    let entry = reg
        .prepare_worktree_entry(&parent, trimmed.as_str(), path.as_str())
        .expect("id allocation");
    let id = entry.id.clone();
    assert!(reg.commit_add_worktree(entry));
    id
}

#[test]
fn add_workspace_on_empty_registry_end_to_end() {
    let mut reg = Registry::new();
    let entry = reg
        .prepare_add_workspace("/tmp/proj", None)
        .expect("id allocation");
    assert_eq!(entry.name, "proj");
    assert_eq!(entry.path, "/tmp/proj");
    assert_eq!(entry.id.len(), 36);
    assert!(!entry.id.is_empty());
    assert!(matches!(entry.kind, WorkspaceKind::Main));
    assert!(entry.parent_id.is_none());
    let id = entry.id.clone();
    assert!(reg.commit_add_workspace(entry));
    let list = reg.list_workspaces();
    assert_eq!(list.len(), 1);
    assert_eq!(list[0].id, id);
    assert_eq!(list[0].name, "proj");
    assert!(list[0].connected);
    assert!(matches!(list[0].kind, WorkspaceKind::Main));
}

#[test]
fn connect_on_connected_workspace_is_idempotent() {
    let mut reg = Registry::new();
    let id = add_main(&mut reg, "/tmp/one");
    // The workspace starts connected; connecting again plans no spawn.
    match reg.prepare_connect(id.as_str()) {
        Ok(None) => {}
        _ => panic!("connecting a connected workspace must be a no-op"),
    }
}

#[test]
fn connect_after_disconnect_spawns_again() {
    let mut reg = Registry::new();
    let id = add_main(&mut reg, "/tmp/one");
    assert!(reg.commit_disconnect(id.as_str()));
    match reg.prepare_connect(id.as_str()) {
        Ok(Some(entry)) => assert_eq!(entry.id, id),
        _ => panic!("a disconnected workspace should plan a spawn"),
    }
    assert!(reg.commit_connect(&id));
    assert!(reg.is_connected(id.as_str()));
}

#[test]
fn connect_unknown_workspace_fails() {
    let reg = Registry::new();
    match reg.prepare_connect("missing") {
        Err(m) => assert_eq!(m, "workspace not found"),
        _ => panic!("an unknown id must be refused"),
    }
}

#[test]
fn remove_workspace_cascades_to_children() {
    let mut reg = Registry::new();
    let parent = add_main(&mut reg, "/tmp/parent");
    let other = add_main(&mut reg, "/tmp/other");
    let _w1 = add_worktree(&mut reg, parent.as_str(), "feat-a");
    let _w2 = add_worktree(&mut reg, parent.as_str(), "feat-b");
    assert_eq!(reg.list_workspaces().len(), 4);
    let (_entry, children) = reg.plan_remove_workspace(parent.as_str()).expect("plan");
    assert_eq!(children.len(), 2);
    assert!(reg.commit_remove_workspace(parent.as_str()));
    let list = reg.list_workspaces();
    assert_eq!(list.len(), 1);
    assert_eq!(list[0].id, other);
    // No remaining entry names a missing parent.
    for info in &list {
        assert!(info.parent_id.is_none());
    }
}

#[test]
fn remove_workspace_errors() {
    let mut reg = Registry::new();
    let parent = add_main(&mut reg, "/tmp/parent");
    let wt = add_worktree(&mut reg, parent.as_str(), "feat");
    match reg.plan_remove_workspace("missing") {
        Err(m) => assert_eq!(m, "workspace not found"),
        _ => panic!("missing id"),
    }
    match reg.plan_remove_workspace(wt.as_str()) {
        Err(m) => assert_eq!(m, "Use remove_worktree for worktree agents."),
        _ => panic!("worktree id must be refused"),
    }
}

#[test]
fn remove_worktree_removes_single_entry() {
    let mut reg = Registry::new();
    let parent = add_main(&mut reg, "/tmp/parent");
    let wt = add_worktree(&mut reg, parent.as_str(), "feat");
    let (entry, found_parent) = reg.plan_remove_worktree(wt.as_str()).expect("plan");
    assert_eq!(entry.id, wt);
    assert_eq!(found_parent.id, parent);
    assert!(reg.commit_remove_worktree(wt.as_str()));
    let list = reg.list_workspaces();
    assert_eq!(list.len(), 1);
    assert_eq!(list[0].id, parent);
    match reg.plan_remove_worktree(parent.as_str()) {
        Err(m) => assert_eq!(m, "Not a worktree workspace."),
        _ => panic!("a plain workspace must be refused"),
    }
}

#[test]
fn add_worktree_validation() {
    let mut reg = Registry::new();
    let parent = add_main(&mut reg, "/tmp/parent");
    let wt = add_worktree(&mut reg, parent.as_str(), "feat");
    match reg.prepare_add_worktree(parent.as_str(), "   ") {
        Err(m) => assert_eq!(m, "Branch name is required."),
        _ => panic!("blank branch"),
    }
    match reg.prepare_add_worktree("missing", "feat") {
        Err(m) => assert_eq!(m, "parent workspace not found"),
        _ => panic!("missing parent"),
    }
    match reg.prepare_add_worktree(wt.as_str(), "feat") {
        Err(m) => assert_eq!(m, "Cannot create a worktree from another worktree."),
        _ => panic!("worktree parent"),
    }
    match reg.prepare_add_worktree(parent.as_str(), "  feat2  ") {
        Ok((p, b)) => {
            assert_eq!(p.id, parent);
            assert_eq!(b, "feat2");
        }
        _ => panic!("trimmed branch should pass"),
    }
}

#[test]
fn commit_add_worktree_without_parent_is_refused() {
    let mut reg = Registry::new();
    let parent = add_main(&mut reg, "/tmp/parent");
    let parent_entry = reg.get_entry(parent.as_str()).expect("entry");
    let entry = reg
        .prepare_worktree_entry(&parent_entry, "feat", "/tmp/parent/.codex-worktrees/feat")
        .expect("id allocation");
    assert!(reg.commit_remove_workspace(parent.as_str()));
    // The parent vanished between planning and committing: the commit
    // reports failure and the registry keeps its invariant.
    assert!(!reg.commit_add_worktree(entry));
    assert_eq!(reg.list_workspaces().len(), 0);
}

#[test]
fn update_workspace_settings_and_listing_order() {
    let mut reg = Registry::new();
    let a = add_main(&mut reg, "/tmp/bravo");
    let b = add_main(&mut reg, "/tmp/alpha");
    let c = add_main(&mut reg, "/tmp/charlie");
    let info = reg
        .update_workspace_settings(
            a.as_str(),
            WorkspaceSettings { sidebar_collapsed: true, sort_order: Some(2) },
        )
        .expect("update");
    assert!(info.settings.sidebar_collapsed);
    assert_eq!(info.settings.sort_order, Some(2));
    assert!(info.connected);
    reg.update_workspace_settings(
        b.as_str(),
        WorkspaceSettings { sidebar_collapsed: false, sort_order: Some(1) },
    )
    .expect("update");
    // `c` keeps no sort order and therefore sorts last.
    let mut list = reg.list_workspaces();
    sort_workspaces(&mut list);
    assert_eq!(list[0].id, b);
    assert_eq!(list[1].id, a);
    assert_eq!(list[2].id, c);
    match reg.update_workspace_settings(
        "missing",
        WorkspaceSettings { sidebar_collapsed: false, sort_order: None },
    ) {
        Err(m) => assert_eq!(m, "workspace not found"),
        _ => panic!("missing id"),
    }
}

#[test]
fn listing_sorts_equal_orders_by_name() {
    let mut reg = Registry::new();
    let _b = add_main(&mut reg, "/tmp/bravo");
    let _a = add_main(&mut reg, "/tmp/alpha");
    let mut list = reg.list_workspaces();
    sort_workspaces(&mut list);
    assert_eq!(list[0].name, "alpha");
    assert_eq!(list[1].name, "bravo");
}

#[test]
fn update_workspace_codex_bin_round_trip() {
    let mut reg = Registry::new();
    let id = add_main(&mut reg, "/tmp/one");
    let info = reg
        .update_workspace_codex_bin(id.as_str(), Some("/opt/codex".to_string()))
        .expect("update");
    assert_eq!(info.codex_bin.as_deref(), Some("/opt/codex"));
    let info = reg.update_workspace_codex_bin(id.as_str(), None).expect("update");
    assert!(info.codex_bin.is_none());
}

#[test]
fn app_settings_update_and_snapshot() {
    let mut reg = Registry::new();
    let mut s = AppSettings::default();
    s.default_access_mode = "read-only".to_string();
    reg.update_app_settings(s);
    let snap = reg.get_app_settings();
    assert_eq!(snap.default_access_mode, "read-only");
}

#[test]
fn from_entries_keeps_consistent_lists() {
    let mut reg = Registry::new();
    let parent = add_main(&mut reg, "/tmp/parent");
    let _wt = add_worktree(&mut reg, parent.as_str(), "feat");
    let mut entries = Vec::new();
    for info in reg.list_workspaces() {
        let entry = reg.get_entry(info.id.as_str()).expect("entry");
        entries.push(entry);
    }
    let reloaded = Registry::from_entries(entries, AppSettings::default());
    let list = reloaded.list_workspaces();
    assert_eq!(list.len(), 2);
    // Nothing starts connected after a reload.
    for info in &list {
        assert!(!info.connected);
    }
}

#[test]
fn from_entries_salvages_partially_corrupt_lists() {
    // A duplicated id keeps its first occurrence only.
    let mut reg = Registry::new();
    let one = add_main(&mut reg, "/tmp/one");
    let mut dup = Vec::new();
    let mut first = reg.get_entry(one.as_str()).expect("entry");
    first.name = "kept".to_string();
    dup.push(first);
    dup.push(reg.get_entry(one.as_str()).expect("entry"));
    let salvaged = Registry::from_entries(dup, AppSettings::default());
    let list = salvaged.list_workspaces();
    assert_eq!(list.len(), 1);
    assert_eq!(list[0].name, "kept");

    // A plain checkout with a stray parent reference is kept without it;
    // a worktree whose parent never existed is dropped.
    let mut reg = Registry::new();
    let good = add_main(&mut reg, "/tmp/good");
    let other = add_main(&mut reg, "/tmp/other");
    let orphan = add_worktree(&mut reg, good.as_str(), "feat");
    let mut entries = Vec::new();
    let mut stray = reg.get_entry(other.as_str()).expect("entry");
    stray.parent_id = Some("nowhere".to_string());
    entries.push(stray);
    let mut orphaned = reg.get_entry(orphan.as_str()).expect("entry");
    orphaned.parent_id = Some("missing".to_string());
    entries.push(orphaned);
    let salvaged = Registry::from_entries(entries, AppSettings::default());
    let list = salvaged.list_workspaces();
    assert_eq!(list.len(), 1);
    assert_eq!(list[0].id, other);
    assert!(list[0].parent_id.is_none());
}

#[test]
fn generated_ids_are_fresh_and_distinct() {
    let mut reg = Registry::new();
    let a = add_main(&mut reg, "/tmp/a");
    let b = add_main(&mut reg, "/tmp/b");
    assert_eq!(a.len(), 36);
    assert_eq!(b.len(), 36);
    assert_ne!(a, b);
}

#[test]
fn derive_workspace_name_cases() {
    assert_eq!(codex_monitor_daemon::registry::derive_workspace_name("/tmp/proj"), "proj");
    assert_eq!(codex_monitor_daemon::registry::derive_workspace_name("/tmp/proj/"), "proj");
    assert_eq!(codex_monitor_daemon::registry::derive_workspace_name("proj"), "proj");
    assert_eq!(codex_monitor_daemon::registry::derive_workspace_name("/"), "Workspace");
    assert_eq!(codex_monitor_daemon::registry::derive_workspace_name(""), "Workspace");
}
