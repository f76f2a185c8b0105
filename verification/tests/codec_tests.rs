use codex_monitor_daemon::codec::{
    decode_app_settings, decode_entry, decode_entry_list, decode_ws_settings, encode_app_settings,
    encode_entry, encode_entry_list, encode_ws_settings,
};
use codex_monitor_daemon::json::{Json, JsonNum};
use codex_monitor_daemon::model::{
    AppSettings, BackendMode, WorkspaceEntry, WorkspaceKind, WorkspaceSettings, WorktreeInfo,
};

fn sample_entry() -> WorkspaceEntry {
    WorkspaceEntry {
        id: "abc-123".to_string(),
        name: "feat".to_string(),
        path: "/tmp/parent/.codex-worktrees/feat".to_string(),
        codex_bin: Some("/opt/codex".to_string()),
        kind: WorkspaceKind::Worktree,
        parent_id: Some("parent-1".to_string()),
        worktree: Some(WorktreeInfo { branch: "feat".to_string() }),
        settings: WorkspaceSettings { sidebar_collapsed: true, sort_order: Some(7) },
    }
}

#[test]
fn entry_round_trip_is_field_equal() {
    let e = sample_entry();
    let doc = encode_entry(&e);
    let back = decode_entry(&doc).expect("round trip");
    assert_eq!(back.id, e.id);
    assert_eq!(back.name, e.name);
    assert_eq!(back.path, e.path);
    assert_eq!(back.codex_bin, e.codex_bin);
    assert!(matches!(back.kind, WorkspaceKind::Worktree));
    assert_eq!(back.parent_id, e.parent_id);
    assert_eq!(back.worktree.as_ref().map(|w| w.branch.clone()), Some("feat".to_string()));
    assert_eq!(back.settings, e.settings);
}

#[test]
fn settings_round_trip_is_field_equal() {
    let s = WorkspaceSettings { sidebar_collapsed: false, sort_order: None };
    let back = decode_ws_settings(&encode_ws_settings(&s)).expect("round trip");
    assert_eq!(back, s);

    let mut a = AppSettings::default();
    a.codex_bin = Some("/opt/codex".to_string());
    a.backend_mode = BackendMode::Remote;
    a.remote_backend_token = Some("SECRET-REDACTED".to_string());
    a.ui_scale = JsonNum::Bits(1.25f64.to_bits());
    let back = decode_app_settings(&encode_app_settings(&a)).expect("round trip");
    assert_eq!(back.codex_bin, a.codex_bin);
    assert!(matches!(back.backend_mode, BackendMode::Remote));
    assert_eq!(back.remote_backend_host, a.remote_backend_host);
    assert_eq!(back.remote_backend_token, a.remote_backend_token);
    assert_eq!(back.default_access_mode, a.default_access_mode);
    assert_eq!(back.ui_scale, a.ui_scale);
    assert_eq!(back.notification_sounds_enabled, a.notification_sounds_enabled);
}

#[test]
fn entry_list_round_trip() {
    let mut entries = Vec::new();
    entries.push(sample_entry());
    let mut second = sample_entry();
    second.id = "def-456".to_string();
    second.kind = WorkspaceKind::Main;
    second.parent_id = None;
    second.worktree = None;
    entries.push(second);
    let doc = encode_entry_list(&entries);
    let back = decode_entry_list(&doc).expect("round trip");
    assert_eq!(back.len(), 2);
    assert_eq!(back[0].id, "abc-123");
    assert_eq!(back[1].id, "def-456");
}

#[test]
fn sparse_documents_fill_defaults() {
    let mut fields: Vec<(String, Json)> = Vec::new();
    fields.push(("id".to_string(), Json::Str("1".to_string())));
    fields.push(("name".to_string(), Json::Str("n".to_string())));
    fields.push(("path".to_string(), Json::Str("/p".to_string())));
    let entry = decode_entry(&Json::Obj(fields)).expect("sparse entry");
    assert!(matches!(entry.kind, WorkspaceKind::Main));
    assert!(entry.codex_bin.is_none());
    assert!(entry.parent_id.is_none());
    assert!(entry.worktree.is_none());
    assert_eq!(entry.settings, WorkspaceSettings { sidebar_collapsed: false, sort_order: None });
}

#[test]
fn malformed_documents_are_refused() {
    // A missing required field.
    let mut fields: Vec<(String, Json)> = Vec::new();
    fields.push(("id".to_string(), Json::Str("1".to_string())));
    assert!(decode_entry(&Json::Obj(fields)).is_none());
    // A present key of the wrong shape.
    let mut fields: Vec<(String, Json)> = Vec::new();
    fields.push(("id".to_string(), Json::Str("1".to_string())));
    fields.push(("name".to_string(), Json::Str("n".to_string())));
    fields.push(("path".to_string(), Json::Str("/p".to_string())));
    fields.push(("kind".to_string(), Json::Str("weird".to_string())));
    assert!(decode_entry(&Json::Obj(fields)).is_none());
    // A sort order beyond 32 bits.
    let mut sf: Vec<(String, Json)> = Vec::new();
    sf.push(("sortOrder".to_string(), Json::Num(JsonNum::UInt(u64::MAX))));
    assert!(decode_ws_settings(&Json::Obj(sf)).is_none());
    // A non-object document.
    assert!(decode_entry(&Json::Null).is_none());
    assert!(decode_app_settings(&Json::Str("nope".to_string())).is_none());
}
