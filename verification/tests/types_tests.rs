use codex_monitor_daemon::codec::{decode_app_settings, decode_entry};
use codex_monitor_daemon::json::{Json, JsonNum};
use codex_monitor_daemon::model::{BackendMode, WorkspaceKind};

#[test]
fn app_settings_defaults_from_empty_json() {
    let doc = Json::Obj(Vec::new());
    let settings = decode_app_settings(&doc).expect("settings deserialize");
    assert!(settings.codex_bin.is_none());
    assert!(matches!(settings.backend_mode, BackendMode::Local));
    assert_eq!(settings.remote_backend_host, "127.0.0.1:4732");
    assert!(settings.remote_backend_token.is_none());
    assert_eq!(settings.default_access_mode, "current");
    let scale = match settings.ui_scale {
        JsonNum::Bits(bits) => f64::from_bits(bits),
        _ => panic!("default scale should be the opaque number one"),
    };
    assert!((scale - 1.0).abs() < f64::EPSILON);
    assert!(settings.notification_sounds_enabled);
}

#[test]
fn workspace_entry_defaults_from_minimal_json() {
    // The minimal persisted document: only id, name, path, and a null
    // binary override.
    let mut fields: Vec<(String, Json)> = Vec::new();
    fields.push(("id".to_string(), Json::Str("1".to_string())));
    fields.push(("name".to_string(), Json::Str("Test".to_string())));
    fields.push(("path".to_string(), Json::Str("/tmp".to_string())));
    fields.push(("codexBin".to_string(), Json::Null));
    let doc = Json::Obj(fields);
    let entry = decode_entry(&doc).expect("workspace deserialize");
    assert!(matches!(entry.kind, WorkspaceKind::Main));
    assert!(entry.parent_id.is_none());
    assert!(entry.worktree.is_none());
    assert!(entry.settings.sort_order.is_none());
}
