use codex_monitor_daemon::dispatch::{
    build_error_response, build_result_response, ok_result, parse_request, Request,
};
use codex_monitor_daemon::json::{Json, JsonNum};
use codex_monitor_daemon::turns::{
    approval_policy_for, build_turn_input, build_turn_params, sandbox_policy_json,
};

fn obj(fields: Vec<(&str, Json)>) -> Json {
    Json::Obj(fields.into_iter().map(|(k, v)| (k.to_string(), v)).collect())
}

fn get<'a>(j: &'a Json, key: &str) -> &'a Json {
    match j {
        Json::Obj(fields) => {
            for (k, v) in fields {
                if k == key {
                    return v;
                }
            }
            panic!("missing key {key}");
        }
        _ => panic!("not an object"),
    }
}

fn text_of(j: &Json) -> &str {
    match j {
        Json::Str(s) => s.as_str(),
        _ => panic!("not a string"),
    }
}

#[test]
fn parse_request_routes_methods() {
    assert!(matches!(parse_request("ping", Json::Null), Ok(Request::Ping)));
    assert!(matches!(parse_request("list_workspaces", Json::Null), Ok(Request::ListWorkspaces)));
    let params = obj(vec![("path", Json::Str("/tmp/proj".to_string()))]);
    match parse_request("add_workspace", params) {
        Ok(Request::AddWorkspace { path, codex_bin }) => {
            assert_eq!(path, "/tmp/proj");
            assert!(codex_bin.is_none());
        }
        _ => panic!("add_workspace should parse"),
    }
}

#[test]
fn parse_request_missing_fields() {
    match parse_request("add_workspace", obj(vec![])) {
        Err(m) => assert_eq!(m, "missing or invalid `path`"),
        _ => panic!("missing path"),
    }
    match parse_request("add_workspace", Json::Null) {
        Err(m) => assert_eq!(m, "missing `path`"),
        _ => panic!("non-object params"),
    }
    match parse_request(
        "add_worktree",
        obj(vec![("parentId", Json::Str("p".to_string()))]),
    ) {
        Err(m) => assert_eq!(m, "missing or invalid `branch`"),
        _ => panic!("missing branch"),
    }
    match parse_request("nonsense", Json::Null) {
        Err(m) => assert_eq!(m, "unknown method: nonsense"),
        _ => panic!("unknown method"),
    }
    match parse_request("start_review", obj(vec![
        ("workspaceId", Json::Str("w".to_string())),
        ("threadId", Json::Str("t".to_string())),
    ])) {
        Err(m) => assert_eq!(m, "missing `target`"),
        _ => panic!("missing target"),
    }
    match parse_request("respond_to_server_request", obj(vec![
        ("workspaceId", Json::Str("w".to_string())),
    ])) {
        Err(m) => assert_eq!(m, "missing requestId"),
        _ => panic!("missing requestId"),
    }
}

#[test]
fn parse_send_user_message_fields() {
    let params = obj(vec![
        ("workspaceId", Json::Str("w".to_string())),
        ("threadId", Json::Str("t".to_string())),
        ("text", Json::Str("hello".to_string())),
        ("accessMode", Json::Str("read-only".to_string())),
        (
            "images",
            Json::Arr(vec![
                Json::Str("a.png".to_string()),
                Json::Num(JsonNum::UInt(3)),
                Json::Str("http://x/y.png".to_string()),
            ]),
        ),
    ]);
    match parse_request("send_user_message", params) {
        Ok(Request::SendUserMessage { workspace_id, thread_id, text, access_mode, images, .. }) => {
            assert_eq!(workspace_id, "w");
            assert_eq!(thread_id, "t");
            assert_eq!(text, "hello");
            assert_eq!(access_mode.as_deref(), Some("read-only"));
            assert_eq!(images, Some(vec!["a.png".to_string(), "http://x/y.png".to_string()]));
        }
        _ => panic!("send_user_message should parse"),
    }
}

#[test]
fn sandbox_mapping_follows_access_mode() {
    let full = sandbox_policy_json("full-access", "/ws");
    assert_eq!(text_of(get(&full, "type")), "dangerFullAccess");
    assert_eq!(approval_policy_for("full-access"), "never");

    let ro = sandbox_policy_json("read-only", "/ws");
    assert_eq!(text_of(get(&ro, "type")), "readOnly");
    assert_eq!(approval_policy_for("read-only"), "on-request");

    for mode in ["current", "anything-else", ""] {
        let ww = sandbox_policy_json(mode, "/ws");
        assert_eq!(text_of(get(&ww, "type")), "workspaceWrite");
        match get(&ww, "writableRoots") {
            Json::Arr(roots) => {
                assert_eq!(roots.len(), 1);
                assert_eq!(text_of(&roots[0]), "/ws");
            }
            _ => panic!("writableRoots should be an array"),
        }
        assert!(matches!(get(&ww, "networkAccess"), Json::Bool(true)));
        assert_eq!(approval_policy_for(mode), "on-request");
    }
}

#[test]
fn turn_input_classifies_attachments() {
    let images = Some(vec![
        "  ".to_string(),
        "data:image/png;base64,xyz".to_string(),
        "http://host/a.png".to_string(),
        "https://host/b.png".to_string(),
        " local/c.png ".to_string(),
    ]);
    let items = build_turn_input("  hi  ", &images).expect("input");
    assert_eq!(items.len(), 5);
    assert_eq!(text_of(get(&items[0], "type")), "text");
    assert_eq!(text_of(get(&items[0], "text")), "hi");
    assert_eq!(text_of(get(&items[1], "type")), "image");
    assert_eq!(text_of(get(&items[1], "url")), "data:image/png;base64,xyz");
    assert_eq!(text_of(get(&items[2], "url")), "http://host/a.png");
    assert_eq!(text_of(get(&items[3], "url")), "https://host/b.png");
    assert_eq!(text_of(get(&items[4], "type")), "localImage");
    assert_eq!(text_of(get(&items[4], "path")), "local/c.png");
}

#[test]
fn empty_turn_is_refused() {
    match build_turn_input("   ", &Some(vec!["  ".to_string()])) {
        Err(m) => assert_eq!(m, "empty user message"),
        _ => panic!("nothing to send"),
    }
    match build_turn_input("", &None) {
        Err(m) => assert_eq!(m, "empty user message"),
        _ => panic!("nothing to send"),
    }
}

#[test]
fn turn_params_carry_all_pieces() {
    let input = build_turn_input("hi", &None).expect("input");
    let params = build_turn_params(
        "t-1",
        input,
        "/ws",
        approval_policy_for("current"),
        sandbox_policy_json("current", "/ws"),
        Some("model-x".to_string()),
        None,
    );
    assert_eq!(text_of(get(&params, "threadId")), "t-1");
    assert_eq!(text_of(get(&params, "cwd")), "/ws");
    assert_eq!(text_of(get(&params, "approvalPolicy")), "on-request");
    assert_eq!(text_of(get(&params, "model")), "model-x");
    assert!(matches!(get(&params, "effort"), Json::Null));
    assert!(matches!(get(&params, "input"), Json::Arr(_)));
    assert_eq!(text_of(get(get(&params, "sandboxPolicy"), "type")), "workspaceWrite");
}

#[test]
fn replies_follow_the_wire_shape() {
    assert!(build_error_response(None, "boom").is_none());
    let err = build_error_response(Some(7), "boom").expect("reply");
    match get(&err, "id") {
        Json::Num(JsonNum::UInt(7)) => {}
        _ => panic!("id should be 7"),
    }
    assert_eq!(text_of(get(get(&err, "error"), "message")), "boom");

    assert!(build_result_response(None, ok_result()).is_none());
    let ok = build_result_response(Some(3), ok_result()).expect("reply");
    assert!(matches!(get(get(&ok, "result"), "ok"), Json::Bool(true)));
}
