use vstd::prelude::*;
use crate::json::{any_field, bool_field, lookup, str_field, u64_field, Json, JsonNum};
use crate::model::{AppSettings, WorkspaceSettings};

verus! {

// ---------------------------------------------------------------------------
// The RPC dispatcher: the one layer that knows wire shapes. A method
// name and its JSON parameters become a typed request; results and
// errors become JSON replies. Everything downstream works on native
// values.
// ---------------------------------------------------------------------------

/// One decoded client request.
#[allow(inconsistent_fields)]
pub enum Request {
    Ping,
    ListWorkspaces,
    AddWorkspace { path: String, codex_bin: Option<String> },
    AddWorktree { parent_id: String, branch: String },
    ConnectWorkspace { id: String },
    RemoveWorkspace { id: String },
    RemoveWorktree { id: String },
    UpdateWorkspaceSettings { id: String, settings: WorkspaceSettings },
    UpdateWorkspaceCodexBin { id: String, codex_bin: Option<String> },
    ListWorkspaceFiles { workspace_id: String },
    GetAppSettings,
    UpdateAppSettings { settings: AppSettings },
    StartThread { workspace_id: String },
    ResumeThread { workspace_id: String, thread_id: String },
    ListThreads { workspace_id: String, cursor: Option<String>, limit: Option<u32> },
    ArchiveThread { workspace_id: String, thread_id: String },
    SendUserMessage {
        workspace_id: String,
        thread_id: String,
        text: String,
        model: Option<String>,
        effort: Option<String>,
        access_mode: Option<String>,
        images: Option<Vec<String>>,
    },
    TurnInterrupt { workspace_id: String, thread_id: String, turn_id: String },
    StartReview { workspace_id: String, thread_id: String, target: Json, delivery: Option<String> },
    ModelList { workspace_id: String },
    AccountRateLimits { workspace_id: String },
    SkillsList { workspace_id: String },
    RespondToServerRequest { workspace_id: String, request_id: u64, result: Json },
    GetGitStatus { workspace_id: String },
    GetGitDiffs { workspace_id: String },
    GetGitLog { workspace_id: String, limit: Option<u64> },
    GetGitRemote { workspace_id: String },
    GetGithubIssues { workspace_id: String },
    ListGitBranches { workspace_id: String },
    CheckoutGitBranch { workspace_id: String, name: String },
    CreateGitBranch { workspace_id: String, name: String },
}

/// The complaint about a required field: whether the parameters were an
/// object decides its wording.
pub open spec fn missing_field_msg(params: Json, key: Seq<char>) -> Seq<char> {
    if params is Obj {
        "missing or invalid `"@ + key + "`"@
    } else {
        "missing `"@ + key + "`"@
    }
}

/// Reads a required string field; a missing or non-string field is a
/// request-level error naming the field.
pub fn parse_string(params: &Json, key: &str) -> (r: Result<String, String>)
    ensures
        match r {
            Ok(s) => str_field(*params, key@) == Some(s@),
            Err(m) => str_field(*params, key@) is None && m@ == missing_field_msg(*params, key@),
        },
{
    match params {
        Json::Obj(fields) => match crate::json::obj_get(fields, key) {
            Option::Some(Json::Str(s)) => Ok(s.clone()),
            _ => {
                let mut m = String::from_str("missing or invalid `");
                m.append(key);
                m.append("`");
                Err(m)
            },
        },
        _ => {
            let mut m = String::from_str("missing `");
            m.append(key);
            m.append("`");
            Err(m)
        },
    }
}

/// Reads an optional string field; anything but a string stays silent.
pub fn parse_optional_string(params: &Json, key: &str) -> (r: Option<String>)
    ensures
        match r {
            Some(s) => str_field(*params, key@) == Some(s@),
            None => str_field(*params, key@) is None,
        },
{
    match params {
        Json::Obj(fields) => match crate::json::obj_get(fields, key) {
            Option::Some(Json::Str(s)) => Some(s.clone()),
            _ => None,
        },
        _ => None,
    }
}

/// The optional bounded count a listing accepts.
pub open spec fn u32_field(params: Json, key: Seq<char>) -> Option<u32> {
    match u64_field(params, key) {
        Some(v) => if v <= u32::MAX {
            Some(v as u32)
        } else {
            None
        },
        None => None,
    }
}

/// Reads an optional unsigned field that must fit 32 bits.
pub fn parse_optional_u32(params: &Json, key: &str) -> (r: Option<u32>)
    ensures
        r == u32_field(*params, key@),
{
    match params {
        Json::Obj(fields) => match crate::json::obj_get(fields, key) {
            Option::Some(Json::Num(JsonNum::UInt(v))) => {
                if *v <= u32::MAX as u64 {
                    Some(*v as u32)
                } else {
                    None
                }
            },
            _ => None,
        },
        _ => None,
    }
}

/// Reads an optional unsigned field.
pub fn parse_optional_u64(params: &Json, key: &str) -> (r: Option<u64>)
    ensures
        r == u64_field(*params, key@),
{
    match params {
        Json::Obj(fields) => match crate::json::obj_get(fields, key) {
            Option::Some(Json::Num(JsonNum::UInt(v))) => Some(*v),
            _ => None,
        },
        _ => None,
    }
}

/// Reads an optional boolean field.
pub fn parse_optional_bool(params: &Json, key: &str) -> (r: Option<bool>)
    ensures
        r == bool_field(*params, key@),
{
    match params {
        Json::Obj(fields) => match crate::json::obj_get(fields, key) {
            Option::Some(Json::Bool(b)) => Some(*b),
            _ => None,
        },
        _ => None,
    }
}

/// The strings among an array's elements, in order.
pub open spec fn str_items(items: Seq<Json>) -> Seq<Seq<char>>
    decreases items.len(),
{
    if items.len() == 0 {
        Seq::<Seq<char>>::empty()
    } else {
        let rest = str_items(items.drop_last());
        match items.last() {
            Json::Str(s) => rest.push(s@),
            _ => rest,
        }
    }
}

/// Reads an optional array field, keeping its string elements.
pub fn parse_optional_string_array(params: &Json, key: &str) -> (r: Option<Vec<String>>)
    ensures
        match r {
            Some(v) => (any_field(*params, key@) matches Some(j) && j matches Json::Arr(items)
                && v@.len() == str_items(items@).len()) && (any_field(*params, key@) matches Some(
                j,
            ) && j matches Json::Arr(items) && forall|k: int|
                0 <= k < v@.len() ==> (#[trigger] v@[k])@ == str_items(items@)[k]),
            None => !(any_field(*params, key@) matches Some(j) && j is Arr),
        },
{
    match params {
        Json::Obj(fields) => match crate::json::obj_get(fields, key) {
            Option::Some(Json::Arr(items)) => {
                let mut out: Vec<String> = Vec::new();
                let mut i: usize = 0;
                proof {
                    assert(items@.subrange(0, 0) =~= Seq::<Json>::empty());
                }
                while i < items.len()
                    invariant
                        i <= items@.len(),
                        out@.len() == str_items(items@.subrange(0, i as int)).len(),
                        forall|k: int|
                            0 <= k < out@.len() ==> (#[trigger] out@[k])@ == str_items(
                                items@.subrange(0, i as int),
                            )[k],
                    decreases items@.len() - i,
                {
                    let ghost pre = items@.subrange(0, i as int);
                    let ghost pre2 = items@.subrange(0, i + 1);
                    proof {
                        assert(pre2.drop_last() =~= pre);
                        assert(pre2.last() == items@[i as int]);
                    }
                    match &items[i] {
                        Json::Str(s) => {
                            out.push(s.clone());
                        },
                        _ => {},
                    }
                    i += 1;
                }
                proof {
                    assert(items@.subrange(0, items@.len() as int) =~= items@);
                }
                Some(out)
            },
            _ => None,
        },
        _ => None,
    }
}

/// Moves the value of the first binding of `key` out of an object's
/// field list.
pub fn take_field(fields: Vec<(String, Json)>, key: &str) -> (r: Option<Json>)
    ensures
        r == lookup(fields@, key@),
{
    let mut work = fields;
    let ghost orig = work@;
    let mut i: usize = 0;
    proof {
        assert(work@.subrange(0, work@.len() as int) =~= work@);
    }
    while i < work.len()
        invariant
            fields@ == orig,
            work@ == orig,
            i <= work@.len(),
            lookup(work@, key@) == lookup(work@.subrange(i as int, work@.len() as int), key@),
        decreases work@.len() - i,
    {
        let ghost rest = work@.subrange(i as int, work@.len() as int);
        proof {
            assert(rest[0] == work@[i as int]);
            assert(rest.drop_first() =~= work@.subrange(i + 1, work@.len() as int));
        }
        if crate::strutil::str_eq(work[i].0.as_str(), key) {
            proof {
                assert(lookup(rest, key@) == Some(rest[0].1));
                assert(lookup(orig, key@) == Some(orig[i as int].1));
            }
            let pair = work.remove(i);
            proof {
                assert(pair == orig[i as int]);
                assert(Option::Some(pair.1) == lookup(orig, key@));
                assert(Option::Some(pair.1) == lookup(fields@, key@));
            }
            return Option::Some(pair.1);
        }
        i += 1;
    }
    Option::None
}

/// What the `settings` parameter of a workspace-settings update decodes
/// to; an absent parameter reads like a null one and is rejected.
pub open spec fn ws_settings_param(params: Json) -> Option<WorkspaceSettings> {
    match any_field(params, "settings"@) {
        Some(j) => crate::codec::spec_decode_ws_settings(j),
        None => None,
    }
}

/// What the `settings` parameter of a process-settings update decodes to.
pub open spec fn app_settings_param(params: Json) -> Option<crate::codec::AppSettingsV> {
    match any_field(params, "settings"@) {
        Some(j) => crate::codec::spec_decode_app_settings(j),
        None => None,
    }
}

/// The method names the routing table knows.
pub open spec fn is_known_method(m: Seq<char>) -> bool {
    ||| m == "ping"@
    ||| m == "list_workspaces"@
    ||| m == "add_workspace"@
    ||| m == "add_worktree"@
    ||| m == "connect_workspace"@
    ||| m == "remove_workspace"@
    ||| m == "remove_worktree"@
    ||| m == "update_workspace_settings"@
    ||| m == "update_workspace_codex_bin"@
    ||| m == "list_workspace_files"@
    ||| m == "get_app_settings"@
    ||| m == "update_app_settings"@
    ||| m == "start_thread"@
    ||| m == "resume_thread"@
    ||| m == "list_threads"@
    ||| m == "archive_thread"@
    ||| m == "send_user_message"@
    ||| m == "turn_interrupt"@
    ||| m == "start_review"@
    ||| m == "model_list"@
    ||| m == "account_rate_limits"@
    ||| m == "skills_list"@
    ||| m == "respond_to_server_request"@
    ||| m == "get_git_status"@
    ||| m == "get_git_diffs"@
    ||| m == "get_git_log"@
    ||| m == "get_git_remote"@
    ||| m == "get_github_issues"@
    ||| m == "list_git_branches"@
    ||| m == "checkout_git_branch"@
    ||| m == "create_git_branch"@
}

/// The complaint when only the workspace id is required and absent.
pub open spec fn ws_id_err(params: Json) -> Seq<char> {
    missing_field_msg(params, "workspaceId"@)
}

/// Routes a method name and its parameters to a typed request. Unknown
/// methods and missing required fields are request-level errors; every
/// optional field falls back silently.
pub fn parse_request(method: &str, params: Json) -> (r: Result<Request, String>)
    ensures
        method@ == "ping"@ ==> (r matches Ok(q) && q is Ping),
        method@ == "list_workspaces"@ ==> (r matches Ok(q) && q is ListWorkspaces),
        method@ == "get_app_settings"@ ==> (r matches Ok(q) && q is GetAppSettings),
        method@ == "add_workspace"@ ==> (match r {
            Ok(q) => q matches Request::AddWorkspace { path, codex_bin } && str_field(
                params,
                "path"@,
            ) == Some(path@) && (match codex_bin {
                Option::Some(b) => str_field(params, "codex_bin"@) == Some(b@),
                Option::None => str_field(params, "codex_bin"@) is None,
            }),
            Err(m) => str_field(params, "path"@) is None && m@ == missing_field_msg(
                params,
                "path"@,
            ),
        }),
        method@ == "add_worktree"@ ==> (match r {
            Ok(q) => q matches Request::AddWorktree { parent_id, branch } && str_field(
                params,
                "parentId"@,
            ) == Some(parent_id@) && str_field(params, "branch"@) == Some(branch@),
            Err(m) => (str_field(params, "parentId"@) is None && m@ == missing_field_msg(
                params,
                "parentId"@,
            )) || (str_field(params, "parentId"@) is Some && str_field(params, "branch"@) is None
                && m@ == missing_field_msg(params, "branch"@)),
        }),
        method@ == "connect_workspace"@ ==> (match r {
            Ok(q) => q matches Request::ConnectWorkspace { id } && str_field(params, "id"@)
                == Some(id@),
            Err(m) => str_field(params, "id"@) is None && m@ == missing_field_msg(params, "id"@),
        }),
        method@ == "remove_workspace"@ ==> (match r {
            Ok(q) => q matches Request::RemoveWorkspace { id } && str_field(params, "id"@) == Some(
                id@,
            ),
            Err(m) => str_field(params, "id"@) is None && m@ == missing_field_msg(params, "id"@),
        }),
        method@ == "remove_worktree"@ ==> (match r {
            Ok(q) => q matches Request::RemoveWorktree { id } && str_field(params, "id"@) == Some(
                id@,
            ),
            Err(m) => str_field(params, "id"@) is None && m@ == missing_field_msg(params, "id"@),
        }),
        method@ == "update_workspace_settings"@ ==> (match r {
            Ok(q) => q matches Request::UpdateWorkspaceSettings { id, settings } && str_field(
                params,
                "id"@,
            ) == Some(id@) && ws_settings_param(params) == Some(settings),
            Err(m) => (str_field(params, "id"@) is None && m@ == missing_field_msg(
                params,
                "id"@,
            )) || (str_field(params, "id"@) is Some && ws_settings_param(params) is None && m@
                == "missing or invalid `settings`"@),
        }),
        method@ == "update_workspace_codex_bin"@ ==> (match r {
            Ok(q) => q matches Request::UpdateWorkspaceCodexBin { id, codex_bin } && str_field(
                params,
                "id"@,
            ) == Some(id@) && (match codex_bin {
                Option::Some(b) => str_field(params, "codex_bin"@) == Some(b@),
                Option::None => str_field(params, "codex_bin"@) is None,
            }),
            Err(m) => str_field(params, "id"@) is None && m@ == missing_field_msg(params, "id"@),
        }),
        method@ == "update_app_settings"@ ==> (match r {
            Ok(q) => q matches Request::UpdateAppSettings { settings }
                && app_settings_param(params) == Some(crate::codec::app_settings_v(settings)),
            Err(m) => app_settings_param(params) is None && m@
                == "missing or invalid `settings`"@,
        }),
        method@ == "list_workspace_files"@ ==> (match r {
            Ok(q) => q matches Request::ListWorkspaceFiles { workspace_id } && str_field(
                params,
                "workspaceId"@,
            ) == Some(workspace_id@),
            Err(m) => str_field(params, "workspaceId"@) is None && m@ == ws_id_err(params),
        }),
        method@ == "start_thread"@ ==> (match r {
            Ok(q) => q matches Request::StartThread { workspace_id } && str_field(
                params,
                "workspaceId"@,
            ) == Some(workspace_id@),
            Err(m) => str_field(params, "workspaceId"@) is None && m@ == ws_id_err(params),
        }),
        method@ == "resume_thread"@ ==> (match r {
            Ok(q) => q matches Request::ResumeThread { workspace_id, thread_id } && str_field(
                params,
                "workspaceId"@,
            ) == Some(workspace_id@) && str_field(params, "threadId"@) == Some(thread_id@),
            Err(m) => (str_field(params, "workspaceId"@) is None && m@ == ws_id_err(params)) || (
            str_field(params, "workspaceId"@) is Some && str_field(params, "threadId"@) is None
                && m@ == missing_field_msg(params, "threadId"@)),
        }),
        method@ == "list_threads"@ ==> (match r {
            Ok(q) => q matches Request::ListThreads { workspace_id, cursor, limit } && str_field(
                params,
                "workspaceId"@,
            ) == Some(workspace_id@) && (match cursor {
                Option::Some(c) => str_field(params, "cursor"@) == Some(c@),
                Option::None => str_field(params, "cursor"@) is None,
            }) && limit == u32_field(params, "limit"@),
            Err(m) => str_field(params, "workspaceId"@) is None && m@ == ws_id_err(params),
        }),
        method@ == "archive_thread"@ ==> (match r {
            Ok(q) => q matches Request::ArchiveThread { workspace_id, thread_id } && str_field(
                params,
                "workspaceId"@,
            ) == Some(workspace_id@) && str_field(params, "threadId"@) == Some(thread_id@),
            Err(m) => (str_field(params, "workspaceId"@) is None && m@ == ws_id_err(params)) || (
            str_field(params, "workspaceId"@) is Some && str_field(params, "threadId"@) is None
                && m@ == missing_field_msg(params, "threadId"@)),
        }),
        method@ == "send_user_message"@ ==> (match r {
            Ok(q) => q matches Request::SendUserMessage {
                workspace_id,
                thread_id,
                text,
                model,
                effort,
                access_mode,
                images,
            } && str_field(params, "workspaceId"@) == Some(workspace_id@) && str_field(
                params,
                "threadId"@,
            ) == Some(thread_id@) && str_field(params, "text"@) == Some(text@) && (match model {
                Option::Some(v) => str_field(params, "model"@) == Some(v@),
                Option::None => str_field(params, "model"@) is None,
            }) && (match effort {
                Option::Some(v) => str_field(params, "effort"@) == Some(v@),
                Option::None => str_field(params, "effort"@) is None,
            }) && (match access_mode {
                Option::Some(v) => str_field(params, "accessMode"@) == Some(v@),
                Option::None => str_field(params, "accessMode"@) is None,
            }) && (match images {
                Option::Some(v) => (any_field(params, "images"@) matches Some(j) && j matches
                    Json::Arr(items) && v@.len() == str_items(items@).len() && forall|k: int|
                    0 <= k < v@.len() ==> (#[trigger] v@[k])@ == str_items(items@)[k]),
                Option::None => !(any_field(params, "images"@) matches Some(j) && j is Arr),
            }),
            Err(m) => (str_field(params, "workspaceId"@) is None && m@ == ws_id_err(params)) || (
            str_field(params, "workspaceId"@) is Some && str_field(params, "threadId"@) is None
                && m@ == missing_field_msg(params, "threadId"@)) || (str_field(
                params,
                "workspaceId"@,
            ) is Some && str_field(params, "threadId"@) is Some && str_field(params, "text"@)
                is None && m@ == missing_field_msg(params, "text"@)),
        }),
        method@ == "turn_interrupt"@ ==> (match r {
            Ok(q) => q matches Request::TurnInterrupt { workspace_id, thread_id, turn_id }
                && str_field(params, "workspaceId"@) == Some(workspace_id@) && str_field(
                params,
                "threadId"@,
            ) == Some(thread_id@) && str_field(params, "turnId"@) == Some(turn_id@),
            Err(m) => (str_field(params, "workspaceId"@) is None && m@ == ws_id_err(params)) || (
            str_field(params, "workspaceId"@) is Some && str_field(params, "threadId"@) is None
                && m@ == missing_field_msg(params, "threadId"@)) || (str_field(
                params,
                "workspaceId"@,
            ) is Some && str_field(params, "threadId"@) is Some && str_field(params, "turnId"@)
                is None && m@ == missing_field_msg(params, "turnId"@)),
        }),
        method@ == "start_review"@ ==> (match r {
            Ok(q) => q matches Request::StartReview { workspace_id, thread_id, target, delivery }
                && str_field(params, "workspaceId"@) == Some(workspace_id@) && str_field(
                params,
                "threadId"@,
            ) == Some(thread_id@) && any_field(params, "target"@) == Some(target) && (match
                delivery {
                Option::Some(v) => str_field(params, "delivery"@) == Some(v@),
                Option::None => str_field(params, "delivery"@) is None,
            }),
            Err(m) => (str_field(params, "workspaceId"@) is None && m@ == ws_id_err(params)) || (
            str_field(params, "workspaceId"@) is Some && str_field(params, "threadId"@) is None
                && m@ == missing_field_msg(params, "threadId"@)) || (str_field(
                params,
                "workspaceId"@,
            ) is Some && str_field(params, "threadId"@) is Some && any_field(params, "target"@)
                is None && m@ == "missing `target`"@),
        }),
        method@ == "model_list"@ ==> (match r {
            Ok(q) => q matches Request::ModelList { workspace_id } && str_field(
                params,
                "workspaceId"@,
            ) == Some(workspace_id@),
            Err(m) => str_field(params, "workspaceId"@) is None && m@ == ws_id_err(params),
        }),
        method@ == "account_rate_limits"@ ==> (match r {
            Ok(q) => q matches Request::AccountRateLimits { workspace_id } && str_field(
                params,
                "workspaceId"@,
            ) == Some(workspace_id@),
            Err(m) => str_field(params, "workspaceId"@) is None && m@ == ws_id_err(params),
        }),
        method@ == "skills_list"@ ==> (match r {
            Ok(q) => q matches Request::SkillsList { workspace_id } && str_field(
                params,
                "workspaceId"@,
            ) == Some(workspace_id@),
            Err(m) => str_field(params, "workspaceId"@) is None && m@ == ws_id_err(params),
        }),
        method@ == "respond_to_server_request"@ ==> (match r {
            Ok(q) => q matches Request::RespondToServerRequest { workspace_id, request_id, result }
                && str_field(params, "workspaceId"@) == Some(workspace_id@) && u64_field(
                params,
                "requestId"@,
            ) == Some(request_id) && any_field(params, "result"@) == Some(result),
            Err(m) => (str_field(params, "workspaceId"@) is None && m@ == ws_id_err(params)) || (
            str_field(params, "workspaceId"@) is Some && u64_field(params, "requestId"@) is None
                && m@ == "missing requestId"@) || (str_field(params, "workspaceId"@) is Some
                && u64_field(params, "requestId"@) is Some && any_field(params, "result"@) is None
                && m@ == "missing `result`"@),
        }),
        method@ == "get_git_status"@ ==> (match r {
            Ok(q) => q matches Request::GetGitStatus { workspace_id } && str_field(
                params,
                "workspaceId"@,
            ) == Some(workspace_id@),
            Err(m) => str_field(params, "workspaceId"@) is None && m@ == ws_id_err(params),
        }),
        method@ == "get_git_diffs"@ ==> (match r {
            Ok(q) => q matches Request::GetGitDiffs { workspace_id } && str_field(
                params,
                "workspaceId"@,
            ) == Some(workspace_id@),
            Err(m) => str_field(params, "workspaceId"@) is None && m@ == ws_id_err(params),
        }),
        method@ == "get_git_log"@ ==> (match r {
            Ok(q) => q matches Request::GetGitLog { workspace_id, limit } && str_field(
                params,
                "workspaceId"@,
            ) == Some(workspace_id@) && limit == u64_field(params, "limit"@),
            Err(m) => str_field(params, "workspaceId"@) is None && m@ == ws_id_err(params),
        }),
        method@ == "get_git_remote"@ ==> (match r {
            Ok(q) => q matches Request::GetGitRemote { workspace_id } && str_field(
                params,
                "workspaceId"@,
            ) == Some(workspace_id@),
            Err(m) => str_field(params, "workspaceId"@) is None && m@ == ws_id_err(params),
        }),
        method@ == "get_github_issues"@ ==> (match r {
            Ok(q) => q matches Request::GetGithubIssues { workspace_id } && str_field(
                params,
                "workspaceId"@,
            ) == Some(workspace_id@),
            Err(m) => str_field(params, "workspaceId"@) is None && m@ == ws_id_err(params),
        }),
        method@ == "list_git_branches"@ ==> (match r {
            Ok(q) => q matches Request::ListGitBranches { workspace_id } && str_field(
                params,
                "workspaceId"@,
            ) == Some(workspace_id@),
            Err(m) => str_field(params, "workspaceId"@) is None && m@ == ws_id_err(params),
        }),
        method@ == "checkout_git_branch"@ ==> (match r {
            Ok(q) => q matches Request::CheckoutGitBranch { workspace_id, name } && str_field(
                params,
                "workspaceId"@,
            ) == Some(workspace_id@) && str_field(params, "name"@) == Some(name@),
            Err(m) => (str_field(params, "workspaceId"@) is None && m@ == ws_id_err(params)) || (
            str_field(params, "workspaceId"@) is Some && str_field(params, "name"@) is None && m@
                == missing_field_msg(params, "name"@)),
        }),
        method@ == "create_git_branch"@ ==> (match r {
            Ok(q) => q matches Request::CreateGitBranch { workspace_id, name } && str_field(
                params,
                "workspaceId"@,
            ) == Some(workspace_id@) && str_field(params, "name"@) == Some(name@),
            Err(m) => (str_field(params, "workspaceId"@) is None && m@ == ws_id_err(params)) || (
            str_field(params, "workspaceId"@) is Some && str_field(params, "name"@) is None && m@
                == missing_field_msg(params, "name"@)),
        }),
        !is_known_method(method@) ==> (r matches Err(m) && m@ == "unknown method: "@ + method@),
{
    proof {
        reveal_strlit("ping");
        reveal_strlit("list_workspaces");
        reveal_strlit("add_workspace");
        reveal_strlit("add_worktree");
        reveal_strlit("connect_workspace");
        reveal_strlit("remove_workspace");
        reveal_strlit("remove_worktree");
        reveal_strlit("update_workspace_settings");
        reveal_strlit("update_workspace_codex_bin");
        reveal_strlit("list_workspace_files");
        reveal_strlit("get_app_settings");
        reveal_strlit("update_app_settings");
        reveal_strlit("start_thread");
        reveal_strlit("resume_thread");
        reveal_strlit("list_threads");
        reveal_strlit("archive_thread");
        reveal_strlit("send_user_message");
        reveal_strlit("turn_interrupt");
        reveal_strlit("start_review");
        reveal_strlit("model_list");
        reveal_strlit("account_rate_limits");
        reveal_strlit("skills_list");
        reveal_strlit("respond_to_server_request");
        reveal_strlit("get_git_status");
        reveal_strlit("get_git_diffs");
        reveal_strlit("get_git_log");
        reveal_strlit("get_git_remote");
        reveal_strlit("get_github_issues");
        reveal_strlit("list_git_branches");
        reveal_strlit("checkout_git_branch");
        reveal_strlit("create_git_branch");
        assert("ping"@.len() == 4);
        assert("list_workspaces"@.len() == 15 && "list_workspaces"@[0] == 'l');
        assert("add_workspace"@.len() == 13 && "add_workspace"@[0] == 'a');
        assert("add_worktree"@.len() == 12 && "add_worktree"@[0] == 'a');
        assert("connect_workspace"@.len() == 17 && "connect_workspace"@[0] == 'c');
        assert("connect_workspace"@[1] == 'o');
        assert("remove_workspace"@.len() == 16 && "remove_workspace"@[0] == 'r');
        assert("remove_worktree"@.len() == 15 && "remove_worktree"@[0] == 'r');
        assert("update_workspace_settings"@.len() == 25 && "update_workspace_settings"@[0]
            == 'u');
        assert("update_workspace_codex_bin"@.len() == 26);
        assert("list_workspace_files"@.len() == 20);
        assert("get_app_settings"@.len() == 16 && "get_app_settings"@[0] == 'g');
        assert("update_app_settings"@.len() == 19 && "update_app_settings"@[0] == 'u');
        assert("start_thread"@.len() == 12 && "start_thread"@[0] == 's');
        assert("start_thread"@[6] == 't');
        assert("resume_thread"@.len() == 13 && "resume_thread"@[0] == 'r');
        assert("list_threads"@.len() == 12 && "list_threads"@[0] == 'l');
        assert("archive_thread"@.len() == 14 && "archive_thread"@[0] == 'a');
        assert("send_user_message"@.len() == 17 && "send_user_message"@[0] == 's');
        assert("turn_interrupt"@.len() == 14 && "turn_interrupt"@[0] == 't');
        assert("start_review"@.len() == 12 && "start_review"@[0] == 's');
        assert("start_review"@[6] == 'r');
        assert("model_list"@.len() == 10);
        assert("account_rate_limits"@.len() == 19 && "account_rate_limits"@[0] == 'a');
        assert("skills_list"@.len() == 11 && "skills_list"@[0] == 's');
        assert("respond_to_server_request"@.len() == 25 && "respond_to_server_request"@[0]
            == 'r');
        assert("get_git_status"@.len() == 14 && "get_git_status"@[0] == 'g');
        assert("get_git_status"@[8] == 's');
        assert("get_git_diffs"@.len() == 13 && "get_git_diffs"@[0] == 'g');
        assert("get_git_log"@.len() == 11 && "get_git_log"@[0] == 'g');
        assert("get_git_remote"@.len() == 14 && "get_git_remote"@[0] == 'g');
        assert("get_git_remote"@[8] == 'r');
        assert("get_github_issues"@.len() == 17 && "get_github_issues"@[0] == 'g');
        assert("list_git_branches"@.len() == 17 && "list_git_branches"@[0] == 'l');
        assert("checkout_git_branch"@.len() == 19 && "checkout_git_branch"@[0] == 'c');
        assert("create_git_branch"@.len() == 17 && "create_git_branch"@[0] == 'c');
        assert("create_git_branch"@[1] == 'r');
    }
    if crate::strutil::str_eq(method, "ping") {
        return Ok(Request::Ping);
    }
    if crate::strutil::str_eq(method, "list_workspaces") {
        return Ok(Request::ListWorkspaces);
    }
    if crate::strutil::str_eq(method, "get_app_settings") {
        return Ok(Request::GetAppSettings);
    }
    if crate::strutil::str_eq(method, "add_workspace") {
        let path = match parse_string(&params, "path") {
            Ok(v) => v,
            Err(m) => {
                return Err(m);
            },
        };
        let codex_bin = parse_optional_string(&params, "codex_bin");
        return Ok(Request::AddWorkspace { path, codex_bin });
    }
    if crate::strutil::str_eq(method, "add_worktree") {
        let parent_id = match parse_string(&params, "parentId") {
            Ok(v) => v,
            Err(m) => {
                return Err(m);
            },
        };
        let branch = match parse_string(&params, "branch") {
            Ok(v) => v,
            Err(m) => {
                return Err(m);
            },
        };
        return Ok(Request::AddWorktree { parent_id, branch });
    }
    if crate::strutil::str_eq(method, "connect_workspace") {
        let id = match parse_string(&params, "id") {
            Ok(v) => v,
            Err(m) => {
                return Err(m);
            },
        };
        return Ok(Request::ConnectWorkspace { id });
    }
    if crate::strutil::str_eq(method, "remove_workspace") {
        let id = match parse_string(&params, "id") {
            Ok(v) => v,
            Err(m) => {
                return Err(m);
            },
        };
        return Ok(Request::RemoveWorkspace { id });
    }
    if crate::strutil::str_eq(method, "remove_worktree") {
        let id = match parse_string(&params, "id") {
            Ok(v) => v,
            Err(m) => {
                return Err(m);
            },
        };
        return Ok(Request::RemoveWorktree { id });
    }
    if crate::strutil::str_eq(method, "update_workspace_settings") {
        let id = match parse_string(&params, "id") {
            Ok(v) => v,
            Err(m) => {
                return Err(m);
            },
        };
        let settings = match parse_ws_settings(&params) {
            Option::Some(s) => s,
            Option::None => {
                return Err(String::from_str("missing or invalid `settings`"));
            },
        };
        return Ok(Request::UpdateWorkspaceSettings { id, settings });
    }
    if crate::strutil::str_eq(method, "update_workspace_codex_bin") {
        let id = match parse_string(&params, "id") {
            Ok(v) => v,
            Err(m) => {
                return Err(m);
            },
        };
        let codex_bin = parse_optional_string(&params, "codex_bin");
        return Ok(Request::UpdateWorkspaceCodexBin { id, codex_bin });
    }
    if crate::strutil::str_eq(method, "update_app_settings") {
        let settings = match parse_app_settings(&params) {
            Option::Some(s) => s,
            Option::None => {
                return Err(String::from_str("missing or invalid `settings`"));
            },
        };
        return Ok(Request::UpdateAppSettings { settings });
    }
    if crate::strutil::str_eq(method, "list_workspace_files") {
        let workspace_id = match parse_string(&params, "workspaceId") {
            Ok(v) => v,
            Err(m) => {
                return Err(m);
            },
        };
        return Ok(Request::ListWorkspaceFiles { workspace_id });
    }
    if crate::strutil::str_eq(method, "start_thread") {
        let workspace_id = match parse_string(&params, "workspaceId") {
            Ok(v) => v,
            Err(m) => {
                return Err(m);
            },
        };
        return Ok(Request::StartThread { workspace_id });
    }
    if crate::strutil::str_eq(method, "resume_thread") {
        let workspace_id = match parse_string(&params, "workspaceId") {
            Ok(v) => v,
            Err(m) => {
                return Err(m);
            },
        };
        let thread_id = match parse_string(&params, "threadId") {
            Ok(v) => v,
            Err(m) => {
                return Err(m);
            },
        };
        return Ok(Request::ResumeThread { workspace_id, thread_id });
    }
    if crate::strutil::str_eq(method, "list_threads") {
        let workspace_id = match parse_string(&params, "workspaceId") {
            Ok(v) => v,
            Err(m) => {
                return Err(m);
            },
        };
        let cursor = parse_optional_string(&params, "cursor");
        let limit = parse_optional_u32(&params, "limit");
        return Ok(Request::ListThreads { workspace_id, cursor, limit });
    }
    if crate::strutil::str_eq(method, "archive_thread") {
        let workspace_id = match parse_string(&params, "workspaceId") {
            Ok(v) => v,
            Err(m) => {
                return Err(m);
            },
        };
        let thread_id = match parse_string(&params, "threadId") {
            Ok(v) => v,
            Err(m) => {
                return Err(m);
            },
        };
        return Ok(Request::ArchiveThread { workspace_id, thread_id });
    }
    if crate::strutil::str_eq(method, "send_user_message") {
        let workspace_id = match parse_string(&params, "workspaceId") {
            Ok(v) => v,
            Err(m) => {
                return Err(m);
            },
        };
        let thread_id = match parse_string(&params, "threadId") {
            Ok(v) => v,
            Err(m) => {
                return Err(m);
            },
        };
        let text = match parse_string(&params, "text") {
            Ok(v) => v,
            Err(m) => {
                return Err(m);
            },
        };
        let model = parse_optional_string(&params, "model");
        let effort = parse_optional_string(&params, "effort");
        let access_mode = parse_optional_string(&params, "accessMode");
        let images = parse_optional_string_array(&params, "images");
        return Ok(Request::SendUserMessage {
            workspace_id,
            thread_id,
            text,
            model,
            effort,
            access_mode,
            images,
        });
    }
    if crate::strutil::str_eq(method, "turn_interrupt") {
        let workspace_id = match parse_string(&params, "workspaceId") {
            Ok(v) => v,
            Err(m) => {
                return Err(m);
            },
        };
        let thread_id = match parse_string(&params, "threadId") {
            Ok(v) => v,
            Err(m) => {
                return Err(m);
            },
        };
        let turn_id = match parse_string(&params, "turnId") {
            Ok(v) => v,
            Err(m) => {
                return Err(m);
            },
        };
        return Ok(Request::TurnInterrupt { workspace_id, thread_id, turn_id });
    }
    if crate::strutil::str_eq(method, "start_review") {
        let workspace_id = match parse_string(&params, "workspaceId") {
            Ok(v) => v,
            Err(m) => {
                return Err(m);
            },
        };
        let thread_id = match parse_string(&params, "threadId") {
            Ok(v) => v,
            Err(m) => {
                return Err(m);
            },
        };
        let delivery = parse_optional_string(&params, "delivery");
        let target = match params {
            Json::Obj(fields) => match take_field(fields, "target") {
                Option::Some(t) => t,
                Option::None => {
                    return Err(String::from_str("missing `target`"));
                },
            },
            _ => {
                return Err(String::from_str("missing `target`"));
            },
        };
        return Ok(Request::StartReview { workspace_id, thread_id, target, delivery });
    }
    if crate::strutil::str_eq(method, "model_list") {
        let workspace_id = match parse_string(&params, "workspaceId") {
            Ok(v) => v,
            Err(m) => {
                return Err(m);
            },
        };
        return Ok(Request::ModelList { workspace_id });
    }
    if crate::strutil::str_eq(method, "account_rate_limits") {
        let workspace_id = match parse_string(&params, "workspaceId") {
            Ok(v) => v,
            Err(m) => {
                return Err(m);
            },
        };
        return Ok(Request::AccountRateLimits { workspace_id });
    }
    if crate::strutil::str_eq(method, "skills_list") {
        let workspace_id = match parse_string(&params, "workspaceId") {
            Ok(v) => v,
            Err(m) => {
                return Err(m);
            },
        };
        return Ok(Request::SkillsList { workspace_id });
    }
    if crate::strutil::str_eq(method, "respond_to_server_request") {
        let workspace_id = match parse_string(&params, "workspaceId") {
            Ok(v) => v,
            Err(m) => {
                return Err(m);
            },
        };
        let request_id = match parse_optional_u64(&params, "requestId") {
            Option::Some(v) => v,
            Option::None => {
                return Err(String::from_str("missing requestId"));
            },
        };
        let result = match params {
            Json::Obj(fields) => match take_field(fields, "result") {
                Option::Some(t) => t,
                Option::None => {
                    return Err(String::from_str("missing `result`"));
                },
            },
            _ => {
                return Err(String::from_str("missing `result`"));
            },
        };
        return Ok(Request::RespondToServerRequest { workspace_id, request_id, result });
    }
    if crate::strutil::str_eq(method, "get_git_status") {
        let workspace_id = match parse_string(&params, "workspaceId") {
            Ok(v) => v,
            Err(m) => {
                return Err(m);
            },
        };
        return Ok(Request::GetGitStatus { workspace_id });
    }
    if crate::strutil::str_eq(method, "get_git_diffs") {
        let workspace_id = match parse_string(&params, "workspaceId") {
            Ok(v) => v,
            Err(m) => {
                return Err(m);
            },
        };
        return Ok(Request::GetGitDiffs { workspace_id });
    }
    if crate::strutil::str_eq(method, "get_git_log") {
        let workspace_id = match parse_string(&params, "workspaceId") {
            Ok(v) => v,
            Err(m) => {
                return Err(m);
            },
        };
        let limit = parse_optional_u64(&params, "limit");
        return Ok(Request::GetGitLog { workspace_id, limit });
    }
    if crate::strutil::str_eq(method, "get_git_remote") {
        let workspace_id = match parse_string(&params, "workspaceId") {
            Ok(v) => v,
            Err(m) => {
                return Err(m);
            },
        };
        return Ok(Request::GetGitRemote { workspace_id });
    }
    if crate::strutil::str_eq(method, "get_github_issues") {
        let workspace_id = match parse_string(&params, "workspaceId") {
            Ok(v) => v,
            Err(m) => {
                return Err(m);
            },
        };
        return Ok(Request::GetGithubIssues { workspace_id });
    }
    if crate::strutil::str_eq(method, "list_git_branches") {
        let workspace_id = match parse_string(&params, "workspaceId") {
            Ok(v) => v,
            Err(m) => {
                return Err(m);
            },
        };
        return Ok(Request::ListGitBranches { workspace_id });
    }
    if crate::strutil::str_eq(method, "checkout_git_branch") {
        let workspace_id = match parse_string(&params, "workspaceId") {
            Ok(v) => v,
            Err(m) => {
                return Err(m);
            },
        };
        let name = match parse_string(&params, "name") {
            Ok(v) => v,
            Err(m) => {
                return Err(m);
            },
        };
        return Ok(Request::CheckoutGitBranch { workspace_id, name });
    }
    if crate::strutil::str_eq(method, "create_git_branch") {
        let workspace_id = match parse_string(&params, "workspaceId") {
            Ok(v) => v,
            Err(m) => {
                return Err(m);
            },
        };
        let name = match parse_string(&params, "name") {
            Ok(v) => v,
            Err(m) => {
                return Err(m);
            },
        };
        return Ok(Request::CreateGitBranch { workspace_id, name });
    }
    let mut m = String::from_str("unknown method: ");
    m.append(method);
    Err(m)
}

/// The shape of an error reply: the request id and a message, or no
/// reply at all for a request that carried no id.
pub open spec fn error_reply_matches(resp: Option<Json>, id: Option<u64>, m: Seq<char>) -> bool {
    match id {
        Option::None => resp is None,
        Option::Some(i) => {
            &&& resp matches Some(j)
            &&& j matches Json::Obj(f)
            &&& f@.len() == 2
            &&& f@[0].0@ == "id"@
            &&& f@[0].1 matches Json::Num(n) && n == JsonNum::UInt(i)
            &&& f@[1].0@ == "error"@
            &&& f@[1].1 matches Json::Obj(e)
            &&& e@.len() == 1
            &&& e@[0].0@ == "message"@
            &&& e@[0].1 matches Json::Str(s) && s@ == m
        },
    }
}

/// The shape of a result reply: the request id and the operation's
/// result, or no reply at all for a request that carried no id.
pub open spec fn result_reply_matches(resp: Option<Json>, id: Option<u64>, result: Json) -> bool {
    match id {
        Option::None => resp is None,
        Option::Some(i) => {
            &&& resp matches Some(j)
            &&& j matches Json::Obj(f)
            &&& f@.len() == 2
            &&& f@[0].0@ == "id"@
            &&& f@[0].1 matches Json::Num(n) && n == JsonNum::UInt(i)
            &&& f@[1].0@ == "result"@
            &&& f@[1].1 == result
        },
    }
}

/// The shape of the plain-acknowledgement reply.
pub open spec fn ok_reply_matches(resp: Option<Json>, id: Option<u64>) -> bool {
    match id {
        Option::None => resp is None,
        Option::Some(i) => {
            &&& resp matches Some(j)
            &&& j matches Json::Obj(f)
            &&& f@.len() == 2
            &&& f@[0].0@ == "id"@
            &&& f@[0].1 matches Json::Num(n) && n == JsonNum::UInt(i)
            &&& f@[1].0@ == "result"@
            &&& f@[1].1 matches Json::Obj(ok)
            &&& ok@.len() == 1
            &&& ok@[0].0@ == "ok"@
            &&& ok@[0].1 matches Json::Bool(b) && b == true
        },
    }
}

/// Frames an error reply; a request without an id gets none.
pub fn build_error_response(id: Option<u64>, message: &str) -> (r: Option<Json>)
    ensures
        error_reply_matches(r, id, message@),
{
    match id {
        Option::Some(i) => {
            let mut e: Vec<(String, Json)> = Vec::new();
            e.push((String::from_str("message"), Json::Str(String::from_str(message))));
            let mut f: Vec<(String, Json)> = Vec::new();
            f.push((String::from_str("id"), Json::Num(JsonNum::UInt(i))));
            f.push((String::from_str("error"), Json::Obj(e)));
            Option::Some(Json::Obj(f))
        },
        Option::None => Option::None,
    }
}

/// Frames a result reply; a request without an id gets none.
pub fn build_result_response(id: Option<u64>, result: Json) -> (r: Option<Json>)
    ensures
        result_reply_matches(r, id, result),
{
    match id {
        Option::Some(i) => {
            let mut f: Vec<(String, Json)> = Vec::new();
            f.push((String::from_str("id"), Json::Num(JsonNum::UInt(i))));
            f.push((String::from_str("result"), result));
            Option::Some(Json::Obj(f))
        },
        Option::None => Option::None,
    }
}

/// The plain acknowledgement several operations reply with.
pub fn ok_result() -> (r: Json)
    ensures
        r matches Json::Obj(f) && f@.len() == 1 && f@[0].0@ == "ok"@ && (f@[0].1 matches
            Json::Bool(b) && b == true),
{
    let mut f: Vec<(String, Json)> = Vec::new();
    f.push((String::from_str("ok"), Json::Bool(true)));
    Json::Obj(f)
}

fn parse_ws_settings(params: &Json) -> (r: Option<WorkspaceSettings>)
    ensures
        r == ws_settings_param(*params),
{
    match params {
        Json::Obj(fields) => match crate::json::obj_get(fields, "settings") {
            Option::Some(j) => crate::codec::decode_ws_settings(j),
            Option::None => Option::None,
        },
        _ => Option::None,
    }
}

fn parse_app_settings(params: &Json) -> (r: Option<AppSettings>)
    ensures
        r is Some <==> app_settings_param(*params) is Some,
        r matches Some(a) ==> crate::codec::app_settings_v(a) == app_settings_param(
            *params,
        )->Some_0,
{
    match params {
        Json::Obj(fields) => match crate::json::obj_get(fields, "settings") {
            Option::Some(j) => crate::codec::decode_app_settings(j),
            Option::None => Option::None,
        },
        _ => Option::None,
    }
}

} // verus!
