use vstd::prelude::*;
use crate::json::{Json, JsonNum, lookup};
use crate::model::{
    AppSettings, BackendMode, WorkspaceEntry, WorkspaceKind, WorkspaceSettings, WorktreeInfo,
    UI_SCALE_ONE_BITS,
};

verus! {

// ---------------------------------------------------------------------------
// The persisted form.
//
// Workspace entries and settings are written out as JSON objects with fixed
// keys, and read back tolerantly: optional keys fall back to their defaults,
// a present key of the wrong shape makes the whole document unreadable.
// ---------------------------------------------------------------------------

/// Resolves a lookup when the key stands at position `i` and nowhere
/// earlier.
pub proof fn lemma_lookup_at(f: Seq<(String, Json)>, i: int, key: Seq<char>)
    requires
        0 <= i < f.len(),
        f[i].0@ == key,
        forall|j: int| 0 <= j < i ==> f[j].0@ != key,
    ensures
        lookup(f, key) == Some(f[i].1),
    decreases i,
{
    if i > 0 {
        lemma_lookup_at(f.drop_first(), i - 1, key);
        assert(f.drop_first()[i - 1] == f[i]);
        assert(forall|j: int| 0 <= j < i - 1 ==> f.drop_first()[j] == f[j + 1]);
    }
}

/// The character-level image of an entry or settings value.
pub ghost struct EntryV {
    pub id: Seq<char>,
    pub name: Seq<char>,
    pub path: Seq<char>,
    pub codex_bin: Option<Seq<char>>,
    pub kind: WorkspaceKind,
    pub parent_id: Option<Seq<char>>,
    pub worktree_branch: Option<Seq<char>>,
    pub settings: WorkspaceSettings,
}

pub open spec fn opt_str_v(s: Option<String>) -> Option<Seq<char>> {
    match s {
        Option::Some(x) => Option::Some(x@),
        Option::None => Option::None,
    }
}

pub open spec fn entry_v(e: WorkspaceEntry) -> EntryV {
    EntryV {
        id: e.id@,
        name: e.name@,
        path: e.path@,
        codex_bin: opt_str_v(e.codex_bin),
        kind: e.kind,
        parent_id: opt_str_v(e.parent_id),
        worktree_branch: match e.worktree {
            Option::Some(w) => Option::Some(w.branch@),
            Option::None => Option::None,
        },
        settings: e.settings,
    }
}

pub ghost struct AppSettingsV {
    pub codex_bin: Option<Seq<char>>,
    pub backend_mode: BackendMode,
    pub remote_backend_host: Seq<char>,
    pub remote_backend_token: Option<Seq<char>>,
    pub default_access_mode: Seq<char>,
    pub ui_scale: JsonNum,
    pub notification_sounds_enabled: bool,
}

pub open spec fn app_settings_v(a: AppSettings) -> AppSettingsV {
    AppSettingsV {
        codex_bin: opt_str_v(a.codex_bin),
        backend_mode: a.backend_mode,
        remote_backend_host: a.remote_backend_host@,
        remote_backend_token: opt_str_v(a.remote_backend_token),
        default_access_mode: a.default_access_mode@,
        ui_scale: a.ui_scale,
        notification_sounds_enabled: a.notification_sounds_enabled,
    }
}

// ---------------------------------------------------------------------------
// Field readers: what one bound (or absent) key decodes to.
// ---------------------------------------------------------------------------

/// A key that must be bound to a string.
pub open spec fn dec_req_str(v: Option<Json>) -> Option<Seq<char>> {
    match v {
        Some(Json::Str(s)) => Some(s@),
        _ => None,
    }
}

/// A key that may be absent, null, or a string.
pub open spec fn dec_opt_str(v: Option<Json>) -> Option<Option<Seq<char>>> {
    match v {
        None => Some(Option::None),
        Some(Json::Null) => Some(Option::None),
        Some(Json::Str(s)) => Some(Option::Some(s@)),
        _ => None,
    }
}

/// A key that may be absent or a boolean; absent means `d`.
pub open spec fn dec_bool_default(v: Option<Json>, d: bool) -> Option<bool> {
    match v {
        None => Some(d),
        Some(Json::Bool(b)) => Some(b),
        _ => None,
    }
}

/// A key that may be absent or a string; absent means `d`.
pub open spec fn dec_str_default(v: Option<Json>, d: Seq<char>) -> Option<Seq<char>> {
    match v {
        None => Some(d),
        Some(Json::Str(s)) => Some(s@),
        _ => None,
    }
}

/// A key that may be absent or a number; absent means `d`.
pub open spec fn dec_num_default(v: Option<Json>, d: JsonNum) -> Option<JsonNum> {
    match v {
        None => Some(d),
        Some(Json::Num(n)) => Some(n),
        _ => None,
    }
}

/// A key that may be absent, null, or an unsigned number that fits `u32`.
pub open spec fn dec_opt_u32(v: Option<Json>) -> Option<Option<u32>> {
    match v {
        None => Some(Option::None),
        Some(Json::Null) => Some(Option::None),
        Some(Json::Num(JsonNum::UInt(n))) => if n <= u32::MAX {
            Some(Option::Some(n as u32))
        } else {
            None
        },
        _ => None,
    }
}

/// A key that may be absent (a plain checkout) or name a workspace kind.
pub open spec fn dec_kind(v: Option<Json>) -> Option<WorkspaceKind> {
    match v {
        None => Some(WorkspaceKind::Main),
        Some(Json::Str(s)) => if s@ == "main"@ {
            Some(WorkspaceKind::Main)
        } else if s@ == "worktree"@ {
            Some(WorkspaceKind::Worktree)
        } else {
            None
        },
        _ => None,
    }
}

/// A key that may be absent, null, or the worktree metadata object.
pub open spec fn dec_worktree(v: Option<Json>) -> Option<Option<Seq<char>>> {
    match v {
        None => Some(Option::None),
        Some(Json::Null) => Some(Option::None),
        Some(Json::Obj(f)) => match lookup(f@, "branch"@) {
            Some(Json::Str(s)) => Some(Option::Some(s@)),
            _ => None,
        },
        _ => None,
    }
}

// ---------------------------------------------------------------------------
// Whole-document readers.
// ---------------------------------------------------------------------------

/// What a per-workspace settings document decodes to.
pub open spec fn spec_decode_ws_settings(j: Json) -> Option<WorkspaceSettings> {
    match j {
        Json::Obj(f) => {
            let sc = dec_bool_default(lookup(f@, "sidebarCollapsed"@), false);
            let so = dec_opt_u32(lookup(f@, "sortOrder"@));
            if sc is Some && so is Some {
                Some(WorkspaceSettings { sidebar_collapsed: sc->Some_0, sort_order: so->Some_0 })
            } else {
                None
            }
        },
        _ => None,
    }
}

/// The settings named by the `settings` key of an entry document; an
/// absent key means the defaults.
pub open spec fn dec_settings_field(v: Option<Json>) -> Option<WorkspaceSettings> {
    match v {
        None => Some(WorkspaceSettings { sidebar_collapsed: false, sort_order: Option::None }),
        Some(j) => spec_decode_ws_settings(j),
    }
}

/// What a workspace entry document decodes to.
pub open spec fn spec_decode_entry(j: Json) -> Option<EntryV> {
    match j {
        Json::Obj(f) => {
            let id = dec_req_str(lookup(f@, "id"@));
            let name = dec_req_str(lookup(f@, "name"@));
            let path = dec_req_str(lookup(f@, "path"@));
            let codex_bin = dec_opt_str(lookup(f@, "codex_bin"@));
            let kind = dec_kind(lookup(f@, "kind"@));
            let parent_id = dec_opt_str(lookup(f@, "parentId"@));
            let worktree_branch = dec_worktree(lookup(f@, "worktree"@));
            let settings = dec_settings_field(lookup(f@, "settings"@));
            if id is Some && name is Some && path is Some && codex_bin is Some && kind is Some
                && parent_id is Some && worktree_branch is Some && settings is Some {
                Some(EntryV {
                    id: id->Some_0,
                    name: name->Some_0,
                    path: path->Some_0,
                    codex_bin: codex_bin->Some_0,
                    kind: kind->Some_0,
                    parent_id: parent_id->Some_0,
                    worktree_branch: worktree_branch->Some_0,
                    settings: settings->Some_0,
                })
            } else {
                None
            }
        },
        _ => None,
    }
}

/// What a process-settings document decodes to.
pub open spec fn spec_decode_app_settings(j: Json) -> Option<AppSettingsV> {
    match j {
        Json::Obj(f) => {
            let codex_bin = dec_opt_str(lookup(f@, "codexBin"@));
            let backend_mode = match lookup(f@, "backendMode"@) {
                None => Some(BackendMode::Local),
                Some(Json::Str(s)) => if s@ == "local"@ {
                    Some(BackendMode::Local)
                } else if s@ == "remote"@ {
                    Some(BackendMode::Remote)
                } else {
                    None
                },
                _ => None,
            };
            let host = dec_str_default(lookup(f@, "remoteBackendHost"@), "127.0.0.1:4732"@);
            let token = dec_opt_str(lookup(f@, "remoteBackendToken"@));
            let access = dec_str_default(lookup(f@, "defaultAccessMode"@), "current"@);
            let scale = dec_num_default(lookup(f@, "uiScale"@), JsonNum::Bits(UI_SCALE_ONE_BITS));
            let sounds = dec_bool_default(lookup(f@, "notificationSoundsEnabled"@), true);
            if codex_bin is Some && backend_mode is Some && host is Some && token is Some
                && access is Some && scale is Some && sounds is Some {
                Some(AppSettingsV {
                    codex_bin: codex_bin->Some_0,
                    backend_mode: backend_mode->Some_0,
                    remote_backend_host: host->Some_0,
                    remote_backend_token: token->Some_0,
                    default_access_mode: access->Some_0,
                    ui_scale: scale->Some_0,
                    notification_sounds_enabled: sounds->Some_0,
                })
            } else {
                None
            }
        },
        _ => None,
    }
}

// ---------------------------------------------------------------------------
// What the writers produce.
// ---------------------------------------------------------------------------

pub open spec fn json_is_str(j: Json, s: Seq<char>) -> bool {
    j matches Json::Str(x) && x@ == s
}

pub open spec fn json_opt_str(j: Json, v: Option<Seq<char>>) -> bool {
    match v {
        Option::None => j is Null,
        Option::Some(s) => json_is_str(j, s),
    }
}

pub open spec fn kind_text(k: WorkspaceKind) -> Seq<char> {
    if k is Worktree {
        "worktree"@
    } else {
        "main"@
    }
}

/// The exact object a per-workspace settings value is written as.
pub open spec fn ws_settings_json_matches(j: Json, s: WorkspaceSettings) -> bool {
    &&& j matches Json::Obj(f)
    &&& f@.len() == 2
    &&& f@[0].0@ == "sidebarCollapsed"@
    &&& f@[0].1 matches Json::Bool(b) && b == s.sidebar_collapsed
    &&& f@[1].0@ == "sortOrder"@
    &&& match s.sort_order {
        Option::None => f@[1].1 is Null,
        Option::Some(n) => f@[1].1 matches Json::Num(m) && m == JsonNum::UInt(n as u64),
    }
}

/// The exact object a workspace entry is written as.
pub open spec fn entry_json_matches(j: Json, e: WorkspaceEntry) -> bool {
    &&& j matches Json::Obj(f)
    &&& f@.len() == 8
    &&& f@[0].0@ == "id"@ && json_is_str(f@[0].1, e.id@)
    &&& f@[1].0@ == "name"@ && json_is_str(f@[1].1, e.name@)
    &&& f@[2].0@ == "path"@ && json_is_str(f@[2].1, e.path@)
    &&& f@[3].0@ == "codex_bin"@ && json_opt_str(f@[3].1, opt_str_v(e.codex_bin))
    &&& f@[4].0@ == "kind"@ && json_is_str(f@[4].1, kind_text(e.kind))
    &&& f@[5].0@ == "parentId"@ && json_opt_str(f@[5].1, opt_str_v(e.parent_id))
    &&& f@[6].0@ == "worktree"@
    &&& match e.worktree {
        Option::None => f@[6].1 is Null,
        Option::Some(w) => {
            &&& f@[6].1 matches Json::Obj(wf)
            &&& wf@.len() == 1
            &&& wf@[0].0@ == "branch"@
            &&& json_is_str(wf@[0].1, w.branch@)
        },
    }
    &&& f@[7].0@ == "settings"@ && ws_settings_json_matches(f@[7].1, e.settings)
}

/// The exact object the process settings are written as.
pub open spec fn app_settings_json_matches(j: Json, a: AppSettings) -> bool {
    &&& j matches Json::Obj(f)
    &&& f@.len() == 7
    &&& f@[0].0@ == "codexBin"@ && json_opt_str(f@[0].1, opt_str_v(a.codex_bin))
    &&& f@[1].0@ == "backendMode"@ && json_is_str(
        f@[1].1,
        if a.backend_mode is Remote {
            "remote"@
        } else {
            "local"@
        },
    )
    &&& f@[2].0@ == "remoteBackendHost"@ && json_is_str(f@[2].1, a.remote_backend_host@)
    &&& f@[3].0@ == "remoteBackendToken"@ && json_opt_str(f@[3].1, opt_str_v(a.remote_backend_token))
    &&& f@[4].0@ == "defaultAccessMode"@ && json_is_str(f@[4].1, a.default_access_mode@)
    &&& f@[5].0@ == "uiScale"@
    &&& f@[5].1 matches Json::Num(n) && n == a.ui_scale
    &&& f@[6].0@ == "notificationSoundsEnabled"@
    &&& f@[6].1 matches Json::Bool(b) && b == a.notification_sounds_enabled
}

// ---------------------------------------------------------------------------
// Writers.
// ---------------------------------------------------------------------------

fn opt_str_json(v: &Option<String>) -> (r: Json)
    ensures
        json_opt_str(r, opt_str_v(*v)),
{
    match v {
        Option::Some(s) => Json::Str(s.clone()),
        Option::None => Json::Null,
    }
}

/// Writes per-workspace settings in the persisted form.
pub fn encode_ws_settings(s: &WorkspaceSettings) -> (r: Json)
    ensures
        ws_settings_json_matches(r, *s),
{
    let mut f: Vec<(String, Json)> = Vec::new();
    f.push((String::from_str("sidebarCollapsed"), Json::Bool(s.sidebar_collapsed)));
    let so = match s.sort_order {
        Option::Some(n) => Json::Num(JsonNum::UInt(n as u64)),
        Option::None => Json::Null,
    };
    f.push((String::from_str("sortOrder"), so));
    Json::Obj(f)
}

/// Writes a workspace entry in the persisted form.
pub fn encode_entry(e: &WorkspaceEntry) -> (r: Json)
    ensures
        entry_json_matches(r, *e),
{
    let mut f: Vec<(String, Json)> = Vec::new();
    f.push((String::from_str("id"), Json::Str(e.id.clone())));
    f.push((String::from_str("name"), Json::Str(e.name.clone())));
    f.push((String::from_str("path"), Json::Str(e.path.clone())));
    f.push((String::from_str("codex_bin"), opt_str_json(&e.codex_bin)));
    let kind = if e.kind.is_worktree() {
        Json::Str(String::from_str("worktree"))
    } else {
        Json::Str(String::from_str("main"))
    };
    f.push((String::from_str("kind"), kind));
    f.push((String::from_str("parentId"), opt_str_json(&e.parent_id)));
    let worktree = match &e.worktree {
        Option::Some(w) => {
            let mut wf: Vec<(String, Json)> = Vec::new();
            wf.push((String::from_str("branch"), Json::Str(w.branch.clone())));
            Json::Obj(wf)
        },
        Option::None => Json::Null,
    };
    f.push((String::from_str("worktree"), worktree));
    f.push((String::from_str("settings"), encode_ws_settings(&e.settings)));
    Json::Obj(f)
}

/// Writes the process settings in the persisted form.
pub fn encode_app_settings(a: &AppSettings) -> (r: Json)
    ensures
        app_settings_json_matches(r, *a),
{
    let mut f: Vec<(String, Json)> = Vec::new();
    f.push((String::from_str("codexBin"), opt_str_json(&a.codex_bin)));
    let mode = match a.backend_mode {
        BackendMode::Remote => Json::Str(String::from_str("remote")),
        BackendMode::Local => Json::Str(String::from_str("local")),
    };
    f.push((String::from_str("backendMode"), mode));
    f.push((String::from_str("remoteBackendHost"), Json::Str(a.remote_backend_host.clone())));
    f.push((String::from_str("remoteBackendToken"), opt_str_json(&a.remote_backend_token)));
    f.push((String::from_str("defaultAccessMode"), Json::Str(a.default_access_mode.clone())));
    f.push((String::from_str("uiScale"), Json::Num(a.ui_scale)));
    f.push((String::from_str("notificationSoundsEnabled"), Json::Bool(a.notification_sounds_enabled)));
    Json::Obj(f)
}

/// Writes the whole workspace list in the persisted form.
pub fn encode_entry_list(entries: &Vec<WorkspaceEntry>) -> (r: Json)
    ensures
        r is Arr,
        r->Arr_0@.len() == entries@.len(),
        forall|i: int|
            0 <= i < entries@.len() ==> entry_json_matches(#[trigger] r->Arr_0@[i], entries@[i]),
{
    let mut items: Vec<Json> = Vec::new();
    let mut i: usize = 0;
    while i < entries.len()
        invariant
            i <= entries@.len(),
            items@.len() == i,
            forall|k: int| 0 <= k < i ==> entry_json_matches(#[trigger] items@[k], entries@[k]),
        decreases entries@.len() - i,
    {
        items.push(encode_entry(&entries[i]));
        i += 1;
    }
    Json::Arr(items)
}

// ---------------------------------------------------------------------------
// Readers.
// ---------------------------------------------------------------------------

/// Reads per-workspace settings, applying the defaults for absent keys.
pub fn decode_ws_settings(j: &Json) -> (r: Option<WorkspaceSettings>)
    ensures
        r == spec_decode_ws_settings(*j),
{
    match j {
        Json::Obj(f) => {
            let sidebar_collapsed: bool;
            match crate::json::obj_get(f, "sidebarCollapsed") {
                Option::None => {
                    sidebar_collapsed = false;
                },
                Option::Some(Json::Bool(b)) => {
                    sidebar_collapsed = *b;
                },
                _ => {
                    return Option::None;
                },
            }
            let sort_order: Option<u32>;
            match crate::json::obj_get(f, "sortOrder") {
                Option::None => {
                    sort_order = Option::None;
                },
                Option::Some(Json::Null) => {
                    sort_order = Option::None;
                },
                Option::Some(Json::Num(JsonNum::UInt(n))) => {
                    if *n <= u32::MAX as u64 {
                        sort_order = Option::Some(*n as u32);
                    } else {
                        return Option::None;
                    }
                },
                _ => {
                    return Option::None;
                },
            }
            Option::Some(WorkspaceSettings { sidebar_collapsed, sort_order })
        },
        _ => Option::None,
    }
}

fn decode_opt_str_field(v: Option<&Json>) -> (r: Option<Option<String>>)
    ensures
        match r {
            Option::Some(s) => dec_opt_str(match v {
                Option::Some(x) => Option::Some(*x),
                Option::None => Option::None,
            }) == Option::Some(opt_str_v(s)),
            Option::None => dec_opt_str(match v {
                Option::Some(x) => Option::Some(*x),
                Option::None => Option::None,
            }) is None,
        },
{
    match v {
        Option::None => Option::Some(Option::None),
        Option::Some(Json::Null) => Option::Some(Option::None),
        Option::Some(Json::Str(s)) => Option::Some(Option::Some(s.clone())),
        _ => Option::None,
    }
}

/// Reads a workspace entry, applying the defaults for absent keys.
pub fn decode_entry(j: &Json) -> (r: Option<WorkspaceEntry>)
    ensures
        r is Some <==> spec_decode_entry(*j) is Some,
        r matches Some(e) ==> entry_v(e) == spec_decode_entry(*j)->Some_0,
{
    match j {
        Json::Obj(f) => {
            let id = match crate::json::obj_get(f, "id") {
                Option::Some(Json::Str(s)) => s.clone(),
                _ => {
                    return Option::None;
                },
            };
            let name = match crate::json::obj_get(f, "name") {
                Option::Some(Json::Str(s)) => s.clone(),
                _ => {
                    return Option::None;
                },
            };
            let path = match crate::json::obj_get(f, "path") {
                Option::Some(Json::Str(s)) => s.clone(),
                _ => {
                    return Option::None;
                },
            };
            let codex_bin = match decode_opt_str_field(crate::json::obj_get(f, "codex_bin")) {
                Option::Some(v) => v,
                Option::None => {
                    return Option::None;
                },
            };
            let kind = match crate::json::obj_get(f, "kind") {
                Option::None => WorkspaceKind::Main,
                Option::Some(Json::Str(s)) => {
                    if crate::strutil::str_eq(s.as_str(), "main") {
                        WorkspaceKind::Main
                    } else if crate::strutil::str_eq(s.as_str(), "worktree") {
                        WorkspaceKind::Worktree
                    } else {
                        return Option::None;
                    }
                },
                _ => {
                    return Option::None;
                },
            };
            let parent_id = match decode_opt_str_field(crate::json::obj_get(f, "parentId")) {
                Option::Some(v) => v,
                Option::None => {
                    return Option::None;
                },
            };
            let worktree = match crate::json::obj_get(f, "worktree") {
                Option::None => Option::None,
                Option::Some(Json::Null) => Option::None,
                Option::Some(Json::Obj(wf)) => match crate::json::obj_get(wf, "branch") {
                    Option::Some(Json::Str(s)) => Option::Some(WorktreeInfo { branch: s.clone() }),
                    _ => {
                        return Option::None;
                    },
                },
                _ => {
                    return Option::None;
                },
            };
            let settings = match crate::json::obj_get(f, "settings") {
                Option::None => WorkspaceSettings { sidebar_collapsed: false, sort_order: Option::None },
                Option::Some(js) => match decode_ws_settings(js) {
                    Option::Some(s) => s,
                    Option::None => {
                        return Option::None;
                    },
                },
            };
            Option::Some(WorkspaceEntry { id, name, path, codex_bin, kind, parent_id, worktree, settings })
        },
        _ => Option::None,
    }
}

/// Reads the process settings, applying the defaults for absent keys.
pub fn decode_app_settings(j: &Json) -> (r: Option<AppSettings>)
    ensures
        r is Some <==> spec_decode_app_settings(*j) is Some,
        r matches Some(a) ==> app_settings_v(a) == spec_decode_app_settings(*j)->Some_0,
{
    match j {
        Json::Obj(f) => {
            let codex_bin = match decode_opt_str_field(crate::json::obj_get(f, "codexBin")) {
                Option::Some(v) => v,
                Option::None => {
                    return Option::None;
                },
            };
            let backend_mode = match crate::json::obj_get(f, "backendMode") {
                Option::None => BackendMode::Local,
                Option::Some(Json::Str(s)) => {
                    if crate::strutil::str_eq(s.as_str(), "local") {
                        BackendMode::Local
                    } else if crate::strutil::str_eq(s.as_str(), "remote") {
                        BackendMode::Remote
                    } else {
                        return Option::None;
                    }
                },
                _ => {
                    return Option::None;
                },
            };
            let remote_backend_host = match crate::json::obj_get(f, "remoteBackendHost") {
                Option::None => crate::model::default_remote_backend_host(),
                Option::Some(Json::Str(s)) => s.clone(),
                _ => {
                    return Option::None;
                },
            };
            let remote_backend_token = match decode_opt_str_field(
                crate::json::obj_get(f, "remoteBackendToken"),
            ) {
                Option::Some(v) => v,
                Option::None => {
                    return Option::None;
                },
            };
            let default_access_mode = match crate::json::obj_get(f, "defaultAccessMode") {
                Option::None => crate::model::default_access_mode(),
                Option::Some(Json::Str(s)) => s.clone(),
                _ => {
                    return Option::None;
                },
            };
            let ui_scale = match crate::json::obj_get(f, "uiScale") {
                Option::None => JsonNum::Bits(UI_SCALE_ONE_BITS),
                Option::Some(Json::Num(n)) => *n,
                _ => {
                    return Option::None;
                },
            };
            let notification_sounds_enabled = match crate::json::obj_get(
                f,
                "notificationSoundsEnabled",
            ) {
                Option::None => true,
                Option::Some(Json::Bool(b)) => *b,
                _ => {
                    return Option::None;
                },
            };
            Option::Some(AppSettings {
                codex_bin,
                backend_mode,
                remote_backend_host,
                remote_backend_token,
                default_access_mode,
                ui_scale,
                notification_sounds_enabled,
            })
        },
        _ => Option::None,
    }
}

/// True when every element of the array reads back as an entry.
pub open spec fn list_decodes(j: Json) -> bool {
    &&& j is Arr
    &&& forall|i: int|
        0 <= i < j->Arr_0@.len() ==> spec_decode_entry(#[trigger] j->Arr_0@[i]) is Some
}

/// Reads the whole workspace list.
pub fn decode_entry_list(j: &Json) -> (r: Option<Vec<WorkspaceEntry>>)
    ensures
        r is Some <==> list_decodes(*j),
        r matches Some(v) ==> {
            &&& v@.len() == j->Arr_0@.len()
            &&& forall|i: int|
                0 <= i < v@.len() ==> entry_v(#[trigger] v@[i]) == spec_decode_entry(
                    j->Arr_0@[i],
                )->Some_0
        },
{
    match j {
        Json::Arr(items) => {
            proof {
                assert(*j == Json::Arr(*items));
            }
            let mut out: Vec<WorkspaceEntry> = Vec::new();
            let mut i: usize = 0;
            while i < items.len()
                invariant
                    *j == Json::Arr(*items),
                    i <= items@.len(),
                    out@.len() == i,
                    forall|k: int| 0 <= k < i ==> spec_decode_entry(#[trigger] items@[k]) is Some,
                    forall|k: int|
                        0 <= k < i ==> entry_v(#[trigger] out@[k]) == spec_decode_entry(
                            items@[k],
                        )->Some_0,
                decreases items@.len() - i,
            {
                match decode_entry(&items[i]) {
                    Option::Some(e) => {
                        out.push(e);
                    },
                    Option::None => {
                        assert(spec_decode_entry(j->Arr_0@[i as int]) is None);
                        return Option::None;
                    },
                }
                i += 1;
            }
            Option::Some(out)
        },
        _ => Option::None,
    }
}

// ---------------------------------------------------------------------------
// Round trips: anything written in the persisted form reads back
// field-equal, defaults included.
// ---------------------------------------------------------------------------

/// Per-workspace settings written out and read back are field-equal.
pub proof fn lemma_ws_settings_round_trip(s: WorkspaceSettings, j: Json)
    requires
        ws_settings_json_matches(j, s),
    ensures
        spec_decode_ws_settings(j) == Some(s),
{
    let f = j->Obj_0;
    reveal_strlit("sidebarCollapsed");
    reveal_strlit("sortOrder");
    assert("sidebarCollapsed"@.len() == 16);
    assert("sortOrder"@.len() == 9);
    lemma_lookup_at(f@, 0, "sidebarCollapsed"@);
    lemma_lookup_at(f@, 1, "sortOrder"@);
}

/// A workspace entry written out and read back is field-equal.
pub proof fn lemma_entry_round_trip(e: WorkspaceEntry, j: Json)
    requires
        entry_json_matches(j, e),
    ensures
        spec_decode_entry(j) == Some(entry_v(e)),
{
    let f = j->Obj_0;
    reveal_strlit("id");
    reveal_strlit("name");
    reveal_strlit("path");
    reveal_strlit("codex_bin");
    reveal_strlit("kind");
    reveal_strlit("parentId");
    reveal_strlit("worktree");
    reveal_strlit("settings");
    reveal_strlit("branch");
    reveal_strlit("main");
    assert("main"@.len() == 4);
    assert("main"@[0] == 'm');
    assert("id"@.len() == 2);
    assert("name"@.len() == 4);
    assert("path"@.len() == 4);
    assert("codex_bin"@.len() == 9);
    assert("kind"@.len() == 4);
    assert("parentId"@.len() == 8);
    assert("worktree"@.len() == 8);
    assert("settings"@.len() == 8);
    assert("name"@[0] == 'n' && "path"@[0] == 'p' && "kind"@[0] == 'k');
    assert("parentId"@[0] == 'p' && "worktree"@[0] == 'w' && "settings"@[0] == 's');
    lemma_lookup_at(f@, 0, "id"@);
    lemma_lookup_at(f@, 1, "name"@);
    lemma_lookup_at(f@, 2, "path"@);
    lemma_lookup_at(f@, 3, "codex_bin"@);
    lemma_lookup_at(f@, 4, "kind"@);
    lemma_lookup_at(f@, 5, "parentId"@);
    lemma_lookup_at(f@, 6, "worktree"@);
    lemma_lookup_at(f@, 7, "settings"@);
    match e.worktree {
        Option::Some(w) => {
            let wf = f@[6].1->Obj_0;
            lemma_lookup_at(wf@, 0, "branch"@);
        },
        Option::None => {},
    }
    lemma_ws_settings_round_trip(e.settings, f@[7].1);
}

/// The process settings written out and read back are field-equal.
pub proof fn lemma_app_settings_round_trip(a: AppSettings, j: Json)
    requires
        app_settings_json_matches(j, a),
    ensures
        spec_decode_app_settings(j) == Some(app_settings_v(a)),
{
    let f = j->Obj_0;
    reveal_strlit("codexBin");
    reveal_strlit("backendMode");
    reveal_strlit("remoteBackendHost");
    reveal_strlit("remoteBackendToken");
    reveal_strlit("defaultAccessMode");
    reveal_strlit("uiScale");
    reveal_strlit("notificationSoundsEnabled");
    reveal_strlit("local");
    reveal_strlit("remote");
    assert("local"@.len() == 5);
    assert("remote"@.len() == 6);
    assert("codexBin"@.len() == 8);
    assert("backendMode"@.len() == 11);
    assert("remoteBackendHost"@.len() == 17);
    assert("remoteBackendToken"@.len() == 18);
    assert("defaultAccessMode"@.len() == 17);
    assert("uiScale"@.len() == 7);
    assert("notificationSoundsEnabled"@.len() == 25);
    assert("remoteBackendHost"@[0] == 'r' && "defaultAccessMode"@[0] == 'd');
    lemma_lookup_at(f@, 0, "codexBin"@);
    lemma_lookup_at(f@, 1, "backendMode"@);
    lemma_lookup_at(f@, 2, "remoteBackendHost"@);
    lemma_lookup_at(f@, 3, "remoteBackendToken"@);
    lemma_lookup_at(f@, 4, "defaultAccessMode"@);
    lemma_lookup_at(f@, 5, "uiScale"@);
    lemma_lookup_at(f@, 6, "notificationSoundsEnabled"@);
}

/// A whole workspace list written out and read back is field-equal,
/// entry by entry.
pub proof fn lemma_entry_list_round_trip(entries: Seq<WorkspaceEntry>, j: Json)
    requires
        j is Arr,
        j->Arr_0@.len() == entries.len(),
        forall|i: int|
            0 <= i < entries.len() ==> entry_json_matches(#[trigger] j->Arr_0@[i], entries[i]),
    ensures
        list_decodes(j),
        forall|i: int|
            0 <= i < entries.len() ==> spec_decode_entry(#[trigger] j->Arr_0@[i]) == Some(
                entry_v(entries[i]),
            ),
{
    assert forall|i: int| 0 <= i < entries.len() implies spec_decode_entry(
        #[trigger] j->Arr_0@[i],
    ) == Some(entry_v(entries[i])) by {
        lemma_entry_round_trip(entries[i], j->Arr_0@[i]);
    }
}

} // verus!
