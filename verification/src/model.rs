use vstd::prelude::*;
use crate::json::JsonNum;

verus! {

/// Whether a workspace is a plain checkout or a worktree derived from one.
#[derive(Clone, Copy, PartialEq, Eq, Structural, Debug)]
pub enum WorkspaceKind {
    Main,
    Worktree,
}

impl Default for WorkspaceKind {
    /// A workspace read from a document that does not say is a plain checkout.
    fn default() -> (r: Self)
        ensures
            r == WorkspaceKind::Main,
    {
        WorkspaceKind::Main
    }
}

impl WorkspaceKind {
    pub fn is_worktree(&self) -> (r: bool)
        ensures
            r == (*self is Worktree),
    {
        match self {
            WorkspaceKind::Worktree => true,
            WorkspaceKind::Main => false,
        }
    }
}

/// Where the daemon runs its sessions.
#[derive(Clone, Copy, PartialEq, Eq, Structural, Debug)]
pub enum BackendMode {
    Local,
    Remote,
}

impl Default for BackendMode {
    fn default() -> (r: Self)
        ensures
            r == BackendMode::Local,
    {
        BackendMode::Local
    }
}

/// Metadata a worktree workspace keeps about its checkout.
#[derive(Debug)]
pub struct WorktreeInfo {
    pub branch: String,
}

/// Per-workspace settings.
#[derive(Clone, Copy, PartialEq, Eq, Structural, Debug)]
pub struct WorkspaceSettings {
    pub sidebar_collapsed: bool,
    pub sort_order: Option<u32>,
}

impl Default for WorkspaceSettings {
    fn default() -> (r: Self)
        ensures
            r == (WorkspaceSettings { sidebar_collapsed: false, sort_order: None }),
    {
        WorkspaceSettings { sidebar_collapsed: false, sort_order: None }
    }
}

/// One registered workspace, as persisted.
#[derive(Debug)]
pub struct WorkspaceEntry {
    pub id: String,
    pub name: String,
    pub path: String,
    pub codex_bin: Option<String>,
    pub kind: WorkspaceKind,
    pub parent_id: Option<String>,
    pub worktree: Option<WorktreeInfo>,
    pub settings: WorkspaceSettings,
}

/// One workspace as reported to clients, joined with its live-connection
/// status.
#[derive(Debug)]
pub struct WorkspaceInfo {
    pub id: String,
    pub name: String,
    pub path: String,
    pub connected: bool,
    pub codex_bin: Option<String>,
    pub kind: WorkspaceKind,
    pub parent_id: Option<String>,
    pub worktree: Option<WorktreeInfo>,
    pub settings: WorkspaceSettings,
}

pub open spec fn opt_str_eqv(a: Option<String>, b: Option<String>) -> bool {
    match (a, b) {
        (Option::None, Option::None) => true,
        (Option::Some(x), Option::Some(y)) => x@ == y@,
        _ => false,
    }
}

pub open spec fn worktree_eqv(a: Option<WorktreeInfo>, b: Option<WorktreeInfo>) -> bool {
    match (a, b) {
        (Option::None, Option::None) => true,
        (Option::Some(x), Option::Some(y)) => x.branch@ == y.branch@,
        _ => false,
    }
}

/// Field equality of two entries, comparing text by its characters.
pub open spec fn entry_eqv(a: WorkspaceEntry, b: WorkspaceEntry) -> bool {
    &&& a.id@ == b.id@
    &&& a.name@ == b.name@
    &&& a.path@ == b.path@
    &&& opt_str_eqv(a.codex_bin, b.codex_bin)
    &&& a.kind == b.kind
    &&& opt_str_eqv(a.parent_id, b.parent_id)
    &&& worktree_eqv(a.worktree, b.worktree)
    &&& a.settings == b.settings
}

/// Field equality of an info view against the entry it was made from.
pub open spec fn info_matches_entry(i: WorkspaceInfo, e: WorkspaceEntry, connected: bool) -> bool {
    &&& i.id@ == e.id@
    &&& i.name@ == e.name@
    &&& i.path@ == e.path@
    &&& i.connected == connected
    &&& opt_str_eqv(i.codex_bin, e.codex_bin)
    &&& i.kind == e.kind
    &&& opt_str_eqv(i.parent_id, e.parent_id)
    &&& worktree_eqv(i.worktree, e.worktree)
    &&& i.settings == e.settings
}

fn clone_opt_str(a: &Option<String>) -> (r: Option<String>)
    ensures
        opt_str_eqv(r, *a),
{
    match a {
        Option::Some(s) => Option::Some(s.clone()),
        Option::None => Option::None,
    }
}

fn clone_worktree(a: &Option<WorktreeInfo>) -> (r: Option<WorktreeInfo>)
    ensures
        worktree_eqv(r, *a),
{
    match a {
        Option::Some(w) => Option::Some(WorktreeInfo { branch: w.branch.clone() }),
        Option::None => Option::None,
    }
}

impl WorkspaceEntry {
    /// A field-by-field copy, as taken out of the registry lock before an
    /// external operation runs against it.
    pub fn snapshot(&self) -> (r: WorkspaceEntry)
        ensures
            entry_eqv(r, *self),
    {
        WorkspaceEntry {
            id: self.id.clone(),
            name: self.name.clone(),
            path: self.path.clone(),
            codex_bin: clone_opt_str(&self.codex_bin),
            kind: self.kind,
            parent_id: clone_opt_str(&self.parent_id),
            worktree: clone_worktree(&self.worktree),
            settings: self.settings,
        }
    }

    /// The client-facing view of this entry, joined with its connection
    /// status.
    pub fn info(&self, connected: bool) -> (r: WorkspaceInfo)
        ensures
            info_matches_entry(r, *self, connected),
    {
        WorkspaceInfo {
            id: self.id.clone(),
            name: self.name.clone(),
            path: self.path.clone(),
            connected,
            codex_bin: clone_opt_str(&self.codex_bin),
            kind: self.kind,
            parent_id: clone_opt_str(&self.parent_id),
            worktree: clone_worktree(&self.worktree),
            settings: self.settings,
        }
    }
}

/// The bit pattern of the binary64 value one, the interface scale applied
/// when settings do not name one.
pub const UI_SCALE_ONE_BITS: u64 = 0x3FF0000000000000;

pub fn default_access_mode() -> (r: String)
    ensures
        r@ == "current"@,
{
    String::from_str("current")
}

pub fn default_remote_backend_host() -> (r: String)
    ensures
        r@ == "127.0.0.1:4732"@,
{
    String::from_str("127.0.0.1:4732")
}

pub fn default_notification_sounds_enabled() -> (r: bool)
    ensures
        r == true,
{
    true
}

/// The interface scale applied when settings do not name one, carried as
/// an opaque number.
pub fn default_ui_scale() -> (r: JsonNum)
    ensures
        r == JsonNum::Bits(UI_SCALE_ONE_BITS),
{
    JsonNum::Bits(UI_SCALE_ONE_BITS)
}

/// Process-wide settings, persisted beside the workspace list.
#[derive(Debug)]
pub struct AppSettings {
    pub codex_bin: Option<String>,
    pub backend_mode: BackendMode,
    pub remote_backend_host: String,
    pub remote_backend_token: Option<String>,
    pub default_access_mode: String,
    pub ui_scale: JsonNum,
    pub notification_sounds_enabled: bool,
}

/// What settings read from an empty document hold.
pub open spec fn app_settings_is_default(a: AppSettings) -> bool {
    &&& a.codex_bin is None
    &&& a.backend_mode == BackendMode::Local
    &&& a.remote_backend_host@ == "127.0.0.1:4732"@
    &&& a.remote_backend_token is None
    &&& a.default_access_mode@ == "current"@
    &&& a.ui_scale == JsonNum::Bits(UI_SCALE_ONE_BITS)
    &&& a.notification_sounds_enabled == true
}

/// Field equality of two settings values.
pub open spec fn app_settings_eqv(a: AppSettings, b: AppSettings) -> bool {
    &&& opt_str_eqv(a.codex_bin, b.codex_bin)
    &&& a.backend_mode == b.backend_mode
    &&& a.remote_backend_host@ == b.remote_backend_host@
    &&& opt_str_eqv(a.remote_backend_token, b.remote_backend_token)
    &&& a.default_access_mode@ == b.default_access_mode@
    &&& a.ui_scale == b.ui_scale
    &&& a.notification_sounds_enabled == b.notification_sounds_enabled
}

impl Default for AppSettings {
    fn default() -> (r: Self)
        ensures
            app_settings_is_default(r),
    {
        AppSettings {
            codex_bin: Option::None,
            backend_mode: BackendMode::Local,
            remote_backend_host: default_remote_backend_host(),
            remote_backend_token: Option::None,
            default_access_mode: default_access_mode(),
            ui_scale: default_ui_scale(),
            notification_sounds_enabled: true,
        }
    }
}

impl AppSettings {
    /// A field-by-field copy.
    pub fn snapshot(&self) -> (r: AppSettings)
        ensures
            app_settings_eqv(r, *self),
    {
        AppSettings {
            codex_bin: clone_opt_str(&self.codex_bin),
            backend_mode: self.backend_mode,
            remote_backend_host: self.remote_backend_host.clone(),
            remote_backend_token: clone_opt_str(&self.remote_backend_token),
            default_access_mode: self.default_access_mode.clone(),
            ui_scale: self.ui_scale,
            notification_sounds_enabled: self.notification_sounds_enabled,
        }
    }
}

/// One commit in a log listing.
#[derive(Debug)]
pub struct GitLogEntry {
    pub sha: String,
    pub summary: String,
    pub author: String,
    pub timestamp: i64,
}

/// One local branch with the time of its last commit.
#[derive(Debug)]
pub struct BranchInfo {
    pub name: String,
    pub last_commit: i64,
}

/// Per-file status in a working tree summary.
#[derive(Debug)]
pub struct GitFileStatus {
    pub path: String,
    pub status: String,
    pub additions: i64,
    pub deletions: i64,
}

/// One file's unified diff.
#[derive(Debug)]
pub struct GitFileDiff {
    pub path: String,
    pub diff: String,
}

/// One issue as the issue tracker's command-line tool lists it.
#[derive(Debug)]
pub struct GitHubIssue {
    pub number: u64,
    pub title: String,
    pub url: String,
    pub updated_at: String,
}

/// The issue listing together with the tracker-wide open count.
#[derive(Debug)]
pub struct GitHubIssuesResponse {
    pub total: u64,
    pub issues: Vec<GitHubIssue>,
}

} // verus!
