use vstd::prelude::*;
use crate::model::{
    entry_eqv, info_matches_entry, opt_str_eqv, AppSettings, WorkspaceEntry, WorkspaceInfo,
    WorkspaceKind, WorkspaceSettings, app_settings_eqv,
};

verus! {

// ---------------------------------------------------------------------------
// The in-memory workspace registry: the persisted entry list joined with
// the set of workspace ids that have a live session. External work — the
// session subprocesses, git, the store — happens between a `prepare_*`
// call, which validates and plans against a snapshot, and a `commit_*`
// call, which re-checks and applies the edit; no call here blocks.
// ---------------------------------------------------------------------------

/// The first entry carrying the id, if any.
pub open spec fn find_entry(s: Seq<WorkspaceEntry>, id: Seq<char>) -> Option<WorkspaceEntry>
    decreases s.len(),
{
    if s.len() == 0 {
        None
    } else if s[0].id@ == id {
        Some(s[0])
    } else {
        find_entry(s.drop_first(), id)
    }
}

pub open spec fn has_id(s: Seq<WorkspaceEntry>, id: Seq<char>) -> bool {
    find_entry(s, id) is Some
}

/// Resolves a find when the id stands at position `i` and nowhere earlier.
pub proof fn lemma_find_at(s: Seq<WorkspaceEntry>, i: int, id: Seq<char>)
    requires
        0 <= i < s.len(),
        s[i].id@ == id,
        forall|j: int| 0 <= j < i ==> s[j].id@ != id,
    ensures
        find_entry(s, id) == Some(s[i]),
    decreases i,
{
    if i > 0 {
        lemma_find_at(s.drop_first(), i - 1, id);
        assert(s.drop_first()[i - 1] == s[i]);
        assert(forall|j: int| 0 <= j < i - 1 ==> s.drop_first()[j] == s[j + 1]);
    }
}

/// A find over entries none of which carries the id comes back empty.
pub proof fn lemma_find_none(s: Seq<WorkspaceEntry>, id: Seq<char>)
    requires
        forall|j: int| 0 <= j < s.len() ==> s[j].id@ != id,
    ensures
        find_entry(s, id) is None,
    decreases s.len(),
{
    if s.len() > 0 {
        lemma_find_none(s.drop_first(), id);
    }
}

/// Whatever `find_entry` returns is one of the entries.
pub proof fn lemma_find_is_member(s: Seq<WorkspaceEntry>, id: Seq<char>)
    requires
        find_entry(s, id) is Some,
    ensures
        exists|i: int|
            0 <= i < s.len() && s[i] == find_entry(s, id)->Some_0 && s[i].id@ == id,
    decreases s.len(),
{
    if s.len() > 0 {
        if s[0].id@ == id {
        } else {
            lemma_find_is_member(s.drop_first(), id);
            let i = choose|i: int|
                0 <= i < s.drop_first().len() && s.drop_first()[i] == find_entry(s, id)->Some_0
                    && s.drop_first()[i].id@ == id;
            assert(s[i + 1] == s.drop_first()[i]);
        }
    }
}

/// True when the entry names `id` as its parent.
pub open spec fn is_child(e: WorkspaceEntry, id: Seq<char>) -> bool {
    e.parent_id matches Some(p) && p@ == id
}

/// The registry invariant on one entry: it is a worktree exactly when its
/// parent is named and resolves to a plain checkout.
pub open spec fn kind_parent_ok(s: Seq<WorkspaceEntry>, e: WorkspaceEntry) -> bool {
    (e.kind is Worktree) <==> (e.parent_id matches Some(p) && {
        &&& find_entry(s, p@) matches Some(m)
        &&& m.kind is Main
    })
}

/// The registry invariant on the whole entry list.
pub open spec fn entries_wf(s: Seq<WorkspaceEntry>) -> bool {
    &&& forall|i: int, j: int| 0 <= i < j < s.len() ==> s[i].id@ != s[j].id@
    &&& forall|i: int| 0 <= i < s.len() ==> kind_parent_ok(s, #[trigger] s[i])
    &&& forall|i: int|
        0 <= i < s.len() && (#[trigger] s[i]).kind is Main ==> s[i].parent_id is None
}

pub open spec fn str_in(s: Seq<String>, x: Seq<char>) -> bool {
    exists|i: int| 0 <= i < s.len() && s[i]@ == x
}

/// The daemon's registry: persisted entries, live-session ids, and the
/// process settings.
pub struct Registry {
    pub entries: Vec<WorkspaceEntry>,
    pub connected: Vec<String>,
    pub settings: AppSettings,
}

impl Registry {
    /// Well-formedness: unique ids, the kind/parent invariant, and a
    /// live-session set whose ids are distinct and all resolve.
    pub open spec fn wf(&self) -> bool {
        &&& entries_wf(self.entries@)
        &&& forall|i: int, j: int|
            0 <= i < j < self.connected@.len() ==> self.connected@[i]@ != self.connected@[j]@
        &&& forall|i: int|
            0 <= i < self.connected@.len() ==> has_id(self.entries@, #[trigger] self.connected@[i]@)
    }

    /// True when the workspace has a live session.
    pub open spec fn spec_connected(&self, id: Seq<char>) -> bool {
        str_in(self.connected@, id)
    }

    /// An empty registry with default settings.
    pub fn new() -> (r: Registry)
        ensures
            r.wf(),
            r.entries@.len() == 0,
            r.connected@.len() == 0,
            crate::model::app_settings_is_default(r.settings),
    {
        Registry { entries: Vec::new(), connected: Vec::new(), settings: AppSettings::default() }
    }

    /// The position of the entry carrying the id.
    fn find_index(&self, id: &str) -> (r: Option<usize>)
        ensures
            match r {
                Some(i) => i < self.entries@.len() && self.entries@[i as int].id@ == id@
                    && find_entry(self.entries@, id@) == Some(self.entries@[i as int]),
                None => !has_id(self.entries@, id@),
            },
    {
        find_entry_index(&self.entries, id)
    }

    /// A snapshot of the entry carrying the id.
    pub fn get_entry(&self, id: &str) -> (r: Option<WorkspaceEntry>)
        ensures
            match r {
                Some(e) => has_id(self.entries@, id@) && entry_eqv(
                    e,
                    find_entry(self.entries@, id@)->Some_0,
                ),
                None => !has_id(self.entries@, id@),
            },
    {
        match self.find_index(id) {
            Some(i) => Some(self.entries[i].snapshot()),
            None => None,
        }
    }

    /// True when the workspace has a live session.
    pub fn is_connected(&self, id: &str) -> (r: bool)
        ensures
            r == self.spec_connected(id@),
    {
        let mut i: usize = 0;
        while i < self.connected.len()
            invariant
                i <= self.connected@.len(),
                forall|j: int| 0 <= j < i ==> self.connected@[j]@ != id@,
            decreases self.connected@.len() - i,
        {
            if crate::strutil::str_eq(self.connected[i].as_str(), id) {
                return true;
            }
            i += 1;
        }
        false
    }

    /// Plans connecting a workspace. Connecting one that already has a
    /// live session succeeds at once, with no session to spawn; otherwise
    /// the caller receives the entry to spawn against.
    pub fn prepare_connect(&self, id: &str) -> (r: Result<Option<WorkspaceEntry>, String>)
        ensures
            self.spec_connected(id@) ==> (r matches Ok(v) && v is None),
            match r {
                Ok(v) => match v {
                    Option::None => self.spec_connected(id@),
                    Option::Some(e) => !self.spec_connected(id@) && has_id(self.entries@, id@)
                        && entry_eqv(e, find_entry(self.entries@, id@)->Some_0),
                },
                Err(m) => !self.spec_connected(id@) && !has_id(self.entries@, id@) && m@
                    == "workspace not found"@,
            },
    {
        if self.is_connected(id) {
            return Ok(Option::None);
        }
        match self.get_entry(id) {
            Some(e) => Ok(Option::Some(e)),
            None => Err(String::from_str("workspace not found")),
        }
    }

    /// Records a freshly spawned session for the workspace. Does nothing
    /// when the workspace has gone away meanwhile or is already connected;
    /// returns whether the session was recorded.
    pub fn commit_connect(&mut self, id: &String) -> (r: bool)
        requires
            old(self).wf(),
        ensures
            final(self).wf(),
            final(self).entries@ == old(self).entries@,
            final(self).settings == old(self).settings,
            r == (has_id(old(self).entries@, id@) && !old(self).spec_connected(id@)),
            r ==> final(self).connected@ == old(self).connected@.push(*id),
            !r ==> final(self).connected@ == old(self).connected@,
            final(self).spec_connected(id@) == (r || old(self).spec_connected(id@)),
    {
        let already = self.is_connected(id.as_str());
        let known = match self.find_index(id.as_str()) {
            Some(_) => true,
            None => false,
        };
        if already || !known {
            return false;
        }
        let ghost before = self.connected@;
        self.connected.push(id.clone());
        proof {
            assert(forall|j: int| 0 <= j < before.len() ==> self.connected@[j] == before[j]);
            assert(self.connected@[before.len() as int]@ == id@);
            assert(self.spec_connected(id@));
        }
        true
    }

    /// Drops the live-session record for the workspace; returns whether
    /// one was dropped. The caller terminates the subprocess itself.
    pub fn commit_disconnect(&mut self, id: &str) -> (r: bool)
        requires
            old(self).wf(),
        ensures
            final(self).wf(),
            final(self).entries@ == old(self).entries@,
            final(self).settings == old(self).settings,
            r == old(self).spec_connected(id@),
            !final(self).spec_connected(id@),
            forall|x: Seq<char>|
                x != id@ ==> final(self).spec_connected(x) == old(self).spec_connected(x),
    {
        let ghost before = self.connected@;
        let mut i: usize = 0;
        while i < self.connected.len()
            invariant
                old(self).wf(),
                i <= before.len(),
                *self == *old(self),
                before == self.connected@,
                forall|j: int| 0 <= j < i ==> (#[trigger] before[j])@ != id@,
            decreases before.len() - i,
        {
            if crate::strutil::str_eq(self.connected[i].as_str(), id) {
                self.connected.remove(i);
                proof {
                    assert(self.connected@ == before.remove(i as int));
                    assert forall|k: int|
                        0 <= k < self.connected@.len() implies (#[trigger] self.connected@[k])
                        == if k < i {
                            before[k]
                        } else {
                            before[k + 1]
                        } by {
                        assert(before.remove(i as int) == before.subrange(0, i as int)
                            + before.subrange(i + 1, before.len() as int));
                    }
                    assert(!self.spec_connected(id@)) by {
                        if self.spec_connected(id@) {
                            let k = choose|k: int|
                                0 <= k < self.connected@.len() && self.connected@[k]@ == id@;
                            assert(false);
                        }
                    }
                    assert forall|x: Seq<char>| x != id@ implies self.spec_connected(x) == str_in(
                        before,
                        x,
                    ) by {
                        if str_in(before, x) {
                            let m = choose|m: int|
                                0 <= m < before.len() && before[m]@ == x;
                            if m < i {
                                assert(self.connected@[m]@ == x);
                            } else {
                                assert(m > i);
                                assert(self.connected@[m - 1]@ == x);
                            }
                        }
                        if self.spec_connected(x) {
                            let k = choose|k: int|
                                0 <= k < self.connected@.len() && self.connected@[k]@ == x;
                            if k < i {
                                assert(before[k]@ == x);
                            } else {
                                assert(before[k + 1]@ == x);
                            }
                        }
                    }
                }
                return true;
            }
            i += 1;
        }
        proof {
            assert(!self.spec_connected(id@)) by {
                if self.spec_connected(id@) {
                    let k = choose|k: int|
                        0 <= k < self.connected@.len() && self.connected@[k]@ == id@;
                    assert(false);
                }
            }
        }
        false
    }

    /// Plans adding a plain workspace: derives the display name from the
    /// path and builds the entry, with a fresh id, that the caller spawns
    /// a session against before committing.
    pub fn prepare_add_workspace(&self, path: &str, codex_bin: Option<String>) -> (r: Result<
        WorkspaceEntry,
        String,
    >)
        ensures
            match r {
                Ok(e) => {
                    &&& !has_id(self.entries@, e.id@)
                    &&& e.id@.len() == 36
                    &&& e.name@ == spec_workspace_name(path@)
                    &&& e.path@ == path@
                    &&& opt_str_eqv(e.codex_bin, codex_bin)
                    &&& e.kind == WorkspaceKind::Main
                    &&& e.parent_id is None
                    &&& e.worktree is None
                    &&& e.settings == (WorkspaceSettings {
                        sidebar_collapsed: false,
                        sort_order: Option::None,
                    })
                },
                Err(m) => m@ == "failed to allocate a workspace id"@ && self.entries@.len() > 0,
            },
    {
        let id = match self.alloc_id() {
            Some(id) => id,
            None => {
                return Err(String::from_str("failed to allocate a workspace id"));
            },
        };
        Ok(WorkspaceEntry {
            id,
            name: derive_workspace_name(path),
            path: String::from_str(path),
            codex_bin,
            kind: WorkspaceKind::Main,
            parent_id: Option::None,
            worktree: Option::None,
            settings: WorkspaceSettings::default(),
        })
    }

    /// Records a freshly added plain workspace and its live session.
    /// Does nothing — and reports it — when the id is taken meanwhile or
    /// the entry is not a parentless plain checkout.
    pub fn commit_add_workspace(&mut self, e: WorkspaceEntry) -> (r: bool)
        requires
            old(self).wf(),
        ensures
            final(self).wf(),
            final(self).settings == old(self).settings,
            r == (!has_id(old(self).entries@, e.id@) && e.kind is Main && e.parent_id is None),
            r ==> final(self).entries@ == old(self).entries@.push(e) && final(self).connected@
                == old(self).connected@.push(e.id),
            !r ==> *final(self) == *old(self),
    {
        let fresh = match self.find_index(e.id.as_str()) {
            Some(_) => false,
            None => true,
        };
        if !fresh || e.kind.is_worktree() || !matches!(e.parent_id, Option::None) {
            return false;
        }
        let ghost old_entries = self.entries@;
        let ghost old_connected = self.connected@;
        let id = e.id.clone();
        self.entries.push(e);
        self.connected.push(id);
        proof {
            lemma_push_main_preserves_wf(old_entries, e);
            assert forall|i: int|
                0 <= i < self.connected@.len() implies has_id(
                self.entries@,
                (#[trigger] self.connected@[i])@,
            ) by {
                if i < old_connected.len() {
                    assert(self.connected@[i] == old_connected[i]);
                    lemma_has_id_push(old_entries, e, old_connected[i]@);
                } else {
                    assert(self.connected@[i]@ == e.id@);
                    lemma_find_at(self.entries@, old_entries.len() as int, e.id@);
                }
            }
            assert forall|i: int, j: int|
                0 <= i < j < self.connected@.len() implies self.connected@[i]@
                != self.connected@[j]@ by {
                if j < old_connected.len() {
                } else {
                    assert(self.connected@[j]@ == e.id@);
                    if i < old_connected.len() {
                        assert(has_id(old_entries, old_connected[i]@));
                        lemma_find_is_member(old_entries, old_connected[i]@);
                        assert(!has_id(old_entries, e.id@));
                        if old_connected[i]@ == e.id@ {
                            assert(false);
                        }
                    }
                }
            }
        }
        true
    }

    /// Plans adding a worktree: checks the branch and resolves the parent.
    /// On success the caller receives a snapshot of the parent entry and
    /// the trimmed branch name.
    pub fn prepare_add_worktree(&self, parent_id: &str, branch: &str) -> (r: Result<
        (WorkspaceEntry, String),
        String,
    >)
        ensures
            match r {
                Ok((p, b)) => {
                    &&& crate::strutil::spec_trim(branch@).len() > 0
                    &&& has_id(self.entries@, parent_id@)
                    &&& entry_eqv(p, find_entry(self.entries@, parent_id@)->Some_0)
                    &&& !(p.kind is Worktree)
                    &&& b@ == crate::strutil::spec_trim(branch@)
                },
                Err(m) => {
                    ||| (m@ == "Branch name is required."@ && crate::strutil::spec_trim(
                        branch@,
                    ).len() == 0)
                    ||| (m@ == "parent workspace not found"@ && crate::strutil::spec_trim(
                        branch@,
                    ).len() > 0 && !has_id(self.entries@, parent_id@))
                    ||| (m@ == "Cannot create a worktree from another worktree."@
                        && crate::strutil::spec_trim(branch@).len() > 0 && has_id(
                        self.entries@,
                        parent_id@,
                    ) && find_entry(self.entries@, parent_id@)->Some_0.kind is Worktree)
                },
            },
    {
        let trimmed = crate::strutil::trim(branch);
        if trimmed.unicode_len() == 0 {
            return Err(String::from_str("Branch name is required."));
        }
        let parent = match self.get_entry(parent_id) {
            Some(p) => p,
            None => {
                return Err(String::from_str("parent workspace not found"));
            },
        };
        if parent.kind.is_worktree() {
            return Err(String::from_str("Cannot create a worktree from another worktree."));
        }
        Ok((parent, trimmed))
    }

    /// Builds the entry for a freshly created worktree, with a fresh id,
    /// for the caller to spawn a session against before committing.
    pub fn prepare_worktree_entry(&self, parent: &WorkspaceEntry, branch: &str, path: &str) -> (r:
        Result<WorkspaceEntry, String>)
        ensures
            match r {
                Ok(e) => {
                    &&& !has_id(self.entries@, e.id@)
                    &&& e.id@.len() == 36
                    &&& e.name@ == branch@
                    &&& e.path@ == path@
                    &&& opt_str_eqv(e.codex_bin, parent.codex_bin)
                    &&& e.kind == WorkspaceKind::Worktree
                    &&& e.parent_id matches Some(p) && p@ == parent.id@
                    &&& e.worktree matches Some(w) && w.branch@ == branch@
                    &&& e.settings == (WorkspaceSettings {
                        sidebar_collapsed: false,
                        sort_order: Option::None,
                    })
                },
                Err(m) => m@ == "failed to allocate a workspace id"@ && self.entries@.len() > 0,
            },
    {
        let id = match self.alloc_id() {
            Some(id) => id,
            None => {
                return Err(String::from_str("failed to allocate a workspace id"));
            },
        };
        Ok(WorkspaceEntry {
            id,
            name: String::from_str(branch),
            path: String::from_str(path),
            codex_bin: match &parent.codex_bin {
                Option::Some(s) => Option::Some(s.clone()),
                Option::None => Option::None,
            },
            kind: WorkspaceKind::Worktree,
            parent_id: Option::Some(parent.id.clone()),
            worktree: Option::Some(crate::model::WorktreeInfo {
                branch: String::from_str(branch),
            }),
            settings: WorkspaceSettings::default(),
        })
    }

    /// Records a freshly created worktree and its live session. Does
    /// nothing — and reports it — when the id is taken, the entry is not
    /// a worktree, or its parent no longer resolves to a plain checkout.
    pub fn commit_add_worktree(&mut self, e: WorkspaceEntry) -> (r: bool)
        requires
            old(self).wf(),
        ensures
            final(self).wf(),
            final(self).settings == old(self).settings,
            r == (!has_id(old(self).entries@, e.id@) && e.kind is Worktree && (e.parent_id matches
                Some(p) && {
                &&& find_entry(old(self).entries@, p@) matches Some(m)
                &&& m.kind is Main
            })),
            r ==> final(self).entries@ == old(self).entries@.push(e) && final(self).connected@
                == old(self).connected@.push(e.id),
            !r ==> *final(self) == *old(self),
    {
        let fresh = match self.find_index(e.id.as_str()) {
            Some(_) => false,
            None => true,
        };
        if !fresh || !e.kind.is_worktree() {
            return false;
        }
        let parent_ok = match &e.parent_id {
            Option::Some(p) => match self.find_index(p.as_str()) {
                Some(k) => !self.entries[k].kind.is_worktree(),
                None => false,
            },
            Option::None => false,
        };
        if !parent_ok {
            return false;
        }
        let ghost old_entries = self.entries@;
        let ghost old_connected = self.connected@;
        let id = e.id.clone();
        self.entries.push(e);
        self.connected.push(id);
        proof {
            lemma_push_worktree_preserves_wf(old_entries, e);
            assert forall|i: int|
                0 <= i < self.connected@.len() implies has_id(
                self.entries@,
                (#[trigger] self.connected@[i])@,
            ) by {
                if i < old_connected.len() {
                    assert(self.connected@[i] == old_connected[i]);
                    lemma_has_id_push(old_entries, e, old_connected[i]@);
                } else {
                    assert(self.connected@[i]@ == e.id@);
                    lemma_find_at(self.entries@, old_entries.len() as int, e.id@);
                }
            }
            assert forall|i: int, j: int|
                0 <= i < j < self.connected@.len() implies self.connected@[i]@
                != self.connected@[j]@ by {
                if j < old_connected.len() {
                } else {
                    assert(self.connected@[j]@ == e.id@);
                    if i < old_connected.len() {
                        assert(has_id(old_entries, old_connected[i]@));
                        lemma_find_is_member(old_entries, old_connected[i]@);
                        assert(!has_id(old_entries, e.id@));
                        if old_connected[i]@ == e.id@ {
                            assert(false);
                        }
                    }
                }
            }
        }
        true
    }

    /// Plans removing a plain workspace: resolves the entry and collects
    /// its worktree children, whose sessions and checkouts the caller
    /// tears down before committing.
    pub fn plan_remove_workspace(&self, id: &str) -> (r: Result<
        (WorkspaceEntry, Vec<WorkspaceEntry>),
        String,
    >)
        ensures
            match r {
                Ok((e, kids)) => {
                    &&& has_id(self.entries@, id@)
                    &&& entry_eqv(e, find_entry(self.entries@, id@)->Some_0)
                    &&& !(find_entry(self.entries@, id@)->Some_0.kind is Worktree)
                    &&& kids@.len() == children_of(self.entries@, id@).len()
                    &&& forall|k: int|
                        0 <= k < kids@.len() ==> entry_eqv(
                            #[trigger] kids@[k],
                            children_of(self.entries@, id@)[k],
                        )
                },
                Err(m) => {
                    ||| (m@ == "workspace not found"@ && !has_id(self.entries@, id@))
                    ||| (m@ == "Use remove_worktree for worktree agents."@ && has_id(
                        self.entries@,
                        id@,
                    ) && find_entry(self.entries@, id@)->Some_0.kind is Worktree)
                },
            },
    {
        let k = match self.find_index(id) {
            Some(k) => k,
            None => {
                return Err(String::from_str("workspace not found"));
            },
        };
        if self.entries[k].kind.is_worktree() {
            return Err(String::from_str("Use remove_worktree for worktree agents."));
        }
        let entry = self.entries[k].snapshot();
        let mut kids: Vec<WorkspaceEntry> = Vec::new();
        let mut i: usize = 0;
        assert(self.entries@.subrange(0, 0) =~= Seq::<WorkspaceEntry>::empty());
        while i < self.entries.len()
            invariant
                i <= self.entries@.len(),
                kids@.len() == children_of(self.entries@.subrange(0, i as int), id@).len(),
                forall|k0: int|
                    0 <= k0 < kids@.len() ==> entry_eqv(
                        #[trigger] kids@[k0],
                        children_of(self.entries@.subrange(0, i as int), id@)[k0],
                    ),
            decreases self.entries@.len() - i,
        {
            let ghost pre = self.entries@.subrange(0, i as int);
            let ghost pre2 = self.entries@.subrange(0, i + 1);
            proof {
                assert(pre2.drop_last() =~= pre);
                assert(pre2.last() == self.entries@[i as int]);
            }
            let child = match &self.entries[i].parent_id {
                Option::Some(p) => crate::strutil::str_eq(p.as_str(), id),
                Option::None => false,
            };
            if child {
                kids.push(self.entries[i].snapshot());
            }
            i += 1;
        }
        proof {
            assert(self.entries@.subrange(0, self.entries@.len() as int) =~= self.entries@);
        }
        Ok((entry, kids))
    }

    /// Plans removing a worktree: resolves the entry and its parent, whose
    /// checkout the caller force-removes before committing.
    pub fn plan_remove_worktree(&self, id: &str) -> (r: Result<
        (WorkspaceEntry, WorkspaceEntry),
        String,
    >)
        requires
            self.wf(),
        ensures
            match r {
                Ok((e, parent)) => {
                    &&& has_id(self.entries@, id@)
                    &&& entry_eqv(e, find_entry(self.entries@, id@)->Some_0)
                    &&& find_entry(self.entries@, id@)->Some_0.kind is Worktree
                    &&& entry_eqv(
                        parent,
                        find_entry(
                            self.entries@,
                            find_entry(self.entries@, id@)->Some_0.parent_id->Some_0@,
                        )->Some_0,
                    )
                },
                Err(m) => {
                    ||| (m@ == "workspace not found"@ && !has_id(self.entries@, id@))
                    ||| (m@ == "Not a worktree workspace."@ && has_id(self.entries@, id@)
                        && !(find_entry(self.entries@, id@)->Some_0.kind is Worktree))
                },
            },
    {
        let k = match self.find_index(id) {
            Some(k) => k,
            None => {
                return Err(String::from_str("workspace not found"));
            },
        };
        if !self.entries[k].kind.is_worktree() {
            return Err(String::from_str("Not a worktree workspace."));
        }
        let entry = self.entries[k].snapshot();
        proof {
            assert(kind_parent_ok(self.entries@, self.entries@[k as int]));
        }
        let parent = match &self.entries[k].parent_id {
            Option::Some(p) => match self.find_index(p.as_str()) {
                Some(pk) => self.entries[pk].snapshot(),
                None => {
                    // Under the registry invariant a worktree's parent
                    // always resolves; this arm cannot be reached.
                    proof {
                        assert(false);
                    }
                    return Err(String::new());
                },
            },
            Option::None => {
                // A worktree always names a parent; this arm cannot be
                // reached either.
                proof {
                    assert(false);
                }
                return Err(String::new());
            },
        };
        Ok((entry, parent))
    }

    /// Removes a plain workspace and all its worktree children from the
    /// registry, dropping their live-session records; the caller has
    /// already torn the sessions and checkouts down. Does nothing — and
    /// reports it — when the id no longer names a plain workspace.
    pub fn commit_remove_workspace(&mut self, id: &str) -> (r: bool)
        requires
            old(self).wf(),
        ensures
            final(self).wf(),
            final(self).settings == old(self).settings,
            r == (has_id(old(self).entries@, id@) && !(find_entry(
                old(self).entries@,
                id@,
            )->Some_0.kind is Worktree)),
            r ==> final(self).entries@ == cascade_remove(old(self).entries@, id@),
            r ==> forall|i: int|
                0 <= i < final(self).entries@.len() ==> cascade_keeps(
                    #[trigger] final(self).entries@[i],
                    id@,
                ),
            forall|x: Seq<char>|
                final(self).spec_connected(x) ==> old(self).spec_connected(x),
            !r ==> *final(self) == *old(self),
    {
        let k = match self.find_index(id) {
            Some(k) => k,
            None => {
                return false;
            },
        };
        if self.entries[k].kind.is_worktree() {
            return false;
        }
        let ghost old_entries = self.entries@;
        let mut i: usize = 0;
        let ghost mut g: int = 0;
        proof {
            assert(old_entries.subrange(0, 0) =~= Seq::<WorkspaceEntry>::empty());
            assert(old_entries.subrange(0, old_entries.len() as int) =~= old_entries);
            assert(self.entries@ =~= cascade_remove(old_entries.subrange(0, 0), id@)
                + old_entries.subrange(0, old_entries.len() as int));
        }
        while i < self.entries.len()
            invariant
                self.connected@ == old(self).connected@,
                self.settings == old(self).settings,
                0 <= g <= old_entries.len(),
                i == cascade_remove(old_entries.subrange(0, g), id@).len(),
                self.entries@ == cascade_remove(old_entries.subrange(0, g), id@)
                    + old_entries.subrange(g, old_entries.len() as int),
            decreases old_entries.len() - g,
        {
            let ghost pre = old_entries.subrange(0, g);
            let ghost pre2 = old_entries.subrange(0, g + 1);
            proof {
                assert(g < old_entries.len());
                assert(self.entries@[i as int] == old_entries[g]);
                assert(pre2.drop_last() =~= pre);
                assert(pre2.last() == old_entries[g]);
            }
            let keep = !crate::strutil::str_eq(self.entries[i].id.as_str(), id) && match &self
                .entries[i].parent_id {
                Option::Some(p) => !crate::strutil::str_eq(p.as_str(), id),
                Option::None => true,
            };
            proof {
                assert(keep == cascade_keeps(old_entries[g], id@));
            }
            if keep {
                i += 1;
                proof {
                    assert(self.entries@ =~= cascade_remove(pre2, id@) + old_entries.subrange(
                        g + 1,
                        old_entries.len() as int,
                    ));
                    g = g + 1;
                }
            } else {
                self.entries.remove(i);
                proof {
                    assert(self.entries@ =~= cascade_remove(pre2, id@) + old_entries.subrange(
                        g + 1,
                        old_entries.len() as int,
                    ));
                    g = g + 1;
                }
            }
        }
        proof {
            assert(old_entries.subrange(g, old_entries.len() as int).len() == 0);
            assert(g == old_entries.len());
            assert(old_entries.subrange(0, old_entries.len() as int) =~= old_entries);
            assert(self.entries@ =~= cascade_remove(old_entries, id@));
            lemma_cascade_wf(old_entries, id@);
        }
        self.prune_connected();
        true
    }

    /// Removes a single worktree from the registry, dropping its
    /// live-session record; the caller has already torn its session and
    /// checkout down. Does nothing — and reports it — when the id no
    /// longer names a worktree.
    pub fn commit_remove_worktree(&mut self, id: &str) -> (r: bool)
        requires
            old(self).wf(),
        ensures
            final(self).wf(),
            final(self).settings == old(self).settings,
            r == (has_id(old(self).entries@, id@) && find_entry(
                old(self).entries@,
                id@,
            )->Some_0.kind is Worktree),
            r ==> exists|k: int|
                0 <= k < old(self).entries@.len() && old(self).entries@[k].id@ == id@
                    && final(self).entries@ == old(self).entries@.remove(k),
            r ==> forall|i: int|
                0 <= i < final(self).entries@.len()
                    ==> (#[trigger] final(self).entries@[i]).id@ != id@,
            forall|x: Seq<char>|
                final(self).spec_connected(x) ==> old(self).spec_connected(x),
            !r ==> *final(self) == *old(self),
    {
        let k = match self.find_index(id) {
            Some(k) => k,
            None => {
                return false;
            },
        };
        if !self.entries[k].kind.is_worktree() {
            return false;
        }
        let ghost old_entries = self.entries@;
        self.entries.remove(k);
        proof {
            lemma_remove_worktree_wf(old_entries, k as int);
            assert forall|i: int|
                0 <= i < self.entries@.len() implies (#[trigger] self.entries@[i]).id@ != id@ by {
                assert(old_entries.remove(k as int) == old_entries.subrange(0, k as int)
                    + old_entries.subrange(k + 1, old_entries.len() as int));
                if i < k {
                    assert(self.entries@[i] == old_entries[i]);
                } else {
                    assert(self.entries@[i] == old_entries[i + 1]);
                }
            }
        }
        self.prune_connected();
        true
    }

    /// Drops the live-session ids that no longer resolve to an entry.
    fn prune_connected(&mut self)
        requires
            entries_wf(old(self).entries@),
            forall|i: int, j: int|
                0 <= i < j < old(self).connected@.len() ==> old(self).connected@[i]@ != old(
                    self,
                ).connected@[j]@,
        ensures
            final(self).entries@ == old(self).entries@,
            final(self).settings == old(self).settings,
            final(self).connected@ == retain_ids(old(self).connected@, old(self).entries@),
            final(self).wf(),
            forall|x: Seq<char>|
                final(self).spec_connected(x) ==> old(self).spec_connected(x),
    {
        let ghost old_conn = self.connected@;
        let mut i: usize = 0;
        let ghost mut g: int = 0;
        proof {
            assert(old_conn.subrange(0, 0) =~= Seq::<String>::empty());
            assert(old_conn.subrange(0, old_conn.len() as int) =~= old_conn);
            assert(self.connected@ =~= retain_ids(old_conn.subrange(0, 0), self.entries@)
                + old_conn.subrange(0, old_conn.len() as int));
        }
        while i < self.connected.len()
            invariant
                self.entries@ == old(self).entries@,
                self.settings == old(self).settings,
                0 <= g <= old_conn.len(),
                i == retain_ids(old_conn.subrange(0, g), self.entries@).len(),
                self.connected@ == retain_ids(old_conn.subrange(0, g), self.entries@)
                    + old_conn.subrange(g, old_conn.len() as int),
            decreases old_conn.len() - g,
        {
            let ghost pre = old_conn.subrange(0, g);
            let ghost pre2 = old_conn.subrange(0, g + 1);
            proof {
                assert(g < old_conn.len());
                assert(self.connected@[i as int] == old_conn[g]);
                assert(pre2.drop_last() =~= pre);
                assert(pre2.last() == old_conn[g]);
            }
            let resolves = {
                let cid = self.connected[i].clone();
                match self.find_index(cid.as_str()) {
                    Some(_) => true,
                    None => false,
                }
            };
            proof {
                assert(resolves == has_id(self.entries@, old_conn[g]@));
            }
            if resolves {
                i += 1;
                proof {
                    assert(self.connected@ =~= retain_ids(pre2, self.entries@)
                        + old_conn.subrange(g + 1, old_conn.len() as int));
                    g = g + 1;
                }
            } else {
                self.connected.remove(i);
                proof {
                    assert(self.connected@ =~= retain_ids(pre2, self.entries@)
                        + old_conn.subrange(g + 1, old_conn.len() as int));
                    g = g + 1;
                }
            }
        }
        proof {
            assert(old_conn.subrange(g, old_conn.len() as int).len() == 0);
            assert(g == old_conn.len());
            assert(old_conn.subrange(0, old_conn.len() as int) =~= old_conn);
            assert(self.connected@ =~= retain_ids(old_conn, self.entries@));
            lemma_retain_ids_views(old_conn, self.entries@);
            lemma_retain_ids_unique(old_conn, self.entries@);
            lemma_retain_ids_contains(old_conn, self.entries@);
            assert forall|x: Seq<char>|
                final(self).spec_connected(x) implies str_in(old_conn, x) by {
                let k = choose|k: int|
                    0 <= k < self.connected@.len() && self.connected@[k]@ == x;
                assert(self.connected@.contains(self.connected@[k]));
                assert(old_conn.contains(self.connected@[k]));
                let m = choose|m: int| 0 <= m < old_conn.len() && old_conn[m] == self.connected@[k];
                assert(old_conn[m]@ == x);
            }
        }
    }

    /// Replaces a workspace's per-workspace settings and reports the
    /// updated entry joined with its connection status.
    pub fn update_workspace_settings(&mut self, id: &str, settings: WorkspaceSettings) -> (r:
        Result<WorkspaceInfo, String>)
        requires
            old(self).wf(),
        ensures
            final(self).wf(),
            final(self).connected@ == old(self).connected@,
            final(self).settings == old(self).settings,
            match r {
                Ok(info) => exists|k: int|
                    {
                        &&& 0 <= k < old(self).entries@.len()
                        &&& old(self).entries@[k].id@ == id@
                        &&& final(self).entries@ == old(self).entries@.update(
                            k,
                            with_settings(old(self).entries@[k], settings),
                        )
                        &&& info_matches_entry(
                            info,
                            final(self).entries@[k],
                            old(self).spec_connected(id@),
                        )
                    },
                Err(m) => m@ == "workspace not found"@ && !has_id(old(self).entries@, id@)
                    && *final(self) == *old(self),
            },
    {
        let k = match self.find_index(id) {
            Some(k) => k,
            None => {
                return Err(String::from_str("workspace not found"));
            },
        };
        let connected = self.is_connected(id);
        let ghost old_entries = self.entries@;
        let mut e = self.entries.remove(k);
        e.settings = settings;
        let info = e.info(connected);
        self.entries.insert(k, e);
        proof {
            assert(self.entries@ =~= old_entries.update(k as int, with_settings(
                old_entries[k as int],
                settings,
            ))) by {
                assert(old_entries.remove(k as int) == old_entries.subrange(0, k as int)
                    + old_entries.subrange(k + 1, old_entries.len() as int));
            }
            lemma_wf_same_shape(old_entries, self.entries@);
            assert forall|i: int|
                0 <= i < self.connected@.len() implies has_id(
                self.entries@,
                (#[trigger] self.connected@[i])@,
            ) by {
                lemma_find_same_shape(old_entries, self.entries@, self.connected@[i]@);
            }
            assert(old_entries[k as int].id@ == id@);
            assert(self.entries@[k as int] == with_settings(old_entries[k as int], settings));
            assert(info_matches_entry(
                info,
                self.entries@[k as int],
                old(self).spec_connected(id@),
            ));
        }
        Ok(info)
    }

    /// Replaces a workspace's binary override and reports the updated
    /// entry joined with its connection status.
    pub fn update_workspace_codex_bin(&mut self, id: &str, codex_bin: Option<String>) -> (r: Result<
        WorkspaceInfo,
        String,
    >)
        requires
            old(self).wf(),
        ensures
            final(self).wf(),
            final(self).connected@ == old(self).connected@,
            final(self).settings == old(self).settings,
            match r {
                Ok(info) => exists|k: int|
                    {
                        &&& 0 <= k < old(self).entries@.len()
                        &&& old(self).entries@[k].id@ == id@
                        &&& final(self).entries@ == old(self).entries@.update(
                            k,
                            with_codex_bin(old(self).entries@[k], codex_bin),
                        )
                        &&& info_matches_entry(
                            info,
                            final(self).entries@[k],
                            old(self).spec_connected(id@),
                        )
                    },
                Err(m) => m@ == "workspace not found"@ && !has_id(old(self).entries@, id@)
                    && *final(self) == *old(self),
            },
    {
        let k = match self.find_index(id) {
            Some(k) => k,
            None => {
                return Err(String::from_str("workspace not found"));
            },
        };
        let connected = self.is_connected(id);
        let ghost old_entries = self.entries@;
        let mut e = self.entries.remove(k);
        e.codex_bin = codex_bin;
        let info = e.info(connected);
        self.entries.insert(k, e);
        proof {
            assert(self.entries@ =~= old_entries.update(k as int, with_codex_bin(
                old_entries[k as int],
                codex_bin,
            ))) by {
                assert(old_entries.remove(k as int) == old_entries.subrange(0, k as int)
                    + old_entries.subrange(k + 1, old_entries.len() as int));
            }
            lemma_wf_same_shape(old_entries, self.entries@);
            assert forall|i: int|
                0 <= i < self.connected@.len() implies has_id(
                self.entries@,
                (#[trigger] self.connected@[i])@,
            ) by {
                lemma_find_same_shape(old_entries, self.entries@, self.connected@[i]@);
            }
            assert(old_entries[k as int].id@ == id@);
            assert(self.entries@[k as int] == with_codex_bin(old_entries[k as int], codex_bin));
            assert(info_matches_entry(
                info,
                self.entries@[k as int],
                old(self).spec_connected(id@),
            ));
        }
        Ok(info)
    }

    /// A fresh identifier not carried by any entry; `None` only when the
    /// drawn id is already present — impossible on an empty registry —
    /// which the caller surfaces as a failure.
    fn alloc_id(&self) -> (r: Option<String>)
        ensures
            match r {
                Some(id) => !has_id(self.entries@, id@) && id@.len() == 36,
                None => self.entries@.len() > 0,
            },
    {
        let id = fresh_id();
        match self.find_index(id.as_str()) {
            Some(_) => None,
            None => Some(id),
        }
    }

    /// The listing join, in registry order: the i-th info reports the
    /// i-th entry together with its live-connection status. The caller
    /// puts it in listing order with `sort_workspaces`.
    pub fn list_workspaces(&self) -> (r: Vec<WorkspaceInfo>)
        ensures
            r@.len() == self.entries@.len(),
            forall|k: int|
                0 <= k < r@.len() ==> info_matches_entry(
                    #[trigger] r@[k],
                    self.entries@[k],
                    self.spec_connected(self.entries@[k].id@),
                ),
    {
        let mut infos: Vec<WorkspaceInfo> = Vec::new();
        let mut i: usize = 0;
        while i < self.entries.len()
            invariant
                i <= self.entries@.len(),
                infos@.len() == i,
                forall|k: int|
                    0 <= k < i ==> info_matches_entry(
                        #[trigger] infos@[k],
                        self.entries@[k],
                        self.spec_connected(self.entries@[k].id@),
                    ),
            decreases self.entries@.len() - i,
        {
            let connected = self.is_connected(self.entries[i].id.as_str());
            infos.push(self.entries[i].info(connected));
            i += 1;
        }
        infos
    }

    /// Rebuilds the registry from a persisted entry list. A list that
    /// satisfies the registry invariant is kept whole; a partially
    /// corrupt one is salvaged entry by entry, in order: a duplicated id
    /// is dropped, a plain checkout sheds a stray parent reference, and
    /// a worktree is kept only when its parent was already kept as a
    /// plain checkout. No workspace starts connected.
    pub fn from_entries(entries: Vec<WorkspaceEntry>, settings: AppSettings) -> (r: Registry)
        ensures
            r.wf(),
            r.connected@.len() == 0,
            r.settings == settings,
            entries_wf(entries@) ==> r.entries@ == entries@,
            !entries_wf(entries@) ==> r.entries@ == salvage(entries@),
    {
        if check_entries(&entries) {
            return Registry { entries, connected: Vec::new(), settings };
        }
        let mut v = entries;
        let ghost orig = v@;
        let mut i: usize = 0;
        let ghost mut g: int = 0;
        proof {
            assert(orig.subrange(0, 0) =~= Seq::<WorkspaceEntry>::empty());
            assert(orig.subrange(0, orig.len() as int) =~= orig);
            assert(v@ =~= salvage(orig.subrange(0, 0)) + orig.subrange(0, orig.len() as int));
        }
        while i < v.len()
            invariant
                entries@ == orig,
                0 <= g <= orig.len(),
                i == salvage(orig.subrange(0, g)).len(),
                v@ == salvage(orig.subrange(0, g)) + orig.subrange(g, orig.len() as int),
            decreases orig.len() - g,
        {
            let ghost pre = orig.subrange(0, g);
            let ghost pre2 = orig.subrange(0, g + 1);
            let ghost rest = salvage(pre);
            proof {
                assert(g < orig.len());
                assert(v@[i as int] == orig[g]);
                assert(pre2.drop_last() =~= pre);
                assert(pre2.last() == orig[g]);
                assert(v@.subrange(0, i as int) =~= rest);
            }
            let fresh = match find_in_prefix(&v, i, v[i].id.as_str()) {
                Some(_) => false,
                None => true,
            };
            let accept = fresh && (!v[i].kind.is_worktree() || match &v[i].parent_id {
                Option::Some(p) => match find_in_prefix(&v, i, p.as_str()) {
                    Some(mi) => !v[mi].kind.is_worktree(),
                    None => false,
                },
                Option::None => false,
            });
            proof {
                assert(accept == salvage_accepts(rest, orig[g]));
            }
            if accept {
                if !v[i].kind.is_worktree() {
                    let mut e = v.remove(i);
                    e.parent_id = Option::None;
                    v.insert(i, e);
                    proof {
                        assert(salvage(pre2) == rest.push(salvage_fix(orig[g])));
                        assert(v@ =~= salvage(pre2) + orig.subrange(g + 1, orig.len() as int)) by {
                            assert(orig[g].kind is Main);
                        }
                        g = g + 1;
                    }
                } else {
                    proof {
                        assert(salvage_fix(orig[g]) == orig[g]);
                        assert(salvage(pre2) == rest.push(orig[g]));
                        assert(v@ =~= salvage(pre2) + orig.subrange(g + 1, orig.len() as int));
                        g = g + 1;
                    }
                }
                i += 1;
            } else {
                v.remove(i);
                proof {
                    assert(salvage(pre2) == rest);
                    assert(v@ =~= salvage(pre2) + orig.subrange(g + 1, orig.len() as int));
                    g = g + 1;
                }
            }
        }
        proof {
            assert(orig.subrange(g, orig.len() as int).len() == 0);
            assert(g == orig.len());
            assert(orig.subrange(0, orig.len() as int) =~= orig);
            assert(v@ =~= salvage(orig));
            lemma_salvage_wf(orig);
        }
        Registry { entries: v, connected: Vec::new(), settings }
    }

    /// The process settings, copied out.
    pub fn get_app_settings(&self) -> (r: AppSettings)
        ensures
            app_settings_eqv(r, self.settings),
    {
        self.settings.snapshot()
    }

    /// Replaces the process settings.
    pub fn update_app_settings(&mut self, settings: AppSettings)
        requires
            old(self).wf(),
        ensures
            final(self).wf(),
            final(self).entries@ == old(self).entries@,
            final(self).connected@ == old(self).connected@,
            final(self).settings == settings,
    {
        self.settings = settings;
    }
}

/// The position of the first entry carrying the id in a list.
fn find_entry_index(v: &Vec<WorkspaceEntry>, id: &str) -> (r: Option<usize>)
    ensures
        match r {
            Some(i) => i < v@.len() && v@[i as int].id@ == id@ && find_entry(v@, id@) == Some(
                v@[i as int],
            ),
            None => !has_id(v@, id@),
        },
{
    let mut i: usize = 0;
    while i < v.len()
        invariant
            i <= v@.len(),
            forall|j: int| 0 <= j < i ==> v@[j].id@ != id@,
        decreases v@.len() - i,
    {
        if crate::strutil::str_eq(v[i].id.as_str(), id) {
            proof {
                lemma_find_at(v@, i as int, id@);
            }
            return Some(i);
        }
        i += 1;
    }
    proof {
        lemma_find_none(v@, id@);
    }
    None
}

/// The position of the first entry carrying the id among the first `n`.
fn find_in_prefix(v: &Vec<WorkspaceEntry>, n: usize, id: &str) -> (r: Option<usize>)
    requires
        n <= v@.len(),
    ensures
        match r {
            Some(i) => i < n && v@[i as int].id@ == id@ && find_entry(
                v@.subrange(0, n as int),
                id@,
            ) == Some(v@[i as int]),
            None => !has_id(v@.subrange(0, n as int), id@),
        },
{
    let mut i: usize = 0;
    while i < n
        invariant
            n <= v@.len(),
            i <= n,
            forall|j: int| 0 <= j < i ==> v@[j].id@ != id@,
        decreases n - i,
    {
        if crate::strutil::str_eq(v[i].id.as_str(), id) {
            proof {
                let pre = v@.subrange(0, n as int);
                assert(forall|j: int| 0 <= j < i ==> pre[j].id@ != id@);
                assert(pre[i as int] == v@[i as int]);
                lemma_find_at(pre, i as int, id@);
            }
            return Some(i);
        }
        i += 1;
    }
    proof {
        let pre = v@.subrange(0, n as int);
        assert(forall|j: int| 0 <= j < pre.len() ==> pre[j].id@ != id@);
        lemma_find_none(pre, id@);
    }
    None
}

/// Decides whether a persisted entry list satisfies the registry
/// invariant.
fn check_entries(v: &Vec<WorkspaceEntry>) -> (r: bool)
    ensures
        r == entries_wf(v@),
{
    let mut i: usize = 0;
    while i < v.len()
        invariant
            i <= v@.len(),
            forall|i0: int, j0: int| 0 <= i0 < j0 < i ==> v@[i0].id@ != v@[j0].id@,
        decreases v@.len() - i,
    {
        let mut j: usize = 0;
        while j < i
            invariant
                j <= i < v@.len(),
                forall|j0: int| 0 <= j0 < j ==> v@[j0].id@ != v@[i as int].id@,
            decreases i - j,
        {
            if crate::strutil::str_eq(v[j].id.as_str(), v[i].id.as_str()) {
                return false;
            }
            j += 1;
        }
        i += 1;
    }
    let mut k: usize = 0;
    while k < v.len()
        invariant
            k <= v@.len(),
            forall|i0: int, j0: int| 0 <= i0 < j0 < v@.len() ==> v@[i0].id@ != v@[j0].id@,
            forall|m: int|
                0 <= m < k ==> kind_parent_ok(v@, #[trigger] v@[m]) && (v@[m].kind is Main
                    ==> v@[m].parent_id is None),
        decreases v@.len() - k,
    {
        if v[k].kind.is_worktree() {
            match &v[k].parent_id {
                Option::Some(p) => match find_entry_index(v, p.as_str()) {
                    Some(pk) => {
                        if v[pk].kind.is_worktree() {
                            proof {
                                assert(!kind_parent_ok(v@, v@[k as int]));
                            }
                            return false;
                        }
                    },
                    None => {
                        proof {
                            assert(!kind_parent_ok(v@, v@[k as int]));
                        }
                        return false;
                    },
                },
                Option::None => {
                    proof {
                        assert(!kind_parent_ok(v@, v@[k as int]));
                    }
                    return false;
                },
            }
        } else {
            match &v[k].parent_id {
                Option::Some(_) => {
                    return false;
                },
                Option::None => {},
            }
        }
        proof {
            assert(kind_parent_ok(v@, v@[k as int]));
        }
        k += 1;
    }
    true
}

/// The client-facing listing is complete: sorting the join that
/// `list_workspaces` produces only rearranges it. Every line of the
/// sorted listing reports some registry entry joined with its
/// live-connection status ...
pub proof fn lemma_sorted_listing_sound(
    reg: &Registry,
    pre: Seq<WorkspaceInfo>,
    post: Seq<WorkspaceInfo>,
    i: int,
)
    requires
        pre.len() == reg.entries@.len(),
        forall|k: int|
            0 <= k < pre.len() ==> info_matches_entry(
                #[trigger] pre[k],
                reg.entries@[k],
                reg.spec_connected(reg.entries@[k].id@),
            ),
        post.to_multiset() == pre.to_multiset(),
        0 <= i < post.len(),
    ensures
        exists|j: int| #![trigger reg.entries@[j]]
            0 <= j < reg.entries@.len() && info_matches_entry(
                post[i],
                reg.entries@[j],
                reg.spec_connected(reg.entries@[j].id@),
            ),
{
    pre.to_multiset_ensures();
    post.to_multiset_ensures();
    assert(post.contains(post[i]));
    assert(post.to_multiset().count(post[i]) > 0);
    assert(pre.to_multiset().count(post[i]) > 0);
    assert(pre.contains(post[i]));
    let k = choose|k: int| 0 <= k < pre.len() && pre[k] == post[i];
    assert(info_matches_entry(
        post[i],
        reg.entries@[k],
        reg.spec_connected(reg.entries@[k].id@),
    ));
}

/// ... and every registry entry is reported by some line of the sorted
/// listing: nothing is lost, duplicated or invented.
pub proof fn lemma_sorted_listing_covers(
    reg: &Registry,
    pre: Seq<WorkspaceInfo>,
    post: Seq<WorkspaceInfo>,
    j: int,
)
    requires
        pre.len() == reg.entries@.len(),
        forall|k: int|
            0 <= k < pre.len() ==> info_matches_entry(
                #[trigger] pre[k],
                reg.entries@[k],
                reg.spec_connected(reg.entries@[k].id@),
            ),
        post.to_multiset() == pre.to_multiset(),
        0 <= j < reg.entries@.len(),
    ensures
        exists|i: int| #![trigger post[i]]
            0 <= i < post.len() && info_matches_entry(
                post[i],
                reg.entries@[j],
                reg.spec_connected(reg.entries@[j].id@),
            ),
{
    pre.to_multiset_ensures();
    post.to_multiset_ensures();
    assert(pre.contains(pre[j]));
    assert(pre.to_multiset().count(pre[j]) > 0);
    assert(post.to_multiset().count(pre[j]) > 0);
    assert(post.contains(pre[j]));
    let i = choose|i: int| 0 <= i < post.len() && post[i] == pre[j];
    assert(info_matches_entry(
        post[i],
        reg.entries@[j],
        reg.spec_connected(reg.entries@[j].id@),
    ));
}

/// For every entry of a well-formed registry: it is a worktree exactly
/// when its parent id is present and resolves to a plain checkout. Every
/// mutating registry operation keeps `wf`, so this holds in each
/// reachable state.
pub proof fn lemma_kind_parent_invariant(r: &Registry, i: int)
    requires
        r.wf(),
        0 <= i < r.entries@.len(),
    ensures
        kind_parent_ok(r.entries@, r.entries@[i]),
{
}

/// A cascading removal leaves nothing behind: the removed id is gone and
/// no remaining entry names it as its parent.
pub proof fn lemma_cascade_no_dangling(s: Seq<WorkspaceEntry>, id: Seq<char>)
    requires
        entries_wf(s),
    ensures
        !has_id(cascade_remove(s, id), id),
        forall|i: int|
            0 <= i < cascade_remove(s, id).len() ==> !is_child(
                #[trigger] cascade_remove(s, id)[i],
                id,
            ),
{
    lemma_cascade_wf(s, id);
    lemma_find_none(cascade_remove(s, id), id);
}

/// Relies on uuid::Uuid::new_v4 and its hyphenated Display form: a fresh
/// identifier prints as 36 characters. Nothing else is assumed of it;
/// uniqueness against the registry is checked by the caller.
#[verifier::external_body]
fn fresh_id() -> (r: String)
    ensures
        r@.len() == 36,
{
    uuid::Uuid::new_v4().to_string()
}

/// Whatever stands at an index is found under its id.
pub proof fn lemma_member_has_id(s: Seq<WorkspaceEntry>, i: int)
    requires
        0 <= i < s.len(),
    ensures
        has_id(s, s[i].id@),
    decreases s.len(),
{
    if s[0].id@ == s[i].id@ {
    } else {
        lemma_member_has_id(s.drop_first(), i - 1);
        assert(s.drop_first()[i - 1] == s[i]);
    }
}

/// Appending an entry leaves every other id's find result unchanged.
pub proof fn lemma_find_push(s: Seq<WorkspaceEntry>, e: WorkspaceEntry, x: Seq<char>)
    ensures
        find_entry(s.push(e), x) == (if find_entry(s, x) is Some {
            find_entry(s, x)
        } else if e.id@ == x {
            Some(e)
        } else {
            None::<WorkspaceEntry>
        }),
    decreases s.len(),
{
    if s.len() == 0 {
        assert(s.push(e).len() == 1);
        assert(s.push(e)[0] == e);
        assert(s.push(e).drop_first() =~= Seq::<WorkspaceEntry>::empty());
        assert(find_entry(s, x) is None);
        if e.id@ == x {
            assert(find_entry(s.push(e), x) == Some(e));
        } else {
            assert(find_entry(s.push(e), x) == find_entry(s.push(e).drop_first(), x));
        }
    } else {
        assert(s.push(e)[0] == s[0]);
        assert(s.push(e).drop_first() =~= s.drop_first().push(e));
        lemma_find_push(s.drop_first(), e, x);
        if s[0].id@ == x {
            assert(find_entry(s.push(e), x) == Some(s.push(e)[0]));
            assert(find_entry(s, x) == Some(s[0]));
        } else {
            assert(find_entry(s.push(e), x) == find_entry(s.drop_first().push(e), x));
            assert(find_entry(s, x) == find_entry(s.drop_first(), x));
        }
    }
}

proof fn lemma_has_id_push(s: Seq<WorkspaceEntry>, e: WorkspaceEntry, x: Seq<char>)
    requires
        has_id(s, x),
    ensures
        has_id(s.push(e), x),
{
    lemma_find_push(s, e, x);
}

/// Appending a parentless plain checkout with a fresh id keeps the
/// registry invariant.
proof fn lemma_push_main_preserves_wf(s: Seq<WorkspaceEntry>, e: WorkspaceEntry)
    requires
        entries_wf(s),
        !has_id(s, e.id@),
        e.kind is Main,
        e.parent_id is None,
    ensures
        entries_wf(s.push(e)),
{
    let t = s.push(e);
    assert forall|i: int, j: int| 0 <= i < j < t.len() implies t[i].id@ != t[j].id@ by {
        if j == s.len() {
            lemma_member_has_id(s, i);
        }
    }
    assert forall|i: int| 0 <= i < t.len() implies kind_parent_ok(t, #[trigger] t[i]) by {
        if i < s.len() {
            assert(kind_parent_ok(s, s[i]));
            match s[i].parent_id {
                Option::Some(p) => {
                    lemma_find_push(s, e, p@);
                },
                Option::None => {},
            }
        }
    }
}

/// Appending a worktree whose parent resolves to a plain checkout, under
/// a fresh id, keeps the registry invariant.
proof fn lemma_push_worktree_preserves_wf(s: Seq<WorkspaceEntry>, e: WorkspaceEntry)
    requires
        entries_wf(s),
        !has_id(s, e.id@),
        e.kind is Worktree,
        e.parent_id matches Some(p) && find_entry(s, p@) matches Some(m) && m.kind is Main,
    ensures
        entries_wf(s.push(e)),
{
    let t = s.push(e);
    assert forall|i: int, j: int| 0 <= i < j < t.len() implies t[i].id@ != t[j].id@ by {
        if j == s.len() {
            lemma_member_has_id(s, i);
        }
    }
    let p = e.parent_id->Some_0;
    lemma_find_push(s, e, p@);
    assert forall|i: int| 0 <= i < t.len() implies kind_parent_ok(t, #[trigger] t[i]) by {
        if i < s.len() {
            assert(kind_parent_ok(s, s[i]));
            match s[i].parent_id {
                Option::Some(q) => {
                    lemma_find_push(s, e, q@);
                },
                Option::None => {},
            }
        } else {
            assert(t[i] == e);
        }
    }
}

// ---------------------------------------------------------------------------
// Cascading removal.
// ---------------------------------------------------------------------------

/// True when removing the workspace `id` leaves this entry in place:
/// it is neither the workspace itself nor one of its worktree children.
pub open spec fn cascade_keeps(e: WorkspaceEntry, id: Seq<char>) -> bool {
    e.id@ != id && !is_child(e, id)
}

/// The entry list after `id` and all entries naming it as parent go.
pub open spec fn cascade_remove(s: Seq<WorkspaceEntry>, id: Seq<char>) -> Seq<WorkspaceEntry>
    decreases s.len(),
{
    if s.len() == 0 {
        Seq::<WorkspaceEntry>::empty()
    } else {
        let rest = cascade_remove(s.drop_last(), id);
        if cascade_keeps(s.last(), id) {
            rest.push(s.last())
        } else {
            rest
        }
    }
}

/// The entries naming `id` as parent, in registry order.
pub open spec fn children_of(s: Seq<WorkspaceEntry>, id: Seq<char>) -> Seq<WorkspaceEntry>
    decreases s.len(),
{
    if s.len() == 0 {
        Seq::<WorkspaceEntry>::empty()
    } else {
        let rest = children_of(s.drop_last(), id);
        if is_child(s.last(), id) {
            rest.push(s.last())
        } else {
            rest
        }
    }
}

pub proof fn lemma_cascade_contains(s: Seq<WorkspaceEntry>, id: Seq<char>)
    ensures
        forall|x: WorkspaceEntry|
            cascade_remove(s, id).contains(x) <==> (s.contains(x) && cascade_keeps(x, id)),
    decreases s.len(),
{
    if s.len() == 0 {
        assert forall|x: WorkspaceEntry| !s.contains(x) by {}
    } else {
        let t = s.drop_last();
        let e = s.last();
        lemma_cascade_contains(t, id);
        assert forall|x: WorkspaceEntry| s.contains(x) implies (t.contains(x) || x == e) by {
            let i = choose|i: int| 0 <= i < s.len() && s[i] == x;
            if i < s.len() - 1 {
                assert(t[i] == x);
            }
        }
        assert forall|x: WorkspaceEntry| t.contains(x) implies s.contains(x) by {
            let i = choose|i: int| 0 <= i < t.len() && t[i] == x;
            assert(s[i] == x);
        }
        assert(s.contains(e)) by {
            assert(s[s.len() - 1] == e);
        }
        if cascade_keeps(e, id) {
            let c = cascade_remove(t, id);
            assert forall|x: WorkspaceEntry| c.push(e).contains(x) implies (c.contains(x) || x
                == e) by {
                let i = choose|i: int| 0 <= i < c.push(e).len() && c.push(e)[i] == x;
                if i < c.len() {
                    assert(c[i] == x);
                }
            }
            assert forall|x: WorkspaceEntry| c.contains(x) implies c.push(e).contains(x) by {
                let i = choose|i: int| 0 <= i < c.len() && c[i] == x;
                assert(c.push(e)[i] == x);
            }
            assert(c.push(e).contains(e)) by {
                assert(c.push(e)[c.len() as int] == e);
            }
        }
    }
}

/// In a list with unique ids, any member is what its id finds.
pub proof fn lemma_find_unique(s: Seq<WorkspaceEntry>, x: WorkspaceEntry)
    requires
        forall|i: int, j: int| 0 <= i < j < s.len() ==> s[i].id@ != s[j].id@,
        s.contains(x),
    ensures
        find_entry(s, x.id@) == Some(x),
    decreases s.len(),
{
    let k = choose|k: int| 0 <= k < s.len() && s[k] == x;
    if s[0].id@ == x.id@ {
        if k != 0 {
            assert(s[0].id@ != s[k].id@);
        }
        assert(s[0] == x);
    } else {
        assert(k > 0);
        assert(s.drop_first()[k - 1] == x);
        assert(forall|i: int, j: int|
            0 <= i < j < s.drop_first().len() ==> s.drop_first()[i].id@ != s.drop_first()[j].id@);
        lemma_find_unique(s.drop_first(), x);
    }
}

/// Cascading removal keeps the registry invariant, and leaves no entry
/// carrying or naming the removed id.
pub proof fn lemma_cascade_wf(s: Seq<WorkspaceEntry>, id: Seq<char>)
    requires
        entries_wf(s),
    ensures
        entries_wf(cascade_remove(s, id)),
        forall|i: int|
            0 <= i < cascade_remove(s, id).len() ==> cascade_keeps(
                #[trigger] cascade_remove(s, id)[i],
                id,
            ),
        forall|i: int|
            0 <= i < cascade_remove(s, id).len() ==> s.contains(
                #[trigger] cascade_remove(s, id)[i],
            ),
{
    let c = cascade_remove(s, id);
    lemma_cascade_contains(s, id);
    assert forall|i: int| 0 <= i < c.len() implies cascade_keeps(#[trigger] c[i], id)
        && s.contains(c[i]) by {
        assert(c.contains(c[i]));
    }
    assert forall|i: int, j: int| 0 <= i < j < c.len() implies c[i].id@ != c[j].id@ by {
        lemma_cascade_unique(s, id);
    }
    assert forall|i: int| 0 <= i < c.len() implies kind_parent_ok(c, #[trigger] c[i]) by {
        assert(c.contains(c[i]));
        let x = c[i];
        let k = choose|k: int| 0 <= k < s.len() && s[k] == x;
        assert(kind_parent_ok(s, x));
        if x.kind is Worktree {
            let p = x.parent_id->Some_0;
            let m = find_entry(s, p@)->Some_0;
            lemma_find_is_member(s, p@);
            assert(s.contains(m));
            assert(m.kind is Main);
            // The parent is neither the removed workspace nor a child of it.
            assert(m.id@ != id) by {
                if m.id@ == id {
                    assert(is_child(x, id));
                }
            }
            assert(!is_child(m, id)) by {
                let km = choose|km: int| 0 <= km < s.len() && s[km] == m;
                assert(s[km].kind is Main);
                assert(s[km].parent_id is None);
            }
            assert(c.contains(m));
            lemma_cascade_unique(s, id);
            lemma_find_unique(c, m);
        } else {
            // A kept plain checkout still has no parent, so the right-hand
            // side of the invariant stays false.
            assert(x.parent_id is None);
        }
    }
    assert forall|i: int|
        0 <= i < c.len() && (#[trigger] c[i]).kind is Main implies c[i].parent_id is None by {
        assert(c.contains(c[i]));
    }
}

proof fn lemma_cascade_unique(s: Seq<WorkspaceEntry>, id: Seq<char>)
    requires
        forall|i: int, j: int| 0 <= i < j < s.len() ==> s[i].id@ != s[j].id@,
    ensures
        forall|i: int, j: int|
            0 <= i < j < cascade_remove(s, id).len() ==> cascade_remove(s, id)[i].id@
                != cascade_remove(s, id)[j].id@,
    decreases s.len(),
{
    if s.len() > 0 {
        let t = s.drop_last();
        let e = s.last();
        assert(forall|i: int, j: int| 0 <= i < j < t.len() ==> t[i].id@ != t[j].id@);
        lemma_cascade_unique(t, id);
        if cascade_keeps(e, id) {
            let c = cascade_remove(t, id);
            lemma_cascade_contains(t, id);
            assert forall|i: int, j: int|
                0 <= i < j < c.push(e).len() implies c.push(e)[i].id@ != c.push(e)[j].id@ by {
                if j == c.len() {
                    assert(c.contains(c[i]));
                    assert(t.contains(c[i]));
                    let k = choose|k: int| 0 <= k < t.len() && t[k] == c[i];
                    assert(s[k] == t[k]);
                    assert(s[k].id@ != s[s.len() - 1].id@);
                }
            }
        }
    }
}

/// The entry with its per-workspace settings replaced.
pub open spec fn with_settings(e: WorkspaceEntry, s: WorkspaceSettings) -> WorkspaceEntry {
    WorkspaceEntry {
        id: e.id,
        name: e.name,
        path: e.path,
        codex_bin: e.codex_bin,
        kind: e.kind,
        parent_id: e.parent_id,
        worktree: e.worktree,
        settings: s,
    }
}

/// The entry with its binary override replaced.
pub open spec fn with_codex_bin(e: WorkspaceEntry, b: Option<String>) -> WorkspaceEntry {
    WorkspaceEntry {
        id: e.id,
        name: e.name,
        path: e.path,
        codex_bin: b,
        kind: e.kind,
        parent_id: e.parent_id,
        worktree: e.worktree,
        settings: e.settings,
    }
}

/// Finding by id sees only ids, kinds and parents, so two lists that
/// agree on those agree on every find.
proof fn lemma_find_same_shape(s: Seq<WorkspaceEntry>, u: Seq<WorkspaceEntry>, x: Seq<char>)
    requires
        u.len() == s.len(),
        forall|i: int|
            0 <= i < s.len() ==> (#[trigger] u[i]).id@ == s[i].id@ && u[i].kind == s[i].kind
                && u[i].parent_id == s[i].parent_id,
    ensures
        find_entry(u, x) is Some <==> find_entry(s, x) is Some,
        find_entry(u, x) is Some ==> find_entry(u, x)->Some_0.kind == find_entry(
            s,
            x,
        )->Some_0.kind,
    decreases s.len(),
{
    if s.len() > 0 {
        assert(u[0].id@ == s[0].id@);
        if s[0].id@ != x {
            assert(forall|i: int|
                0 <= i < s.drop_first().len() ==> (#[trigger] u.drop_first()[i]).id@
                    == s.drop_first()[i].id@ && u.drop_first()[i].kind == s.drop_first()[i].kind
                    && u.drop_first()[i].parent_id == s.drop_first()[i].parent_id);
            lemma_find_same_shape(s.drop_first(), u.drop_first(), x);
        }
    }
}

/// The registry invariant sees only ids, kinds and parents, so a list
/// that agrees on those with a well-formed one is well-formed.
proof fn lemma_wf_same_shape(s: Seq<WorkspaceEntry>, u: Seq<WorkspaceEntry>)
    requires
        entries_wf(s),
        u.len() == s.len(),
        forall|i: int|
            0 <= i < s.len() ==> (#[trigger] u[i]).id@ == s[i].id@ && u[i].kind == s[i].kind
                && u[i].parent_id == s[i].parent_id,
    ensures
        entries_wf(u),
{
    assert forall|i: int| 0 <= i < u.len() implies kind_parent_ok(u, #[trigger] u[i]) by {
        assert(kind_parent_ok(s, s[i]));
        match u[i].parent_id {
            Option::Some(p) => {
                lemma_find_same_shape(s, u, p@);
            },
            Option::None => {},
        }
    }
}

/// Removing a worktree keeps the registry invariant: no entry names a
/// worktree as its parent.
proof fn lemma_remove_worktree_wf(s: Seq<WorkspaceEntry>, k: int)
    requires
        entries_wf(s),
        0 <= k < s.len(),
        s[k].kind is Worktree,
    ensures
        entries_wf(s.remove(k)),
{
    let u = s.remove(k);
    assert(u == s.subrange(0, k) + s.subrange(k + 1, s.len() as int));
    assert forall|i: int|
        0 <= i < u.len() implies (#[trigger] u[i]) == if i < k {
        s[i]
    } else {
        s[i + 1]
    } by {}
    assert forall|i: int| 0 <= i < u.len() implies kind_parent_ok(u, #[trigger] u[i]) by {
        let x = u[i];
        let oi: int = if i < k {
            i
        } else {
            i + 1
        };
        assert(x == s[oi]);
        assert(kind_parent_ok(s, s[oi]));
        if x.kind is Worktree {
            let p = x.parent_id->Some_0;
            let m = find_entry(s, p@)->Some_0;
            lemma_find_is_member(s, p@);
            let km = choose|km: int| 0 <= km < s.len() && s[km] == m && s[km].id@ == p@;
            assert(km != k) by {
                if km == k {
                    assert(m.kind is Main);
                }
            }
            assert(u.contains(m)) by {
                if km < k {
                    assert(u[km] == m);
                } else {
                    assert(u[km - 1] == m);
                }
            }
            lemma_find_unique(u, m);
        } else {
            assert(x.parent_id is None);
        }
    }
}

// ---------------------------------------------------------------------------
// Salvaging a partially corrupt persisted list.
// ---------------------------------------------------------------------------

/// True when an entry can join a salvaged prefix: its id is fresh there
/// and, for a worktree, its parent already resolves to a plain checkout
/// kept earlier.
pub open spec fn salvage_accepts(rest: Seq<WorkspaceEntry>, e: WorkspaceEntry) -> bool {
    &&& !has_id(rest, e.id@)
    &&& (e.kind is Main || (e.parent_id matches Some(p) && {
        &&& find_entry(rest, p@) matches Some(m)
        &&& m.kind is Main
    }))
}

/// The entry as the salvage keeps it: a plain checkout sheds any stray
/// parent reference, a worktree is kept as it is.
pub open spec fn salvage_fix(e: WorkspaceEntry) -> WorkspaceEntry {
    if e.kind is Main {
        WorkspaceEntry {
            id: e.id,
            name: e.name,
            path: e.path,
            codex_bin: e.codex_bin,
            kind: e.kind,
            parent_id: Option::None,
            worktree: e.worktree,
            settings: e.settings,
        }
    } else {
        e
    }
}

/// What loading keeps of a partially corrupt list: each entry in turn,
/// kept exactly when it is consistent with what was kept before it.
pub open spec fn salvage(s: Seq<WorkspaceEntry>) -> Seq<WorkspaceEntry>
    decreases s.len(),
{
    if s.len() == 0 {
        Seq::<WorkspaceEntry>::empty()
    } else {
        let rest = salvage(s.drop_last());
        if salvage_accepts(rest, s.last()) {
            rest.push(salvage_fix(s.last()))
        } else {
            rest
        }
    }
}

/// Whatever the salvage keeps satisfies the registry invariant.
pub proof fn lemma_salvage_wf(s: Seq<WorkspaceEntry>)
    ensures
        entries_wf(salvage(s)),
    decreases s.len(),
{
    if s.len() > 0 {
        let t = s.drop_last();
        let e = s.last();
        lemma_salvage_wf(t);
        let rest = salvage(t);
        if salvage_accepts(rest, e) {
            if e.kind is Main {
                lemma_push_main_preserves_wf(rest, salvage_fix(e));
            } else {
                assert(salvage_fix(e) == e);
                lemma_push_worktree_preserves_wf(rest, e);
            }
        }
    }
}

/// The live-session ids that still resolve against an entry list.
pub open spec fn retain_ids(c: Seq<String>, s: Seq<WorkspaceEntry>) -> Seq<String>
    decreases c.len(),
{
    if c.len() == 0 {
        Seq::<String>::empty()
    } else {
        let rest = retain_ids(c.drop_last(), s);
        if has_id(s, c.last()@) {
            rest.push(c.last())
        } else {
            rest
        }
    }
}

pub proof fn lemma_retain_ids_contains(c: Seq<String>, s: Seq<WorkspaceEntry>)
    ensures
        forall|x: String|
            retain_ids(c, s).contains(x) <==> (c.contains(x) && has_id(s, x@)),
    decreases c.len(),
{
    if c.len() > 0 {
        let t = c.drop_last();
        let e = c.last();
        lemma_retain_ids_contains(t, s);
        assert forall|x: String| c.contains(x) implies (t.contains(x) || x == e) by {
            let i = choose|i: int| 0 <= i < c.len() && c[i] == x;
            if i < c.len() - 1 {
                assert(t[i] == x);
            }
        }
        assert forall|x: String| t.contains(x) implies c.contains(x) by {
            let i = choose|i: int| 0 <= i < t.len() && t[i] == x;
            assert(c[i] == x);
        }
        assert(c.contains(e)) by {
            assert(c[c.len() - 1] == e);
        }
        if has_id(s, e@) {
            let r = retain_ids(t, s);
            assert forall|x: String| r.push(e).contains(x) implies (r.contains(x) || x == e) by {
                let i = choose|i: int| 0 <= i < r.push(e).len() && r.push(e)[i] == x;
                if i < r.len() {
                    assert(r[i] == x);
                }
            }
            assert forall|x: String| r.contains(x) implies r.push(e).contains(x) by {
                let i = choose|i: int| 0 <= i < r.len() && r[i] == x;
                assert(r.push(e)[i] == x);
            }
            assert(r.push(e).contains(e)) by {
                assert(r.push(e)[r.len() as int] == e);
            }
        }
    }
}

proof fn lemma_retain_ids_views(c: Seq<String>, s: Seq<WorkspaceEntry>)
    ensures
        forall|i: int|
            0 <= i < retain_ids(c, s).len() ==> c.contains(#[trigger] retain_ids(c, s)[i])
                && has_id(s, retain_ids(c, s)[i]@),
{
    lemma_retain_ids_contains(c, s);
    assert forall|i: int|
        0 <= i < retain_ids(c, s).len() implies c.contains(#[trigger] retain_ids(c, s)[i])
        && has_id(s, retain_ids(c, s)[i]@) by {
        assert(retain_ids(c, s).contains(retain_ids(c, s)[i]));
    }
}

proof fn lemma_retain_ids_unique(c: Seq<String>, s: Seq<WorkspaceEntry>)
    requires
        forall|i0: int, j0: int| 0 <= i0 < j0 < c.len() ==> c[i0]@ != c[j0]@,
    ensures
        forall|i: int, j: int|
            0 <= i < j < retain_ids(c, s).len() ==> retain_ids(c, s)[i]@ != retain_ids(c, s)[j]@,
    decreases c.len(),
{
    if c.len() > 0 {
        let t = c.drop_last();
        let e = c.last();
        assert(forall|i0: int, j0: int| 0 <= i0 < j0 < t.len() ==> t[i0]@ != t[j0]@);
        lemma_retain_ids_unique(t, s);
        lemma_retain_ids_contains(t, s);
        if has_id(s, e@) {
            let r = retain_ids(t, s);
            assert forall|i: int, j: int|
                0 <= i < j < r.push(e).len() implies r.push(e)[i]@ != r.push(e)[j]@ by {
                if j == r.len() {
                    assert(r.contains(r[i]));
                    assert(t.contains(r[i]));
                    let k = choose|k: int| 0 <= k < t.len() && t[k] == r[i];
                    assert(c[k]@ != c[c.len() - 1]@);
                } else {
                    assert(r.push(e)[i] == r[i] && r.push(e)[j] == r[j]);
                }
            }
            assert(retain_ids(c, s) == r.push(e));
        } else {
            assert(retain_ids(c, s) == retain_ids(t, s));
        }
    }
}

// ---------------------------------------------------------------------------
// The listing order.
// ---------------------------------------------------------------------------

/// The primary listing key: the configured sort order, entries without
/// one sorting last.
pub open spec fn order_key(a: WorkspaceInfo) -> u32 {
    match a.settings.sort_order {
        Option::Some(n) => n,
        Option::None => u32::MAX,
    }
}

/// The listing order: by sort order, then by name.
pub open spec fn info_le(a: WorkspaceInfo, b: WorkspaceInfo) -> bool {
    order_key(a) < order_key(b) || (order_key(a) == order_key(b) && crate::strutil::lex_le(
        a.name@,
        b.name@,
    ))
}

pub proof fn lemma_info_le_total(a: WorkspaceInfo, b: WorkspaceInfo)
    ensures
        info_le(a, b) || info_le(b, a),
{
    if order_key(a) == order_key(b) {
        crate::strutil::lemma_lex_le_total(a.name@, b.name@);
    }
}

fn info_le_exec(a: &WorkspaceInfo, b: &WorkspaceInfo) -> (r: bool)
    ensures
        r == info_le(*a, *b),
{
    let ao = match a.settings.sort_order {
        Option::Some(n) => n,
        Option::None => u32::MAX,
    };
    let bo = match b.settings.sort_order {
        Option::Some(n) => n,
        Option::None => u32::MAX,
    };
    if ao != bo {
        ao < bo
    } else {
        crate::strutil::str_le(a.name.as_str(), b.name.as_str())
    }
}

/// Sorts a listing by sort order, then name: the result is ordered and
/// holds exactly the elements given.
pub fn sort_workspaces(v: &mut Vec<WorkspaceInfo>)
    ensures
        final(v)@.len() == old(v)@.len(),
        final(v)@.to_multiset() == old(v)@.to_multiset(),
        forall|i: int, j: int|
            0 <= i <= j < final(v)@.len() ==> info_le(final(v)@[i], final(v)@[j]),
{
    broadcast use vstd::seq_lib::group_to_multiset_ensures;
    broadcast use vstd::multiset::group_multiset_axioms;

    let mut out: Vec<WorkspaceInfo> = Vec::new();
    while v.len() > 0
        invariant
            out@.to_multiset().add(v@.to_multiset()) == old(v)@.to_multiset(),
            out@.len() + v@.len() == old(v)@.len(),
            forall|i: int, j: int| 0 <= i <= j < out@.len() ==> info_le(out@[i], out@[j]),
            forall|i: int, j: int|
                0 <= i < out@.len() && 0 <= j < v@.len() ==> info_le(out@[i], v@[j]),
        decreases v@.len(),
    {
        let mut m: usize = 0;
        let mut i: usize = 1;
        proof {
            lemma_info_le_refl(v@[0]);
        }
        while i < v.len()
            invariant
                v@.len() > 0,
                m < i <= v@.len(),
                forall|j: int| 0 <= j < i ==> info_le(v@[m as int], #[trigger] v@[j]),
            decreases v@.len() - i,
        {
            if info_le_exec(&v[i], &v[m]) && !info_le_exec(&v[m], &v[i]) {
                proof {
                    lemma_info_le_refl(v@[i as int]);
                    assert forall|j: int| 0 <= j < i + 1 implies info_le(
                        v@[i as int],
                        #[trigger] v@[j],
                    ) by {
                        if j < i {
                            lemma_info_le_trans(v@[i as int], v@[m as int], v@[j]);
                        }
                    }
                }
                m = i;
            } else {
                proof {
                    lemma_info_le_total(v@[i as int], v@[m as int]);
                }
            }
            i += 1;
        }
        let ghost v_before = v@;
        let ghost out_before = out@;
        let x = v.remove(m);
        out.push(x);
        proof {
            assert(v@ == v_before.remove(m as int));
            vstd::seq_lib::to_multiset_remove(v_before, m as int);
            assert(out@ == out_before.push(x));
            vstd::seq_lib::to_multiset_build(out_before, x);
            assert(v_before.to_multiset().count(x) > 0) by {
                v_before.to_multiset_ensures();
                assert(v_before.contains(x)) by {
                    assert(v_before[m as int] == x);
                }
            }
            assert(out@.to_multiset().add(v@.to_multiset()) =~= out_before.to_multiset().add(
                v_before.to_multiset(),
            ));
            assert forall|j: int| 0 <= j < v@.len() implies info_le(x, #[trigger] v@[j]) by {
                assert(v_before.remove(m as int) == v_before.subrange(0, m as int)
                    + v_before.subrange(m + 1, v_before.len() as int));
                if j < m {
                    assert(v@[j] == v_before[j]);
                } else {
                    assert(v@[j] == v_before[j + 1]);
                }
            }
            assert forall|i0: int, j0: int| #![trigger out@[i0], out@[j0]]
                0 <= i0 <= j0 < out@.len() implies info_le(out@[i0], out@[j0]) by {
                if j0 == out@.len() - 1 && i0 < j0 {
                    assert(out@[i0] == out_before[i0]);
                    assert(info_le(out_before[i0], x));
                }
            }
            assert forall|i0: int, j0: int| #![trigger out@[i0], v@[j0]]
                0 <= i0 < out@.len() && 0 <= j0 < v@.len() implies info_le(
                out@[i0],
                v@[j0],
            ) by {
                if i0 < out@.len() - 1 {
                    assert(v_before.remove(m as int) == v_before.subrange(0, m as int)
                        + v_before.subrange(m + 1, v_before.len() as int));
                    if j0 < m {
                        assert(v@[j0] == v_before[j0]);
                    } else {
                        assert(v@[j0] == v_before[j0 + 1]);
                    }
                } else {
                    assert(out@[i0] == x);
                }
            }
        }
    }
    *v = out;
}

proof fn lemma_info_le_refl(a: WorkspaceInfo)
    ensures
        info_le(a, a),
{
    crate::strutil::lemma_lex_le_refl(a.name@);
}

proof fn lemma_info_le_trans(a: WorkspaceInfo, b: WorkspaceInfo, c: WorkspaceInfo)
    requires
        info_le(a, b),
        info_le(b, c),
    ensures
        info_le(a, c),
{
    if order_key(a) == order_key(b) && order_key(b) == order_key(c) {
        crate::strutil::lemma_lex_le_trans(a.name@, b.name@, c.name@);
    }
}

/// The path with its trailing separators removed.
pub open spec fn strip_trailing_slashes(p: Seq<char>) -> Seq<char>
    decreases p.len(),
{
    if p.len() > 0 && p.last() == '/' {
        strip_trailing_slashes(p.drop_last())
    } else {
        p
    }
}

/// What follows the last separator.
pub open spec fn after_last_slash(p: Seq<char>) -> Seq<char>
    decreases p.len(),
{
    if p.len() == 0 {
        p
    } else if p.last() == '/' {
        Seq::<char>::empty()
    } else {
        after_last_slash(p.drop_last()).push(p.last())
    }
}

/// The display name a workspace takes from its path: the final path
/// segment, or "Workspace" when the path has none.
pub open spec fn spec_workspace_name(p: Seq<char>) -> Seq<char> {
    let base = after_last_slash(strip_trailing_slashes(p));
    if base.len() == 0 {
        "Workspace"@
    } else {
        base
    }
}

proof fn lemma_strip_trailing(p: Seq<char>, e: int)
    requires
        0 <= e <= p.len(),
        forall|j: int| e <= j < p.len() ==> p[j] == '/',
        e == 0 || p[e - 1] != '/',
    ensures
        strip_trailing_slashes(p) == p.subrange(0, e),
    decreases p.len() - e,
{
    if e == p.len() {
        assert(p.subrange(0, e) =~= p);
    } else {
        lemma_strip_trailing(p.drop_last(), e);
        assert(p.drop_last().subrange(0, e) =~= p.subrange(0, e));
    }
}

proof fn lemma_after_last(t: Seq<char>, k: int)
    requires
        0 <= k <= t.len(),
        forall|j: int| k <= j < t.len() ==> t[j] != '/',
        k == 0 || t[k - 1] == '/',
    ensures
        after_last_slash(t) == t.subrange(k, t.len() as int),
    decreases t.len() - k,
{
    if k == t.len() {
        if k == 0 {
            assert(t.subrange(0, 0) =~= t);
        } else {
            assert(t.last() == '/');
            assert(t.subrange(k, t.len() as int) =~= Seq::<char>::empty());
        }
    } else {
        assert(t.last() != '/');
        lemma_after_last(t.drop_last(), k);
        assert(t.drop_last().subrange(k, t.drop_last().len() as int).push(t.last()) =~= t.subrange(
            k,
            t.len() as int,
        ));
    }
}

/// Derives a workspace's display name from its path: the final path
/// segment, or "Workspace" when the path has none.
pub fn derive_workspace_name(path: &str) -> (r: String)
    ensures
        r@ == spec_workspace_name(path@),
{
    let len = path.unicode_len();
    let mut end: usize = len;
    while end > 0 && path.get_char(end - 1) == '/'
        invariant
            len == path@.len(),
            end <= len,
            forall|j: int| end <= j < len ==> path@[j] == '/',
        decreases end,
    {
        end -= 1;
    }
    proof {
        lemma_strip_trailing(path@, end as int);
    }
    let ghost stripped = path@.subrange(0, end as int);
    let mut start: usize = end;
    while start > 0 && path.get_char(start - 1) != '/'
        invariant
            len == path@.len(),
            start <= end <= len,
            forall|j: int| start <= j < end ==> path@[j] != '/',
        decreases start,
    {
        start -= 1;
    }
    proof {
        assert(forall|j: int|
            start <= j < stripped.len() ==> stripped[j] == path@[j] && stripped[j] != '/');
        lemma_after_last(stripped, start as int);
    }
    if start == end {
        proof {
            assert(stripped.subrange(start as int, stripped.len() as int).len() == 0);
        }
        return String::from_str("Workspace");
    }
    let mut r = String::new();
    let mut i = start;
    while i < end
        invariant
            len == path@.len(),
            start <= i <= end <= len,
            r@ =~= path@.subrange(start as int, i as int),
        decreases end - i,
    {
        crate::strutil::push_char(&mut r, path.get_char(i));
        i += 1;
        assert(path@.subrange(start as int, i - 1).push(path@[i - 1]) =~= path@.subrange(
            start as int,
            i as int,
        ));
    }
    proof {
        assert(stripped.subrange(start as int, stripped.len() as int) =~= path@.subrange(
            start as int,
            end as int,
        ));
    }
    r
}

} // verus!
