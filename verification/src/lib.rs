//! The verified core of a local daemon that orchestrates coding-agent
//! sessions over workspaces and git worktrees. It holds the workspace
//! registry and its invariants, the persisted document forms and their
//! round trips, the RPC dispatch table, the per-connection auth gate,
//! the event fan-out model, turn construction, and the pure pieces of
//! the git bridge. The process around it — sockets, subprocesses, git,
//! disk — performs the I/O between these decisions.

use vstd::prelude::*;

verus! {

/// True when the directory name is one the workspace file walk leaves out.
pub fn should_skip_dir(name: &str) -> (r: bool)
    ensures
        r == (name@ == ".git"@ || name@ == "node_modules"@ || name@ == "dist"@
            || name@ == "target"@ || name@ == "release-artifacts"@),
{
    crate::strutil::str_eq(name, ".git") || crate::strutil::str_eq(name, "node_modules")
        || crate::strutil::str_eq(name, "dist") || crate::strutil::str_eq(name, "target")
        || crate::strutil::str_eq(name, "release-artifacts")
}

} // verus!

pub mod cli;
pub mod codec;
pub mod conn;
pub mod dispatch;
pub mod events;
pub mod gitquery;
pub mod json;
pub mod model;
pub mod registry;
pub mod strutil;
pub mod turns;
pub mod worktree;
