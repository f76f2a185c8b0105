use vstd::prelude::*;

verus! {

/// The address the daemon listens on when none is given.
pub fn default_listen_addr() -> (r: String)
    ensures
        r@ == "127.0.0.1:4732"@,
{
    String::from_str("127.0.0.1:4732")
}

/// The usage text the command line prints.
pub fn usage() -> (r: String)
    ensures
        r@ == "USAGE:\n  codex-monitor-daemon [--listen <addr>] [--data-dir <path>] [--token <token> | --insecure-no-auth]\n\nOPTIONS:\n  --listen <addr>        Bind address (default: 127.0.0.1:4732)\n  --data-dir <path>      Data dir holding workspaces.json/settings.json\n  --token <token>        Shared token required by clients\n  --insecure-no-auth      Disable auth (dev only)\n  -h, --help             Show this help\n"@,
{
    String::from_str(
        "USAGE:\n  codex-monitor-daemon [--listen <addr>] [--data-dir <path>] [--token <token> | --insecure-no-auth]\n\nOPTIONS:\n  --listen <addr>        Bind address (default: 127.0.0.1:4732)\n  --data-dir <path>      Data dir holding workspaces.json/settings.json\n  --token <token>        Shared token required by clients\n  --insecure-no-auth      Disable auth (dev only)\n  -h, --help             Show this help\n",
    )
}

} // verus!
