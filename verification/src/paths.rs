//! Filesystem layout of the runtime: every path the daemon and registry use,
//! derived from the user's home directory. Paths are plain strings joined
//! with `/`.

use vstd::prelude::*;
use vstd::string::*;

use crate::strutil::{spec_decimal, u64_to_string};
use crate::types::{CodebaseName, ProjectName};

verus! {

/// Service label of the daemon.
pub const DAEMON_LABEL: &'static str = "dev.orchestra.daemon";

/// Debounce window of the watcher, in milliseconds.
pub const DEBOUNCE_WINDOW_MS: u64 = 500;

/// Horizon after which debounce entries are pruned, in milliseconds.
pub const DEBOUNCE_PRUNE_HORIZON_MS: u64 = 30000;

/// File name of the standard log stream.
pub const DAEMON_STDOUT_LOG: &'static str = "daemon.log";

/// File name of the error log stream.
pub const DAEMON_STDERR_LOG: &'static str = "daemon-err.log";

/// File name of the daemon's Unix socket.
pub const DAEMON_SOCKET: &'static str = "daemon.sock";

/// `<home>/.orchestra`
pub open spec fn spec_orchestra_root(home: Seq<char>) -> Seq<char> {
    home + "/.orchestra"@
}

/// `<home>/.orchestra`
pub fn orchestra_root(home: &str) -> (r: String)
    ensures
        r@ == spec_orchestra_root(home@),
{
    let mut out = home.to_owned();
    out.append("/.orchestra");
    out
}

/// `<home>/.orchestra/projects`
pub open spec fn spec_projects_root(home: Seq<char>) -> Seq<char> {
    spec_orchestra_root(home) + "/projects"@
}

/// `<home>/.orchestra/projects`
pub fn projects_root(home: &str) -> (r: String)
    ensures
        r@ == spec_projects_root(home@),
{
    let mut out = orchestra_root(home);
    out.append("/projects");
    out
}

/// `<home>/.orchestra/run`
pub open spec fn spec_run_dir(home: Seq<char>) -> Seq<char> {
    spec_orchestra_root(home) + "/run"@
}

/// `<home>/.orchestra/run`
pub fn run_dir(home: &str) -> (r: String)
    ensures
        r@ == spec_run_dir(home@),
{
    let mut out = orchestra_root(home);
    out.append("/run");
    out
}

/// `<home>/.orchestra/daemon.sock`
pub open spec fn spec_socket_path(home: Seq<char>) -> Seq<char> {
    spec_orchestra_root(home) + "/"@ + "daemon.sock"@
}

/// `<home>/.orchestra/daemon.sock`
pub fn socket_path(home: &str) -> (r: String)
    ensures
        r@ == spec_socket_path(home@),
{
    let mut out = orchestra_root(home);
    out.append("/");
    out.append(DAEMON_SOCKET);
    out
}

/// `<home>/.orchestra/logs`
pub open spec fn spec_logs_dir(home: Seq<char>) -> Seq<char> {
    spec_orchestra_root(home) + "/logs"@
}

/// `<home>/.orchestra/logs`
pub fn logs_dir(home: &str) -> (r: String)
    ensures
        r@ == spec_logs_dir(home@),
{
    let mut out = orchestra_root(home);
    out.append("/logs");
    out
}

/// `<home>/.orchestra/logs/daemon.log`
pub fn stdout_log_path(home: &str) -> (r: String)
    ensures
        r@ == spec_logs_dir(home@) + "/"@ + "daemon.log"@,
{
    let mut out = logs_dir(home);
    out.append("/");
    out.append(DAEMON_STDOUT_LOG);
    out
}

/// `<home>/.orchestra/logs/daemon-err.log`
pub fn stderr_log_path(home: &str) -> (r: String)
    ensures
        r@ == spec_logs_dir(home@) + "/"@ + "daemon-err.log"@,
{
    let mut out = logs_dir(home);
    out.append("/");
    out.append(DAEMON_STDERR_LOG);
    out
}

/// `<home>/Library/LaunchAgents`
pub open spec fn spec_launch_agents_dir(home: Seq<char>) -> Seq<char> {
    home + "/Library/LaunchAgents"@
}

/// `<home>/Library/LaunchAgents`
pub fn launch_agents_dir(home: &str) -> (r: String)
    ensures
        r@ == spec_launch_agents_dir(home@),
{
    let mut out = home.to_owned();
    out.append("/Library/LaunchAgents");
    out
}

/// `<home>/Library/LaunchAgents/dev.orchestra.daemon.plist`
pub fn launchd_plist_path(home: &str) -> (r: String)
    ensures
        r@ == spec_launch_agents_dir(home@) + "/"@ + "dev.orchestra.daemon"@ + ".plist"@,
{
    let mut out = launch_agents_dir(home);
    out.append("/");
    out.append(DAEMON_LABEL);
    out.append(".plist");
    out
}

/// `<home>/.orchestra/projects/<project>` — the directory of one project.
pub open spec fn spec_project_dir(home: Seq<char>, project: Seq<char>) -> Seq<char> {
    spec_projects_root(home) + "/"@ + project
}

/// `<home>/.orchestra/projects/<project>` — the directory of one project.
pub fn project_dir(home: &str, project: &ProjectName) -> (r: String)
    ensures
        r@ == spec_project_dir(home@, project.0@),
{
    let mut out = projects_root(home);
    out.append("/");
    out.append(project.0.as_str());
    out
}

/// `<home>/.orchestra/projects/<project>/<codebase>.yaml`
pub open spec fn spec_codebase_path(
    home: Seq<char>,
    project: Seq<char>,
    codebase: Seq<char>,
) -> Seq<char> {
    spec_project_dir(home, project) + "/"@ + codebase + ".yaml"@
}

/// `<home>/.orchestra/projects/<project>/<codebase>.yaml`
pub fn codebase_path_at(home: &str, project: &ProjectName, codebase: &CodebaseName) -> (r:
    String)
    ensures
        r@ == spec_codebase_path(home@, project.0@, codebase.0@),
{
    let mut out = project_dir(home, project);
    out.append("/");
    out.append(codebase.0.as_str());
    out.append(".yaml");
    out
}

/// `<home>/.orchestra/hashes/<codebase>.json` — the hash store of a codebase.
pub open spec fn spec_store_path(home: Seq<char>, codebase: Seq<char>) -> Seq<char> {
    spec_orchestra_root(home) + "/hashes/"@ + codebase + ".json"@
}

/// `<home>/.orchestra/hashes/<codebase>.json` — the hash store of a codebase.
pub fn store_path_at(home: &str, codebase_name: &str) -> (r: String)
    ensures
        r@ == spec_store_path(home@, codebase_name@),
{
    let mut out = orchestra_root(home);
    out.append("/hashes/");
    out.append(codebase_name);
    out.append(".json");
    out
}

/// `<base>.<n>` — the path of the `n`-th rotated copy of a log file.
pub open spec fn spec_numbered_path(base: Seq<char>, n: nat) -> Seq<char> {
    base + "."@ + spec_decimal(n)
}

/// A rotated copy's path is never the live file's path.
pub proof fn lemma_numbered_ne_base(base: Seq<char>, n: nat)
    ensures
        spec_numbered_path(base, n) != base,
{
    crate::strutil::lemma_decimal_nonempty(n);
    assert(spec_numbered_path(base, n).len() > base.len());
}

/// Distinct backup numbers give distinct paths.
pub proof fn lemma_numbered_injective(base: Seq<char>, n: nat, m: nat)
    requires
        spec_numbered_path(base, n) == spec_numbered_path(base, m),
    ensures
        n == m,
{
    let a = spec_numbered_path(base, n);
    let b = spec_numbered_path(base, m);
    reveal_strlit(".");
    crate::strutil::lemma_decimal_nonempty(n);
    crate::strutil::lemma_decimal_nonempty(m);
    assert(spec_decimal(n) =~= a.subrange(base.len() as int + 1, a.len() as int));
    assert(spec_decimal(m) =~= b.subrange(base.len() as int + 1, b.len() as int));
    crate::strutil::lemma_decimal_injective(n, m);
}

/// `<base>.<n>` — the path of the `n`-th rotated copy of a log file.
pub fn numbered_path(base: &str, n: u64) -> (r: String)
    ensures
        r@ == spec_numbered_path(base@, n as nat),
{
    let mut out = base.to_owned();
    out.append(".");
    let digits = u64_to_string(n);
    out.append(digits.as_str());
    out
}

} // verus!
