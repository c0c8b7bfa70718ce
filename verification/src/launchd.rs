//! Service-manager integration: the property list that registers the daemon
//! with the OS service manager.

use vstd::prelude::*;

verus! {

/// The plist text up to the service label.
pub const PLIST_HEAD: &'static str = "<?xml version=\"1.0\" encoding=\"UTF-8\"?>\n<!DOCTYPE plist PUBLIC \"-//Apple//DTD PLIST 1.0//EN\" \"http://www.apple.com/DTDs/PropertyList-1.0.dtd\">\n<plist version=\"1.0\">\n<dict>\n  <key>Label</key>\n  <string>";

/// The plist text between the label and the binary path.
pub const PLIST_AFTER_LABEL: &'static str =
    "</string>\n  <key>ProgramArguments</key>\n  <array>\n    <string>";

/// The plist text between the binary path and the stdout log path.
pub const PLIST_AFTER_BINARY: &'static str = "</string>\n    <string>daemon</string>\n    <string>start</string>\n  </array>\n  <key>RunAtLoad</key>\n  <true/>\n  <key>KeepAlive</key>\n  <true/>\n  <key>StandardOutPath</key>\n  <string>";

/// The plist text between the stdout and stderr log paths.
pub const PLIST_AFTER_STDOUT: &'static str =
    "</string>\n  <key>StandardErrorPath</key>\n  <string>";

/// The plist text after the stderr log path.
pub const PLIST_TAIL: &'static str = "</string>\n</dict>\n</plist>\n";

/// The full plist for a daemon binary and log directory.
pub open spec fn spec_generate_plist(binary: Seq<char>, log_dir: Seq<char>) -> Seq<char> {
    PLIST_HEAD@ + "dev.orchestra.daemon"@ + PLIST_AFTER_LABEL@ + binary + PLIST_AFTER_BINARY@ + (
    log_dir + "/daemon.log"@) + PLIST_AFTER_STDOUT@ + (log_dir + "/daemon-err.log"@)
        + PLIST_TAIL@
}

/// Generate the launch-agent plist for the daemon: it runs
/// `<binary> daemon start` at load, keeps it alive, and sends the two output
/// streams to the log directory's files.
pub fn generate_plist(binary_path: &str, log_dir: &str) -> (r: String)
    ensures
        r@ == spec_generate_plist(binary_path@, log_dir@),
{
    let mut out = PLIST_HEAD.to_owned();
    out.append(crate::paths::DAEMON_LABEL);
    out.append(PLIST_AFTER_LABEL);
    out.append(binary_path);
    out.append(PLIST_AFTER_BINARY);
    out.append(log_dir);
    out.append("/daemon.log");
    out.append(PLIST_AFTER_STDOUT);
    out.append(log_dir);
    out.append("/daemon-err.log");
    out.append(PLIST_TAIL);
    proof {
        assert(out@ =~= spec_generate_plist(binary_path@, log_dir@));
    }
    out
}

} // verus!
