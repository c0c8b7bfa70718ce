//! The daemon's line-delimited socket protocol: requests carry a command and
//! an optional codebase name; responses carry a success flag with either data
//! or an error text. The connection handler reads a line, dispatches on the
//! command, writes one response line, and closes only after a `stop`.

use vstd::prelude::*;

use crate::runtime::{StatusPayload, SyncSummary, SyncTarget};

verus! {

/// A request parsed from one line: `{"cmd": ..., "codebase": ...}`.
pub struct DaemonRequest {
    pub cmd: String,
    pub codebase: Option<String>,
}

/// The data of a successful response.
#[derive(Debug)]
pub enum ResponseData {
    /// The `status` snapshot.
    Status(StatusPayload),
    /// The summary of a completed `sync`.
    Sync(SyncSummary),
    /// Acknowledgement of a `stop`.
    Stopping,
}

/// One response line: `{"ok": ..., "data": ..., "error": ...}`.
pub struct DaemonResponse {
    pub ok: bool,
    pub data: Option<ResponseData>,
    pub error: Option<String>,
}

impl DaemonResponse {
    /// A successful response carrying `data`.
    pub fn ok(data: ResponseData) -> (r: Self)
        ensures
            r.ok == true,
            r.data matches Some(d) && d == data,
            r.error is None,
    {
        DaemonResponse { ok: true, data: Some(data), error: None }
    }

    /// A failed response carrying `message`.
    pub fn error(message: String) -> (r: Self)
        ensures
            r.ok == false,
            r.data is None,
            r.error matches Some(m) && m@ == message@,
    {
        DaemonResponse { ok: false, data: None, error: Some(message) }
    }
}

/// Extract a response's data, or its error text. A failed response without
/// an error text yields a fixed message.
pub fn response_into_data(response: DaemonResponse) -> (r: Result<Option<ResponseData>, String>)
    ensures
        response.ok ==> (r matches Ok(d) && d == response.data),
        !response.ok ==> (response.error matches Some(e) ==> (r matches Err(m) && m@ == e@)),
        !response.ok && response.error is None ==> (r matches Err(m) && m@
            == "unknown daemon error"@),
{
    if response.ok {
        Result::Ok(response.data)
    } else {
        match response.error {
            Option::Some(e) => Result::Err(e),
            Option::None => Result::Err("unknown daemon error".to_owned()),
        }
    }
}

/// What the connection handler must do for a request.
#[derive(Debug)]
pub enum RequestAction {
    /// Build a status snapshot from cache and timestamps — a pure read.
    Status,
    /// Enqueue a sync job for the target and await its outcome.
    Sync(SyncTarget),
    /// Broadcast shutdown, acknowledge, and close this connection.
    Stop,
    /// Reply with an error naming the command; the connection stays open.
    Unknown,
}

/// Dispatch a request by its command string. A `sync` without a codebase
/// escalates to a full sync; an unrecognised command is reported, never
/// executed.
pub fn classify_request(req: &DaemonRequest) -> (r: RequestAction)
    ensures
        r is Status <==> req.cmd@ == "status"@,
        r is Stop <==> req.cmd@ == "stop"@,
        req.cmd@ == "sync"@ && req.codebase is None ==> (r matches RequestAction::Sync(t) && (
        t is All)),
        req.cmd@ == "sync"@ ==> (req.codebase matches Some(n) ==> (
        r matches RequestAction::Sync(t) && (t matches SyncTarget::Codebase(m) && m@ == n@))),
        r is Unknown <==> (req.cmd@ != "status"@ && req.cmd@ != "sync"@ && req.cmd@ != "stop"@),
{
    proof {
        reveal_strlit("status");
        reveal_strlit("sync");
        reveal_strlit("stop");
        assert("status"@.len() == 6 && "sync"@.len() == 4 && "stop"@.len() == 4);
        assert("sync"@[1] == 'y' && "stop"@[1] == 't');
        assert("status"@ != "sync"@ && "status"@ != "stop"@ && "sync"@ != "stop"@);
    }
    if crate::strutil::str_eq(req.cmd.as_str(), "status") {
        RequestAction::Status
    } else if crate::strutil::str_eq(req.cmd.as_str(), "sync") {
        match &req.codebase {
            Option::Some(name) => RequestAction::Sync(SyncTarget::Codebase(name.clone())),
            Option::None => RequestAction::Sync(SyncTarget::All),
        }
    } else if crate::strutil::str_eq(req.cmd.as_str(), "stop") {
        RequestAction::Stop
    } else {
        RequestAction::Unknown
    }
}

/// The response to a completed `sync` request: the summary on success, the
/// job's error text on failure.
pub fn sync_response(outcome: Result<SyncSummary, String>) -> (r: DaemonResponse)
    ensures
        outcome matches Ok(s) ==> r.ok == true && (r.data matches Some(d) && d
            == ResponseData::Sync(s)) && r.error is None,
        outcome matches Err(m) ==> r.ok == false && r.data is None && (r.error matches Some(e)
            && e@ == m@),
{
    match outcome {
        Result::Ok(summary) => DaemonResponse::ok(ResponseData::Sync(summary)),
        Result::Err(message) => DaemonResponse::error(message),
    }
}

/// The response to an unrecognised command, naming it.
pub fn unknown_command_response(cmd: &str) -> (r: DaemonResponse)
    ensures
        r.ok == false,
        r.data is None,
        r.error matches Some(m) && m@ == "unknown command '"@ + cmd@ + "'"@,
{
    let mut message = "unknown command '".to_owned();
    message.append(cmd);
    message.append("'");
    DaemonResponse::error(message)
}

/// The daemon's broadcast shutdown signal: set once by whoever first asks,
/// idempotent afterwards.
pub struct ShutdownFlag {
    pub requested: bool,
}

impl ShutdownFlag {
    /// A fresh signal: shutdown not requested.
    pub fn new() -> (r: ShutdownFlag)
        ensures
            r.requested == false,
    {
        ShutdownFlag { requested: false }
    }

    /// Request shutdown. Safe to call any number of times from any state.
    pub fn request(&mut self)
        ensures
            final(self).requested == true,
    {
        self.requested = true;
    }
}

/// Handle a `stop` request: broadcast shutdown and acknowledge. The
/// contract never mentions the prior state: a second `stop` — whatever
/// raced in between, including the socket's removal — leaves the flag set
/// and yields the same successful response as the first.
pub fn handle_stop(shutdown: &mut ShutdownFlag) -> (r: DaemonResponse)
    ensures
        final(shutdown).requested == true,
        r.ok == true,
        r.data matches Some(d) && d is Stopping,
        r.error is None,
{
    shutdown.request();
    DaemonResponse::ok(ResponseData::Stopping)
}

/// How the socket server may take the socket path before binding.
#[derive(Debug)]
pub enum BindPreparation {
    /// No file stands at the path: bind directly.
    BindDirectly,
    /// A stale socket file stands at the path: remove it, then bind.
    RemoveStaleAndBind,
}

/// Decide whether the daemon may bind its socket. `socket_exists` says
/// whether a file stands at the socket path, and `peer_answers` whether a
/// connection attempt to it found a live peer.
///
/// A live peer means another daemon already serves this home directory:
/// startup fails loudly with an "already in use" error and the live daemon's
/// socket is left alone. Only a socket file that answers no connection is
/// removed as stale.
pub fn prepare_socket_for_bind(socket: &str, socket_exists: bool, peer_answers: bool) -> (r:
    Result<BindPreparation, String>)
    ensures
        !socket_exists ==> (r matches Ok(p) && p is BindDirectly),
        socket_exists && peer_answers ==> (r matches Err(m) && m@
            == "daemon socket already in use: "@ + socket@),
        socket_exists && !peer_answers ==> (r matches Ok(p) && p is RemoveStaleAndBind),
{
    if !socket_exists {
        return Result::Ok(BindPreparation::BindDirectly);
    }
    if peer_answers {
        let mut message = "daemon socket already in use: ".to_owned();
        message.append(socket);
        return Result::Err(message);
    }
    Result::Ok(BindPreparation::RemoveStaleAndBind)
}


/// How a connection attempt to the daemon's socket failed, as the OS
/// reported it.
#[derive(Debug)]
pub enum ConnectErrorKind {
    NotFound,
    ConnectionRefused,
    ConnectionReset,
    Other,
}

/// What a connection failure means to a client: an absent socket file or a
/// refused or reset connection says the daemon is not running — the caller
/// suggests starting it; anything else is a plain I/O error.
pub fn connect_failure_means_not_running(kind: &ConnectErrorKind) -> (r: bool)
    ensures
        r == (kind is NotFound || kind is ConnectionRefused || kind is ConnectionReset),
{
    match kind {
        ConnectErrorKind::NotFound => true,
        ConnectErrorKind::ConnectionRefused => true,
        ConnectErrorKind::ConnectionReset => true,
        ConnectErrorKind::Other => false,
    }
}

/// How many attempts a client gives a status request against a daemon that
/// seems not to be running.
pub const STATUS_RETRY_ATTEMPTS: u64 = 5;

/// The pause between status retries, in milliseconds.
pub const STATUS_RETRY_DELAY_MS: u64 = 100;

/// The client's next step after a failed status request.
#[derive(Debug)]
pub enum RetryDecision {
    /// Try again after this many milliseconds.
    RetryAfterMs(u64),
    /// Report the failure.
    GiveUp,
}

/// Decide whether a failed status request is retried: only while the daemon
/// seems not to be running, and only until the attempts are used up; any
/// other failure is final. `attempt` counts completed attempts from zero.
pub fn status_retry_decision(attempt: u64, daemon_not_running: bool) -> (r: RetryDecision)
    ensures
        !daemon_not_running ==> r is GiveUp,
        daemon_not_running && attempt < STATUS_RETRY_ATTEMPTS - 1 ==> (
        r matches RetryDecision::RetryAfterMs(ms) && ms == STATUS_RETRY_DELAY_MS),
        daemon_not_running && attempt >= STATUS_RETRY_ATTEMPTS - 1 ==> r is GiveUp,
{
    if daemon_not_running && attempt < STATUS_RETRY_ATTEMPTS - 1 {
        RetryDecision::RetryAfterMs(STATUS_RETRY_DELAY_MS)
    } else {
        RetryDecision::GiveUp
    }
}

} // verus!
