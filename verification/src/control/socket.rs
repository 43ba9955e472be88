//! Where the control socket is, and what keeps it alive.

use crate::text::path::{join, joined};
use vstd::prelude::*;

verus! {

/// How often the socket is looked after, in milliseconds.
pub const SOCKET_CHECK_INTERVAL_MS: u64 = 1000;

/// How long a client that watches waits before it connects again, in
/// milliseconds.
pub const RECONNECT_INTERVAL_MS: u64 = 1000;

/// The variable that names the runtime directory is not set.
#[derive(Clone, Copy, Debug, PartialEq, Eq, Structural)]
pub struct NoRuntimeDir;

impl NoRuntimeDir {
    pub fn message(&self) -> (r: &'static str)
        ensures
            r@ == "XDG_RUNTIME_DIR is not set"@,
    {
        "XDG_RUNTIME_DIR is not set"
    }
}

/// The directory of the daemon below the runtime directory.
pub open spec fn daemon_dir(runtime: Seq<char>) -> Seq<char> {
    joined(runtime, "wluma"@)
}

/// The directory of the daemon.
pub fn runtime_dir(runtime: &Option<String>) -> (r: Result<String, NoRuntimeDir>)
    ensures
        r is Ok <==> runtime is Some,
        r matches Ok(path) ==> path@ == daemon_dir(runtime->0@),
        r matches Ok(path) ==> path@ == joined(runtime->0@, "wluma"@),
{
    match runtime {
        Some(runtime) => Ok(join(runtime.as_str(), "wluma")),
        None => Err(NoRuntimeDir),
    }
}

/// Where the control socket is.
pub fn socket_path(runtime: &Option<String>) -> (r: Result<String, NoRuntimeDir>)
    ensures
        r is Ok <==> runtime is Some,
        r matches Ok(path) ==> path@ == joined(daemon_dir(runtime->0@), "control.sock"@),
        r matches Ok(path) ==> path@ == joined(joined(runtime->0@, "wluma"@), "control.sock"@),
{
    match runtime_dir(runtime) {
        Ok(directory) => Ok(join(directory.as_str(), "control.sock")),
        Err(error) => Err(error),
    }
}

/// Where the lock of the one running daemon is.
pub fn lock_path(runtime: &Option<String>) -> (r: Result<String, NoRuntimeDir>)
    ensures
        r is Ok <==> runtime is Some,
        r matches Ok(path) ==> path@ == joined(daemon_dir(runtime->0@), "daemon.lock"@),
        r matches Ok(path) ==> path@ == joined(joined(runtime->0@, "wluma"@), "daemon.lock"@),
{
    match runtime_dir(runtime) {
        Ok(directory) => Ok(join(directory.as_str(), "daemon.lock")),
        Err(error) => Err(error),
    }
}

/// How an attempt to lock or to bind ends.
#[derive(Clone, Copy, Debug, PartialEq, Eq, Structural)]
pub enum Claim {
    Granted,
    /// Another daemon is running.
    Taken,
    /// Something else went wrong.
    Failed,
}

/// What an attempt to take the lock without waiting means: zero is success, and
/// having to wait means that another daemon holds the lock.
pub fn lock_outcome(result: i32, would_block: bool) -> (r: Claim)
    ensures
        r is Granted <==> result == 0,
        r is Taken <==> result != 0 && would_block,
{
    if result == 0 {
        Claim::Granted
    } else if would_block {
        Claim::Taken
    } else {
        Claim::Failed
    }
}

/// What came of removing what may be in the way.
#[derive(Clone, Copy, Debug, PartialEq, Eq, Structural)]
pub enum Removal {
    Removed,
    NotFound,
    Failed,
}

/// Whether someone answers at the socket means that it is taken. That is asked
/// only the first time.
pub fn may_replace(check_existing: bool, answered: bool) -> (r: bool)
    ensures
        r == !(check_existing && answered),
{
    !(check_existing && answered)
}

/// Whether the way is free after an attempt to clear it.
pub fn is_cleared(removal: Removal) -> (r: bool)
    ensures
        r == (removal != Removal::Failed),
{
    match removal {
        Removal::Removed => true,
        Removal::NotFound => true,
        Removal::Failed => false,
    }
}

/// What is found where the socket should be.
#[derive(Clone, Copy, Debug, PartialEq, Eq, Structural)]
pub struct Found {
    pub device: u64,
    pub inode: u64,
    pub is_socket: bool,
    pub mode: u32,
}

/// The socket is still the one that was bound, and only its owner may use it.
pub open spec fn is_healthy(found: Option<Found>, device: u64, inode: u64) -> bool {
    found matches Some(found) && found.device == device && found.inode == inode && found.is_socket
        && found.mode & 0o777 == 0o600
}

/// Whether the socket is still the one that was bound.
pub fn socket_is_healthy(found: Option<Found>, device: u64, inode: u64) -> (r: bool)
    ensures
        r == is_healthy(found, device, inode),
        r <==> found is Some && found->0.device == device && found->0.inode == inode
            && found->0.is_socket && found->0.mode & 0o777 == 0o600,
{
    match found {
        Some(found) => found.device == device && found.inode == inode && found.is_socket
            && found.mode & 0o777 == 0o600,
        None => false,
    }
}

/// The server of the socket.
#[derive(Clone, Copy, Debug, PartialEq, Eq, Structural)]
pub struct Server {
    /// The socket was not bound yet.
    pub initial: bool,
    pub listening: bool,
}

/// What happens to the server.
#[derive(Clone, Copy, Debug, PartialEq, Eq, Structural)]
pub enum ServerEvent {
    Bound,
    BindFailed,
    Connected,
    AcceptFailed,
    Checked { healthy: bool },
}

/// What the server does next.
#[derive(Clone, Copy, Debug, PartialEq, Eq, Structural)]
pub enum ServerStep {
    /// Wait for a client or for the time to look after the socket.
    Listen,
    /// Answer the client, and go on as with `Listen`.
    Answer,
    /// Bind the socket.
    Bind,
    /// Bind the socket after a while.
    BindLater,
    /// Give up.
    Fail,
}

/// What the server is and does after an event. Only the first attempt to bind
/// may fail for good; a socket that is lost later is restored.
pub open spec fn served(s: Server, event: ServerEvent) -> (Server, ServerStep) {
    match event {
        ServerEvent::Bound => (Server { initial: false, listening: true }, ServerStep::Listen),
        ServerEvent::BindFailed => if s.initial {
            (s, ServerStep::Fail)
        } else {
            (s, ServerStep::BindLater)
        },
        ServerEvent::Connected => (s, ServerStep::Answer),
        ServerEvent::AcceptFailed => (s, ServerStep::Fail),
        ServerEvent::Checked { healthy } => if healthy {
            (s, ServerStep::Listen)
        } else {
            (Server { listening: false, ..s }, ServerStep::Bind)
        },
    }
}

impl Server {
    pub fn new() -> (r: Server)
        ensures
            r == (Server { initial: true, listening: false }),
    {
        Server { initial: true, listening: false }
    }

    /// What the server does after an event.
    pub fn step(&mut self, event: ServerEvent) -> (r: ServerStep)
        ensures
            (*final(self), r) == served(*old(self), event),
            r is Answer <==> event is Connected,
            r is Bind <==> event == (ServerEvent::Checked { healthy: false }),
            r is BindLater <==> event is BindFailed && !old(self).initial,
            r is Fail <==> event is AcceptFailed || (event is BindFailed && old(self).initial),
            r is Listen <==> event is Bound || event == (ServerEvent::Checked { healthy: true }),
            final(self).initial == (old(self).initial && event !is Bound),
            final(self).listening == if r is Bind {
                false
            } else {
                old(self).listening || event is Bound
            },
    {
        match event {
            ServerEvent::Bound => {
                self.initial = false;
                self.listening = true;
                ServerStep::Listen
            },
            ServerEvent::BindFailed => {
                if self.initial {
                    ServerStep::Fail
                } else {
                    ServerStep::BindLater
                }
            },
            ServerEvent::Connected => ServerStep::Answer,
            ServerEvent::AcceptFailed => ServerStep::Fail,
            ServerEvent::Checked { healthy } => {
                if healthy {
                    ServerStep::Listen
                } else {
                    self.listening = false;
                    ServerStep::Bind
                }
            },
        }
    }
}

/// Once bound, a server is never stopped by a socket that is lost or that cannot
/// be bound again.
pub proof fn lost_socket_is_restored(s: Server, event: ServerEvent)
    requires
        !s.initial,
        event is Bound || event is BindFailed || event is Checked,
    ensures
        served(s, event).1 != ServerStep::Fail,
        !served(s, event).0.initial,
{
}

/// What a client that watches does after an attempt to connect.
#[derive(Clone, Copy, Debug, PartialEq, Eq, Structural)]
pub enum WatchStep {
    /// Send the request and show what comes back, and then connect again later.
    Show,
    /// Connect again later.
    Retry,
    /// Give up.
    Fail,
}

/// What a client that watches does after an attempt to connect. It gives up only
/// where it never was connected.
pub fn watch_step(connected_before: bool, connected: bool) -> (r: WatchStep)
    ensures
        r is Show <==> connected,
        r is Fail <==> !connected && !connected_before,
{
    if connected {
        WatchStep::Show
    } else if connected_before {
        WatchStep::Retry
    } else {
        WatchStep::Fail
    }
}

/// A socket is healthy only as long as it is the very one that was bound, and any change of whom it
/// lets in makes it unhealthy.
pub proof fn another_socket_is_not_healthy(found: Found, device: u64, inode: u64)
    ensures
        is_healthy(Some(found), device, inode) <==> found.device == device && found.inode == inode
            && found.is_socket && found.mode & 0o777 == 0o600,
        !is_healthy(None, device, inode),
{
}

/// The server answers each client, and binds again exactly when the socket is found unhealthy.
pub proof fn client_is_answered(s: Server, event: ServerEvent)
    ensures
        served(s, event).1 is Answer <==> event is Connected,
        served(s, event).1 is Bind <==> event == (ServerEvent::Checked { healthy: false }),
        served(s, event).1 is Fail <==> event is AcceptFailed || (event is BindFailed && s.initial),
        served(s, ServerEvent::Bound) == (
            Server { initial: false, listening: true },
            ServerStep::Listen,
        ),
{
}

} // verus!
