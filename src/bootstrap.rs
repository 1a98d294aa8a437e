//! The client side of a session: whether to connect, spawn or give up, the
//! handshake that waits for a spawned daemon to become ready, and the lines
//! the daemon writes to announce readiness or a startup failure.
use crate::text::{same_chars, slice_of, chars_of, contains, contains_exec, extend, starts_with, starts_with_exec, string_of, views};
use vstd::prelude::*;

verus! {

/// The line a daemon writes once it listens and is ready.
pub const READY_SIGNAL: &'static str = "### ready";

/// The prefix of the line a daemon writes when its startup failed.
pub const ERROR_PREFIX: &'static str = "### error ";

/// How long the spawner waits for the handshake, in milliseconds.
pub const STARTUP_TIMEOUT_MS: u64 = 30000;

/// The failure when the handshake outlasts `STARTUP_TIMEOUT_MS`.
pub const STARTUP_TIMED_OUT: &'static str = "Daemon did not start within 30s";

/// The failure when the daemon's channel closes before either signal.
pub const EXITED_UNEXPECTEDLY: &'static str = "Daemon exited unexpectedly";

/// The failure when a freshly spawned daemon still cannot be reached.
pub const UNREACHABLE_AFTER_START: &'static str = "Could not connect to the session daemon after starting it";

/// The startup failure reported when the automation engine is not installed.
pub const ENGINE_MISSING: &'static str = "Playwright not found. Install with: npm install -g playwright && npx playwright install chromium";

/// How a session's daemon is to be made available.
pub enum StartAction {
    /// A daemon answered: use it.
    AlreadyRunning,
    /// None answered: spawn one, first removing a socket file left behind.
    Spawn { remove_stale_socket: bool },
}

/// Decides how to make the session's daemon available. Only a connection
/// that succeeded proves a daemon is alive; a socket file alone does not,
/// and one without a listener is removed before spawning.
pub fn ensure_started(reachable: bool, socket_file_present: bool) -> (r: StartAction)
    ensures
        reachable ==> r is AlreadyRunning,
        !reachable ==> (r matches StartAction::Spawn { remove_stale_socket } && remove_stale_socket
            == socket_file_present),
{
    if reachable {
        StartAction::AlreadyRunning
    } else {
        StartAction::Spawn { remove_stale_socket: socket_file_present }
    }
}

/// Where a client stands in its attempts to reach the daemon.
#[derive(PartialEq, Eq, Structural, Clone, Copy)]
pub enum Attempt {
    /// Nothing has been tried but connecting.
    First,
    /// The session's spawn lock is held: no other client can be starting a
    /// daemon for this session meanwhile.
    Locked,
    /// A daemon was spawned and reported ready.
    AfterSpawn,
}

/// What a client does after one connection attempt.
pub enum ClientAction {
    /// Connected: send the one request and read the one response.
    Exchange,
    /// Not connected: take the session's spawn lock, then try again.
    Lock,
    /// Not connected while holding the lock: spawn a daemon, wait for its
    /// handshake, try once more.
    Spawn { remove_stale_socket: bool },
    /// Not connected, and spawning is not allowed: no session is running.
    NotRunning,
    /// Not connected after a spawn: the invocation fails.
    Fail(String),
}

/// Decides the client's next move. `may_spawn` is false for the commands
/// that must not start a session by accident (stop, status). Two clients
/// that find no daemon at once serialize on the spawn lock, and the second
/// connects to the daemon the first started instead of spawning another.
pub fn next_client_action(attempt: Attempt, connected: bool, socket_file_present: bool, may_spawn: bool) -> (r:
    ClientAction)
    ensures
        connected ==> r is Exchange,
        !connected && attempt == Attempt::First && may_spawn ==> r is Lock,
        !connected && attempt == Attempt::First && !may_spawn ==> r is NotRunning,
        !connected && attempt == Attempt::Locked ==> (r matches ClientAction::Spawn {
            remove_stale_socket,
        } && remove_stale_socket == socket_file_present),
        !connected && attempt == Attempt::AfterSpawn ==> (r matches ClientAction::Fail(m) && m@
            == UNREACHABLE_AFTER_START@),
{
    if connected {
        return ClientAction::Exchange;
    }
    match attempt {
        Attempt::First => {
            if may_spawn {
                ClientAction::Lock
            } else {
                ClientAction::NotRunning
            }
        },
        Attempt::Locked => match ensure_started(false, socket_file_present) {
            StartAction::Spawn { remove_stale_socket } => ClientAction::Spawn { remove_stale_socket },
            StartAction::AlreadyRunning => ClientAction::Exchange,
        },
        Attempt::AfterSpawn => ClientAction::Fail(String::from_str(UNREACHABLE_AFTER_START)),
    }
}

/// One event on the daemon's readiness channel, as the spawner sees it.
pub enum ChannelEvent {
    /// A line was read (without its line break).
    Line(String),
    /// The channel closed.
    Closed,
    /// Reading failed with this message.
    ReadFailed(String),
}

/// The spawner's next move during the handshake.
pub enum HandshakeStep {
    /// Keep reading.
    Continue,
    /// The daemon is ready: detach from it.
    Ready,
    /// The startup failed with this message. `kill` asks for the child to be
    /// terminated (it outlived the deadline); otherwise it is waited for.
    Failed { message: String, kill: bool },
}

/// Decides one step of the handshake from the time elapsed since the spawn
/// and the latest event on the channel.
pub fn handshake_step(elapsed_ms: u64, event: &ChannelEvent) -> (r: HandshakeStep)
    ensures
        elapsed_ms > STARTUP_TIMEOUT_MS ==> (r matches HandshakeStep::Failed { message, kill } && kill
            && message@ == STARTUP_TIMED_OUT@),
        elapsed_ms <= STARTUP_TIMEOUT_MS ==> match event {
            ChannelEvent::Line(l) => {
                &&& l@ == READY_SIGNAL@ ==> r is Ready
                &&& l@ != READY_SIGNAL@ && starts_with(l@, ERROR_PREFIX@) ==> (r matches HandshakeStep::Failed {
                    message,
                    kill,
                } && !kill && message@ == l@.subrange(ERROR_PREFIX@.len() as int, l@.len() as int))
                &&& l@ != READY_SIGNAL@ && !starts_with(l@, ERROR_PREFIX@) ==> r is Continue
            },
            ChannelEvent::Closed => (r matches HandshakeStep::Failed { message, kill } && !kill
                && message@ == EXITED_UNEXPECTEDLY@),
            ChannelEvent::ReadFailed(e) => (r matches HandshakeStep::Failed { message, kill } && !kill
                && message@ == e@),
        },
{
    if elapsed_ms > STARTUP_TIMEOUT_MS {
        return HandshakeStep::Failed { message: String::from_str(STARTUP_TIMED_OUT), kill: true };
    }
    match event {
        ChannelEvent::Line(l) => {
            let v = chars_of(l.as_str());
            let ready = chars_of(READY_SIGNAL);
            let prefix = chars_of(ERROR_PREFIX);
            if same_chars(&v, &ready) {
                HandshakeStep::Ready
            } else if starts_with_exec(&v, &prefix) {
                let rest = slice_of(&v, prefix.len(), v.len());
                HandshakeStep::Failed { message: string_of(&rest), kill: false }
            } else {
                HandshakeStep::Continue
            }
        },
        ChannelEvent::Closed => HandshakeStep::Failed {
            message: String::from_str(EXITED_UNEXPECTEDLY),
            kill: false,
        },
        ChannelEvent::ReadFailed(e) => HandshakeStep::Failed { message: e.clone(), kill: false },
    }
}

/// The line a daemon writes when its startup failed with `msg`: the error
/// prefix, then the message, or an installation hint where the engine was
/// not found.
pub open spec fn startup_failure(msg: Seq<char>) -> Seq<char> {
    if contains(msg, "not found"@) {
        ERROR_PREFIX@ + ENGINE_MISSING@
    } else {
        ERROR_PREFIX@ + msg
    }
}

pub fn startup_failure_line(msg: &str) -> (r: String)
    ensures
        r@ == startup_failure(msg@),
{
    let m = chars_of(msg);
    let mut out = chars_of(ERROR_PREFIX);
    if contains_exec(&m, &chars_of("not found")) {
        extend(&mut out, &chars_of(ENGINE_MISSING));
    } else {
        extend(&mut out, &m);
    }
    string_of(&out)
}

/// The arguments that start a daemon for `session`.
pub fn daemon_args(session: &str) -> (r: Vec<String>)
    ensures
        views(r@) == seq!["--session"@, session@, "daemon"@],
{
    let mut r: Vec<String> = Vec::new();
    r.push(String::from_str("--session"));
    r.push(String::from_str(session));
    r.push(String::from_str("daemon"));
    assert(views(r@) =~= seq!["--session"@, session@, "daemon"@]);
    r
}

/// The name of the lock file that serializes spawning for `session`.
pub fn lock_file_name(session: &str) -> (r: String)
    ensures
        r@ == session@ + ".lock"@,
{
    let mut out = chars_of(session);
    extend(&mut out, &chars_of(".lock"));
    string_of(&out)
}

/// The name of the socket file of `session`.
pub fn socket_file_name(session: &str) -> (r: String)
    ensures
        r@ == session@ + ".sock"@,
{
    let mut out = chars_of(session);
    extend(&mut out, &chars_of(".sock"));
    string_of(&out)
}

} // verus!
