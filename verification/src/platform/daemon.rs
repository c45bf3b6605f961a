//! Starting and stopping a daemon from the dashboard.
//!
//! The dashboard is a client, not a host: it never runs the service in its own
//! process. It can, however, launch one, which is what happens when you open the
//! dashboard on a machine with no installed service.
use vstd::prelude::*;

verus! {

/// How long to wait for a freshly started daemon to accept a connection, in
/// milliseconds.
pub const START_TIMEOUT: u64 = 5000;

/// Interval between connection attempts while waiting, in milliseconds.
pub const POLL_INTERVAL: u64 = 100;

/// Why a daemon could not be started or stopped.
#[derive(Clone, Debug, PartialEq, Eq)]
pub enum DaemonControlError {
    /// No daemon executable could be found.
    NotFound,
    /// The process could not be spawned.
    Spawn(String),
    /// The process started but never accepted a connection.
    NeverReady,
}

pub open spec fn control_error_text(e: DaemonControlError) -> Seq<char> {
    match e {
        DaemonControlError::NotFound => {
            "syntra-daemon was not found; install Syntra, or place the daemon next to the application"@
        },
        DaemonControlError::Spawn(s) => "could not start the service: "@ + s@,
        DaemonControlError::NeverReady => {
            "the service started but did not become reachable within 5s"@
        },
    }
}

impl DaemonControlError {
    /// What is said of the error.
    pub fn to_text(&self) -> (r: String)
        ensures
            r@ == control_error_text(*self),
    {
        match self {
            DaemonControlError::NotFound => {
                "syntra-daemon was not found; install Syntra, or place the daemon next to the application".to_owned()
            },
            DaemonControlError::Spawn(s) => {
                let mut r: String = "could not start the service: ".to_owned();
                r.push_str(s.as_str());
                r
            },
            DaemonControlError::NeverReady => {
                "the service started but did not become reachable within 5s".to_owned()
            },
        }
    }
}

/// A place where a daemon may lie, and whether there is a file.
#[derive(Clone, Debug, PartialEq, Eq)]
pub struct Candidate {
    pub path: String,
    pub is_file: bool,
}

/// The program of the daemon: the installed one where it is there, else the one beside
/// this program.
pub open spec fn found_executable(
    installed: Option<Candidate>,
    sibling: Option<Candidate>,
) -> Option<String> {
    if installed is Some && installed->Some_0.is_file {
        Some(installed->Some_0.path)
    } else if sibling is Some && sibling->Some_0.is_file {
        Some(sibling->Some_0.path)
    } else {
        None
    }
}

/// The daemon to run: the installed copy is preferred over the one beside the
/// running binary, so a dashboard launched from a build tree still starts the
/// daemon the user actually installed, rather than a stale sibling.
pub fn executable(installed: Option<Candidate>, sibling: Option<Candidate>) -> (r: Option<String>)
    ensures
        r == found_executable(installed, sibling),
{
    match installed {
        Some(candidate) => {
            if candidate.is_file {
                return Some(candidate.path);
            }
        },
        None => {},
    }
    match sibling {
        Some(candidate) => {
            if candidate.is_file {
                return Some(candidate.path);
            }
        },
        None => {},
    }
    None
}

/// What starting a daemon begins with.
#[derive(Clone, Debug, PartialEq, Eq)]
pub enum Start {
    /// One is answering: nothing is started, so pressing the control twice
    /// cannot produce two daemons.
    Running,
    Spawn(String),
    Fail(DaemonControlError),
}

/// How a daemon is started.
pub open spec fn started(running: bool, executable: Option<String>) -> Start {
    if running {
        Start::Running
    } else {
        match executable {
            Some(path) => Start::Spawn(path),
            None => Start::Fail(DaemonControlError::NotFound),
        }
    }
}

/// What starting a daemon begins with.
pub fn begin_start(running: bool, executable: Option<String>) -> (s: Start)
    ensures
        s == started(running, executable),
{
    if running {
        return Start::Running;
    }
    match executable {
        Some(path) => Start::Spawn(path),
        None => Start::Fail(DaemonControlError::NotFound),
    }
}

/// What comes next while a daemon starts.
#[derive(Clone, Debug, PartialEq, Eq)]
pub enum Waiting {
    Ready,
    /// Ask again after this many milliseconds.
    Again(u64),
    Fail(DaemonControlError),
}

/// How a daemon that was started is waited for.
pub open spec fn awaited(elapsed_ms: u64, running: bool) -> Waiting {
    if elapsed_ms >= START_TIMEOUT {
        Waiting::Fail(DaemonControlError::NeverReady)
    } else if running {
        Waiting::Ready
    } else {
        Waiting::Again(POLL_INTERVAL)
    }
}

/// What comes next while a daemon starts: readiness is reported, not hoped for.
pub fn await_start(elapsed_ms: u64, running: bool) -> (w: Waiting)
    ensures
        w == awaited(elapsed_ms, running),
{
    if elapsed_ms >= START_TIMEOUT {
        Waiting::Fail(DaemonControlError::NeverReady)
    } else if running {
        Waiting::Ready
    } else {
        Waiting::Again(POLL_INTERVAL)
    }
}

/// Which daemon this process owns, by the number of its process. A daemon
/// started by an init system, or by hand, is never owned here and keeps running
/// after the dashboard closes.
#[derive(Debug)]
pub struct Ownership {
    pub owned: Option<u32>,
}

impl Ownership {
    /// None yet.
    pub fn new() -> (o: Ownership)
        ensures
            o.owned is None,
    {
        Ownership { owned: None }
    }

    /// Takes a daemon that was started by this process.
    pub fn adopt(&mut self, process: u32)
        ensures
            final(self).owned == Some(process),
    {
        self.owned = Some(process);
    }

    /// Whether the running daemon was started by this dashboard.
    pub fn owns_running_daemon(&self) -> (r: bool)
        ensures
            r == (self.owned is Some),
    {
        self.owned.is_some()
    }

    /// The daemon that is to be stopped; none where the running one belongs to an
    /// init system or to the user and must be stopped the same way it was
    /// started.
    pub fn stop_owned(&mut self) -> (r: Option<u32>)
        ensures
            r == old(self).owned,
            final(self).owned is None,
    {
        let process: Option<u32> = self.owned;
        self.owned = None;
        process
    }
}

// ---------------------------------------------------------------------------
// The controls of the service
// ---------------------------------------------------------------------------

/// What the user wants of the installed service.
#[derive(Clone, Copy, Debug, PartialEq, Eq, Structural)]
pub enum ServiceAction {
    Refresh,
    Install,
    Uninstall,
    /// Launcher entry, distinct from the background service: one makes the
    /// application appear in the menu, the other runs the daemon at login.
    InstallDesktopEntry,
    RemoveDesktopEntry,
    Start,
    Stop,
    Enable,
    Disable,
}

/// The action of a name; a launcher entry only where the desktop has them.
pub open spec fn action_named(name: Seq<char>, freedesktop: bool) -> Option<ServiceAction> {
    if name == "refresh"@ {
        Some(ServiceAction::Refresh)
    } else if name == "install"@ {
        Some(ServiceAction::Install)
    } else if name == "uninstall"@ {
        Some(ServiceAction::Uninstall)
    } else if name == "install-desktop-entry"@ && freedesktop {
        Some(ServiceAction::InstallDesktopEntry)
    } else if name == "remove-desktop-entry"@ && freedesktop {
        Some(ServiceAction::RemoveDesktopEntry)
    } else if name == "start"@ {
        Some(ServiceAction::Start)
    } else if name == "stop"@ {
        Some(ServiceAction::Stop)
    } else if name == "enable"@ {
        Some(ServiceAction::Enable)
    } else if name == "disable"@ {
        Some(ServiceAction::Disable)
    } else {
        None
    }
}

/// The action of a name.
pub fn service_action(name: &str, freedesktop: bool) -> (r: Result<
    ServiceAction,
    crate::platform::service::ServiceError,
>)
    ensures
        match r {
            Ok(action) => action_named(name@, freedesktop) == Some(action),
            Err(error) => action_named(name@, freedesktop) is None && error@
                == crate::platform::service::ServiceFault::Unsupported("unknown service action"@),
        },
{
    if crate::text::same_text(name, "refresh") {
        Ok(ServiceAction::Refresh)
    } else if crate::text::same_text(name, "install") {
        Ok(ServiceAction::Install)
    } else if crate::text::same_text(name, "uninstall") {
        Ok(ServiceAction::Uninstall)
    } else if crate::text::same_text(name, "install-desktop-entry") && freedesktop {
        Ok(ServiceAction::InstallDesktopEntry)
    } else if crate::text::same_text(name, "remove-desktop-entry") && freedesktop {
        Ok(ServiceAction::RemoveDesktopEntry)
    } else if crate::text::same_text(name, "start") {
        Ok(ServiceAction::Start)
    } else if crate::text::same_text(name, "stop") {
        Ok(ServiceAction::Stop)
    } else if crate::text::same_text(name, "enable") {
        Ok(ServiceAction::Enable)
    } else if crate::text::same_text(name, "disable") {
        Ok(ServiceAction::Disable)
    } else {
        Err(
            crate::platform::service::ServiceError::Unsupported(
                "unknown service action".to_owned(),
            ),
        )
    }
}

/// Whether a daemon that this session runs by itself is stopped before the
/// installed service is started.
pub fn stops_session_first(linux: bool, connected: bool, service_running: bool) -> (r: bool)
    ensures
        r == (linux && connected && !service_running),
{
    linux && connected && !service_running
}

/// What comes next while the session's own daemon stops.
#[derive(Clone, Debug, PartialEq, Eq)]
pub enum Stopping {
    Gone,
    /// Look again after this many milliseconds.
    Again(u64),
    Fail(crate::platform::service::ServiceError),
}

/// What comes next while the session's own daemon stops: its socket goes within
/// ten seconds, or the service is not started.
pub fn await_stop(socket_exists: bool, elapsed_ms: u64) -> (s: Stopping)
    ensures
        match s {
            Stopping::Gone => !socket_exists,
            Stopping::Again(ms) => socket_exists && elapsed_ms < 10_000 && ms == 50,
            Stopping::Fail(error) => socket_exists && elapsed_ms >= 10_000 && error@
                == crate::platform::service::ServiceFault::InvalidResponse(
                "The session daemon did not stop; the installed service was not started"@,
            ),
        },
{
    if !socket_exists {
        Stopping::Gone
    } else if elapsed_ms >= 10_000 {
        Stopping::Fail(
            crate::platform::service::ServiceError::InvalidResponse(
                "The session daemon did not stop; the installed service was not started".to_owned(),
            ),
        )
    } else {
        Stopping::Again(50)
    }
}

/// One daemon runs at a time: where one answers none is started. The installed program
/// is preferred to the one beside this program, and without either nothing is started.
pub proof fn law_one_daemon_is_started(
    running: bool,
    installed: Option<Candidate>,
    sibling: Option<Candidate>,
)
    ensures
        ({
            let s = started(running, found_executable(installed, sibling));
            let here = installed is Some && installed->Some_0.is_file;
            let beside = sibling is Some && sibling->Some_0.is_file;
            &&& s is Running <==> running
            &&& !running && here ==> s == Start::Spawn(installed->Some_0.path)
            &&& !running && !here && beside ==> s == Start::Spawn(sibling->Some_0.path)
            &&& !running && !here && !beside ==> s == Start::Fail(DaemonControlError::NotFound)
        }),
{
}

/// A daemon that was started is asked ten times a second for five seconds whether it
/// answers, and is ready once it does.
pub proof fn law_starts_are_waited_for(elapsed_ms: u64, running: bool)
    ensures
        elapsed_ms >= 5000 ==> awaited(elapsed_ms, running) == Waiting::Fail(
            DaemonControlError::NeverReady,
        ),
        elapsed_ms < 5000 && running ==> awaited(elapsed_ms, running) == Waiting::Ready,
        elapsed_ms < 5000 && !running ==> awaited(elapsed_ms, running) == Waiting::Again(100),
{
}

/// Each button of the service has an action of its own; those for the launcher are
/// there only where launchers are.
pub proof fn law_buttons_have_their_actions(freedesktop: bool)
    ensures
        action_named("refresh"@, freedesktop) == Some(ServiceAction::Refresh),
        action_named("install"@, freedesktop) == Some(ServiceAction::Install),
        action_named("uninstall"@, freedesktop) == Some(ServiceAction::Uninstall),
        action_named("start"@, freedesktop) == Some(ServiceAction::Start),
        action_named("stop"@, freedesktop) == Some(ServiceAction::Stop),
        action_named("enable"@, freedesktop) == Some(ServiceAction::Enable),
        action_named("disable"@, freedesktop) == Some(ServiceAction::Disable),
        action_named("install-desktop-entry"@, freedesktop) == (if freedesktop {
            Some(ServiceAction::InstallDesktopEntry)
        } else {
            None
        }),
        action_named("remove-desktop-entry"@, freedesktop) == (if freedesktop {
            Some(ServiceAction::RemoveDesktopEntry)
        } else {
            None
        }),
{
    reveal_strlit("refresh");
    reveal_strlit("install");
    reveal_strlit("uninstall");
    reveal_strlit("install-desktop-entry");
    reveal_strlit("remove-desktop-entry");
    reveal_strlit("start");
    reveal_strlit("stop");
    reveal_strlit("enable");
    reveal_strlit("disable");
    assert("refresh"@.len() == 7 && "install"@.len() == 7 && "uninstall"@.len() == 9);
    assert("install-desktop-entry"@.len() == 21 && "remove-desktop-entry"@.len() == 20);
    assert("start"@.len() == 5 && "stop"@.len() == 4 && "enable"@.len() == 6 && "disable"@.len()
        == 7);
    assert("refresh"@[0] == 'r' && "install"@[0] == 'i' && "disable"@[0] == 'd');
}

} // verus!
