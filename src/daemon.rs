//! Locating the issue tracker's command-line tool for a workspace's daemon.

use vstd::prelude::*;
use crate::error::BdError;
use crate::clock::user_home_dir;
use crate::text::join_text;

verus! {

/// Where the daemon's socket lies, relative to the workspace.
pub const DAEMON_SOCKET_PATH: &'static str = ".beads/bd.sock";

/// Seconds to wait for the daemon's socket after starting it.
pub const DAEMON_START_TIMEOUT_SECS: u64 = 30;

/// The tool's place under a home directory.
pub open spec fn home_candidate(home: Option<Seq<char>>) -> Seq<char> {
    match home {
        Some(h) => h + "/.local/bin/bd"@,
        None => "~/.local/bin/bd"@,
    }
}

/// Relies on `which::which`: whether `name` resolves to an executable on the
/// search path. The answer depends on the machine.
#[verifier::external_body]
fn on_search_path(name: &str) -> (r: bool) {
    which::which(name).is_ok()
}

/// Relies on `std::path::Path::is_file`: whether `path` names an existing
/// regular file. The answer depends on the machine.
#[verifier::external_body]
fn is_existing_file(path: &str) -> (r: bool) {
    std::path::Path::new(path).is_file()
}

/// Relies on `std::path::Path::exists`: whether `path` names anything on disk.
/// The answer depends on the machine.
#[verifier::external_body]
fn path_exists(path: &str) -> (r: bool) {
    std::path::Path::new(path).exists()
}

/// The daemon of one workspace and the tool that drives it.
#[derive(Debug)]
pub struct DaemonManager {
    pub workspace: String,
    pub bd_path: String,
}

impl DaemonManager {
    /// A manager whose tool is found on the search path or at its usual place.
    pub fn new(workspace: String) -> (r: Result<DaemonManager, BdError>)
        ensures
            match r {
                Ok(m) => m.workspace == workspace && (m.bd_path@ == "bd"@
                    || exists|h: Option<Seq<char>>| m.bd_path@ == home_candidate(h)),
                Err(e) => e is CliNotFound && e->checked_paths@.len() == 2
                    && e->checked_paths@[0]@ == "bd"@,
            },
    {
        match Self::find_bd_binary() {
            Ok(bd_path) => Ok(DaemonManager { workspace, bd_path }),
            Err(e) => Err(e),
        }
    }

    /// The places where the tool is looked for, in order.
    pub fn bd_candidates(home: Option<String>) -> (r: Vec<String>)
        ensures
            r@.len() == 2,
            r@[0]@ == "bd"@,
            r@[1]@ == home_candidate(crate::types::opt_view(home)),
    {
        let mut out: Vec<String> = Vec::new();
        out.push(String::from_str("bd"));
        match home {
            Some(h) => out.push(join_text(h.as_str(), "/.local/bin/bd")),
            None => out.push(String::from_str("~/.local/bin/bd")),
        }
        out
    }

    /// The first candidate that is on the search path or is an existing file.
    pub fn find_bd_binary() -> (r: Result<String, BdError>)
        ensures
            match r {
                Ok(p) => p@ == "bd"@ || exists|h: Option<Seq<char>>| p@ == home_candidate(h),
                Err(e) => e is CliNotFound && e->checked_paths@.len() == 2
                    && e->checked_paths@[0]@ == "bd"@,
            },
    {
        let home = user_home_dir();
        let ghost hv = crate::types::opt_view(home);
        let checked_paths = Self::bd_candidates(home);
        let mut i: usize = 0;
        while i < checked_paths.len()
            invariant
                checked_paths@.len() == 2,
                checked_paths@[0]@ == "bd"@,
                checked_paths@[1]@ == home_candidate(hv),
            decreases checked_paths@.len() - i,
        {
            let p = checked_paths[i].as_str();
            if on_search_path(p) || is_existing_file(p) {
                return Ok(checked_paths[i].clone());
            }
            i += 1;
        }
        Err(BdError::CliNotFound { checked_paths })
    }

    /// A manager for a tool at a given place, which must exist.
    pub fn with_bd_path(workspace: String, bd_path: String) -> (r: Result<DaemonManager, BdError>)
        ensures
            match r {
                Ok(m) => m.workspace == workspace && m.bd_path == bd_path,
                Err(e) => e is CliNotFound && e->checked_paths@.len() == 1 && e->checked_paths@[0] == bd_path,
            },
    {
        let exists_on_disk = path_exists(bd_path.as_str());
        Self::from_existence(workspace, bd_path, exists_on_disk)
    }

    /// A manager for a tool at a given place, given whether that place exists:
    /// where it does not, the error lists that place alone.
    pub fn from_existence(workspace: String, bd_path: String, exists_on_disk: bool) -> (r: Result<DaemonManager, BdError>)
        ensures
            exists_on_disk ==> r is Ok && r->Ok_0.workspace == workspace && r->Ok_0.bd_path == bd_path,
            !exists_on_disk ==> r is Err && r->Err_0 is CliNotFound && r->Err_0->checked_paths@.len() == 1
                && r->Err_0->checked_paths@[0] == bd_path,
    {
        if !exists_on_disk {
            let mut checked_paths: Vec<String> = Vec::new();
            checked_paths.push(bd_path);
            return Err(BdError::CliNotFound { checked_paths });
        }
        Ok(DaemonManager { workspace, bd_path })
    }
}

/// Milliseconds between two looks for the daemon's socket.
pub const SOCKET_POLL_MS: u64 = 100;

/// What was observed while bringing a workspace's daemon up.
#[derive(Debug)]
pub enum StartupEvent {
    /// The daemon's status report before anything was done.
    Status { running: bool },
    /// The report of the start command.
    Started { running: bool },
    /// A look for the socket, this long after the start.
    Socket { exists: bool, elapsed_ms: u64 },
}

/// What to do next while bringing a workspace's daemon up.
#[derive(Debug)]
pub enum StartupAction {
    /// The daemon runs and answers: nothing more to do.
    Ready,
    /// Start the daemon.
    Start,
    /// Look for the socket again after this many milliseconds.
    WaitForSocket { after_ms: u64 },
    Fail(BdError),
}

/// The kind of a start-up step, without its error text.
#[derive(Clone, Copy, Debug, PartialEq, Eq, Structural)]
pub enum StartupDecision {
    Ready,
    Start,
    WaitForSocket { after_ms: u64 },
    Fail,
}

pub open spec fn decision_of(a: StartupAction) -> StartupDecision {
    match a {
        StartupAction::Ready => StartupDecision::Ready,
        StartupAction::Start => StartupDecision::Start,
        StartupAction::WaitForSocket { after_ms } => StartupDecision::WaitForSocket { after_ms },
        StartupAction::Fail(_) => StartupDecision::Fail,
    }
}

/// The next step of bringing a daemon up: nothing if it already runs; else
/// start it; once started, wait for its socket, polling until the start
/// timeout; a start that reports no running daemon, or a socket that never
/// appears, fails.
pub open spec fn startup_step_of(e: StartupEvent) -> StartupDecision {
    match e {
        StartupEvent::Status { running } => if running {
            StartupDecision::Ready
        } else {
            StartupDecision::Start
        },
        StartupEvent::Started { running } => if running {
            StartupDecision::WaitForSocket { after_ms: 0 }
        } else {
            StartupDecision::Fail
        },
        StartupEvent::Socket { exists, elapsed_ms } => if exists {
            StartupDecision::Ready
        } else if elapsed_ms < DAEMON_START_TIMEOUT_SECS * 1000 {
            StartupDecision::WaitForSocket { after_ms: SOCKET_POLL_MS }
        } else {
            StartupDecision::Fail
        },
    }
}

impl DaemonManager {
    /// Decides the next step of bringing the daemon up from what was just observed.
    pub fn startup_step(&self, event: StartupEvent) -> (r: StartupAction)
        ensures
            decision_of(r) == startup_step_of(event),
            r is Fail ==> r->Fail_0 is DaemonError,
    {
        match event {
            StartupEvent::Status { running } => if running {
                StartupAction::Ready
            } else {
                StartupAction::Start
            },
            StartupEvent::Started { running } => if running {
                StartupAction::WaitForSocket { after_ms: 0 }
            } else {
                StartupAction::Fail(BdError::DaemonError(String::from_str("Failed to start daemon")))
            },
            StartupEvent::Socket { exists, elapsed_ms } => if exists {
                StartupAction::Ready
            } else if elapsed_ms < DAEMON_START_TIMEOUT_SECS * 1000 {
                StartupAction::WaitForSocket { after_ms: SOCKET_POLL_MS }
            } else {
                StartupAction::Fail(BdError::DaemonError(String::from_str("Daemon started but socket not found")))
            },
        }
    }
}

} // verus!
