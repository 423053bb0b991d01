//! Errors of the issue tracker's command-line tool and of the event stream.

use vstd::prelude::*;

verus! {

#[derive(Debug)]
pub enum BdError {
    /// The command-line tool was found at none of these places.
    CliNotFound { checked_paths: Vec<String> },
    CommandFailed { cmd: String, stderr: String, exit_code: i32 },
    /// A line or a payload did not decode.
    ParseError(String),
    Timeout { cmd: String, duration_secs: u64 },
    /// A process or daemon failure: spawn, capture, exit, or a closed channel.
    DaemonError(String),
    Io(String),
}

} // verus!
