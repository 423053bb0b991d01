//! The supervised live event stream: decoding lines, deciding what to do with
//! each, and when to restart the external process.

use vstd::prelude::*;
use crate::error::BdError;
use crate::json::JsonValue;
use crate::types::{ActivityEvent, EventView, decode_event};
use crate::text::{join_text, blank_text, is_blank, has_infix};
use crate::decimal::{i32_text, int_text};

verus! {

/// Seconds to wait before the first restart.
pub const INITIAL_BACKOFF_SECS: u64 = 1;

/// The longest wait between restarts, in seconds.
pub const MAX_BACKOFF_SECS: u64 = 30;

/// How much the wait grows after each failure.
pub const BACKOFF_MULTIPLIER: u64 = 2;

/// Undecodable lines tolerated in a row before a run is abandoned.
pub const MAX_PARSE_ERRORS: u64 = 100;

/// Failed runs tolerated in a row before the supervisor gives up.
pub const MAX_CONSECUTIVE_ERRORS: u32 = 10;

/// Seconds to wait for one line before the read is considered stuck.
pub const READ_LINE_TIMEOUT_SECS: u64 = 60;

/// Seconds to wait for the process to exit once its output has ended.
pub const STARTUP_GRACE_SECS: u64 = 5;

/// The message of a line that did not decode: the reason, then the line.
pub open spec fn parse_failure_text(reason: Seq<char>, line: Seq<char>) -> Seq<char> {
    "Failed to parse activity event: "@ + reason + "\nInput: "@ + line
}

/// The stream of events of the issue tracker's daemon.
pub struct ActivityStream;

impl ActivityStream {
    /// Decodes one line. `parsed` is the line read as JSON, or the reason it
    /// is not JSON. The error names the reason and holds the line itself.
    pub fn parse_event(line: &str, parsed: &Result<JsonValue, String>) -> (r: Result<ActivityEvent, BdError>)
        ensures
            match parsed {
                Ok(v) => match decode_event(v.model()) {
                    Some(e) => r is Ok && r->Ok_0@ == e,
                    None => r is Err && r->Err_0 is ParseError
                        && r->Err_0->ParseError_0@ == parse_failure_text("missing or mistyped field"@, line@),
                },
                Err(reason) => r is Err && r->Err_0 is ParseError
                    && r->Err_0->ParseError_0@ == parse_failure_text(reason@, line@),
            },
    {
        match parsed {
            Ok(v) => match ActivityEvent::from_json(v) {
                Some(e) => Ok(e),
                None => Err(BdError::ParseError(Self::failure_text("missing or mistyped field", line))),
            },
            Err(reason) => Err(BdError::ParseError(Self::failure_text(reason.as_str(), line))),
        }
    }

    fn failure_text(reason: &str, line: &str) -> (r: String)
        ensures
            r@ == parse_failure_text(reason@, line@),
    {
        let a = join_text("Failed to parse activity event: ", reason);
        let b = join_text(a.as_str(), "\nInput: ");
        let c = join_text(b.as_str(), line);
        proof {
            assert(c@ == parse_failure_text(reason@, line@));
        }
        c
    }
}

/// A failure message holds the offending line.
pub proof fn lemma_parse_failure_holds_line(reason: Seq<char>, line: Seq<char>)
    ensures
        has_infix(parse_failure_text(reason, line), line),
{
    let t = parse_failure_text(reason, line);
    let i = t.len() - line.len();
    assert(t.subrange(i, i + line.len()) =~= line);
}

/// What became of one run of the external process.
#[derive(Debug)]
pub enum RunOutcome {
    /// The process exited cleanly: a deliberate stop.
    Ended,
    /// Nobody listens to the events any more.
    ConsumerGone,
    /// The process could not run, failed, or its output degraded.
    Failed(BdError),
}

/// What the supervisor does next.
#[derive(Clone, Copy, Debug, PartialEq, Eq, Structural)]
pub enum SupervisorAction {
    /// Start the process again after this many seconds.
    Restart { after_secs: u64 },
    Stop,
}

/// The restart policy's state.
#[derive(Clone, Copy, Debug, PartialEq, Eq, Structural)]
pub struct SupervisorState {
    /// The wait before the next restart, in seconds.
    pub backoff_secs: u64,
    /// Failed runs in a row.
    pub consecutive_errors: u32,
    pub stopped: bool,
}

pub open spec fn min_int(a: int, b: int) -> int {
    if a < b {
        a
    } else {
        b
    }
}

/// The next state and action after a run ends with `failed` true for a
/// failure and false for a clean end or a lost consumer.
pub open spec fn supervise(s: SupervisorState, failed: bool) -> (SupervisorState, SupervisorAction) {
    if s.stopped {
        (s, SupervisorAction::Stop)
    } else if !failed {
        (SupervisorState { stopped: true, ..s }, SupervisorAction::Stop)
    } else {
        let errors = s.consecutive_errors + 1;
        let next = SupervisorState {
            backoff_secs: min_int(s.backoff_secs * BACKOFF_MULTIPLIER, MAX_BACKOFF_SECS as int) as u64,
            consecutive_errors: errors as u32,
            stopped: errors > MAX_CONSECUTIVE_ERRORS,
        };
        if errors > MAX_CONSECUTIVE_ERRORS {
            (next, SupervisorAction::Stop)
        } else {
            (next, SupervisorAction::Restart { after_secs: s.backoff_secs })
        }
    }
}

impl SupervisorState {
    pub open spec fn wf(&self) -> bool {
        1 <= self.backoff_secs <= MAX_BACKOFF_SECS
            && self.consecutive_errors <= MAX_CONSECUTIVE_ERRORS + 1
            && (self.consecutive_errors > MAX_CONSECUTIVE_ERRORS ==> self.stopped)
    }

    pub open spec fn initial() -> SupervisorState {
        SupervisorState { backoff_secs: INITIAL_BACKOFF_SECS, consecutive_errors: 0, stopped: false }
    }

    pub fn new() -> (r: SupervisorState)
        ensures
            r == Self::initial(),
            r.wf(),
    {
        SupervisorState { backoff_secs: INITIAL_BACKOFF_SECS, consecutive_errors: 0, stopped: false }
    }

    /// Decides what follows a run: a clean end or a lost consumer stops for
    /// good; a failure restarts after the current wait, which then doubles up
    /// to its cap, until more than the tolerated number of failures in a row.
    pub fn on_run_end(&mut self, outcome: &RunOutcome) -> (r: SupervisorAction)
        requires
            old(self).wf(),
        ensures
            final(self).wf(),
            (*final(self), r) == supervise(*old(self), outcome is Failed),
    {
        if self.stopped {
            return SupervisorAction::Stop;
        }
        match outcome {
            RunOutcome::Failed(_) => {
                let wait = self.backoff_secs;
                self.consecutive_errors = self.consecutive_errors + 1;
                let doubled = self.backoff_secs * BACKOFF_MULTIPLIER;
                self.backoff_secs = if doubled < MAX_BACKOFF_SECS {
                    doubled
                } else {
                    MAX_BACKOFF_SECS
                };
                if self.consecutive_errors > MAX_CONSECUTIVE_ERRORS {
                    self.stopped = true;
                    SupervisorAction::Stop
                } else {
                    SupervisorAction::Restart { after_secs: wait }
                }
            },
            _ => {
                self.stopped = true;
                SupervisorAction::Stop
            },
        }
    }
}

/// The state after `n` failed runs in a row from the start.
pub open spec fn after_failures(n: nat) -> SupervisorState
    decreases n,
{
    if n == 0 {
        SupervisorState::initial()
    } else {
        supervise(after_failures((n - 1) as nat), true).0
    }
}

/// Two to the power `n`.
pub open spec fn pow2(n: nat) -> int
    decreases n,
{
    if n == 0 {
        1
    } else {
        2 * pow2((n - 1) as nat)
    }
}

/// On failures in a row, the waits before restarts are 1, 2, 4, 8, 16, then
/// 30 seconds from there on; the run after the tenth such failure is the last:
/// the eleventh failure in a row stops the supervisor for good.
pub proof fn lemma_backoff_sequence(n: nat)
    ensures
        after_failures(n).backoff_secs == min_int(pow2(n), MAX_BACKOFF_SECS as int),
        n <= MAX_CONSECUTIVE_ERRORS ==> after_failures(n).consecutive_errors == n && !after_failures(n).stopped,
        n < MAX_CONSECUTIVE_ERRORS ==> supervise(after_failures(n), true).1 == (SupervisorAction::Restart {
            after_secs: min_int(pow2(n), MAX_BACKOFF_SECS as int) as u64,
        }),
        n > MAX_CONSECUTIVE_ERRORS ==> after_failures(n).stopped,
        n == MAX_CONSECUTIVE_ERRORS ==> supervise(after_failures(n), true).1 == SupervisorAction::Stop,
    decreases n,
{
    if n > 0 {
        lemma_backoff_sequence((n - 1) as nat);
        let p = after_failures((n - 1) as nat);
        assert(pow2(n) == 2 * pow2((n - 1) as nat));
        lemma_pow2_positive((n - 1) as nat);
        if n > 5 {
            lemma_pow2_large((n - 1) as nat);
        }
    }
}

proof fn lemma_pow2_large(n: nat)
    requires
        n >= 5,
    ensures
        pow2(n) >= 32,
    decreases n,
{
    if n > 5 {
        lemma_pow2_large((n - 1) as nat);
        lemma_pow2_positive((n - 1) as nat);
    } else {
        reveal_with_fuel(pow2, 6);
    }
}

proof fn lemma_pow2_positive(n: nat)
    ensures
        pow2(n) >= 1,
    decreases n,
{
    if n > 0 {
        lemma_pow2_positive((n - 1) as nat);
    }
}

/// How a process's end was observed.
#[derive(Debug)]
pub enum ProcessExit {
    /// The process did not exit within the grace period.
    TimedOut,
    /// Waiting for the exit failed, for this reason.
    WaitFailed(String),
    /// The process exited, with its exit code where it had one.
    Exited(Option<i32>),
}

/// What a process's end makes of its run: a non-zero exit code, a wait that
/// timed out or failed are failures; a zero code, or none (killed by a
/// signal), is a clean end.
pub open spec fn outcome_of_exit(e: ProcessExit) -> RunOutcomeKind {
    match e {
        ProcessExit::TimedOut => RunOutcomeKind::Failed,
        ProcessExit::WaitFailed(_) => RunOutcomeKind::Failed,
        ProcessExit::Exited(Some(c)) => if c != 0 {
            RunOutcomeKind::Failed
        } else {
            RunOutcomeKind::Ended
        },
        ProcessExit::Exited(None) => RunOutcomeKind::Ended,
    }
}

pub enum RunOutcomeKind {
    Ended,
    ConsumerGone,
    Failed,
}

pub open spec fn kind_of(o: RunOutcome) -> RunOutcomeKind {
    match o {
        RunOutcome::Ended => RunOutcomeKind::Ended,
        RunOutcome::ConsumerGone => RunOutcomeKind::ConsumerGone,
        RunOutcome::Failed(_) => RunOutcomeKind::Failed,
    }
}

/// What to do with one line of the process's output.
#[derive(Debug)]
pub enum LineAction {
    /// A blank line: nothing to do.
    Skip,
    /// A decoded event, to be sent on.
    Forward(ActivityEvent),
    /// An undecodable line, dropped with a warning.
    Dropped(BdError),
    /// Too many undecodable lines in a row: the run is abandoned.
    Abort(BdError),
}

/// The state of one run of the process: undecodable lines in a row.
pub struct RunCycle {
    pub parse_errors: u64,
}

impl RunCycle {
    pub open spec fn wf(&self) -> bool {
        self.parse_errors <= MAX_PARSE_ERRORS + 1
    }

    pub fn new() -> (r: RunCycle)
        ensures
            r.parse_errors == 0,
            r.wf(),
    {
        RunCycle { parse_errors: 0 }
    }

    /// Handles one line of output. `parsed` is the line read as JSON, or the
    /// reason it is not JSON. Blank lines are skipped; a decoded event resets
    /// the count of undecodable lines and is forwarded; an undecodable line is
    /// counted and dropped, and once the count passes its ceiling the run is
    /// abandoned with a daemon error.
    pub fn on_line(&mut self, line: &str, parsed: &Result<JsonValue, String>) -> (r: LineAction)
        requires
            old(self).wf(),
        ensures
            final(self).wf(),
            is_blank(line@) ==> r is Skip && final(self).parse_errors == old(self).parse_errors,
            !is_blank(line@) ==> match parsed {
                Ok(v) => match decode_event(v.model()) {
                    Some(e) => r is Forward && r->Forward_0@ == e && final(self).parse_errors == 0,
                    None => Self::counted_failure(old(self).parse_errors, final(self).parse_errors, r),
                },
                Err(_) => Self::counted_failure(old(self).parse_errors, final(self).parse_errors, r),
            },
    {
        if blank_text(line) {
            return LineAction::Skip;
        }
        match ActivityStream::parse_event(line, parsed) {
            Ok(event) => {
                self.parse_errors = 0;
                LineAction::Forward(event)
            },
            Err(e) => {
                if self.parse_errors <= MAX_PARSE_ERRORS {
                    self.parse_errors = self.parse_errors + 1;
                }
                if self.parse_errors > MAX_PARSE_ERRORS {
                    LineAction::Abort(BdError::DaemonError(String::from_str("Too many parse errors, stopping stream")))
                } else {
                    LineAction::Dropped(e)
                }
            },
        }
    }

    /// An undecodable line was counted, and dropped or, past the ceiling,
    /// ended the run.
    pub open spec fn counted_failure(before: u64, after: u64, r: LineAction) -> bool {
        &&& after == if before <= MAX_PARSE_ERRORS { before + 1 } else { before as int }
        &&& if after > MAX_PARSE_ERRORS {
            r is Abort && r->Abort_0 is DaemonError
        } else {
            r is Dropped && r->Dropped_0 is ParseError
        }
    }

    /// What the end of the process makes of this run.
    pub fn on_exit(&self, exit: ProcessExit) -> (r: RunOutcome)
        ensures
            kind_of(r) == outcome_of_exit(exit),
            r is Failed ==> r->Failed_0 is DaemonError,
            match exit {
                ProcessExit::Exited(Some(c)) => c != 0 ==> r->Failed_0->DaemonError_0@ == "Activity process exited with code: "@
                    + int_text(c as int),
                _ => true,
            },
    {
        match exit {
            ProcessExit::TimedOut => RunOutcome::Failed(
                BdError::DaemonError(String::from_str("Timeout waiting for child process to exit")),
            ),
            ProcessExit::WaitFailed(reason) => RunOutcome::Failed(
                BdError::DaemonError(join_text("Failed to wait for child: ", reason.as_str())),
            ),
            ProcessExit::Exited(Some(code)) => if code != 0 {
                RunOutcome::Failed(
                    BdError::DaemonError(join_text("Activity process exited with code: ", i32_text(code).as_str())),
                )
            } else {
                RunOutcome::Ended
            },
            ProcessExit::Exited(None) => RunOutcome::Ended,
        }
    }
}

} // verus!
