//! Value types for one timed process execution. Spawning and waiting are
//! I/O and live with the embedding program; the engine works on the plain
//! measured values recorded here.
use vstd::prelude::*;

verus! {

/// How one executed run ended. A non-zero exit code is not itself an
/// error: it is recorded and surfaced later as a warning, unless the
/// engine is configured to fail on it.
#[derive(Clone, Copy, PartialEq, Eq, Structural, Debug)]
pub enum ExitOutcome {
    /// The process exited with status zero.
    Success,
    /// The process exited with the given non-zero status code.
    FailureCode(i32),
    /// The process was terminated by a signal.
    Terminated,
}

/// Why a process execution failed outright.
#[derive(Clone, Copy, PartialEq, Eq, Structural, Debug)]
pub enum ExecError {
    /// The shell or the command could not be created at all.
    SpawnFailed,
    /// The process was interrupted in a way the engine does not tolerate.
    Interrupted,
}

/// One executed run: wall-clock time plus the child's CPU times, in
/// nanoseconds, and how the process ended.
#[derive(Clone, Copy, PartialEq, Eq, Structural, Debug)]
pub struct TimingSample {
    pub wall_ns: u64,
    pub user_ns: u64,
    pub system_ns: u64,
    pub exit: ExitOutcome,
}

impl ExitOutcome {
    /// Whether the run exited with status zero.
    pub fn is_success(&self) -> (b: bool)
        ensures
            b == (*self == ExitOutcome::Success),
    {
        match self {
            ExitOutcome::Success => true,
            _ => false,
        }
    }
}

} // verus!
