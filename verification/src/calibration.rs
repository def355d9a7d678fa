//! Shell-spawn calibration. The embedding program runs the configured
//! shell with a no-op command `CALIBRATION_RUNS` times and hands the
//! measured wall times here; the mean is the overhead subtracted from
//! every later command measurement.
use vstd::prelude::*;
use crate::stats::mean_of;
use crate::timer::{ExecError, ExitOutcome, TimingSample};

verus! {

/// How many no-op shell invocations the calibration phase measures.
pub const CALIBRATION_RUNS: usize = 50;

/// The calibrated shell-spawn overhead, computed once per invocation of
/// the tool and read-only afterwards.
#[derive(Clone, Copy, PartialEq, Eq, Structural, Debug)]
pub struct CalibrationEstimate {
    pub shell_spawn_mean_ns: u64,
}

/// Mean shell-spawn time over the calibration samples. With no sample at
/// all the shell never ran, so no benchmark can proceed.
pub fn calibration_from_samples(samples: &Vec<u64>) -> (r: Result<
    CalibrationEstimate,
    ExecError,
>)
    ensures
        r is Ok <==> samples.len() > 0,
        r matches Ok(c) ==> c.shell_spawn_mean_ns as int == mean_of(samples@),
        r is Err ==> r == Err::<CalibrationEstimate, ExecError>(ExecError::SpawnFailed),
{
    if samples.len() == 0 {
        Err(ExecError::SpawnFailed)
    } else {
        let m = crate::stats::mean_ns(samples);
        Ok(CalibrationEstimate { shell_spawn_mean_ns: m })
    }
}

/// Subtract the calibrated shell-spawn time from a raw wall-clock time.
/// Calibration noise can make the overhead estimate exceed a very fast
/// measurement; the recorded sample clamps at zero instead of going
/// negative.
pub fn subtract_calibration(raw_ns: u64, calibration_ns: u64) -> (r: u64)
    ensures
        r == if raw_ns >= calibration_ns {
            raw_ns - calibration_ns
        } else {
            0
        },
        r <= raw_ns,
{
    if raw_ns >= calibration_ns {
        raw_ns - calibration_ns
    } else {
        0
    }
}

/// Build the recorded sample for one timed run: the wall time has the
/// calibrated shell-spawn overhead subtracted, clamped at zero.
pub fn make_sample(
    raw_wall_ns: u64,
    calibration: &CalibrationEstimate,
    user_ns: u64,
    system_ns: u64,
    exit: ExitOutcome,
) -> (s: TimingSample)
    ensures
        s.wall_ns == if raw_wall_ns >= calibration.shell_spawn_mean_ns {
            raw_wall_ns - calibration.shell_spawn_mean_ns
        } else {
            0
        },
        s.user_ns == user_ns,
        s.system_ns == system_ns,
        s.exit == exit,
{
    let wall = subtract_calibration(raw_wall_ns, calibration.shell_spawn_mean_ns);
    TimingSample { wall_ns: wall, user_ns, system_ns, exit }
}

} // verus!
