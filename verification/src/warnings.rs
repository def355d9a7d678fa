//! Post-hoc advisory diagnostics over a completed benchmark result. They
//! are surfaced to the user but never alter the numeric result.
use vstd::prelude::*;
use crate::benchmark::BenchmarkResult;
use crate::outlier::{retained_of, detect_outliers};
use crate::stats::mean_of;
use crate::timer::ExitOutcome;
use crate::options::OutputStyleOption;

verus! {

/// Percentage of excluded samples above which the outlier warning is
/// raised. Zero: any excluded sample at all warns.
pub const OUTLIER_WARNING_PERCENT: u64 = 0;

/// Mean below which timer resolution dominates the measurement: 5 ms.
pub const MIN_EXECUTION_TIME_NS: u64 = 5_000_000;

/// Ratio between the first raw time and the mean of the later ones above
/// which the first run is deemed cache-sensitive.
pub const SLOW_INITIAL_RUN_RATIO: u64 = 2;

/// Advisory diagnostics for one benchmark result.
#[derive(Clone, Copy, PartialEq, Eq, Structural, Debug)]
pub enum BenchmarkWarning {
    /// This many statistical outliers were excluded from the aggregates.
    OutliersDetected(usize),
    /// The first run was much slower than the rest; the command is
    /// likely I/O cache-sensitive.
    SlowInitialRun,
    /// The command runs too fast for accurate measurement.
    FastExecutionTime,
    /// At least one run exited with a non-zero status.
    NonZeroExitCode,
}

/// Whether the excluded-sample count exceeds the threshold fraction.
pub open spec fn outlier_warning(s: Seq<u64>) -> bool {
    s.len() > 0 && 100 * (s.len() - retained_of(s).len()) > (OUTLIER_WARNING_PERCENT as int)
        * s.len()
}

/// Whether the first raw time is large against the mean of the rest.
pub open spec fn slow_initial_run(s: Seq<u64>) -> bool {
    s.len() >= 2 && s[0] as int > (SLOW_INITIAL_RUN_RATIO as int) * mean_of(s.drop_first())
}

/// Whether any run ended with a non-success outcome.
pub open spec fn any_failure(codes: Seq<ExitOutcome>) -> bool {
    exists|i: int| 0 <= i < codes.len() && codes[i] != ExitOutcome::Success
}

/// The warnings a result deserves, in a fixed report order.
pub open spec fn warnings_spec(r: BenchmarkResult) -> Seq<BenchmarkWarning> {
    let s0 = Seq::<BenchmarkWarning>::empty();
    let s1 = if outlier_warning(r.raw_times@) {
        s0.push(
            BenchmarkWarning::OutliersDetected(
                (r.raw_times@.len() - retained_of(r.raw_times@).len()) as usize,
            ),
        )
    } else {
        s0
    };
    let s2 = if slow_initial_run(r.raw_times@) {
        s1.push(BenchmarkWarning::SlowInitialRun)
    } else {
        s1
    };
    let s3 = if r.mean < MIN_EXECUTION_TIME_NS {
        s2.push(BenchmarkWarning::FastExecutionTime)
    } else {
        s2
    };
    if any_failure(r.exit_codes@) {
        s3.push(BenchmarkWarning::NonZeroExitCode)
    } else {
        s3
    }
}

/// Compute the advisory warnings for one completed result.
pub fn warnings_for(result: &BenchmarkResult) -> (w: Vec<BenchmarkWarning>)
    ensures
        w@ == warnings_spec(*result),
{
    let mut w: Vec<BenchmarkWarning> = Vec::new();
    let n = result.raw_times.len();
    let (retained, _outliers) = detect_outliers(&result.raw_times);
    let excluded = n - retained.len();
    proof {
        result.raw_times@.lemma_filter_len(crate::outlier::keep_pred(result.raw_times@));
    }
    if n > 0 && 100 * (excluded as u128) > (OUTLIER_WARNING_PERCENT as u128) * (n as u128) {
        w.push(BenchmarkWarning::OutliersDetected(excluded));
    }
    if n >= 2 {
        let mut rest: Vec<u64> = Vec::new();
        let mut i: usize = 1;
        while i < n
            invariant
                1 <= i <= n,
                n == result.raw_times.len(),
                rest@ == result.raw_times@.subrange(1, i as int),
            decreases n - i,
        {
            rest.push(result.raw_times[i]);
            proof {
                assert(result.raw_times@.subrange(1, i + 1) =~= result.raw_times@.subrange(
                    1,
                    i as int,
                ).push(result.raw_times@[i as int]));
            }
            i += 1;
        }
        proof {
            assert(rest@ =~= result.raw_times@.drop_first());
        }
        let m = crate::stats::mean_ns(&rest);
        if (result.raw_times[0] as u128) > (SLOW_INITIAL_RUN_RATIO as u128) * (m as u128) {
            w.push(BenchmarkWarning::SlowInitialRun);
        }
    }
    if result.mean < MIN_EXECUTION_TIME_NS {
        w.push(BenchmarkWarning::FastExecutionTime);
    }
    let mut found = false;
    let mut j: usize = 0;
    while j < result.exit_codes.len()
        invariant
            j <= result.exit_codes.len(),
            found <==> exists|k: int|
                0 <= k < j && result.exit_codes@[k] != ExitOutcome::Success,
        decreases result.exit_codes.len() - j,
    {
        if !result.exit_codes[j].is_success() {
            found = true;
        }
        j += 1;
    }
    if found {
        w.push(BenchmarkWarning::NonZeroExitCode);
    }
    w
}

/// Whether the configured output style shows warnings at all.
pub fn warnings_enabled(style: &OutputStyleOption) -> (b: bool)
    ensures
        b == (*style == OutputStyleOption::Full || *style == OutputStyleOption::Basic),
{
    match style {
        OutputStyleOption::Full => true,
        OutputStyleOption::Basic => true,
        OutputStyleOption::NoWarnings => false,
        OutputStyleOption::Disabled => false,
    }
}

} // verus!
