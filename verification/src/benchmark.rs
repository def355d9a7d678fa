//! Benchmark aggregation and the adaptive timed-run loop.
//!
//! The embedding program performs the process spawns; the decisions (how
//! many runs, when to stop, what is fatal) and the aggregation of the
//! measured samples into a `BenchmarkResult` are made here.
use vstd::prelude::*;
use crate::stats::{
    mean_of, median_of, min_of, max_of, stddev_of, sorted_of, mean_ns, median_ns, stddev_ns,
    lemma_mean_bounds, lemma_median_bounds, lemma_min_max_element, lemma_sorted_of,
    MAX_SAMPLE_NS, MAX_SAMPLES,
};
use crate::outlier::{
    retained_of, keep_pred, detect_outliers, lemma_retained_nonempty, lemma_filter_in_original,
};
use crate::timer::{ExecError, ExitOutcome};
use crate::options::RunCountPolicy;
use crate::min_max::extrema_ns;

verus! {

/// Fatal errors of the benchmarking engine.
#[derive(Clone, Copy, PartialEq, Eq, Structural, Debug)]
pub enum BenchmarkError {
    /// A process execution failed outright.
    Exec(ExecError),
    /// The preparation-command count does not match the command count.
    PreparationCountMismatch,
    /// A command exited non-zero while the engine requires success.
    CommandFailed(i32),
    /// No successful timed run produced a sample.
    NoSamples,
}

/// Aggregate result for one benchmarked command. All durations are in
/// nanoseconds. Outlier-flagged samples are excluded from `mean`,
/// `stddev` and `median` but retained in `raw_times` for audit and
/// export; `min` and `max` are the raw unfiltered extrema.
#[derive(Clone, Debug)]
pub struct BenchmarkResult {
    /// The benchmarked command line.
    pub command: String,
    /// Mean wall time of the retained (non-outlier) samples.
    pub mean: u64,
    /// Sample standard deviation of the retained samples; absent when
    /// fewer than two samples were retained.
    pub stddev: Option<u64>,
    /// Median wall time of the retained samples.
    pub median: u64,
    /// Mean user CPU time over all runs.
    pub user_mean: u64,
    /// Mean system CPU time over all runs.
    pub system_mean: u64,
    /// Smallest raw wall time.
    pub min: u64,
    /// Largest raw wall time.
    pub max: u64,
    /// All recorded wall-time samples, in execution order.
    pub raw_times: Vec<u64>,
    /// How each run ended, in execution order.
    pub exit_codes: Vec<ExitOutcome>,
    /// Substituted parameter values, as name / value pairs.
    pub parameter_values: Vec<(String, String)>,
}

/// Aggregate the collected samples of one command into a
/// `BenchmarkResult`: reject outliers, then compute mean, standard
/// deviation and median over the retained samples and the raw extrema
/// over all samples. With zero samples the engine fails rather than
/// producing a degenerate result.
pub fn aggregate_result(
    command: String,
    wall_times: Vec<u64>,
    user_times: &Vec<u64>,
    system_times: &Vec<u64>,
    exit_codes: Vec<ExitOutcome>,
    parameter_values: Vec<(String, String)>,
) -> (r: Result<BenchmarkResult, BenchmarkError>)
    requires
        user_times.len() == wall_times.len(),
        system_times.len() == wall_times.len(),
        exit_codes.len() == wall_times.len(),
        wall_times.len() <= MAX_SAMPLES,
        forall|i: int| 0 <= i < wall_times.len() ==> #[trigger] wall_times@[i] <= MAX_SAMPLE_NS,
    ensures
        r is Err <==> wall_times.len() == 0,
        r is Err ==> r == Err::<BenchmarkResult, BenchmarkError>(BenchmarkError::NoSamples),
        r matches Ok(res) ==> {
            let kept = retained_of(wall_times@);
            &&& res.command == command
            &&& res.raw_times@ == wall_times@
            &&& res.exit_codes@ == exit_codes@
            &&& res.parameter_values@ == parameter_values@
            &&& kept.len() > 0
            &&& res.mean as int == mean_of(kept)
            &&& res.median as int == median_of(kept)
            &&& (res.stddev is Some <==> kept.len() >= 2)
            &&& (res.stddev matches Some(sd) ==> sd as int == stddev_of(kept))
            &&& res.min as int == min_of(wall_times@)
            &&& res.max as int == max_of(wall_times@)
            &&& res.user_mean as int == mean_of(user_times@)
            &&& res.system_mean as int == mean_of(system_times@)
            &&& res.min <= res.median <= res.max
            &&& res.min <= res.mean <= res.max
        },
{
    broadcast use vstd::seq_lib::group_filter_ensures;

    if wall_times.len() == 0 {
        return Err(BenchmarkError::NoSamples);
    }
    let ghost raw = wall_times@;
    let (retained, _outliers) = detect_outliers(&wall_times);
    proof {
        lemma_retained_nonempty(raw);
        lemma_filter_in_original(raw, keep_pred(raw));
        assert forall|i: int| 0 <= i < retained@.len() implies #[trigger] retained@[i]
            <= MAX_SAMPLE_NS by {
            assert(raw.contains(retained@[i]));
            let j = choose|j: int| 0 <= j < raw.len() && raw[j] == retained@[i];
        }
    }
    let mean = mean_ns(&retained);
    let median = median_ns(&retained);
    let stddev = if retained.len() >= 2 {
        Some(stddev_ns(&retained))
    } else {
        None
    };
    let (mn, mx) = extrema_ns(&wall_times);
    let user_mean = mean_ns(user_times);
    let system_mean = mean_ns(system_times);
    proof {
        let kept = retained_of(raw);
        lemma_mean_bounds(kept);
        lemma_median_bounds(kept);
        lemma_min_max_element(raw);
        lemma_sorted_of(kept);
        // the extrema of the retained samples are raw samples themselves,
        // so the retained aggregates stay inside the raw extrema
        assert(kept.contains(sorted_of(kept)[0]));
        assert(raw.contains(sorted_of(kept)[0]));
        let j0 = choose|j: int| 0 <= j < raw.len() && raw[j] == sorted_of(kept)[0];
        assert(min_of(raw) <= raw[j0] as int <= max_of(raw));
        assert(kept.contains(sorted_of(kept)[kept.len() - 1]));
        assert(raw.contains(sorted_of(kept)[kept.len() - 1]));
        let j1 = choose|j: int| 0 <= j < raw.len() && raw[j] == sorted_of(kept)[kept.len() - 1];
        assert(min_of(raw) <= raw[j1] as int <= max_of(raw));
    }
    Ok(
        BenchmarkResult {
            command,
            mean,
            stddev,
            median,
            user_mean,
            system_mean,
            min: mn,
            max: mx,
            raw_times: wall_times,
            exit_codes,
            parameter_values,
        },
    )
}

/// Saturating addition on nanosecond totals.
pub open spec fn saturating_add_spec(a: int, b: int) -> int {
    if a + b > u64::MAX {
        u64::MAX as int
    } else {
        a + b
    }
}

/// Progress of the timed-run loop: how many runs completed and how much
/// measured time they accumulated.
#[derive(Clone, Copy, Debug)]
pub struct RunProgress {
    pub runs: u64,
    pub total_ns: u64,
}

impl RunProgress {
    pub fn new() -> (r: RunProgress)
        ensures
            r.runs == 0,
            r.total_ns == 0,
    {
        RunProgress { runs: 0, total_ns: 0 }
    }

    /// Record one completed timed run of `measured_ns` nanoseconds.
    pub fn record_run(&mut self, measured_ns: u64)
        requires
            old(self).runs < u64::MAX,
        ensures
            final(self).runs == old(self).runs + 1,
            final(self).total_ns == saturating_add_spec(
                old(self).total_ns as int,
                measured_ns as int,
            ),
    {
        self.runs = self.runs + 1;
        if self.total_ns <= u64::MAX - measured_ns {
            self.total_ns = self.total_ns + measured_ns;
        } else {
            self.total_ns = u64::MAX;
        }
    }
}

/// Whether the timed-run loop must execute another run: in explicit mode
/// until the configured count is reached; in automatic mode until both
/// the minimum run count and the minimum cumulative measured time are
/// satisfied, but never beyond the configured maximum run count.
pub open spec fn continue_spec(policy: RunCountPolicy, runs: int, total_ns: int) -> bool {
    match policy {
        RunCountPolicy::Exact(n) => runs < n,
        RunCountPolicy::Auto { min_runs, max_runs, min_time_ns } => {
            &&& (match max_runs {
                Some(mx) => runs < mx,
                None => true,
            })
            &&& (runs < min_runs || total_ns < min_time_ns)
        },
    }
}

/// Decide whether another timed run is needed. Each call to
/// `RunProgress::record_run` strictly increases the run count, so in
/// explicit mode the loop takes exactly the configured number of steps,
/// and in automatic mode at most `max_runs` when a maximum is set.
pub fn should_continue(policy: &RunCountPolicy, progress: &RunProgress) -> (b: bool)
    ensures
        b == continue_spec(*policy, progress.runs as int, progress.total_ns as int),
{
    match policy {
        RunCountPolicy::Exact(n) => progress.runs < *n,
        RunCountPolicy::Auto { min_runs, max_runs, min_time_ns } => {
            let under_max = match max_runs {
                Some(mx) => progress.runs < *mx,
                None => true,
            };
            under_max && (progress.runs < *min_runs || progress.total_ns < *min_time_ns)
        },
    }
}

/// In explicit mode the loop stops as soon as the configured count is
/// reached, so it takes exactly that many steps.
pub proof fn lemma_exact_mode_stops(n: u64, runs: int, total_ns: int)
    requires
        runs >= n,
    ensures
        !continue_spec(RunCountPolicy::Exact(n), runs, total_ns),
{
}

/// In automatic mode the loop stops as soon as both the minimum run
/// count and the minimum cumulative time are reached. Every recorded run
/// increases the count by one and the total by the measured time, so the
/// step count is bounded by the configuration and the per-run floor.
pub proof fn lemma_auto_mode_stops(
    min_runs: u64,
    max_runs: Option<u64>,
    min_time_ns: u64,
    runs: int,
    total_ns: int,
)
    requires
        runs >= min_runs,
        total_ns >= min_time_ns,
    ensures
        !continue_spec(RunCountPolicy::Auto { min_runs, max_runs, min_time_ns }, runs, total_ns),
{
}

/// A configured maximum run count caps the loop whatever the measured
/// times are.
pub proof fn lemma_max_runs_cap(min_runs: u64, mx: u64, min_time_ns: u64, runs: int, total_ns: int)
    requires
        runs >= mx,
    ensures
        !continue_spec(
            RunCountPolicy::Auto { min_runs, max_runs: Some(mx), min_time_ns },
            runs,
            total_ns,
        ),
{
}

/// How many warmup-run failures are tolerated before the command's
/// benchmark is aborted.
pub const MAX_WARMUP_FAILURES: u64 = 10;

/// Whether the warmup phase must abort after this many failed runs.
pub fn warmup_must_abort(failures: u64) -> (b: bool)
    ensures
        b == (failures >= MAX_WARMUP_FAILURES),
{
    failures >= MAX_WARMUP_FAILURES
}

/// Whether a timed run's outcome aborts the command's benchmark, and
/// with which error: only a non-success outcome, and only when the
/// engine is configured to require success. A non-zero exit carries its
/// exit code; a signal-terminated run is an intolerable interruption.
pub fn run_outcome_error(exit: &ExitOutcome, fail_on_error: bool) -> (r: Option<BenchmarkError>)
    ensures
        r is Some <==> (fail_on_error && *exit != ExitOutcome::Success),
        r == if fail_on_error {
            match *exit {
                ExitOutcome::Success => Option::<BenchmarkError>::None,
                ExitOutcome::FailureCode(c) => Some(BenchmarkError::CommandFailed(c)),
                ExitOutcome::Terminated => Some(BenchmarkError::Exec(ExecError::Interrupted)),
            }
        } else {
            Option::<BenchmarkError>::None
        },
{
    if !fail_on_error {
        None
    } else {
        match exit {
            ExitOutcome::Success => None,
            ExitOutcome::FailureCode(c) => Some(BenchmarkError::CommandFailed(*c)),
            ExitOutcome::Terminated => Some(BenchmarkError::Exec(ExecError::Interrupted)),
        }
    }
}

} // verus!
