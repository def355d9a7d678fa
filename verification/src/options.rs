//! Engine configuration: warmup count, run-count bounds, timing threshold
//! and the optional setup / preparation / cleanup commands, together with
//! the validation that must pass before any command runs.
use vstd::prelude::*;

verus! {

/// Default minimum number of timed runs in automatic mode.
pub const DEFAULT_MIN_RUNS: u64 = 10;

/// Default minimum cumulative measured time in automatic mode: 3 seconds.
pub const DEFAULT_MIN_BENCHMARKING_TIME_NS: u64 = 3_000_000_000;

/// How much console output the tool produces.
#[derive(Clone, Copy, PartialEq, Eq, Structural, Debug)]
pub enum OutputStyleOption {
    Full,
    Basic,
    NoWarnings,
    Disabled,
}

/// Engine configuration for one invocation of the tool.
#[derive(Clone, Debug)]
pub struct Options {
    /// Number of untimed warmup executions before measuring.
    pub warmup_count: u64,
    /// Explicit lower bound on the number of timed runs, if any.
    pub min_runs: Option<u64>,
    /// Explicit upper bound on the number of timed runs, if any.
    pub max_runs: Option<u64>,
    /// Minimum cumulative measured time in automatic mode.
    pub min_benchmarking_time_ns: u64,
    /// Abort a command's benchmark when it exits non-zero.
    pub fail_on_error: bool,
    /// Forward the child's standard streams instead of discarding them.
    pub show_output: bool,
    /// Commands run before every timed iteration, not counted in the
    /// measurement: either one for all commands or one per command.
    pub preparation_command: Option<Vec<String>>,
    /// Command run once before a benchmark; its failure is fatal.
    pub setup_command: Option<String>,
    /// Command run once after all timed runs.
    pub cleanup_command: Option<String>,
    /// Console output style.
    pub output_style: OutputStyleOption,
}

/// Iteration-count policy for the timed-run loop.
#[derive(Clone, Copy, Debug)]
pub enum RunCountPolicy {
    /// Run exactly this many timed iterations.
    Exact(u64),
    /// Run until both the minimum run count and the minimum cumulative
    /// time are satisfied, capped by `max_runs` when present.
    Auto { min_runs: u64, max_runs: Option<u64>, min_time_ns: u64 },
}

/// The run-count policy an option set denotes: an explicit count when the
/// configured bounds coincide, the adaptive mode otherwise.
pub open spec fn policy_of(
    min_runs: Option<u64>,
    max_runs: Option<u64>,
    min_time_ns: u64,
) -> RunCountPolicy {
    if min_runs is Some && max_runs is Some && min_runs->0 == max_runs->0 {
        RunCountPolicy::Exact(min_runs->0)
    } else {
        RunCountPolicy::Auto {
            min_runs: if min_runs is Some {
                min_runs->0
            } else {
                DEFAULT_MIN_RUNS
            },
            max_runs,
            min_time_ns,
        }
    }
}

impl Options {
    /// The run-count policy this option set denotes.
    pub fn run_count_policy(&self) -> (r: RunCountPolicy)
        ensures
            r == policy_of(self.min_runs, self.max_runs, self.min_benchmarking_time_ns),
    {
        match (self.min_runs, self.max_runs) {
            (Some(a), Some(b)) => {
                if a == b {
                    RunCountPolicy::Exact(a)
                } else {
                    RunCountPolicy::Auto {
                        min_runs: a,
                        max_runs: Some(b),
                        min_time_ns: self.min_benchmarking_time_ns,
                    }
                }
            },
            (Some(a), None) => RunCountPolicy::Auto {
                min_runs: a,
                max_runs: None,
                min_time_ns: self.min_benchmarking_time_ns,
            },
            (None, mx) => RunCountPolicy::Auto {
                min_runs: DEFAULT_MIN_RUNS,
                max_runs: mx,
                min_time_ns: self.min_benchmarking_time_ns,
            },
        }
    }
}

/// A preparation-command list is valid when it holds one command for all
/// benchmarked commands, or exactly one per benchmarked command.
pub open spec fn preparation_count_ok(n_commands: int, preparation: Option<Seq<String>>) -> bool {
    match preparation {
        Some(p) => p.len() <= 1 || p.len() == n_commands,
        None => true,
    }
}

/// Which preparation command the `num`-th benchmarked command uses: with
/// a single configured command it applies to all, otherwise the list
/// holds one command per benchmarked command.
pub fn preparation_index(prep_len: usize, num: usize) -> (r: Option<usize>)
    ensures
        r == if prep_len == 0 {
            Option::<usize>::None
        } else if prep_len == 1 {
            Option::<usize>::Some(0usize)
        } else {
            Option::<usize>::Some(num)
        },
{
    if prep_len == 0 {
        None
    } else if prep_len == 1 {
        Some(0)
    } else {
        Some(num)
    }
}

/// The preparation-command list as a spec value.
pub open spec fn prep_view(preparation: Option<Vec<String>>) -> Option<Seq<String>> {
    match preparation {
        Some(p) => Some(p@),
        None => None,
    }
}

/// Validate the preparation-command count against the number of
/// benchmarked commands. A mismatch is a fatal configuration error,
/// raised before any command runs.
pub fn validate_preparation_commands(n_commands: usize, preparation: &Option<Vec<String>>) -> (r:
    Result<(), crate::benchmark::BenchmarkError>)
    ensures
        r is Ok <==> preparation_count_ok(n_commands as int, prep_view(*preparation)),
        r is Err ==> r == Err::<(), crate::benchmark::BenchmarkError>(
            crate::benchmark::BenchmarkError::PreparationCountMismatch,
        ),
{
    match preparation {
        Some(p) => {
            if p.len() > 1 && p.len() != n_commands {
                Err(crate::benchmark::BenchmarkError::PreparationCountMismatch)
            } else {
                Ok(())
            }
        },
        None => Ok(()),
    }
}

} // verus!
