use hyperfine::benchmark::{
    aggregate_result, run_outcome_error, should_continue, BenchmarkError, RunProgress,
};
use hyperfine::calibration::{
    calibration_from_samples, make_sample, subtract_calibration, CalibrationEstimate,
};
use hyperfine::options::{
    preparation_index, validate_preparation_commands, Options, OutputStyleOption, RunCountPolicy,
};
use hyperfine::timer::{ExecError, ExitOutcome};

fn all_success(n: usize) -> Vec<ExitOutcome> {
    vec![ExitOutcome::Success; n]
}

#[test]
fn aggregate_small_batch() {
    let wall = vec![3_000_000, 1_000_000, 2_000_000];
    let user = vec![1, 2, 3];
    let system = vec![0, 0, 0];
    let res = aggregate_result(
        String::from("cmd"),
        wall,
        &user,
        &system,
        all_success(3),
        vec![],
    )
    .unwrap();
    assert_eq!(res.mean, 2_000_000);
    assert_eq!(res.median, 2_000_000);
    assert_eq!(res.stddev, Some(1_000_000));
    assert_eq!(res.min, 1_000_000);
    assert_eq!(res.max, 3_000_000);
    assert_eq!(res.user_mean, 2);
    assert_eq!(res.system_mean, 0);
    assert_eq!(res.raw_times, vec![3_000_000, 1_000_000, 2_000_000]);
    // extrema bracket the filtered aggregates
    assert!(res.min <= res.median && res.median <= res.max);
    assert!(res.min <= res.mean && res.mean <= res.max);
}

#[test]
fn aggregate_excludes_outliers_from_mean() {
    // twenty 10 ms samples plus one 500 ms sample: the mean stays 10 ms
    // instead of rising to about 33 ms, while min/max stay raw
    let mut wall = vec![10_000_000u64; 20];
    wall.push(500_000_000);
    let user = vec![0; 21];
    let system = vec![0; 21];
    let res = aggregate_result(
        String::from("cmd"),
        wall,
        &user,
        &system,
        all_success(21),
        vec![],
    )
    .unwrap();
    assert_eq!(res.mean, 10_000_000);
    assert_eq!(res.median, 10_000_000);
    assert_eq!(res.stddev, Some(0));
    assert_eq!(res.min, 10_000_000);
    assert_eq!(res.max, 500_000_000);
}

#[test]
fn aggregate_identical_samples_has_zero_stddev() {
    let wall = vec![7_000_000u64; 5];
    let user = vec![0; 5];
    let system = vec![0; 5];
    let res = aggregate_result(
        String::from("cmd"),
        wall,
        &user,
        &system,
        all_success(5),
        vec![],
    )
    .unwrap();
    assert_eq!(res.stddev, Some(0));
    assert_eq!(res.mean, 7_000_000);
    assert_eq!(res.median, 7_000_000);
}

#[test]
fn aggregate_single_sample_has_no_stddev() {
    let res = aggregate_result(
        String::from("cmd"),
        vec![5_000_000],
        &vec![0],
        &vec![0],
        all_success(1),
        vec![],
    )
    .unwrap();
    assert_eq!(res.stddev, None);
    assert_eq!(res.mean, 5_000_000);
}

#[test]
fn aggregate_zero_samples_fails() {
    let err = aggregate_result(String::from("cmd"), vec![], &vec![], &vec![], vec![], vec![])
        .unwrap_err();
    assert_eq!(err, BenchmarkError::NoSamples);
}

#[test]
fn calibration_subtraction_clamps_at_zero() {
    assert_eq!(subtract_calibration(10, 3), 7);
    assert_eq!(subtract_calibration(3, 10), 0);
    assert_eq!(subtract_calibration(5, 5), 0);
}

#[test]
fn calibration_mean_and_failure() {
    let est = calibration_from_samples(&vec![2_000_000, 4_000_000, 6_000_000]).unwrap();
    assert_eq!(est.shell_spawn_mean_ns, 4_000_000);
    let err = calibration_from_samples(&vec![]).unwrap_err();
    assert_eq!(err, ExecError::SpawnFailed);
}

#[test]
fn recorded_sample_subtracts_overhead() {
    let cal = CalibrationEstimate { shell_spawn_mean_ns: 30 };
    let s = make_sample(100, &cal, 40, 20, ExitOutcome::Success);
    assert_eq!(s.wall_ns, 70);
    assert_eq!(s.user_ns, 40);
    assert_eq!(s.system_ns, 20);
    let fast = make_sample(10, &cal, 0, 0, ExitOutcome::Success);
    assert_eq!(fast.wall_ns, 0);
}

#[test]
fn auto_loop_runs_until_time_threshold() {
    // min_runs = 10, min time 3 s, 50 ms per run: the loop continues past
    // 10 runs until the cumulative time reaches 3 s at run 60
    let policy = RunCountPolicy::Auto {
        min_runs: 10,
        max_runs: None,
        min_time_ns: 3_000_000_000,
    };
    let mut progress = RunProgress::new();
    while should_continue(&policy, &progress) {
        if progress.runs == 10 {
            // well past the minimum count, yet still running
            assert!(progress.total_ns < 3_000_000_000);
        }
        progress.record_run(50_000_000);
    }
    assert_eq!(progress.runs, 60);
    assert_eq!(progress.total_ns, 3_000_000_000);
}

#[test]
fn exact_loop_runs_exact_count() {
    let policy = RunCountPolicy::Exact(5);
    let mut progress = RunProgress::new();
    while should_continue(&policy, &progress) {
        progress.record_run(1);
    }
    assert_eq!(progress.runs, 5);
}

#[test]
fn auto_loop_respects_max_runs() {
    let policy = RunCountPolicy::Auto {
        min_runs: 10,
        max_runs: Some(20),
        min_time_ns: 3_000_000_000,
    };
    let mut progress = RunProgress::new();
    while should_continue(&policy, &progress) {
        progress.record_run(1_000);
    }
    assert_eq!(progress.runs, 20);
}

#[test]
fn policy_explicit_when_bounds_coincide() {
    let opts = Options {
        warmup_count: 0,
        min_runs: Some(7),
        max_runs: Some(7),
        min_benchmarking_time_ns: 3_000_000_000,
        fail_on_error: false,
        show_output: false,
        preparation_command: None,
        setup_command: None,
        cleanup_command: None,
        output_style: OutputStyleOption::Full,
    };
    match opts.run_count_policy() {
        RunCountPolicy::Exact(n) => assert_eq!(n, 7),
        _ => panic!("expected the explicit policy"),
    }
}

#[test]
fn fail_fast_decision_carries_the_exit_code() {
    assert_eq!(run_outcome_error(&ExitOutcome::Success, true), None);
    assert_eq!(run_outcome_error(&ExitOutcome::FailureCode(3), false), None);
    assert_eq!(
        run_outcome_error(&ExitOutcome::FailureCode(3), true),
        Some(BenchmarkError::CommandFailed(3))
    );
    assert_eq!(
        run_outcome_error(&ExitOutcome::Terminated, true),
        Some(BenchmarkError::Exec(ExecError::Interrupted))
    );
}

#[test]
fn preparation_selection() {
    assert_eq!(preparation_index(0, 2), None);
    assert_eq!(preparation_index(1, 2), Some(0));
    assert_eq!(preparation_index(3, 2), Some(2));
}

#[test]
fn preparation_count_mismatch_is_fatal() {
    // two preparation commands for three benchmarked commands: a fatal
    // configuration error before any command runs
    let prep = Some(vec![String::from("a"), String::from("b")]);
    let err = validate_preparation_commands(3, &prep).unwrap_err();
    assert_eq!(err, BenchmarkError::PreparationCountMismatch);
}

#[test]
fn preparation_count_accepted_forms() {
    assert!(validate_preparation_commands(3, &None).is_ok());
    assert!(validate_preparation_commands(3, &Some(vec![String::from("a")])).is_ok());
    let three = Some(vec![
        String::from("a"),
        String::from("b"),
        String::from("c"),
    ]);
    assert!(validate_preparation_commands(3, &three).is_ok());
}
