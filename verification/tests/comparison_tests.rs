use hyperfine::benchmark::BenchmarkResult;
use hyperfine::relative_speed::{compute, sort_for_display};
use hyperfine::timer::ExitOutcome;
use hyperfine::warnings::{warnings_enabled, warnings_for, BenchmarkWarning};
use hyperfine::options::OutputStyleOption;

fn result_with(mean: u64, stddev: Option<u64>) -> BenchmarkResult {
    BenchmarkResult {
        command: String::from("cmd"),
        mean,
        stddev,
        median: mean,
        user_mean: 0,
        system_mean: 0,
        min: mean,
        max: mean,
        raw_times: vec![mean],
        exit_codes: vec![ExitOutcome::Success],
        parameter_values: vec![],
    }
}

#[test]
fn relative_speeds_and_propagated_stddev() {
    // means 1 s, 2 s, 4 s with stddevs 0.1 s, 0.2 s, 0.4 s give relative
    // speeds 1.0, 2.0, 4.0; the second command's propagated stddev is
    // 2.0 * sqrt((0.2/2.0)^2 + (0.1/1.0)^2) ~ 0.283 (282 thousandths,
    // rounded down)
    let results = vec![
        result_with(1_000_000_000, Some(100_000_000)),
        result_with(2_000_000_000, Some(200_000_000)),
        result_with(4_000_000_000, Some(400_000_000)),
    ];
    let annotated = compute(&results).unwrap();
    assert_eq!(annotated.len(), 3);
    assert_eq!(annotated[0].relative_speed_milli, 1000);
    assert_eq!(annotated[1].relative_speed_milli, 2000);
    assert_eq!(annotated[2].relative_speed_milli, 4000);
    assert_eq!(annotated[0].relative_speed_stddev_milli, Some(141));
    assert_eq!(annotated[1].relative_speed_stddev_milli, Some(282));
    assert_eq!(annotated[2].relative_speed_stddev_milli, Some(565));
}

#[test]
fn fastest_is_exactly_one_and_nobody_below() {
    let results = vec![
        result_with(5_000_000, None),
        result_with(3_000_000, None),
        result_with(3_000_000, None),
        result_with(9_000_000, None),
    ];
    let annotated = compute(&results).unwrap();
    // the fastest (first result with the minimal mean) is exactly 1.0
    assert_eq!(annotated[1].relative_speed_milli, 1000);
    for a in &annotated {
        assert!(a.relative_speed_milli >= 1000);
    }
}

#[test]
fn missing_stddev_gives_no_propagated_stddev() {
    let results = vec![
        result_with(1_000_000, Some(10_000)),
        result_with(2_000_000, None),
    ];
    let annotated = compute(&results).unwrap();
    assert_eq!(annotated[0].relative_speed_stddev_milli, Some(14));
    assert_eq!(annotated[1].relative_speed_stddev_milli, None);
}

#[test]
fn zero_mean_fastest_is_not_computable() {
    let results = vec![
        result_with(0, None),
        result_with(5_000_000, Some(1_000)),
    ];
    assert!(compute(&results).is_none());
}

#[test]
fn positive_mean_fastest_is_computable() {
    let results = vec![
        result_with(5_000_000, None),
        result_with(7_000_000, None),
    ];
    assert!(compute(&results).is_some());
}

#[test]
fn single_result_is_its_own_fastest() {
    let results = vec![result_with(4_000_000, None)];
    let annotated = compute(&results).unwrap();
    assert_eq!(annotated.len(), 1);
    assert_eq!(annotated[0].relative_speed_milli, 1000);
    assert_eq!(annotated[0].index, 0);
}

#[test]
fn extreme_ratio_saturates() {
    let results = vec![result_with(1, None), result_with(u64::MAX, None)];
    let annotated = compute(&results).unwrap();
    assert_eq!(annotated[0].relative_speed_milli, 1000);
    assert_eq!(annotated[1].relative_speed_milli, u64::MAX);
}

#[test]
fn extreme_relative_error_is_capped() {
    // the fastest command's relative error saturates at the cap of one
    // million (10^12 millionths); the propagated stddevs stay finite
    let results = vec![
        result_with(1, Some(u64::MAX)),
        result_with(2, Some(0)),
    ];
    let annotated = compute(&results).unwrap();
    assert_eq!(
        annotated[0].relative_speed_stddev_milli,
        Some(1_414_213_562)
    );
    assert_eq!(annotated[1].relative_speed_stddev_milli, Some(2_000_000_000));
}

#[test]
fn display_sort_is_stable_by_mean() {
    let results = vec![
        result_with(3_000_000, None),
        result_with(1_000_000, None),
        result_with(2_000_000, None),
        result_with(1_000_000, None),
    ];
    let annotated = compute(&results).unwrap();
    let sorted = sort_for_display(&annotated);
    let order: Vec<usize> = sorted.iter().map(|a| a.index).collect();
    // ascending by mean, the two equal means in input order
    assert_eq!(order, vec![1, 3, 2, 0]);
    assert_eq!(sorted[0].relative_speed_milli, 1000);
}

#[test]
fn warning_on_excluded_outliers() {
    let mut raw = vec![10_000_000u64; 20];
    raw.push(500_000_000);
    let mut r = result_with(10_000_000, Some(0));
    r.raw_times = raw;
    r.exit_codes = vec![ExitOutcome::Success; 21];
    let w = warnings_for(&r);
    assert_eq!(w, vec![BenchmarkWarning::OutliersDetected(1)]);
}

#[test]
fn warning_on_slow_initial_run() {
    let mut r = result_with(55_000_000, None);
    r.raw_times = vec![100_000_000, 10_000_000];
    let w = warnings_for(&r);
    assert_eq!(w, vec![BenchmarkWarning::SlowInitialRun]);
}

#[test]
fn warning_on_fast_command() {
    let r = result_with(1_000_000, None);
    let w = warnings_for(&r);
    assert_eq!(w, vec![BenchmarkWarning::FastExecutionTime]);
}

#[test]
fn warning_on_nonzero_exit() {
    let mut r = result_with(10_000_000, None);
    r.exit_codes = vec![ExitOutcome::Success, ExitOutcome::FailureCode(1)];
    let w = warnings_for(&r);
    assert_eq!(w, vec![BenchmarkWarning::NonZeroExitCode]);
}

#[test]
fn no_warnings_on_clean_result() {
    let r = result_with(10_000_000, None);
    let w = warnings_for(&r);
    assert!(w.is_empty());
}

#[test]
fn warning_visibility_follows_output_style() {
    assert!(warnings_enabled(&OutputStyleOption::Full));
    assert!(warnings_enabled(&OutputStyleOption::Basic));
    assert!(!warnings_enabled(&OutputStyleOption::NoWarnings));
    assert!(!warnings_enabled(&OutputStyleOption::Disabled));
}
