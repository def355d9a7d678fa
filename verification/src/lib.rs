//! Command-line benchmarking engine: shell-spawn calibration, an adaptive
//! timed-run loop, robust outlier rejection, aggregate timing statistics and
//! relative-speed comparison across commands.
//!
//! All durations are handled as whole nanoseconds (`u64`), which gives
//! sub-millisecond resolution with exact integer arithmetic. Process
//! spawning and waiting are I/O and belong to the embedding program; the
//! engine makes every decision and computes every number from the plain
//! measured values it is handed.
pub mod benchmark;
pub mod calibration;
pub mod min_max;
pub mod options;
pub mod outlier;
pub mod relative_speed;
pub mod stats;
pub mod timer;
pub mod warnings;
