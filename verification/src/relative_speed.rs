//! Relative-speed comparison across a batch of benchmark results: each
//! command's mean time as a ratio of the fastest command's mean, with the
//! uncertainty propagated from both standard deviations.
//!
//! Ratios are exact fixed-point values: relative speeds in thousandths
//! (the fastest command is exactly 1000), relative errors in millionths.
use vstd::prelude::*;
use vstd::relations::sorted_by;
use crate::benchmark::BenchmarkResult;
use crate::stats::{
    min_of, int_sqrt, is_int_sqrt, isqrt_u128, lemma_sorted_of, lemma_min_max_element,
};
use vstd::arithmetic::div_mod::{lemma_div_is_ordered, lemma_div_multiples_vanish};

verus! {

/// Fixed-point scale for relative speeds: thousandths.
pub const SPEED_SCALE: u64 = 1000;

/// Fixed-point scale for relative errors: millionths.
pub const REL_SCALE: u64 = 1_000_000;

/// Cap on a scaled relative error: a relative standard deviation of one
/// million times the mean, far beyond anything meaningful, keeping all
/// later fixed-point arithmetic inside 128 bits.
pub const REL_CAP_MICRO: u64 = 1_000_000_000_000;

/// A benchmark result annotated with its speed relative to the fastest
/// command of the batch. Ephemeral: built only for the final comparison.
#[derive(Clone, Copy, Debug)]
pub struct AnnotatedResult {
    /// Position of the underlying result in the input batch.
    pub index: usize,
    /// Mean wall time of the underlying result, in nanoseconds.
    pub mean: u64,
    /// Relative speed in thousandths; 1000 means exactly as fast as the
    /// fastest command.
    pub relative_speed_milli: u64,
    /// Propagated standard deviation of the relative speed, in
    /// thousandths; absent when either standard deviation is absent.
    pub relative_speed_stddev_milli: Option<u64>,
}

/// The mean times of a batch of results.
pub open spec fn means_of(rs: Seq<BenchmarkResult>) -> Seq<u64> {
    rs.map_values(|r: BenchmarkResult| r.mean)
}

/// Mean time of the fastest command in the batch.
pub open spec fn fastest_mean_of(rs: Seq<BenchmarkResult>) -> int
    recommends
        rs.len() > 0,
{
    min_of(means_of(rs))
}

/// Index of the fastest command: the first result whose mean is minimal,
/// so ties keep input order.
pub open spec fn fastest_index_of(rs: Seq<BenchmarkResult>) -> int
    recommends
        rs.len() > 0,
{
    choose|i: int|
        0 <= i < rs.len() && rs[i].mean as int == fastest_mean_of(rs) && (forall|j: int|
            0 <= j < i ==> (#[trigger] rs[j].mean) as int > fastest_mean_of(rs))
}

/// Relative speed in thousandths: `mean * 1000 / fastest`, rounded down
/// and saturated at `u64::MAX`.
pub open spec fn ratio_milli(mean: int, fastest: int) -> int
    recommends
        0 < fastest,
{
    let q = mean * (SPEED_SCALE as int) / fastest;
    if q > u64::MAX as int {
        u64::MAX as int
    } else {
        q
    }
}

/// Relative error in millionths: `stddev * 10^6 / mean`, rounded down
/// and capped at `REL_CAP_MICRO`.
pub open spec fn rel_micro(stddev: int, mean: int) -> int
    recommends
        0 < mean,
{
    let q = stddev * (REL_SCALE as int) / mean;
    if q > REL_CAP_MICRO as int {
        REL_CAP_MICRO as int
    } else {
        q
    }
}

/// Propagated standard deviation of a relative speed, in thousandths:
/// `ratio * sqrt((stddev/mean)^2 + (fstddev/fmean)^2)` evaluated in fixed
/// point, rounded down and saturated at `u64::MAX`.
pub open spec fn ratio_stddev_milli(mean: int, stddev: int, fmean: int, fstddev: int) -> int
    recommends
        0 < fmean,
        0 < mean,
{
    let a = rel_micro(stddev, mean);
    let b = rel_micro(fstddev, fmean);
    let root = int_sqrt(a * a + b * b);
    let q = ratio_milli(mean, fmean) * root / (REL_SCALE as int);
    if q > u64::MAX as int {
        u64::MAX as int
    } else {
        q
    }
}

/// A command is never reported faster than the fastest: its ratio is at
/// least 1000 thousandths.
pub proof fn lemma_ratio_at_least_one(mean: int, fastest: int)
    requires
        0 < fastest <= mean,
    ensures
        ratio_milli(mean, fastest) >= SPEED_SCALE as int,
{
    let s = SPEED_SCALE as int;
    assert(fastest * s <= mean * s) by (nonlinear_arith)
        requires 0 < fastest <= mean, s == 1000,
    ;
    lemma_div_is_ordered(fastest * s, mean * s, fastest);
    lemma_div_multiples_vanish(s, fastest);
    assert(fastest * s == s * fastest) by (nonlinear_arith);
}

/// The fastest command's relative speed is exactly 1.0: 1000 thousandths.
pub proof fn lemma_ratio_of_fastest_exact(fastest: int)
    requires
        0 < fastest,
    ensures
        ratio_milli(fastest, fastest) == SPEED_SCALE as int,
{
    let s = SPEED_SCALE as int;
    lemma_div_multiples_vanish(s, fastest);
    assert(fastest * s == s * fastest) by (nonlinear_arith);
}

/// Relative speed in thousandths, saturated at `u64::MAX`.
fn ratio_milli_ns(mean: u64, fastest: u64) -> (r: u64)
    requires
        fastest > 0,
    ensures
        r as int == ratio_milli(mean as int, fastest as int),
{
    let q = (mean as u128) * (SPEED_SCALE as u128) / (fastest as u128);
    if q > (u64::MAX as u128) {
        u64::MAX
    } else {
        q as u64
    }
}

/// Relative error in millionths, capped at `REL_CAP_MICRO`.
fn rel_micro_ns(stddev: u64, mean: u64) -> (r: u64)
    requires
        mean > 0,
    ensures
        r as int == rel_micro(stddev as int, mean as int),
        r <= REL_CAP_MICRO,
{
    let q = (stddev as u128) * (REL_SCALE as u128) / (mean as u128);
    if q > (REL_CAP_MICRO as u128) {
        REL_CAP_MICRO
    } else {
        q as u64
    }
}

/// Propagated standard deviation of a relative speed, in thousandths.
fn ratio_stddev_ns(mean: u64, stddev: u64, fmean: u64, fstddev: u64) -> (r: u64)
    requires
        fmean > 0,
        mean > 0,
    ensures
        r as int == ratio_stddev_milli(mean as int, stddev as int, fmean as int, fstddev as int),
{
    let a = rel_micro_ns(stddev, mean);
    let b = rel_micro_ns(fstddev, fmean);
    proof {
        assert((a as int) * (a as int) + (b as int) * (b as int) <= 2 * (REL_CAP_MICRO as int) * (
        REL_CAP_MICRO as int)) by (nonlinear_arith)
            requires
                0 <= a as int <= REL_CAP_MICRO as int,
                0 <= b as int <= REL_CAP_MICRO as int,
        ;
    }
    let q: u128 = (a as u128) * (a as u128) + (b as u128) * (b as u128);
    let root = isqrt_u128(q);
    proof {
        assert(root as int <= 2 * REL_CAP_MICRO as int) by (nonlinear_arith)
            requires
                is_int_sqrt(q as int, root as int),
                q as int <= 2 * (REL_CAP_MICRO as int) * (REL_CAP_MICRO as int),
                REL_CAP_MICRO == 1_000_000_000_000u64,
        ;
    }
    let rm = ratio_milli_ns(mean, fmean);
    proof {
        assert((rm as int) * (root as int) <= (u64::MAX as int) * (2 * REL_CAP_MICRO as int))
            by (nonlinear_arith)
            requires
                0 <= rm as int <= u64::MAX as int,
                0 <= root as int <= 2 * REL_CAP_MICRO as int,
        ;
        assert((u64::MAX as int) * (2 * REL_CAP_MICRO as int) < u128::MAX as int)
            by (nonlinear_arith);
    }
    let p: u128 = (rm as u128) * (root as u128) / (REL_SCALE as u128);
    if p > (u64::MAX as u128) {
        u64::MAX
    } else {
        p as u64
    }
}

/// Annotate each result with its speed relative to the fastest command.
/// The comparison is not computable exactly when the fastest command's
/// mean is zero; `None` signals the caller to print a diagnostic instead
/// of a comparison table.
pub fn compute(results: &Vec<BenchmarkResult>) -> (r: Option<Vec<AnnotatedResult>>)
    requires
        results.len() > 0,
    ensures
        r is None <==> fastest_mean_of(results@) == 0,
        r matches Some(v) ==> {
            let f = fastest_mean_of(results@);
            let fi = fastest_index_of(results@);
            &&& f > 0
            &&& 0 <= fi < results.len()
            &&& results@[fi].mean as int == f
            &&& v.len() == results.len()
            &&& forall|i: int| 0 <= i < v.len() ==> (#[trigger] v@[i]).index == i
            &&& forall|i: int| 0 <= i < v.len() ==> (#[trigger] v@[i]).mean == results@[i].mean
            &&& forall|i: int|
                0 <= i < v.len() ==> (#[trigger] v@[i]).relative_speed_milli as int == ratio_milli(
                    results@[i].mean as int,
                    f,
                )
            &&& forall|i: int|
                0 <= i < v.len() ==> (#[trigger] v@[i]).relative_speed_milli >= SPEED_SCALE
            &&& v@[fi].relative_speed_milli == SPEED_SCALE
            &&& forall|i: int|
                0 <= i < v.len() ==> ((#[trigger] v@[i]).relative_speed_stddev_milli is Some <==> (
                results@[i].stddev is Some && results@[fi].stddev is Some))
            &&& forall|i: int|
                0 <= i < v.len() ==> ((#[trigger] v@[i]).relative_speed_stddev_milli matches Some(
                    sd,
                ) ==> sd as int == ratio_stddev_milli(
                    results@[i].mean as int,
                    results@[i].stddev->0 as int,
                    f,
                    results@[fi].stddev->0 as int,
                ))
        },
{
    let ghost rs = results@;
    let mut fi: usize = 0;
    let mut i: usize = 1;
    while i < results.len()
        invariant
            1 <= i <= results.len(),
            fi < i,
            forall|j: int| 0 <= j < i ==> (#[trigger] rs[j].mean) >= rs[fi as int].mean,
            forall|j: int| 0 <= j < fi ==> (#[trigger] rs[j].mean) > rs[fi as int].mean,
            rs == results@,
        decreases results.len() - i,
    {
        if results[i].mean < results[fi].mean {
            fi = i;
        }
        i += 1;
    }
    proof {
        let means = means_of(rs);
        lemma_sorted_of(means);
        lemma_min_max_element(means);
        assert(means.contains(crate::stats::sorted_of(means)[0]));
        let k = choose|k: int| 0 <= k < means.len() && means[k] == crate::stats::sorted_of(means)[0];
        assert(rs[fi as int].mean <= means[k]);
        assert(min_of(means) <= means[fi as int] as int);
        assert(rs[fi as int].mean as int == fastest_mean_of(rs));
        // fi is the first index attaining the minimum, hence the
        // witness for fastest_index_of, which is unique
        assert(0 <= fi < rs.len() && rs[fi as int].mean as int == fastest_mean_of(rs) && (
        forall|j: int| 0 <= j < fi ==> (#[trigger] rs[j].mean) as int > fastest_mean_of(rs)));
        let c = fastest_index_of(rs);
        if c < fi {
            assert(rs[c].mean as int > fastest_mean_of(rs));
        } else if fi < c {
            assert(rs[fi as int].mean as int > fastest_mean_of(rs));
        }
        assert(c == fi);
    }
    let fmean = results[fi].mean;
    if fmean == 0 {
        return None;
    }
    let fstddev = results[fi].stddev;
    let mut v: Vec<AnnotatedResult> = Vec::new();
    let mut k: usize = 0;
    while k < results.len()
        invariant
            k <= results.len(),
            v.len() == k,
            rs == results@,
            fi < rs.len(),
            fmean == rs[fi as int].mean,
            fmean > 0,
            fmean as int == fastest_mean_of(rs),
            fstddev == rs[fi as int].stddev,
            forall|j: int| 0 <= j < rs.len() ==> (#[trigger] rs[j].mean) >= fmean,
            forall|j: int| 0 <= j < k ==> (#[trigger] v@[j]).index == j,
            forall|j: int| 0 <= j < k ==> (#[trigger] v@[j]).mean == rs[j].mean,
            forall|j: int|
                0 <= j < k ==> (#[trigger] v@[j]).relative_speed_milli as int == ratio_milli(
                    rs[j].mean as int,
                    fmean as int,
                ),
            forall|j: int| 0 <= j < k ==> (#[trigger] v@[j]).relative_speed_milli >= SPEED_SCALE,
            forall|j: int|
                0 <= j < k ==> ((#[trigger] v@[j]).relative_speed_stddev_milli is Some <==> (
                rs[j].stddev is Some && fstddev is Some)),
            forall|j: int|
                0 <= j < k ==> ((#[trigger] v@[j]).relative_speed_stddev_milli matches Some(sd)
                    ==> sd as int == ratio_stddev_milli(
                    rs[j].mean as int,
                    rs[j].stddev->0 as int,
                    fmean as int,
                    fstddev->0 as int,
                )),
        decreases results.len() - k,
    {
        let mean_k = results[k].mean;
        let rsp = ratio_milli_ns(mean_k, fmean);
        proof {
            lemma_ratio_at_least_one(mean_k as int, fmean as int);
        }
        let sd = match (results[k].stddev, fstddev) {
            (Some(s), Some(fs)) => Some(ratio_stddev_ns(mean_k, s, fmean, fs)),
            _ => None,
        };
        v.push(
            AnnotatedResult {
                index: k,
                mean: mean_k,
                relative_speed_milli: rsp,
                relative_speed_stddev_milli: sd,
            },
        );
        k += 1;
    }
    proof {
        lemma_ratio_of_fastest_exact(fmean as int);
    }
    Some(v)
}

/// Display order for annotated results: ascending by mean time, fastest
/// first, ties broken by input position (a stable order).
pub open spec fn display_leq() -> spec_fn(AnnotatedResult, AnnotatedResult) -> bool {
    |a: AnnotatedResult, b: AnnotatedResult|
        (a.mean < b.mean) || (a.mean == b.mean && a.index <= b.index)
}

/// Sort annotated results for display: ascending by mean time, ties kept
/// in input order.
pub fn sort_for_display(v: &Vec<AnnotatedResult>) -> (r: Vec<AnnotatedResult>)
    ensures
        r@.to_multiset() == v@.to_multiset(),
        sorted_by(r@, display_leq()),
        r.len() == v.len(),
{
    broadcast use vstd::seq_lib::group_to_multiset_ensures;

    let mut r: Vec<AnnotatedResult> = Vec::new();
    let mut i: usize = 0;
    while i < v.len()
        invariant
            i <= v.len(),
            r.len() == i,
            sorted_by(r@, display_leq()),
            r@.to_multiset() == v@.take(i as int).to_multiset(),
        decreases v.len() - i,
    {
        let x = v[i];
        let ghost pre = r@;
        let mut j: usize = 0;
        while j < r.len() && (r[j].mean < x.mean || (r[j].mean == x.mean && r[j].index <= x.index))
            invariant
                j <= r.len(),
                forall|k: int| 0 <= k < j ==> display_leq()(#[trigger] r@[k], x),
                r@ == pre,
            decreases r.len() - j,
        {
            j += 1;
        }
        assert(j < pre.len() ==> !display_leq()(pre[j as int], x));
        r.insert(j, x);
        proof {
            pre.insert_ensures(j as int, x);
            assert forall|p: int, q: int| 0 <= p < q < r@.len() implies display_leq()(
                r@[p],
                r@[q],
            ) by {
                if q < j {
                    assert(display_leq()(pre[p], pre[q]));
                } else if p > j {
                    assert(display_leq()(pre[p - 1], pre[q - 1]));
                } else if p == j && q > j {
                    assert(!display_leq()(pre[j as int], x));
                    if (j as int) < q - 1 {
                        assert(display_leq()(pre[j as int], pre[q - 1]));
                    }
                } else if q == j {
                    assert(display_leq()(pre[p], x));
                } else {
                    assert(!display_leq()(pre[j as int], x));
                    if (j as int) < q - 1 {
                        assert(display_leq()(pre[j as int], pre[q - 1]));
                    }
                }
            }
            assert(r@ == pre.insert(j as int, x));
            vstd::seq_lib::to_multiset_insert(pre, j as int, x);
            vstd::seq_lib::to_multiset_build(v@.take(i as int), x);
            assert(v@.take(i + 1) =~= v@.take(i as int).push(v@[i as int]));
            assert(r@.to_multiset() == v@.take(i + 1).to_multiset());
        }
        i += 1;
    }
    proof {
        assert(v@.take(v@.len() as int) =~= v@);
    }
    r
}

} // verus!
