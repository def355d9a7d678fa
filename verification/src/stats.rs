//! Aggregate statistics over nanosecond duration samples: sorting, extrema,
//! mean, median and sample standard deviation, all in exact integer
//! arithmetic (durations are whole nanoseconds held in `u64`).
use vstd::prelude::*;
use vstd::relations::{sorted_by, total_ordering};
use vstd::seq_lib::lemma_sorted_unique;
use vstd::seq_lib::group_to_multiset_ensures;
use vstd::arithmetic::div_mod::lemma_div_is_ordered;
use vstd::arithmetic::div_mod::lemma_div_multiples_vanish;

verus! {

/// Largest single duration sample (in nanoseconds) that the standard
/// deviation computation accepts: 2^53 ns, about 104 days per run.
pub const MAX_SAMPLE_NS: u64 = 0x20_0000_0000_0000;

/// Largest number of samples that the standard deviation computation
/// accepts: 2^20 runs. Together with `MAX_SAMPLE_NS` this keeps the sum of
/// squared deviations below 2^126, so a 128-bit accumulator cannot overflow.
pub const MAX_SAMPLES: usize = 0x10_0000;

/// The `<=` ordering on nanosecond values, as a spec-level relation.
pub open spec fn ns_leq() -> spec_fn(u64, u64) -> bool {
    |a: u64, b: u64| a <= b
}

pub proof fn lemma_ns_leq_total()
    ensures
        total_ordering(ns_leq()),
{
    let r = ns_leq();
    assert forall|x: u64| #[trigger] r(x, x) by {}
    assert forall|x: u64, y: u64| #[trigger] r(x, y) && #[trigger] r(y, x) implies x == y by {}
    assert forall|x: u64, y: u64, z: u64| #[trigger] r(x, y) && #[trigger] r(y, z) implies r(
        x,
        z,
    ) by {}
    assert forall|x: u64, y: u64| #[trigger] r(x, y) || #[trigger] r(y, x) by {}
}

/// The samples in ascending order: the unique sorted permutation.
pub open spec fn sorted_of(s: Seq<u64>) -> Seq<u64> {
    s.sort_by(ns_leq())
}

pub proof fn lemma_sorted_of(s: Seq<u64>)
    ensures
        sorted_by(sorted_of(s), ns_leq()),
        s.to_multiset() == sorted_of(s).to_multiset(),
        sorted_of(s).len() == s.len(),
        forall|i: int| 0 <= i < s.len() ==> sorted_of(s).contains(#[trigger] s[i]),
        forall|i: int| 0 <= i < s.len() ==> s.contains(#[trigger] sorted_of(s)[i]),
        forall|i: int, j: int|
            0 <= i <= j < s.len() ==> #[trigger] sorted_of(s)[i] <= #[trigger] sorted_of(s)[j],
{
    broadcast use group_to_multiset_ensures;

    s.lemma_sort_by_ensures(ns_leq());
    let t = sorted_of(s);
    assert(s.to_multiset() =~= t.to_multiset());
    assert(s.to_multiset().len() == s.len());
    assert(t.to_multiset().len() == t.len());
    assert forall|i: int| 0 <= i < s.len() implies t.contains(#[trigger] s[i]) by {
        assert(s.contains(s[i]));
        assert(s.to_multiset().count(s[i]) > 0);
    }
    assert forall|i: int| 0 <= i < s.len() implies s.contains(#[trigger] t[i]) by {
        assert(t.contains(t[i]));
        assert(t.to_multiset().count(t[i]) > 0);
    }
    assert forall|i: int, j: int| 0 <= i <= j < s.len() implies #[trigger] t[i] <= #[trigger] t[j] by {
        if i < j {
            assert(ns_leq()(t[i], t[j]));
        }
    }
}

/// Smallest sample.
pub open spec fn min_of(s: Seq<u64>) -> int
    recommends
        s.len() > 0,
{
    sorted_of(s).first() as int
}

/// Largest sample.
pub open spec fn max_of(s: Seq<u64>) -> int
    recommends
        s.len() > 0,
{
    sorted_of(s).last() as int
}

/// Median: middle element of the sorted samples, or the mean of the two
/// middle elements (rounded down) when the count is even.
pub open spec fn median_of(s: Seq<u64>) -> int
    recommends
        s.len() > 0,
{
    let t = sorted_of(s);
    let n = s.len() as int;
    if n % 2 == 1 {
        t[n / 2] as int
    } else {
        (t[n / 2 - 1] as int + t[n / 2] as int) / 2
    }
}

/// Sum of all samples.
pub open spec fn sum_of(s: Seq<u64>) -> int
    decreases s.len(),
{
    if s.len() == 0 {
        0
    } else {
        sum_of(s.drop_last()) + s.last()
    }
}

/// Arithmetic mean, rounded down to a whole nanosecond.
pub open spec fn mean_of(s: Seq<u64>) -> int
    recommends
        s.len() > 0,
{
    sum_of(s) / (s.len() as int)
}

pub proof fn lemma_sum_bounds(s: Seq<u64>, lo: int, hi: int)
    requires
        forall|i: int| 0 <= i < s.len() ==> lo <= #[trigger] s[i] as int <= hi,
    ensures
        lo * s.len() <= sum_of(s) <= hi * s.len(),
    decreases s.len(),
{
    if s.len() == 0 {
    } else {
        let d = s.drop_last();
        assert(forall|i: int| 0 <= i < d.len() ==> lo <= #[trigger] d[i] as int <= hi);
        lemma_sum_bounds(d, lo, hi);
        assert(lo <= s.last() as int <= hi);
        assert(lo * s.len() == lo * d.len() + lo) by (nonlinear_arith)
            requires s.len() == d.len() + 1,
        ;
        assert(hi * s.len() == hi * d.len() + hi) by (nonlinear_arith)
            requires s.len() == d.len() + 1,
        ;
    }
}

/// Every sample lies between the smallest and the largest.
pub proof fn lemma_min_max_element(s: Seq<u64>)
    requires
        s.len() > 0,
    ensures
        forall|i: int| 0 <= i < s.len() ==> min_of(s) <= #[trigger] s[i] as int <= max_of(s),
{
    lemma_sorted_of(s);
    let t = sorted_of(s);
    assert forall|i: int| 0 <= i < s.len() implies min_of(s) <= #[trigger] s[i] as int <= max_of(
        s,
    ) by {
        assert(t.contains(s[i]));
        let j = choose|j: int| 0 <= j < t.len() && t[j] == s[i];
        assert(t[0] <= t[j]);
        assert(t[j] <= t[t.len() - 1]);
    }
}

/// The floored mean lies between the smallest and the largest sample.
pub proof fn lemma_mean_bounds(s: Seq<u64>)
    requires
        s.len() > 0,
    ensures
        min_of(s) <= mean_of(s) <= max_of(s),
{
    lemma_min_max_element(s);
    let n = s.len() as int;
    let lo = min_of(s);
    let hi = max_of(s);
    lemma_sum_bounds(s, lo, hi);
    lemma_div_is_ordered(lo * n, sum_of(s), n);
    lemma_div_is_ordered(sum_of(s), hi * n, n);
    lemma_div_multiples_vanish(lo, n);
    lemma_div_multiples_vanish(hi, n);
    assert(lo * n == n * lo) by (nonlinear_arith);
    assert(hi * n == n * hi) by (nonlinear_arith);
}

/// The median lies between the smallest and the largest sample.
pub proof fn lemma_median_bounds(s: Seq<u64>)
    requires
        s.len() > 0,
    ensures
        min_of(s) <= median_of(s) <= max_of(s),
{
    lemma_sorted_of(s);
    let t = sorted_of(s);
    let n = s.len() as int;
    if n % 2 == 1 {
        assert(t[0] <= t[n / 2]);
        assert(t[n / 2] <= t[n - 1]);
    } else {
        let a = t[n / 2 - 1] as int;
        let b = t[n / 2] as int;
        assert(t[0] <= t[n / 2 - 1]);
        assert(t[n / 2] <= t[n - 1]);
        let lo = t[0] as int;
        let hi = t[n - 1] as int;
        lemma_div_is_ordered(2 * lo, a + b, 2);
        lemma_div_is_ordered(a + b, 2 * hi, 2);
        lemma_div_multiples_vanish(lo, 2);
        lemma_div_multiples_vanish(hi, 2);
    }
}

pub proof fn lemma_sum_constant(s: Seq<u64>, c: u64)
    requires
        forall|i: int| 0 <= i < s.len() ==> #[trigger] s[i] == c,
    ensures
        sum_of(s) == (c as int) * s.len(),
    decreases s.len(),
{
    if s.len() == 0 {
    } else {
        let d = s.drop_last();
        lemma_sum_constant(d, c);
        assert((c as int) * d.len() + c == (c as int) * s.len()) by (nonlinear_arith)
            requires s.len() == d.len() + 1,
        ;
    }
}

/// When every sample equals `c`, every aggregate statistic equals `c`.
pub proof fn lemma_all_equal_stats(s: Seq<u64>, c: u64)
    requires
        s.len() > 0,
        forall|i: int| 0 <= i < s.len() ==> #[trigger] s[i] == c,
    ensures
        min_of(s) == c,
        max_of(s) == c,
        median_of(s) == c,
        mean_of(s) == c,
{
    lemma_sorted_of(s);
    let t = sorted_of(s);
    assert forall|i: int| 0 <= i < t.len() implies #[trigger] t[i] == c by {
        assert(s.contains(t[i]));
    }
    let n = s.len() as int;
    if n % 2 == 1 {
    } else {
        lemma_div_multiples_vanish(c as int, 2);
        assert((c as int + c as int) == 2 * (c as int));
    }
    lemma_sum_constant(s, c);
    lemma_div_multiples_vanish(c as int, n);
    assert((c as int) * n == n * (c as int)) by (nonlinear_arith);
}

pub proof fn lemma_sum_sq_dev_constant(s: Seq<u64>, c: u64)
    requires
        forall|i: int| 0 <= i < s.len() ==> #[trigger] s[i] == c,
    ensures
        sum_sq_dev(s, c as int) == 0,
    decreases s.len(),
{
    if s.len() == 0 {
    } else {
        let d = s.drop_last();
        assert(forall|i: int| 0 <= i < d.len() ==> #[trigger] d[i] == c);
        lemma_sum_sq_dev_constant(d, c);
        assert(s.last() == c);
        assert(sq(0) == 0) by (nonlinear_arith);
    }
}

/// Sorted (ascending) copy of the samples.
pub fn sorted_copy(v: &Vec<u64>) -> (r: Vec<u64>)
    ensures
        r@ == sorted_of(v@),
        r.len() == v.len(),
{
    broadcast use group_to_multiset_ensures;

    let mut r: Vec<u64> = Vec::new();
    let mut i: usize = 0;
    while i < v.len()
        invariant
            i <= v.len(),
            r.len() == i,
            sorted_by(r@, ns_leq()),
            r@.to_multiset() == v@.take(i as int).to_multiset(),
        decreases v.len() - i,
    {
        let x = v[i];
        let ghost pre = r@;
        let mut j: usize = 0;
        while j < r.len() && r[j] <= x
            invariant
                j <= r.len(),
                forall|k: int| 0 <= k < j ==> #[trigger] r@[k] <= x,
                r@ == pre,
            decreases r.len() - j,
        {
            j += 1;
        }
        assert(j < pre.len() ==> pre[j as int] > x);
        r.insert(j, x);
        proof {
            pre.insert_ensures(j as int, x);
            assert forall|p: int, q: int| 0 <= p < q < r@.len() implies ns_leq()(r@[p], r@[q]) by {
                if q < j {
                    assert(ns_leq()(pre[p], pre[q]));
                } else if p > j {
                    assert(ns_leq()(pre[p - 1], pre[q - 1]));
                } else if p == j && q > j {
                    // r[p] == x, r[q] == pre[q-1] with q-1 >= j, pre[j] > x
                    assert(pre[j as int] <= pre[q - 1]) by {
                        if (j as int) < q - 1 {
                            assert(ns_leq()(pre[j as int], pre[q - 1]));
                        }
                    }
                } else if q == j {
                    // r[p] == pre[p] <= x == r[q]
                } else {
                    // p < j < q: r[p] == pre[p] <= x, r[q] == pre[q-1] >= pre[j] > x
                    assert(pre[j as int] <= pre[q - 1]) by {
                        if (j as int) < q - 1 {
                            assert(ns_leq()(pre[j as int], pre[q - 1]));
                        }
                    }
                }
            }
            assert(r@ == pre.insert(j as int, x));
            vstd::seq_lib::to_multiset_insert(pre, j as int, x);
            vstd::seq_lib::to_multiset_build(v@.take(i as int), x);
            assert(v@.take(i + 1) =~= v@.take(i as int).push(v@[i as int]));
            assert(r@.to_multiset() == v@.take(i + 1).to_multiset());
        }
        i += 1;
    }
    proof {
        assert(v@.take(v@.len() as int) =~= v@);
        lemma_ns_leq_total();
        lemma_sorted_of(v@);
        lemma_sorted_unique(r@, sorted_of(v@), ns_leq());
    }
    r
}

/// Arithmetic mean of the samples, rounded down to a whole nanosecond.
pub fn mean_ns(v: &Vec<u64>) -> (r: u64)
    requires
        v.len() > 0,
    ensures
        r as int == mean_of(v@),
{
    let mut total: u128 = 0;
    let mut i: usize = 0;
    while i < v.len()
        invariant
            i <= v.len(),
            total == sum_of(v@.take(i as int)),
            total <= (i as int) * (u64::MAX as int),
        decreases v.len() - i,
    {
        proof {
            assert(v@.take(i + 1).drop_last() =~= v@.take(i as int));
            assert((i as int) * (u64::MAX as int) + (u64::MAX as int) == (i + 1) * (
            u64::MAX as int)) by (nonlinear_arith);
            assert((i + 1) * (u64::MAX as int) <= (u64::MAX as int) * (u64::MAX as int))
                by (nonlinear_arith)
                requires i + 1 <= u64::MAX as int,
            ;
        }
        total = total + (v[i] as u128);
        i += 1;
    }
    proof {
        assert(v@.take(v@.len() as int) =~= v@);
        lemma_mean_bounds(v@);
        lemma_min_max_element(v@);
    }
    let q = total / (v.len() as u128);
    proof {
        lemma_sum_bounds(v@, min_of(v@), max_of(v@));
        assert(q as int == mean_of(v@));
        assert(mean_of(v@) <= u64::MAX as int);
    }
    q as u64
}

/// Median of the samples.
pub fn median_ns(v: &Vec<u64>) -> (r: u64)
    requires
        v.len() > 0,
    ensures
        r as int == median_of(v@),
{
    let t = sorted_copy(v);
    let n = t.len();
    if n % 2 == 1 {
        t[n / 2]
    } else {
        let a = t[n / 2 - 1] as u128;
        let b = t[n / 2] as u128;
        proof {
            lemma_sorted_of(v@);
            lemma_div_is_ordered(a + b, 2 * (b as int), 2);
            lemma_div_multiples_vanish(b as int, 2);
        }
        ((a + b) / 2) as u64
    }
}

/// `r` is the integer square root of `x`: the largest integer whose square
/// does not exceed `x`.
pub open spec fn is_int_sqrt(x: int, r: int) -> bool {
    0 <= r && r * r <= x && x < (r + 1) * (r + 1)
}

/// The integer square root of a non-negative integer.
pub open spec fn int_sqrt(x: int) -> int
    recommends
        x >= 0,
{
    choose|r: int| is_int_sqrt(x, r)
}

pub proof fn lemma_int_sqrt_unique(x: int, r: int)
    requires
        is_int_sqrt(x, r),
    ensures
        int_sqrt(x) == r,
{
    assert(exists|c: int| is_int_sqrt(x, c));
    let c = int_sqrt(x);
    assert(is_int_sqrt(x, c));
    assert(c == r) by (nonlinear_arith)
        requires is_int_sqrt(x, c), is_int_sqrt(x, r),
    ;
}

/// Integer square root of a 128-bit value, by bisection.
pub fn isqrt_u128(x: u128) -> (r: u64)
    ensures
        is_int_sqrt(x as int, r as int),
        r as int == int_sqrt(x as int),
{
    if x == 0 {
        proof {
            lemma_int_sqrt_unique(0, 0);
        }
        return 0;
    }
    let mut lo: u128 = 0;
    let mut hi: u128 = 0x1_0000_0000_0000_0000;
    proof {
        assert((0x1_0000_0000_0000_0000 as int) * (0x1_0000_0000_0000_0000 as int) > u128::MAX
            as int) by (nonlinear_arith);
    }
    while hi - lo > 1
        invariant
            lo < hi,
            hi <= 0x1_0000_0000_0000_0000,
            (lo as int) * (lo as int) <= x as int,
            (x as int) < (hi as int) * (hi as int),
        decreases hi - lo,
    {
        let mid = lo + (hi - lo) / 2;
        assert(lo < mid < hi);
        assert((mid as int) * (mid as int) <= (0xffff_ffff_ffff_ffff as int) * (
        0xffff_ffff_ffff_ffff as int)) by (nonlinear_arith)
            requires mid as int <= 0xffff_ffff_ffff_ffff as int,
        ;
        let sq = mid * mid;
        if sq <= x {
            lo = mid;
        } else {
            hi = mid;
        }
    }
    proof {
        assert(hi == lo + 1);
        lemma_int_sqrt_unique(x as int, lo as int);
    }
    lo as u64
}

/// Square of an integer.
pub open spec fn sq(x: int) -> int {
    x * x
}

/// Sum of squared deviations of the samples from `m`.
pub open spec fn sum_sq_dev(s: Seq<u64>, m: int) -> int
    decreases s.len(),
{
    if s.len() == 0 {
        0
    } else {
        sum_sq_dev(s.drop_last(), m) + sq(s.last() as int - m)
    }
}

/// Sample variance: sum of squared deviations from the floored mean,
/// divided by `n - 1`, rounded down.
pub open spec fn variance_of(s: Seq<u64>) -> int
    recommends
        s.len() >= 2,
{
    sum_sq_dev(s, mean_of(s)) / (s.len() - 1) as int
}

/// Sample standard deviation: integer square root of the sample variance.
pub open spec fn stddev_of(s: Seq<u64>) -> int
    recommends
        s.len() >= 2,
{
    int_sqrt(variance_of(s))
}

/// Sample standard deviation of the samples, rounded down to a whole
/// nanosecond. The size bounds keep the 128-bit accumulator exact.
pub fn stddev_ns(v: &Vec<u64>) -> (r: u64)
    requires
        v.len() >= 2,
        v.len() <= MAX_SAMPLES,
        forall|i: int| 0 <= i < v.len() ==> #[trigger] v@[i] <= MAX_SAMPLE_NS,
    ensures
        r as int == stddev_of(v@),
{
    let m = mean_ns(v);
    proof {
        lemma_mean_bounds(v@);
        lemma_min_max_element(v@);
        lemma_sorted_of(v@);
        assert(v@.contains(sorted_of(v@)[v@.len() - 1]));
        assert(max_of(v@) <= MAX_SAMPLE_NS as int);
    }
    let mut acc: u128 = 0;
    let mut i: usize = 0;
    while i < v.len()
        invariant
            i <= v.len(),
            v.len() >= 2,
            v.len() <= MAX_SAMPLES,
            forall|k: int| 0 <= k < v.len() ==> #[trigger] v@[k] <= MAX_SAMPLE_NS,
            m <= MAX_SAMPLE_NS,
            m as int == mean_of(v@),
            acc == sum_sq_dev(v@.take(i as int), m as int),
            acc <= (i as int) * (MAX_SAMPLE_NS as int) * (MAX_SAMPLE_NS as int),
        decreases v.len() - i,
    {
        let x = v[i];
        let d: u64 = if x >= m {
            x - m
        } else {
            m - x
        };
        proof {
            assert(d <= MAX_SAMPLE_NS);
            assert((d as int) * (d as int) < u128::MAX as int) by (nonlinear_arith)
                requires d as int <= MAX_SAMPLE_NS as int,
            ;
        }
        let dd: u128 = (d as u128) * (d as u128);
        proof {
            assert(dd == sq(x as int - m as int)) by (nonlinear_arith)
                requires
                    d as int == if x >= m { x as int - m as int } else { m as int - x as int },
                    dd == (d as u128) * (d as u128),
            ;
            assert(dd <= (MAX_SAMPLE_NS as int) * (MAX_SAMPLE_NS as int)) by (nonlinear_arith)
                requires d as int <= MAX_SAMPLE_NS as int, dd == (d as int) * (d as int),
            ;
            assert((i as int) * (MAX_SAMPLE_NS as int) * (MAX_SAMPLE_NS as int) + (
            MAX_SAMPLE_NS as int) * (MAX_SAMPLE_NS as int) == ((i + 1) as int) * (
            MAX_SAMPLE_NS as int) * (MAX_SAMPLE_NS as int)) by (nonlinear_arith);
            assert(((i + 1) as int) * (MAX_SAMPLE_NS as int) * (MAX_SAMPLE_NS as int) <= (
            MAX_SAMPLES as int) * (MAX_SAMPLE_NS as int) * (MAX_SAMPLE_NS as int))
                by (nonlinear_arith)
                requires (i + 1) as int <= MAX_SAMPLES as int,
            ;
            assert((MAX_SAMPLES as int) * (MAX_SAMPLE_NS as int) * (MAX_SAMPLE_NS as int)
                < u128::MAX as int) by (nonlinear_arith);
            assert(v@.take(i + 1).drop_last() =~= v@.take(i as int));
        }
        acc = acc + dd;
        i += 1;
    }
    proof {
        assert(v@.take(v@.len() as int) =~= v@);
    }
    let var = acc / ((v.len() - 1) as u128);
    proof {
        assert(var as int == variance_of(v@));
    }
    isqrt_u128(var)
}

} // verus!
