//! Robust outlier rejection over duration samples, using the median
//! absolute deviation (MAD) and a modified z-score.
//!
//! A sample `x` is an outlier when `0.6745 * |x - median| / MAD > 3.5`.
//! Everything is computed in exact integer arithmetic by scaling both sides
//! by 10^4: flag `x` iff `6745 * |x - median| > 35000 * MAD`.
use vstd::prelude::*;
use crate::stats::{
    sorted_of, median_of, lemma_sorted_of, lemma_median_bounds, median_ns,
};

verus! {

/// 0.6745, the modified z-score factor, scaled by 10^4.
pub const ZSCORE_FACTOR_SCALED: u64 = 6745;

/// 3.5, the conventional modified z-score threshold, scaled by 10^4.
pub const ZSCORE_THRESHOLD_SCALED: u64 = 35000;

/// The detector is a no-op unless the sample count exceeds this minimum.
pub const OUTLIER_MIN_SAMPLES: usize = 2;

/// Absolute deviation of a sample from a reference point.
pub open spec fn abs_dev(x: u64, m: int) -> int {
    if x as int >= m {
        x as int - m
    } else {
        m - x as int
    }
}

/// Absolute deviations of all samples from their median. Each deviation
/// fits in `u64` because both the sample and the median do.
pub open spec fn deviations_of(s: Seq<u64>) -> Seq<u64> {
    s.map_values(|x: u64| abs_dev(x, median_of(s)) as u64)
}

/// Median absolute deviation of the samples.
pub open spec fn mad_of(s: Seq<u64>) -> int
    recommends
        s.len() > 0,
{
    median_of(deviations_of(s))
}

/// Whether a sample with value `x` is flagged as an outlier of `s`.
/// No sample is flagged when the batch is too small. When the MAD is
/// zero the inequality flags exactly the samples that differ from the
/// median; in particular, when all samples are identical none is flagged.
pub open spec fn flagged(s: Seq<u64>, x: u64) -> bool {
    &&& s.len() > OUTLIER_MIN_SAMPLES
    &&& (ZSCORE_FACTOR_SCALED as int) * abs_dev(x, median_of(s)) > (
    ZSCORE_THRESHOLD_SCALED as int) * mad_of(s)
}

/// Predicate selecting the samples that are kept.
pub open spec fn keep_pred(s: Seq<u64>) -> spec_fn(u64) -> bool {
    |x: u64| !flagged(s, x)
}

/// Predicate selecting the samples that are flagged.
pub open spec fn flag_pred(s: Seq<u64>) -> spec_fn(u64) -> bool {
    |x: u64| flagged(s, x)
}

/// The samples that survive outlier rejection, in input order.
pub open spec fn retained_of(s: Seq<u64>) -> Seq<u64> {
    s.filter(keep_pred(s))
}

/// The samples flagged as outliers, in input order.
pub open spec fn outliers_of(s: Seq<u64>) -> Seq<u64> {
    s.filter(flag_pred(s))
}

pub proof fn lemma_filter_push(s: Seq<u64>, pred: spec_fn(u64) -> bool, x: u64)
    ensures
        s.push(x).filter(pred) == if pred(x) {
            s.filter(pred).push(x)
        } else {
            s.filter(pred)
        },
{
    reveal(Seq::filter);
    assert(s.push(x).drop_last() =~= s);
    assert(s.push(x).last() == x);
    if pred(x) {
        assert(s.push(x).filter(pred) =~= s.filter(pred).push(x));
    } else {
        assert(s.push(x).filter(pred) =~= s.filter(pred));
    }
}

pub proof fn lemma_filter_all(s: Seq<u64>, pred: spec_fn(u64) -> bool)
    requires
        forall|i: int| 0 <= i < s.len() ==> pred(#[trigger] s[i]),
    ensures
        s.filter(pred) == s,
    decreases s.len(),
{
    reveal(Seq::filter);
    if s.len() == 0 {
        assert(s.filter(pred) =~= s);
    } else {
        let d = s.drop_last();
        lemma_filter_all(d, pred);
        assert(pred(s.last()));
        assert(s.filter(pred) =~= s);
    }
}

pub proof fn lemma_filter_none(s: Seq<u64>, pred: spec_fn(u64) -> bool)
    requires
        forall|i: int| 0 <= i < s.len() ==> !pred(#[trigger] s[i]),
    ensures
        s.filter(pred) == Seq::<u64>::empty(),
    decreases s.len(),
{
    reveal(Seq::filter);
    if s.len() == 0 {
        assert(s.filter(pred) =~= Seq::<u64>::empty());
    } else {
        let d = s.drop_last();
        lemma_filter_none(d, pred);
        assert(!pred(s.last()));
        assert(s.filter(pred) =~= Seq::<u64>::empty());
    }
}

/// Every element of a filtered sequence occurs in the original.
pub proof fn lemma_filter_in_original(s: Seq<u64>, pred: spec_fn(u64) -> bool)
    ensures
        forall|i: int|
            0 <= i < s.filter(pred).len() ==> s.contains(#[trigger] s.filter(pred)[i]),
    decreases s.len(),
{
    reveal(Seq::filter);
    if s.len() == 0 {
    } else {
        let d = s.drop_last();
        lemma_filter_in_original(d, pred);
        assert forall|i: int| 0 <= i < s.filter(pred).len() implies s.contains(
            #[trigger] s.filter(pred)[i],
        ) by {
            let f = s.filter(pred);
            if i < d.filter(pred).len() {
                assert(d.contains(d.filter(pred)[i]));
                let j = choose|j: int| 0 <= j < d.len() && d[j] == d.filter(pred)[i];
                assert(s[j] == f[i]);
            } else {
                assert(f[i] == s.last());
                assert(s[s.len() - 1] == s.last());
            }
        }
    }
}

/// Outlier rejection never removes every sample: at least one sample sits
/// within one MAD of the median, and such a sample is never flagged.
pub proof fn lemma_retained_nonempty(s: Seq<u64>)
    requires
        s.len() > 0,
    ensures
        retained_of(s).len() > 0,
{
    if s.len() <= OUTLIER_MIN_SAMPLES {
        assert(forall|i: int| 0 <= i < s.len() ==> keep_pred(s)(#[trigger] s[i]));
        lemma_filter_all(s, keep_pred(s));
    } else {
        let devs = deviations_of(s);
        assert(devs.len() == s.len());
        lemma_median_bounds(devs);
        lemma_sorted_of(devs);
        assert(devs.contains(sorted_of(devs)[0]));
        let j = choose|j: int| 0 <= j < devs.len() && devs[j] == sorted_of(devs)[0];
        assert(devs[j] as int <= mad_of(s));
        assert(devs[j] as int == abs_dev(s[j], median_of(s)));
        assert((ZSCORE_FACTOR_SCALED as int) * abs_dev(s[j], median_of(s)) <= (
        ZSCORE_THRESHOLD_SCALED as int) * mad_of(s)) by (nonlinear_arith)
            requires
                0 <= abs_dev(s[j], median_of(s)) <= mad_of(s),
                0 <= mad_of(s),
                ZSCORE_FACTOR_SCALED as int <= ZSCORE_THRESHOLD_SCALED as int,
        ;
        assert(keep_pred(s)(s[j]));
        s.lemma_filter_contains(keep_pred(s), j);
        assert(retained_of(s).contains(s[j]));
    }
}

/// When all samples are identical the MAD is zero, so no sample is flagged
/// as an outlier, and the sample standard deviation is exactly zero.
pub proof fn lemma_identical_samples(s: Seq<u64>)
    requires
        s.len() > 0,
        forall|i: int| 0 <= i < s.len() ==> #[trigger] s[i] == s[0],
    ensures
        outliers_of(s).len() == 0,
        retained_of(s) == s,
        s.len() >= 2 ==> crate::stats::stddev_of(s) == 0,
{
    let c = s[0];
    crate::stats::lemma_all_equal_stats(s, c);
    let devs = deviations_of(s);
    assert(forall|i: int| 0 <= i < devs.len() ==> #[trigger] devs[i] == 0u64);
    crate::stats::lemma_all_equal_stats(devs, 0);
    assert(mad_of(s) == 0);
    assert(forall|i: int| 0 <= i < s.len() ==> keep_pred(s)(#[trigger] s[i]));
    assert(forall|i: int| 0 <= i < s.len() ==> !flag_pred(s)(#[trigger] s[i]));
    lemma_filter_all(s, keep_pred(s));
    lemma_filter_none(s, flag_pred(s));
    if s.len() >= 2 {
        crate::stats::lemma_sum_sq_dev_constant(s, c);
        assert(crate::stats::variance_of(s) == 0) by {
            assert(crate::stats::sum_sq_dev(s, crate::stats::mean_of(s)) == 0);
            assert(0int / (s.len() - 1) as int == 0);
        }
        crate::stats::lemma_int_sqrt_unique(0, 0);
    }
}

/// Running the detector again removes nothing further, provided the first
/// pass left a batch in which no sample is flagged. (On batches where a
/// second pass would still flag samples, rejection is not idempotent; the
/// hypothesis states exactly the batches on which it is.)
pub proof fn lemma_rejection_idempotent(s: Seq<u64>)
    requires
        outliers_of(retained_of(s)).len() == 0,
    ensures
        retained_of(retained_of(s)) == retained_of(s),
{
    let t = retained_of(s);
    assert forall|i: int| 0 <= i < t.len() implies keep_pred(t)(#[trigger] t[i]) by {
        if flagged(t, t[i]) {
            assert(flag_pred(t)(t[i]));
            t.lemma_filter_contains(flag_pred(t), i);
            assert(outliers_of(t).contains(t[i]));
        }
    }
    lemma_filter_all(t, keep_pred(t));
}

/// Split the samples into retained samples and outliers, in input order.
pub fn detect_outliers(v: &Vec<u64>) -> (r: (Vec<u64>, Vec<u64>))
    ensures
        r.0@ == retained_of(v@),
        r.1@ == outliers_of(v@),
{
    let ghost s = v@;
    if v.len() <= OUTLIER_MIN_SAMPLES {
        proof {
            assert(forall|i: int| 0 <= i < s.len() ==> keep_pred(s)(#[trigger] s[i]));
            assert(forall|i: int| 0 <= i < s.len() ==> !flag_pred(s)(#[trigger] s[i]));
            lemma_filter_all(s, keep_pred(s));
            lemma_filter_none(s, flag_pred(s));
        }
        let mut ret: Vec<u64> = Vec::new();
        let mut i: usize = 0;
        while i < v.len()
            invariant
                i <= v.len(),
                ret@ == v@.take(i as int),
            decreases v.len() - i,
        {
            ret.push(v[i]);
            proof {
                assert(v@.take(i + 1) =~= v@.take(i as int).push(v@[i as int]));
            }
            i += 1;
        }
        proof {
            assert(v@.take(v@.len() as int) =~= v@);
        }
        return (ret, Vec::new());
    }
    let med = median_ns(v);
    let mut devs: Vec<u64> = Vec::new();
    let mut i: usize = 0;
    while i < v.len()
        invariant
            i <= v.len(),
            devs.len() == i,
            med as int == median_of(v@),
            forall|k: int| 0 <= k < i ==> devs@[k] == deviations_of(v@)[k],
        decreases v.len() - i,
    {
        let x = v[i];
        let d: u64 = if x >= med {
            x - med
        } else {
            med - x
        };
        devs.push(d);
        i += 1;
    }
    proof {
        assert(devs@ =~= deviations_of(v@));
    }
    let mad = median_ns(&devs);
    assert(mad as int == mad_of(v@));
    let mut ret: Vec<u64> = Vec::new();
    let mut out: Vec<u64> = Vec::new();
    let mut k: usize = 0;
    while k < v.len()
        invariant
            k <= v.len(),
            med as int == median_of(v@),
            mad as int == mad_of(v@),
            v.len() > OUTLIER_MIN_SAMPLES,
            ret@ == v@.take(k as int).filter(keep_pred(v@)),
            out@ == v@.take(k as int).filter(flag_pred(v@)),
        decreases v.len() - k,
    {
        let x = v[k];
        let d: u64 = if x >= med {
            x - med
        } else {
            med - x
        };
        proof {
            assert((ZSCORE_FACTOR_SCALED as int) * (d as int) <= (ZSCORE_FACTOR_SCALED as int) * (
            u64::MAX as int)) by (nonlinear_arith)
                requires d as int <= u64::MAX as int,
            ;
            assert((ZSCORE_THRESHOLD_SCALED as int) * (mad as int) <= (
            ZSCORE_THRESHOLD_SCALED as int) * (u64::MAX as int)) by (nonlinear_arith)
                requires mad as int <= u64::MAX as int,
            ;
        }
        let is_out = (ZSCORE_FACTOR_SCALED as u128) * (d as u128) > (
        ZSCORE_THRESHOLD_SCALED as u128) * (mad as u128);
        proof {
            assert(d as int == abs_dev(v@[k as int], median_of(v@)));
            assert(is_out == flagged(v@, v@[k as int]));
            lemma_filter_push(v@.take(k as int), keep_pred(v@), v@[k as int]);
            lemma_filter_push(v@.take(k as int), flag_pred(v@), v@[k as int]);
            assert(v@.take(k + 1) =~= v@.take(k as int).push(v@[k as int]));
        }
        if is_out {
            out.push(x);
        } else {
            ret.push(x);
        }
        k += 1;
    }
    proof {
        assert(v@.take(v@.len() as int) =~= v@);
    }
    (ret, out)
}

} // verus!
