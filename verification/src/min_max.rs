//! Running extrema over a stream of duration samples. The tracker is fed
//! every sample unfiltered, so the reported extrema are the raw observed
//! ones, deliberately distinct from the outlier-filtered aggregates.
use vstd::prelude::*;
use crate::stats::{min_of, max_of, sorted_of, lemma_sorted_of, lemma_min_max_element};

verus! {

/// Running minimum and maximum over the samples observed so far.
pub struct MinMax {
    pub min_ns: u64,
    pub max_ns: u64,
    pub count: u64,
}

impl MinMax {
    pub fn new() -> (r: MinMax)
        ensures
            r.count == 0,
    {
        MinMax { min_ns: 0, max_ns: 0, count: 0 }
    }

    pub fn observe(&mut self, x: u64)
        requires
            old(self).count < u64::MAX,
        ensures
            final(self).count == old(self).count + 1,
            final(self).min_ns == if old(self).count == 0 {
                x
            } else if x < old(self).min_ns {
                x
            } else {
                old(self).min_ns
            },
            final(self).max_ns == if old(self).count == 0 {
                x
            } else if x > old(self).max_ns {
                x
            } else {
                old(self).max_ns
            },
    {
        if self.count == 0 {
            self.min_ns = x;
            self.max_ns = x;
        } else {
            if x < self.min_ns {
                self.min_ns = x;
            }
            if x > self.max_ns {
                self.max_ns = x;
            }
        }
        self.count = self.count + 1;
    }
}

/// Raw extrema of a non-empty sample sequence, as a fold with the tracker.
pub fn extrema_ns(v: &Vec<u64>) -> (r: (u64, u64))
    requires
        v.len() > 0,
    ensures
        r.0 as int == min_of(v@),
        r.1 as int == max_of(v@),
{
    let mut t = MinMax::new();
    let mut i: usize = 0;
    while i < v.len()
        invariant
            i <= v.len(),
            t.count == i as u64,
            i > 0 ==> exists|k: int| 0 <= k < i && v@[k] == t.min_ns,
            i > 0 ==> exists|k: int| 0 <= k < i && v@[k] == t.max_ns,
            forall|k: int| 0 <= k < i ==> t.min_ns <= #[trigger] v@[k],
            forall|k: int| 0 <= k < i ==> t.max_ns >= #[trigger] v@[k],
        decreases v.len() - i,
    {
        t.observe(v[i]);
        i += 1;
    }
    proof {
        lemma_sorted_of(v@);
        lemma_min_max_element(v@);
        let s = sorted_of(v@);
        assert(v@.contains(s[0]));
        let j = choose|j: int| 0 <= j < v@.len() && v@[j] == s[0];
        assert(t.min_ns <= v@[j]);
        let km = choose|k: int| 0 <= k < v@.len() && v@[k] == t.min_ns;
        assert(min_of(v@) <= v@[km] as int);
        assert(v@.contains(s[v@.len() - 1]));
        let j2 = choose|j2: int| 0 <= j2 < v@.len() && v@[j2] == s[v@.len() - 1];
        assert(t.max_ns >= v@[j2]);
        let kx = choose|k: int| 0 <= k < v@.len() && v@[k] == t.max_ns;
        assert(max_of(v@) >= v@[kx] as int);
    }
    (t.min_ns, t.max_ns)
}

} // verus!
