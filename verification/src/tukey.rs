//! Outlier classification with Tukey fences.

use vstd::prelude::*;

use crate::frac::Frac;
use crate::sample::{is_sort_of, quartile_num, Sample};
use crate::sort::sorted;
use crate::MAX_TIME;

verus! {

/// Severity of one sample point relative to the quartile fences.
#[derive(Clone, Copy, Debug, PartialEq, Eq, Structural)]
pub enum Label {
    LowSevere,
    LowMild,
    Normal,
    HighMild,
    HighSevere,
}

/// The four Tukey fences, as exact rationals with denominator 8:
/// `q1 - 3*iqr`, `q1 - 1.5*iqr`, `q3 + 1.5*iqr` and `q3 + 3*iqr`.
#[derive(Clone, Copy, Debug, PartialEq, Eq, Structural)]
pub struct Fences {
    pub far_low: Frac,
    pub near_low: Frac,
    pub near_high: Frac,
    pub far_high: Frac,
}

/// The fences computed from the ascending reordering `t` of a sample.
pub open spec fn fences_of(t: Seq<i64>) -> Fences {
    let q1 = quartile_num(t, 1);
    let q3 = quartile_num(t, 3);
    let iqr = q3 - q1;
    Fences {
        far_low: Frac { num: (2 * q1 - 6 * iqr) as i64, den: 8 },
        near_low: Frac { num: (2 * q1 - 3 * iqr) as i64, den: 8 },
        near_high: Frac { num: (2 * q3 + 3 * iqr) as i64, den: 8 },
        far_high: Frac { num: (2 * q3 + 6 * iqr) as i64, den: 8 },
    }
}

/// The label of value `x` under fences `f`: strictly below the far-low
/// fence is severe, `[far_low, near_low)` is mild, `[near_low, near_high]`
/// is normal, and symmetrically above.
pub open spec fn label_of(x: i64, f: Fences) -> Label {
    if 8 * x < f.far_low.num {
        Label::LowSevere
    } else if 8 * x < f.near_low.num {
        Label::LowMild
    } else if 8 * x <= f.near_high.num {
        Label::Normal
    } else if 8 * x <= f.far_high.num {
        Label::HighMild
    } else {
        Label::HighSevere
    }
}

/// A sample together with the fences of its distribution and one severity
/// label per point (in the sample's original order).
#[derive(Debug)]
pub struct LabeledSample {
    values: Vec<i64>,
    labels: Vec<Label>,
    fences: Fences,
}

impl LabeledSample {
    /// The classification is internally consistent: each label restates its
    /// point's position relative to the fences.
    pub open spec fn wf(self) -> bool {
        &&& self.spec_labels().len() == self.spec_values().len()
        &&& forall|i: int|
            0 <= i < self.spec_values().len() ==> self.spec_labels()[i] == label_of(
                self.spec_values()[i],
                self.spec_fences(),
            )
    }

    pub closed spec fn spec_values(self) -> Seq<i64> {
        self.values@
    }

    pub closed spec fn spec_labels(self) -> Seq<Label> {
        self.labels@
    }

    pub closed spec fn spec_fences(self) -> Fences {
        self.fences
    }

    pub fn values(&self) -> (r: &Vec<i64>)
        ensures
            r@ == self.spec_values(),
    {
        &self.values
    }

    pub fn labels(&self) -> (r: &Vec<Label>)
        ensures
            r@ == self.spec_labels(),
    {
        &self.labels
    }

    pub fn fences(&self) -> (r: Fences)
        ensures
            r == self.spec_fences(),
    {
        self.fences
    }
}

/// Labels each point of the sample by its severity relative to the Tukey
/// fences of the sample's own distribution. Pure and deterministic: the
/// result is a function of the sample values alone.
pub fn classify(sample: &Sample) -> (r: LabeledSample)
    requires
        sample.wf(),
    ensures
        r.spec_values() == sample@,
        r.spec_labels().len() == sample@.len(),
        r.wf(),
        exists|t: Seq<i64>| is_sort_of(sample@, t) && r.spec_fences() == fences_of(t),
{
    let pct = sample.percentiles();
    let q1 = pct.quartile(1);
    let q3 = pct.quartile(3);
    let iqr: i64 = q3.num - q1.num;
    let fences = Fences {
        far_low: Frac { num: 2 * q1.num - 6 * iqr, den: 8 },
        near_low: Frac { num: 2 * q1.num - 3 * iqr, den: 8 },
        near_high: Frac { num: 2 * q3.num + 3 * iqr, den: 8 },
        far_high: Frac { num: 2 * q3.num + 6 * iqr, den: 8 },
    };
    proof {
        assert(is_sort_of(sample@, pct@));
        assert(fences == fences_of(pct@));
    }
    let n = sample.len();
    let mut labels: Vec<Label> = Vec::new();
    let mut values: Vec<i64> = Vec::new();
    for i in 0..n
        invariant
            n == sample@.len(),
            sample.wf(),
            labels@.len() == i,
            values@ =~= sample@.subrange(0, i as int),
            -0x4000_0000_0000 <= fences.far_low.num <= 0x4000_0000_0000,
            -0x4000_0000_0000 <= fences.near_low.num <= 0x4000_0000_0000,
            -0x4000_0000_0000 <= fences.near_high.num <= 0x4000_0000_0000,
            -0x4000_0000_0000 <= fences.far_high.num <= 0x4000_0000_0000,
            forall|k: int| 0 <= k < i ==> labels@[k] == label_of(sample@[k], fences),
    {
        let x = sample.get(i);
        let sx = 8 * x;
        let label = if sx < fences.far_low.num {
            Label::LowSevere
        } else if sx < fences.near_low.num {
            Label::LowMild
        } else if sx <= fences.near_high.num {
            Label::Normal
        } else if sx <= fences.far_high.num {
            Label::HighMild
        } else {
            Label::HighSevere
        };
        labels.push(label);
        values.push(x);
        proof {
            assert(values@ =~= sample@.subrange(0, i as int + 1));
        }
    }
    proof {
        assert(values@ =~= sample@);
    }
    LabeledSample { values, labels, fences }
}

/// The interpolated quartile of a bounded sequence stays within four times
/// the bound (it is scaled by 4).
pub proof fn lemma_quartile_bounds(t: Seq<i64>, q: int)
    requires
        1 <= t.len() <= crate::MAX_LEN,
        1 <= q <= 3,
        crate::sample::bounded(t, MAX_TIME as int),
    ensures
        -4 * MAX_TIME <= quartile_num(t, q) <= 4 * MAX_TIME,
{
    let n = t.len() as int;
    let k = (n - 1) * q;
    assert(0 <= k <= 4 * (n - 1)) by (nonlinear_arith)
        requires
            1 <= q <= 3,
            n >= 1,
            k == (n - 1) * q,
    ;
    let lo = k / 4;
    let f = k % 4;
    assert(0 <= lo < n && 0 <= f < 4 && (f != 0 ==> lo + 1 < n)) by (nonlinear_arith)
        requires
            0 <= k <= 4 * (n - 1),
            lo == k / 4,
            f == k % 4,
            n >= 1,
    ;
    if f == 0 {
        assert(-MAX_TIME <= t[lo] <= MAX_TIME);
    } else {
        assert(-MAX_TIME <= t[lo] <= MAX_TIME && -MAX_TIME <= t[lo + 1] <= MAX_TIME);
        assert(-4 * MAX_TIME <= (4 - f) * t[lo] + f * t[lo + 1] <= 4 * MAX_TIME)
            by (nonlinear_arith)
            requires
                0 < f < 4,
                -MAX_TIME <= t[lo] <= MAX_TIME,
                -MAX_TIME <= t[lo + 1] <= MAX_TIME,
        ;
    }
}

/// The quartile position is monotone: on a sorted sequence a later quartile
/// is at least an earlier one.
pub proof fn lemma_quartile_monotone(t: Seq<i64>, q1: int, q2: int)
    requires
        sorted(t),
        1 <= t.len(),
        1 <= q1 <= q2 <= 3,
    ensures
        quartile_num(t, q1) <= quartile_num(t, q2),
{
    let n = t.len() as int;
    let k1 = (n - 1) * q1;
    let k2 = (n - 1) * q2;
    assert(0 <= k1 <= k2 <= 4 * (n - 1)) by (nonlinear_arith)
        requires
            1 <= q1 <= q2 <= 3,
            n >= 1,
            k1 == (n - 1) * q1,
            k2 == (n - 1) * q2,
    ;
    lemma_quartile_pos_monotone(t, k1, k2);
}

/// Interpolated values at scaled positions `k1 <= k2` of a sorted sequence
/// are ordered.
proof fn lemma_quartile_pos_monotone(t: Seq<i64>, k1: int, k2: int)
    requires
        sorted(t),
        1 <= t.len(),
        0 <= k1 <= k2 <= 4 * (t.len() - 1),
    ensures
        interp_at(t, k1) <= interp_at(t, k2),
{
    let n = t.len() as int;
    let lo1 = k1 / 4;
    let f1 = k1 % 4;
    let lo2 = k2 / 4;
    let f2 = k2 % 4;
    assert(0 <= lo1 <= lo2 <= n - 1 && (f1 != 0 ==> lo1 + 1 <= n - 1) && (f2 != 0 ==> lo2 + 1 <= n
        - 1)) by (nonlinear_arith)
        requires
            0 <= k1 <= k2 <= 4 * (n - 1),
            lo1 == k1 / 4,
            f1 == k1 % 4,
            lo2 == k2 / 4,
            f2 == k2 % 4,
            n >= 1,
    ;
    if lo1 == lo2 {
        if f1 == 0 && f2 == 0 {
        } else if f1 == 0 {
            assert(t[lo1] <= t[lo1 + 1]);
            assert((4 - f2) * t[lo2] + f2 * t[lo2 + 1] >= 4 * t[lo1]) by (nonlinear_arith)
                requires
                    0 < f2 < 4,
                    lo1 == lo2,
                    t[lo2] <= t[lo2 + 1],
                    t[lo1] == t[lo2],
            ;
        } else {
            assert(f2 != 0 && f1 <= f2);
            assert(t[lo1] <= t[lo1 + 1]);
            assert((4 - f2) * t[lo2] + f2 * t[lo2 + 1] >= (4 - f1) * t[lo1] + f1 * t[lo1 + 1])
                by (nonlinear_arith)
                requires
                    0 < f1 <= f2 < 4,
                    lo1 == lo2,
                    t[lo1] <= t[lo1 + 1],
                    t[lo1] == t[lo2],
                    t[lo1 + 1] == t[lo2 + 1],
            ;
        }
    } else {
        // interp(k1) <= 4 * t[lo1 + 1] <= 4 * t[lo2] <= interp(k2)
        let hi1 = if f1 == 0 {
            lo1
        } else {
            lo1 + 1
        };
        assert(t[hi1] <= t[lo2]);
        assert(interp_at(t, k1) <= 4 * t[hi1]) by (nonlinear_arith)
            requires
                interp_at(t, k1) == (if f1 == 0 {
                    4 * t[lo1]
                } else {
                    (4 - f1) * t[lo1] + f1 * t[lo1 + 1]
                }),
                hi1 == (if f1 == 0 {
                    lo1
                } else {
                    lo1 + 1
                }),
                0 <= f1 < 4,
                t[lo1] <= t[hi1],
        ;
        assert(interp_at(t, k2) >= 4 * t[lo2]) by (nonlinear_arith)
            requires
                interp_at(t, k2) == (if f2 == 0 {
                    4 * t[lo2]
                } else {
                    (4 - f2) * t[lo2] + f2 * t[lo2 + 1]
                }),
                0 <= f2 < 4,
                f2 != 0 ==> t[lo2] <= t[lo2 + 1],
        ;
    }
}

/// The interpolated, 4-scaled value at scaled position `k` of `t`
/// (`quartile_num(t, q)` is `interp_at(t, (len - 1) * q)`).
pub open spec fn interp_at(t: Seq<i64>, k: int) -> int {
    let lo = k / 4;
    let f = k % 4;
    if f == 0 {
        4 * t[lo]
    } else {
        (4 - f) * t[lo] + f * t[lo + 1]
    }
}

} // verus!
