//! A mergeable logarithmic-bucket latency histogram.
//!
//! Samples are non-negative nanosecond values.  A sample `v` below
//! `2^grouping` lands in a bucket of width one; above that, each power-of-two
//! range `[2^e, 2^(e+1))` is split into `2^grouping` equal sub-buckets, so the
//! relative width of any bucket is at most `2^-grouping`.  Percentile queries
//! answer the upper bound of the bucket holding the sample of the requested
//! rank, which bounds the relative error of the estimate by the same amount.
//! Merging adds bucket counts pointwise and loses no sample.

use vstd::prelude::*;
use vstd::arithmetic::power2::*;
use crate::errors::BenchError;

verus! {

/// Sum of the first `k` entries of a count sequence.
pub open spec fn prefix_sum(s: Seq<int>, k: int) -> int
    decreases k,
{
    if k <= 0 {
        0
    } else {
        prefix_sum(s, k - 1) + s[k - 1]
    }
}

/// Sum of all entries of a count sequence.
pub open spec fn sum(s: Seq<int>) -> int {
    prefix_sum(s, s.len() as int)
}

/// All entries are non-negative, as bucket counts are.
pub open spec fn nonneg(s: Seq<int>) -> bool {
    forall|i: int| 0 <= i < s.len() ==> s[i] >= 0
}

/// Pointwise sum of two count sequences of equal length: the model of a merge.
pub open spec fn pw_add(a: Seq<int>, b: Seq<int>) -> Seq<int> {
    Seq::new(a.len(), |i: int| a[i] + b[i])
}

/// A bucket configuration is valid when the sub-bucket precision is sane and
/// the trackable range fits a `u64`.
pub open spec fn valid_config(g: nat, m: nat) -> bool {
    1 <= g <= 16 && g < m <= 63
}

/// How many buckets a configuration uses.
pub open spec fn spec_num_buckets(g: nat, m: nat) -> nat {
    ((m - g + 1) * pow2(g)) as nat
}

/// The largest trackable sample.
pub open spec fn spec_max_sample(m: nat) -> nat {
    (pow2(m) - 1) as nat
}

/// The position of the highest set bit: `pow2(log2_floor(v)) <= v < pow2(log2_floor(v) + 1)`.
pub open spec fn log2_floor(v: nat) -> nat
    decreases v,
{
    if v < 2 {
        0
    } else {
        1 + log2_floor(v / 2)
    }
}

/// The bucket a sample lands in.
pub open spec fn spec_bucket_index(g: nat, v: nat) -> nat {
    if v < pow2(g) {
        v
    } else {
        let e = log2_floor(v);
        ((e - g + 1) * pow2(g) + (v - pow2(e)) / pow2((e - g) as nat) as int) as nat
    }
}

/// The smallest sample a bucket can hold.
pub open spec fn spec_bucket_lower(g: nat, i: nat) -> nat {
    if i < pow2(g) {
        i
    } else {
        let b = i / pow2(g);
        let s = i % pow2(g);
        (pow2((b + g - 1) as nat) + s * pow2((b - 1) as nat)) as nat
    }
}

/// The largest sample a bucket can hold; percentile queries answer this value.
pub open spec fn spec_bucket_upper(g: nat, i: nat) -> nat {
    if i < pow2(g) {
        i
    } else {
        let b = i / pow2(g);
        let s = i % pow2(g);
        (pow2((b + g - 1) as nat) + (s + 1) * pow2((b - 1) as nat) - 1) as nat
    }
}

/// The one-based rank that a percentile asks for, out of `total` samples.
/// `p` is given in tenths of a percent, so `p = 999` asks for p99.9.
pub open spec fn spec_rank(total: int, p: int) -> int {
    let r = (total * p + 999) / 1000;
    if r < 1 {
        1
    } else {
        r
    }
}

/// The first bucket at which the running count reaches `r`.
pub open spec fn spec_sel(s: Seq<int>, r: int) -> int
    decreases s.len(),
{
    if s.len() <= 1 {
        0
    } else if s[0] >= r {
        0
    } else {
        1 + spec_sel(s.drop_first(), r - s[0])
    }
}

/// The value a percentile query returns: the upper bound of the bucket that
/// holds the sample of the requested rank.
pub open spec fn spec_percentile(g: nat, s: Seq<int>, p: int) -> int {
    spec_bucket_upper(g, spec_sel(s, spec_rank(sum(s), p)) as nat) as int
}

/// A prefix sum only grows along a non-negative sequence.
pub proof fn lemma_prefix_monotone(s: Seq<int>, k1: int, k2: int)
    requires
        nonneg(s),
        0 <= k1 <= k2 <= s.len(),
    ensures
        prefix_sum(s, k1) <= prefix_sum(s, k2),
    decreases k2,
{
    if k1 < k2 {
        lemma_prefix_monotone(s, k1, k2 - 1);
    }
}

/// Updating one entry moves every prefix sum that covers it by the difference.
pub proof fn lemma_prefix_update(s: Seq<int>, i: int, v: int, k: int)
    requires
        0 <= i < s.len(),
        0 <= k <= s.len(),
    ensures
        prefix_sum(s.update(i, v), k) == prefix_sum(s, k) + if i < k {
            v - s[i]
        } else {
            0
        },
    decreases k,
{
    if k > 0 {
        lemma_prefix_update(s, i, v, k - 1);
    }
}

/// A prefix sum of a pointwise sum is the sum of the prefix sums.
pub proof fn lemma_prefix_pw_add(a: Seq<int>, b: Seq<int>, k: int)
    requires
        a.len() == b.len(),
        0 <= k <= a.len(),
    ensures
        prefix_sum(pw_add(a, b), k) == prefix_sum(a, k) + prefix_sum(b, k),
    decreases k,
{
    if k > 0 {
        lemma_prefix_pw_add(a, b, k - 1);
    }
}

/// A sequence of zeroes sums to zero.
pub proof fn lemma_prefix_zero(s: Seq<int>, k: int)
    requires
        0 <= k <= s.len(),
        forall|i: int| 0 <= i < s.len() ==> s[i] == 0,
    ensures
        prefix_sum(s, k) == 0,
    decreases k,
{
    if k > 0 {
        lemma_prefix_zero(s, k - 1);
    }
}

/// No single bucket holds more than the whole histogram.
pub proof fn lemma_element_le_sum(s: Seq<int>, i: int)
    requires
        nonneg(s),
        0 <= i < s.len(),
    ensures
        s[i] <= sum(s),
{
    lemma_prefix_monotone(s, 0, i);
    lemma_prefix_monotone(s, i + 1, s.len() as int);
}

/// Powers of two do not decrease with the exponent.
pub proof fn lemma_pow2_le(e1: nat, e2: nat)
    requires
        e1 <= e2,
    ensures
        pow2(e1) <= pow2(e2),
{
    if e1 < e2 {
        lemma_pow2_strictly_increases(e1, e2);
    }
}

/// `log2_floor` names the position of the highest set bit.
pub proof fn lemma_log2_floor_bounds(v: nat)
    requires
        v >= 1,
    ensures
        pow2(log2_floor(v)) <= v < pow2(log2_floor(v) + 1),
    decreases v,
{
    if v < 2 {
        lemma2_to64();
    } else {
        let l = log2_floor(v / 2);
        lemma_log2_floor_bounds(v / 2);
        lemma_pow2_unfold(l + 1);
        lemma_pow2_unfold(l + 2);
        assert(v == 2 * (v / 2) + v % 2);
    }
}

/// Only the position of the highest set bit brackets a value by powers of two.
pub proof fn lemma_log2_floor_unique(v: nat, e: nat)
    requires
        v >= 1,
        pow2(e) <= v < pow2(e + 1),
    ensures
        log2_floor(v) == e,
{
    let l = log2_floor(v);
    lemma_log2_floor_bounds(v);
    if e < l {
        lemma_pow2_le(e + 1, l);
    }
    if l < e {
        lemma_pow2_le(l + 1, e);
    }
}

/// Every sample lies inside the bucket it is recorded into: the bucket's
/// bounds bracket the sample, which is what bounds a percentile's error.
pub proof fn lemma_bucket_brackets_sample(g: nat, v: nat)
    requires
        1 <= g <= 16,
    ensures
        spec_bucket_lower(g, spec_bucket_index(g, v)) <= v,
        v <= spec_bucket_upper(g, spec_bucket_index(g, v)),
{
    lemma_pow2_pos(g);
    if v < pow2(g) {
    } else {
        let e = log2_floor(v);
        lemma_log2_floor_bounds(v);
        // v >= pow2(g) forces the highest set bit at or above position g.
        if e < g {
            lemma_pow2_le(e + 1, g);
        }
        let pg = pow2(g) as int;
        let w = pow2((e - g) as nat) as int;
        lemma_pow2_adds((e - g) as nat, g);
        lemma_pow2_pos((e - g) as nat);
        lemma_pow2_unfold(e + 1);
        let off = (v - pow2(e)) as int / w;
        vstd::arithmetic::div_mod::lemma_fundamental_div_mod((v - pow2(e)) as int, w);
        vstd::arithmetic::div_mod::lemma_mod_division_less_than_divisor((v - pow2(e)) as int, w);
        assert(off < pg) by (nonlinear_arith)
            requires
                w * off + ((v - pow2(e)) as int % w) == (v - pow2(e)) as int,
                0 <= ((v - pow2(e)) as int % w) < w,
                ((v - pow2(e)) as int) < (pow2(e as nat) as int),
                (pow2(e as nat) as int) == w * pg,
                w >= 1,
        ;
        assert(off >= 0) by (nonlinear_arith)
            requires
                w * off + ((v - pow2(e)) as int % w) == (v - pow2(e)) as int,
                0 <= ((v - pow2(e)) as int % w) < w,
                ((v - pow2(e)) as int) >= 0,
                w >= 1,
        ;
        let idx = spec_bucket_index(g, v) as int;
        assert(idx == (e - g + 1) * pg + off);
        vstd::arithmetic::div_mod::lemma_fundamental_div_mod_converse(
            idx,
            pg,
            e - g + 1,
            off,
        );
        // The bucket's bounds, spelled out from its number and sub-bucket.
        assert(idx >= pg && off * w >= 0 && (off + 1) * w >= 1) by (nonlinear_arith)
            requires
                idx == (e - g + 1) * pg + off,
                e >= g,
                off >= 0,
                pg >= 1,
                w >= 1,
        ;
        assert(spec_bucket_lower(g, idx as nat) == pow2(e) + off * w);
        assert(spec_bucket_upper(g, idx as nat) == pow2(e) + (off + 1) * w - 1);
        assert(off * w <= ((v - pow2(e)) as int) && ((v - pow2(e)) as int) < (off + 1) * w)
            by (nonlinear_arith)
            requires
                w * off + ((v - pow2(e)) as int % w) == (v - pow2(e)) as int,
                0 <= ((v - pow2(e)) as int % w) < w,
        ;
    }
}

/// Dropping the first entry shifts every prefix sum by that entry.
pub proof fn lemma_prefix_drop_first(s: Seq<int>, k: int)
    requires
        1 <= k <= s.len(),
    ensures
        prefix_sum(s, k) == s[0] + prefix_sum(s.drop_first(), k - 1),
    decreases k,
{
    assert(prefix_sum(s, 0) == 0);
    assert(prefix_sum(s.drop_first(), 0) == 0);
    if k > 1 {
        lemma_prefix_drop_first(s, k - 1);
    }
}

/// The selected bucket is never negative.
pub proof fn lemma_sel_nonneg(s: Seq<int>, r: int)
    ensures
        spec_sel(s, r) >= 0,
    decreases s.len(),
{
    if s.len() > 1 && s[0] < r {
        lemma_sel_nonneg(s.drop_first(), r - s[0]);
    }
}

/// The selected bucket is in range, its running count reaches the rank, and
/// every earlier bucket's running count falls short: `spec_sel` is the first
/// crossing point.
pub proof fn lemma_sel_props(s: Seq<int>, r: int)
    requires
        nonneg(s),
        s.len() >= 1,
        1 <= r <= sum(s),
    ensures
        0 <= spec_sel(s, r) < s.len(),
        prefix_sum(s, spec_sel(s, r) + 1) >= r,
        forall|j: int| 0 <= j < spec_sel(s, r) ==> #[trigger] prefix_sum(s, j + 1) < r,
    decreases s.len(),
{
    assert(prefix_sum(s, 0) == 0);
    assert(prefix_sum(s.drop_first(), 0) == 0);
    if s.len() == 1 {
        assert(prefix_sum(s, 1) == s[0]);
    } else if s[0] >= r {
        assert(prefix_sum(s, 1) == s[0]);
    } else {
        let t = s.drop_first();
        lemma_prefix_drop_first(s, s.len() as int);
        assert(nonneg(t));
        lemma_sel_props(t, r - s[0]);
        let st = spec_sel(t, r - s[0]);
        lemma_prefix_drop_first(s, st + 2);
        assert(prefix_sum(s, 1) == s[0] + prefix_sum(t, 0));
        assert forall|j: int| 0 <= j < 1 + st implies #[trigger] prefix_sum(s, j + 1) < r by {
            if j >= 1 {
                lemma_prefix_drop_first(s, j + 1);
                assert(prefix_sum(t, (j - 1) + 1) < r - s[0]);
            } else {
                assert(prefix_sum(s, 1) == s[0] + prefix_sum(t, 0));
            }
        }
    }
}

/// Only the first crossing point is the selected bucket.
pub proof fn lemma_sel_first_crossing(s: Seq<int>, r: int, i: int)
    requires
        nonneg(s),
        s.len() >= 1,
        1 <= r <= sum(s),
        0 <= i < s.len(),
        prefix_sum(s, i + 1) >= r,
        forall|j: int| 0 <= j < i ==> #[trigger] prefix_sum(s, j + 1) < r,
    ensures
        i == spec_sel(s, r),
{
    lemma_sel_props(s, r);
}

/// A higher rank never selects an earlier bucket.
pub proof fn lemma_sel_monotone(s: Seq<int>, r1: int, r2: int)
    requires
        r1 <= r2,
    ensures
        spec_sel(s, r1) <= spec_sel(s, r2),
    decreases s.len(),
{
    lemma_sel_nonneg(s, r2);
    if s.len() > 1 && s[0] < r1 {
        lemma_sel_monotone(s.drop_first(), r1 - s[0], r2 - s[0]);
    } else {
        assert(spec_sel(s, r1) == 0);
    }
}

/// Bucket upper bounds do not decrease along consecutive buckets.
proof fn lemma_bucket_upper_succ(g: nat, i: nat)
    requires
        1 <= g <= 16,
    ensures
        spec_bucket_upper(g, i) <= spec_bucket_upper(g, i + 1),
{
    let pg = pow2(g) as int;
    lemma_pow2_pos(g);
    if i + 1 < pow2(g) {
    } else if i < pow2(g) {
        // i + 1 == pow2(g): the first logarithmic bucket starts at pow2(g).
        vstd::arithmetic::div_mod::lemma_fundamental_div_mod_converse(pg, pg, 1, 0);
        assert(spec_bucket_upper(g, i + 1) == pow2(g) + 1 * pow2(0) - 1);
        lemma2_to64();
    } else {
        let b = i as int / pg;
        let s = i as int % pg;
        vstd::arithmetic::div_mod::lemma_fundamental_div_mod(i as int, pg);
        vstd::arithmetic::div_mod::lemma_mod_division_less_than_divisor(i as int, pg);
        assert(b >= 1) by (nonlinear_arith)
            requires
                i as int == b * pg + s,
                i as int >= pg,
                0 <= s < pg,
                pg >= 1,
        ;
        if s + 1 < pg {
            assert(i as int + 1 == b * pg + (s + 1)) by (nonlinear_arith)
                requires
                    i as int == pg * b + s,
            ;
            vstd::arithmetic::div_mod::lemma_fundamental_div_mod_converse(
                i as int + 1,
                pg,
                b,
                s + 1,
            );
            lemma_pow2_pos((b - 1) as nat);
            lemma_pow2_pos((b + g - 1) as nat);
            assert((s + 2) * pow2((b - 1) as nat) >= (s + 1) * pow2((b - 1) as nat) + 1
                && (s + 1) * pow2((b - 1) as nat) >= 0) by (nonlinear_arith)
                requires
                    pow2((b - 1) as nat) >= 1,
                    s >= 0,
            ;
            assert(spec_bucket_upper(g, i) == pow2((b + g - 1) as nat) + (s + 1) * pow2(
                (b - 1) as nat,
            ) - 1);
            assert(spec_bucket_upper(g, i + 1) == pow2((b + g - 1) as nat) + (s + 2) * pow2(
                (b - 1) as nat,
            ) - 1);
        } else {
            // The step crosses into the next power-of-two range.
            assert(i as int + 1 == (b + 1) * pg) by (nonlinear_arith)
                requires
                    i as int == b * pg + s,
                    s + 1 == pg,
            ;
            vstd::arithmetic::div_mod::lemma_fundamental_div_mod_converse(
                i as int + 1,
                pg,
                b + 1,
                0,
            );
            lemma_pow2_adds(g, (b - 1) as nat);
            lemma_pow2_unfold((b + g) as nat);
            lemma_pow2_unfold((b + g - 1) as nat);
            assert((s + 1) * pow2((b - 1) as nat) == pow2((g + b - 1) as nat))
                by (nonlinear_arith)
                requires
                    s + 1 == pow2(g),
                    pow2((g + b - 1) as nat) == pow2(g) * pow2((b - 1) as nat),
            ;
            lemma_pow2_pos((b + g - 1) as nat);
            lemma_pow2_pos(b as nat);
            assert(spec_bucket_upper(g, i) == pow2((b + g) as nat) - 1);
            assert(spec_bucket_upper(g, i + 1) == pow2((b + g) as nat) + 1 * pow2(b as nat)
                - 1);
        }
    }
}

/// Bucket upper bounds do not decrease with the bucket number.
pub proof fn lemma_bucket_upper_monotone(g: nat, i1: nat, i2: nat)
    requires
        1 <= g <= 16,
        i1 <= i2,
    ensures
        spec_bucket_upper(g, i1) <= spec_bucket_upper(g, i2),
    decreases i2 - i1,
{
    if i1 < i2 {
        lemma_bucket_upper_succ(g, (i2 - 1) as nat);
        lemma_bucket_upper_monotone(g, i1, (i2 - 1) as nat);
    }
}

/// An append-only distribution of latency samples with pointwise-exact merge.
pub struct LatencyHistogram {
    grouping: u32,
    max_power: u32,
    counts: Vec<u64>,
    total: u64,
}

impl LatencyHistogram {
    /// The sub-bucket precision `g`.
    pub closed spec fn grouping(&self) -> nat {
        self.grouping as nat
    }

    /// The power bounding the trackable range: samples up to `2^m - 1` are accepted.
    pub closed spec fn max_power(&self) -> nat {
        self.max_power as nat
    }

    /// The mathematical model: the bucket counts.
    pub closed spec fn model(&self) -> Seq<int> {
        self.counts@.map_values(|c: u64| c as int)
    }

    /// The number of recorded samples.
    pub closed spec fn spec_total(&self) -> int {
        self.total as int
    }

    /// Well-formedness: a valid configuration, the right number of buckets,
    /// and a running total equal to the sum of the bucket counts.
    pub closed spec fn inv(&self) -> bool {
        &&& valid_config(self.grouping(), self.max_power())
        &&& self.counts@.len() == spec_num_buckets(self.grouping(), self.max_power())
        &&& self.spec_total() == sum(self.model())
    }

    /// Two histograms can merge exactly when their bucket configurations agree.
    pub open spec fn compatible(&self, other: &LatencyHistogram) -> bool {
        self.grouping() == other.grouping() && self.max_power() == other.max_power()
    }

    /// A histogram with the default precision: sub-buckets of relative width
    /// at most `2^-10` (under 0.1%), tracking samples up to `2^63 - 1`.
    pub fn new() -> (r: LatencyHistogram)
        ensures
            r.inv(),
            r.grouping() == DEFAULT_GROUPING as nat,
            r.max_power() == DEFAULT_MAX_POWER as nat,
            r.spec_total() == 0,
            forall|i: int| 0 <= i < r.model().len() ==> r.model()[i] == 0,
    {
        LatencyHistogram::with_config(DEFAULT_GROUPING, DEFAULT_MAX_POWER)
    }

    /// A histogram with an explicit bucket configuration.
    pub fn with_config(grouping: u32, max_power: u32) -> (r: LatencyHistogram)
        requires
            valid_config(grouping as nat, max_power as nat),
        ensures
            r.inv(),
            r.grouping() == grouping as nat,
            r.max_power() == max_power as nat,
            r.spec_total() == 0,
            forall|i: int| 0 <= i < r.model().len() ==> r.model()[i] == 0,
    {
        let n = num_buckets(grouping, max_power);
        let mut counts: Vec<u64> = Vec::new();
        while counts.len() < n
            invariant
                counts@.len() <= n,
                forall|j: int| 0 <= j < counts@.len() ==> counts@[j] == 0,
            decreases n - counts@.len(),
        {
            counts.push(0);
        }
        let r = LatencyHistogram { grouping, max_power, counts, total: 0 };
        proof {
            assert(r.model().len() == spec_num_buckets(grouping as nat, max_power as nat));
            lemma_prefix_zero(r.model(), r.model().len() as int);
        }
        r
    }
}

/// What well-formedness guarantees about the model, spelled out for callers:
/// the counts are non-negative, there is one count per bucket, and they sum
/// to the recorded total.
pub proof fn lemma_model_facts(h: &LatencyHistogram)
    requires
        h.inv(),
    ensures
        h.model().len() == spec_num_buckets(h.grouping(), h.max_power()),
        sum(h.model()) == h.spec_total(),
        nonneg(h.model()),
        valid_config(h.grouping(), h.max_power()),
{
}

impl LatencyHistogram {
    /// How many samples have been recorded.
    pub fn total_count(&self) -> (r: u64)
        ensures
            r == self.spec_total(),
    {
        self.total
    }

    /// Appends one sample.  A sample inside the trackable range always lands
    /// in the bucket that brackets it; one outside the range is rejected with
    /// `InvalidSample` and changes nothing.
    pub fn record(&mut self, sample: u64) -> (r: Result<(), BenchError>)
        requires
            old(self).inv(),
            old(self).spec_total() < u64::MAX,
        ensures
            final(self).inv(),
            final(self).grouping() == old(self).grouping(),
            final(self).max_power() == old(self).max_power(),
            sample <= spec_max_sample(old(self).max_power()) ==> {
                &&& r == Ok::<(), BenchError>(())
                &&& final(self).model() == old(self).model().update(
                    spec_bucket_index(old(self).grouping(), sample as nat) as int,
                    old(self).model()[spec_bucket_index(old(self).grouping(), sample as nat) as int]
                        + 1,
                )
                &&& final(self).spec_total() == old(self).spec_total() + 1
            },
            sample > spec_max_sample(old(self).max_power()) ==> {
                &&& r == Err::<(), BenchError>(BenchError::InvalidSample)
                &&& final(self).model() == old(self).model()
                &&& final(self).spec_total() == old(self).spec_total()
            },
    {
        proof {
            lemma_pow2_pos(self.max_power as nat);
        }
        let max = pow2_u64(self.max_power) - 1;
        if sample > max {
            return Err(BenchError::InvalidSample);
        }
        let idx = bucket_index(self.grouping, self.max_power, sample);
        let c = self.counts[idx];
        proof {
            assert(nonneg(self.model()));
            lemma_element_le_sum(self.model(), idx as int);
        }
        self.counts.set(idx, c + 1);
        self.total = self.total + 1;
        proof {
            let oldm = old(self).model();
            let newm = self.model();
            assert(newm =~= oldm.update(idx as int, oldm[idx as int] + 1));
            lemma_prefix_update(oldm, idx as int, oldm[idx as int] + 1, oldm.len() as int);
        }
        Ok(())
    }

    /// The estimated latency at or below which `p_tenths` tenths of a percent
    /// of the recorded samples fall: the upper bound of the bucket holding
    /// the sample of that rank.  A histogram with no samples has no
    /// percentiles and reports `EmptyHistogram`.
    pub fn percentile(&self, p_tenths: u32) -> (r: Result<u64, BenchError>)
        requires
            self.inv(),
            p_tenths <= 1000,
        ensures
            self.spec_total() == 0 ==> r == Err::<u64, BenchError>(BenchError::EmptyHistogram),
            self.spec_total() > 0 ==> r == Ok::<u64, BenchError>(
                spec_percentile(self.grouping(), self.model(), p_tenths as int) as u64,
            ),
    {
        if self.total == 0 {
            return Err(BenchError::EmptyHistogram);
        }
        let ghost modelv = self.model();
        let ghost totalv = self.spec_total();
        proof {
            assert(nonneg(modelv));
        }
        let rank = rank_for(self.total, p_tenths);
        proof {
            // The counts sum to the total, so the rank is reachable.
            assert(sum(modelv) == totalv);
            lemma_pow2_pos(self.grouping());
            assert(modelv.len() >= 1) by (nonlinear_arith)
                requires
                    modelv.len() == (self.max_power() - self.grouping() + 1) * pow2(
                        self.grouping(),
                    ),
                    self.max_power() > self.grouping(),
                    pow2(self.grouping()) >= 1,
            ;
        }
        let n = self.counts.len();
        let mut i: usize = 0;
        let mut cum: u64 = self.counts[0];
        proof {
            assert(prefix_sum(modelv, 0) == 0);
            assert(cum == prefix_sum(modelv, 1));
        }
        while cum < rank
            invariant
                self.inv(),
                modelv == self.model(),
                totalv == self.spec_total(),
                n == self.counts@.len(),
                1 <= n,
                1 <= rank as int <= totalv,
                0 <= i < n,
                cum == prefix_sum(modelv, i as int + 1),
                forall|j: int| 0 <= j < i ==> #[trigger] prefix_sum(modelv, j + 1) < rank,
            decreases n - i,
        {
            proof {
                // The running count has not yet reached the rank, so a later
                // bucket must: the scan stays in range.
                if i as int + 1 >= n {
                    assert(prefix_sum(modelv, n as int) == totalv);
                }
                lemma_prefix_monotone(modelv, i as int + 2, n as int);
            }
            i = i + 1;
            let c = self.counts[i];
            proof {
                lemma_prefix_monotone(modelv, 0, i as int + 1);
                assert(prefix_sum(modelv, i as int + 1) == cum + modelv[i as int]);
                lemma_prefix_monotone(modelv, i as int + 1, n as int);
            }
            cum = cum + c;
        }
        proof {
            lemma_sel_first_crossing(modelv, rank as int, i as int);
        }
        let v = bucket_upper(self.grouping, self.max_power, i);
        Ok(v)
    }

    /// Folds `other`'s bucket counts into `self`, pointwise and losslessly.
    /// Histograms built with different bucket configurations are rejected
    /// with `IncompatibleHistogram`, and nothing changes.
    pub fn merge(&mut self, other: &LatencyHistogram) -> (r: Result<(), BenchError>)
        requires
            old(self).inv(),
            other.inv(),
            old(self).spec_total() + other.spec_total() <= u64::MAX,
        ensures
            final(self).inv(),
            final(self).grouping() == old(self).grouping(),
            final(self).max_power() == old(self).max_power(),
            old(self).compatible(other) ==> {
                &&& r == Ok::<(), BenchError>(())
                &&& final(self).model() == pw_add(old(self).model(), other.model())
                &&& final(self).spec_total() == old(self).spec_total() + other.spec_total()
            },
            !old(self).compatible(other) ==> {
                &&& r == Err::<(), BenchError>(BenchError::IncompatibleHistogram)
                &&& final(self).model() == old(self).model()
                &&& final(self).spec_total() == old(self).spec_total()
            },
    {
        if self.grouping != other.grouping || self.max_power != other.max_power {
            return Err(BenchError::IncompatibleHistogram);
        }
        let n = self.counts.len();
        let mut i: usize = 0;
        while i < n
            invariant
                n == self.counts@.len(),
                n == old(self).counts@.len(),
                n == other.counts@.len(),
                i <= n,
                self.grouping == old(self).grouping,
                self.max_power == old(self).max_power,
                self.total == old(self).total,
                old(self).inv(),
                other.inv(),
                old(self).spec_total() + other.spec_total() <= u64::MAX,
                forall|j: int|
                    0 <= j < i ==> self.model()[j] == old(self).model()[j] + other.model()[j],
                forall|j: int| i <= j < n ==> self.model()[j] == old(self).model()[j],
            decreases n - i,
        {
            let a = self.counts[i];
            let b = other.counts[i];
            proof {
                assert(nonneg(old(self).model()));
                assert(nonneg(other.model()));
                lemma_element_le_sum(old(self).model(), i as int);
                lemma_element_le_sum(other.model(), i as int);
            }
            let ghost prev = self.counts@;
            let ghost prevm = self.model();
            self.counts.set(i, a + b);
            proof {
                assert(self.counts@ == prev.update(i as int, (a + b) as u64));
                assert forall|j: int|
                    0 <= j < i + 1 implies self.model()[j] == old(self).model()[j]
                    + other.model()[j] by {
                    if j != i {
                        assert(self.counts@[j] == prev[j]);
                        assert(self.model()[j] == prevm[j]);
                    } else {
                        assert(self.model()[j] == a as int + b as int);
                    }
                }
                assert forall|j: int| i + 1 <= j < n implies self.model()[j] == old(
                    self,
                ).model()[j] by {
                    assert(self.counts@[j] == prev[j]);
                    assert(self.model()[j] == prevm[j]);
                }
            }
            i = i + 1;
        }
        proof {
            assert(self.model() =~= pw_add(old(self).model(), other.model()));
            lemma_prefix_pw_add(
                old(self).model(),
                other.model(),
                old(self).model().len() as int,
            );
        }
        self.total = self.total + other.total;
        Ok(())
    }
}

/// The default sub-bucket precision `g`.
pub const DEFAULT_GROUPING: u32 = 10;

/// The default bound on the trackable range: samples up to `2^63 - 1`.
pub const DEFAULT_MAX_POWER: u32 = 63;

/// Law: merging histograms is commutative.  Merging in either order yields
/// identical bucket counts, so also identical percentile results.
pub proof fn lemma_merge_commutative(a: Seq<int>, b: Seq<int>)
    requires
        a.len() == b.len(),
    ensures
        pw_add(a, b) == pw_add(b, a),
{
    assert(pw_add(a, b) =~= pw_add(b, a));
}

/// Law: merging histograms is associative.  Folding three histograms together
/// in either grouping yields identical bucket counts.
pub proof fn lemma_merge_associative(a: Seq<int>, b: Seq<int>, c: Seq<int>)
    requires
        a.len() == b.len(),
        b.len() == c.len(),
    ensures
        pw_add(pw_add(a, b), c) == pw_add(a, pw_add(b, c)),
{
    assert(pw_add(pw_add(a, b), c) =~= pw_add(a, pw_add(b, c)));
}

/// Law: the order in which histograms are merged cannot change any
/// percentile, since a percentile is a function of the bucket counts alone.
pub proof fn lemma_merge_order_preserves_percentiles(
    g: nat,
    a: Seq<int>,
    b: Seq<int>,
    c: Seq<int>,
    p: int,
)
    requires
        a.len() == b.len(),
        b.len() == c.len(),
    ensures
        spec_percentile(g, pw_add(pw_add(a, b), c), p) == spec_percentile(
            g,
            pw_add(a, pw_add(b, c)),
            p,
        ),
        spec_percentile(g, pw_add(a, b), p) == spec_percentile(g, pw_add(b, a), p),
{
    lemma_merge_associative(a, b, c);
    lemma_merge_commutative(a, b);
}

/// Law: sample conservation.  A merged histogram holds exactly the samples of
/// its inputs: the total count is the sum of the input totals.
pub proof fn lemma_merge_conserves_samples(a: Seq<int>, b: Seq<int>)
    requires
        a.len() == b.len(),
    ensures
        sum(pw_add(a, b)) == sum(a) + sum(b),
{
    lemma_prefix_pw_add(a, b, a.len() as int);
}

/// Law: percentile monotonicity.  For a fixed histogram, a higher percentile
/// never answers a smaller value.
pub proof fn lemma_percentile_monotone(g: nat, s: Seq<int>, p1: int, p2: int)
    requires
        1 <= g <= 16,
        nonneg(s),
        0 <= p1 <= p2,
    ensures
        spec_percentile(g, s, p1) <= spec_percentile(g, s, p2),
{
    let t = sum(s);
    lemma_prefix_monotone(s, 0, s.len() as int);
    assert(t * p1 <= t * p2) by (nonlinear_arith)
        requires
            t >= 0,
            p1 <= p2,
    ;
    vstd::arithmetic::div_mod::lemma_div_is_ordered(t * p1 + 999, t * p2 + 999, 1000);
    let r1 = spec_rank(t, p1);
    let r2 = spec_rank(t, p2);
    lemma_sel_monotone(s, r1, r2);
    lemma_sel_nonneg(s, r1);
    lemma_sel_nonneg(s, r2);
    lemma_bucket_upper_monotone(g, spec_sel(s, r1) as nat, spec_sel(s, r2) as nat);
}

/// The one-based rank a percentile query asks for.
fn rank_for(total: u64, p_tenths: u32) -> (r: u64)
    requires
        total >= 1,
        p_tenths <= 1000,
    ensures
        r == spec_rank(total as int, p_tenths as int),
        1 <= r <= total,
{
    proof {
        let t = total as int;
        let p = p_tenths as int;
        assert(t * p <= t * 1000 && t * 1000 <= 0xffffffffffffffff * 1000) by (nonlinear_arith)
            requires
                0 <= p <= 1000,
                0 <= t <= 0xffffffffffffffff,
        ;
        assert(t * p >= 0) by (nonlinear_arith)
            requires
                p >= 0,
                t >= 0,
        ;
    }
    let wide: u128 = ((total as u128) * (p_tenths as u128) + 999) / 1000;
    proof {
        let t = total as int;
        let p = p_tenths as int;
        vstd::arithmetic::div_mod::lemma_div_is_ordered(t * p + 999, t * 1000 + 999, 1000);
        vstd::arithmetic::div_mod::lemma_fundamental_div_mod_converse(
            t * 1000 + 999,
            1000,
            t,
            999,
        );
        vstd::arithmetic::div_mod::lemma_div_pos_is_pos(t * p + 999, 1000);
    }
    if wide == 0 {
        1
    } else {
        wide as u64
    }
}

/// The largest sample a bucket can hold.
fn bucket_upper(g: u32, m: u32, i: usize) -> (r: u64)
    requires
        valid_config(g as nat, m as nat),
        i < spec_num_buckets(g as nat, m as nat),
    ensures
        r == spec_bucket_upper(g as nat, i as nat),
{
    let pg = pow2_u64(g);
    proof {
        lemma_pow2_pos(g as nat);
    }
    if (i as u64) < pg {
        return i as u64;
    }
    let b = (i as u64) / pg;
    let s = (i as u64) % pg;
    proof {
        let pgi = pow2(g as nat) as int;
        vstd::arithmetic::div_mod::lemma_mod_division_less_than_divisor(i as int, pgi);
        vstd::arithmetic::div_mod::lemma_fundamental_div_mod(i as int, pgi);
        // The bucket number is at least 1 and at most m - g.
        assert(1 <= b as int && b as int <= (m - g) as int) by (nonlinear_arith)
            requires
                i as int == pgi * (b as int) + (s as int),
                0 <= (s as int) && (s as int) < pgi,
                pgi <= (i as int),
                (i as int) < ((m - g + 1) as int) * pgi,
                pgi >= 1,
        ;
        lemma_pow2_adds(g as nat, (b - 1) as nat);
        lemma_pow2_pos((b - 1) as nat);
        // The answer stays below 2^m, so the arithmetic fits.
        assert((s as int + 1) * pow2((b - 1) as nat) <= pow2((g + b - 1) as nat))
            by (nonlinear_arith)
            requires
                s as int + 1 <= pow2(g as nat),
                pow2((g + b - 1) as nat) == pow2(g as nat) * pow2((b - 1) as nat),
                pow2((b - 1) as nat) >= 1,
        ;
        assert((s as int + 1) * pow2((b - 1) as nat) >= 1) by (nonlinear_arith)
            requires
                s as int >= 0,
                pow2((b - 1) as nat) >= 1,
        ;
        lemma_pow2_unfold((b + g) as nat);
        lemma_pow2_le((b + g) as nat, 63);
        lemma2_to64_rest();
    }
    let hi = pow2_u64(b as u32 + g - 1);
    let sub = pow2_u64(b as u32 - 1);
    hi + (s + 1) * sub - 1
}

/// The bucket a sample lands in, and that it is a real bucket.
fn bucket_index(g: u32, m: u32, v: u64) -> (r: usize)
    requires
        valid_config(g as nat, m as nat),
        v <= spec_max_sample(m as nat),
    ensures
        r == spec_bucket_index(g as nat, v as nat),
        r < spec_num_buckets(g as nat, m as nat),
{
    let pg = pow2_u64(g);
    proof {
        lemma2_to64();
        lemma_pow2_le(g as nat, 16);
        lemma_pow2_pos(g as nat);
        lemma_pow2_pos(m as nat);
    }
    if v < pg {
        proof {
            assert((v as int) < 2 * pow2(g as nat) <= (((m - g) as nat) + 1) * pow2(g as nat))
                by (nonlinear_arith)
                requires
                    (v as int) < pow2(g as nat),
                    pow2(g as nat) >= 1,
                    2 <= ((m - g) as nat) + 1,
            ;
        }
        return v as usize;
    }
    let mut e: u32 = g;
    let mut pw: u64 = pg;
    while pw <= v / 2
        invariant
            valid_config(g as nat, m as nat),
            v < pow2(m as nat),
            g <= e <= 63,
            pw == pow2(e as nat),
            1 <= pw <= v,
        decreases v - pw,
    {
        proof {
            // pow2(e + 1) = 2 * pow2(e) <= 2 * (v / 2) <= v < pow2(m),
            // so e + 1 < m <= 63 and the doubling fits.
            lemma_pow2_unfold(e as nat + 1);
            assert(2 * ((v as int) / 2) <= v as int);
            if e as nat + 1 >= m as nat {
                lemma_pow2_le(m as nat, e as nat + 1);
            }
        }
        pw = pw * 2;
        e = e + 1;
    }
    proof {
        lemma_pow2_unfold(e as nat + 1);
        assert(2 * ((v as int) / 2) <= v as int);
        lemma_log2_floor_unique(v as nat, e as nat);
        // e < m because pow2(e) <= v < pow2(m).
        if e as nat >= m as nat {
            lemma_pow2_le(m as nat, e as nat);
        }
        lemma_pow2_subtracts(g as nat, e as nat);
        lemma_pow2_adds((e - g) as nat, g as nat);
        lemma_pow2_pos((e - g) as nat);
    }
    let width = pw / pg;
    let off = (v - pw) / width;
    proof {
        // The sub-bucket offset stays below 2^g.
        assert(((v - pw) as int) / (width as int) < pow2(g as nat)) by (nonlinear_arith)
            requires
                0 <= ((v - pw) as int) < pow2(e as nat),
                pow2(e as nat) == pow2((e - g) as nat) * pow2(g as nat),
                width as int == pow2((e - g) as nat),
                width as int >= 1,
        ;
        // The bucket number stays below the bucket count.
        assert(((e - g + 1) as int) * pow2(g as nat) + (off as int) < (((m - g) as nat) + 1)
            * pow2(g as nat)) by (nonlinear_arith)
            requires
                0 <= (off as int) < pow2(g as nat),
                (e as int) < (m as int),
                (g as int) <= (e as int),
                pow2(g as nat) >= 1,
        ;
        assert((((m - g) as nat) + 1) * pow2(g as nat) <= 63 * 65536) by (nonlinear_arith)
            requires
                ((m - g) as nat) + 1 <= 63,
                pow2(g as nat) <= 65536,
                pow2(g as nat) >= 1,
        ;
    }
    let idx = ((e - g + 1) as u64) * pg + off;
    idx as usize
}

/// `2^e` as a `u64`.
fn pow2_u64(e: u32) -> (r: u64)
    requires
        e <= 63,
    ensures
        r == pow2(e as nat),
{
    let mut i: u32 = 0;
    let mut r: u64 = 1;
    proof {
        lemma2_to64();
        lemma2_to64_rest();
    }
    while i < e
        invariant
            i <= e <= 63,
            r == pow2(i as nat),
            pow2(63) == 0x8000000000000000,
        decreases e - i,
    {
        proof {
            lemma_pow2_unfold((i + 1) as nat);
            if i + 1 < 63 {
                lemma_pow2_strictly_increases((i + 1) as nat, 63);
            }
        }
        r = r * 2;
        i = i + 1;
    }
    r
}

/// How many buckets a configuration uses, as a vector length.
fn num_buckets(g: u32, m: u32) -> (r: usize)
    requires
        valid_config(g as nat, m as nat),
    ensures
        r == spec_num_buckets(g as nat, m as nat),
{
    let p = pow2_u64(g);
    proof {
        lemma2_to64();
        assert(pow2(g as nat) <= pow2(16)) by {
            if (g as nat) < 16 {
                lemma_pow2_strictly_increases(g as nat, 16);
            }
        }
        assert((m - g + 1) * pow2(g as nat) <= 63 * 65536) by (nonlinear_arith)
            requires
                1 <= g as int && g < m as int <= 63,
                pow2(g as nat) <= 65536,
        ;
    }
    ((m - g + 1) as u64 * p) as usize
}

} // verus!
