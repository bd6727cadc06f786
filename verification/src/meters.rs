//! Peak and loudness estimation over fixed-point audio samples.
//!
//! Samples are Q1.31 fixed-point values: an `i32` sample `s` stands for the
//! real amplitude `s / 2^31`, so full scale is `Q31_ONE = 2^31`. All meter
//! arithmetic is integer arithmetic over this representation, which keeps
//! every intermediate value exact and provably free of overflow.

use vstd::prelude::*;
use vstd::arithmetic::div_mod::{
    lemma_div_by_self,
    lemma_div_pos_is_pos,
    lemma_div_is_ordered,
    lemma_div_multiples_vanish,
    lemma_fundamental_div_mod,
    lemma_mod_division_less_than_divisor,
    lemma_multiply_divide_le,
    lemma_multiply_divide_lt,
};
use vstd::arithmetic::power::{lemma_pow0, lemma_pow1, lemma_pow_adds, lemma_pow_positive, pow};
use vstd::arithmetic::mul::{
    lemma_mul_inequality,
    lemma_mul_is_distributive_sub,
    lemma_mul_is_commutative,
    lemma_mul_nonnegative,
    lemma_mul_strict_inequality,
    lemma_mul_upper_bound,
};

verus! {

/// Full scale: the Q1.31 encoding of amplitude 1.0 (= 2^31).
pub const Q31_ONE: u64 = 0x8000_0000;

/// The Q1.31 encoding of pi/2, the rectified-sine amplitude correction.
pub const PI_HALF_Q31: u64 = 3_373_259_426;

/// The Q32.32 encoding of 1.0 (= 2^32), the scale of decay weights; it
/// is also the exclusive bound kept on the smoothed Q1.31 magnitude,
/// which therefore has headroom up to twice full scale.
pub const WEIGHT_ONE: u64 = 0x1_0000_0000;

/// Sampling rates are scaled by this factor in the weight derivation.
pub const RATE_SCALE: u64 = 10_000;

/// `RATE_SCALE * ln(100) / 0.3`, rounded: the per-second decay rate that
/// makes a step input reach 99% of its final value in a 300 ms rise time.
pub const DECAY_RATE_SCALED: u64 = 153_506;

/// The larger of two integers.
pub open spec fn spec_max(a: int, b: int) -> int {
    if a >= b {
        a
    } else {
        b
    }
}

/// Absolute value of a fixed-point sample, as a mathematical integer.
pub open spec fn spec_abs(s: i32) -> int {
    if s < 0 {
        -(s as int)
    } else {
        s as int
    }
}

/// Maximum absolute sample value over a batch; 0 for an empty batch.
pub open spec fn spec_batch_peak(s: Seq<i32>) -> int
    decreases s.len(),
{
    if s.len() == 0 {
        0
    } else {
        spec_max(spec_batch_peak(s.drop_last()), spec_abs(s.last()))
    }
}

/// Peak value after integrating a sequence of batches, starting from `p`.
pub open spec fn spec_peak_after(p: int, batches: Seq<Seq<i32>>) -> int
    decreases batches.len(),
{
    if batches.len() == 0 {
        p
    } else {
        spec_max(spec_peak_after(p, batches.drop_last()), spec_batch_peak(batches.last()))
    }
}

/// Absolute magnitude of one fixed-point audio sample.
pub fn abs_magnitude(s: i32) -> (r: u64)
    ensures
        r == spec_abs(s),
        r <= Q31_ONE,
{
    let wide: i64 = s as i64;
    if wide < 0 {
        (-wide) as u64
    } else {
        wide as u64
    }
}

/// Maximum absolute sample value of one batch (0 for an empty batch).
pub fn batch_peak(data: &Vec<i32>) -> (r: u64)
    ensures
        r == spec_batch_peak(data@),
        r <= Q31_ONE,
{
    let mut r: u64 = 0;
    let mut i: usize = 0;
    while i < data.len()
        invariant
            i <= data.len(),
            r == spec_batch_peak(data@.subrange(0, i as int)),
            r <= Q31_ONE,
        decreases data.len() - i,
    {
        let m: u64 = abs_magnitude(data[i]);
        proof {
            assert(data@.subrange(0, i + 1).drop_last() =~= data@.subrange(0, i as int));
        }
        if m > r {
            r = m;
        }
        i = i + 1;
    }
    proof {
        assert(data@.subrange(0, data@.len() as int) =~= data@);
    }
    r
}

/// The rectified-and-corrected value of one sample: its absolute value
/// scaled by pi/2, so that the smoothed average of a rectified sinusoid
/// converges to the sinusoid's amplitude. Result is a Q1.31 magnitude.
pub open spec fn spec_corrected(s: i32) -> int {
    (spec_abs(s) * PI_HALF_Q31) / Q31_ONE as int
}

/// One step of exponential smoothing: move the accumulator towards the
/// corrected sample (both Q1.31 magnitudes), keeping a `w / 2^32` share
/// of the gap.
pub open spec fn spec_vu_step(acc: int, corr: int, w: int) -> int {
    if acc >= corr {
        corr + ((acc - corr) * w) / WEIGHT_ONE as int
    } else {
        corr - ((corr - acc) * w) / WEIGHT_ONE as int
    }
}

/// Exponential smoothing folded over a whole batch, starting from `acc`,
/// with one fixed decay weight `w`.
pub open spec fn spec_vu_fold(acc: int, w: int, s: Seq<i32>) -> int
    decreases s.len(),
{
    if s.len() == 0 {
        acc
    } else {
        spec_vu_step(spec_vu_fold(acc, w, s.drop_last()), spec_corrected(s.last()), w)
    }
}

/// The decay weight for a sampling rate, in Q32.32. The continuous-time
/// derivation gives `exp(-1 / (rate * tau))` with `tau = 0.3 / ln(100)`;
/// this uses the rational form `a / (a + c)` with `a = rate * RATE_SCALE`
/// and `c = DECAY_RATE_SCALED`, which is exact integer arithmetic. At
/// audio rates the exponent is tiny and the two agree to a relative
/// error below `10^-5` (for rates above a few thousand hertz); at very
/// low rates the rational weight is larger than the exponential, i.e.
/// the meter decays more slowly there.
pub open spec fn spec_vu_weight(rate: int) -> int {
    (rate * RATE_SCALE as int * WEIGHT_ONE as int) / (rate * RATE_SCALE as int
        + DECAY_RATE_SCALED as int)
}

/// Rectified-and-corrected value of one sample, in Q1.31.
pub fn corrected_sample(s: i32) -> (r: u64)
    ensures
        r == spec_corrected(s),
        r < WEIGHT_ONE,
{
    let m: u64 = abs_magnitude(s);
    proof {
        lemma_mul_inequality(m as int, Q31_ONE as int, PI_HALF_Q31 as int);
    }
    let prod: u64 = m * PI_HALF_Q31;
    proof {
        lemma_div_is_ordered(prod as int, Q31_ONE as int * PI_HALF_Q31 as int, Q31_ONE as int);
        lemma_div_multiples_vanish(PI_HALF_Q31 as int, Q31_ONE as int);
    }
    prod / Q31_ONE
}

/// One exponential-smoothing step: Q1.31 magnitudes, Q32.32 weight.
pub fn vu_step_once(acc: u64, corr: u64, w: u64) -> (r: u64)
    requires
        acc < WEIGHT_ONE,
        corr < WEIGHT_ONE,
        w < WEIGHT_ONE,
    ensures
        r == spec_vu_step(acc as int, corr as int, w as int),
        r < WEIGHT_ONE,
{
    if acc >= corr {
        let diff: u64 = acc - corr;
        proof {
            lemma_mul_inequality(w as int, WEIGHT_ONE as int, diff as int);
            lemma_multiply_divide_le(diff as int * w as int, WEIGHT_ONE as int, diff as int);
        }
        corr + (diff * w) / WEIGHT_ONE
    } else {
        let diff: u64 = corr - acc;
        proof {
            lemma_mul_inequality(w as int, WEIGHT_ONE as int, diff as int);
            lemma_multiply_divide_le(diff as int * w as int, WEIGHT_ONE as int, diff as int);
        }
        corr - (diff * w) / WEIGHT_ONE
    }
}

/// Fold one batch into the smoothed value, with one fixed decay weight.
pub fn vu_fold_batch(start: u64, w: u64, data: &Vec<i32>) -> (r: u64)
    requires
        start < WEIGHT_ONE,
        w < WEIGHT_ONE,
    ensures
        r == spec_vu_fold(start as int, w as int, data@),
        r < WEIGHT_ONE,
{
    let mut acc: u64 = start;
    let mut i: usize = 0;
    while i < data.len()
        invariant
            i <= data.len(),
            acc == spec_vu_fold(start as int, w as int, data@.subrange(0, i as int)),
            acc < WEIGHT_ONE,
            w < WEIGHT_ONE,
        decreases data.len() - i,
    {
        let corr: u64 = corrected_sample(data[i]);
        proof {
            assert(data@.subrange(0, i + 1).drop_last() =~= data@.subrange(0, i as int));
        }
        acc = vu_step_once(acc, corr, w);
        i = i + 1;
    }
    proof {
        assert(data@.subrange(0, data@.len() as int) =~= data@);
    }
    acc
}

/// Decay weight for a sampling rate, in Q32.32; always strictly between
/// 0 and 1 (that is, in `[1, WEIGHT_ONE)` as an integer).
pub fn vu_weight_for_rate(sampling_rate: u32) -> (r: u64)
    requires
        sampling_rate >= 1,
    ensures
        r == spec_vu_weight(sampling_rate as int),
        1 <= r < WEIGHT_ONE,
{
    let a: u128 = (sampling_rate as u128) * (RATE_SCALE as u128);
    proof {
        lemma_mul_upper_bound(sampling_rate as int, 0xffff_ffff, RATE_SCALE as int, 10_000);
        lemma_mul_inequality(a as int, 42_949_672_950_000, WEIGHT_ONE as int);
    }
    let num: u128 = a * (WEIGHT_ONE as u128);
    let den: u128 = a + (DECAY_RATE_SCALED as u128);
    proof {
        lemma_mul_inequality(1, sampling_rate as int, RATE_SCALE as int);
        lemma_mul_inequality(10_000, a as int, (WEIGHT_ONE - 1) as int);
        lemma_mul_is_distributive_sub(a as int, WEIGHT_ONE as int, 1);
        lemma_mul_strict_inequality(a as int, den as int, WEIGHT_ONE as int);
        lemma_div_by_self(den as int);
        lemma_div_is_ordered(den as int, num as int, den as int);
        lemma_multiply_divide_lt(num as int, den as int, WEIGHT_ONE as int);
    }
    let q: u128 = num / den;
    q as u64
}

/// A peak meter: tracks the maximum absolute sample magnitude observed
/// since the last reset. The stored value never exceeds full scale.
pub struct SamplePeakMeter {
    /// Current peak, a Q1.31 magnitude in `[0, Q31_ONE]`.
    pub peak_sample: u64,
}

impl SamplePeakMeter {
    /// A meter holding a well-formed peak value.
    pub open spec fn wf(self) -> bool {
        self.peak_sample <= Q31_ONE
    }

    /// Create a peak meter with nothing integrated yet.
    pub fn new() -> (m: Self)
        ensures
            m.peak_sample == 0,
            m.wf(),
    {
        SamplePeakMeter { peak_sample: 0 }
    }

    /// Feed one batch: the stored peak becomes the maximum of the old peak
    /// and the batch's own maximum absolute sample value.
    pub fn integrate(&mut self, data: &Vec<i32>)
        ensures
            final(self).peak_sample == spec_max(
                old(self).peak_sample as int,
                spec_batch_peak(data@),
            ),
            old(self).wf() ==> final(self).wf(),
    {
        let m: u64 = batch_peak(data);
        if m > self.peak_sample {
            self.peak_sample = m;
        }
    }

    /// Return the peak observed since the last reset and reset it to 0.
    pub fn read_and_reset(&mut self) -> (r: u64)
        ensures
            r == old(self).peak_sample,
            final(self).peak_sample == 0,
            final(self).wf(),
    {
        let r: u64 = self.peak_sample;
        self.peak_sample = 0;
        r
    }
}

/// A VU-style loudness meter: an exponentially smoothed, rectified and
/// corrected amplitude, adaptive to the sampling rate.
pub struct VUMeter {
    /// Current smoothed value, a Q1.31 magnitude in `[0, WEIGHT_ONE)`:
    /// one integer unit is `2^-31` of full scale, with headroom up to
    /// twice full scale.
    pub vu_sample: u64,

    /// Decay weight, a Q32.32 fraction in `[1, WEIGHT_ONE)`, derived
    /// solely from the current sampling rate.
    pub vu_weight: u64,
}

impl VUMeter {
    /// A meter holding well-formed smoothed and weight values.
    pub open spec fn wf(self) -> bool {
        &&& self.vu_sample < WEIGHT_ONE
        &&& 1 <= self.vu_weight < WEIGHT_ONE
    }

    /// Create a loudness meter for a sampling rate, with nothing
    /// integrated yet.
    pub fn new(sampling_rate: u32) -> (m: Self)
        requires
            sampling_rate >= 1,
        ensures
            m.vu_sample == 0,
            m.vu_weight == spec_vu_weight(sampling_rate as int),
            m.wf(),
    {
        VUMeter { vu_sample: 0, vu_weight: vu_weight_for_rate(sampling_rate) }
    }

    /// Switch to a new sampling rate; affects only future `integrate`
    /// calls and never rescales the already-accumulated value.
    pub fn update_sampling_rate(&mut self, sampling_rate: u32)
        requires
            sampling_rate >= 1,
        ensures
            final(self).vu_weight == spec_vu_weight(sampling_rate as int),
            final(self).vu_sample == old(self).vu_sample,
            old(self).wf() ==> final(self).wf(),
    {
        self.vu_weight = vu_weight_for_rate(sampling_rate);
    }

    /// Feed one batch: fold the exponential smoothing over every sample,
    /// using one fixed decay-weight snapshot for the whole batch.
    pub fn integrate(&mut self, data: &Vec<i32>)
        requires
            old(self).wf(),
        ensures
            final(self).vu_sample == spec_vu_fold(
                old(self).vu_sample as int,
                old(self).vu_weight as int,
                data@,
            ),
            final(self).vu_weight == old(self).vu_weight,
            final(self).wf(),
    {
        self.vu_sample = vu_fold_batch(self.vu_sample, self.vu_weight, data);
    }

    /// Read the current smoothed value.
    pub fn read(&self) -> (r: u64)
        ensures
            r == self.vu_sample,
    {
        self.vu_sample
    }
}

/// The peak of a batch lies between 0 and full scale.
pub proof fn lemma_batch_peak_bounds(s: Seq<i32>)
    ensures
        0 <= spec_batch_peak(s) <= Q31_ONE,
    decreases s.len(),
{
    if s.len() > 0 {
        lemma_batch_peak_bounds(s.drop_last());
    }
}

/// The peak of a concatenation is the larger of the two peaks.
pub proof fn lemma_batch_peak_concat(a: Seq<i32>, b: Seq<i32>)
    ensures
        spec_batch_peak(a + b) == spec_max(spec_batch_peak(a), spec_batch_peak(b)),
    decreases b.len(),
{
    lemma_batch_peak_bounds(a);
    if b.len() == 0 {
        assert(a + b =~= a);
    } else {
        assert((a + b).drop_last() =~= a + b.drop_last());
        lemma_batch_peak_concat(a, b.drop_last());
    }
}

/// Integrating any finite sequence of batches, starting from peak `p`,
/// leaves the meter at the maximum of `p` and the largest absolute sample
/// value anywhere in those batches. In particular, starting from a reset
/// meter (`p == 0`), the reading is exactly the peak over the union of
/// all samples integrated since the reset.
pub proof fn lemma_peak_after_flatten(p: int, batches: Seq<Seq<i32>>)
    requires
        p >= 0,
    ensures
        spec_peak_after(p, batches) == spec_max(p, spec_batch_peak(batches.flatten())),
    decreases batches.len(),
{
    batches.lemma_flatten_and_flatten_alt_are_equivalent();
    if batches.len() == 0 {
        assert(batches.flatten_alt() =~= Seq::<i32>::empty());
    } else {
        lemma_peak_after_flatten(p, batches.drop_last());
        batches.drop_last().lemma_flatten_and_flatten_alt_are_equivalent();
        lemma_batch_peak_concat(batches.drop_last().flatten_alt(), batches.last());
        lemma_batch_peak_bounds(batches.last());
    }
}

/// The integrated peak dominates the starting value and every batch peak.
pub proof fn lemma_peak_after_dominates(p: int, batches: Seq<Seq<i32>>)
    ensures
        p <= spec_peak_after(p, batches),
        forall|i: int|
            0 <= i < batches.len() ==> spec_batch_peak(#[trigger] batches[i]) <= spec_peak_after(
                p,
                batches,
            ),
    decreases batches.len(),
{
    if batches.len() > 0 {
        lemma_peak_after_dominates(p, batches.drop_last());
        assert(forall|i: int|
            0 <= i < batches.len() - 1 ==> batches.drop_last()[i] == #[trigger] batches[i]);
    }
}

/// The integrated peak is the starting value or some batch's peak.
pub proof fn lemma_peak_after_achieved(p: int, batches: Seq<Seq<i32>>)
    ensures
        spec_peak_after(p, batches) == p || exists|i: int|
            0 <= i < batches.len() && spec_peak_after(p, batches) == spec_batch_peak(
                #[trigger] batches[i],
            ),
    decreases batches.len(),
{
    if batches.len() > 0 {
        lemma_peak_after_achieved(p, batches.drop_last());
        let r = spec_peak_after(p, batches);
        if r == spec_batch_peak(batches.last()) {
            assert(batches[batches.len() - 1] == batches.last());
        } else {
            let rd = spec_peak_after(p, batches.drop_last());
            if rd != p {
                let i = choose|i: int|
                    0 <= i < batches.drop_last().len() && rd == spec_batch_peak(
                        #[trigger] batches.drop_last()[i],
                    );
                assert(batches.drop_last()[i] == batches[i]);
            }
        }
    }
}

/// The peak meter never loses the true maximum, however the batches are
/// interleaved: integrating the same multiset of batches in any order
/// gives the same final peak.
pub proof fn lemma_peak_order_independent(p: int, bs1: Seq<Seq<i32>>, bs2: Seq<Seq<i32>>)
    requires
        bs1.to_multiset() == bs2.to_multiset(),
    ensures
        spec_peak_after(p, bs1) == spec_peak_after(p, bs2),
{
    broadcast use vstd::seq_lib::group_to_multiset_ensures;

    lemma_peak_after_dominates(p, bs1);
    lemma_peak_after_dominates(p, bs2);
    lemma_peak_after_achieved(p, bs1);
    lemma_peak_after_achieved(p, bs2);
    let r1 = spec_peak_after(p, bs1);
    let r2 = spec_peak_after(p, bs2);
    if r1 != p {
        let i = choose|i: int|
            0 <= i < bs1.len() && r1 == spec_batch_peak(#[trigger] bs1[i]);
        assert(bs1.to_multiset().count(bs1[i]) > 0);
        assert(bs2.contains(bs1[i]));
        let j = choose|j: int| 0 <= j < bs2.len() && bs2[j] == bs1[i];
        assert(spec_batch_peak(bs2[j]) <= r2);
    }
    if r2 != p {
        let i = choose|i: int|
            0 <= i < bs2.len() && r2 == spec_batch_peak(#[trigger] bs2[i]);
        assert(bs2.to_multiset().count(bs2[i]) > 0);
        assert(bs1.contains(bs2[i]));
        let j = choose|j: int| 0 <= j < bs1.len() && bs1[j] == bs2[i];
        assert(spec_batch_peak(bs1[j]) <= r1);
    }
}

/// Smoothing an all-zero batch from a silent meter leaves it silent.
pub proof fn lemma_silence_stays_silent(w: int, s: Seq<i32>)
    requires
        forall|i: int| 0 <= i < s.len() ==> s[i] == 0i32,
    ensures
        spec_vu_fold(0, w, s) == 0,
    decreases s.len(),
{
    if s.len() > 0 {
        lemma_silence_stays_silent(w, s.drop_last());
        assert(s.last() == 0i32);
        assert(spec_corrected(0i32) == 0);
    }
}

/// The corrected value of any sample is non-negative.
pub proof fn lemma_corrected_nonneg(v: i32)
    ensures
        0 <= spec_corrected(v),
{
    lemma_mul_nonnegative(spec_abs(v), PI_HALF_Q31 as int);
    lemma_div_pos_is_pos(spec_abs(v) * PI_HALF_Q31 as int, Q31_ONE as int);
}

/// One smoothing step never overshoots: the result lies between the
/// accumulator and the corrected sample, whichever way it has to move.
pub proof fn lemma_vu_step_between(acc: int, corr: int, w: int)
    requires
        0 <= acc,
        0 <= corr,
        0 <= w < WEIGHT_ONE,
    ensures
        acc <= corr ==> acc <= spec_vu_step(acc, corr, w) <= corr,
        corr <= acc ==> corr <= spec_vu_step(acc, corr, w) <= acc,
{
    if acc >= corr {
        let diff = acc - corr;
        lemma_mul_nonnegative(diff, w);
        lemma_div_pos_is_pos(diff * w, WEIGHT_ONE as int);
        lemma_mul_inequality(w, WEIGHT_ONE as int, diff);
        lemma_multiply_divide_le(diff * w, WEIGHT_ONE as int, diff);
    } else {
        let diff = corr - acc;
        lemma_mul_nonnegative(diff, w);
        lemma_div_pos_is_pos(diff * w, WEIGHT_ONE as int);
        lemma_mul_inequality(w, WEIGHT_ONE as int, diff);
        lemma_multiply_divide_le(diff * w, WEIGHT_ONE as int, diff);
    }
}

/// A sustained constant-amplitude input drives the smoothed value
/// monotonically upward towards the corrected amplitude and never past
/// it: after any number of samples the reading lies between the starting
/// value and the corrected true amplitude.
pub proof fn lemma_vu_fold_constant_approach(acc: int, w: int, s: Seq<i32>, v: i32)
    requires
        0 <= acc <= spec_corrected(v),
        0 <= w < WEIGHT_ONE,
        forall|i: int| 0 <= i < s.len() ==> s[i] == v,
    ensures
        acc <= spec_vu_fold(acc, w, s) <= spec_corrected(v),
    decreases s.len(),
{
    if s.len() > 0 {
        assert(forall|i: int| 0 <= i < s.drop_last().len() ==> s.drop_last()[i] == s[i]);
        lemma_vu_fold_constant_approach(acc, w, s.drop_last(), v);
        assert(s.last() == v);
        lemma_corrected_nonneg(v);
        lemma_vu_step_between(spec_vu_fold(acc, w, s.drop_last()), spec_corrected(v), w);
    }
}

/// `pow(b, n) == b * pow(b, n - 1)` for positive exponents.
proof fn lemma_pow_unfold(b: int, n: nat)
    requires
        n >= 1,
    ensures
        pow(b, n) == b * pow(b, (n - 1) as nat),
{
    lemma_pow_adds(b, 1, (n - 1) as nat);
    lemma_pow1(b);
}

/// The decay weight underestimates its defining ratio: `w * (a + c)`
/// never exceeds `WEIGHT_ONE * a`, where `a` is the scaled rate.
proof fn lemma_weight_cross_bound(rate: int)
    requires
        rate >= 1,
    ensures
        spec_vu_weight(rate) * (rate * RATE_SCALE as int + DECAY_RATE_SCALED as int) <= WEIGHT_ONE
            as int * (rate * RATE_SCALE as int),
{
    let a = rate * RATE_SCALE as int;
    let c = DECAY_RATE_SCALED as int;
    let big = WEIGHT_ONE as int;
    lemma_mul_inequality(1, rate, RATE_SCALE as int);
    let q = (a * big) / (a + c);
    assert(spec_vu_weight(rate) == q);
    lemma_fundamental_div_mod(a * big, a + c);
    lemma_mod_division_less_than_divisor(a * big, a + c);
    assert((a + c) * q <= a * big);
    lemma_mul_is_commutative(a + c, q);
    lemma_mul_is_commutative(a, big);
}

/// The gap to the corrected amplitude contracts geometrically: folding
/// `n` constant samples from silence leaves a gap `g` with
/// `g * (a + c)^n <= corrected * a^n`, where `a` is the scaled rate and
/// `c` the scaled decay rate.
proof fn lemma_vu_gap_power(rate: int, w: int, s: Seq<i32>, v: i32)
    requires
        rate >= 1,
        w == spec_vu_weight(rate),
        forall|i: int| 0 <= i < s.len() ==> s[i] == v,
    ensures
        (spec_corrected(v) - spec_vu_fold(0, w, s)) * pow(
            rate * RATE_SCALE as int + DECAY_RATE_SCALED as int,
            s.len(),
        ) <= spec_corrected(v) * pow(rate * RATE_SCALE as int, s.len()),
    decreases s.len(),
{
    let a = rate * RATE_SCALE as int;
    let c = DECAY_RATE_SCALED as int;
    let big = WEIGHT_ONE as int;
    let corr = spec_corrected(v);
    lemma_mul_inequality(1, rate, RATE_SCALE as int);
    lemma_corrected_nonneg(v);
    lemma_decay_weight_range(rate);
    lemma_weight_cross_bound(rate);
    if s.len() == 0 {
        lemma_pow0(a + c);
        lemma_pow0(a);
    } else {
        let n = s.len();
        let sd = s.drop_last();
        assert(forall|i: int| 0 <= i < sd.len() ==> sd[i] == s[i]);
        lemma_vu_gap_power(rate, w, sd, v);
        lemma_vu_fold_constant_approach(0, w, sd, v);
        assert(s.last() == v);
        let f_prev = spec_vu_fold(0, w, sd);
        let g_prev = corr - f_prev;
        let g = corr - spec_vu_fold(0, w, s);
        assert(g == (g_prev * w) / big);
        lemma_fundamental_div_mod(g_prev * w, big);
        lemma_mod_division_less_than_divisor(g_prev * w, big);
        assert(g * big <= g_prev * w);
        lemma_mul_nonnegative(g_prev, w);
        lemma_div_pos_is_pos(g_prev * w, big);
        assert(g * (a + c) <= g_prev * a) by (nonlinear_arith)
            requires
                g * big <= g_prev * w,
                w * (a + c) <= big * a,
                0 <= g_prev,
                0 <= g,
                0 < a + c,
                0 < big,
                0 <= w,
        ;
        let p_prev = pow(a + c, (n - 1) as nat);
        let q_prev = pow(a, (n - 1) as nat);
        lemma_pow_unfold(a + c, n);
        lemma_pow_unfold(a, n);
        lemma_pow_positive(a + c, (n - 1) as nat);
        lemma_pow_positive(a, (n - 1) as nat);
        assert(g * ((a + c) * p_prev) <= corr * (a * q_prev)) by (nonlinear_arith)
            requires
                g * (a + c) <= g_prev * a,
                g_prev * p_prev <= corr * q_prev,
                0 < p_prev,
                0 < q_prev,
                0 < a,
                0 <= g,
                0 <= g_prev,
                0 <= corr,
        ;
    }
}

/// A second-order binomial lower bound:
/// `(x + y)^n >= x^n + n*y*x^(n-1) + (n*(n-1)/2)*y^2*x^(n-2)`,
/// stated doubled to stay in integers.
#[verifier::rlimit(20)]
proof fn lemma_pow_binomial_two(x: int, y: int, n: nat)
    requires
        x > 0,
        y >= 0,
        n >= 2,
    ensures
        2 * pow(x + y, n) >= 2 * pow(x, n) + 2 * n * y * pow(x, (n - 1) as nat) + n * (n - 1) * y
            * y * pow(x, (n - 2) as nat),
    decreases n,
{
    if n == 2 {
        lemma_pow_unfold(x + y, 2);
        lemma_pow_unfold(x + y, 1);
        lemma_pow0(x + y);
        lemma_pow_unfold(x, 2);
        lemma_pow_unfold(x, 1);
        lemma_pow0(x);
        assert(2 * ((x + y) * ((x + y) * 1)) >= 2 * (x * (x * 1)) + 2 * 2 * y * (x * 1) + 2 * 1 * y
            * y * 1) by (nonlinear_arith)
            requires
                y >= 0,
        ;
    } else {
        let m = (n - 1) as nat;
        lemma_pow_binomial_two(x, y, m);
        let p1 = pow(x, (n - 1) as nat);
        let p2 = pow(x, (n - 2) as nat);
        let p3 = pow(x, (n - 3) as nat);
        let s = pow(x + y, m);
        lemma_pow_unfold(x + y, n);
        lemma_pow_unfold(x, n);
        lemma_pow_unfold(x, (n - 1) as nat);
        lemma_pow_unfold(x, (n - 2) as nat);
        lemma_pow_positive(x, (n - 3) as nat);
        lemma_pow_positive(x, (n - 2) as nat);
        // Named monomials keep every algebraic step small.
        let u1 = y * p1;
        let u2 = y * (y * p2);
        let u3 = y * (y * (y * p3));
        let v1 = y * p2;
        let v2 = y * (y * p3);
        let w2 = m * (m - 1);
        let wn = n * (n - 1);
        assert(2 * m * y * p2 == 2 * m * v1) by (nonlinear_arith)
            requires
                v1 == y * p2,
        ;
        assert(m * (m - 1) * y * y * p3 == w2 * v2) by (nonlinear_arith)
            requires
                w2 == m * (m - 1),
                v2 == y * (y * p3),
        ;
        let lower = 2 * p1 + 2 * m * v1 + w2 * v2;
        assert(2 * s >= lower);
        lemma_mul_inequality(lower, 2 * s, x + y);
        assert((2 * s) * (x + y) == 2 * pow(x + y, n)) by (nonlinear_arith)
            requires
                pow(x + y, n) == (x + y) * s,
        ;
        assert(x * v1 == u1) by (nonlinear_arith)
            requires
                p1 == x * p2,
                u1 == y * p1,
                v1 == y * p2,
        ;
        assert(x * v2 == u2) by (nonlinear_arith)
            requires
                p2 == x * p3,
                u2 == y * (y * p2),
                v2 == y * (y * p3),
        ;
        assert(y * v1 == u2) by (nonlinear_arith)
            requires
                u2 == y * (y * p2),
                v1 == y * p2,
        ;
        assert(y * v2 == u3) by (nonlinear_arith)
            requires
                u3 == y * (y * (y * p3)),
                v2 == y * (y * p3),
        ;
        assert(lower * (x + y) == lower * x + lower * y) by (nonlinear_arith);
        assert(lower * x == 2 * (x * p1) + 2 * (m * (x * v1)) + w2 * (x * v2)) by (nonlinear_arith)
            requires
                lower == 2 * p1 + 2 * m * v1 + w2 * v2,
        ;
        assert(lower * y == 2 * (y * p1) + 2 * (m * (y * v1)) + w2 * (y * v2)) by (nonlinear_arith)
            requires
                lower == 2 * p1 + 2 * m * v1 + w2 * v2,
        ;
        assert(lower * (x + y) == 2 * (x * p1) + 2 * (m * u1) + w2 * u2 + 2 * u1 + 2 * (m * u2)
            + w2 * u3);
        assert(2 * (x * p1) + 2 * (m * u1) + w2 * u2 + 2 * u1 + 2 * (m * u2) + w2 * u3 == 2 * pow(
            x,
            n,
        ) + 2 * n * u1 + wn * u2 + w2 * u3) by (nonlinear_arith)
            requires
                pow(x, n) == x * p1,
                w2 == m * (m - 1),
                wn == n * (n - 1),
                m == n - 1,
        ;
        assert(w2 * u3 >= 0) by (nonlinear_arith)
            requires
                w2 == m * (m - 1),
                m >= 2,
                u3 == y * (y * (y * p3)),
                y >= 0,
                p3 > 0,
        ;
        assert(2 * n * y * pow(x, (n - 1) as nat) == 2 * n * u1) by (nonlinear_arith)
            requires
                u1 == y * p1,
                p1 == pow(x, (n - 1) as nat),
        ;
        assert(n * (n - 1) * y * y * pow(x, (n - 2) as nat) == wn * u2) by (nonlinear_arith)
            requires
                wn == n * (n - 1),
                u2 == y * (y * p2),
                p2 == pow(x, (n - 2) as nat),
        ;
        assert(lower * (x + y) == 2 * pow(x, n) + 2 * n * u1 + wn * u2 + w2 * u3);
    }
}

/// For any admissible rise window — at least `0.3 * rate` samples — the
/// scaled-rate powers satisfy `10000 * a^n <= 1087 * (a + c)^n`: the
/// geometric residue after the rise time is at most `1087/10000` of the
/// starting gap. Holds for every positive rate except 2 and 3, whose
/// one-sample window is too coarse.
#[verifier::rlimit(20)]
proof fn lemma_rise_ratio(rate: int, n: nat)
    requires
        rate >= 1,
        rate != 2,
        rate != 3,
        10 * n >= 3 * rate,
    ensures
        10_000 * pow(rate * RATE_SCALE as int, n) <= 1087 * pow(
            rate * RATE_SCALE as int + DECAY_RATE_SCALED as int,
            n,
        ),
{
    let a = rate * RATE_SCALE as int;
    let c = DECAY_RATE_SCALED as int;
    lemma_mul_inequality(1, rate, RATE_SCALE as int);
    if n == 1 {
        assert(rate == 1);
        lemma_pow1(a);
        lemma_pow1(a + c);
    } else {
        assert(n >= 2);
        lemma_pow_binomial_two(a, c, n);
        let p0 = pow(a, (n - 2) as nat);
        let p1 = pow(a, (n - 1) as nat);
        let pn = pow(a, n);
        let pc = pow(a + c, n);
        lemma_pow_unfold(a, n);
        lemma_pow_unfold(a, (n - 1) as nat);
        lemma_pow_positive(a, (n - 2) as nat);
        let q = n * a;
        let r2 = rate * rate;
        let nm = n * (n - 1);
        // The linear term: 10 * q >= 30000 * r2.
        lemma_mul_inequality(3 * rate, 10 * (n as int), a);
        assert((3 * rate) * a == 30_000 * r2) by (nonlinear_arith)
            requires
                a == rate * 10_000,
                r2 == rate * rate,
        ;
        assert((10 * n) * a == 10 * q) by (nonlinear_arith)
            requires
                q == n * a,
        ;
        // The quadratic term: 200 * nm >= 9 * r2.
        lemma_mul_inequality(3 * rate, 10 * (n as int), 3 * rate);
        lemma_mul_inequality(3 * rate, 10 * (n as int), 10 * (n as int));
        assert((3 * rate) * (3 * rate) == 9 * r2) by (nonlinear_arith)
            requires
                r2 == rate * rate,
        ;
        assert(2 * nm >= n * n && (10 * n) * (10 * n) == 100 * (n * n)) by (nonlinear_arith)
            requires
                nm == n * (n - 1),
                n >= 2,
        ;
        // The scalar rise bound, linear in q, nm and r2.
        assert(a * a == 100_000_000 * r2) by (nonlinear_arith)
            requires
                a == rate * 10_000,
                r2 == rate * rate,
        ;
        assert(1087 * (2 * (c * q) + nm * (c * c)) >= 17_826 * (a * a));
        // Scale by the positive power p0 and fold the powers back in.
        lemma_mul_inequality(17_826 * (a * a), 1087 * (2 * (c * q) + nm * (c * c)), p0);
        assert((17_826 * (a * a)) * p0 == 17_826 * pn) by (nonlinear_arith)
            requires
                pn == a * p1,
                p1 == a * p0,
        ;
        assert((1087 * (2 * (c * q) + nm * (c * c))) * p0 == 1087 * (2 * n * c * p1 + n * (n - 1)
            * c * c * p0)) by (nonlinear_arith)
            requires
                q == n * a,
                nm == n * (n - 1),
                p1 == a * p0,
        ;
        assert(1087 * (2 * n * c * p1 + n * (n - 1) * c * c * p0) >= 17_826 * pn);
        assert(2 * pc >= 2 * pn + 2 * n * c * p1 + n * (n - 1) * c * c * p0);
        assert(1087 * (2 * pc) >= 1087 * (2 * pn) + 1087 * (2 * n * c * p1 + n * (n - 1) * c * c
            * p0));
        assert(10_000 * (2 * pn) <= 1087 * (2 * pc));
    }
}

/// A constant-amplitude input sustained for the configured rise time —
/// at least `0.3 * rate` samples — drives the loudness reading from
/// silence to within 1 dB of the corrected true amplitude: the reading
/// never exceeds the corrected amplitude, and falls short of it by at
/// most `1087/10000` of it (since `8913/10000 > 10^(-1/20)`, a reading
/// of at least `8913/10000` of the target is within -1 dB of it). The bound
/// holds for every positive sampling rate except 2 and 3, whose
/// one-sample rise window is too coarse for this decay weight.
pub proof fn lemma_vu_rise_time_convergence(rate: int, w: int, s: Seq<i32>, v: i32)
    requires
        rate >= 1,
        rate != 2,
        rate != 3,
        w == spec_vu_weight(rate),
        10 * s.len() >= 3 * rate,
        forall|i: int| 0 <= i < s.len() ==> s[i] == v,
    ensures
        0 <= spec_vu_fold(0, w, s) <= spec_corrected(v),
        10_000 * (spec_corrected(v) - spec_vu_fold(0, w, s)) <= 1087 * spec_corrected(v),
{
    let a = rate * RATE_SCALE as int;
    let c = DECAY_RATE_SCALED as int;
    let n = s.len();
    let corr = spec_corrected(v);
    lemma_mul_inequality(1, rate, RATE_SCALE as int);
    lemma_corrected_nonneg(v);
    lemma_decay_weight_range(rate);
    lemma_vu_fold_constant_approach(0, w, s, v);
    lemma_vu_gap_power(rate, w, s, v);
    lemma_rise_ratio(rate, n);
    let g = corr - spec_vu_fold(0, w, s);
    let pn = pow(a + c, n);
    let qn = pow(a, n);
    lemma_pow_positive(a + c, n);
    lemma_pow_positive(a, n);
    assert(10_000 * g <= 1087 * corr) by (nonlinear_arith)
        requires
            g * pn <= corr * qn,
            10_000 * qn <= 1087 * pn,
            pn > 0,
            qn > 0,
            corr >= 0,
            g >= 0,
    ;
}

/// If one fraction's cross products are ordered, so are the quotients.
proof fn lemma_div_frac_le(n1: int, d1: int, n2: int, d2: int)
    requires
        0 < d1,
        0 < d2,
        n1 * d2 <= n2 * d1,
    ensures
        n1 / d1 <= n2 / d2,
{
    let q1 = n1 / d1;
    lemma_fundamental_div_mod(n1, d1);
    lemma_mod_division_less_than_divisor(n1, d1);
    assert(d1 * q1 <= n1);
    assert(q1 * d2 <= n2) by (nonlinear_arith)
        requires
            0 < d1,
            0 < d2,
            d1 * q1 <= n1,
            n1 * d2 <= n2 * d1,
    ;
    lemma_div_is_ordered(q1 * d2, n2, d2);
    lemma_div_multiples_vanish(q1, d2);
    lemma_mul_is_commutative(q1, d2);
    assert((q1 * d2) / d2 == q1);
}

/// The decay weight lies strictly between 0 and 1 (in Q32.32: between
/// 1 and `WEIGHT_ONE`) for every positive sampling rate.
pub proof fn lemma_decay_weight_range(rate: int)
    requires
        rate >= 1,
    ensures
        1 <= spec_vu_weight(rate) < WEIGHT_ONE,
{
    let a = rate * RATE_SCALE as int;
    let num = a * WEIGHT_ONE as int;
    let den = a + DECAY_RATE_SCALED as int;
    assert(den <= num && 0 < den && num < den * WEIGHT_ONE) by (nonlinear_arith)
        requires
            rate >= 1,
            a == rate * RATE_SCALE as int,
            num == a * WEIGHT_ONE as int,
            den == a + DECAY_RATE_SCALED as int,
            RATE_SCALE == 10_000u64,
            DECAY_RATE_SCALED == 153_506u64,
            WEIGHT_ONE == 0x1_0000_0000u64,
    ;
    lemma_div_by_self(den);
    lemma_div_is_ordered(den, num, den);
    lemma_multiply_divide_lt(num, den, WEIGHT_ONE as int);
}

/// The decay weight is monotone in the sampling rate: a higher rate
/// gives a weight at least as close to 1 (slower per-sample decay).
pub proof fn lemma_decay_weight_monotone(rate1: int, rate2: int)
    requires
        1 <= rate1 <= rate2,
    ensures
        spec_vu_weight(rate1) <= spec_vu_weight(rate2),
{
    let a1 = rate1 * RATE_SCALE as int;
    let a2 = rate2 * RATE_SCALE as int;
    let n1 = a1 * WEIGHT_ONE as int;
    let n2 = a2 * WEIGHT_ONE as int;
    let d1 = a1 + DECAY_RATE_SCALED as int;
    let d2 = a2 + DECAY_RATE_SCALED as int;
    assert(0 < d1 && 0 < d2 && n1 * d2 <= n2 * d1) by (nonlinear_arith)
        requires
            1 <= rate1 <= rate2,
            a1 == rate1 * RATE_SCALE as int,
            a2 == rate2 * RATE_SCALE as int,
            n1 == a1 * WEIGHT_ONE as int,
            n2 == a2 * WEIGHT_ONE as int,
            d1 == a1 + DECAY_RATE_SCALED as int,
            d2 == a2 + DECAY_RATE_SCALED as int,
            RATE_SCALE == 10_000u64,
            DECAY_RATE_SCALED == 153_506u64,
            WEIGHT_ONE == 0x1_0000_0000u64,
    ;
    lemma_div_frac_le(n1, d1, n2, d2);
}

} // verus!
