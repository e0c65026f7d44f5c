//! Sample arithmetic shared by the capture engine and its callers: mixing
//! interleaved frames down to mono, and root-mean-square levels in fixed point.

use vstd::prelude::*;

verus! {

/// The square of full scale for 16-bit samples: 32768 * 32768.
pub const FULL_SCALE_SQ: u128 = 1073741824;

/// Levels are reported in units of 1 / 100_000 of full scale.
pub const LEVEL_SCALE: u64 = 100_000;

/// Gain applied to a block's root-mean-square for the level meter: speech
/// sits around 0.01 to 0.05 of full scale.
pub const LEVEL_GAIN: u64 = 50;

/// Sum of the samples of `s`, as a mathematical integer.
pub open spec fn sum_samples(s: Seq<i16>) -> int
    decreases s.len(),
{
    if s.len() == 0 {
        0
    } else {
        sum_samples(s.drop_last()) + s.last() as int
    }
}

/// Sum of the squares of the samples of `s`.
pub open spec fn sum_squares(s: Seq<i16>) -> int
    decreases s.len(),
{
    if s.len() == 0 {
        0
    } else {
        sum_squares(s.drop_last()) + (s.last() as int) * (s.last() as int)
    }
}

/// `r` level units do not exceed the root-mean-square of `s`:
/// `(r / LEVEL_SCALE)^2 <= mean(x^2) / FULL_SCALE_SQ`, cleared of divisions.
pub open spec fn rms_at_least(s: Seq<i16>, r: int) -> bool {
    r * r * (s.len() * FULL_SCALE_SQ) <= (LEVEL_SCALE * LEVEL_SCALE) * sum_squares(s)
}

/// `r` is the root-mean-square of `s` relative to full scale, in level units,
/// rounded down: `r == floor(LEVEL_SCALE * sqrt(mean(x^2) / 32768^2))`.
/// The empty block has level 0.
pub open spec fn is_rms(s: Seq<i16>, r: int) -> bool {
    if s.len() == 0 {
        r == 0
    } else {
        0 <= r && rms_at_least(s, r) && !rms_at_least(s, r + 1)
    }
}

/// The meter value of a block whose root-mean-square is `rms`: amplified by
/// `gain` and clamped to full scale.
pub open spec fn meter_value(rms: int, gain: int) -> int {
    if gain * rms < LEVEL_SCALE {
        gain * rms
    } else {
        LEVEL_SCALE as int
    }
}

/// Integer division rounded toward zero, as Rust's `/` rounds.
pub open spec fn div_toward_zero(a: int, d: int) -> int {
    if a >= 0 {
        a / d
    } else {
        -((-a) / d)
    }
}

/// `a / d` rounded to the nearest integer, halves away from zero (`d > 0`).
pub open spec fn div_round(a: int, d: int) -> int {
    if a >= 0 {
        (2 * a + d) / (2 * d)
    } else {
        -((-2 * a + d) / (2 * d))
    }
}

/// The `k`-th frame of interleaved samples with `channels` channels.
pub open spec fn frame(s: Seq<i16>, channels: nat, k: int) -> Seq<i16> {
    s.subrange(k * channels, k * channels + channels)
}

/// The mono sample of the `k`-th frame: the average of its channels, rounded
/// to the nearest integer, halves away from zero.
pub open spec fn mono_sample(s: Seq<i16>, channels: nat, k: int) -> int {
    div_round(sum_samples(frame(s, channels, k)), channels as int)
}

proof fn lemma_sum_squares_bounds(s: Seq<i16>)
    ensures
        0 <= sum_squares(s) <= s.len() * FULL_SCALE_SQ,
    decreases s.len(),
{
    if s.len() > 0 {
        lemma_sum_squares_bounds(s.drop_last());
        let x = s.last() as int;
        assert(0 <= x * x <= 1073741824) by (nonlinear_arith)
            requires
                -32768 <= x <= 32767,
        ;
    }
}

proof fn lemma_sum_squares_push(s: Seq<i16>, i: int)
    requires
        0 <= i < s.len(),
    ensures
        sum_squares(s.subrange(0, i + 1)) == sum_squares(s.subrange(0, i)) + (s[i] as int) * (
        s[i] as int),
{
    assert(s.subrange(0, i + 1).drop_last() =~= s.subrange(0, i));
}

proof fn lemma_sum_samples_push(s: Seq<i16>, a: int, b: int)
    requires
        0 <= a <= b < s.len(),
    ensures
        sum_samples(s.subrange(a, b + 1)) == sum_samples(s.subrange(a, b)) + s[b] as int,
{
    assert(s.subrange(a, b + 1).drop_last() =~= s.subrange(a, b));
}

proof fn lemma_sum_squares_constant(s: Seq<i16>, sq: int)
    requires
        forall|i: int| 0 <= i < s.len() ==> (#[trigger] s[i] as int) * (s[i] as int) == sq,
    ensures
        sum_squares(s) == s.len() * sq,
    decreases s.len(),
{
    if s.len() > 0 {
        assert forall|i: int| 0 <= i < s.drop_last().len() implies (#[trigger] s.drop_last()[i] as int)
            * (s.drop_last()[i] as int) == sq by {
            assert(s.drop_last()[i] == s[i]);
        }
        lemma_sum_squares_constant(s.drop_last(), sq);
        assert(s.last() == s[s.len() - 1]);
        assert((s.len() - 1) * sq + sq == s.len() * sq) by (nonlinear_arith);
    }
}

/// A block of silence (every sample zero) has root-mean-square level 0.
pub proof fn lemma_silence_has_zero_rms(s: Seq<i16>, r: int)
    requires
        forall|i: int| 0 <= i < s.len() ==> #[trigger] s[i] == 0,
        is_rms(s, r),
    ensures
        r == 0,
{
    assert forall|i: int| 0 <= i < s.len() implies (#[trigger] s[i] as int) * (s[i] as int) == 0 by {
        assert(s[i] == 0);
    }
    lemma_sum_squares_constant(s, 0);
    if s.len() > 0 {
        assert(r * r * (s.len() * FULL_SCALE_SQ) <= 0);
        assert(r == 0) by (nonlinear_arith)
            requires
                r >= 0,
                s.len() > 0,
                r * r * (s.len() * 1073741824) <= 0,
        ;
    }
}

/// A block in which every sample swings to the limit, +32767 or -32767, has
/// root-mean-square 32767 / 32768 of full scale: 99_996 level units, within
/// 4 units of full scale.
pub proof fn lemma_full_swing_rms(s: Seq<i16>, r: int)
    requires
        s.len() > 0,
        forall|i: int| 0 <= i < s.len() ==> #[trigger] s[i] == 32767 || s[i] == -32767,
        is_rms(s, r),
    ensures
        r == 99_996,
        LEVEL_SCALE - 4 <= r < LEVEL_SCALE,
{
    let sq: int = 1073676289;
    assert forall|i: int| 0 <= i < s.len() implies (#[trigger] s[i] as int) * (s[i] as int) == sq by {
        assert(s[i] == 32767 || s[i] == -32767);
    }
    lemma_sum_squares_constant(s, sq);
    let n = s.len() as int;
    assert(r <= 99_996) by (nonlinear_arith)
        requires
            n > 0,
            r >= 0,
            r * r * (n * 1073741824) <= 10_000_000_000 * (n * 1073676289),
    {
        if r >= 99_997 {
            assert(r * r >= 99_997 * 99_997);
            assert(r * r * (n * 1073741824) >= 99_997 * 99_997 * (n * 1073741824));
        }
    }
    assert(r >= 99_996) by (nonlinear_arith)
        requires
            n > 0,
            r >= 0,
            (r + 1) * (r + 1) * (n * 1073741824) > 10_000_000_000 * (n * 1073676289),
    {
        if r <= 99_995 {
            assert((r + 1) * (r + 1) <= 99_996 * 99_996);
            assert((r + 1) * (r + 1) * (n * 1073741824) <= 99_996 * 99_996 * (n * 1073741824));
        }
    }
}

/// Root-mean-square of a block of samples, in level units rounded down.
pub fn rms_level(samples: &[i16]) -> (r: u64)
    ensures
        is_rms(samples@, r as int),
        r <= LEVEL_SCALE,
{
    let n = samples.len();
    if n == 0 {
        return 0;
    }
    let mut sum: u128 = 0;
    let mut i: usize = 0;
    while i < n
        invariant
            n == samples@.len(),
            i <= n,
            sum == sum_squares(samples@.subrange(0, i as int)),
            sum <= i * FULL_SCALE_SQ,
        decreases n - i,
    {
        let x = samples[i] as i64;
        assert(0 <= x * x <= 1073741824) by (nonlinear_arith)
            requires
                -32768 <= x <= 32767,
        ;
        proof {
            lemma_sum_squares_push(samples@, i as int);
        }
        sum = sum + (x * x) as u128;
        i = i + 1;
    }
    assert(samples@.subrange(0, n as int) =~= samples@);
    let denom: u128 = n as u128 * FULL_SCALE_SQ;
    assert(sum <= 10_000_000_000u128 * denom);
    let target: u128 = 10_000_000_000u128 * sum;
    let mut lo: u64 = 0;
    let mut hi: u64 = LEVEL_SCALE + 1;
    assert(0 * 0 * denom == 0) by (nonlinear_arith);
    assert(100001 * 100001 * denom > target) by (nonlinear_arith)
        requires
            target == 10_000_000_000 * sum,
            sum <= denom,
            denom > 0,
    ;
    while hi - lo > 1
        invariant
            lo < hi <= LEVEL_SCALE + 1,
            0 < denom <= 19807040628566084398385987584u128,
            (lo as int) * (lo as int) * denom <= target,
            (hi as int) * (hi as int) * denom > target,
        decreases hi - lo,
    {
        let mid: u64 = lo + (hi - lo) / 2;
        let m = mid as u128;
        assert(m * m <= 100001 * 100001) by (nonlinear_arith)
            requires
                m <= 100001,
        ;
        assert(m * m * denom <= 100001 * 100001 * 19807040628566084398385987584) by (
        nonlinear_arith)
            requires
                m <= 100001,
                denom <= 19807040628566084398385987584u128,
        ;
        if m * m * denom <= target {
            lo = mid;
        } else {
            hi = mid;
        }
    }
    lo
}

/// The meter value of a block whose root-mean-square is `rms` level units:
/// `gain * rms`, clamped to `LEVEL_SCALE`.
pub fn meter_level(rms: u64, gain: u64) -> (level: u64)
    requires
        rms <= LEVEL_SCALE,
    ensures
        level == meter_value(rms as int, gain as int),
        level <= LEVEL_SCALE,
{
    if gain >= LEVEL_SCALE {
        if rms == 0 {
            0
        } else {
            assert(gain * rms >= gain) by (nonlinear_arith)
                requires
                    rms >= 1,
            ;
            LEVEL_SCALE
        }
    } else {
        assert(gain * rms <= LEVEL_SCALE * LEVEL_SCALE) by (nonlinear_arith)
            requires
                gain < LEVEL_SCALE,
                rms <= LEVEL_SCALE,
        ;
        let scaled = gain * rms;
        if scaled < LEVEL_SCALE {
            scaled
        } else {
            LEVEL_SCALE
        }
    }
}

/// Mixes interleaved samples with `channels` channels down to mono: one
/// sample per whole frame, the average of the frame rounded to the nearest
/// integer (halves away from zero). A
/// trailing partial frame is dropped.
pub fn downmix_to_mono(data: &[i16], channels: usize) -> (mono: Vec<i16>)
    requires
        channels >= 1,
    ensures
        mono@.len() == data@.len() as int / (channels as int),
        forall|k: int|
            0 <= k < mono@.len() ==> #[trigger] mono@[k] as int == mono_sample(
                data@,
                channels as nat,
                k,
            ),
{
    let n: usize = data.len();
    let frames: usize = n / channels;
    let mut mono: Vec<i16> = Vec::with_capacity(frames);
    let mut k: usize = 0;
    while k < frames
        invariant
            channels >= 1,
            n == data@.len(),
            frames == data@.len() as int / (channels as int),
            k <= frames,
            mono@.len() == k,
            forall|j: int|
                0 <= j < k ==> #[trigger] mono@[j] as int == mono_sample(data@, channels as nat, j),
        decreases frames - k,
    {
        assert((k as int) * (channels as int) + channels <= data@.len()) by (nonlinear_arith)
            requires
                k < frames,
                frames == data@.len() as int / (channels as int),
                channels >= 1,
        {
            assert(frames * channels <= data@.len());
            assert((k + 1) * channels <= frames * channels);
        }
        assert(k * channels <= n);
        let start: usize = k * channels;
        let mut acc: i128 = 0;
        let mut j: usize = 0;
        while j < channels
            invariant
                start == (k as int) * (channels as int),
                start + channels <= data@.len(),
                n == data@.len(),
                j <= channels,
                acc == sum_samples(data@.subrange(start as int, start + j)),
                -32768 * (j as int) <= acc <= 32767 * (j as int),
            decreases channels - j,
        {
            proof {
                lemma_sum_samples_push(data@, start as int, start + j);
            }
            assert(start + j < n);
            acc = acc + data[start + j] as i128;
            j = j + 1;
        }
        let mag: u128 = if acc >= 0 {
            acc as u128
        } else {
            (-acc) as u128
        };
        let q: u128 = (2 * mag + channels as u128) / (2 * channels as u128);
        assert(acc >= 0 ==> q <= 32767) by (nonlinear_arith)
            requires
                q == (2 * mag + channels) / (2 * (channels as int)),
                acc >= 0 ==> mag == acc,
                acc <= 32767 * channels,
                channels >= 1,
        {
            if acc >= 0 {
                assert(q * (2 * channels) <= 2 * mag + channels);
                assert(2 * mag + channels < 32768 * (2 * channels));
                assert(q <= 32767);
            }
        }
        assert(acc < 0 ==> q <= 32768) by (nonlinear_arith)
            requires
                q == (2 * mag + channels) / (2 * (channels as int)),
                acc < 0 ==> mag == -acc,
                -32768 * channels <= acc,
                channels >= 1,
        {
            if acc < 0 {
                assert(q * (2 * channels) <= 2 * mag + channels);
                assert(2 * mag + channels < 32769 * (2 * channels));
                assert(q <= 32768);
            }
        }
        let avg: i16 = if acc >= 0 {
            q as i16
        } else {
            (-(q as i128)) as i16
        };
        mono.push(avg);
        k = k + 1;
    }
    mono
}

} // verus!
