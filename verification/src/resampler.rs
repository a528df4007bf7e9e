//! Conversion of interleaved PCM between sample rates and channel counts.
//!
//! A block of `n` frames at `from_hz` becomes `n * to_hz / from_hz` frames at `to_hz`.
//! Output frame `j` stands at position `j * from_hz / to_hz` of the input and is the
//! linear interpolation between the two input frames around that position; past the
//! last input frame the last one is held. Where the channel counts differ, every
//! output channel carries the mean of the input channels: stereo to mono averages,
//! mono to stereo duplicates.
use vstd::arithmetic::div_mod::{
    lemma_div_is_ordered, lemma_fundamental_div_mod, lemma_mod_bound, lemma_multiply_divide_lt,
};
use vstd::arithmetic::mul::lemma_mul_upper_bound;
use vstd::prelude::*;

verus! {

/// Number of frames that `frames` frames at `from_hz` come to at `to_hz`.
pub open spec fn resampled_frames(frames: nat, from_hz: u32, to_hz: u32) -> nat {
    frames * (to_hz as nat) / (from_hz as nat)
}

/// Number of samples that a block of `len` samples comes to.
pub open spec fn resampled_len(
    len: nat,
    from_hz: u32,
    from_channels: u16,
    to_hz: u32,
    to_channels: u16,
) -> nat {
    resampled_frames(len / (from_channels as nat), from_hz, to_hz) * (to_channels as nat)
}

/// The value `numerator / denominator` of the way from `first` to `second`, rounded
/// toward `first`.
pub open spec fn lerp(first: i16, second: i16, numerator: int, denominator: int) -> i16 {
    if second >= first {
        (first + (second - first) * numerator / denominator) as i16
    } else {
        (first - (first - second) * numerator / denominator) as i16
    }
}

/// Sum of the first `n` samples from `base` on.
pub open spec fn run_sum(samples: Seq<i16>, base: int, n: nat) -> int
    decreases n,
{
    if n == 0 {
        0
    } else {
        run_sum(samples, base, (n - 1) as nat) + samples[base + n - 1]
    }
}

/// `sum / n`, rounded toward zero.
pub open spec fn mean(sum: int, n: int) -> int {
    if sum >= 0 {
        sum / n
    } else {
        -((-sum) / n)
    }
}

/// The mean of the channels of frame `frame`.
pub open spec fn mixdown(samples: Seq<i16>, channels: u16, frame: int) -> i16 {
    mean(run_sum(samples, frame * channels, channels as nat), channels as int) as i16
}

/// What channel `channel` of the target layout hears of input frame `frame`: the
/// channel itself where the layouts agree, and else the mean of the frame.
pub open spec fn channel_sample(
    samples: Seq<i16>,
    from_channels: u16,
    to_channels: u16,
    frame: int,
    channel: int,
) -> i16 {
    if from_channels == to_channels {
        samples[frame * from_channels + channel]
    } else {
        mixdown(samples, from_channels, frame)
    }
}

/// The sample of channel `channel` in output frame `frame`.
pub open spec fn output_sample(
    samples: Seq<i16>,
    from_hz: u32,
    from_channels: u16,
    to_hz: u32,
    to_channels: u16,
    frame: int,
    channel: int,
) -> i16 {
    let frames = samples.len() as int / from_channels as int;
    let position = frame * from_hz;
    let left = position / to_hz as int;
    let right = if left + 1 < frames {
        left + 1
    } else {
        left
    };
    lerp(
        channel_sample(samples, from_channels, to_channels, left, channel),
        channel_sample(samples, from_channels, to_channels, right, channel),
        position % to_hz as int,
        to_hz as int,
    )
}

/// The block `samples`, interleaved in `from_channels` channels at `from_hz`, as it
/// sounds in `to_channels` channels at `to_hz`.
pub open spec fn resample_spec(
    samples: Seq<i16>,
    from_hz: u32,
    from_channels: u16,
    to_hz: u32,
    to_channels: u16,
) -> Seq<i16> {
    Seq::new(
        resampled_len(samples.len(), from_hz, from_channels, to_hz, to_channels),
        |k: int|
            output_sample(
                samples,
                from_hz,
                from_channels,
                to_hz,
                to_channels,
                k / to_channels as int,
                k % to_channels as int,
            ),
    )
}

/// One radio frame of 160 samples at 8 kHz mono is 1920 samples at 48 kHz stereo, and
/// the other way round.
pub proof fn lemma_frame_rate_law(samples: Seq<i16>)
    ensures
        samples.len() == 160 ==> resample_spec(samples, 8000, 1, 48000, 2).len() == 1920,
        samples.len() == 1920 ==> resample_spec(samples, 48000, 2, 8000, 1).len() == 160,
{
}

/// A block resampled to its own rate and channel count is the block.
pub proof fn lemma_same_format_is_identity(samples: Seq<i16>, hz: u32, channels: u16)
    requires
        hz > 0,
        channels > 0,
        samples.len() % (channels as nat) == 0,
    ensures
        resample_spec(samples, hz, channels, hz, channels) == samples,
{
    let out = resample_spec(samples, hz, channels, hz, channels);
    let frames = samples.len() as int / channels as int;
    lemma_fundamental_div_mod(samples.len() as int, channels as int);
    assert(frames * hz / (hz as int) == frames) by (nonlinear_arith)
        requires
            hz > 0,
    ;
    assert(frames * channels == channels * frames) by (nonlinear_arith);
    assert(out.len() == samples.len());
    assert forall|k: int| 0 <= k < out.len() implies out[k] == samples[k] by {
        let f = k / channels as int;
        let c = k % channels as int;
        lemma_fundamental_div_mod(k, channels as int);
        assert(f * channels == channels * f) by (nonlinear_arith);
        assert(f * hz / (hz as int) == f && f * hz % (hz as int) == 0) by (nonlinear_arith)
            requires
                hz > 0,
        ;
        let right = if f + 1 < frames {
            f + 1
        } else {
            f
        };
        let first = samples[f * channels + c];
        let second = samples[right * channels + c];
        assert((second - first) * 0 == 0 && (first - second) * 0 == 0);
        assert(0int / (hz as int) == 0) by (nonlinear_arith)
            requires
                hz > 0,
        ;
        assert(lerp(first, second, 0, hz as int) == first);
    }
    assert(out =~= samples);
}

/// Radio audio that was brought to 48 kHz stereo and back to 8 kHz mono is unchanged:
/// the two directions of the bridge agree on what a sample is.
pub proof fn lemma_there_and_back(samples: Seq<i16>)
    ensures
        resample_spec(resample_spec(samples, 8000, 1, 48000, 2), 48000, 2, 8000, 1) == samples,
{
    let native = resample_spec(samples, 8000, 1, 48000, 2);
    let back = resample_spec(native, 48000, 2, 8000, 1);
    let n = samples.len() as int;
    assert(native.len() == 12 * n);
    assert(back.len() == n);
    assert forall|k: int| 0 <= k < n implies back[k] == samples[k] by {
        // Output frame `k` of the way back stands on frame `6 * k` of the native block,
        // whose two channels both hold sample `k` of the radio block.
        let left = native[12 * k];
        let right = native[12 * k + 1];
        assert(left == output_sample(samples, 8000, 1, 48000, 2, 6 * k, 0));
        assert(right == output_sample(samples, 8000, 1, 48000, 2, 6 * k, 1));
        let after = if k + 1 < n {
            k + 1
        } else {
            k
        };
        reveal_with_fuel(run_sum, 3);
        assert(mixdown(samples, 1, k) == samples[k]);
        assert(mixdown(samples, 1, after) == samples[after]);
        assert((samples[after] - samples[k]) * 0 == 0 && (samples[k] - samples[after]) * 0 == 0);
        assert(lerp(samples[k], samples[after], 0, 48000) == samples[k]);
        assert(left == samples[k]);
        assert(right == samples[k]);
        assert(run_sum(native, 12 * k, 2) == left + right);
        assert(mixdown(native, 2, 6 * k) == samples[k]);
        let mixed = mixdown(native, 2, 6 * k);
        let next = if 6 * k + 1 < 6 * n {
            6 * k + 1
        } else {
            6 * k
        };
        let beyond = mixdown(native, 2, next);
        assert((beyond - mixed) * 0 == 0 && (mixed - beyond) * 0 == 0);
        assert(lerp(mixed, beyond, 0, 8000) == mixed);
        assert(back[k] == output_sample(native, 48000, 2, 8000, 1, k, 0));
    }
    assert(back =~= samples);
}

/// The mean of `n` samples is a sample.
proof fn lemma_mean_bounds(sum: int, n: int)
    requires
        n > 0,
        -32768 * n <= sum <= 32767 * n,
    ensures
        -32768 <= mean(sum, n) <= 32767,
{
    if sum >= 0 {
        lemma_div_is_ordered(sum, 32767 * n, n);
        assert(32767 * n / n == 32767) by (nonlinear_arith)
            requires
                n > 0,
        ;
        assert(sum / n >= 0) by (nonlinear_arith)
            requires
                sum >= 0,
                n > 0,
        ;
    } else {
        lemma_div_is_ordered(-sum, 32768 * n, n);
        assert(32768 * n / n == 32768) by (nonlinear_arith)
            requires
                n > 0,
        ;
        assert((-sum) / n >= 0) by (nonlinear_arith)
            requires
                sum < 0,
                n > 0,
        ;
    }
}

/// A part of a span is no longer than the span.
proof fn lemma_step_bounds(delta: int, numerator: int, denominator: int)
    requires
        0 <= delta,
        0 <= numerator < denominator,
    ensures
        0 <= delta * numerator / denominator <= delta,
        0 <= delta * numerator <= delta * denominator,
{
    assert(0 <= delta * numerator <= delta * denominator) by (nonlinear_arith)
        requires
            0 <= delta,
            0 <= numerator < denominator,
    ;
    lemma_div_is_ordered(delta * numerator, delta * denominator, denominator);
    assert(delta * denominator / denominator == delta) by (nonlinear_arith)
        requires
            denominator > 0,
    ;
    assert(delta * numerator / denominator >= 0) by (nonlinear_arith)
        requires
            0 <= delta * numerator,
            denominator > 0,
    ;
}

/// Linear interpolation between two samples.
fn interpolate(first: i16, second: i16, numerator: u32, denominator: u32) -> (r: i16)
    requires
        numerator < denominator,
    ensures
        r == lerp(first, second, numerator as int, denominator as int),
{
    if second >= first {
        let delta: u64 = (second as i32 - first as i32) as u64;
        proof {
            lemma_step_bounds(delta as int, numerator as int, denominator as int);
            assert(delta * denominator <= 0xffff * 0xffff_ffff) by (nonlinear_arith)
                requires
                    0 <= delta <= 0xffff,
                    0 <= denominator <= 0xffff_ffff,
            ;
        }
        let step: u64 = delta * (numerator as u64) / (denominator as u64);
        (first as i32 + step as i32) as i16
    } else {
        let delta: u64 = (first as i32 - second as i32) as u64;
        proof {
            lemma_step_bounds(delta as int, numerator as int, denominator as int);
            assert(delta * denominator <= 0xffff * 0xffff_ffff) by (nonlinear_arith)
                requires
                    0 <= delta <= 0xffff,
                    0 <= denominator <= 0xffff_ffff,
            ;
        }
        let step: u64 = delta * (numerator as u64) / (denominator as u64);
        (first as i32 - step as i32) as i16
    }
}

/// The mean of the channels of one frame.
fn mix_frame(samples: &[i16], channels: u16, frame: usize) -> (r: i16)
    requires
        channels > 0,
        (frame + 1) * channels <= samples@.len(),
    ensures
        r == mixdown(samples@, channels, frame as int),
{
    let width: usize = channels as usize;
    let total: usize = samples.len();
    assert(frame * width + width == (frame + 1) * channels) by (nonlinear_arith)
        requires
            width == channels,
    ;
    assert(frame * width >= 0) by (nonlinear_arith)
        requires
            frame >= 0,
            width >= 0,
    ;
    let base: usize = frame * width;
    let mut sum: i64 = 0;
    let mut c: usize = 0;
    while c < width
        invariant
            c <= width,
            width == channels,
            base + width <= samples@.len() <= usize::MAX,
            sum == run_sum(samples@, base as int, c as nat),
            -32768 * c <= sum <= 32767 * c,
        decreases width - c,
    {
        sum = sum + samples[base + c] as i64;
        c = c + 1;
    }
    proof {
        lemma_mean_bounds(sum as int, width as int);
    }
    if sum >= 0 {
        ((sum as u64) / (width as u64)) as i16
    } else {
        let magnitude: u64 = ((0 - sum) as u64) / (width as u64);
        (0 - magnitude as i64) as i16
    }
}

/// What channel `channel` of the target layout hears of input frame `frame`.
fn sample_for(
    samples: &[i16],
    from_channels: u16,
    to_channels: u16,
    frame: usize,
    channel: u16,
) -> (r: i16)
    requires
        from_channels > 0,
        channel < to_channels,
        (frame + 1) * from_channels <= samples@.len(),
    ensures
        r == channel_sample(samples@, from_channels, to_channels, frame as int, channel as int),
{
    if from_channels == to_channels {
        let total: usize = samples.len();
        assert(frame * from_channels + from_channels == (frame + 1) * from_channels)
            by (nonlinear_arith);
        assert(frame * from_channels >= 0) by (nonlinear_arith)
            requires
                frame >= 0,
                from_channels >= 0,
        ;
        samples[frame * (from_channels as usize) + (channel as usize)]
    } else {
        mix_frame(samples, from_channels, frame)
    }
}

/// Output frame `frame` lies over an input frame.
proof fn lemma_position_in_block(frames: int, from_hz: int, to_hz: int, frame: int)
    requires
        from_hz > 0,
        to_hz > 0,
        0 <= frame < frames * to_hz / from_hz,
    ensures
        0 <= frame * from_hz,
        0 <= frame * from_hz / to_hz < frames,
        0 <= frame * from_hz % to_hz < to_hz,
{
    let total = frames * to_hz;
    lemma_fundamental_div_mod(total, from_hz);
    lemma_mod_bound(total, from_hz);
    assert(from_hz * (frame + 1) <= from_hz * (total / from_hz)) by (nonlinear_arith)
        requires
            from_hz > 0,
            frame + 1 <= total / from_hz,
    ;
    assert(from_hz * (frame + 1) == frame * from_hz + from_hz) by (nonlinear_arith);
    assert(frame * from_hz < frames * to_hz);
    assert(0 <= frame * from_hz) by (nonlinear_arith)
        requires
            0 <= frame,
            0 < from_hz,
    ;
    lemma_multiply_divide_lt(frame * from_hz, to_hz, frames);
    assert(0 <= frame * from_hz / to_hz) by (nonlinear_arith)
        requires
            0 <= frame * from_hz,
            0 < to_hz,
    ;
    lemma_mod_bound(frame * from_hz, to_hz);
}

/// Converts a block of interleaved samples from one rate and channel count to
/// another.
///
/// The block must be made of whole frames, and the rates and channel counts must not
/// be zero: a block that cannot fill the frames asked of it is a fault of the caller.
/// The result has exactly `resampled_len` samples.
pub fn resample(
    samples: &[i16],
    from_hz: u32,
    from_channels: u16,
    to_hz: u32,
    to_channels: u16,
) -> (out: Vec<i16>)
    requires
        from_hz > 0,
        to_hz > 0,
        from_channels > 0,
        to_channels > 0,
        samples@.len() % (from_channels as nat) == 0,
        resampled_len(samples@.len(), from_hz, from_channels, to_hz, to_channels) <= usize::MAX,
    ensures
        out@ == resample_spec(samples@, from_hz, from_channels, to_hz, to_channels),
        out@.len() == resampled_len(samples@.len(), from_hz, from_channels, to_hz, to_channels),
{
    let frames: usize = samples.len() / (from_channels as usize);
    proof {
        lemma_mul_upper_bound(frames as int, usize::MAX as int, to_hz as int, u32::MAX as int);
        assert(usize::MAX * u32::MAX <= u128::MAX) by (nonlinear_arith)
            requires
                usize::MAX <= 0xffff_ffff_ffff_ffff,
                u32::MAX == 0xffff_ffff,
                u128::MAX == 0xffff_ffff_ffff_ffff_ffff_ffff_ffff_ffff,
        ;
        assert(resampled_frames(frames as nat, from_hz, to_hz) <= resampled_frames(
            frames as nat,
            from_hz,
            to_hz,
        ) * (to_channels as nat)) by (nonlinear_arith)
            requires
                to_channels >= 1,
        ;
    }
    let out_frames: usize = ((frames as u128) * (to_hz as u128) / (from_hz as u128)) as usize;
    let mut out: Vec<i16> = Vec::new();
    let mut j: usize = 0;
    while j < out_frames
        invariant
            from_hz > 0,
            to_hz > 0,
            from_channels > 0,
            to_channels > 0,
            frames == samples@.len() / (from_channels as nat),
            samples@.len() % (from_channels as nat) == 0,
            out_frames == resampled_frames(frames as nat, from_hz, to_hz),
            out_frames * to_channels <= usize::MAX,
            j <= out_frames,
            out@.len() == j * to_channels,
            forall|f: int, c: int|
                0 <= f < j && 0 <= c < to_channels ==> #[trigger] out@[f * to_channels + c]
                    == output_sample(samples@, from_hz, from_channels, to_hz, to_channels, f, c),
        decreases out_frames - j,
    {
        proof {
            lemma_position_in_block(frames as int, from_hz as int, to_hz as int, j as int);
            lemma_mul_upper_bound(j as int, usize::MAX as int, from_hz as int, u32::MAX as int);
            assert(usize::MAX * u32::MAX <= u128::MAX) by (nonlinear_arith)
                requires
                    usize::MAX <= 0xffff_ffff_ffff_ffff,
                    u32::MAX == 0xffff_ffff,
                    u128::MAX == 0xffff_ffff_ffff_ffff_ffff_ffff_ffff_ffff,
            ;
        }
        let position: u128 = (j as u128) * (from_hz as u128);
        let left: usize = (position / (to_hz as u128)) as usize;
        let numerator: u32 = (position % (to_hz as u128)) as u32;
        let right: usize = if left + 1 < frames {
            left + 1
        } else {
            left
        };
        proof {
            lemma_fundamental_div_mod(samples@.len() as int, from_channels as int);
            assert((left + 1) * from_channels <= frames * from_channels) by (nonlinear_arith)
                requires
                    left + 1 <= frames,
                    from_channels > 0,
            ;
            assert((right + 1) * from_channels <= frames * from_channels) by (nonlinear_arith)
                requires
                    right + 1 <= frames,
                    from_channels > 0,
            ;
            assert(frames * from_channels == from_channels * frames) by (nonlinear_arith);
            assert((j + 1) * to_channels <= out_frames * to_channels) by (nonlinear_arith)
                requires
                    j + 1 <= out_frames,
                    to_channels > 0,
            ;
            assert((j + 1) * to_channels == j * to_channels + to_channels) by (nonlinear_arith);
        }
        let mut c: u16 = 0;
        while c < to_channels
            invariant
                from_hz > 0,
                to_hz > 0,
                from_channels > 0,
                to_channels > 0,
                c <= to_channels,
                j < out_frames,
                numerator < to_hz,
                frames == samples@.len() / (from_channels as nat),
                (left + 1) * from_channels <= samples@.len(),
                (right + 1) * from_channels <= samples@.len(),
                left == j * from_hz / (to_hz as int),
                numerator == j * from_hz % (to_hz as int),
                right == if left + 1 < frames {
                    left + 1
                } else {
                    left as int
                },
                j * to_channels + to_channels <= usize::MAX,
                out@.len() == j * to_channels + c,
                forall|f: int, d: int|
                    0 <= f < j && 0 <= d < to_channels ==> #[trigger] out@[f * to_channels + d]
                        == output_sample(
                        samples@,
                        from_hz,
                        from_channels,
                        to_hz,
                        to_channels,
                        f,
                        d,
                    ),
                forall|d: int|
                    0 <= d < c ==> #[trigger] out@[j * to_channels + d] == output_sample(
                        samples@,
                        from_hz,
                        from_channels,
                        to_hz,
                        to_channels,
                        j as int,
                        d,
                    ),
            decreases to_channels - c,
        {
            let first = sample_for(samples, from_channels, to_channels, left, c);
            let second = sample_for(samples, from_channels, to_channels, right, c);
            let ghost before = out@;
            out.push(interpolate(first, second, numerator, to_hz));
            proof {
                assert forall|f: int, d: int| 0 <= f < j && 0 <= d < to_channels implies (
                #[trigger] out@[f * to_channels + d]) == output_sample(
                    samples@,
                    from_hz,
                    from_channels,
                    to_hz,
                    to_channels,
                    f,
                    d,
                ) by {
                    assert(f * to_channels + d < j * to_channels) by (nonlinear_arith)
                        requires
                            0 <= f < j,
                            0 <= d < to_channels,
                    ;
                    assert(out@[f * to_channels + d] == before[f * to_channels + d]);
                }
                assert forall|d: int| 0 <= d < c + 1 implies (#[trigger] out@[j * to_channels
                    + d]) == output_sample(
                    samples@,
                    from_hz,
                    from_channels,
                    to_hz,
                    to_channels,
                    j as int,
                    d,
                ) by {
                    if d < c {
                        assert(out@[j * to_channels + d] == before[j * to_channels + d]);
                    }
                }
            }
            c = c + 1;
        }
        proof {
            assert forall|f: int, d: int| 0 <= f < j + 1 && 0 <= d < to_channels implies (
            #[trigger] out@[f * to_channels + d]) == output_sample(
                samples@,
                from_hz,
                from_channels,
                to_hz,
                to_channels,
                f,
                d,
            ) by {
                if f == j {
                    assert(out@[j * to_channels + d] == output_sample(
                        samples@,
                        from_hz,
                        from_channels,
                        to_hz,
                        to_channels,
                        j as int,
                        d,
                    ));
                }
            }
        }
        j = j + 1;
    }
    proof {
        let want = resample_spec(samples@, from_hz, from_channels, to_hz, to_channels);
        assert(out@.len() == want.len());
        assert forall|k: int| 0 <= k < out@.len() implies out@[k] == want[k] by {
            let f = k / to_channels as int;
            let d = k % to_channels as int;
            lemma_fundamental_div_mod(k, to_channels as int);
            lemma_mod_bound(k, to_channels as int);
            assert(to_channels * f == f * to_channels) by (nonlinear_arith);
            assert(0 <= f < j) by (nonlinear_arith)
                requires
                    0 <= k < j * to_channels,
                    k == f * to_channels + d,
                    0 <= d < to_channels,
            ;
            assert(out@[f * to_channels + d] == output_sample(
                samples@,
                from_hz,
                from_channels,
                to_hz,
                to_channels,
                f,
                d,
            ));
        }
        assert(out@ =~= want);
    }
    out
}

} // verus!
