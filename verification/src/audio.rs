//! Sounds, and their conversion to the format of a mix.
//!
//! A sound is a run of 16-bit samples, frame by frame, the channels of one
//! frame side by side. Before sounds are mixed each is brought to the format
//! of the mix:
//!
//! - Rate: frame `j` of the result is the source frame that sounds at the
//!   same moment, `j * source_rate / target_rate`, rounded down. No
//!   interpolation, no filtering. The result lasts as long as the source,
//!   rounded up to a whole frame.
//! - Channels: with equal counts each channel is kept. A source with one
//!   channel feeds every channel of the target. A target with one channel
//!   takes the mean of the source's channels, rounded down. Otherwise
//!   channels are paired by position; a source channel without a partner is
//!   dropped and a target channel without one is silent.

use crate::error::{ErrorKind, MediaError};
use vstd::arithmetic::div_mod::{
    lemma_fundamental_div_mod,
    lemma_fundamental_div_mod_converse,
    lemma_hoist_over_denominator,
};
use vstd::prelude::*;

verus! {

/// How samples are laid out in time: frames per second, and samples per
/// frame.
#[derive(Clone, Copy, Debug, PartialEq, Eq, Structural)]
pub struct AudioFormat {
    pub sample_rate: u32,
    pub channels: u16,
}

/// A decoded sound: where it came from, its format, and its samples.
#[derive(Clone, Debug, PartialEq, Eq)]
pub struct Sound {
    /// The path or identifier that the sound was decoded from.
    pub source: String,
    /// The format found when decoding.
    pub format: AudioFormat,
    /// The samples, frame by frame.
    pub samples: Vec<i16>,
}

/// Where a sound begins in the mix: a frame position in the format of the
/// mix. A position below zero is not accepted.
#[derive(Clone, Copy, Debug, PartialEq, Eq, Structural)]
pub struct Timestamp {
    pub frame: i64,
}

impl AudioFormat {
    /// Both the rate and the channel count are positive.
    pub open spec fn valid(self) -> bool {
        self.sample_rate > 0 && self.channels > 0
    }

    /// Whether both the rate and the channel count are positive.
    pub fn is_valid(&self) -> (b: bool)
        ensures
            b == self.valid(),
    {
        self.sample_rate > 0 && self.channels > 0
    }
}

/// The samples are whole frames of a valid format.
pub open spec fn is_decoded(samples: Seq<i16>, format: AudioFormat) -> bool {
    format.valid() && samples.len() % (format.channels as nat) == 0
}

/// How many frames the samples make up.
pub open spec fn frame_count(samples: Seq<i16>, format: AudioFormat) -> nat {
    samples.len() / (format.channels as nat)
}

/// How many frames a sound of `frames` frames has at another rate: its
/// duration, rounded up to a whole frame.
pub open spec fn converted_frame_count(frames: nat, from_rate: u32, to_rate: u32) -> nat {
    ((frames * to_rate + from_rate - 1) / (from_rate as int)) as nat
}

/// The source frame that sounds when frame `j` of the converted sound does.
pub open spec fn source_frame(j: int, from_rate: u32, to_rate: u32) -> int {
    (j * from_rate) / (to_rate as int)
}

/// The sum of `count` samples from index `base` on.
pub open spec fn channel_sum(samples: Seq<i16>, base: int, count: nat) -> int
    decreases count,
{
    if count == 0 {
        0
    } else {
        channel_sum(samples, base, (count - 1) as nat) + samples[base + count - 1]
    }
}

/// The sample of one target channel, made from one source frame.
pub open spec fn remixed(
    samples: Seq<i16>,
    channels: u16,
    frame: int,
    channel: int,
    target_channels: u16,
) -> i16 {
    let base = frame * channels;
    if channels == target_channels {
        samples[base + channel]
    } else if channels == 1 {
        samples[base]
    } else if target_channels == 1 {
        (channel_sum(samples, base, channels as nat) / (channels as int)) as i16
    } else if channel < channels {
        samples[base + channel]
    } else {
        0i16
    }
}

/// How many samples the converted sound has.
pub open spec fn converted_len(samples: Seq<i16>, from: AudioFormat, to: AudioFormat) -> nat {
    converted_frame_count(frame_count(samples, from), from.sample_rate, to.sample_rate) * (
    to.channels as nat)
}

/// Sample `k` of the converted sound.
pub open spec fn converted_sample(
    samples: Seq<i16>,
    from: AudioFormat,
    to: AudioFormat,
    k: int,
) -> i16 {
    remixed(
        samples,
        from.channels,
        source_frame(k / (to.channels as int), from.sample_rate, to.sample_rate),
        k % (to.channels as int),
        to.channels,
    )
}

/// The sound in another format.
pub open spec fn converted(samples: Seq<i16>, from: AudioFormat, to: AudioFormat) -> Seq<i16> {
    Seq::new(converted_len(samples, from, to), |k: int| converted_sample(samples, from, to, k))
}

/// Why a conversion fails, if it does: a sound that is not whole frames of a
/// valid format is corrupt; a target format must be valid; and the result
/// must not be longer than a vector can be.
pub open spec fn conversion_failure(samples: Seq<i16>, from: AudioFormat, to: AudioFormat)
    -> Option<ErrorKind> {
    if !is_decoded(samples, from) {
        Some(ErrorKind::DecodeError)
    } else if !to.valid() || converted_len(samples, from, to) > usize::MAX {
        Some(ErrorKind::InputError)
    } else {
        None
    }
}

/// The mean of samples, rounded down, is a sample; and it can be computed
/// without negative numbers.
proof fn lemma_mean(sum: int, count: int)
    requires
        count > 0,
        -32768 * count <= sum <= 32767 * count,
    ensures
        -32768 <= sum / count <= 32767,
        (sum + 32768 * count) / count == sum / count + 32768,
{
    lemma_hoist_over_denominator(sum, 32768, count as nat);
    lemma_fundamental_div_mod(sum + 32768 * count, count);
    let q = (sum + 32768 * count) / count;
    let r = (sum + 32768 * count) % count;
    assert(0 <= r < count);
    assert(count * q + r == sum + 32768 * count);
    assert(0 <= q <= 65535) by (nonlinear_arith)
        requires
            count > 0,
            0 <= r < count,
            0 <= count * q + r <= 65535 * count,
    ;
}

/// Each frame of a converted sound is taken from a frame of the source.
pub proof fn lemma_source_frame_in_range(j: int, frames: nat, from_rate: u32, to_rate: u32)
    requires
        from_rate > 0,
        to_rate > 0,
        0 <= j < converted_frame_count(frames, from_rate, to_rate),
    ensures
        0 <= source_frame(j, from_rate, to_rate) < frames,
{
    let n = frames * to_rate + from_rate - 1;
    let out = n / (from_rate as int);
    lemma_fundamental_div_mod(n, from_rate as int);
    assert(from_rate * out <= n);
    assert(j * from_rate < frames * to_rate) by (nonlinear_arith)
        requires
            0 <= j <= out - 1,
            from_rate * out <= frames * to_rate + from_rate - 1,
            from_rate > 0,
    ;
    let x = j * from_rate;
    lemma_fundamental_div_mod(x, to_rate as int);
    assert(0 <= x) by (nonlinear_arith)
        requires
            x == j * from_rate,
            0 <= j,
            from_rate > 0,
    ;
    assert(0 <= x / (to_rate as int) < frames) by (nonlinear_arith)
        requires
            0 <= x < frames * to_rate,
            to_rate > 0,
            x == to_rate * (x / (to_rate as int)) + x % (to_rate as int),
            0 <= x % (to_rate as int) < to_rate,
    ;
}

/// A sound at the rate it already has keeps its number of frames, and each
/// frame its place.
proof fn lemma_same_rate(frames: nat, j: int, rate: u32)
    requires
        rate > 0,
        0 <= j,
    ensures
        converted_frame_count(frames, rate, rate) == frames,
        source_frame(j, rate, rate) == j,
{
    lemma_fundamental_div_mod_converse(frames * rate + rate - 1, rate as int, frames as int, rate - 1);
    lemma_fundamental_div_mod_converse(j * rate, rate as int, j, 0);
}

/// A sound that already has the format of the mix is taken as it is.
pub proof fn lemma_same_format_is_kept(samples: Seq<i16>, format: AudioFormat)
    requires
        is_decoded(samples, format),
    ensures
        converted(samples, format, format) == samples,
{
    let c = format.channels as int;
    let frames = frame_count(samples, format);
    lemma_fundamental_div_mod(samples.len() as int, c);
    lemma_same_rate(frames, 0, format.sample_rate);
    assert(converted_len(samples, format, format) == samples.len()) by (nonlinear_arith)
        requires
            converted_len(samples, format, format) == frames * c,
            samples.len() == c * frames,
    ;
    assert forall|k: int| 0 <= k < samples.len() implies converted_sample(
        samples,
        format,
        format,
        k,
    ) == samples[k] by {
        lemma_fundamental_div_mod(k, c);
        assert(0 <= k / c) by (nonlinear_arith)
            requires
                0 <= k,
                c > 0,
        ;
        lemma_same_rate(frames, k / c, format.sample_rate);
        assert((k / c) * c + k % c == k) by (nonlinear_arith)
            requires
                k == c * (k / c) + k % c,
        ;
    }
    assert(converted(samples, format, format) =~= samples);
}

/// The sample of one target channel, made from one source frame.
fn remix(samples: &Vec<i16>, channels: u16, frame: usize, channel: u16, target_channels: u16) -> (v:
    i16)
    requires
        channels > 0,
        channel < target_channels,
        (frame + 1) * channels <= samples@.len(),
    ensures
        v == remixed(samples@, channels, frame as int, channel as int, target_channels),
{
    let width: usize = channels as usize;
    let len: usize = samples.len();
    assert(frame * width + width <= len) by (nonlinear_arith)
        requires
            (frame + 1) * width <= len,
    ;
    assert(0 <= frame * width) by (nonlinear_arith);
    let base: usize = frame * width;
    if channels == target_channels {
        samples[base + channel as usize]
    } else if channels == 1 {
        samples[base]
    } else if target_channels == 1 {
        let mut sum: i64 = 0;
        let mut k: u16 = 0;
        while k < channels
            invariant
                k <= channels,
                base + channels <= len,
                len == samples@.len(),
                sum == channel_sum(samples@, base as int, k as nat),
                -32768 * k <= sum <= 32767 * k,
            decreases channels - k,
        {
            sum = sum + samples[base + k as usize] as i64;
            k = k + 1;
        }
        proof {
            lemma_mean(sum as int, channels as int);
        }
        let lifted: u64 = (sum + 32768 * (channels as i64)) as u64;
        let mean: u64 = lifted / (channels as u64);
        (mean as i64 - 32768) as i16
    } else if channel < channels {
        samples[base + channel as usize]
    } else {
        0
    }
}

impl Sound {
    /// The samples are whole frames of a valid format.
    pub open spec fn decodable(&self) -> bool {
        is_decoded(self.samples@, self.format)
    }

    /// The sound in another format.
    pub open spec fn converted_to(&self, target: AudioFormat) -> Seq<i16> {
        converted(self.samples@, self.format, target)
    }

    /// Whether the samples are whole frames of a valid format.
    pub fn is_decodable(&self) -> (b: bool)
        ensures
            b == self.decodable(),
    {
        self.format.is_valid() && self.samples.len() % (self.format.channels as usize) == 0
    }

    /// Brings the sound to the format `target`.
    ///
    /// Gives the converted samples unless the conversion fails: with a
    /// `DecodeError` for a sound that is not whole frames of a valid format,
    /// and otherwise with an `InputError` for a target that is not valid or a
    /// result too long to hold.
    pub fn convert(&self, target: AudioFormat) -> (r: Result<Vec<i16>, MediaError>)
        ensures
            match r {
                Ok(out) => conversion_failure(self.samples@, self.format, target).is_none()
                    && out@ == self.converted_to(target),
                Err(e) => conversion_failure(self.samples@, self.format, target) == Some(e.kind),
            },
    {
        if !self.is_decodable() {
            return Err(
                MediaError::new(ErrorKind::DecodeError, "sound is not whole frames of a valid format"),
            );
        }
        if !target.is_valid() {
            return Err(
                MediaError::new(ErrorKind::InputError, "target format needs a positive rate and channel count"),
            );
        }
        let from_rate: u128 = self.format.sample_rate as u128;
        let to_rate: u128 = target.sample_rate as u128;
        let frames: usize = self.samples.len() / (self.format.channels as usize);
        assert(frames * to_rate + from_rate - 1 < 0x1_0000_0000_0000_0000_0000_0000) by (nonlinear_arith)
            requires
                frames <= 0xFFFF_FFFF_FFFF_FFFF,
                to_rate <= 0xFFFF_FFFF,
                0 < from_rate <= 0xFFFF_FFFF,
        ;
        let wide_frames: u128 = (frames as u128 * to_rate + from_rate - 1) / from_rate;
        assert(wide_frames * target.channels < 0x1_0000_0000_0000_0000_0000_0000_0000) by (nonlinear_arith)
            requires
                wide_frames < 0x1_0000_0000_0000_0000_0000_0000,
                target.channels <= 0xFFFF,
        ;
        let wide_len: u128 = wide_frames * (target.channels as u128);
        if wide_len > usize::MAX as u128 {
            return Err(MediaError::new(ErrorKind::InputError, "converted sound is too long"));
        }
        assert(wide_frames <= wide_len) by (nonlinear_arith)
            requires
                wide_len == wide_frames * target.channels,
                target.channels >= 1,
                wide_frames >= 0,
        ;
        let out_frames: usize = wide_frames as usize;
        let ghost samples = self.samples@;
        let ghost from = self.format;
        proof {
            lemma_fundamental_div_mod(samples.len() as int, from.channels as int);
        }
        let mut out: Vec<i16> = Vec::new();
        let mut j: usize = 0;
        while j < out_frames
            invariant
                j <= out_frames,
                samples == self.samples@,
                from == self.format,
                is_decoded(samples, from),
                target.valid(),
                frames == frame_count(samples, from),
                samples.len() == from.channels * frames,
                from_rate == from.sample_rate,
                to_rate == target.sample_rate,
                out_frames == converted_frame_count(frames as nat, from.sample_rate, target.sample_rate),
                out_frames * target.channels <= usize::MAX,
                out@.len() == j * target.channels,
                forall|k: int|
                    0 <= k < out@.len() ==> #[trigger] out@[k] == converted_sample(
                        samples,
                        from,
                        target,
                        k,
                    ),
            decreases out_frames - j,
        {
            proof {
                lemma_source_frame_in_range(
                    j as int,
                    frames as nat,
                    from.sample_rate,
                    target.sample_rate,
                );
            }
            assert(j * from_rate < 0x1_0000_0000_0000_0000_0000_0000) by (nonlinear_arith)
                requires
                    j <= 0xFFFF_FFFF_FFFF_FFFF,
                    from_rate <= 0xFFFF_FFFF,
            ;
            let source: usize = ((j as u128 * from_rate) / to_rate) as usize;
            assert(source == source_frame(j as int, from.sample_rate, target.sample_rate));
            assert((source + 1) * from.channels <= samples.len()) by (nonlinear_arith)
                requires
                    source + 1 <= frames,
                    samples.len() == from.channels * frames,
            ;
            assert((j + 1) * target.channels <= out_frames * target.channels) by (nonlinear_arith)
                requires
                    j + 1 <= out_frames,
            ;
            assert((j + 1) * target.channels == j * target.channels + target.channels)
                by (nonlinear_arith);
            let mut c: u16 = 0;
            while c < target.channels
                invariant
                    c <= target.channels,
                    j < out_frames,
                    samples == self.samples@,
                    from == self.format,
                    from.channels > 0,
                    target.channels > 0,
                    (source + 1) * from.channels <= samples.len(),
                    source == source_frame(j as int, from.sample_rate, target.sample_rate),
                    j * target.channels + target.channels <= usize::MAX,
                    out@.len() == j * target.channels + c,
                    forall|k: int|
                        0 <= k < out@.len() ==> #[trigger] out@[k] == converted_sample(
                            samples,
                            from,
                            target,
                            k,
                        ),
                decreases target.channels - c,
            {
                let v = remix(&self.samples, self.format.channels, source, c, target.channels);
                proof {
                    let k = j * target.channels + c;
                    assert(k == target.channels * j + c) by (nonlinear_arith)
                        requires
                            k == j * target.channels + c,
                    ;
                    lemma_fundamental_div_mod_converse(
                        k,
                        target.channels as int,
                        j as int,
                        c as int,
                    );
                    assert(converted_sample(samples, from, target, k) == v);
                }
                out.push(v);
                c = c + 1;
            }
            j = j + 1;
        }
        assert(out@ =~= self.converted_to(target));
        Ok(out)
    }
}

/// Judges the attempt to decode one sound.
///
/// `decoded` is the sound as the decoder gave it, or the decoder's
/// diagnostic. The sound is accepted when it is whole frames of a valid
/// format. Everything else is a `DecodeError`, which carries the diagnostic
/// where the decoder gave one.
pub fn judge_decoding(decoded: Result<Sound, String>) -> (r: Result<Sound, MediaError>)
    ensures
        match decoded {
            Ok(sound) => if sound.decodable() {
                r == Ok::<Sound, MediaError>(sound)
            } else {
                r matches Err(e) && e.kind == ErrorKind::DecodeError
            },
            Err(diagnostic) => r matches Err(e) && e.kind == ErrorKind::DecodeError && e.message
                == diagnostic,
        },
{
    match decoded {
        Ok(sound) => {
            if sound.is_decodable() {
                Ok(sound)
            } else {
                Err(
                    MediaError::new(
                        ErrorKind::DecodeError,
                        "sound is not whole frames of a valid format",
                    ),
                )
            }
        },
        Err(diagnostic) => Err(MediaError { kind: ErrorKind::DecodeError, message: diagnostic }),
    }
}

} // verus!
