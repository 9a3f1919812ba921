//! Mixing sounds into one track.
//!
//! Each sound is brought to the format of the mix and laid into a buffer of
//! sums at its own offset; where sounds overlap their samples add up. When
//! all are in, every sum is clipped hard to the range of a 16-bit sample:
//! a sum above 32767 becomes 32767, one below -32768 becomes -32768, and no
//! other sum changes. Nothing is scaled, and nothing wraps around.

use crate::audio::{
    converted_frame_count,
    converted_len,
    frame_count,
    AudioFormat,
    Sound,
    Timestamp,
};
use crate::error::{ErrorKind, MediaError};
use vstd::prelude::*;

verus! {

/// The most sounds that one mix takes.
pub const MAX_SOUNDS: usize = 0xFFFF_FFFF;

/// The sample rate of the tracks that the application mixes.
pub const MIX_SAMPLE_RATE: u32 = 44100;

/// The channel count of the tracks that the application mixes.
pub const MIX_CHANNELS: u16 = 2;

/// A sum of samples, clipped hard to the range of one sample.
pub open spec fn clipped(sum: int) -> i16 {
    if sum > 32767 {
        32767i16
    } else if sum < -32768 {
        -32768i16
    } else {
        sum as i16
    }
}

/// Every sum clipped.
pub open spec fn clipped_all(sums: Seq<int>) -> Seq<i16> {
    Seq::new(sums.len(), |k: int| clipped(sums[k]))
}

/// The sums after `clip` was laid over `base` from index `offset` on: as
/// long as the longer of the two needs, each sum that of `base` there, if any,
/// plus the sample of `clip` there, if any.
pub open spec fn layered(base: Seq<int>, offset: int, clip: Seq<i16>) -> Seq<int> {
    Seq::new(
        if base.len() >= offset + clip.len() {
            base.len()
        } else {
            (offset + clip.len()) as nat
        },
        |k: int|
            (if k < base.len() {
                base[k]
            } else {
                0
            }) + (if offset <= k < offset + clip.len() {
                clip[k - offset] as int
            } else {
                0
            }),
    )
}

/// The index in the mix at which a sound placed at `at` begins.
pub open spec fn sample_offset(at: Timestamp, target: AudioFormat) -> int {
    at.frame * target.channels
}

/// The sums after the first `n` sounds were laid in, each at its timestamp.
pub open spec fn mixed(
    sounds: Seq<Sound>,
    timestamps: Seq<Timestamp>,
    target: AudioFormat,
    n: nat,
) -> Seq<int>
    decreases n,
{
    if n == 0 {
        Seq::empty()
    } else {
        layered(
            mixed(sounds, timestamps, target, (n - 1) as nat),
            sample_offset(timestamps[n - 1], target),
            sounds[n - 1].converted_to(target),
        )
    }
}

/// The finished track: all sounds laid in, every sum clipped.
pub open spec fn mixed_track(sounds: Seq<Sound>, timestamps: Seq<Timestamp>, target: AudioFormat)
    -> Seq<i16> {
    clipped_all(mixed(sounds, timestamps, target, sounds.len()))
}

/// What can be checked of a request before any sound is decoded: one
/// timestamp for each sound, none below zero, and no more sounds than a mix
/// takes.
pub open spec fn request_valid(sound_count: nat, timestamps: Seq<Timestamp>) -> bool {
    &&& sound_count == timestamps.len()
    &&& sound_count <= MAX_SOUNDS
    &&& forall|i: int| 0 <= i < timestamps.len() ==> (#[trigger] timestamps[i]).frame >= 0
}

/// Every sound is whole frames of a valid format.
pub open spec fn all_decodable(sounds: Seq<Sound>) -> bool {
    forall|i: int| 0 <= i < sounds.len() ==> (#[trigger] sounds[i]).decodable()
}

/// Sound `i` ends, in the mix, at an index that a vector can have.
pub open spec fn sound_fits(
    sounds: Seq<Sound>,
    timestamps: Seq<Timestamp>,
    target: AudioFormat,
    i: int,
) -> bool {
    sample_offset(timestamps[i], target) + converted_len(
        sounds[i].samples@,
        sounds[i].format,
        target,
    ) <= usize::MAX
}

/// Every sound ends, in the mix, at an index that a vector can have.
pub open spec fn mix_fits(sounds: Seq<Sound>, timestamps: Seq<Timestamp>, target: AudioFormat)
    -> bool {
    forall|i: int| 0 <= i < sounds.len() ==> #[trigger] sound_fits(sounds, timestamps, target, i)
}

/// Why a mix fails, if it does. The request and the target format are
/// judged first, then the sounds, then the length of the result.
pub open spec fn mix_failure(sounds: Seq<Sound>, timestamps: Seq<Timestamp>, target: AudioFormat)
    -> Option<ErrorKind> {
    if !request_valid(sounds.len(), timestamps) || !target.valid() {
        Some(ErrorKind::InputError)
    } else if !all_decodable(sounds) {
        Some(ErrorKind::DecodeError)
    } else if !mix_fits(sounds, timestamps, target) {
        Some(ErrorKind::InputError)
    } else {
        None
    }
}

/// How the attempt to write a track is judged.
#[derive(Debug, PartialEq, Eq)]
pub struct WriteVerdict {
    /// Success, or the failure to report.
    pub result: Result<(), MediaError>,
    /// Whether the caller is to remove what was written, so that no partial
    /// file stays behind.
    pub discard_output: bool,
}

/// The accumulator of a mix: one sum for each sample position reached so
/// far. It grows as sounds are laid in and is read out once, clipped.
#[derive(Debug)]
pub struct MixBuffer {
    sums: Vec<i64>,
    layers: u32,
}

impl View for MixBuffer {
    type V = Seq<int>;

    /// The sums, as numbers.
    closed spec fn view(&self) -> Seq<int> {
        Seq::new(self.sums@.len(), |k: int| self.sums@[k] as int)
    }
}

impl MixBuffer {
    /// No sum is beyond what the sounds laid in so far can add up to.
    #[verifier::type_invariant]
    spec fn sums_bounded(&self) -> bool {
        forall|k: int|
            0 <= k < self.sums@.len() ==> -32768 * self.layers <= #[trigger] self.sums@[k] <= 32767
                * self.layers
    }

    /// How many sounds were laid in.
    pub closed spec fn spec_layers(&self) -> nat {
        self.layers as nat
    }

    /// An empty buffer.
    pub fn new() -> (buffer: MixBuffer)
        ensures
            buffer@ == Seq::<int>::empty(),
            buffer.spec_layers() == 0,
    {
        let buffer = MixBuffer { sums: Vec::new(), layers: 0 };
        assert(buffer@ =~= Seq::<int>::empty());
        buffer
    }

    /// How many sums the buffer holds.
    pub fn len(&self) -> (n: usize)
        ensures
            n == self@.len(),
    {
        self.sums.len()
    }

    /// How many sounds were laid in.
    pub fn layers(&self) -> (n: u32)
        ensures
            n == self.spec_layers(),
    {
        self.layers
    }

    /// The sum at index `k`, before any clipping, if the buffer reaches
    /// that far.
    pub fn sum_at(&self, k: usize) -> (sum: Option<i64>)
        ensures
            match sum {
                Some(v) => k < self@.len() && v == self@[k as int],
                None => k >= self@.len(),
            },
    {
        if k < self.sums.len() {
            Some(self.sums[k])
        } else {
            None
        }
    }

    /// Lays `clip` into the buffer from index `offset` on.
    ///
    /// The buffer grows to hold the clip's range, new sums starting at zero,
    /// and each sample of the clip is added to the sum at its place. Nothing
    /// is laid in, and the buffer stays as it is, when it already holds as
    /// many sounds as a mix takes, or when the clip would end beyond the
    /// last index that a vector can have.
    pub fn add(&mut self, offset: usize, clip: &Vec<i16>) -> (added: bool)
        ensures
            added <==> old(self).spec_layers() < MAX_SOUNDS && offset + clip@.len() <= usize::MAX,
            added ==> final(self)@ == layered(old(self)@, offset as int, clip@),
            added ==> final(self).spec_layers() == old(self).spec_layers() + 1,
            !added ==> *final(self) == *old(self),
    {
        let n: usize = clip.len();
        if self.layers == u32::MAX || offset > usize::MAX - n {
            return false;
        }
        proof {
            use_type_invariant(&*self);
        }
        let end: usize = offset + n;
        let layers: u32 = self.layers;
        let ghost before = self.sums@;
        let mut sums: Vec<i64> = Vec::new();
        core::mem::swap(&mut sums, &mut self.sums);
        while sums.len() < end
            invariant
                before.len() <= sums@.len(),
                before.len() < end ==> sums@.len() <= end,
                before.len() >= end ==> sums@.len() == before.len(),
                forall|k: int| 0 <= k < before.len() ==> sums@[k] == before[k],
                forall|k: int| before.len() <= k < sums@.len() ==> sums@[k] == 0,
            decreases end - sums@.len(),
        {
            sums.push(0);
        }
        let mut i: usize = 0;
        while i < n
            invariant
                i <= n,
                n == clip@.len(),
                end == offset + n,
                end <= sums@.len(),
                layers < u32::MAX,
                sums@.len() == (if before.len() >= end {
                    before.len()
                } else {
                    end as nat
                }),
                forall|k: int|
                    0 <= k < before.len() ==> -32768 * layers <= #[trigger] before[k] <= 32767
                        * layers,
                forall|k: int|
                    0 <= k < sums@.len() ==> #[trigger] sums@[k] == (if k < before.len() {
                        before[k] as int
                    } else {
                        0
                    }) + (if offset <= k < offset + i {
                        clip@[k - offset] as int
                    } else {
                        0
                    }),
            decreases n - i,
        {
            let k: usize = offset + i;
            let ghost earlier = sums@;
            let sum: i64 = sums[k] + clip[i] as i64;
            sums.set(k, sum);
            i = i + 1;
            assert forall|m: int| 0 <= m < sums@.len() implies #[trigger] sums@[m] == (if m
                < before.len() {
                before[m] as int
            } else {
                0
            }) + (if offset <= m < offset + i {
                clip@[m - offset] as int
            } else {
                0
            }) by {
                if m != k {
                    assert(sums@[m] == earlier[m]);
                }
            }
        }
        *self = MixBuffer { sums, layers: layers + 1 };
        assert(self@ =~= layered(old(self)@, offset as int, clip@));
        true
    }

    /// The finished track: every sum clipped hard to the range of a 16-bit
    /// sample.
    pub fn output(&self) -> (track: Vec<i16>)
        ensures
            track@ == clipped_all(self@),
    {
        let mut track: Vec<i16> = Vec::new();
        let mut k: usize = 0;
        while k < self.sums.len()
            invariant
                k <= self.sums@.len(),
                track@.len() == k,
                forall|m: int| 0 <= m < k ==> #[trigger] track@[m] == clipped(self.sums@[m] as int),
            decreases self.sums@.len() - k,
        {
            let sum: i64 = self.sums[k];
            let sample: i16 = if sum > 32767 {
                32767
            } else if sum < -32768 {
                -32768
            } else {
                sum as i16
            };
            track.push(sample);
            k = k + 1;
        }
        assert(track@ =~= clipped_all(self@));
        track
    }
}

/// The format of the tracks that the application mixes.
pub fn mix_format() -> (format: AudioFormat)
    ensures
        format == (AudioFormat { sample_rate: MIX_SAMPLE_RATE, channels: MIX_CHANNELS }),
        format.valid(),
{
    AudioFormat { sample_rate: MIX_SAMPLE_RATE, channels: MIX_CHANNELS }
}

/// Checks what can be checked of a request before any sound is decoded.
///
/// Succeeds exactly when there is one timestamp for each sound, none is
/// below zero, and there are no more sounds than a mix takes. Everything
/// else is an `InputError`.
pub fn check_mix_request(sound_count: usize, timestamps: &Vec<Timestamp>) -> (r: Result<
    (),
    MediaError,
>)
    ensures
        r.is_ok() <==> request_valid(sound_count as nat, timestamps@),
        r matches Err(e) ==> e.kind == ErrorKind::InputError,
{
    if sound_count != timestamps.len() {
        return Err(
            MediaError::new(ErrorKind::InputError, "sounds and timestamps differ in number"),
        );
    }
    if sound_count > MAX_SOUNDS {
        return Err(MediaError::new(ErrorKind::InputError, "too many sounds for one mix"));
    }
    let mut i: usize = 0;
    while i < timestamps.len()
        invariant
            i <= timestamps@.len(),
            forall|k: int| 0 <= k < i ==> (#[trigger] timestamps@[k]).frame >= 0,
        decreases timestamps@.len() - i,
    {
        if timestamps[i].frame < 0 {
            return Err(MediaError::new(ErrorKind::InputError, "a timestamp is below zero"));
        }
        i = i + 1;
    }
    Ok(())
}

/// Mixes decoded sounds into one track in the format `target`.
///
/// Sound `i` begins at frame `timestamps[i]` of the track. The result is
/// the finished track: as long as the latest end of any sound, each sample
/// the clipped sum of the sounds that play there. It depends on the
/// arguments alone.
///
/// Fails with an `InputError` when the request is not valid or the target
/// format is not; else with a `DecodeError` when a sound is not whole frames
/// of a valid format; else with an `InputError` when the track would be
/// longer than a vector can be.
pub fn mix_audio(sounds: &Vec<Sound>, timestamps: &Vec<Timestamp>, target: AudioFormat) -> (r:
    Result<Vec<i16>, MediaError>)
    ensures
        match r {
            Ok(track) => mix_failure(sounds@, timestamps@, target).is_none() && track@
                == mixed_track(sounds@, timestamps@, target),
            Err(e) => mix_failure(sounds@, timestamps@, target) == Some(e.kind),
        },
{
    let count: usize = sounds.len();
    match check_mix_request(count, timestamps) {
        Ok(()) => {},
        Err(e) => {
            return Err(e);
        },
    }
    if !target.is_valid() {
        return Err(
            MediaError::new(ErrorKind::InputError, "target format needs a positive rate and channel count"),
        );
    }
    let mut i: usize = 0;
    while i < count
        invariant
            i <= count,
            count == sounds@.len(),
            request_valid(sounds@.len(), timestamps@),
            target.valid(),
            forall|k: int| 0 <= k < i ==> (#[trigger] sounds@[k]).decodable(),
        decreases count - i,
    {
        if !sounds[i].is_decodable() {
            assert(!sounds@[i as int].decodable());
            return Err(
                MediaError::new(ErrorKind::DecodeError, "a sound is not whole frames of a valid format"),
            );
        }
        i = i + 1;
    }
    let mut buffer = MixBuffer::new();
    let mut i: usize = 0;
    while i < count
        invariant
            i <= count,
            count == sounds@.len(),
            request_valid(sounds@.len(), timestamps@),
            target.valid(),
            all_decodable(sounds@),
            buffer@ == mixed(sounds@, timestamps@, target, i as nat),
            buffer.spec_layers() == i,
            forall|k: int| 0 <= k < i ==> #[trigger] sound_fits(sounds@, timestamps@, target, k),
        decreases count - i,
    {
        let frame: i64 = timestamps[i].frame;
        assert(timestamps@[i as int].frame >= 0);
        assert(sounds@[i as int].decodable());
        assert(0 <= frame * target.channels < 0x1_0000_0000_0000_0000_0000) by (nonlinear_arith)
            requires
                0 <= frame <= 0x7FFF_FFFF_FFFF_FFFF,
                0 <= target.channels <= 0xFFFF,
        ;
        let clip = match sounds[i].convert(target) {
            Ok(clip) => clip,
            Err(e) => {
                assert(!sound_fits(sounds@, timestamps@, target, i as int));
                return Err(e);
            },
        };
        let wide: u128 = frame as u128 * (target.channels as u128);
        if wide > (usize::MAX - clip.len()) as u128 {
            assert(!sound_fits(sounds@, timestamps@, target, i as int));
            return Err(MediaError::new(ErrorKind::InputError, "the mixed track is too long"));
        }
        let added = buffer.add(wide as usize, &clip);
        assert(added);
        i = i + 1;
    }
    Ok(buffer.output())
}

/// Judges the attempt to write the finished track.
///
/// `written` is `Ok` when the file is complete, and else holds the
/// diagnostic. A failed write is an `IoError` that carries the diagnostic,
/// and what was written is to be discarded.
pub fn judge_track_write(written: Result<(), String>) -> (verdict: WriteVerdict)
    ensures
        verdict.result.is_ok() <==> written.is_ok(),
        verdict.discard_output <==> written.is_err(),
        verdict.result matches Err(e) ==> e.kind == ErrorKind::IoError && written == Err::<
            (),
            String,
        >(e.message),
{
    match written {
        Ok(()) => WriteVerdict { result: Ok(()), discard_output: false },
        Err(diagnostic) => WriteVerdict {
            result: Err(MediaError { kind: ErrorKind::IoError, message: diagnostic }),
            discard_output: true,
        },
    }
}

/// Clipping keeps every sum that is a sample as it is, and holds every other
/// sum at the nearer end of the range: it never wraps around.
pub proof fn lemma_clipping(sum: int)
    ensures
        -32768 <= clipped(sum) <= 32767,
        -32768 <= sum <= 32767 ==> clipped(sum) == sum,
        sum >= 32767 ==> clipped(sum) == 32767,
        sum <= -32768 ==> clipped(sum) == -32768,
{
}

/// A request with sounds and timestamps in different numbers is refused
/// with an `InputError`, by the check that runs before any decoding and by
/// the mix itself.
pub proof fn lemma_mismatch_is_refused(
    sounds: Seq<Sound>,
    timestamps: Seq<Timestamp>,
    target: AudioFormat,
)
    requires
        sounds.len() != timestamps.len(),
    ensures
        !request_valid(sounds.len(), timestamps),
        mix_failure(sounds, timestamps, target) == Some(ErrorKind::InputError),
{
}

/// One clip laid twice into an empty buffer: the sums reach as far as the
/// later of the two, and each is what the clip gives there from the first
/// placement plus what it gives from the second.
pub proof fn lemma_layered_twice(clip: Seq<i16>, a: int, b: int)
    requires
        0 <= a,
        0 <= b,
    ensures
        ({
            let sums = layered(layered(Seq::empty(), a, clip), b, clip);
            &&& sums.len() == (if a >= b {
                a
            } else {
                b
            }) + clip.len()
            &&& forall|k: int|
                0 <= k < sums.len() ==> #[trigger] sums[k] == (if a <= k < a + clip.len() {
                    clip[k - a] as int
                } else {
                    0
                }) + (if b <= k < b + clip.len() {
                    clip[k - b] as int
                } else {
                    0
                })
        }),
{
}

/// The sums of a mix of one sound placed twice.
proof fn lemma_mixed_pair(sound: Sound, first: Timestamp, second: Timestamp, target: AudioFormat)
    ensures
        mixed(seq![sound, sound], seq![first, second], target, 2) == layered(
            layered(Seq::empty(), sample_offset(first, target), sound.converted_to(target)),
            sample_offset(second, target),
            sound.converted_to(target),
        ),
{
    reveal_with_fuel(mixed, 3);
}

/// A sound mixed with itself at two timestamps so far apart that the two
/// placements do not overlap: the track ends where the later placement
/// ends, each placement holds the converted sound unchanged, and the rest
/// is silence.
pub proof fn lemma_mix_apart(sound: Sound, first: Timestamp, second: Timestamp, target: AudioFormat)
    requires
        sound.decodable(),
        target.valid(),
        first.frame >= 0,
        second.frame >= 0,
        ({
            let duration = converted_frame_count(
                frame_count(sound.samples@, sound.format),
                sound.format.sample_rate,
                target.sample_rate,
            );
            first.frame + duration <= second.frame || second.frame + duration <= first.frame
        }),
    ensures
        ({
            let duration = converted_frame_count(
                frame_count(sound.samples@, sound.format),
                sound.format.sample_rate,
                target.sample_rate,
            );
            let clip = sound.converted_to(target);
            let a = sample_offset(first, target);
            let b = sample_offset(second, target);
            let later = if first.frame >= second.frame {
                first.frame
            } else {
                second.frame
            };
            let track = mixed_track(seq![sound, sound], seq![first, second], target);
            &&& track.len() == (later + duration) * target.channels
            &&& forall|k: int| 0 <= k < clip.len() ==> track[a + k] == #[trigger] clip[k]
            &&& forall|k: int| 0 <= k < clip.len() ==> track[b + k] == #[trigger] clip[k]
            &&& forall|k: int|
                0 <= k < track.len() && !(a <= k < a + clip.len()) && !(b <= k < b + clip.len())
                    ==> #[trigger] track[k] == 0
        }),
{
    let duration = converted_frame_count(
        frame_count(sound.samples@, sound.format),
        sound.format.sample_rate,
        target.sample_rate,
    );
    let clip = sound.converted_to(target);
    let a = sample_offset(first, target);
    let b = sample_offset(second, target);
    let c = target.channels as int;
    lemma_mixed_pair(sound, first, second, target);
    assert(clip.len() == duration * c);
    assert(0 <= a && 0 <= b) by (nonlinear_arith)
        requires
            a == first.frame * c,
            b == second.frame * c,
            first.frame >= 0,
            second.frame >= 0,
            c > 0,
    ;
    lemma_layered_twice(clip, a, b);
    if first.frame + duration <= second.frame {
        assert(a + clip.len() <= b && (second.frame + duration) * c == b + clip.len())
            by (nonlinear_arith)
            requires
                a == first.frame * c,
                b == second.frame * c,
                clip.len() == duration * c,
                first.frame + duration <= second.frame,
                c > 0,
        ;
    } else {
        assert(b + clip.len() <= a && (first.frame + duration) * c == a + clip.len())
            by (nonlinear_arith)
            requires
                a == first.frame * c,
                b == second.frame * c,
                clip.len() == duration * c,
                second.frame + duration <= first.frame,
                c > 0,
        ;
    }
}

/// A sound mixed with itself at one timestamp: before clipping every sum
/// is twice the sound's sample, and the track holds that sum clipped, which
/// is the end of the range wherever twice the sample lies beyond it.
pub proof fn lemma_mix_together(sound: Sound, at: Timestamp, target: AudioFormat)
    requires
        sound.decodable(),
        target.valid(),
        at.frame >= 0,
    ensures
        ({
            let clip = sound.converted_to(target);
            let a = sample_offset(at, target);
            let sums = mixed(seq![sound, sound], seq![at, at], target, 2);
            let track = mixed_track(seq![sound, sound], seq![at, at], target);
            &&& sums.len() == a + clip.len()
            &&& track.len() == a + clip.len()
            &&& forall|k: int| 0 <= k < a ==> #[trigger] sums[k] == 0 && track[k] == 0
            &&& forall|k: int|
                0 <= k < clip.len() ==> sums[a + k] == 2 * (#[trigger] clip[k]) && track[a + k]
                    == clipped(2 * clip[k])
            &&& forall|k: int|
                0 <= k < clip.len() && 2 * (#[trigger] clip[k]) > 32767 ==> track[a + k] == 32767
            &&& forall|k: int|
                0 <= k < clip.len() && 2 * (#[trigger] clip[k]) < -32768 ==> track[a + k]
                    == -32768
        }),
{
    let clip = sound.converted_to(target);
    let a = sample_offset(at, target);
    let c = target.channels as int;
    lemma_mixed_pair(sound, at, at, target);
    assert(0 <= a) by (nonlinear_arith)
        requires
            a == at.frame * c,
            at.frame >= 0,
            c > 0,
    ;
    lemma_layered_twice(clip, a, a);
}

} // verus!
