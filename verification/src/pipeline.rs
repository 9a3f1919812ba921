//! One-shot conversion of a directory of numbered still images into a video.
//!
//! The engine checks the request and judges how the encoder ended; the
//! caller runs the encoder in between.

use crate::error::{ErrorKind, MediaError};
use crate::resolution::{parsed, Resolution};
use vstd::prelude::*;

verus! {

/// A checked request for a one-shot conversion: what the encoder is started
/// with.
#[derive(Clone, Debug, PartialEq, Eq)]
pub struct ConversionPlan {
    /// The directory that holds the numbered still images.
    pub input_dir: String,
    /// Where the video goes.
    pub output: String,
    /// The size of the video's frames.
    pub resolution: Resolution,
    /// Frames per second.
    pub fps: u32,
    /// The identifier of the encoder, as the catalog lists it.
    pub codec: String,
}

/// How a run of the encoder is judged.
#[derive(Debug, PartialEq, Eq)]
pub struct EncoderVerdict {
    /// Success, or the failure to report.
    pub result: Result<(), MediaError>,
    /// Whether the caller is to remove what the encoder wrote, so that no
    /// partial file stays behind.
    pub discard_output: bool,
}

/// The frame size and rate of a video are acceptable: the text denotes a
/// size, and at least one frame is shown per second.
pub open spec fn video_parameters_valid(resolution: Seq<char>, fps: u32) -> bool {
    parsed(resolution).is_some() && fps > 0
}

/// Checks the frame size and rate of a video.
///
/// Gives the size exactly when both are acceptable, else an `InputError`.
pub fn check_video_parameters(resolution: &str, fps: u32) -> (r: Result<Resolution, MediaError>)
    ensures
        match r {
            Ok(size) => video_parameters_valid(resolution@, fps) && parsed(resolution@) == Some(
                size,
            ),
            Err(e) => !video_parameters_valid(resolution@, fps) && e.kind == ErrorKind::InputError,
        },
{
    match Resolution::parse(resolution) {
        Ok(size) => {
            if fps == 0 {
                Err(MediaError::new(ErrorKind::InputError, "frame rate must be positive"))
            } else {
                Ok(size)
            }
        },
        Err(e) => Err(e),
    }
}

/// Checks a request for a one-shot conversion.
///
/// Gives the plan to start the encoder with exactly when the size and the
/// rate are acceptable; the plan holds the request unchanged, with the size
/// read. Otherwise the request is refused with an `InputError`. Whether the
/// encoder knows the codec is for the encoder to say when it runs.
pub fn plan_conversion(
    input_dir: String,
    output: String,
    resolution: &str,
    fps: u32,
    codec: String,
) -> (r: Result<ConversionPlan, MediaError>)
    ensures
        match r {
            Ok(plan) => video_parameters_valid(resolution@, fps) && plan == (ConversionPlan {
                input_dir,
                output,
                resolution: parsed(resolution@).unwrap(),
                fps,
                codec,
            }),
            Err(e) => !video_parameters_valid(resolution@, fps) && e.kind == ErrorKind::InputError,
        },
{
    match check_video_parameters(resolution, fps) {
        Ok(size) => Ok(ConversionPlan { input_dir, output, resolution: size, fps, codec }),
        Err(e) => Err(e),
    }
}

/// Judges how the encoder process ended.
///
/// `exit_code` is the code the process exited with, or `None` when it ended
/// without one. Only a code of zero is a success. Anything else is an
/// `EncodingError` that carries the process's diagnostic output, and the
/// output file is to be discarded.
pub fn judge_encoder_exit(exit_code: Option<i32>, diagnostic: String) -> (verdict: EncoderVerdict)
    ensures
        verdict.result.is_ok() <==> exit_code == Some(0i32),
        verdict.discard_output <==> exit_code != Some(0i32),
        verdict.result matches Err(e) ==> e.kind == ErrorKind::EncodingError && e.message
            == diagnostic,
{
    match exit_code {
        Some(code) if code == 0 => EncoderVerdict { result: Ok(()), discard_output: false },
        _ => EncoderVerdict {
            result: Err(MediaError { kind: ErrorKind::EncodingError, message: diagnostic }),
            discard_output: true,
        },
    }
}

} // verus!
