use media_composer::error::ErrorKind;
use media_composer::pipeline::{
    check_video_parameters, judge_encoder_exit, plan_conversion, ConversionPlan,
};
use media_composer::resolution::Resolution;

#[test]
fn a_valid_request_becomes_a_plan() {
    let plan = plan_conversion(
        "frames".to_string(),
        "out.mp4".to_string(),
        "640x480",
        30,
        "libx264".to_string(),
    )
    .unwrap();
    assert_eq!(
        plan,
        ConversionPlan {
            input_dir: "frames".to_string(),
            output: "out.mp4".to_string(),
            resolution: Resolution { width: 640, height: 480 },
            fps: 30,
            codec: "libx264".to_string(),
        }
    );
}

#[test]
fn a_plan_needs_a_resolution() {
    let err = plan_conversion(
        "frames".to_string(),
        "out.mp4".to_string(),
        "640by480",
        30,
        "libx264".to_string(),
    )
    .unwrap_err();
    assert_eq!(err.kind, ErrorKind::InputError);
}

#[test]
fn a_plan_needs_a_positive_frame_rate() {
    let err = plan_conversion(
        "frames".to_string(),
        "out.mp4".to_string(),
        "640x480",
        0,
        "libx264".to_string(),
    )
    .unwrap_err();
    assert_eq!(err.kind, ErrorKind::InputError);
}

#[test]
fn a_plan_does_not_judge_the_codec() {
    let plan = plan_conversion(
        "frames".to_string(),
        "out.mp4".to_string(),
        "2x2",
        1,
        "no-such-codec".to_string(),
    )
    .unwrap();
    assert_eq!(plan.codec, "no-such-codec");
}

#[test]
fn video_parameters_are_checked_together() {
    assert_eq!(
        check_video_parameters("1920x1080", 60).unwrap(),
        Resolution { width: 1920, height: 1080 }
    );
    assert_eq!(check_video_parameters("1920x1080", 0).unwrap_err().kind, ErrorKind::InputError);
    assert_eq!(check_video_parameters("0x1080", 60).unwrap_err().kind, ErrorKind::InputError);
    assert_eq!(check_video_parameters("", 0).unwrap_err().kind, ErrorKind::InputError);
    assert_eq!(
        check_video_parameters("1x1", u32::MAX).unwrap(),
        Resolution { width: 1, height: 1 }
    );
}

#[test]
fn a_clean_exit_is_a_success() {
    let verdict = judge_encoder_exit(Some(0), "frame=   10 fps=0.0".to_string());
    assert_eq!(verdict.result, Ok(()));
    assert!(!verdict.discard_output);
}

#[test]
fn another_exit_code_is_an_encoding_error() {
    let verdict = judge_encoder_exit(Some(1), "Unknown encoder 'nope'".to_string());
    let err = verdict.result.unwrap_err();
    assert_eq!(err.kind, ErrorKind::EncodingError);
    assert_eq!(err.message, "Unknown encoder 'nope'");
    assert!(verdict.discard_output);
    let negative = judge_encoder_exit(Some(-1), String::new());
    assert_eq!(negative.result.unwrap_err().kind, ErrorKind::EncodingError);
    assert!(negative.discard_output);
}

#[test]
fn an_exit_without_a_code_is_an_encoding_error() {
    let verdict = judge_encoder_exit(None, "killed".to_string());
    let err = verdict.result.unwrap_err();
    assert_eq!(err.kind, ErrorKind::EncodingError);
    assert_eq!(err.message, "killed");
    assert!(verdict.discard_output);
}
