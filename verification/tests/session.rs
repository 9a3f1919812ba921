use media_composer::error::ErrorKind;
use media_composer::pipeline::judge_encoder_exit;
use media_composer::resolution::Resolution;
use media_composer::session::{EncodingSession, SessionState, VideoSettings};

fn request(session: &EncodingSession) -> VideoSettings {
    session
        .prepare_setup(
            "out.mp4".to_string(),
            "640x480",
            30,
            "libx264".to_string(),
            "4M".to_string(),
        )
        .unwrap()
}

fn configured() -> EncodingSession {
    let mut session = EncodingSession::new();
    let settings = request(&session);
    session.complete_setup(settings, Ok(())).unwrap();
    session
}

#[test]
fn a_new_session_is_uninitialized() {
    let session = EncodingSession::new();
    assert_eq!(session.state(), SessionState::Uninitialized);
    assert!(!session.holds_process());
    assert!(session.settings().is_none());
}

#[test]
fn setup_gives_the_settings_to_start_with() {
    let session = EncodingSession::new();
    let settings = request(&session);
    assert_eq!(
        settings,
        VideoSettings {
            output: "out.mp4".to_string(),
            resolution: Resolution { width: 640, height: 480 },
            fps: 30,
            codec: "libx264".to_string(),
            bitrate: "4M".to_string(),
        }
    );
    assert_eq!(session.state(), SessionState::Uninitialized);
}

#[test]
fn setup_configures_the_session() {
    let session = configured();
    assert_eq!(session.state(), SessionState::Configured);
    assert!(session.holds_process());
    assert_eq!(session.settings().unwrap().codec, "libx264");
    assert_eq!(session.settings().unwrap().resolution, Resolution { width: 640, height: 480 });
}

#[test]
fn setup_checks_its_parameters() {
    let session = EncodingSession::new();
    let bad_size = session.prepare_setup(
        "out.mp4".to_string(),
        "640",
        30,
        "libx264".to_string(),
        "4M".to_string(),
    );
    assert_eq!(bad_size.unwrap_err().kind, ErrorKind::InputError);
    let bad_rate = session.prepare_setup(
        "out.mp4".to_string(),
        "640x480",
        0,
        "libx264".to_string(),
        "4M".to_string(),
    );
    assert_eq!(bad_rate.unwrap_err().kind, ErrorKind::InputError);
    assert_eq!(session.state(), SessionState::Uninitialized);
}

#[test]
fn finish_before_setup_fails_and_finalizes() {
    let mut session = EncodingSession::new();
    let err = session.finish().unwrap_err();
    assert_eq!(err.kind, ErrorKind::EncodingError);
    assert_eq!(session.state(), SessionState::Finalized);
    assert!(!session.holds_process());
}

#[test]
fn setup_while_configured_is_a_state_error() {
    let mut session = configured();
    let again = session.prepare_setup(
        "other.mp4".to_string(),
        "320x240",
        25,
        "mpeg4".to_string(),
        "1M".to_string(),
    );
    assert_eq!(again.unwrap_err().kind, ErrorKind::StateError);
    let other = VideoSettings {
        output: "other.mp4".to_string(),
        resolution: Resolution { width: 320, height: 240 },
        fps: 25,
        codec: "mpeg4".to_string(),
        bitrate: "1M".to_string(),
    };
    let forced = session.complete_setup(other, Ok(()));
    assert_eq!(forced.unwrap_err().kind, ErrorKind::StateError);
    assert_eq!(session.state(), SessionState::Configured);
    assert_eq!(session.settings().unwrap().output, "out.mp4");
    assert_eq!(session.settings().unwrap().fps, 30);
}

#[test]
fn setup_while_configured_is_refused_before_the_parameters_are_read() {
    let session = configured();
    let again = session.prepare_setup(
        "other.mp4".to_string(),
        "not a size",
        0,
        "mpeg4".to_string(),
        "1M".to_string(),
    );
    assert_eq!(again.unwrap_err().kind, ErrorKind::StateError);
}

#[test]
fn a_failed_start_leaves_the_session_as_it_was() {
    let mut session = EncodingSession::new();
    let settings = request(&session);
    let err = session
        .complete_setup(settings, Err("Unknown encoder 'libx264'".to_string()))
        .unwrap_err();
    assert_eq!(err.kind, ErrorKind::EncodingError);
    assert_eq!(err.message, "Unknown encoder 'libx264'");
    assert_eq!(session.state(), SessionState::Uninitialized);
    assert!(!session.holds_process());
    let retry = request(&session);
    session.complete_setup(retry, Ok(())).unwrap();
    assert_eq!(session.state(), SessionState::Configured);
}

#[test]
fn frames_are_taken_only_while_configured() {
    let mut session = EncodingSession::new();
    assert_eq!(session.accept_frame().unwrap_err().kind, ErrorKind::StateError);
    let settings = request(&session);
    session.complete_setup(settings, Ok(())).unwrap();
    assert_eq!(session.accept_frame(), Ok(()));
    assert_eq!(session.accept_frame(), Ok(()));
    session.finish().unwrap();
    assert_eq!(session.accept_frame().unwrap_err().kind, ErrorKind::StateError);
}

#[test]
fn finish_releases_the_process() {
    let mut session = configured();
    assert_eq!(session.finish(), Ok(()));
    assert_eq!(session.state(), SessionState::Finalized);
    assert!(!session.holds_process());
    assert!(session.settings().is_none());
}

#[test]
fn a_second_finish_is_a_state_error() {
    let mut session = configured();
    session.finish().unwrap();
    let err = session.finish().unwrap_err();
    assert_eq!(err.kind, ErrorKind::StateError);
    assert_eq!(session.state(), SessionState::Finalized);
    assert!(!session.holds_process());
    assert_eq!(session.finish().unwrap_err().kind, ErrorKind::StateError);
}

#[test]
fn a_second_finish_after_a_refused_first_is_a_state_error() {
    let mut session = EncodingSession::new();
    assert_eq!(session.finish().unwrap_err().kind, ErrorKind::EncodingError);
    assert_eq!(session.finish().unwrap_err().kind, ErrorKind::StateError);
    assert!(!session.holds_process());
}

#[test]
fn a_failed_exit_still_finalizes() {
    let mut session = configured();
    session.finish().unwrap();
    let verdict = judge_encoder_exit(Some(1), "Conversion failed!".to_string());
    assert_eq!(verdict.result.unwrap_err().kind, ErrorKind::EncodingError);
    assert_eq!(session.state(), SessionState::Finalized);
    let settings = request(&session);
    session.complete_setup(settings, Ok(())).unwrap();
    assert_eq!(session.state(), SessionState::Configured);
}

#[test]
fn a_session_can_be_set_up_again_after_finish() {
    let mut session = configured();
    session.finish().unwrap();
    let settings = session
        .prepare_setup(
            "second.mp4".to_string(),
            "1280x720",
            24,
            "libvpx".to_string(),
            "2M".to_string(),
        )
        .unwrap();
    session.complete_setup(settings, Ok(())).unwrap();
    assert_eq!(session.state(), SessionState::Configured);
    assert!(session.holds_process());
    assert_eq!(session.settings().unwrap().output, "second.mp4");
    assert_eq!(session.finish(), Ok(()));
}

#[test]
fn a_session_can_be_set_up_after_a_refused_finish() {
    let mut session = EncodingSession::new();
    assert!(session.finish().is_err());
    let settings = request(&session);
    session.complete_setup(settings, Ok(())).unwrap();
    assert_eq!(session.state(), SessionState::Configured);
}
