//! The streaming encoding session.
//!
//! A session is opened once, takes frames one at a time over many calls, and
//! is closed on demand. The encoder process itself belongs to the caller; the
//! session says when it may be started, whether a frame may be written to it,
//! and when it must be released.
//!
//! ```text
//! Uninitialized --setup--> Configured --finish--> Finalized --setup--> Configured ...
//! ```

use crate::error::{ErrorKind, MediaError};
use crate::pipeline::{check_video_parameters, video_parameters_valid};
use crate::resolution::{parsed, Resolution};
use vstd::prelude::*;

verus! {

/// Where a session stands in its life.
#[derive(Clone, Copy, Debug, PartialEq, Eq, Structural)]
pub enum SessionState {
    /// Nothing has been set up; no process is held.
    Uninitialized,
    /// An encoder process is running and takes frames.
    Configured,
    /// The session was closed; no process is held.
    Finalized,
}

/// What an encoder process is started with for a session.
#[derive(Clone, Debug, PartialEq, Eq)]
pub struct VideoSettings {
    /// Where the video goes.
    pub output: String,
    /// The size of the frames.
    pub resolution: Resolution,
    /// Frames per second.
    pub fps: u32,
    /// The identifier of the encoder, as the catalog lists it.
    pub codec: String,
    /// The target bitrate, in the encoder's own notation.
    pub bitrate: String,
}

/// The one encoding session of a process.
#[derive(Debug)]
pub struct EncodingSession {
    state: SessionState,
    settings: Option<VideoSettings>,
}

/// Why a setup is refused before any process is started, if it is: a live
/// session is never replaced, and the parameters must be acceptable.
pub open spec fn setup_refusal(state: SessionState, resolution: Seq<char>, fps: u32) -> Option<
    ErrorKind,
> {
    if state == SessionState::Configured {
        Some(ErrorKind::StateError)
    } else if !video_parameters_valid(resolution, fps) {
        Some(ErrorKind::InputError)
    } else {
        None
    }
}

/// The state after a setup that was not refused: configured when the encoder
/// started, unchanged when it did not.
pub open spec fn state_after_setup(state: SessionState, started: bool) -> SessionState {
    if state != SessionState::Configured && started {
        SessionState::Configured
    } else {
        state
    }
}

/// Why a finish is refused, if it is. Only a configured session has a
/// process to wait for; a session that was never set up has encoded
/// nothing, and one that is closed cannot be closed again.
pub open spec fn finish_refusal(state: SessionState) -> Option<ErrorKind> {
    match state {
        SessionState::Configured => None,
        SessionState::Uninitialized => Some(ErrorKind::EncodingError),
        SessionState::Finalized => Some(ErrorKind::StateError),
    }
}

/// The state after a finish, refused or not.
pub open spec fn state_after_finish(state: SessionState) -> SessionState {
    SessionState::Finalized
}

/// A session in this state holds an encoder process.
pub open spec fn state_holds_process(state: SessionState) -> bool {
    state == SessionState::Configured
}

impl EncodingSession {
    /// Where the session stands.
    pub closed spec fn spec_state(&self) -> SessionState {
        self.state
    }

    /// The settings of the running encoder, if one is running.
    pub closed spec fn spec_settings(&self) -> Option<VideoSettings> {
        self.settings
    }

    /// The session holds settings exactly while it is configured.
    #[verifier::type_invariant]
    spec fn settings_follow_state(&self) -> bool {
        self.settings.is_some() <==> self.state == SessionState::Configured
    }

    /// A session that has not been set up.
    pub fn new() -> (session: EncodingSession)
        ensures
            session.spec_state() == SessionState::Uninitialized,
            session.spec_settings().is_none(),
    {
        EncodingSession { state: SessionState::Uninitialized, settings: None }
    }

    /// Where the session stands.
    pub fn state(&self) -> (state: SessionState)
        ensures
            state == self.spec_state(),
    {
        self.state
    }

    /// The settings of the running encoder, if one is running.
    pub fn settings(&self) -> (settings: Option<&VideoSettings>)
        ensures
            settings.is_some() <==> self.spec_state() == SessionState::Configured,
            settings == match self.spec_settings() {
                Some(s) => Some(&s),
                None => None,
            },
    {
        proof {
            use_type_invariant(self);
        }
        self.settings.as_ref()
    }

    /// Whether the session holds an encoder process.
    pub fn holds_process(&self) -> (held: bool)
        ensures
            held == state_holds_process(self.spec_state()),
    {
        match self.state {
            SessionState::Configured => true,
            _ => false,
        }
    }

    /// First half of a setup: decides whether an encoder may be started.
    ///
    /// Refuses with a `StateError` while the session is configured, and with
    /// an `InputError` when the size or the rate is not acceptable. Otherwise
    /// gives the settings to start the encoder with: the request unchanged,
    /// with the size read. The session itself does not change; the caller
    /// starts the process and reports back with `complete_setup`.
    pub fn prepare_setup(
        &self,
        output: String,
        resolution: &str,
        fps: u32,
        codec: String,
        bitrate: String,
    ) -> (r: Result<VideoSettings, MediaError>)
        ensures
            match r {
                Ok(settings) => setup_refusal(self.spec_state(), resolution@, fps).is_none()
                    && settings == (VideoSettings {
                    output,
                    resolution: parsed(resolution@).unwrap(),
                    fps,
                    codec,
                    bitrate,
                }),
                Err(e) => setup_refusal(self.spec_state(), resolution@, fps) == Some(e.kind),
            },
    {
        match self.state {
            SessionState::Configured => {
                return Err(
                    MediaError::new(ErrorKind::StateError, "an encoding session is already running"),
                );
            },
            _ => {},
        }
        match check_video_parameters(resolution, fps) {
            Ok(size) => Ok(VideoSettings { output, resolution: size, fps, codec, bitrate }),
            Err(e) => Err(e),
        }
    }

    /// Second half of a setup: records how starting the encoder went.
    ///
    /// `started` is `Ok` when the process runs, and else holds its
    /// diagnostic. When the process runs, the session becomes configured with
    /// `settings`. When it does not, the failure is an `EncodingError` that
    /// carries the diagnostic, and the session stays as it was. A session
    /// that is already configured is left untouched and answers with a
    /// `StateError`.
    pub fn complete_setup(&mut self, settings: VideoSettings, started: Result<(), String>) -> (r:
        Result<(), MediaError>)
        ensures
            final(self).spec_state() == state_after_setup(
                old(self).spec_state(),
                started.is_ok(),
            ),
            match r {
                Ok(()) => old(self).spec_state() != SessionState::Configured && started.is_ok()
                    && final(self).spec_settings() == Some(settings),
                Err(e) => *final(self) == *old(self) && (if old(self).spec_state()
                    == SessionState::Configured {
                    e.kind == ErrorKind::StateError
                } else {
                    e.kind == ErrorKind::EncodingError && started == Err::<(), String>(e.message)
                }),
            },
    {
        match self.state {
            SessionState::Configured => {
                return Err(
                    MediaError::new(ErrorKind::StateError, "an encoding session is already running"),
                );
            },
            _ => {},
        }
        match started {
            Ok(()) => {
                *self = EncodingSession {
                    state: SessionState::Configured,
                    settings: Some(settings),
                };
                Ok(())
            },
            Err(diagnostic) => Err(
                MediaError { kind: ErrorKind::EncodingError, message: diagnostic },
            ),
        }
    }

    /// Decides whether a frame may be written to the encoder now.
    ///
    /// Frames are taken only while the session is configured; at any other
    /// time the answer is a `StateError`. The caller writes one frame
    /// completely before it asks for the next.
    pub fn accept_frame(&self) -> (r: Result<(), MediaError>)
        ensures
            r.is_ok() <==> self.spec_state() == SessionState::Configured,
            r matches Err(e) ==> e.kind == ErrorKind::StateError,
    {
        match self.state {
            SessionState::Configured => Ok(()),
            _ => Err(MediaError::new(ErrorKind::StateError, "no encoding session is running")),
        }
    }

    /// Closes the session.
    ///
    /// Whatever the state before, the session is finalized afterwards and
    /// holds no process and no settings. On `Ok` the caller closes the
    /// encoder's input, waits for it to exit and judges the exit with
    /// `judge_encoder_exit`. A session that was never set up answers with an
    /// `EncodingError`, one that is already finalized with a `StateError`.
    pub fn finish(&mut self) -> (r: Result<(), MediaError>)
        ensures
            final(self).spec_state() == state_after_finish(old(self).spec_state()),
            final(self).spec_settings().is_none(),
            match r {
                Ok(()) => finish_refusal(old(self).spec_state()).is_none(),
                Err(e) => finish_refusal(old(self).spec_state()) == Some(e.kind),
            },
    {
        let before = self.state;
        *self = EncodingSession { state: SessionState::Finalized, settings: None };
        match before {
            SessionState::Configured => Ok(()),
            SessionState::Uninitialized => Err(
                MediaError::new(ErrorKind::EncodingError, "no encoding session was set up"),
            ),
            SessionState::Finalized => Err(
                MediaError::new(ErrorKind::StateError, "the encoding session is already finished"),
            ),
        }
    }
}

/// A setup on a configured session is refused with a `StateError`, whatever
/// it asks for, and leaves the session configured.
pub proof fn lemma_setup_while_configured(resolution: Seq<char>, fps: u32, started: bool)
    ensures
        setup_refusal(SessionState::Configured, resolution, fps) == Some(ErrorKind::StateError),
        state_after_setup(SessionState::Configured, started) == SessionState::Configured,
{
}

/// A session can be used again after it was closed: from any state without a
/// process, a setup with acceptable parameters whose encoder starts
/// configures the session; the finish that follows is not refused; and the
/// same setup then configures the session once more.
pub proof fn lemma_session_is_reusable(state: SessionState, resolution: Seq<char>, fps: u32)
    requires
        state != SessionState::Configured,
        video_parameters_valid(resolution, fps),
    ensures
        setup_refusal(state, resolution, fps).is_none(),
        state_after_setup(state, true) == SessionState::Configured,
        finish_refusal(state_after_setup(state, true)).is_none(),
        setup_refusal(state_after_finish(state_after_setup(state, true)), resolution, fps).is_none(),
        state_after_setup(state_after_finish(state_after_setup(state, true)), true)
            == SessionState::Configured,
{
}

/// A setup whose encoder does not start leaves the state as it was.
pub proof fn lemma_failed_setup_keeps_state(state: SessionState)
    ensures
        state_after_setup(state, false) == state,
{
}

/// Of two finishes in a row the second is refused with a `StateError`,
/// whatever the state before the first; and after either no process is held.
pub proof fn lemma_second_finish_is_refused(state: SessionState)
    ensures
        finish_refusal(state_after_finish(state)) == Some(ErrorKind::StateError),
        !state_holds_process(state_after_finish(state)),
        !state_holds_process(state_after_finish(state_after_finish(state))),
{
}

/// Only a configured session holds a process: at most one encoder runs.
pub proof fn lemma_process_only_while_configured(state: SessionState)
    ensures
        state_holds_process(state) <==> state == SessionState::Configured,
        finish_refusal(state).is_none() <==> state_holds_process(state),
{
}

} // verus!
