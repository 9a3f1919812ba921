//! The failures that the engine reports.

use vstd::prelude::*;

verus! {

/// What went wrong, by category.
#[derive(Clone, Copy, Debug, PartialEq, Eq, Structural)]
pub enum ErrorKind {
    /// A parameter is malformed: a resolution string, a frame rate of zero,
    /// lists of sounds and timestamps of different lengths.
    InputError,
    /// The operation is not legal in the session's current state.
    StateError,
    /// The encoder toolchain is missing or cannot be probed.
    EnvironmentError,
    /// The encoder process could not be started or did not exit cleanly.
    EncodingError,
    /// A sound source is unreadable or corrupt.
    DecodeError,
    /// The result could not be written.
    IoError,
}

/// A failure: its kind and a diagnostic for a human reader.
#[derive(Clone, Debug, PartialEq, Eq)]
pub struct MediaError {
    pub kind: ErrorKind,
    pub message: String,
}

/// The name of a kind, as it is shown to the user.
pub open spec fn kind_name(kind: ErrorKind) -> Seq<char> {
    match kind {
        ErrorKind::InputError => "InputError"@,
        ErrorKind::StateError => "StateError"@,
        ErrorKind::EnvironmentError => "EnvironmentError"@,
        ErrorKind::EncodingError => "EncodingError"@,
        ErrorKind::DecodeError => "DecodeError"@,
        ErrorKind::IoError => "IoError"@,
    }
}

impl ErrorKind {
    /// The name of this kind.
    pub fn name(self) -> (name: &'static str)
        ensures
            name@ == kind_name(self),
    {
        match self {
            ErrorKind::InputError => "InputError",
            ErrorKind::StateError => "StateError",
            ErrorKind::EnvironmentError => "EnvironmentError",
            ErrorKind::EncodingError => "EncodingError",
            ErrorKind::DecodeError => "DecodeError",
            ErrorKind::IoError => "IoError",
        }
    }
}

impl MediaError {
    /// A failure of the given kind with the given diagnostic.
    pub fn new(kind: ErrorKind, message: &str) -> (e: MediaError)
        ensures
            e.kind == kind,
            e.message@ == message@,
    {
        MediaError { kind, message: message.to_owned() }
    }

    /// The text shown to the user: the kind's name, a colon and a space, and
    /// the diagnostic.
    pub fn describe(&self) -> (text: String)
        ensures
            text@ == kind_name(self.kind) + ": "@ + self.message@,
    {
        let mut text: String = self.kind.name().to_owned();
        text.append(": ");
        text.append(self.message.as_str());
        text
    }
}

} // verus!
