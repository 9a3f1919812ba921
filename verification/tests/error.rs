use media_composer::error::{ErrorKind, MediaError};

#[test]
fn an_error_holds_its_kind_and_message() {
    let e = MediaError::new(ErrorKind::IoError, "disk full");
    assert_eq!(e.kind, ErrorKind::IoError);
    assert_eq!(e.message, "disk full");
}

#[test]
fn kinds_have_their_names() {
    assert_eq!(ErrorKind::InputError.name(), "InputError");
    assert_eq!(ErrorKind::StateError.name(), "StateError");
    assert_eq!(ErrorKind::EnvironmentError.name(), "EnvironmentError");
    assert_eq!(ErrorKind::EncodingError.name(), "EncodingError");
    assert_eq!(ErrorKind::DecodeError.name(), "DecodeError");
    assert_eq!(ErrorKind::IoError.name(), "IoError");
}

#[test]
fn an_error_is_described_by_kind_and_message() {
    let e = MediaError::new(ErrorKind::DecodeError, "clip.ogg is not audio");
    assert_eq!(e.describe(), "DecodeError: clip.ogg is not audio");
    let empty = MediaError::new(ErrorKind::StateError, "");
    assert_eq!(empty.describe(), "StateError: ");
}
