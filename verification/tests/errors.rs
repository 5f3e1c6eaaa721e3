use gamepad_host::errors::{EnumerationError, GamepadError, HidError, PipeError};

#[test]
fn pipe_errors_become_transfer_errors() {
    assert_eq!(GamepadError::from(PipeError::Stall), GamepadError::Transfer(PipeError::Stall));
    assert_eq!(
        GamepadError::from(PipeError::Disconnected),
        GamepadError::Transfer(PipeError::Disconnected)
    );
}

#[test]
fn hid_errors_are_mapped() {
    assert_eq!(
        GamepadError::from(HidError::Transfer(PipeError::Timeout)),
        GamepadError::Transfer(PipeError::Timeout)
    );
    assert_eq!(GamepadError::from(HidError::NoInterface), GamepadError::NotSupported);
    assert_eq!(GamepadError::from(HidError::NoPipe), GamepadError::NoPipe);
}

#[test]
fn gamepad_error_messages() {
    assert_eq!(GamepadError::NotSupported.to_string(), "Unsupported device");
    assert_eq!(GamepadError::NoPipe.to_string(), "No free pipe");
    assert_eq!(
        GamepadError::Transfer(PipeError::Disconnected).to_string(),
        "Transfer error: Disconnected"
    );
}

#[test]
fn pipe_error_names_are_those_of_debug() {
    let all = [
        PipeError::BufferOverflow,
        PipeError::BadResponse,
        PipeError::Babble,
        PipeError::DataToggleError,
        PipeError::Canceled,
        PipeError::Stall,
        PipeError::Timeout,
        PipeError::Disconnected,
    ];
    for e in all {
        assert_eq!(e.as_str(), format!("{:?}", e));
        assert_eq!(GamepadError::from(e).to_string(), format!("Transfer error: {:?}", e));
    }
}

#[test]
fn enumeration_error_text_is_that_of_debug() {
    let all = [
        EnumerationError::Transfer(PipeError::Babble),
        EnumerationError::InvalidDescriptor,
        EnumerationError::ConfigBufferTooSmall(1234),
        EnumerationError::NoPipe,
        EnumerationError::RequestFailed,
    ];
    for e in all {
        let mut out = String::from("> ");
        e.push_to(&mut out);
        assert_eq!(out, format!("> {:?}", e));
    }
}
