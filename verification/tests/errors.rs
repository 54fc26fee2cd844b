use remote_desktop::error::{ProtocolError, Severity};

#[test]
fn each_failure_has_its_reach() {
    assert_eq!(ProtocolError::BackendUnavailable.severity(), Severity::Fatal);
    assert_eq!(ProtocolError::TransportFailed.severity(), Severity::ConnectionFatal);
    assert_eq!(ProtocolError::IncompleteFrame.severity(), Severity::ConnectionFatal);
    assert_eq!(ProtocolError::FrameTooLarge.severity(), Severity::Recoverable);
    assert_eq!(ProtocolError::CaptureSkipped.severity(), Severity::Recoverable);
    assert_eq!(ProtocolError::CorruptFrame.severity(), Severity::Recoverable);
    assert_eq!(ProtocolError::MalformedEvent.severity(), Severity::Recoverable);
}

#[test]
fn only_a_failure_of_one_tick_keeps_the_connection() {
    assert!(ProtocolError::BackendUnavailable.ends_connection());
    assert!(ProtocolError::TransportFailed.ends_connection());
    assert!(ProtocolError::IncompleteFrame.ends_connection());
    assert!(!ProtocolError::FrameTooLarge.ends_connection());
    assert!(!ProtocolError::CaptureSkipped.ends_connection());
    assert!(!ProtocolError::CorruptFrame.ends_connection());
    assert!(!ProtocolError::MalformedEvent.ends_connection());
}
