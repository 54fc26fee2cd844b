//! What can go wrong, and how far each failure reaches.

use vstd::prelude::*;

verus! {

/// How far a failure reaches.
#[derive(Clone, Copy, Debug, PartialEq, Eq, Structural)]
pub enum Severity {
    /// The process cannot start.
    Fatal,
    /// The connection on which it happened ends; others go on.
    ConnectionFatal,
    /// The tick in which it happened skips a step; the connection goes on.
    Recoverable,
}

/// A failure of the protocol core or of a backend it works with.
#[derive(Clone, Copy, Debug, PartialEq, Eq, Structural)]
pub enum ProtocolError {
    /// A capture or injection backend could not be set up.
    BackendUnavailable,
    /// The stream failed while reading or writing.
    TransportFailed,
    /// The stream closed before a whole frame had arrived.
    IncompleteFrame,
    /// A compressed frame is longer than the length field can say.
    FrameTooLarge,
    /// The capture backend had no frame this time.
    CaptureSkipped,
    /// Received bytes are no frame of any known format.
    CorruptFrame,
    /// A record of an event batch spells no event.
    MalformedEvent,
}

impl ProtocolError {
    /// The reach of each failure.
    pub open spec fn spec_severity(self) -> Severity {
        match self {
            ProtocolError::BackendUnavailable => Severity::Fatal,
            ProtocolError::TransportFailed => Severity::ConnectionFatal,
            ProtocolError::IncompleteFrame => Severity::ConnectionFatal,
            ProtocolError::FrameTooLarge => Severity::Recoverable,
            ProtocolError::CaptureSkipped => Severity::Recoverable,
            ProtocolError::CorruptFrame => Severity::Recoverable,
            ProtocolError::MalformedEvent => Severity::Recoverable,
        }
    }

    /// The reach of this failure.
    #[verifier::when_used_as_spec(spec_severity)]
    pub fn severity(self) -> (s: Severity)
        ensures
            s == self.spec_severity(),
    {
        match self {
            ProtocolError::BackendUnavailable => Severity::Fatal,
            ProtocolError::TransportFailed | ProtocolError::IncompleteFrame => {
                Severity::ConnectionFatal
            },
            ProtocolError::FrameTooLarge
            | ProtocolError::CaptureSkipped
            | ProtocolError::CorruptFrame
            | ProtocolError::MalformedEvent => Severity::Recoverable,
        }
    }

    /// Whether the connection's loop ends on this failure.
    pub fn ends_connection(self) -> (b: bool)
        ensures
            b == (self.spec_severity() != Severity::Recoverable),
    {
        match self.severity() {
            Severity::Recoverable => false,
            _ => true,
        }
    }
}

} // verus!
