use vstd::prelude::*;

verus! {

/// Failures reported to the caller of the session core.
#[derive(Debug, Clone, PartialEq, Eq)]
pub enum AmpsError {
    /// No acknowledgment of the logon arrived in time, after every allowed attempt.
    ConnectTimeout,
    /// The transport could not be opened or failed, after every allowed attempt.
    TransportError,
    /// The server refused the logon, with its reason.
    LogonRejected(String),
    /// A send was attempted while the session was not logged on.
    NotConnected,
    /// A message was finalized without a Command field.
    MissingCommand,
    /// A builder was used again after it was finalized.
    AlreadyFinalized,
    /// A field outside the enumerated set was given, or a tag byte names none.
    UnknownField,
    /// A field value or a payload is longer than its configured maximum.
    FieldTooLong,
    /// A byte buffer does not follow the wire layout.
    MalformedFrame,
    /// A delivery for a registered subscription found the inbox full; it was
    /// not taken, and the frame stays with the caller to hand in again.
    InboxFull,
}

} // verus!
