use vstd::prelude::*;

verus! {

/// `std::io::Error`, carried through unchanged from the transport.
#[verifier::external_type_specification]
#[verifier::external_body]
pub struct ExIoError(std::io::Error);

/// `bincode::ErrorKind`, the boxed payload of `bincode::Error`.
#[verifier::external_type_specification]
#[verifier::external_body]
pub struct ExBincodeErrorKind(bincode::ErrorKind);

/// The failures the typed transport (`async_io_typed`) can report, one variant for each
/// of its error's variants, with the same fields.
#[derive(Debug)]
pub enum TypedFailure {
    Io(std::io::Error),
    Bincode(bincode::Error),
    SentMessageTooLarge,
    ReceivedMessageTooLarge,
    ChecksumMismatch { sent_checksum: u64, computed_checksum: u64 },
    ProtocolVersionMismatch { our_version: u64, their_version: u64 },
    ChecksumHandshakeFailed { checksum_value: u8 },
}

/// Errors which can occur on a conversation connection.
#[derive(Debug)]
pub enum Error {
    /// Error from `std::io`
    Io(std::io::Error),
    /// Error from the `bincode` crate
    Bincode(bincode::Error),
    /// A message was received that exceeded the configured length limit
    ReceivedMessageTooLarge,
    /// A message was sent that exceeded the configured length limit
    SentMessageTooLarge,
    /// The bytes of a received message did not match the checksum sent with them
    ChecksumMismatch { sent_checksum: u64, computed_checksum: u64 },
    /// The peer speaks another version of the transport protocol
    ProtocolVersionMismatch { our_version: u64, their_version: u64 },
    /// The peer answered the checksum handshake with an unexpected value
    ChecksumHandshakeFailed { checksum_value: u8 },
    /// A reply wasn't received within the timeout specified
    Timeout,
    /// The read half was dropped, crippling the ability to receive replies.
    ReadHalfDropped,
}

/// What a transport failure becomes on a conversation connection: the same failure,
/// variant for variant, with its fields unchanged.
pub open spec fn error_of_failure(f: TypedFailure) -> Error {
    match f {
        TypedFailure::Io(e) => Error::Io(e),
        TypedFailure::Bincode(e) => Error::Bincode(e),
        TypedFailure::SentMessageTooLarge => Error::SentMessageTooLarge,
        TypedFailure::ReceivedMessageTooLarge => Error::ReceivedMessageTooLarge,
        TypedFailure::ChecksumMismatch { sent_checksum, computed_checksum } =>
            Error::ChecksumMismatch { sent_checksum, computed_checksum },
        TypedFailure::ProtocolVersionMismatch { our_version, their_version } =>
            Error::ProtocolVersionMismatch { our_version, their_version },
        TypedFailure::ChecksumHandshakeFailed { checksum_value } =>
            Error::ChecksumHandshakeFailed { checksum_value },
    }
}

impl From<TypedFailure> for Error {
    fn from(f: TypedFailure) -> (e: Error)
        ensures
            e == error_of_failure(f),
    {
        match f {
            TypedFailure::Io(e) => Error::Io(e),
            TypedFailure::Bincode(e) => Error::Bincode(e),
            TypedFailure::SentMessageTooLarge => Error::SentMessageTooLarge,
            TypedFailure::ReceivedMessageTooLarge => Error::ReceivedMessageTooLarge,
            TypedFailure::ChecksumMismatch { sent_checksum, computed_checksum } =>
                Error::ChecksumMismatch { sent_checksum, computed_checksum },
            TypedFailure::ProtocolVersionMismatch { our_version, their_version } =>
                Error::ProtocolVersionMismatch { our_version, their_version },
            TypedFailure::ChecksumHandshakeFailed { checksum_value } =>
                Error::ChecksumHandshakeFailed { checksum_value },
        }
    }
}

impl vstd::std_specs::convert::FromSpecImpl<TypedFailure> for Error {
    open spec fn obeys_from_spec() -> bool {
        true
    }

    open spec fn from_spec(f: TypedFailure) -> Error {
        error_of_failure(f)
    }
}

} // verus!
