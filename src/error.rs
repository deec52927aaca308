use vstd::prelude::*;

verus! {

/// Failures of the byte stream underneath the protocol.
#[derive(Debug, Clone, Copy, PartialEq, Eq, Structural)]
pub enum TransportError {
    /// No response arrived within the stream's configured timeout.
    Timeout,
    /// The stream reported an I/O failure.
    Io,
    /// The input ended before a read of the requested length completed.
    UnexpectedEof,
}

/// Every way a frame, a response or an update step can fail.
#[derive(Debug, Clone, Copy, PartialEq, Eq, Structural)]
pub enum ProtocolError {
    /// The frame does not start with the magic pair.
    BadMagic,
    /// The frame carries a protocol version other than the supported one.
    UnsupportedVersion,
    /// The trailing checksum does not match the received frame.
    ChecksumMismatch,
    /// The response identifier byte is not one of the defined responses.
    UnknownResponse(u8),
    /// A well-formed frame carried a payload that does not parse.
    MalformedPayload,
    /// The underlying stream failed.
    Transport(TransportError),
    /// A valid response of the wrong kind for the current step.
    UnexpectedResponse,
    /// The device answered with an error response.
    DeviceRejected,
    /// The device's checksum of the written image is not the expected one.
    VerificationFailed,
}

} // verus!
