//! Error types, one per component.

use vstd::prelude::*;

verus! {

/// Why an envelope could not be put on the wire.
#[derive(Debug, Clone, Copy, PartialEq, Eq, Structural)]
pub enum EncodeError {
    /// The payload or the metadata is longer than a 16-bit length can say.
    FieldTooLarge,
}

/// Why a byte string is not a frame.
#[derive(Debug, Clone, Copy, PartialEq, Eq, Structural)]
pub enum DecodeError {
    /// The input ends before the frame it starts does.
    Truncated,
    /// The input cannot start a frame at all.
    Malformed,
}

/// Why a payload could not be encrypted or decrypted.
#[derive(Debug, Clone, Copy, PartialEq, Eq, Structural)]
pub enum CipherError {
    /// The authentication tag does not verify: the payload was altered, or the
    /// key or the nonce is not the one it was encrypted under.
    AuthenticationFailed,
    /// The key is not 32 bytes long, or the nonce is not 12 bytes long.
    InvalidKeyMaterial,
}

/// Why no envelope came out of a receive.
#[derive(Debug, Clone, Copy, PartialEq, Eq, Structural)]
pub enum ReceiveError {
    /// The stream ended before a whole frame had arrived.
    ConnectionClosed,
    /// The bytes that arrived do not follow the wire format.
    Protocol(DecodeError),
}

} // verus!
