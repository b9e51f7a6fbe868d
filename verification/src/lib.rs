//! FarCaster: a point-to-point message envelope with optional authenticated
//! encryption of its payload, and a transport core that frames envelopes
//! over a byte stream.
//!
//! The crate does no I/O. It computes the bytes to write and decides how many
//! bytes to read next, and leaves the socket to its caller.
//!
//! - [`envelope`]: the message, a descriptor byte and two opaque byte fields.
//! - [`codec`]: the frame of an envelope on the wire, and the way back.
//! - [`cipher`]: AES-256-GCM over the payload, with the key and the nonce
//!   given at each call.
//! - [`transport`]: the deciding half of a connection, which holds what is to
//!   be sent and puts together what arrives.
//! - [`error`]: what can go wrong in each of them.

pub mod cipher;
pub mod codec;
pub mod envelope;
pub mod error;
pub mod transport;

pub use codec::{decode, decode_prefix, encode};
pub use envelope::{Envelope, FCPayload, MAX_FIELD_LEN};
pub use error::{CipherError, DecodeError, EncodeError, ReceiveError};
pub use transport::{CannonLauncher, ReadStep, StreamEvent};
