//! The envelope: one message, as a descriptor byte and two opaque byte fields.

use vstd::prelude::*;

verus! {

/// The longest payload or metadata, in bytes, that a frame can carry.
pub const MAX_FIELD_LEN: usize = 65535;

/// What an envelope is: the mathematical value that contracts speak of.
pub struct Envelope {
    /// Message kind, chosen by the application and never interpreted here.
    pub descriptor: u8,
    /// The primary content, plaintext or ciphertext followed by its tag.
    pub payload: Seq<u8>,
    /// Auxiliary data, always in the clear.
    pub metadata: Seq<u8>,
}

impl Envelope {
    /// Both fields are short enough for the 16-bit lengths of a frame.
    pub open spec fn fits_wire(self) -> bool {
        self.payload.len() <= MAX_FIELD_LEN && self.metadata.len() <= MAX_FIELD_LEN
    }

    /// This envelope with another payload.
    pub open spec fn with_payload(self, payload: Seq<u8>) -> Envelope {
        Envelope { descriptor: self.descriptor, payload, metadata: self.metadata }
    }

    /// This envelope with other metadata.
    pub open spec fn with_metadata(self, metadata: Seq<u8>) -> Envelope {
        Envelope { descriptor: self.descriptor, payload: self.payload, metadata }
    }

    /// This envelope with another descriptor.
    pub open spec fn with_descriptor(self, descriptor: u8) -> Envelope {
        Envelope { descriptor, payload: self.payload, metadata: self.metadata }
    }
}

/// One message: a descriptor byte, a payload and metadata.
///
/// The payload and the metadata are opaque bytes. Whether the payload is
/// plaintext or ciphertext is not recorded: the caller keeps track.
#[derive(Debug, PartialEq, Eq)]
pub struct FCPayload {
    /// Message kind, chosen by the application and never interpreted here.
    pub descriptor: u8,
    payload: Vec<u8>,
    metadata: Vec<u8>,
}

impl View for FCPayload {
    type V = Envelope;

    closed spec fn view(&self) -> Envelope {
        Envelope { descriptor: self.descriptor, payload: self.payload@, metadata: self.metadata@ }
    }
}

impl Clone for FCPayload {
    /// A copy that holds the same envelope.
    fn clone(&self) -> (copy: FCPayload)
        ensures
            copy@ == self@,
    {
        FCPayload {
            descriptor: self.descriptor,
            payload: self.payload.clone(),
            metadata: self.metadata.clone(),
        }
    }
}

impl FCPayload {
    /// An envelope of the given parts.
    pub fn new(descriptor: u8, payload: Vec<u8>, metadata: Vec<u8>) -> (envelope: FCPayload)
        ensures
            envelope@ == (Envelope { descriptor, payload: payload@, metadata: metadata@ }),
    {
        FCPayload { descriptor, payload, metadata }
    }

    /// The descriptor byte.
    pub fn descriptor(&self) -> (byte: u8)
        ensures
            byte == self@.descriptor,
    {
        self.descriptor
    }

    /// Replaces the descriptor and nothing else.
    pub fn override_descriptor(&mut self, byte: u8)
        ensures
            final(self)@ == old(self)@.with_descriptor(byte),
    {
        self.descriptor = byte;
    }

    /// Replaces the payload with `payload`, taken as it is, and hands the
    /// envelope back for further changes.
    pub fn insert_raw_payload(&mut self, payload: Vec<u8>) -> (envelope: &mut FCPayload)
        ensures
            envelope@ == old(self)@.with_payload(payload@),
            *final(self) == *final(envelope),
    {
        self.payload = payload;
        self
    }

    /// Replaces the metadata with `meta`, taken as it is, and hands the
    /// envelope back for further changes.
    pub fn insert_metadata(&mut self, meta: Vec<u8>) -> (envelope: &mut FCPayload)
        ensures
            envelope@ == old(self)@.with_metadata(meta@),
            *final(self) == *final(envelope),
    {
        self.metadata = meta;
        self
    }

    /// The payload bytes as they stand, for the caller to read in the
    /// encoding it wrote them in.
    pub fn decode_raw_payload(&self) -> (bytes: &[u8])
        ensures
            bytes@ == self@.payload,
    {
        self.payload.as_slice()
    }

    /// The metadata bytes as they stand, for the caller to read in the
    /// encoding it wrote them in.
    pub fn decode_metadata(&self) -> (bytes: &[u8])
        ensures
            bytes@ == self@.metadata,
    {
        self.metadata.as_slice()
    }
}

} // verus!
