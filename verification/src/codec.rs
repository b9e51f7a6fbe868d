//! The wire format: one envelope as one length-delimited frame.
//!
//! ```text
//! offset  size     field
//! 0       1 byte   descriptor
//! 1       2 bytes  payload length P, big-endian
//! 3       P bytes  payload
//! 3+P     2 bytes  metadata length M, big-endian
//! 5+P     M bytes  metadata
//! ```

use vstd::prelude::*;
use vstd::slice::slice_to_vec;
use crate::envelope::{Envelope, FCPayload, MAX_FIELD_LEN};
use crate::error::{DecodeError, EncodeError};

verus! {

/// The bytes of a frame that are not payload or metadata: the descriptor and
/// the two lengths.
pub const FRAME_OVERHEAD: usize = 5;

/// The two bytes that stand for `n` on the wire, high byte first.
pub open spec fn be16(n: nat) -> Seq<u8>
    recommends
        n <= MAX_FIELD_LEN,
{
    seq![(n / 256) as u8, (n % 256) as u8]
}

/// The number that two bytes on the wire stand for, high byte first.
pub open spec fn be16_value(hi: u8, lo: u8) -> nat {
    (hi as nat) * 256 + (lo as nat)
}

/// The frame of an envelope.
pub open spec fn encode_spec(e: Envelope) -> Seq<u8>
    recommends
        e.fits_wire(),
{
    seq![e.descriptor] + be16(e.payload.len()) + e.payload + be16(e.metadata.len()) + e.metadata
}

/// The payload length that a frame declares.
pub open spec fn declared_payload_len(bytes: Seq<u8>) -> nat
    recommends
        bytes.len() >= 3,
{
    be16_value(bytes[1], bytes[2])
}

/// The metadata length that a frame declares.
pub open spec fn declared_metadata_len(bytes: Seq<u8>) -> nat
    recommends
        bytes.len() >= FRAME_OVERHEAD + declared_payload_len(bytes),
{
    let p = declared_payload_len(bytes) as int;
    be16_value(bytes[3 + p], bytes[4 + p])
}

/// The length of the frame that `bytes` starts with, by the lengths it
/// declares.
pub open spec fn frame_len(bytes: Seq<u8>) -> nat
    recommends
        bytes.len() >= FRAME_OVERHEAD + declared_payload_len(bytes),
{
    (FRAME_OVERHEAD + declared_payload_len(bytes) + declared_metadata_len(bytes)) as nat
}

/// How many more bytes must follow `bytes` before the next length can be
/// read: up to the payload length first, then up to the metadata length,
/// then up to the end of the frame. Zero when `bytes` starts with a whole
/// frame.
pub open spec fn missing(bytes: Seq<u8>) -> nat {
    if bytes.len() < 3 {
        (3 - bytes.len()) as nat
    } else if bytes.len() < FRAME_OVERHEAD + declared_payload_len(bytes) {
        (FRAME_OVERHEAD + declared_payload_len(bytes) - bytes.len()) as nat
    } else if bytes.len() < frame_len(bytes) {
        (frame_len(bytes) - bytes.len()) as nat
    } else {
        0
    }
}

/// The envelope whose frame `bytes` starts with.
pub open spec fn framed_envelope(bytes: Seq<u8>) -> Envelope
    recommends
        missing(bytes) == 0,
{
    let p = declared_payload_len(bytes) as int;
    Envelope {
        descriptor: bytes[0],
        payload: bytes.subrange(3, 3 + p),
        metadata: bytes.subrange(5 + p, frame_len(bytes) as int),
    }
}

/// What decoding `bytes` gives: the envelope of the frame that `bytes` starts
/// with, whatever follows that frame; `Malformed` for no bytes at all;
/// `Truncated` where the bytes end before the frame does.
pub open spec fn decode_spec(bytes: Seq<u8>) -> Result<Envelope, DecodeError> {
    if bytes.len() == 0 {
        Err(DecodeError::Malformed)
    } else if missing(bytes) > 0 {
        Err(DecodeError::Truncated)
    } else {
        Ok(framed_envelope(bytes))
    }
}

/// Appends the two wire bytes of `n`.
fn push_be16(out: &mut Vec<u8>, n: usize)
    requires
        n <= MAX_FIELD_LEN,
    ensures
        final(out)@ == old(out)@ + be16(n as nat),
{
    out.push((n / 256) as u8);
    out.push((n % 256) as u8);
}

/// Reads the number that the two bytes at `at` stand for.
fn read_be16(bytes: &[u8], at: usize) -> (n: usize)
    requires
        at + 2 <= bytes@.len(),
    ensures
        n == be16_value(bytes@[at as int], bytes@[at + 1]),
        n <= MAX_FIELD_LEN,
{
    let hi: usize = bytes[at] as usize;
    let lo: usize = bytes[at + 1] as usize;
    hi * 256 + lo
}

/// Serializes an envelope into its frame.
///
/// Fails with `FieldTooLarge`, and only then, where the payload or the
/// metadata is longer than `MAX_FIELD_LEN` bytes.
pub fn encode(envelope: &FCPayload) -> (res: Result<Vec<u8>, EncodeError>)
    ensures
        match res {
            Ok(frame) => {
                &&& envelope@.fits_wire()
                &&& frame@ == encode_spec(envelope@)
                &&& frame@.len() == FRAME_OVERHEAD + envelope@.payload.len()
                    + envelope@.metadata.len()
            },
            Err(e) => !envelope@.fits_wire() && e == EncodeError::FieldTooLarge,
        },
{
    let payload = envelope.decode_raw_payload();
    let metadata = envelope.decode_metadata();
    if payload.len() > MAX_FIELD_LEN || metadata.len() > MAX_FIELD_LEN {
        return Err(EncodeError::FieldTooLarge);
    }
    let mut frame: Vec<u8> = Vec::with_capacity(FRAME_OVERHEAD + payload.len() + metadata.len());
    frame.push(envelope.descriptor());
    push_be16(&mut frame, payload.len());
    frame.extend_from_slice(payload);
    push_be16(&mut frame, metadata.len());
    frame.extend_from_slice(metadata);
    Ok(frame)
}

/// How many more bytes to read after `bytes` before the next decision; zero
/// when `bytes` starts with a whole frame.
pub fn missing_bytes(bytes: &[u8]) -> (n: usize)
    ensures
        n == missing(bytes@),
        n <= FRAME_OVERHEAD + 2 * MAX_FIELD_LEN,
{
    let len: usize = bytes.len();
    if len < 3 {
        return 3 - len;
    }
    let p: usize = read_be16(bytes, 1);
    if len < FRAME_OVERHEAD + p {
        return FRAME_OVERHEAD + p - len;
    }
    let m: usize = read_be16(bytes, 3 + p);
    if len < FRAME_OVERHEAD + p + m {
        return FRAME_OVERHEAD + p + m - len;
    }
    0
}

/// Parses the frame that `bytes` starts with, and says how many bytes that
/// frame took. Bytes after it are left alone: they belong to the frames that
/// follow.
///
/// Fails with `Malformed` on empty input, and with `Truncated` where the
/// input ends before the frame does.
pub fn decode_prefix(bytes: &[u8]) -> (res: Result<(FCPayload, usize), DecodeError>)
    ensures
        match res {
            Ok((envelope, used)) => {
                &&& decode_spec(bytes@) == Ok::<Envelope, DecodeError>(envelope@)
                &&& used == frame_len(bytes@)
                &&& used <= bytes@.len()
            },
            Err(e) => decode_spec(bytes@) == Err::<Envelope, DecodeError>(e),
        },
{
    if bytes.len() == 0 {
        return Err(DecodeError::Malformed);
    }
    if missing_bytes(bytes) > 0 {
        return Err(DecodeError::Truncated);
    }
    let p: usize = read_be16(bytes, 1);
    let m: usize = read_be16(bytes, 3 + p);
    let payload = slice_to_vec(&bytes[3..3 + p]);
    let metadata = slice_to_vec(&bytes[5 + p..5 + p + m]);
    Ok((FCPayload::new(bytes[0], payload, metadata), FRAME_OVERHEAD + p + m))
}

/// Parses the frame that `bytes` starts with. Bytes after that frame are
/// left alone.
///
/// Fails with `Malformed` on empty input, and with `Truncated` where the
/// input ends before the frame does.
pub fn decode(bytes: &[u8]) -> (res: Result<FCPayload, DecodeError>)
    ensures
        match res {
            Ok(envelope) => decode_spec(bytes@) == Ok::<Envelope, DecodeError>(envelope@),
            Err(e) => decode_spec(bytes@) == Err::<Envelope, DecodeError>(e),
        },
{
    match decode_prefix(bytes) {
        Ok((envelope, _)) => Ok(envelope),
        Err(e) => Err(e),
    }
}

/// The two wire bytes of a length say that length again.
pub proof fn lemma_be16_inverse(n: nat)
    requires
        n <= MAX_FIELD_LEN,
    ensures
        be16(n).len() == 2,
        be16_value(be16(n)[0], be16(n)[1]) == n,
{
}

/// A stream that starts with the frame of an envelope declares that
/// envelope's lengths, lacks nothing, and holds the envelope.
pub proof fn lemma_frame_parses(e: Envelope, rest: Seq<u8>)
    requires
        e.fits_wire(),
    ensures
        declared_payload_len(encode_spec(e) + rest) == e.payload.len(),
        declared_metadata_len(encode_spec(e) + rest) == e.metadata.len(),
        frame_len(encode_spec(e) + rest) == encode_spec(e).len(),
        missing(encode_spec(e) + rest) == 0,
        framed_envelope(encode_spec(e) + rest) == e,
{
    let stream = encode_spec(e) + rest;
    let p = e.payload.len() as int;
    let m = e.metadata.len() as int;
    lemma_be16_inverse(e.payload.len());
    lemma_be16_inverse(e.metadata.len());
    assert(stream.subrange(3, 3 + p) =~= e.payload);
    assert(stream.subrange(5 + p, 5 + p + m) =~= e.metadata);
}

/// Round trip: decoding the frame of an envelope whose fields fit gives the
/// envelope back.
pub proof fn lemma_decode_encode(e: Envelope)
    requires
        e.fits_wire(),
    ensures
        decode_spec(encode_spec(e)) == Ok::<Envelope, DecodeError>(e),
{
    lemma_frame_parses(e, Seq::empty());
    assert(encode_spec(e) + Seq::<u8>::empty() =~= encode_spec(e));
}

/// Decoding stops at the end of the first frame: whatever follows the frame
/// of an envelope, that envelope comes out.
pub proof fn lemma_decode_ignores_what_follows(e: Envelope, rest: Seq<u8>)
    requires
        e.fits_wire(),
    ensures
        decode_spec(encode_spec(e) + rest) == Ok::<Envelope, DecodeError>(e),
{
    lemma_frame_parses(e, rest);
}

/// What decodes is a frame: the envelope that comes out fits the wire, and
/// its frame is the bytes that were read, no more and no fewer.
pub proof fn lemma_decoded_is_framed(bytes: Seq<u8>)
    requires
        decode_spec(bytes) is Ok,
    ensures
        decode_spec(bytes)->Ok_0.fits_wire(),
        frame_len(bytes) <= bytes.len(),
        encode_spec(decode_spec(bytes)->Ok_0) == bytes.subrange(0, frame_len(bytes) as int),
{
    let e = framed_envelope(bytes);
    assert(encode_spec(e) =~= bytes.subrange(0, frame_len(bytes) as int));
}

/// All or nothing: a frame cut short never decodes. Cut to nothing it is
/// `Malformed`, cut anywhere else `Truncated`.
pub proof fn lemma_cut_frame_fails(e: Envelope, n: int)
    requires
        e.fits_wire(),
        0 <= n < encode_spec(e).len(),
    ensures
        missing(encode_spec(e).take(n)) > 0,
        decode_spec(encode_spec(e).take(n)) == Err::<Envelope, DecodeError>(
            if n == 0 {
                DecodeError::Malformed
            } else {
                DecodeError::Truncated
            },
        ),
{
    lemma_missing_stays_in_frame(e, Seq::empty(), n);
    assert(encode_spec(e) + Seq::<u8>::empty() =~= encode_spec(e));
}

/// No over-read: while a frame is arriving, the bytes asked for next never
/// reach past its end, and at least one is asked for.
pub proof fn lemma_missing_stays_in_frame(e: Envelope, rest: Seq<u8>, n: int)
    requires
        e.fits_wire(),
        0 <= n < encode_spec(e).len(),
    ensures
        0 < missing((encode_spec(e) + rest).take(n)),
        n + missing((encode_spec(e) + rest).take(n)) <= encode_spec(e).len(),
{
    let part = (encode_spec(e) + rest).take(n);
    lemma_frame_parses(e, rest);
    if n >= 3 {
        assert(declared_payload_len(part) == e.payload.len());
        if n >= FRAME_OVERHEAD + e.payload.len() {
            assert(declared_metadata_len(part) == e.metadata.len());
        }
    }
}

/// Three reads at most: from the start of a frame, a reader that is given
/// each time as many bytes as are missing has a whole frame after the third
/// read, whatever the bytes are.
pub proof fn lemma_three_reads_complete(first: Seq<u8>, second: Seq<u8>, third: Seq<u8>)
    requires
        first.len() == missing(Seq::<u8>::empty()),
        second.len() == missing(first),
        third.len() == missing(first + second),
    ensures
        missing(first + second + third) == 0,
{
    let two = first + second;
    let p = declared_payload_len(first);
    assert(declared_payload_len(two) == p);
    assert(two.len() == FRAME_OVERHEAD + p);
    assert(declared_payload_len(two + third) == p);
    assert(declared_metadata_len(two + third) == declared_metadata_len(two));
}

} // verus!
