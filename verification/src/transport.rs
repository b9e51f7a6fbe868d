//! The transport core: what a connection decides, without the socket.
//!
//! A `CannonLauncher` holds the envelope that is to go out and the bytes of
//! the frame that is coming in. Its caller owns the stream: it writes what
//! `send` hands over, reads as many bytes as `read_message` asks for, and
//! reports what the stream gave.
//!
//! A launcher starts connected. It is disconnected once the stream is
//! reported closed, and stays so.

use vstd::prelude::*;
use crate::codec::{
    decode_prefix, encode, encode_spec, frame_len, framed_envelope, lemma_frame_parses,
    lemma_missing_stays_in_frame, missing, missing_bytes,
};
use crate::envelope::{Envelope, FCPayload};
use crate::error::{EncodeError, ReceiveError};

verus! {

/// What the stream gave since the launcher was last asked.
#[derive(Debug, PartialEq, Eq)]
pub enum StreamEvent {
    /// These bytes arrived, in this order. No bytes at all is no news.
    Data(Vec<u8>),
    /// The stream ended or failed: nothing more will arrive.
    Closed,
}

/// What a receive has come to.
#[derive(Debug, PartialEq, Eq)]
pub enum ReadStep {
    /// No whole frame yet: read up to this many bytes and report them.
    Want(usize),
    /// A whole frame arrived, and this is its envelope.
    Message(FCPayload),
    /// The receive failed.
    Failed(ReceiveError),
}

/// A stream event as contracts speak of it.
pub enum Arrival {
    /// These bytes arrived.
    Data(Seq<u8>),
    /// The stream ended or failed.
    Closed,
}

/// A receive step as contracts speak of it.
pub enum Outcome {
    /// So many bytes are to be read next.
    Want(nat),
    /// This envelope arrived.
    Message(Envelope),
    /// The receive failed.
    Failed(ReceiveError),
}

impl View for StreamEvent {
    type V = Arrival;

    open spec fn view(&self) -> Arrival {
        match self {
            StreamEvent::Data(bytes) => Arrival::Data(bytes@),
            StreamEvent::Closed => Arrival::Closed,
        }
    }
}

impl View for ReadStep {
    type V = Outcome;

    open spec fn view(&self) -> Outcome {
        match self {
            ReadStep::Want(n) => Outcome::Want(*n as nat),
            ReadStep::Message(envelope) => Outcome::Message(envelope@),
            ReadStep::Failed(e) => Outcome::Failed(*e),
        }
    }
}

/// What a launcher is: the state that contracts speak of.
pub struct LauncherState {
    /// The envelope held for sending, if any.
    pub payload: Option<Envelope>,
    /// The bytes that arrived and belong to no delivered frame yet.
    pub inbound: Seq<u8>,
    /// Whether the stream is still taken to be open.
    pub connected: bool,
}

/// The bytes that `send` hands over for a launcher: the frame of the held
/// envelope, nothing where none is held, and `FieldTooLarge` where the held
/// envelope does not fit the wire.
pub open spec fn send_spec(state: LauncherState) -> Result<Seq<u8>, EncodeError> {
    match state.payload {
        None => Ok(Seq::empty()),
        Some(e) => if e.fits_wire() {
            Ok(encode_spec(e))
        } else {
            Err(EncodeError::FieldTooLarge)
        },
    }
}

/// The step of the receiving side: the state after an event, and what the
/// receive has come to.
///
/// A disconnected launcher fails with `ConnectionClosed` and keeps its
/// state. A connected one is disconnected by `Closed`, drops the bytes of
/// the unfinished frame, and fails with `ConnectionClosed`. Data is put
/// after the bytes already there: if a whole frame stands at the front, its
/// envelope is delivered and its bytes leave; if not, the launcher asks for
/// the bytes that are missing up to the next length or the end of the frame.
pub open spec fn receive_spec(state: LauncherState, arrival: Arrival) -> (LauncherState, Outcome) {
    if !state.connected {
        (state, Outcome::Failed(ReceiveError::ConnectionClosed))
    } else {
        match arrival {
            Arrival::Closed => (
                LauncherState { payload: state.payload, inbound: Seq::empty(), connected: false },
                Outcome::Failed(ReceiveError::ConnectionClosed),
            ),
            Arrival::Data(chunk) => {
                let all = state.inbound + chunk;
                if missing(all) > 0 {
                    (
                        LauncherState { payload: state.payload, inbound: all, connected: true },
                        Outcome::Want(missing(all)),
                    )
                } else {
                    (
                        LauncherState {
                            payload: state.payload,
                            inbound: all.skip(frame_len(all) as int),
                            connected: true,
                        },
                        Outcome::Message(framed_envelope(all)),
                    )
                }
            },
        }
    }
}

/// The deciding half of a connection: the envelope to send and the frame
/// being received.
pub struct CannonLauncher {
    payload: Option<FCPayload>,
    inbound: Vec<u8>,
    connected: bool,
}

impl View for CannonLauncher {
    type V = LauncherState;

    closed spec fn view(&self) -> LauncherState {
        LauncherState {
            payload: match self.payload {
                Some(envelope) => Some(envelope@),
                None => None,
            },
            inbound: self.inbound@,
            connected: self.connected,
        }
    }
}

impl CannonLauncher {
    /// The launcher of a stream that was just connected or accepted: nothing
    /// held, nothing received.
    pub fn new() -> (launcher: CannonLauncher)
        ensures
            launcher@ == (LauncherState {
                payload: None,
                inbound: Seq::empty(),
                connected: true,
            }),
    {
        CannonLauncher { payload: None, inbound: Vec::new(), connected: true }
    }

    /// Whether the stream is still taken to be open.
    pub fn is_connected(&self) -> (connected: bool)
        ensures
            connected == self@.connected,
    {
        self.connected
    }

    /// Holds `payload` for the next `send`, in place of what was held.
    pub fn set_payload(&mut self, payload: FCPayload) -> (launcher: &mut CannonLauncher)
        ensures
            launcher@ == (LauncherState {
                payload: Some(payload@),
                inbound: old(self)@.inbound,
                connected: old(self)@.connected,
            }),
            *final(self) == *final(launcher),
    {
        self.payload = Some(payload);
        self
    }

    /// Holds nothing any more.
    pub fn clear_payload(&mut self)
        ensures
            final(self)@ == (LauncherState {
                payload: None,
                inbound: old(self)@.inbound,
                connected: old(self)@.connected,
            }),
    {
        self.payload = None;
    }

    /// The bytes to write and flush for the held envelope: its whole frame,
    /// or no bytes where nothing is held. The envelope stays held. Whether
    /// the stream still takes the bytes is for the stream to say.
    ///
    /// Fails with `FieldTooLarge` where the held envelope does not fit the
    /// wire; nothing is to be written then.
    pub fn send(&self) -> (res: Result<Vec<u8>, EncodeError>)
        ensures
            match res {
                Ok(frame) => send_spec(self@) == Ok::<Seq<u8>, EncodeError>(frame@),
                Err(e) => send_spec(self@) == Err::<Seq<u8>, EncodeError>(e),
            },
    {
        match &self.payload {
            None => Ok(Vec::new()),
            Some(envelope) => encode(envelope),
        }
    }

    /// Takes what the stream gave and says what the receive has come to.
    ///
    /// A receive starts with an empty `Data`, goes on with one report for
    /// each `Want`, and ends with `Message` or `Failed`. An envelope comes
    /// out whole or not at all.
    pub fn read_message(&mut self, event: StreamEvent) -> (step: ReadStep)
        ensures
            (final(self)@, step@) == receive_spec(old(self)@, event@),
    {
        if !self.connected {
            return ReadStep::Failed(ReceiveError::ConnectionClosed);
        }
        match event {
            StreamEvent::Closed => {
                self.connected = false;
                self.inbound.clear();
                ReadStep::Failed(ReceiveError::ConnectionClosed)
            },
            StreamEvent::Data(mut chunk) => {
                self.inbound.append(&mut chunk);
                let need: usize = missing_bytes(self.inbound.as_slice());
                if need > 0 {
                    return ReadStep::Want(need);
                }
                match decode_prefix(self.inbound.as_slice()) {
                    Ok((envelope, used)) => {
                        let rest = self.inbound.split_off(used);
                        self.inbound = rest;
                        ReadStep::Message(envelope)
                    },
                    Err(e) => ReadStep::Failed(ReceiveError::Protocol(e)),
                }
            },
        }
    }
}

/// The bytes of several reads put together, in order.
pub open spec fn joined(chunks: Seq<Seq<u8>>) -> Seq<u8>
    decreases chunks.len(),
{
    if chunks.len() == 0 {
        Seq::empty()
    } else {
        chunks[0] + joined(chunks.skip(1))
    }
}

/// The receiving side after several reads, reported one by one, and what the
/// last report came to.
pub open spec fn receive_all(state: LauncherState, chunks: Seq<Seq<u8>>) -> (LauncherState, Outcome)
    recommends
        chunks.len() > 0,
    decreases chunks.len(),
{
    let (next, outcome) = receive_spec(state, Arrival::Data(chunks[0]));
    if chunks.len() <= 1 {
        (next, outcome)
    } else {
        receive_all(next, chunks.skip(1))
    }
}

/// The wire format has no wrong bytes: every byte string is a frame, or the
/// start of one. So a receive never fails with `Protocol`: it fails with
/// `ConnectionClosed` or not at all.
pub proof fn lemma_receive_never_protocol(state: LauncherState, arrival: Arrival)
    ensures
        receive_spec(state, arrival).1 matches Outcome::Failed(e) ==> e
            == ReceiveError::ConnectionClosed,
{
}

/// A stream that closes never delivers: whatever part of a frame has
/// arrived, the receive fails with `ConnectionClosed`, the part is dropped,
/// and every later receive fails the same way.
pub proof fn lemma_closed_never_delivers(state: LauncherState, later: Arrival)
    ensures
        receive_spec(state, Arrival::Closed).1 == Outcome::Failed(ReceiveError::ConnectionClosed),
        !receive_spec(state, Arrival::Closed).0.connected,
        receive_spec(receive_spec(state, Arrival::Closed).0, later).1 == Outcome::Failed(
            ReceiveError::ConnectionClosed,
        ),
{
}

/// One read of a frame in flight. With the first `n` bytes of a frame
/// there, and the bytes up to `j` arriving: short of the end the launcher
/// keeps them and asks for more, at least one byte and none past the end of
/// the frame; at the end it delivers the envelope and keeps nothing.
pub proof fn lemma_receive_follows_frame(state: LauncherState, e: Envelope, n: int, j: int)
    requires
        state.connected,
        e.fits_wire(),
        0 <= n <= j <= encode_spec(e).len(),
        state.inbound == encode_spec(e).take(n),
    ensures
        ({
            let frame = encode_spec(e);
            let (next, outcome) = receive_spec(state, Arrival::Data(frame.subrange(n, j)));
            &&& next.connected
            &&& next.payload == state.payload
            &&& j < frame.len() ==> {
                &&& next.inbound == frame.take(j)
                &&& outcome == Outcome::Want(missing(frame.take(j)))
                &&& 0 < missing(frame.take(j))
                &&& j + missing(frame.take(j)) <= frame.len()
            }
            &&& j == frame.len() ==> {
                &&& next.inbound == Seq::<u8>::empty()
                &&& outcome == Outcome::Message(e)
            }
        }),
{
    let frame = encode_spec(e);
    let all = state.inbound + frame.subrange(n, j);
    assert(all =~= frame.take(j));
    assert(frame + Seq::<u8>::empty() =~= frame);
    if j < frame.len() {
        lemma_missing_stays_in_frame(e, Seq::empty(), j);
    } else {
        assert(frame.take(j) =~= frame);
        lemma_frame_parses(e, Seq::empty());
    }
}

/// Reassembly: however the stream cuts a frame into reads, the launcher
/// delivers its envelope with the read that brings the last byte, and keeps
/// nothing.
pub proof fn lemma_receive_reassembles(
    state: LauncherState,
    e: Envelope,
    n: int,
    chunks: Seq<Seq<u8>>,
)
    requires
        state.connected,
        e.fits_wire(),
        0 <= n < encode_spec(e).len(),
        state.inbound == encode_spec(e).take(n),
        chunks.len() > 0,
        chunks.last().len() > 0,
        joined(chunks) == encode_spec(e).skip(n),
    ensures
        receive_all(state, chunks) == (
            LauncherState { payload: state.payload, inbound: Seq::empty(), connected: true },
            Outcome::Message(e),
        ),
    decreases chunks.len(),
{
    let frame = encode_spec(e);
    let first = chunks[0];
    let others = chunks.skip(1);
    let j = n + first.len();
    let tail = joined(others);
    assert(frame.skip(n) == first + tail);
    assert(frame.skip(n).len() == first.len() + tail.len());
    assert(first =~= frame.subrange(n, j));
    assert(tail =~= (first + tail).skip(first.len() as int));
    assert(tail =~= frame.skip(j));
    if chunks.len() == 1 {
        lemma_receive_follows_frame(state, e, n, j);
    } else {
        assert(others.last() == chunks.last());
        lemma_joined_ends_with_last(others);
        lemma_receive_follows_frame(state, e, n, j);
        let next = receive_spec(state, Arrival::Data(first)).0;
        lemma_receive_reassembles(next, e, j, others);
    }
}

/// Demultiplexing: a read that brings a whole frame and more delivers the
/// envelope of that frame, and keeps what follows for the next receive.
pub proof fn lemma_receive_keeps_what_follows(state: LauncherState, e: Envelope, rest: Seq<u8>)
    requires
        state.connected,
        state.inbound.len() == 0,
        e.fits_wire(),
    ensures
        receive_spec(state, Arrival::Data(encode_spec(e) + rest)) == (
            LauncherState { payload: state.payload, inbound: rest, connected: true },
            Outcome::Message(e),
        ),
{
    let all = state.inbound + (encode_spec(e) + rest);
    assert(all =~= encode_spec(e) + rest);
    lemma_frame_parses(e, rest);
    assert(all.skip(frame_len(all) as int) =~= rest);
}

/// What one launcher sends, another receives: the bytes that `send` hands
/// over for an envelope that fits the wire, reported in one piece to a
/// connected launcher with nothing pending, deliver that envelope.
pub proof fn lemma_sent_is_received(sender: LauncherState, receiver: LauncherState)
    requires
        sender.payload is Some,
        sender.payload->Some_0.fits_wire(),
        receiver.connected,
        receiver.inbound.len() == 0,
    ensures
        send_spec(sender) is Ok,
        receive_spec(receiver, Arrival::Data(send_spec(sender)->Ok_0)) == (
            LauncherState { payload: receiver.payload, inbound: Seq::empty(), connected: true },
            Outcome::Message(sender.payload->Some_0),
        ),
{
    let e = sender.payload->Some_0;
    lemma_receive_keeps_what_follows(receiver, e, Seq::empty());
    assert(encode_spec(e) + Seq::<u8>::empty() =~= encode_spec(e));
}

/// Reads put together are at least as long as the last of them.
proof fn lemma_joined_ends_with_last(chunks: Seq<Seq<u8>>)
    requires
        chunks.len() > 0,
    ensures
        joined(chunks).len() >= chunks.last().len(),
    decreases chunks.len(),
{
    if chunks.len() > 1 {
        assert(chunks.skip(1).last() == chunks.last());
        lemma_joined_ends_with_last(chunks.skip(1));
    }
}

} // verus!
