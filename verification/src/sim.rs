//! The pieces of the browser simulator that compute: buffering the bytes
//! the frontend sends, and building the messages the frontend asks for.
use crate::comms::{frames_packet, lemma_encoding_is_frame, CommsError, MessageHandler, Rx};
use crate::fps_counter::{Clear, FpsCounter, Snapshot};
use crate::hal::messaging::{Ack, Handler, Nack};
use crate::motion::motion::{ControlMode, Motion, StartHomingSequence};
use crate::motion::gcode_program::{
    decoded, encoded, lemma_round_trip, GcodeProgram, FIRST_LINE_LEN,
};
use crate::packet::{
    packet_clone, packet_contents, packet_encoding, packet_id, packet_id_of, packet_with_data,
    packet_write_to_buffer, HEADER_LEN, MAX_PACKET_SIZE,
};
use crate::wire::{u32_bytes, Endian};
use vstd::prelude::*;
use vstd::string::StringSliceAdditionalSpecFns;

verus! {

/// The number of bytes received from the frontend that are kept per tick.
pub const RX_CAPACITY: usize = 256;

/// The packet id of an echo request.
pub const ECHO_ID: u8 = 42;

/// The received bytes: an `arrayvec::ArrayVec` of [`RX_CAPACITY`] bytes.
#[verifier::external_body]
#[derive(Debug)]
pub struct RxBytes {
    bytes: arrayvec::ArrayVec<[u8; 256]>,
}

/// The bytes held, oldest first.
pub uninterp spec fn rx_contents(bytes: RxBytes) -> Seq<u8>;

/// Calls `arrayvec::ArrayVec::new`: an empty vector.
#[verifier::external_body]
fn rx_new() -> (r: RxBytes)
    ensures
        rx_contents(r) == Seq::<u8>::empty(),
{
    RxBytes { bytes: arrayvec::ArrayVec::new() }
}

/// Calls `Extend::extend` of `arrayvec::ArrayVec` with the given bytes. It
/// takes as many of them as there is room for and silently drops the rest;
/// the vector never holds more than [`RX_CAPACITY`] bytes.
#[verifier::external_body]
fn rx_extend(rx: &mut RxBytes, data: &[u8])
    ensures
        rx_contents(*old(rx)).len() <= RX_CAPACITY,
        rx_contents(*final(rx)) == received(rx_contents(*old(rx)), data@),
{
    rx.bytes.extend(data.iter().copied())
}

/// Calls `arrayvec::ArrayVec::clear`, which removes every byte.
#[verifier::external_body]
fn rx_clear(rx: &mut RxBytes)
    ensures
        rx_contents(*final(rx)) == Seq::<u8>::empty(),
{
    rx.bytes.clear()
}

/// Calls `arrayvec::ArrayVec::as_slice`.
#[verifier::external_body]
fn rx_as_slice(rx: &RxBytes) -> (r: &[u8])
    ensures
        r@ == rx_contents(*rx),
{
    rx.bytes.as_slice()
}

/// What the frontend sent during the current tick, up to [`RX_CAPACITY`]
/// bytes.
#[derive(Debug)]
pub struct ReceiveBuffer {
    bytes: RxBytes,
}

/// The bytes kept after `data` arrives: as much of it as still fits.
pub open spec fn received(kept: Seq<u8>, data: Seq<u8>) -> Seq<u8> {
    if kept.len() + data.len() <= RX_CAPACITY {
        kept + data
    } else if kept.len() >= RX_CAPACITY {
        kept
    } else {
        kept + data.take(RX_CAPACITY - kept.len())
    }
}

impl View for ReceiveBuffer {
    type V = Seq<u8>;

    closed spec fn view(&self) -> Seq<u8> {
        rx_contents(self.bytes)
    }
}

impl ReceiveBuffer {
    /// An empty buffer.
    pub fn new() -> (r: ReceiveBuffer)
        ensures
            r@ == Seq::<u8>::empty(),
    {
        ReceiveBuffer { bytes: rx_new() }
    }

    /// Keep data sent by the frontend. Up to [`RX_CAPACITY`] bytes are kept
    /// per tick; the rest is silently dropped.
    pub fn on_data_received(&mut self, data: &[u8])
        ensures
            final(self)@ == received(old(self)@, data@),
            final(self)@.len() <= RX_CAPACITY,
    {
        rx_extend(&mut self.bytes, data);
    }

    /// Forget what was received; called at the end of every tick.
    pub fn end_tick(&mut self)
        ensures
            final(self)@ == Seq::<u8>::empty(),
    {
        rx_clear(&mut self.bytes);
    }
}

impl Default for ReceiveBuffer {
    fn default() -> (r: ReceiveBuffer)
        ensures
            r@ == Seq::<u8>::empty(),
    {
        ReceiveBuffer::new()
    }
}

impl Rx for ReceiveBuffer {
    fn receive(&self) -> (r: &[u8])
        ensures
            r@ == self@,
    {
        rx_as_slice(&self.bytes)
    }
}

/// Dispatches the messages received from the frontend to the systems of
/// the application:
/// - acknowledgements and echo requests are answered with a copy of
///   themselves;
/// - [`Clear`] empties the tick-rate window and is acknowledged;
/// - [`StartHomingSequence`] is handed to the motion system, and answered
///   with an acknowledgement when homing started, a refusal otherwise;
/// - any other message (a g-code program too, which nothing handles yet) is
///   refused as unknown.
///
/// The router owns the systems it dispatches to.
#[derive(Debug)]
pub struct Router<H> {
    pub fps: FpsCounter,
    pub motion: Motion<H>,
}

impl<H> Router<H> {
    /// A router for the given systems.
    pub fn new(fps: FpsCounter, motion: Motion<H>) -> (r: Router<H>)
        ensures
            r.fps == fps,
            r.motion == motion,
    {
        Router { fps, motion }
    }
}

/// The packet announcing a motion system's answer: an acknowledgement or a
/// refusal, with no content.
fn map_result(result: Result<Ack, Nack>) -> (p: anpp::Packet)
    ensures
        packet_id(p) == (if result is Ok {
            Ack::ID
        } else {
            Nack::ID
        }),
        packet_contents(p) == Seq::<u8>::empty(),
{
    match result {
        Ok(a) => a.into_packet(),
        Err(n) => n.into_packet(),
    }
}

impl<H: Copy> MessageHandler for Router<H> {
    fn handle_message(&mut self, msg: &anpp::Packet) -> (r: Result<anpp::Packet, CommsError>)
        ensures
            packet_id(*msg) == Ack::ID || packet_id(*msg) == Nack::ID || packet_id(*msg)
                == ECHO_ID ==> {
                &&& r matches Ok(p) && packet_id(p) == packet_id(*msg) && packet_contents(p)
                    == packet_contents(*msg)
                &&& final(self).fps == old(self).fps
                &&& final(self).motion == old(self).motion
            },
            packet_id(*msg) == Clear::ID ==> {
                &&& r matches Ok(p) && packet_id(p) == Ack::ID && packet_contents(p) == Seq::<
                    u8,
                >::empty()
                &&& final(self).fps@ == Seq::<Snapshot>::empty()
                &&& final(self).motion == old(self).motion
            },
            packet_id(*msg) == StartHomingSequence::ID ==> {
                &&& r matches Ok(p) && packet_contents(p) == Seq::<u8>::empty() && packet_id(p) == (
                if old(self).motion.control_mode is Idle {
                    Ack::ID
                } else {
                    Nack::ID
                })
                &&& old(self).motion.control_mode is Idle ==> final(self).motion == (Motion {
                    homing_sequence: old(self).motion.homing_sequence,
                    control_mode: ControlMode::Home(old(self).motion.homing_sequence),
                    homing_finished: false,
                })
                &&& !(old(self).motion.control_mode is Idle) ==> final(self).motion == old(self).motion
                &&& final(self).fps == old(self).fps
            },
            !(packet_id(*msg) == Ack::ID || packet_id(*msg) == Nack::ID || packet_id(*msg)
                == ECHO_ID || packet_id(*msg) == Clear::ID || packet_id(*msg)
                == StartHomingSequence::ID) ==> {
                &&& r == Err::<anpp::Packet, CommsError>(CommsError::UnknownMessageType)
                &&& final(self).fps == old(self).fps
                &&& final(self).motion == old(self).motion
            },
    {
        let id = packet_id_of(msg);
        if id == Ack::ID || id == Nack::ID {
            Ok(packet_clone(msg))
        } else if id == Clear::ID {
            Ok(self.fps.handle(Clear {}).into_packet())
        } else if id == StartHomingSequence::ID {
            Ok(map_result(self.motion.handle(StartHomingSequence {})))
        } else if id == ECHO_ID {
            // echo
            Ok(packet_clone(msg))
        } else {
            Err(CommsError::UnknownMessageType)
        }
    }
}

/// Why an echo request could not be built.
#[derive(Debug, Copy, Clone, PartialEq, Eq, Structural)]
pub enum EchoError {
    /// The text does not fit in a packet.
    TooLong,
    /// The packet could not be written out (an empty packet).
    Unwritable,
}

/// The encoded packet asking the controller to echo `text` back: a packet
/// with id [`ECHO_ID`] whose content is the text's bytes.
pub fn echo_request(text: &str) -> (r: Result<Vec<u8>, EchoError>)
    ensures
        text.spec_bytes().len() > MAX_PACKET_SIZE ==> r == Err::<Vec<u8>, EchoError>(
            EchoError::TooLong,
        ),
        text.spec_bytes().len() == 0 ==> r == Err::<Vec<u8>, EchoError>(EchoError::Unwritable),
        0 < text.spec_bytes().len() <= MAX_PACKET_SIZE ==> (r matches Ok(bytes) && bytes@
            == packet_encoding(ECHO_ID, text.spec_bytes())),
        r matches Ok(bytes) ==> bytes@.len() == text.spec_bytes().len() + HEADER_LEN,
        r matches Ok(bytes) ==> frames_packet(bytes@, ECHO_ID, text.spec_bytes()),
{
    let pkt = match packet_with_data(ECHO_ID, text.as_bytes()) {
        Some(p) => p,
        None => {
            return Err(EchoError::TooLong);
        },
    };
    let mut buffer: Vec<u8> = vec![0u8; MAX_PACKET_SIZE + HEADER_LEN];
    match packet_write_to_buffer(&pkt, buffer.as_mut_slice()) {
        Ok(bytes_written) => {
            buffer.truncate(bytes_written);
            proof {
                assert(buffer@ =~= packet_encoding(ECHO_ID, text.spec_bytes()));
                lemma_encoding_is_frame(buffer@, ECHO_ID, text.spec_bytes());
            }
            Ok(buffer)
        },
        Err(_) => Err(EchoError::Unwritable),
    }
}

/// The body of a [`GcodeProgram`] message holding the given line number and
/// text, which must be shorter than [`GcodeProgram::MAX_TEXT_SIZE`] bytes:
/// the line number in network byte order, then the text's bytes. Decoding
/// it (see [`GcodeProgram::try_from_ctx`]) gives back the line number and
/// text.
pub fn encode_gcode_program(first_line: u32, text: &str) -> (r: Vec<u8>)
    requires
        text.spec_bytes().len() < GcodeProgram::MAX_TEXT_SIZE,
    ensures
        r@ == encoded(first_line, text@, Endian::Big),
        r@ == u32_bytes(first_line, Endian::Big) + text.spec_bytes(),
        r@.len() == FIRST_LINE_LEN + text.spec_bytes().len(),
        decoded(r@, Endian::Big) == Some((first_line, text@)),
{
    let mut buffer: Vec<u8> = vec![0u8; MAX_PACKET_SIZE];
    let msg = GcodeProgram::new(first_line, text);
    match msg.try_into_ctx(buffer.as_mut_slice(), Endian::network()) {
        Ok(bytes_written) => {
            buffer.truncate(bytes_written);
            proof {
                assert(buffer@ =~= encoded(first_line, text@, Endian::Big));
                lemma_round_trip(first_line, text@, Endian::Big);
            }
            buffer
        },
        Err(_) => Vec::new(),
    }
}

} // verus!
