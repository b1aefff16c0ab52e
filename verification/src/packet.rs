//! The framing layer: packets and the streaming decoder of the *Advanced
//! Navigation Packet Protocol*, as provided by the `anpp` crate.
//!
//! Everything in this file is a trusted boundary. Each item says what it
//! claims of the `anpp` code it calls.
use vstd::prelude::*;

verus! {

/// The largest number of content bytes a packet can carry.
pub const MAX_PACKET_SIZE: usize = 255;

/// The number of bytes in an encoded packet header (LRC, id, length, CRC-16).
pub const HEADER_LEN: usize = 5;

/// The number of bytes the decoder's internal buffer can hold (the decoder
/// is used without the `std` feature, so its buffer is a fixed-size array).
pub const DECODER_CAPACITY: usize = 512;

/// `anpp::Packet`: an id plus up to [`MAX_PACKET_SIZE`] bytes of content.
#[verifier::external_type_specification]
#[verifier::external_body]
pub struct ExPacket(anpp::Packet);

/// `anpp::Decoder`: a fixed-capacity byte buffer that frames are cut from.
#[verifier::external_type_specification]
#[verifier::external_body]
pub struct ExDecoder(anpp::Decoder);

/// `anpp::errors::EncodeError`: why a packet could not be written out.
#[verifier::external_type_specification]
#[verifier::external_body]
pub struct ExEncodeError(anpp::errors::EncodeError);

/// The content bytes held by a packet.
pub uninterp spec fn packet_contents(p: anpp::Packet) -> Seq<u8>;

/// The id a packet carries.
pub uninterp spec fn packet_id(p: anpp::Packet) -> u8;

/// The bytes held in a decoder's internal buffer, oldest first.
pub uninterp spec fn decoder_contents(d: anpp::Decoder) -> Seq<u8>;

/// The wire encoding `anpp` produces for a packet with this id and content
/// (a header with LRC and CRC-16, followed by the content).
pub uninterp spec fn packet_encoding(id: u8, contents: Seq<u8>) -> Seq<u8>;

/// What one call of `anpp::Decoder::decode` does to a buffer holding these
/// bytes: `None` when no complete frame is available, otherwise the number
/// of bytes dropped from the front of the buffer together with the packet
/// found (`None` when the frame's CRC did not match).
pub uninterp spec fn decode_frame(buffer: Seq<u8>) -> Option<(nat, Option<(u8, Seq<u8>)>)>;

/// Why a call to [`decode`] did not produce a packet.
#[derive(Debug, Copy, Clone, PartialEq, Eq)]
pub enum DecodeStatus {
    /// No complete frame is in the buffer yet.
    RequiresMoreData,
    /// A frame was found, but its CRC was wrong; the frame was dropped.
    InvalidCrc,
}

/// Calls `anpp::Packet::new`: an empty packet with the given id.
#[verifier::external_body]
pub(crate) fn packet_new(id: u8) -> (p: anpp::Packet)
    ensures
        packet_id(p) == id,
        packet_contents(p) == Seq::<u8>::empty(),
{
    anpp::Packet::new(id)
}

/// Calls `anpp::Packet::with_data`: it fails exactly when the content is
/// longer than [`MAX_PACKET_SIZE`], and otherwise holds the id and a copy of
/// the content.
#[verifier::external_body]
pub(crate) fn packet_with_data(id: u8, content: &[u8]) -> (r: Option<anpp::Packet>)
    ensures
        r is Some <==> content@.len() <= MAX_PACKET_SIZE,
        r matches Some(p) ==> packet_id(p) == id && packet_contents(p) == content@,
{
    anpp::Packet::with_data(id, content).ok()
}

/// Calls `anpp::Packet::len`: the number of content bytes, never more than
/// [`MAX_PACKET_SIZE`].
#[verifier::external_body]
pub(crate) fn packet_len(p: &anpp::Packet) -> (r: usize)
    ensures
        r == packet_contents(*p).len(),
        r <= MAX_PACKET_SIZE,
{
    p.len()
}

/// Calls `anpp::Packet::id`.
#[verifier::external_body]
pub(crate) fn packet_id_of(p: &anpp::Packet) -> (r: u8)
    ensures
        r == packet_id(*p),
{
    p.id()
}

/// Calls `<anpp::Packet as Clone>::clone`, which copies the id and content.
#[verifier::external_body]
pub(crate) fn packet_clone(p: &anpp::Packet) -> (r: anpp::Packet)
    ensures
        packet_id(r) == packet_id(*p),
        packet_contents(r) == packet_contents(*p),
{
    p.clone()
}

/// Calls `anpp::Packet::write_to_buffer`. An empty packet is refused; so is
/// a buffer shorter than the encoding, which then is left untouched.
/// Otherwise the encoding (header plus content, so [`HEADER_LEN`] bytes
/// longer than the content) is copied to the start of the buffer and its
/// length returned. Which error value is returned is not stated.
///
/// The encoding starts with a header whose LRC checks, so a decoder reading
/// it (whatever follows it) finds its first frame at the very start: the
/// whole encoding, carrying this packet's id and content, whose CRC
/// matches. Cut short, the encoding holds no complete frame: fewer than a
/// header's bytes hold no header at all, and otherwise the header announces
/// more content than is there.
#[verifier::external_body]
pub(crate) fn packet_write_to_buffer(p: &anpp::Packet, buffer: &mut [u8]) -> (r: Result<
    usize,
    anpp::errors::EncodeError,
>)
    ensures
        r is Ok <==> (packet_contents(*p).len() > 0 && old(buffer)@.len()
            >= packet_contents(*p).len() + HEADER_LEN),
        r is Err ==> final(buffer)@ == old(buffer)@,
        r matches Ok(n) ==> {
            &&& n == packet_contents(*p).len() + HEADER_LEN
            &&& packet_encoding(packet_id(*p), packet_contents(*p)).len() == n
            &&& final(buffer)@ == packet_encoding(packet_id(*p), packet_contents(*p)) + old(
                buffer,
            )@.skip(n as int)
            &&& forall|rest: Seq<u8>|
                #[trigger] decode_frame(packet_encoding(packet_id(*p), packet_contents(*p)) + rest)
                    == Some((n as nat, Some((packet_id(*p), packet_contents(*p)))))
            &&& forall|k: int|
                0 <= k < n ==> #[trigger] decode_frame(
                    packet_encoding(packet_id(*p), packet_contents(*p)).take(k),
                ) is None
        },
{
    p.write_to_buffer(buffer)
}

/// Calls `anpp::Decoder::new`: an empty decoder, which holds no frame (an
/// empty buffer has no header in it).
#[verifier::external_body]
pub(crate) fn decoder_new() -> (d: anpp::Decoder)
    ensures
        decoder_contents(d) == Seq::<u8>::empty(),
        decode_frame(decoder_contents(d)) is None,
{
    anpp::Decoder::new()
}

/// Calls `<anpp::Decoder as Clone>::clone` (derived), which copies the
/// buffer.
#[verifier::external_body]
pub(crate) fn decoder_clone(d: &anpp::Decoder) -> (r: anpp::Decoder)
    ensures
        decoder_contents(r) == decoder_contents(*d),
{
    d.clone()
}

/// Calls `anpp::Decoder::remaining_capacity`: the free room in the
/// fixed-size buffer, which never holds more than [`DECODER_CAPACITY`]
/// bytes.
#[verifier::external_body]
pub(crate) fn decoder_remaining_capacity(d: &anpp::Decoder) -> (r: usize)
    ensures
        r == DECODER_CAPACITY - decoder_contents(*d).len(),
{
    d.remaining_capacity()
}

/// Calls `anpp::Decoder::clear`, which empties the buffer.
#[verifier::external_body]
pub(crate) fn decoder_clear(d: &mut anpp::Decoder)
    ensures
        decoder_contents(*final(d)) == Seq::<u8>::empty(),
{
    d.clear()
}

/// Calls `anpp::Decoder::push_data`: the data is appended when it fits in
/// the remaining capacity; otherwise nothing is written and the call fails.
#[verifier::external_body]
pub(crate) fn decoder_push_data(d: &mut anpp::Decoder, data: &[u8]) -> (r: bool)
    ensures
        decoder_contents(*old(d)).len() <= DECODER_CAPACITY,
        r <==> decoder_contents(*old(d)).len() + data@.len() <= DECODER_CAPACITY,
        r ==> decoder_contents(*final(d)) == decoder_contents(*old(d)) + data@,
        !r ==> decoder_contents(*final(d)) == decoder_contents(*old(d)),
{
    d.push_data(data).is_ok()
}

/// Calls `anpp::Decoder::decode`. Its outcome is [`decode_frame`] of the
/// buffer. When a frame is found, at least its header is dropped from the
/// front of the buffer (never more than the buffer holds), and a packet
/// found holds at most [`MAX_PACKET_SIZE`] bytes. When no frame is complete
/// the buffer is left as it was.
///
/// A frame found is also what would be found had more bytes been appended
/// to the buffer first: the decoder takes the first valid header, scanning
/// from the front, and every header position it passes over lies inside
/// the frame's own bytes.
#[verifier::external_body]
pub(crate) fn decoder_decode(d: &mut anpp::Decoder) -> (r: Result<anpp::Packet, DecodeStatus>)
    ensures
        match decode_frame(decoder_contents(*old(d))) {
            None => {
                &&& r == Err::<anpp::Packet, DecodeStatus>(DecodeStatus::RequiresMoreData)
                &&& decoder_contents(*final(d)) == decoder_contents(*old(d))
            },
            Some((n, frame)) => {
                &&& HEADER_LEN <= n <= decoder_contents(*old(d)).len()
                &&& decoder_contents(*final(d)) == decoder_contents(*old(d)).skip(n as int)
                &&& forall|more: Seq<u8>|
                    #[trigger] decode_frame(decoder_contents(*old(d)) + more) == decode_frame(
                        decoder_contents(*old(d)),
                    )
                &&& match frame {
                    None => r == Err::<anpp::Packet, DecodeStatus>(DecodeStatus::InvalidCrc),
                    Some((id, contents)) => {
                        &&& contents.len() <= MAX_PACKET_SIZE
                        &&& r matches Ok(p) && packet_id(p) == id && packet_contents(p)
                            == contents
                    },
                }
            },
        },
{
    match d.decode() {
        Ok(p) => Ok(p),
        Err(anpp::errors::DecodeError::RequiresMoreData) => Err(DecodeStatus::RequiresMoreData),
        Err(anpp::errors::DecodeError::InvalidCRC) => Err(DecodeStatus::InvalidCrc),
    }
}

} // verus!
