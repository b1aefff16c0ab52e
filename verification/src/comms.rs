//! Communications with the frontend over a serial-like connection: raw
//! bytes are buffered in a packet decoder, every complete packet is handed
//! to a [`MessageHandler`], and its response is encoded and transmitted.
use crate::packet::{
    decode_frame, decoder_clear, decoder_clone, decoder_contents, decoder_decode, decoder_new,
    decoder_push_data, decoder_remaining_capacity, packet_contents, packet_encoding, packet_id,
    packet_len, packet_write_to_buffer, DecodeStatus, DECODER_CAPACITY, HEADER_LEN,
    MAX_PACKET_SIZE,
};
use vstd::prelude::*;

verus! {

/// The bytes the decoder holds after `received` was handed to it.
///
/// When everything fits it is appended. Otherwise the leftovers from earlier
/// ticks are thrown away and as much of the new data as fits is kept.
pub open spec fn buffered(pending: Seq<u8>, received: Seq<u8>) -> Seq<u8> {
    if pending.len() + received.len() <= DECODER_CAPACITY {
        pending + received
    } else if received.len() <= DECODER_CAPACITY {
        received
    } else {
        received.take(DECODER_CAPACITY as int)
    }
}

/// The bytes left after cutting every complete frame off the front of a
/// buffer, one after the other, until no complete frame remains.
pub open spec fn drained(buffer: Seq<u8>) -> Seq<u8>
    decreases buffer.len(),
{
    match decode_frame(buffer) {
        None => buffer,
        Some((n, _)) => if 0 < n <= buffer.len() {
            drained(buffer.skip(n as int))
        } else {
            buffer
        },
    }
}

/// The packets found while draining a buffer, in order: the id and content
/// of every complete frame whose CRC matches.
pub open spec fn requests_in(buffer: Seq<u8>) -> Seq<(u8, Seq<u8>)>
    decreases buffer.len(),
{
    match decode_frame(buffer) {
        None => Seq::empty(),
        Some((n, frame)) => if 0 < n <= buffer.len() {
            match frame {
                Some(request) => seq![request] + requests_in(buffer.skip(n as int)),
                None => requests_in(buffer.skip(n as int)),
            }
        } else {
            Seq::empty()
        },
    }
}

/// The number of frames with a bad CRC found while draining a buffer.
pub open spec fn crc_errors_in(buffer: Seq<u8>) -> nat
    decreases buffer.len(),
{
    match decode_frame(buffer) {
        None => 0,
        Some((n, frame)) => if 0 < n <= buffer.len() {
            match frame {
                Some(_) => crc_errors_in(buffer.skip(n as int)),
                None => 1 + crc_errors_in(buffer.skip(n as int)),
            }
        } else {
            0
        },
    }
}

/// The wire encodings of a sequence of packets (id and content each).
pub open spec fn encodings(packets: Seq<(u8, Seq<u8>)>) -> Seq<Seq<u8>> {
    packets.map_values(|p: (u8, Seq<u8>)| packet_encoding(p.0, p.1))
}

/// `log` is `earlier` followed by further entries.
pub open spec fn extends<A>(earlier: Seq<A>, log: Seq<A>) -> bool {
    earlier.len() <= log.len() && log.take(earlier.len() as int) == earlier
}

/// `bytes` is one whole frame carrying the packet with this id and content.
///
/// Whatever follows it, draining the bytes finds that packet first and then
/// exactly what the following bytes hold on their own. Cut short anywhere,
/// the frame holds no packet and no bad frame, and nothing is dropped from
/// it.
pub open spec fn frames_packet(bytes: Seq<u8>, id: u8, contents: Seq<u8>) -> bool {
    &&& forall|rest: Seq<u8>|
        #[trigger] requests_in(bytes + rest) == seq![(id, contents)] + requests_in(rest)
    &&& forall|rest: Seq<u8>| #[trigger] drained(bytes + rest) == drained(rest)
    &&& forall|rest: Seq<u8>| #[trigger] crc_errors_in(bytes + rest) == crc_errors_in(rest)
    &&& forall|k: int|
        0 <= k < bytes.len() ==> {
            &&& requests_in(#[trigger] bytes.take(k)) == Seq::<(u8, Seq<u8>)>::empty()
            &&& crc_errors_in(bytes.take(k)) == 0
            &&& drained(bytes.take(k)) == bytes.take(k)
        }
}

/// A buffer from which the decoder cuts one whole frame holding this packet,
/// whatever follows it, and in which no cut-short part holds a frame, is a
/// frame carrying the packet.
pub(crate) proof fn lemma_encoding_is_frame(bytes: Seq<u8>, id: u8, contents: Seq<u8>)
    requires
        0 < bytes.len(),
        forall|rest: Seq<u8>|
            #[trigger] decode_frame(bytes + rest) == Some((bytes.len(), Some((id, contents)))),
        forall|k: int| 0 <= k < bytes.len() ==> #[trigger] decode_frame(bytes.take(k)) is None,
    ensures
        frames_packet(bytes, id, contents),
{
    assert forall|rest: Seq<u8>|
        #[trigger] requests_in(bytes + rest) == seq![(id, contents)] + requests_in(rest) by {
        assert(decode_frame(bytes + rest) == Some((bytes.len(), Some((id, contents)))));
        assert((bytes + rest).skip(bytes.len() as int) =~= rest);
    }
    assert forall|rest: Seq<u8>| #[trigger] drained(bytes + rest) == drained(rest) by {
        assert(decode_frame(bytes + rest) == Some((bytes.len(), Some((id, contents)))));
        assert((bytes + rest).skip(bytes.len() as int) =~= rest);
    }
    assert forall|rest: Seq<u8>| #[trigger] crc_errors_in(bytes + rest) == crc_errors_in(rest) by {
        assert(decode_frame(bytes + rest) == Some((bytes.len(), Some((id, contents)))));
        assert((bytes + rest).skip(bytes.len() as int) =~= rest);
    }
    assert forall|k: int| 0 <= k < bytes.len() implies {
        &&& requests_in(#[trigger] bytes.take(k)) == Seq::<(u8, Seq<u8>)>::empty()
        &&& crc_errors_in(bytes.take(k)) == 0
        &&& drained(bytes.take(k)) == bytes.take(k)
    } by {
        assert(decode_frame(bytes.take(k)) is None);
    }
}

/// The encoded bytes of a packet: `None` for a packet with no content, which
/// cannot be encoded. The bytes are a frame that decodes back into the
/// packet.
pub fn encode(p: &anpp::Packet) -> (r: Option<Vec<u8>>)
    ensures
        r is Some <==> packet_contents(*p).len() > 0,
        r matches Some(bytes) ==> bytes@ == packet_encoding(packet_id(*p), packet_contents(*p)),
        r matches Some(bytes) ==> bytes@.len() == packet_contents(*p).len() + HEADER_LEN,
        r matches Some(bytes) ==> frames_packet(bytes@, packet_id(*p), packet_contents(*p)),
{
    let len = packet_len(p);
    let mut buffer: Vec<u8> = vec![0u8; len + HEADER_LEN];
    match packet_write_to_buffer(p, buffer.as_mut_slice()) {
        Ok(bytes_written) => {
            proof {
                assert(buffer@ =~= packet_encoding(packet_id(*p), packet_contents(*p)));
                lemma_encoding_is_frame(buffer@, packet_id(*p), packet_contents(*p));
            }
            Some(buffer)
        },
        Err(_) => None,
    }
}

/// `suffix` is what is left of `buffer` after dropping some bytes from its
/// front.
pub open spec fn is_suffix_of(suffix: Seq<u8>, buffer: Seq<u8>) -> bool {
    &&& suffix.len() <= buffer.len()
    &&& suffix == buffer.skip(buffer.len() - suffix.len())
}

/// The receiving end of a *Serial Connection*.
pub trait Rx {
    /// Get all bytes received by the simulator since the last tick.
    ///
    /// # Note to Implementors
    ///
    /// To prevent reading data twice, this buffer should be cleared after every
    /// tick.
    fn receive(&self) -> &[u8];
}

/// The transmitting end of a *Serial Connection*.
pub trait Tx {
    /// Queue an encoded packet to be sent to the frontend.
    ///
    /// There is no guarantee that the data will all be sent. This may happen if
    /// the receiver isn't listening or they aren't able to receive at this
    /// time.
    fn send(&mut self, data: &[u8]);
}

impl<'a, T: Tx> Tx for &'a mut T {
    fn send(&mut self, data: &[u8]) {
        (**self).send(data);
    }
}

/// Something which answers the packets received from the frontend.
pub trait MessageHandler {
    /// Produce the response to a request.
    fn handle_message(&mut self, msg: &anpp::Packet) -> Result<anpp::Packet, CommsError>;

    /// Callback used to notify the application whenever a CRC error occurs.
    fn on_crc_error(&mut self) {
    }
}

impl<'a, M: MessageHandler> MessageHandler for &'a mut M {
    fn handle_message(&mut self, msg: &anpp::Packet) -> Result<anpp::Packet, CommsError> {
        (**self).handle_message(msg)
    }

    fn on_crc_error(&mut self) {
        (**self).on_crc_error();
    }
}

/// Why a [`MessageHandler`] could not answer a request.
#[derive(Debug, Copy, Clone, PartialEq, Eq)]
pub enum CommsError {
    /// The [`MessageHandler`] doesn't know how to handle the message.
    UnknownMessageType,
    ParseFailed,
}

/// Why [`Communications::poll`] stopped before the decoder was drained.
#[derive(Debug, Copy, Clone, PartialEq, Eq)]
pub enum PollError {
    /// The message handler could not answer a request.
    Unhandled(CommsError),
    /// The response could not be encoded (an empty packet).
    EmptyResponse,
}

/// What a message handler's answer says: the response's id and content, or
/// the reason it gave for refusing the request.
pub open spec fn answer_view(answer: Result<anpp::Packet, CommsError>) -> Result<
    (u8, Seq<u8>),
    CommsError,
> {
    match answer {
        Ok(p) => Ok((packet_id(p), packet_contents(p))),
        Err(e) => Err(e),
    }
}

/// Where responses go: the message handler that produces them and the
/// transmitter that sends them.
///
/// It also keeps a ghost record of the traffic through it: the requests
/// handed to the message handler and what it answered to each, the
/// responses that were transmitted (with the bytes sent for each), and the
/// number of CRC errors reported.
#[derive(Clone)]
pub struct Outputs<T, M> {
    message_handler: M,
    tx: T,
    requests: Ghost<Seq<(u8, Seq<u8>)>>,
    answers: Ghost<Seq<Result<(u8, Seq<u8>), CommsError>>>,
    responses: Ghost<Seq<(u8, Seq<u8>)>>,
    sent: Ghost<Seq<Seq<u8>>>,
    crc_errors: Ghost<nat>,
}

impl<T, M> Outputs<T, M> {
    /// Bundle a transmitter and a message handler.
    pub fn new(tx: T, message_handler: M) -> (r: Self)
        ensures
            r.tx() == tx,
            r.message_handler() == message_handler,
            r.requests() == Seq::<(u8, Seq<u8>)>::empty(),
            r.answers() == Seq::<Result<(u8, Seq<u8>), CommsError>>::empty(),
            r.responses() == Seq::<(u8, Seq<u8>)>::empty(),
            r.sent() == Seq::<Seq<u8>>::empty(),
            r.crc_errors() == 0,
    {
        Outputs {
            tx,
            message_handler,
            requests: Ghost(Seq::empty()),
            answers: Ghost(Seq::empty()),
            responses: Ghost(Seq::empty()),
            sent: Ghost(Seq::empty()),
            crc_errors: Ghost(0),
        }
    }

    /// The transmitter.
    pub closed spec fn tx(self) -> T {
        self.tx
    }

    /// The message handler.
    pub closed spec fn message_handler(self) -> M {
        self.message_handler
    }

    /// Every request handed to the message handler, in order (id and
    /// content).
    pub closed spec fn requests(self) -> Seq<(u8, Seq<u8>)> {
        self.requests@
    }

    /// What the message handler answered to each of those requests, in
    /// order: the response (id and content) or the reason it gave.
    pub closed spec fn answers(self) -> Seq<Result<(u8, Seq<u8>), CommsError>> {
        self.answers@
    }

    /// Every response handed to the transmitter, in order (id and content).
    pub closed spec fn responses(self) -> Seq<(u8, Seq<u8>)> {
        self.responses@
    }

    /// The bytes of every call to the transmitter, in order.
    pub closed spec fn sent(self) -> Seq<Seq<u8>> {
        self.sent@
    }

    /// The number of CRC errors reported to the message handler.
    pub closed spec fn crc_errors(self) -> nat {
        self.crc_errors@
    }
}

impl<T, M: MessageHandler> Outputs<T, M> {
    /// Hand a request to the message handler.
    fn handle(&mut self, request: &anpp::Packet) -> (r: Result<anpp::Packet, CommsError>)
        ensures
            final(self).requests() == old(self).requests().push(
                (packet_id(*request), packet_contents(*request)),
            ),
            final(self).answers() == old(self).answers().push(answer_view(r)),
            final(self).responses() == old(self).responses(),
            final(self).sent() == old(self).sent(),
            final(self).crc_errors() == old(self).crc_errors(),
    {
        let ghost request_view = (packet_id(*request), packet_contents(*request));
        proof {
            self.requests@ = self.requests@.push(request_view);
        }
        let answer = self.message_handler.handle_message(request);
        proof {
            self.answers@ = self.answers@.push(answer_view(answer));
        }
        answer
    }

    /// Tell the message handler that a frame with a bad CRC was dropped.
    fn report_crc_error(&mut self)
        ensures
            final(self).crc_errors() == old(self).crc_errors() + 1,
            final(self).requests() == old(self).requests(),
            final(self).answers() == old(self).answers(),
            final(self).responses() == old(self).responses(),
            final(self).sent() == old(self).sent(),
    {
        proof {
            self.crc_errors@ = self.crc_errors@ + 1;
        }
        self.message_handler.on_crc_error();
    }
}

impl<T: Tx, M> Outputs<T, M> {
    /// Encode a packet (see [`encode`]) and hand exactly those bytes to the
    /// transmitter. A packet with no content cannot be encoded; nothing is
    /// sent then.
    fn send(&mut self, packet: &anpp::Packet) -> (r: bool)
        ensures
            r <==> packet_contents(*packet).len() > 0,
            r ==> final(self).responses() == old(self).responses().push(
                (packet_id(*packet), packet_contents(*packet)),
            ),
            r ==> final(self).sent() == old(self).sent().push(
                packet_encoding(packet_id(*packet), packet_contents(*packet)),
            ),
            !r ==> final(self).responses() == old(self).responses(),
            !r ==> final(self).sent() == old(self).sent(),
            final(self).message_handler() == old(self).message_handler(),
            final(self).requests() == old(self).requests(),
            final(self).answers() == old(self).answers(),
            final(self).crc_errors() == old(self).crc_errors(),
    {
        match encode(packet) {
            Some(bytes) => {
                proof {
                    self.responses@ = self.responses@.push(
                        (packet_id(*packet), packet_contents(*packet)),
                    );
                    self.sent@ = self.sent@.push(bytes@);
                }
                self.tx.send(bytes.as_slice());
                true
            },
            None => false,
        }
    }
}

/// The communications system: it owns the decoder that raw bytes are
/// buffered in until they form complete packets.
#[derive(Debug, PartialEq)]
pub struct Communications {
    decoder: anpp::Decoder,
}

impl View for Communications {
    type V = Seq<u8>;

    /// The bytes waiting in the decoder.
    closed spec fn view(&self) -> Seq<u8> {
        decoder_contents(self.decoder)
    }
}

impl Clone for Communications {
    fn clone(&self) -> (r: Self)
        ensures
            r@ == self@,
    {
        Communications { decoder: decoder_clone(&self.decoder) }
    }
}

impl Default for Communications {
    fn default() -> (r: Self)
        ensures
            r@ == Seq::<u8>::empty(),
            decode_frame(r@) is None,
    {
        Communications::new()
    }
}

/// The requests handed to the message handler since its log held `before`.
pub open spec fn new_requests<T, M>(before: Outputs<T, M>, after: Outputs<T, M>) -> Seq<
    (u8, Seq<u8>),
> {
    after.requests().skip(before.requests().len() as int)
}

/// The answers a message handler gave since its log held `before`.
pub open spec fn new_answers<T, M>(before: Outputs<T, M>, after: Outputs<T, M>) -> Seq<
    Result<(u8, Seq<u8>), CommsError>,
> {
    after.answers().skip(before.answers().len() as int)
}

/// The responses transmitted since the log held `before`.
pub open spec fn new_responses<T, M>(before: Outputs<T, M>, after: Outputs<T, M>) -> Seq<
    (u8, Seq<u8>),
> {
    after.responses().skip(before.responses().len() as int)
}

/// Each response transmitted is exactly the message handler's answer to the
/// request at the same position.
pub open spec fn answered(
    answers: Seq<Result<(u8, Seq<u8>), CommsError>>,
    responses: Seq<(u8, Seq<u8>)>,
) -> bool {
    &&& responses.len() <= answers.len()
    &&& forall|i: int|
        0 <= i < responses.len() ==> answers[i] == Ok::<(u8, Seq<u8>), CommsError>(
            #[trigger] responses[i],
        )
}

/// What one [`Communications::process`] did to its outputs, given the
/// bytes `pending` that the decoder held after the new data was buffered and
/// the bytes `left` it holds afterwards: the requests handed to the message
/// handler are those of the frames cut from `pending` (those still found in
/// `left` were not reached), the CRC errors likewise, the handler answered
/// each request once, the responses transmitted are its answers in order,
/// and the transmitter was handed exactly the encoding of every response.
pub open spec fn traffic<T, M>(
    before: Outputs<T, M>,
    after: Outputs<T, M>,
    pending: Seq<u8>,
    left: Seq<u8>,
) -> bool {
    &&& after.requests() + requests_in(left) == before.requests() + requests_in(pending)
    &&& after.crc_errors() + crc_errors_in(left) == before.crc_errors() + crc_errors_in(pending)
    &&& extends(before.answers(), after.answers())
    &&& after.answers().len() - before.answers().len() == after.requests().len()
        - before.requests().len()
    &&& answered(new_answers(before, after), new_responses(before, after))
    &&& extends(before.responses(), after.responses())
    &&& extends(before.sent(), after.sent())
    &&& after.sent().skip(before.sent().len() as int) == encodings(
        after.responses().skip(before.responses().len() as int),
    )
}

impl Communications {
    /// A communications system with nothing buffered, so no frame either.
    pub fn new() -> (r: Self)
        ensures
            r@ == Seq::<u8>::empty(),
            decode_frame(r@) is None,
            requests_in(r@) == Seq::<(u8, Seq<u8>)>::empty(),
            drained(r@) == r@,
    {
        Communications { decoder: decoder_new() }
    }

    /// Cut the next frame off the front of the buffered bytes. When no
    /// complete frame is buffered nothing changes; otherwise the frame is
    /// dropped and its packet returned, or `InvalidCrc` when its CRC did not
    /// match. A frame found stays the first frame whatever bytes arrive
    /// after it.
    pub fn decode_next(&mut self) -> (r: Result<anpp::Packet, DecodeStatus>)
        ensures
            match decode_frame(old(self)@) {
                None => {
                    &&& r == Err::<anpp::Packet, DecodeStatus>(DecodeStatus::RequiresMoreData)
                    &&& final(self)@ == old(self)@
                },
                Some((n, frame)) => {
                    &&& HEADER_LEN <= n <= old(self)@.len()
                    &&& final(self)@ == old(self)@.skip(n as int)
                    &&& forall|more: Seq<u8>|
                        #[trigger] decode_frame(old(self)@ + more) == decode_frame(old(self)@)
                    &&& match frame {
                        None => r == Err::<anpp::Packet, DecodeStatus>(DecodeStatus::InvalidCrc),
                        Some((id, contents)) => {
                            &&& contents.len() <= MAX_PACKET_SIZE
                            &&& r matches Ok(p) && packet_id(p) == id && packet_contents(p)
                                == contents
                        },
                    }
                },
            },
    {
        decoder_decode(&mut self.decoder)
    }

    /// Read everything the connection received since the last tick and
    /// answer every complete packet: exactly [`Communications::process`]
    /// applied to those bytes. The bytes come from the caller's [`Rx`],
    /// whose implementations carry no contract, so the clauses below hold
    /// for the bytes read, whichever they were.
    pub fn poll<I: Rx, T: Tx, M: MessageHandler>(
        &mut self,
        inputs: &I,
        outputs: &mut Outputs<T, M>,
    ) -> (r: Result<(), PollError>)
        ensures
            exists|received: Seq<u8>|
                {
                    let pending = #[trigger] buffered(old(self)@, received);
                    &&& r is Ok ==> final(self)@ == drained(pending)
                    &&& requests_in(pending).len() == 0 ==> r is Ok
                    &&& is_suffix_of(final(self)@, pending)
                    &&& traffic(*old(outputs), *final(outputs), pending, final(self)@)
                    &&& forall|more: Seq<u8>|
                        #[trigger] requests_in(pending + more) == new_requests(
                            *old(outputs),
                            *final(outputs),
                        ) + requests_in(final(self)@ + more)
                    &&& r is Ok ==> final(outputs).requests() == old(outputs).requests()
                        + requests_in(pending)
                    &&& r is Ok ==> final(outputs).responses().len() - old(outputs).responses().len()
                        == requests_in(pending).len()
                    &&& r is Err ==> final(outputs).responses().len() + 1 - old(
                        outputs,
                    ).responses().len() == final(outputs).requests().len() - old(
                        outputs,
                    ).requests().len()
                    &&& r matches Err(PollError::Unhandled(e)) ==> new_answers(
                        *old(outputs),
                        *final(outputs),
                    ).last() == Err::<(u8, Seq<u8>), CommsError>(e)
                    &&& r matches Err(PollError::EmptyResponse) ==> new_answers(
                        *old(outputs),
                        *final(outputs),
                    ).last() matches Ok(p) && p.1.len() == 0
                },
    {
        let received = inputs.receive();
        self.process(received, outputs)
    }

    /// Buffer the bytes received this tick, then decode packets until no
    /// complete one is left: each packet is handed to the message handler
    /// and the encoding of its response is handed to the transmitter; each
    /// frame with a bad CRC is reported to the handler instead.
    ///
    /// Stops early with an error when the handler refuses a request or
    /// answers with an empty packet (nothing is sent for that request);
    /// otherwise every frame is answered and the decoder is left holding
    /// exactly the bytes after the last complete frame.
    ///
    /// The bytes left behind combine with whatever arrives next: the
    /// requests handled now, followed by those found in the leftover bytes
    /// with more data appended, are exactly the requests of the whole
    /// stream. A frame split across two ticks is therefore handled once, on
    /// the tick that completes it.
    pub fn process<T: Tx, M: MessageHandler>(
        &mut self,
        received: &[u8],
        outputs: &mut Outputs<T, M>,
    ) -> (r: Result<(), PollError>)
        ensures
            r is Ok ==> final(self)@ == drained(buffered(old(self)@, received@)),
            r is Ok ==> decode_frame(final(self)@) is None,
            requests_in(buffered(old(self)@, received@)).len() == 0 ==> r is Ok,
            is_suffix_of(final(self)@, buffered(old(self)@, received@)),
            traffic(*old(outputs), *final(outputs), buffered(old(self)@, received@), final(self)@),
            forall|more: Seq<u8>|
                #[trigger] requests_in(buffered(old(self)@, received@) + more) == new_requests(
                    *old(outputs),
                    *final(outputs),
                ) + requests_in(final(self)@ + more),
            r is Ok ==> final(outputs).requests() == old(outputs).requests() + requests_in(
                buffered(old(self)@, received@),
            ),
            r is Ok ==> final(outputs).crc_errors() == old(outputs).crc_errors() + crc_errors_in(
                buffered(old(self)@, received@),
            ),
            r is Ok ==> final(outputs).responses().len() - old(outputs).responses().len()
                == requests_in(buffered(old(self)@, received@)).len(),
            r is Err ==> final(outputs).responses().len() + 1 - old(outputs).responses().len()
                == final(outputs).requests().len() - old(outputs).requests().len(),
            r matches Err(PollError::Unhandled(e)) ==> new_answers(
                *old(outputs),
                *final(outputs),
            ).last() == Err::<(u8, Seq<u8>), CommsError>(e),
            r matches Err(PollError::EmptyResponse) ==> new_answers(
                *old(outputs),
                *final(outputs),
            ).last() matches Ok(p) && p.1.len() == 0,
    {
        if !decoder_push_data(&mut self.decoder, received) {
            // we've run out of space in the decoder buffer, clear out leftovers
            // from previous runs and copy in as much new data as possible
            decoder_clear(&mut self.decoder);
            let capacity = decoder_remaining_capacity(&self.decoder);
            let len = if received.len() < capacity {
                received.len()
            } else {
                capacity
            };
            let (head, _) = received.split_at(len);
            let pushed = decoder_push_data(&mut self.decoder, head);
            assert(pushed);
        }
        let ghost pending = buffered(old(self)@, received@);
        assert(self@ == pending) by {
            if old(self)@.len() + received@.len() > DECODER_CAPACITY {
                if received@.len() <= DECODER_CAPACITY {
                    assert(received@.subrange(0, received@.len() as int) =~= received@);
                }
            }
        }
        assert(pending.skip(0) =~= pending);
        proof {
            lemma_extends_refl(old(outputs).answers());
            lemma_extends_refl(old(outputs).responses());
            lemma_extends_refl(old(outputs).sent());
            assert(new_answers(*old(outputs), *old(outputs)) =~= Seq::<
                Result<(u8, Seq<u8>), CommsError>,
            >::empty());
            assert(new_responses(*old(outputs), *old(outputs)) =~= Seq::<(u8, Seq<u8>)>::empty());
            assert(new_requests(*old(outputs), *old(outputs)) =~= Seq::<(u8, Seq<u8>)>::empty());
            assert forall|more: Seq<u8>|
                #[trigger] requests_in(pending + more) == new_requests(*old(outputs), *old(outputs))
                    + requests_in(self@ + more) by {
                assert(Seq::<(u8, Seq<u8>)>::empty() + requests_in(pending + more) =~= requests_in(
                    pending + more,
                ));
            }
            assert(old(outputs).sent().skip(old(outputs).sent().len() as int) =~= Seq::<
                Seq<u8>,
            >::empty());
            assert(old(outputs).responses().skip(old(outputs).responses().len() as int) =~= Seq::<
                (u8, Seq<u8>),
            >::empty());
            assert(encodings(Seq::<(u8, Seq<u8>)>::empty()) =~= Seq::<Seq<u8>>::empty());
        }
        loop
            invariant
                pending == buffered(old(self)@, received@),
                is_suffix_of(self@, pending),
                drained(self@) == drained(pending),
                traffic(*old(outputs), *outputs, pending, self@),
                outputs.responses().len() - old(outputs).responses().len() == outputs.requests().len()
                    - old(outputs).requests().len(),
                forall|more: Seq<u8>|
                    #[trigger] requests_in(pending + more) == new_requests(*old(outputs), *outputs)
                        + requests_in(self@ + more),
            decreases self@.len(),
        {
            let ghost before = self@;
            let ghost log = *outputs;
            let next = self.decode_next();
            proof {
                if let Some((n, frame)) = decode_frame(before) {
                    lemma_stream_step(before, n, frame);
                }
            }
            match next {
                Ok(request) => {
                    assert(is_suffix_of(self@, pending)) by {
                        assert(pending.skip(pending.len() - self@.len()) =~= before.skip(
                            before.len() - self@.len(),
                        ));
                    }
                    let answer = outputs.handle(&request);
                    proof {
                        lemma_push_keeps_extending(
                            old(outputs).answers(),
                            log.answers(),
                            answer_view(answer),
                        );
                        assert(new_answers(*old(outputs), *outputs) =~= new_answers(
                            *old(outputs),
                            log,
                        ).push(answer_view(answer)));
                        assert(new_responses(*old(outputs), *outputs) =~= new_responses(
                            *old(outputs),
                            log,
                        ));
                        let x = (packet_id(request), packet_contents(request));
                        assert(new_requests(*old(outputs), *outputs) =~= new_requests(
                            *old(outputs),
                            log,
                        ).push(x));
                        assert forall|more: Seq<u8>|
                            #[trigger] requests_in(pending + more) == new_requests(
                                *old(outputs),
                                *outputs,
                            ) + requests_in(self@ + more) by {
                            assert(requests_in(before + more) == seq![x] + requests_in(
                                self@ + more,
                            ));
                            assert(new_requests(*old(outputs), log) + (seq![x] + requests_in(
                                self@ + more,
                            )) =~= new_requests(*old(outputs), log).push(x) + requests_in(
                                self@ + more,
                            ));
                        }
                        assert(requests_in(before) == seq![x] + requests_in(self@));
                        assert(log.requests().push(x) + requests_in(self@) =~= log.requests() + (
                        seq![x] + requests_in(self@)));
                    }
                    match answer {
                        Ok(response) => {
                            let ghost mid = *outputs;
                            if !outputs.send(&response) {
                                return Err(PollError::EmptyResponse);
                            }
                            proof {
                                lemma_push_keeps_extending(
                                    old(outputs).responses(),
                                    mid.responses(),
                                    (packet_id(response), packet_contents(response)),
                                );
                                lemma_push_keeps_extending(
                                    old(outputs).sent(),
                                    mid.sent(),
                                    packet_encoding(packet_id(response), packet_contents(response)),
                                );
                                let k = old(outputs).responses().len() as int;
                                let j = old(outputs).sent().len() as int;
                                let y = (packet_id(response), packet_contents(response));
                                assert(outputs.responses().skip(k) =~= mid.responses().skip(k).push(
                                    y,
                                ));
                                assert(new_answers(*old(outputs), *outputs) == new_answers(
                                    *old(outputs),
                                    mid,
                                ));
                                assert(outputs.sent().skip(j) =~= mid.sent().skip(j).push(
                                    packet_encoding(y.0, y.1),
                                ));
                                assert(encodings(mid.responses().skip(k).push(y)) =~= encodings(
                                    mid.responses().skip(k),
                                ).push(packet_encoding(y.0, y.1)));
                            }
                        },
                        Err(e) => {
                            return Err(PollError::Unhandled(e));
                        },
                    }
                },
                Err(DecodeStatus::InvalidCrc) => {
                    assert(is_suffix_of(self@, pending)) by {
                        assert(pending.skip(pending.len() - self@.len()) =~= before.skip(
                            before.len() - self@.len(),
                        ));
                    }
                    outputs.report_crc_error();
                    assert(new_requests(*old(outputs), *outputs) == new_requests(
                        *old(outputs),
                        log,
                    ));
                    assert forall|more: Seq<u8>|
                        #[trigger] requests_in(pending + more) == new_requests(
                            *old(outputs),
                            *outputs,
                        ) + requests_in(self@ + more) by {
                        assert(requests_in(before + more) == requests_in(self@ + more));
                    }
                    assert(requests_in(before) == requests_in(self@));
                    assert(crc_errors_in(before) == 1 + crc_errors_in(self@));
                },
                Err(DecodeStatus::RequiresMoreData) => {
                    proof {
                        assert(outputs.requests() + requests_in(self@) =~= outputs.requests());
                    }
                    return Ok(());
                },
            }
        }
    }
}

/// Cutting the first frame off a buffer that more bytes are appended to
/// leaves what cutting it off the buffer alone leaves, with those bytes
/// appended; the frame's request, if any, comes first either way.
proof fn lemma_stream_step(buffer: Seq<u8>, n: nat, frame: Option<(u8, Seq<u8>)>)
    requires
        decode_frame(buffer) == Some((n, frame)),
        HEADER_LEN <= n <= buffer.len(),
        forall|more: Seq<u8>| #[trigger] decode_frame(buffer + more) == decode_frame(buffer),
    ensures
        forall|more: Seq<u8>|
            #[trigger] requests_in(buffer + more) == match frame {
                Some(request) => seq![request],
                None => Seq::empty(),
            } + requests_in(buffer.skip(n as int) + more),
{
    assert forall|more: Seq<u8>|
        #[trigger] requests_in(buffer + more) == match frame {
            Some(request) => seq![request],
            None => Seq::empty(),
        } + requests_in(buffer.skip(n as int) + more) by {
        assert(decode_frame(buffer + more) == decode_frame(buffer));
        assert((buffer + more).skip(n as int) =~= buffer.skip(n as int) + more);
        if frame is None {
            assert(Seq::<(u8, Seq<u8>)>::empty() + requests_in(buffer.skip(n as int) + more)
                =~= requests_in(buffer.skip(n as int) + more));
        }
    }
}

/// A sequence extends itself.
proof fn lemma_extends_refl<A>(s: Seq<A>)
    ensures
        extends(s, s),
{
    assert(s.take(s.len() as int) =~= s);
}

/// Pushing onto a log that extends `earlier` still extends it.
proof fn lemma_push_keeps_extending<A>(earlier: Seq<A>, log: Seq<A>, x: A)
    requires
        extends(earlier, log),
    ensures
        extends(earlier, log.push(x)),
{
    assert(log.push(x).take(earlier.len() as int) =~= log.take(earlier.len() as int));
}

} // verus!
