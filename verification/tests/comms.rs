use aimc::comms::{CommsError, Communications, MessageHandler, Outputs, PollError, Rx, Tx};
use aimc::hal::messaging::{Ack, Nack};
use anpp::Packet;

#[derive(Debug, Default)]
struct Sent(Vec<Vec<u8>>);

impl Tx for Sent {
    fn send(&mut self, data: &[u8]) {
        self.0.push(data.to_vec());
    }
}

/// Echoes every request, refusing id 13 and answering id 0 with an empty
/// packet.
#[derive(Debug, Default)]
struct Echo {
    requests: Vec<(u8, Vec<u8>)>,
    crc_errors: usize,
}

impl MessageHandler for Echo {
    fn handle_message(&mut self, msg: &Packet) -> Result<Packet, CommsError> {
        self.requests.push((msg.id(), msg.contents().to_vec()));
        match msg.id() {
            13 => Err(CommsError::UnknownMessageType),
            0 => Ok(Ack::new().into_packet()),
            _ => Ok(msg.clone()),
        }
    }

    fn on_crc_error(&mut self) {
        self.crc_errors += 1;
    }
}

struct Received(Vec<u8>);

impl Rx for Received {
    fn receive(&self) -> &[u8] {
        &self.0
    }
}

fn encode(id: u8, body: &[u8]) -> Vec<u8> {
    let pkt = Packet::with_data(id, body).unwrap();
    let mut buffer = vec![0; pkt.total_length()];
    pkt.write_to_buffer(&mut buffer).unwrap();
    buffer
}

#[test]
fn every_complete_packet_is_answered() {
    let mut comms = Communications::new();
    let mut tx = Sent::default();
    let mut handler = Echo::default();
    let mut outputs = Outputs::new(&mut tx, &mut handler);

    let mut data = encode(42, b"Hello");
    data.extend(encode(7, b"World"));
    let first = encode(42, b"Hello");

    assert_eq!(comms.process(&data, &mut outputs), Ok(()));
    drop(outputs);

    assert_eq!(handler.requests, vec![(42, b"Hello".to_vec()), (7, b"World".to_vec())]);
    assert_eq!(tx.0.len(), 2);
    assert_eq!(tx.0[0], first);
}

#[test]
fn partial_packets_wait_for_more_data() {
    let mut comms = Communications::new();
    let mut tx = Sent::default();
    let mut handler = Echo::default();
    let data = encode(42, b"split in two");
    let (head, tail) = data.split_at(8);

    {
        let mut outputs = Outputs::new(&mut tx, &mut handler);
        assert_eq!(comms.process(head, &mut outputs), Ok(()));
    }
    assert!(handler.requests.is_empty());
    {
        let mut outputs = Outputs::new(&mut tx, &mut handler);
        assert_eq!(comms.process(tail, &mut outputs), Ok(()));
    }
    assert_eq!(handler.requests, vec![(42, b"split in two".to_vec())]);
    assert_eq!(tx.0, vec![data.clone()]);
}

#[test]
fn poll_reads_from_the_inputs() {
    let mut comms = Communications::default();
    let mut tx = Sent::default();
    let mut handler = Echo::default();
    let inputs = Received(encode(5, b"abc"));
    {
        let mut outputs = Outputs::new(&mut tx, &mut handler);
        assert_eq!(comms.poll(&inputs, &mut outputs), Ok(()));
    }
    assert_eq!(handler.requests, vec![(5, b"abc".to_vec())]);
}

#[test]
fn bad_crc_is_reported() {
    let mut comms = Communications::new();
    let mut tx = Sent::default();
    let mut handler = Echo::default();
    let mut data = encode(42, b"corrupt me");
    let last = data.len() - 1;
    data[last] ^= 0xff;
    data.extend(encode(9, b"ok"));
    {
        let mut outputs = Outputs::new(&mut tx, &mut handler);
        assert_eq!(comms.process(&data, &mut outputs), Ok(()));
    }
    assert_eq!(handler.crc_errors, 1);
    assert_eq!(handler.requests, vec![(9, b"ok".to_vec())]);
}

#[test]
fn unhandled_message_stops_the_poll() {
    let mut comms = Communications::new();
    let mut tx = Sent::default();
    let mut handler = Echo::default();
    let mut data = encode(13, b"?");
    data.extend(encode(9, b"later"));
    {
        let mut outputs = Outputs::new(&mut tx, &mut handler);
        assert_eq!(
            comms.process(&data, &mut outputs),
            Err(PollError::Unhandled(CommsError::UnknownMessageType))
        );
    }
    assert_eq!(handler.requests, vec![(13, b"?".to_vec())]);
    assert!(tx.0.is_empty());
}

#[test]
fn an_empty_response_cannot_be_sent() {
    let mut comms = Communications::new();
    let mut tx = Sent::default();
    let mut handler = Echo::default();
    let data = encode(0, b"ack me");
    {
        let mut outputs = Outputs::new(&mut tx, &mut handler);
        assert_eq!(comms.process(&data, &mut outputs), Err(PollError::EmptyResponse));
    }
    assert!(tx.0.is_empty());
}

#[test]
fn overflowing_the_decoder_drops_the_leftovers() {
    let mut comms = Communications::new();
    let mut tx = Sent::default();
    let mut handler = Echo::default();
    // 300 bytes of garbage stay in the decoder
    let garbage = vec![0u8; 300];
    {
        let mut outputs = Outputs::new(&mut tx, &mut handler);
        assert_eq!(comms.process(&garbage, &mut outputs), Ok(()));
    }
    // this no longer fits alongside the garbage: the garbage is thrown away
    let mut data = encode(3, &[7u8; 200]);
    data.extend(encode(4, b"x"));
    {
        let mut outputs = Outputs::new(&mut tx, &mut handler);
        assert_eq!(comms.process(&data, &mut outputs), Ok(()));
    }
    assert_eq!(handler.requests.len(), 2);
    assert_eq!(handler.requests[0], (3, vec![7u8; 200]));
    assert_eq!(handler.requests[1], (4, b"x".to_vec()));
}

#[test]
fn more_than_the_decoder_holds_is_truncated() {
    let mut comms = Communications::new();
    let mut tx = Sent::default();
    let mut handler = Echo::default();
    let mut data = encode(1, &[1u8; 250]);
    data.extend(encode(2, &[2u8; 250]));
    data.extend(encode(3, &[3u8; 250]));
    {
        let mut outputs = Outputs::new(&mut tx, &mut handler);
        assert_eq!(comms.process(&data, &mut outputs), Ok(()));
    }
    // only the first 512 bytes are kept: two whole packets
    assert_eq!(handler.requests.len(), 2);
    assert_eq!(handler.requests[1].0, 2);
}

#[test]
fn ack_and_nack_packets() {
    let ack = Ack::new().into_packet();
    assert_eq!(ack.id(), Ack::ID);
    assert!(ack.contents().is_empty());
    let nack = Nack::new().into_packet();
    assert_eq!(nack.id(), Nack::ID);
    assert_eq!(Nack::ID, 1);
    assert_eq!(Ack::ID, 0);
}

#[test]
fn encode_gives_the_wire_bytes() {
    let pkt = Packet::with_data(42, b"Hello").unwrap();
    assert_eq!(aimc::comms::encode(&pkt), Some(encode(42, b"Hello")));
    assert_eq!(aimc::comms::encode(&Packet::new(3)), None);
}

#[test]
fn decode_next_cuts_one_frame() {
    let mut comms = Communications::new();
    let mut tx = Sent::default();
    let mut handler = Echo::default();
    let mut data = encode(13, b"held");
    data.extend(encode(7, b"next"));
    {
        let mut outputs = Outputs::new(&mut tx, &mut handler);
        assert!(comms.process(&data, &mut outputs).is_err());
    }
    // the refused request was consumed; the next frame is still buffered
    let next = comms.decode_next().unwrap();
    assert_eq!(next.id(), 7);
    assert_eq!(next.contents(), b"next");
    assert_eq!(comms.decode_next(), Err(aimc::packet::DecodeStatus::RequiresMoreData));
}

#[test]
fn an_encoded_packet_decodes_back_into_itself() {
    let pkt = Packet::with_data(9, b"round trip").unwrap();
    let mut bytes = aimc::comms::encode(&pkt).unwrap();
    bytes.extend(b"trailing bytes");

    let mut comms = Communications::new();
    let mut tx = Sent::default();
    let mut handler = Echo::default();
    {
        let mut outputs = Outputs::new(&mut tx, &mut handler);
        assert_eq!(comms.process(&bytes, &mut outputs), Ok(()));
    }
    assert_eq!(handler.requests, vec![(9, b"round trip".to_vec())]);
    assert_eq!(tx.0, vec![encode(9, b"round trip")]);
}

#[test]
fn a_cut_off_frame_holds_no_packet() {
    let bytes = encode(5, b"abcdef");
    for k in 0..bytes.len() {
        let mut comms = Communications::new();
        let mut tx = Sent::default();
        let mut handler = Echo::default();
        {
            let mut outputs = Outputs::new(&mut tx, &mut handler);
            assert_eq!(comms.process(&bytes[..k], &mut outputs), Ok(()));
        }
        assert!(handler.requests.is_empty());
        assert_eq!(handler.crc_errors, 0);
        assert!(tx.0.is_empty());
        assert_eq!(comms.decode_next(), Err(aimc::packet::DecodeStatus::RequiresMoreData));
    }
}

#[test]
fn a_cloned_system_keeps_the_buffered_bytes() {
    let mut comms = Communications::new();
    let mut tx = Sent::default();
    let mut handler = Echo::default();
    let bytes = encode(4, b"later");
    {
        let mut outputs = Outputs::new(&mut tx, &mut handler);
        assert_eq!(comms.process(&bytes[..3], &mut outputs), Ok(()));
    }
    let mut copy = comms.clone();
    assert_eq!(copy, comms);
    {
        let mut outputs = Outputs::new(&mut tx, &mut handler);
        assert_eq!(copy.process(&bytes[3..], &mut outputs), Ok(()));
    }
    assert_eq!(handler.requests, vec![(4, b"later".to_vec())]);
}
