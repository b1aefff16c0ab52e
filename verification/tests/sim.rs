use aimc::comms::{CommsError, Communications, MessageHandler, Outputs, Rx};
use aimc::fps_counter::{Clear, FpsCounter};
use aimc::hal::messaging::{Ack, Nack};
use aimc::motion::{ControlMode, Motion, StartHomingSequence};
use aimc::time::Duration;
use aimc::motion::gcode_program::GcodeProgram;
use aimc::sim::{echo_request, encode_gcode_program, EchoError, ReceiveBuffer, Router, RX_CAPACITY};
use aimc::wire::Endian;

#[test]
fn received_bytes_are_kept_up_to_capacity() {
    let mut rx = ReceiveBuffer::new();
    rx.on_data_received(&[1, 2, 3]);
    rx.on_data_received(&[4]);
    assert_eq!(rx.receive(), &[1, 2, 3, 4]);

    rx.on_data_received(&[9u8; 300]);
    assert_eq!(rx.receive().len(), RX_CAPACITY);
    assert_eq!(&rx.receive()[..5], &[1, 2, 3, 4, 9]);

    rx.end_tick();
    assert!(rx.receive().is_empty());
}

#[test]
fn echo_requests_are_encoded_packets() {
    let bytes = echo_request("ping").unwrap();
    let mut decoder = anpp::Decoder::new();
    decoder.push_data(&bytes).unwrap();
    let pkt = decoder.decode().unwrap();
    assert_eq!(pkt.id(), 42);
    assert_eq!(pkt.contents(), b"ping");
    assert_eq!(bytes.len(), 4 + 5);
}

#[test]
fn echo_request_errors() {
    assert_eq!(echo_request(""), Err(EchoError::Unwritable));
    let long = "x".repeat(256);
    assert_eq!(echo_request(&long), Err(EchoError::TooLong));
    let longest = "x".repeat(255);
    assert_eq!(echo_request(&longest).unwrap().len(), 260);
}

#[test]
fn encode_gcode_program_message() {
    let bytes = encode_gcode_program(3, "G1 X5");
    assert_eq!(bytes, vec![0, 0, 0, 3, b'G', b'1', b' ', b'X', b'5']);
    let (msg, _) = GcodeProgram::try_from_ctx(&bytes, Endian::network()).unwrap();
    assert_eq!(msg, GcodeProgram::new(3, "G1 X5"));
}

#[derive(Default)]
struct Sent(Vec<Vec<u8>>);

impl aimc::comms::Tx for Sent {
    fn send(&mut self, data: &[u8]) {
        self.0.push(data.to_vec());
    }
}

#[test]
fn the_router_echoes_acks_and_echo_requests() {

    let mut router = Router::new(FpsCounter::new(), Motion::new(0u8));
    let echo = anpp::Packet::with_data(42, b"hi").unwrap();
    let back = router.handle_message(&echo).unwrap();
    assert_eq!(back, echo);

    let ack = anpp::Packet::new(0);
    assert_eq!(router.handle_message(&ack).unwrap(), ack);
    let nack = anpp::Packet::with_data(1, b"x").unwrap();
    assert_eq!(router.handle_message(&nack).unwrap(), nack);

    let other = anpp::Packet::with_data(7, b"x").unwrap();
    assert_eq!(router.handle_message(&other), Err(CommsError::UnknownMessageType));
}

#[test]
fn an_echo_request_comes_back_unchanged() {

    let request = echo_request("Hello, World!").unwrap();
    let mut rx = ReceiveBuffer::new();
    rx.on_data_received(&request);

    let mut comms = Communications::new();
    let mut tx = Sent::default();
    let mut router = Router::new(FpsCounter::new(), Motion::new(0u8));
    {
        let mut outputs = Outputs::new(&mut tx, &mut router);
        assert_eq!(comms.poll(&rx, &mut outputs), Ok(()));
    }
    assert_eq!(tx.0, vec![request]);
}

#[test]
fn clear_requests_empty_the_tick_window() {
    let mut fps = FpsCounter::new();
    fps.record(Duration::from_millis(1), Duration::from_millis(2));
    let mut router = Router::new(fps, Motion::new(0u8));

    let reply = router.handle_message(&anpp::Packet::new(Clear::ID)).unwrap();

    assert_eq!(reply.id(), Ack::ID);
    assert!(reply.contents().is_empty());
    assert_eq!(router.fps.len(), 0);
    assert_eq!(router.motion.control_mode, ControlMode::Idle);
}

#[test]
fn homing_requests_start_the_homing_sequence_once() {
    let mut router = Router::new(FpsCounter::new(), Motion::new(9u8));
    let request = anpp::Packet::new(StartHomingSequence::ID);

    let first = router.handle_message(&request).unwrap();
    assert_eq!(first.id(), Ack::ID);
    assert_eq!(router.motion.control_mode, ControlMode::Home(9u8));

    // already homing: refused, nothing changes
    let second = router.handle_message(&request).unwrap();
    assert_eq!(second.id(), Nack::ID);
    assert_eq!(router.motion.control_mode, ControlMode::Home(9u8));
}

#[test]
fn gcode_programs_and_unknown_messages_are_refused() {
    let mut router = Router::new(FpsCounter::new(), Motion::new(0u8));
    let gcode = anpp::Packet::with_data(5, b"G1").unwrap();
    assert_eq!(router.handle_message(&gcode), Err(CommsError::UnknownMessageType));
    let other = anpp::Packet::new(200);
    assert_eq!(router.handle_message(&other), Err(CommsError::UnknownMessageType));
}
