//! Requests sent to the systems, and the simplest responses to them.
use crate::packet::{packet_contents, packet_id, packet_new};
use vstd::prelude::*;

verus! {

/// Something which can handle a request and generate a response.
pub trait Handler<M> {
    /// The type of response.
    type Response;

    fn handle(&mut self, msg: M) -> Self::Response;
}

/// Acknowledge a request without returning any extra information.
#[derive(Debug, Default, Copy, Clone, PartialEq, Eq, Structural)]
pub struct Ack {}

impl Ack {
    /// The ID used when encoded as a packet.
    pub const ID: u8 = 0;

    pub fn new() -> (r: Self)
        ensures
            r == (Ack {}),
    {
        Ack {}
    }

    /// The packet announcing this acknowledgement: the [`Ack::ID`] with no
    /// content.
    pub fn into_packet(self) -> (p: anpp::Packet)
        ensures
            packet_id(p) == Self::ID,
            packet_contents(p) == Seq::<u8>::empty(),
    {
        packet_new(Self::ID)
    }
}

/// The message was not acknowledged.
#[derive(Debug, Default, Copy, Clone, PartialEq, Eq, Structural)]
pub struct Nack {}

impl Nack {
    /// The ID used when encoded as a packet.
    pub const ID: u8 = 1;

    pub fn new() -> (r: Self)
        ensures
            r == (Nack {}),
    {
        Nack {}
    }

    /// The packet announcing this refusal: the [`Nack::ID`] with no
    /// content.
    pub fn into_packet(self) -> (p: anpp::Packet)
        ensures
            packet_id(p) == Self::ID,
            packet_contents(p) == Seq::<u8>::empty(),
    {
        packet_new(Self::ID)
    }
}

} // verus!
