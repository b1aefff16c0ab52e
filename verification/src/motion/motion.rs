//! The motion system: it is either idle or running an automation sequence
//! that homes the machine's axes.
use crate::hal::automation::{AutomationSequence, Transition};
use crate::hal::messaging::{Ack, Handler, Nack};
use crate::hal::system::System;
use vstd::prelude::*;

verus! {

/// A request to start homing the axes.
#[derive(Debug, Default, Copy, Clone, PartialEq, Eq, Structural)]
pub struct StartHomingSequence {}

impl StartHomingSequence {
    /// The ID used when encoded as a packet.
    pub const ID: u8 = 3;
}

/// What the motion system is doing: nothing, or homing with the given
/// sequence.
#[derive(Debug, Copy, Clone, PartialEq, Eq)]
pub enum ControlMode<H> {
    Idle,
    Home(H),
}

impl<H> Default for ControlMode<H> {
    fn default() -> (r: ControlMode<H>)
        ensures
            r is Idle,
    {
        ControlMode::Idle
    }
}

/// The motion system.
///
/// `homing_sequence` is the sequence a [`StartHomingSequence`] request
/// starts: the homing procedure built from the machine's motion
/// parameters. `homing_finished` tells whether the last poll of the running
/// homing sequence reported that it had finished (completed or faulted); it
/// is cleared when homing starts.
#[derive(Debug, Copy, Clone, PartialEq, Eq)]
pub struct Motion<H> {
    pub homing_sequence: H,
    pub control_mode: ControlMode<H>,
    pub homing_finished: bool,
}

impl<H> Motion<H> {
    /// An idle motion system that homes with the given sequence.
    pub fn new(homing_sequence: H) -> (r: Motion<H>)
        ensures
            r.homing_sequence == homing_sequence,
            r.control_mode is Idle,
            !r.homing_finished,
    {
        Motion { homing_sequence, control_mode: ControlMode::Idle, homing_finished: false }
    }

    /// Make progress: while homing, poll the homing sequence once and go back
    /// to idle when it completes or faults. Returns what the sequence
    /// reported, or `None` when idle.
    ///
    /// While homing, the system goes back to idle exactly when the sequence
    /// reports an end state; after an `Incomplete` report it is still
    /// homing, with the sequence as its poll left it.
    pub fn poll<L, A>(&mut self, inputs: &L, outputs: &mut A) -> (r: Option<
        Transition<<H as AutomationSequence<L, A>>::FaultInfo>,
    >) where H: AutomationSequence<L, A>
        ensures
            old(self).control_mode is Idle ==> r is None && *final(self) == *old(self),
            old(self).control_mode is Home ==> (r matches Some(t) && (final(self).control_mode is Idle
                <==> !(t is Incomplete))),
            old(self).control_mode is Home ==> (r matches Some(t) && final(self).homing_finished == !(
            t is Incomplete)),
            old(self).control_mode is Home ==> (final(self).control_mode is Home
                <==> !final(self).homing_finished),
            final(self).homing_sequence == old(self).homing_sequence,
    {
        let transition = match &mut self.control_mode {
            ControlMode::Idle => {
                return None;
            },
            ControlMode::Home(home) => home.poll(inputs, outputs),
        };
        let finished = transition.at_end_state();
        self.homing_finished = finished;
        if finished {
            self.control_mode = ControlMode::Idle;
        }
        Some(transition)
    }

    /// Start homing with `seq`, unless something is already running.
    pub fn start_homing(&mut self, seq: H) -> (r: Result<Ack, Nack>)
        ensures
            old(self).control_mode is Idle ==> r is Ok && final(self).control_mode
                == ControlMode::Home(seq) && final(self).homing_sequence == old(self).homing_sequence
                && !final(self).homing_finished,
            !(old(self).control_mode is Idle) ==> r is Err && *final(self) == *old(self),
    {
        match self.control_mode {
            ControlMode::Idle => {
                self.control_mode = ControlMode::Home(seq);
                self.homing_finished = false;
                Ok(Ack::new())
            },
            _ => Err(Nack::new()),
        }
    }
}

impl<H: Copy> Handler<StartHomingSequence> for Motion<H> {
    type Response = Result<Ack, Nack>;

    /// Start the homing sequence when idle (acknowledged); refuse otherwise.
    fn handle(&mut self, _msg: StartHomingSequence) -> (r: Result<Ack, Nack>)
        ensures
            old(self).control_mode is Idle ==> r is Ok && *final(self) == (Motion {
                homing_sequence: old(self).homing_sequence,
                control_mode: ControlMode::Home(old(self).homing_sequence),
                homing_finished: false,
            }),
            !(old(self).control_mode is Idle) ==> r is Err && *final(self) == *old(self),
    {
        let seq = self.homing_sequence;
        self.start_homing(seq)
    }
}

impl<L, A, H: AutomationSequence<L, A>> System<L, A> for Motion<H> {
    /// Poll the running homing sequence, if any (see [`Motion::poll`]):
    /// while homing, the system goes back to idle exactly when the sequence
    /// reports that it finished, and otherwise keeps homing.
    fn poll(&mut self, inputs: &L, outputs: &mut A)
        ensures
            old(self).control_mode is Idle ==> *final(self) == *old(self),
            old(self).control_mode is Home ==> (final(self).control_mode is Idle
                <==> final(self).homing_finished),
            final(self).homing_sequence == old(self).homing_sequence,
    {
        let _ = Motion::poll(self, inputs, outputs);
    }
}

} // verus!
