use aimc::hal::automation::{AutomationSequence, Transition};
use aimc::hal::messaging::{Ack, Handler, Nack};
use aimc::hal::system::System;
use aimc::motion::{ControlMode, Motion, StartHomingSequence};

/// Homes in a fixed number of polls, or faults when asked to.
#[derive(Debug, Copy, Clone, PartialEq)]
struct Homing {
    polls_left: u32,
    fault: Option<u8>,
}

impl AutomationSequence<(), ()> for Homing {
    type FaultInfo = u8;

    fn poll(&mut self, _: &(), _: &mut ()) -> Transition<u8> {
        if let Some(f) = self.fault {
            return Transition::Fault(f);
        }
        if self.polls_left == 0 {
            Transition::Complete
        } else {
            self.polls_left -= 1;
            Transition::Incomplete
        }
    }
}

#[test]
fn idle_motion_does_nothing() {
    let mut motion = Motion::new(Homing { polls_left: 1, fault: None });
    assert_eq!(motion.poll(&(), &mut ()), None);
    assert_eq!(motion.control_mode, ControlMode::Idle);
}

#[test]
fn homing_runs_until_complete_then_goes_idle() {
    let seq = Homing { polls_left: 2, fault: None };
    let mut motion = Motion::new(seq);

    assert_eq!(motion.handle(StartHomingSequence {}), Ok(Ack::new()));
    assert_eq!(motion.control_mode, ControlMode::Home(seq));
    assert_eq!(motion.handle(StartHomingSequence {}), Err(Nack::new()));

    assert_eq!(motion.poll(&(), &mut ()), Some(Transition::Incomplete));
    assert_eq!(motion.poll(&(), &mut ()), Some(Transition::Incomplete));
    assert_eq!(motion.poll(&(), &mut ()), Some(Transition::Complete));
    assert_eq!(motion.control_mode, ControlMode::Idle);

    // homing can start again
    assert_eq!(motion.start_homing(seq), Ok(Ack::new()));
}

#[test]
fn a_fault_stops_homing() {
    let mut motion = Motion::new(Homing { polls_left: 5, fault: Some(4) });
    motion.handle(StartHomingSequence {}).unwrap();
    System::poll(&mut motion, &(), &mut ());
    assert_eq!(motion.control_mode, ControlMode::Idle);
}

#[test]
fn message_ids() {
    assert_eq!(StartHomingSequence::ID, 3);
    assert_eq!(aimc::fps_counter::Clear::ID, 2);
}
