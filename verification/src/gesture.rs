//! The hand: three servos, and the poses that the gestures call for.

use crate::model::{decide, is_decisive, Decision, Output};
use crate::pio_pwm::{PioStep, PwmState};
use crate::servo::{pulse_for, Servo, ServoState};
use vstd::prelude::*;

verus! {

/// The angles of a pose, in degrees.
#[derive(Clone, Copy, Debug, PartialEq, Eq, Structural)]
pub struct Pose {
    pub thumb: u64,
    pub fingers: u64,
    pub arm: u64,
}

/// The pose of a thumbs-up, on servos that turn by `max_degrees`: the thumb
/// stretched, the fingers closed, the arm turned fully.
pub open spec fn thumbs_up_pose(max_degrees: u64) -> Pose {
    Pose { thumb: 0, fingers: max_degrees, arm: max_degrees }
}

/// The pose of a pinch: thumb and fingers half closed, the arm turned
/// fully.
pub open spec fn pinch_pose(max_degrees: u64) -> Pose {
    Pose { thumb: 90, fingers: 90, arm: max_degrees }
}

/// The pose of the open hand: thumb and fingers stretched, the arm turned
/// fully.
pub open spec fn open_pose(max_degrees: u64) -> Pose {
    Pose { thumb: 0, fingers: 0, arm: max_degrees }
}

/// The pose that a gesture calls for: a flexed muscle closes the hand to a
/// pinch, a relaxed one opens it. An unknown gesture calls for none: the
/// hand holds its last pose.
pub open spec fn pose_of(gesture: Output, max_degrees: u64) -> Option<Pose> {
    match gesture {
        Output::Flex => Some(pinch_pose(max_degrees)),
        Output::Relax => Some(open_pose(max_degrees)),
        Output::Unknown => None,
    }
}

/// The state of a servo after it was turned to `degrees`.
pub open spec fn turned(servo: ServoState, degrees: u64) -> ServoState {
    servo.commanded(
        pulse_for(servo.min_pulse_width, servo.max_pulse_width, servo.max_degree_rotation, degrees) as u64,
    )
}

/// The state of a servo after its wave was switched on or off.
pub open spec fn switched(servo: ServoState, on: bool) -> ServoState {
    ServoState {
        pwm: PwmState {
            enabled: on,
            pending: servo.pwm.pending.push(PioStep::SetEnable(on)),
            ..servo.pwm
        },
        ..servo
    }
}

/// What the hand stands for.
pub struct HandState {
    pub thumb: ServoState,
    pub fingers: ServoState,
    pub arm: ServoState,
}

impl HandState {
    /// The invariant of the hand: each servo is valid.
    pub open spec fn valid(self) -> bool {
        self.thumb.valid() && self.fingers.valid() && self.arm.valid()
    }

    /// The hand after its servos were turned to `pose`.
    pub open spec fn posed(self, pose: Pose) -> HandState {
        HandState {
            thumb: turned(self.thumb, pose.thumb),
            fingers: turned(self.fingers, pose.fingers),
            arm: turned(self.arm, pose.arm),
        }
    }
}

/// The servos of the arm.
pub struct Gestures {
    thumb_servo: Servo,
    fingers_servo: Servo,
    arm_servo: Servo,
}

impl View for Gestures {
    type V = HandState;

    closed spec fn view(&self) -> HandState {
        HandState { thumb: self.thumb_servo@, fingers: self.fingers_servo@, arm: self.arm_servo@ }
    }
}

impl Gestures {
    /// Whether the hand is valid. A hand of valid servos is, and every
    /// operation keeps it so.
    pub open spec fn wf(&self) -> bool {
        self@.valid()
    }

    /// A hand of three servos.
    pub fn new(thumb_servo: Servo, fingers_servo: Servo, arm_servo: Servo) -> (r: Self)
        ensures
            r@ == (HandState { thumb: thumb_servo@, fingers: fingers_servo@, arm: arm_servo@ }),
    {
        Gestures { thumb_servo, fingers_servo, arm_servo }
    }

    /// Switches the three waves on: thumb, fingers, arm.
    pub fn start(&mut self)
        ensures
            final(self)@ == (HandState {
                thumb: switched(old(self)@.thumb, true),
                fingers: switched(old(self)@.fingers, true),
                arm: switched(old(self)@.arm, true),
            }),
    {
        self.thumb_servo.start();
        self.fingers_servo.start();
        self.arm_servo.start();
    }

    /// Switches the three waves off: thumb, fingers, arm.
    pub fn stop(&mut self)
        ensures
            final(self)@ == (HandState {
                thumb: switched(old(self)@.thumb, false),
                fingers: switched(old(self)@.fingers, false),
                arm: switched(old(self)@.arm, false),
            }),
    {
        self.thumb_servo.stop();
        self.fingers_servo.stop();
        self.arm_servo.stop();
    }

    /// Turns thumb, fingers and arm, in this order, to the angles of `pose`.
    pub fn strike(&mut self, pose: Pose)
        requires
            old(self).wf(),
        ensures
            final(self).wf(),
            final(self)@ == old(self)@.posed(pose),
    {
        self.thumb_servo.rotate(pose.thumb);
        self.fingers_servo.rotate(pose.fingers);
        self.arm_servo.rotate(pose.arm);
    }

    /// Makes a thumbs-up. The range of the thumb's servo counts for all
    /// three.
    pub fn thumbs_up(&mut self)
        requires
            old(self).wf(),
        ensures
            final(self).wf(),
            final(self)@ == old(self)@.posed(thumbs_up_pose(old(self)@.thumb.max_degree_rotation)),
    {
        let full: u64 = self.thumb_servo.max_degree_rotation();
        self.strike(Pose { thumb: 0, fingers: full, arm: full });
    }

    /// Makes a pinch. The range of the thumb's servo counts for the arm.
    pub fn pinch(&mut self)
        requires
            old(self).wf(),
        ensures
            final(self).wf(),
            final(self)@ == old(self)@.posed(pinch_pose(old(self)@.thumb.max_degree_rotation)),
    {
        let full: u64 = self.thumb_servo.max_degree_rotation();
        self.strike(Pose { thumb: 90, fingers: 90, arm: full });
    }

    /// Forms the pose that `gesture` calls for. On an unknown gesture the
    /// hand holds its last pose: nothing is commanded.
    pub fn apply(&mut self, gesture: Output)
        requires
            old(self).wf(),
        ensures
            final(self).wf(),
            final(self)@ == match pose_of(gesture, old(self)@.thumb.max_degree_rotation) {
                Some(pose) => old(self)@.posed(pose),
                None => old(self)@,
            },
    {
        let full: u64 = self.thumb_servo.max_degree_rotation();
        match gesture {
            Output::Flex => self.strike(Pose { thumb: 90, fingers: 90, arm: full }),
            Output::Relax => self.strike(Pose { thumb: 0, fingers: 0, arm: full }),
            Output::Unknown => {},
        }
    }

    /// Decides on a gesture from the classifier's scores and forms its
    /// pose. Without a score there is no decision, and nothing is commanded.
    pub fn actuate(&mut self, scores: &Vec<u32>) -> (r: Option<Decision>)
        requires
            old(self).wf(),
        ensures
            final(self).wf(),
            r is Some <==> scores@.len() > 0,
            r is None ==> final(self)@ == old(self)@,
            r matches Some(decision) ==> {
                &&& is_decisive(scores@, decision.index as int)
                &&& decision.score == scores@[decision.index as int]
                &&& decision.gesture == Output::at(decision.index as int)
                &&& final(self)@ == match pose_of(
                    decision.gesture,
                    old(self)@.thumb.max_degree_rotation,
                ) {
                    Some(pose) => old(self)@.posed(pose),
                    None => old(self)@,
                }
            },
    {
        match decide(scores) {
            Some(decision) => {
                self.apply(decision.gesture);
                Some(decision)
            },
            None => None,
        }
    }

    /// Hands out the hardware operations that are to be carried out for
    /// thumb, fingers and arm, and leaves none behind.
    pub fn take_steps(&mut self) -> (steps: (Vec<PioStep>, Vec<PioStep>, Vec<PioStep>))
        ensures
            steps.0@ == old(self)@.thumb.pwm.pending,
            steps.1@ == old(self)@.fingers.pwm.pending,
            steps.2@ == old(self)@.arm.pwm.pending,
            final(self)@ == (HandState {
                thumb: ServoState {
                    pwm: PwmState { pending: Seq::<PioStep>::empty(), ..old(self)@.thumb.pwm },
                    ..old(self)@.thumb
                },
                fingers: ServoState {
                    pwm: PwmState { pending: Seq::<PioStep>::empty(), ..old(self)@.fingers.pwm },
                    ..old(self)@.fingers
                },
                arm: ServoState {
                    pwm: PwmState { pending: Seq::<PioStep>::empty(), ..old(self)@.arm.pwm },
                    ..old(self)@.arm
                },
            }),
    {
        let thumb = self.thumb_servo.take_steps();
        let fingers = self.fingers_servo.take_steps();
        let arm = self.arm_servo.take_steps();
        (thumb, fingers, arm)
    }
}

} // verus!
