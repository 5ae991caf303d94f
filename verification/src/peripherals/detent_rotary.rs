use vstd::prelude::*;

use super::pin::InputPin;
use super::rotary::{direction_of, Direction as RotaryDirection, PinError, Rotary};

verus! {

/// The way a detented encoder moved.
#[derive(Clone, Copy, Debug, PartialEq, Eq, Structural)]
pub enum Direction {
    Clockwise,
    CounterClockwise,
    Idle,
}

/// A rotary encoder reporting a movement only once it travelled `detent`
/// quadrature transitions in one direction.
pub struct DetentRotary<A, B> {
    rotary: Rotary<A, B>,
    detent: u8,
    traveled: i16,
    direction: Direction,
}

impl<A, B> DetentRotary<A, B> {
    pub closed spec fn rotary_value(&self) -> Rotary<A, B> {
        self.rotary
    }

    pub closed spec fn detent_value(&self) -> u8 {
        self.detent
    }

    /// Transitions counted towards the next detent.
    pub closed spec fn traveled_value(&self) -> i16 {
        self.traveled
    }

    pub closed spec fn direction_value(&self) -> Direction {
        self.direction
    }

    pub open spec fn wf(&self) -> bool {
        &&& self.rotary_value().wf()
        &&& self.detent_value() > 0
        &&& -(self.detent_value() as int) < self.traveled_value() < self.detent_value()
    }

    /// `next` counts the direction of the last transition of its underlying
    /// encoder on top of this one's count.
    pub open spec fn counted(&self, next: Self) -> bool {
        let d = self.detent_value() as int;
        &&& next.detent_value() == self.detent_value()
        &&& match direction_of(next.rotary_value().transition_value()) {
            RotaryDirection::Clockwise => if self.traveled_value() + 1 == d {
                next.traveled_value() == 0 && next.direction_value() == Direction::Clockwise
            } else {
                next.traveled_value() == self.traveled_value() + 1 && next.direction_value()
                    == Direction::Idle
            },
            RotaryDirection::CounterClockwise => if self.traveled_value() - 1 == -d {
                next.traveled_value() == 0 && next.direction_value() == Direction::CounterClockwise
            } else {
                next.traveled_value() == self.traveled_value() - 1 && next.direction_value()
                    == Direction::Idle
            },
            RotaryDirection::Idle => next.traveled_value() == self.traveled_value()
                && next.direction_value() == Direction::Idle,
        }
    }

    /// `next` is this encoder after a sample of lines that read `a_low` and
    /// `b_low`.
    pub open spec fn sampled(&self, next: Self, a_low: bool, b_low: bool) -> bool {
        &&& self.rotary_value().sampled(next.rotary_value(), a_low, b_low)
        &&& self.counted(next)
    }
}

impl<A: InputPin, B: InputPin> DetentRotary<A, B> {
    /// An encoder that reports a movement every `detent` transitions in one
    /// direction; a detent of zero would never report one.
    pub fn new(pin_a: A, pin_b: B, detent: u8) -> (r: Self)
        requires
            detent > 0,
        ensures
            r.wf(),
            r.rotary_value().pin_a_value() == pin_a,
            r.rotary_value().pin_b_value() == pin_b,
            r.rotary_value().traveled_value() == 0,
            r.rotary_value().transition_value() == 0,
            r.rotary_value().direction_value() == RotaryDirection::Idle,
            r.detent_value() == detent,
            r.traveled_value() == 0,
            r.direction_value() == Direction::Idle,
    {
        Self { rotary: Rotary::new(pin_a, pin_b), detent, traveled: 0, direction: Direction::Idle }
    }

    pub fn pin_a(&mut self) -> (r: &mut A)
        ensures
            *r == old(self).rotary_value().pin_a_value(),
            final(self).rotary_value().pin_a_value() == *final(r),
            final(self).rotary_value().pin_b_value() == old(self).rotary_value().pin_b_value(),
            final(self).rotary_value().traveled_value() == old(self).rotary_value().traveled_value(),
            final(self).rotary_value().transition_value() == old(
                self,
            ).rotary_value().transition_value(),
            final(self).rotary_value().direction_value() == old(
                self,
            ).rotary_value().direction_value(),
            final(self).detent_value() == old(self).detent_value(),
            final(self).traveled_value() == old(self).traveled_value(),
            final(self).direction_value() == old(self).direction_value(),
    {
        self.rotary.pin_a()
    }

    pub fn pin_b(&mut self) -> (r: &mut B)
        ensures
            *r == old(self).rotary_value().pin_b_value(),
            final(self).rotary_value().pin_b_value() == *final(r),
            final(self).rotary_value().pin_a_value() == old(self).rotary_value().pin_a_value(),
            final(self).rotary_value().traveled_value() == old(self).rotary_value().traveled_value(),
            final(self).rotary_value().transition_value() == old(
                self,
            ).rotary_value().transition_value(),
            final(self).rotary_value().direction_value() == old(
                self,
            ).rotary_value().direction_value(),
            final(self).detent_value() == old(self).detent_value(),
            final(self).traveled_value() == old(self).traveled_value(),
            final(self).direction_value() == old(self).direction_value(),
    {
        self.rotary.pin_b()
    }

    fn count_movement(&mut self)
        requires
            old(self).wf(),
        ensures
            final(self).wf(),
            final(self).rotary_value() == old(self).rotary_value(),
            old(self).counted(*final(self)),
    {
        match self.rotary.transition_direction() {
            RotaryDirection::Clockwise => {
                self.traveled += 1;
                self.direction = if self.traveled == self.detent as i16 {
                    self.traveled = 0;
                    Direction::Clockwise
                } else {
                    Direction::Idle
                };
            },
            RotaryDirection::CounterClockwise => {
                self.traveled -= 1;
                self.direction = if self.traveled == -(self.detent as i16) {
                    self.traveled = 0;
                    Direction::CounterClockwise
                } else {
                    Direction::Idle
                };
            },
            _ => self.direction = Direction::Idle,
        }
    }

    /// Takes one sample of lines that read `a_low` and `b_low`.
    pub fn sample_levels(&mut self, a_low: bool, b_low: bool)
        requires
            old(self).wf(),
        ensures
            final(self).wf(),
            old(self).sampled(*final(self), a_low, b_low),
    {
        self.rotary.sample_levels(a_low, b_low);
        self.count_movement();
    }

    /// Takes one sample of lines whose readings were `a_is_low` and
    /// `b_is_low`. A failed reading leaves the encoder as it was and is handed
    /// back, that of line A first.
    pub fn sample_readings(
        &mut self,
        a_is_low: Result<bool, A::Error>,
        b_is_low: Result<bool, B::Error>,
    ) -> (r: Result<(), PinError<A::Error, B::Error>>)
        requires
            old(self).wf(),
        ensures
            final(self).wf(),
            (match a_is_low {
                Err(e) => r == Err::<(), PinError<A::Error, B::Error>>(PinError::PinA(e))
                    && *final(self) == *old(self),
                Ok(a_low) => match b_is_low {
                    Err(e) => r == Err::<(), PinError<A::Error, B::Error>>(PinError::PinB(e))
                        && *final(self) == *old(self),
                    Ok(b_low) => r is Ok && old(self).sampled(*final(self), a_low, b_low),
                },
            }),
    {
        match a_is_low {
            Err(e) => Err(PinError::PinA(e)),
            Ok(a_low) => match b_is_low {
                Err(e) => Err(PinError::PinB(e)),
                Ok(b_low) => {
                    self.sample_levels(a_low, b_low);
                    Ok(())
                },
            },
        }
    }

    /// Reads both lines and takes one sample of them. A failed reading leaves
    /// the encoder as it was and is handed back, that of line A first.
    /// The encoder never stops the program on a failed reading: the caller
    /// decides whether one is fatal, and firmware that cannot go on without
    /// the line unwraps the result.
    pub fn sample(&mut self) -> (r: Result<(), PinError<A::Error, B::Error>>)
        requires
            old(self).wf(),
        ensures
            final(self).wf(),
            r is Ok ==> exists|a_low: bool, b_low: bool| old(self).sampled(*final(self), a_low, b_low),
            r is Err ==> *final(self) == *old(self),
    {
        let (a_is_low, b_is_low) = self.rotary.read_lines();
        self.sample_readings(a_is_low, b_is_low)
    }

    pub fn direction(&self) -> (r: Direction)
        ensures
            r == self.direction_value(),
    {
        self.direction
    }
}

} // verus!
