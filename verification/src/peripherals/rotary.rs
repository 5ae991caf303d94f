use vstd::prelude::*;

use super::pin::InputPin;

verus! {

/// The way a rotary encoder moved.
#[derive(Clone, Copy, Debug, PartialEq, Eq, Structural)]
pub enum Direction {
    Clockwise,
    CounterClockwise,
    Idle,
}

/// The failure of one of the two lines of an encoder.
#[derive(Debug, PartialEq, Eq)]
pub enum PinError<EA, EB> {
    PinA(EA),
    PinB(EB),
}

/// The direction a quadrature transition stands for. A transition packs the
/// previous levels of lines A and B (bits 1 and 0) and the current ones
/// (bits 3 and 2), a bit being set when its line is low.
pub open spec fn direction_of(transition: u8) -> Direction {
    if transition == 1 || transition == 7 || transition == 8 || transition == 14 {
        Direction::Clockwise
    } else if transition == 2 || transition == 4 || transition == 11 || transition == 13 {
        Direction::CounterClockwise
    } else {
        Direction::Idle
    }
}

impl From<u8> for Direction {
    fn from(transition: u8) -> (r: Direction)
        ensures
            r == direction_of(transition),
    {
        match transition {
            0b0001 | 0b0111 | 0b1000 | 0b1110 => Direction::Clockwise,
            0b0010 | 0b0100 | 0b1011 | 0b1101 => Direction::CounterClockwise,
            _ => Direction::Idle,
        }
    }
}

impl vstd::std_specs::convert::FromSpecImpl<u8> for Direction {
    open spec fn obeys_from_spec() -> bool {
        true
    }

    open spec fn from_spec(transition: u8) -> Direction {
        direction_of(transition)
    }
}

/// The transition that undoes `transition`: its current levels become the
/// previous ones and its previous levels the current ones.
pub open spec fn reversed(transition: u8) -> u8 {
    ((transition % 4) * 4 + transition / 4) as u8
}

/// Taking a step backwards reverses its direction: reversing a transition
/// turns a clockwise step into a counter-clockwise one and the other way
/// round, and leaves a transition that stands for no movement standing for
/// none.
pub proof fn lemma_reversed_step_swaps_direction(transition: u8)
    requires
        transition < 16,
    ensures
        direction_of(transition) == Direction::Clockwise <==> direction_of(reversed(transition))
            == Direction::CounterClockwise,
        direction_of(transition) == Direction::CounterClockwise <==> direction_of(
            reversed(transition),
        ) == Direction::Clockwise,
        direction_of(transition) == Direction::Idle <==> direction_of(reversed(transition))
            == Direction::Idle,
{
    assert(0 <= transition < 16);
    if transition < 4 {
    } else if transition < 8 {
    } else if transition < 12 {
    } else {
    }
}

/// The transition after a sample of lines A and B: the previous levels are the
/// current ones of `transition`, the current ones are the sampled levels.
pub open spec fn next_transition(transition: u8, a_low: bool, b_low: bool) -> u8 {
    (transition / 4 + (if a_low { 8u8 } else { 0u8 }) + (if b_low { 4u8 } else { 0u8 })) as u8
}

/// The steps travelled towards the next detent after a sample that produced
/// transition `next`: one more step in the direction of the transition, and
/// back to zero when both lines are low, the resting position.
pub open spec fn moved(traveled: i8, next: u8) -> int {
    if next / 4 == 3 {
        0
    } else {
        match direction_of(next) {
            Direction::Clockwise => traveled + 1,
            Direction::CounterClockwise => traveled - 1,
            Direction::Idle => traveled as int,
        }
    }
}

/// A quadrature rotary encoder reporting a movement every full detent of four
/// transitions.
pub struct Rotary<A, B> {
    pin_a: A,
    pin_b: B,
    traveled: i8,
    transition: u8,
    direction: Direction,
}

impl<A, B> Rotary<A, B> {
    pub closed spec fn pin_a_value(&self) -> A {
        self.pin_a
    }

    pub closed spec fn pin_b_value(&self) -> B {
        self.pin_b
    }

    /// Steps travelled since the last rest or detent.
    pub closed spec fn traveled_value(&self) -> i8 {
        self.traveled
    }

    /// The last two samples of both lines.
    pub closed spec fn transition_value(&self) -> u8 {
        self.transition
    }

    /// The movement the last sample reported.
    pub closed spec fn direction_value(&self) -> Direction {
        self.direction
    }

    pub open spec fn wf(&self) -> bool {
        &&& self.transition_value() < 16
        &&& -2 <= self.traveled_value() <= 2
    }

    /// `next` is this encoder after a sample of lines that read `a_low` and
    /// `b_low`.
    pub open spec fn sampled(&self, next: Self, a_low: bool, b_low: bool) -> bool {
        let t = next_transition(self.transition_value(), a_low, b_low);
        let m = moved(self.traveled_value(), t);
        &&& next.transition_value() == t
        &&& next.pin_a_value() == self.pin_a_value()
        &&& next.pin_b_value() == self.pin_b_value()
        &&& if m == 3 {
            next.direction_value() == direction_of(t) && next.traveled_value() == -1
        } else if m == -3 {
            next.direction_value() == direction_of(t) && next.traveled_value() == 1
        } else {
            next.direction_value() == Direction::Idle && next.traveled_value() == m
        }
    }
}

impl<A: InputPin, B: InputPin> Rotary<A, B> {
    pub fn new(pin_a: A, pin_b: B) -> (r: Self)
        ensures
            r.wf(),
            r.pin_a_value() == pin_a,
            r.pin_b_value() == pin_b,
            r.traveled_value() == 0,
            r.transition_value() == 0,
            r.direction_value() == Direction::Idle,
    {
        Self { pin_a, pin_b, traveled: 0i8, transition: 0u8, direction: Direction::Idle }
    }

    pub fn pin_a(&mut self) -> (r: &mut A)
        ensures
            *r == old(self).pin_a_value(),
            final(self).pin_a_value() == *final(r),
            final(self).pin_b_value() == old(self).pin_b_value(),
            final(self).traveled_value() == old(self).traveled_value(),
            final(self).transition_value() == old(self).transition_value(),
            final(self).direction_value() == old(self).direction_value(),
    {
        &mut self.pin_a
    }

    pub fn pin_b(&mut self) -> (r: &mut B)
        ensures
            *r == old(self).pin_b_value(),
            final(self).pin_b_value() == *final(r),
            final(self).pin_a_value() == old(self).pin_a_value(),
            final(self).traveled_value() == old(self).traveled_value(),
            final(self).transition_value() == old(self).transition_value(),
            final(self).direction_value() == old(self).direction_value(),
    {
        &mut self.pin_b
    }

    /// Takes one sample of lines that read `a_low` and `b_low`.
    pub fn sample_levels(&mut self, a_low: bool, b_low: bool)
        requires
            old(self).wf(),
        ensures
            final(self).wf(),
            old(self).sampled(*final(self), a_low, b_low),
    {
        let previous = self.transition;
        let mut transition = previous;

        // discard the pre-previous state
        transition >>= 2;
        let ghost shifted = transition;
        assert(shifted == previous / 4 && shifted < 4) by (bit_vector)
            requires
                shifted == previous >> 2,
                previous < 16,
        ;

        // record the new state
        if a_low {
            let t = transition;
            transition |= 0b1000;
            assert(transition == t + 8) by (bit_vector)
                requires
                    transition == t | 8,
                    t < 4,
            ;
        }
        if b_low {
            let t = transition;
            transition |= 0b100;
            assert(transition == t + 4) by (bit_vector)
                requires
                    transition == t | 4,
                    t < 4 || (8 <= t < 12),
            ;
        }

        self.transition = transition;

        let direction: Direction = self.transition.into();
        self.traveled = match direction {
            Direction::Clockwise => self.traveled + 1,
            Direction::CounterClockwise => self.traveled - 1,
            _ => self.traveled,
        };

        // in case some samples were missed and corrupted the traveled tracker,
        // reset to resting point, where both lines are low
        let t = self.transition;
        let masked = t & 0b1100;
        assert((masked == 12) == (t / 4 == 3)) by (bit_vector)
            requires
                masked == t & 12,
                t < 16,
        ;
        if masked == 0b1100 {
            self.traveled = 0;
        }

        // if traveled over a detent, record movement
        if self.traveled == 3 {
            self.direction = self.transition.into();
            self.traveled = -1;
        } else if self.traveled == -3 {
            self.direction = self.transition.into();
            self.traveled = 1;
        } else {
            self.direction = Direction::Idle;
        }
    }

    /// Reads both lines; what they read is up to the hardware.
    pub(crate) fn read_lines(&self) -> (Result<bool, A::Error>, Result<bool, B::Error>) {
        (self.pin_a.is_low(), self.pin_b.is_low())
    }

    /// Takes one sample of lines whose readings were `a_is_low` and
    /// `b_is_low`. A failed reading leaves the encoder as it was and is handed
    /// back, that of line A first.
    pub fn sample_readings(
        &mut self,
        a_is_low: Result<bool, A::Error>,
        b_is_low: Result<bool, B::Error>,
    ) -> (r: Result<(), PinError<A::Error, B::Error>>)
        requires
            old(self).wf(),
        ensures
            final(self).wf(),
            (match a_is_low {
                Err(e) => r == Err::<(), PinError<A::Error, B::Error>>(PinError::PinA(e))
                    && *final(self) == *old(self),
                Ok(a_low) => match b_is_low {
                    Err(e) => r == Err::<(), PinError<A::Error, B::Error>>(PinError::PinB(e))
                        && *final(self) == *old(self),
                    Ok(b_low) => r is Ok && old(self).sampled(*final(self), a_low, b_low),
                },
            }),
    {
        match a_is_low {
            Err(e) => Err(PinError::PinA(e)),
            Ok(a_low) => match b_is_low {
                Err(e) => Err(PinError::PinB(e)),
                Ok(b_low) => {
                    self.sample_levels(a_low, b_low);
                    Ok(())
                },
            },
        }
    }

    /// Reads both lines and takes one sample of them. A failed reading leaves
    /// the encoder as it was and is handed back, that of line A first.
    /// The encoder never stops the program on a failed reading: the caller
    /// decides whether one is fatal, and firmware that cannot go on without
    /// the line unwraps the result.
    pub fn sample(&mut self) -> (r: Result<(), PinError<A::Error, B::Error>>)
        requires
            old(self).wf(),
        ensures
            final(self).wf(),
            r is Ok ==> exists|a_low: bool, b_low: bool| old(self).sampled(*final(self), a_low, b_low),
            r is Err ==> *final(self) == *old(self),
    {
        let (a_is_low, b_is_low) = self.read_lines();
        self.sample_readings(a_is_low, b_is_low)
    }

    pub fn direction(&self) -> (r: Direction)
        ensures
            r == self.direction_value(),
    {
        self.direction
    }

    /// The direction of the last transition alone, before it is counted
    /// towards a detent.
    pub fn transition_direction(&self) -> (r: Direction)
        ensures
            r == direction_of(self.transition_value()),
    {
        Direction::from(self.transition)
    }
}

/// Both lines low is the resting position: reaching it clears the count of
/// steps and reports no movement.
pub proof fn lemma_rest_clears_travel<A, B>(before: Rotary<A, B>, after: Rotary<A, B>)
    requires
        before.wf(),
        before.sampled(after, true, true),
    ensures
        after.traveled_value() == 0,
        after.direction_value() == Direction::Idle,
{
    assert(next_transition(before.transition_value(), true, true) / 4 == 3);
}

} // verus!
