use vstd::prelude::*;

use super::pin::OutputPin;

verus! {

/// A gate output driving a digital line.
pub struct GateOutput<P> {
    pin: P,
}

impl<P> GateOutput<P> {
    pub closed spec fn pin_value(&self) -> P {
        self.pin
    }
}

impl<P: OutputPin> GateOutput<P> {
    pub fn new(pin: P) -> (r: Self)
        ensures
            r.pin_value() == pin,
    {
        Self { pin }
    }

    pub fn pin(&mut self) -> (r: &mut P)
        ensures
            *r == old(self).pin_value(),
            final(self).pin_value() == *final(r),
    {
        &mut self.pin
    }
}

/// A gate that can be raised and lowered.
///
/// A command the line refuses is handed back rather than stopping the
/// program; firmware that cannot go on without the output unwraps it.
pub trait GateOutputExt {
    type Error;

    /// The level the output was last driven to: `Some(true)` for high,
    /// `Some(false)` for low, `None` before it was driven.
    spec fn driven_level(&self) -> Option<bool>;

    /// Drives the output high.
    fn set(&mut self) -> (r: Result<(), Self::Error>)
        ensures
            r is Ok ==> final(self).driven_level() == Some(true),
    ;

    /// Drives the output low.
    fn reset(&mut self) -> (r: Result<(), Self::Error>)
        ensures
            r is Ok ==> final(self).driven_level() == Some(false),
    ;

    /// Drives the output high when `on` and low otherwise.
    fn set_value(&mut self, on: bool) -> (r: Result<(), Self::Error>)
        ensures
            r is Ok ==> final(self).driven_level() == Some(on),
    {
        if on {
            self.set()
        } else {
            self.reset()
        }
    }
}

impl<P: OutputPin> GateOutputExt for GateOutput<P> {
    type Error = P::Error;

    /// The level its pin was last commanded to.
    closed spec fn driven_level(&self) -> Option<bool> {
        self.pin.commanded_level()
    }

    fn set(&mut self) -> (r: Result<(), P::Error>) {
        self.pin.set_high()
    }

    fn reset(&mut self) -> (r: Result<(), P::Error>) {
        self.pin.set_low()
    }
}

} // verus!
