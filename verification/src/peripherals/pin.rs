use vstd::prelude::*;

verus! {

/// A digital input line, as a board support crate exposes it.
///
/// Nothing is known of what a reading returns: the hardware decides.
pub trait InputPin {
    type Error;

    fn is_high(&self) -> Result<bool, Self::Error>;

    fn is_low(&self) -> Result<bool, Self::Error>;
}

/// A digital output line, as a board support crate exposes it.
///
/// A command that succeeds leaves the line commanded to its level; whether
/// one succeeds is up to the hardware.
pub trait OutputPin {
    type Error;

    /// The level the line was last commanded to: `Some(true)` for high,
    /// `Some(false)` for low, `None` before any command.
    spec fn commanded_level(&self) -> Option<bool>;

    fn set_low(&mut self) -> (r: Result<(), Self::Error>)
        ensures
            r is Ok ==> final(self).commanded_level() == Some(false),
    ;

    fn set_high(&mut self) -> (r: Result<(), Self::Error>)
        ensures
            r is Ok ==> final(self).commanded_level() == Some(true),
    ;
}

} // verus!
