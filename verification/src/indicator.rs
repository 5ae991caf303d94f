//! The blinking light that shows the firmware runs.

use vstd::prelude::*;

verus! {

/// What a run of the indicator task does.
#[derive(Clone, Copy, Debug, PartialEq, Eq, Structural)]
pub struct IndicatorStep {
    /// Whether the light is lit.
    pub led_on: bool,
    /// What the task is run with a second later.
    pub next: bool,
}

/// The indicator task run with `on`: it lights the light when `on` holds and
/// darkens it otherwise, and runs again a second later with the opposite, so
/// that the light blinks.
pub fn set_indicator(on: bool) -> (r: IndicatorStep)
    ensures
        r == (IndicatorStep { led_on: on, next: !on }),
{
    if on {
        IndicatorStep { led_on: true, next: false }
    } else {
        IndicatorStep { led_on: false, next: true }
    }
}

} // verus!
