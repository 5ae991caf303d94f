use vstd::prelude::*;

use super::debounce_buffer::DebounceBuffer;
use super::pin::InputPin;

verus! {

/// A push button read through a debounce window of `N` samples.
///
/// The button is pressed when its line is low.
pub struct Button<const N: usize, P> {
    pin: P,
    debounce_filter: DebounceBuffer<N>,
    active: bool,
    clicked: bool,
}

impl<const N: usize, P> Button<N, P> {
    pub closed spec fn pin_value(&self) -> P {
        self.pin
    }

    pub closed spec fn filter(&self) -> DebounceBuffer<N> {
        self.debounce_filter
    }

    /// The debounced state recorded by the last sample.
    pub closed spec fn is_active(&self) -> bool {
        self.active
    }

    /// Whether the last sample turned the debounced state from released to pressed.
    pub closed spec fn is_clicked(&self) -> bool {
        self.clicked
    }

    pub open spec fn wf(&self) -> bool {
        self.filter().wf()
    }

    /// `next` is this button after taking one sample of a line that read `low`.
    pub open spec fn sampled(&self, next: Self, low: bool) -> bool {
        &&& next.wf()
        &&& next.filter()@ == self.filter().after_write(low)
        &&& next.is_active() == next.filter().spec_read()
        &&& next.is_clicked() == (!self.is_active() && next.is_active())
        &&& next.pin_value() == self.pin_value()
    }
}

impl<const N: usize, P: InputPin> Button<N, P> {
    pub fn new(pin: P) -> (r: Self)
        ensures
            r.wf(),
            r.pin_value() == pin,
            r.filter().samples() == Seq::new(N as nat, |i: int| false),
            r.filter().position() == 0,
            !r.is_active(),
            !r.is_clicked(),
    {
        Self { pin, debounce_filter: DebounceBuffer::new(), active: false, clicked: false }
    }

    pub fn pin(&mut self) -> (r: &mut P)
        ensures
            *r == old(self).pin_value(),
            final(self).pin_value() == *final(r),
            final(self).filter() == old(self).filter(),
            final(self).is_active() == old(self).is_active(),
            final(self).is_clicked() == old(self).is_clicked(),
    {
        &mut self.pin
    }

    /// Takes one sample of a line that reads `low`: the sample enters the
    /// debounce window, the debounced state is the window's majority, and the
    /// button is clicked when that state has just turned to pressed.
    pub fn sample_level(&mut self, low: bool)
        requires
            old(self).wf(),
            N > 0,
        ensures
            old(self).sampled(*final(self), low),
    {
        let was_active = self.active;
        self.debounce_filter.write(low);
        self.active = self.debounce_filter.read();
        self.clicked = !was_active && self.active;
    }

    /// Takes one sample of a line whose reading was `is_low`; a failed
    /// reading leaves the button as it was and is handed back.
    pub fn sample_reading(&mut self, is_low: Result<bool, P::Error>) -> (r: Result<(), P::Error>)
        requires
            old(self).wf(),
            N > 0,
        ensures
            (match is_low {
                Ok(low) => r is Ok && old(self).sampled(*final(self), low),
                Err(e) => r == Err::<(), P::Error>(e) && *final(self) == *old(self),
            }),
    {
        match is_low {
            Ok(low) => {
                self.sample_level(low);
                Ok(())
            },
            Err(e) => Err(e),
        }
    }

    /// Reads the line and takes one sample of it; a failed reading leaves the
    /// button as it was and is handed back.
    /// The button never stops the program on a failed reading: the caller
    /// decides whether one is fatal, and firmware that cannot go on without
    /// the line unwraps the result.
    pub fn sample(&mut self) -> (r: Result<(), P::Error>)
        requires
            old(self).wf(),
            N > 0,
        ensures
            r is Ok ==> exists|low: bool| old(self).sampled(*final(self), low),
            r is Err ==> *final(self) == *old(self),
    {
        let reading = self.pin.is_low();
        self.sample_reading(reading)
    }

    /// The majority of the debounce window.
    pub fn active(&self) -> (r: bool)
        requires
            self.wf(),
        ensures
            r == self.filter().spec_read(),
    {
        self.debounce_filter.read()
    }

    /// The line read directly, without the debounce window: whether it is low.
    pub fn active_no_filter(&self) -> (r: Result<bool, P::Error>) {
        self.pin.is_low()
    }

    pub fn clicked(&self) -> (r: bool)
        ensures
            r == self.is_clicked(),
    {
        self.clicked
    }
}

/// A click is reported only by the sample on which the button turns pressed:
/// it implies the pressed state, and the sample after it never reports one.
pub proof fn lemma_click_lasts_one_sample<const N: usize, P>(
    first: Button<N, P>,
    second: Button<N, P>,
    third: Button<N, P>,
    low_1: bool,
    low_2: bool,
)
    requires
        first.sampled(second, low_1),
        second.sampled(third, low_2),
    ensures
        second.is_clicked() ==> second.is_active() && !first.is_active(),
        second.is_clicked() ==> !third.is_clicked(),
{
}

} // verus!
