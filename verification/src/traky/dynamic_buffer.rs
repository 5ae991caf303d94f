use vstd::prelude::*;

verus! {

/// A buffer for loops longer than what memory holds, loaded from storage
/// as it plays.
pub struct DynamicBuffer {}

impl DynamicBuffer {
    pub fn new() -> (r: Self)
        ensures
            r == (DynamicBuffer {}),
    {
        Self {}
    }

    /// Loads the saved loop; the buffer holds no state of it yet.
    pub fn load(&mut self)
        ensures
            *final(self) == *old(self),
    {
    }
}

} // verus!
