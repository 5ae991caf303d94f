use vstd::prelude::*;

use crate::text::str_eq;

pub mod dynamic_buffer;
pub mod paginated_buffer;

verus! {

/// The attribute that sets the playback volume.
pub const VOLUME_ATTRIBUTE: &'static str = "volume";

/// Whether the attribute named `name` sets the volume, the only setting of
/// the looper.
pub fn is_volume_attribute(name: &str) -> (r: bool)
    ensures
        r == (name@ == VOLUME_ATTRIBUTE@),
{
    str_eq(name, VOLUME_ATTRIBUTE)
}

/// Whether `n` is a power of two.
pub open spec fn is_power_of_two(n: u32) -> bool {
    n != 0 && n & ((n - 1) as u32) == 0
}

/// The smallest power of two that is not below `n`; zero for zero.
///
/// Powers of two above `2^31` do not fit the result, so `n` stays at or
/// below it.
pub fn upper_power_of_two(n: u32) -> (r: u32)
    requires
        n <= 0x8000_0000,
    ensures
        n == 0 ==> r == 0,
        n > 0 ==> is_power_of_two(r) && n <= r && r / 2 < n,
{
    if n == 0 {
        return 0;
    }
    let m0 = n - 1;
    let m1 = m0 | (m0 >> 1u32);
    let m2 = m1 | (m1 >> 2u32);
    let m3 = m2 | (m2 >> 4u32);
    let m4 = m3 | (m3 >> 8u32);
    let m5 = m4 | (m4 >> 16u32);
    assert(m5 < 0xffff_ffff && is_power_of_two((m5 + 1) as u32) && n <= m5 + 1 && (m5 + 1) / 2 < n)
        by (bit_vector)
        requires
            0 < n <= 0x8000_0000,
            m0 == (n - 1) as u32,
            m1 == m0 | (m0 >> 1u32),
            m2 == m1 | (m1 >> 2u32),
            m3 == m2 | (m2 >> 4u32),
            m4 == m3 | (m3 >> 8u32),
            m5 == m4 | (m4 >> 16u32),
    ;
    m5 + 1
}

} // verus!
