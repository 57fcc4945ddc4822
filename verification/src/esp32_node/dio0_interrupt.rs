//! Waiting for the radio's DIO0 interrupt.

use vstd::prelude::*;

verus! {

/// The milliseconds to wait for an interrupt that may take `timeout_us`
/// microseconds: rounded up, so that the wait is never shorter than asked for,
/// and at least one.
pub fn wait_ms(timeout_us: u32) -> (r: u64)
    ensures
        r >= 1,
        r * 1000 >= timeout_us,
        r > 1 ==> (r - 1) * 1000 < timeout_us,
{
    let whole: u32 = timeout_us / 1000;
    let ms: u32 = if timeout_us % 1000 > 0 {
        whole + 1
    } else {
        whole
    };
    if ms > 1 {
        ms as u64
    } else {
        1
    }
}

} // verus!
