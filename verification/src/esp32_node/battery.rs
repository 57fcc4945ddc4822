//! The charge of the node's battery, measured behind a voltage divider.

use vstd::prelude::*;

verus! {

/// Battery millivolts per millivolt at the measuring pin.
pub const DIVIDER_RATIO: u32 = 2;

/// Millivolts that count as empty.
pub const EMPTY_MV: u32 = 3000;

/// Millivolts that count as full.
pub const FULL_MV: u32 = 4200;

/// The battery's millivolts at `pin_mv` millivolts on the pin, as far as they
/// can be reported.
pub open spec fn battery_mv(pin_mv: u16) -> int {
    if pin_mv * DIVIDER_RATIO <= u16::MAX {
        pin_mv * DIVIDER_RATIO
    } else {
        u16::MAX as int
    }
}

/// Roughly the charge in per cent: linear between empty and full.
pub open spec fn charge(mv: int) -> int {
    if mv <= EMPTY_MV {
        0
    } else if mv >= FULL_MV {
        100
    } else {
        (mv - EMPTY_MV) * 100 / (FULL_MV - EMPTY_MV)
    }
}

/// What a measurement at the pin says of the battery: its charge in per cent,
/// and its millivolts.
pub fn battery_reading(pin_mv: u16) -> (r: (u8, u16))
    ensures
        r.0 == charge(battery_mv(pin_mv)),
        r.1 == battery_mv(pin_mv),
        r.0 <= 100,
{
    let mut mv: u32 = pin_mv as u32 * DIVIDER_RATIO;
    if mv > 65_535 {
        mv = 65_535;
    }
    let pct: u8 = if mv <= EMPTY_MV {
        0
    } else if mv >= FULL_MV {
        100
    } else {
        ((mv - EMPTY_MV) * 100 / (FULL_MV - EMPTY_MV)) as u8
    };
    (pct, mv as u16)
}

/// More volts never count as less charge, and the charge is a percentage.
pub proof fn law_charge_grows_with_voltage(a: int, b: int)
    requires
        a <= b,
    ensures
        0 <= charge(a) <= charge(b) <= 100,
{
}

/// The battery has twice the volts of the pin, as far as they can be reported.
/// A charge of `n` per cent is `n` times twelve millivolts above 3 V, rounded
/// down, from nothing below 3.012 V to all from 4.2 V on.
pub proof fn law_charge_is_linear(pin_mv: u16, mv: int)
    ensures
        pin_mv <= 32_767 ==> battery_mv(pin_mv) == 2 * pin_mv,
        pin_mv > 32_767 ==> battery_mv(pin_mv) == 65_535,
        3_000 <= mv <= 4_200 ==> 3_000 + 12 * charge(mv) <= mv < 3_000 + 12 * (charge(mv) + 1),
        mv < 3_012 <==> charge(mv) == 0,
        mv >= 4_200 <==> charge(mv) == 100,
{
}

} // verus!
