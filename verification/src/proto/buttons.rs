//! Button bits of the wire pad state (DualSense diamond layout).
use vstd::prelude::*;

verus! {

pub const SQUARE: u32 = 1;
pub const CROSS: u32 = 2;
pub const CIRCLE: u32 = 4;
pub const TRIANGLE: u32 = 8;
pub const L1: u32 = 16;
pub const R1: u32 = 32;
pub const L2: u32 = 64;
pub const R2: u32 = 128;
pub const CREATE: u32 = 256;
pub const OPTIONS: u32 = 512;
pub const L3: u32 = 1024;
pub const R3: u32 = 2048;
pub const PS: u32 = 4096;
pub const TOUCH: u32 = 8192;
pub const MUTE: u32 = 16384;
pub const DPAD_UP: u32 = 65536;
pub const DPAD_DOWN: u32 = 131072;
pub const DPAD_LEFT: u32 = 262144;
pub const DPAD_RIGHT: u32 = 524288;

/// `b` when `cond` holds, else 0: one term of a button mask built from disjoint bits.
pub open spec fn bit_if(cond: bool, b: u32) -> u32 {
    if cond { b } else { 0 }
}

/// D-pad bits of an eight-way hat position, 0 = up and clockwise to 7 = up-left;
/// anything else is released.
pub open spec fn hat_bits(d: int) -> u32 {
    if d == 0 {
        DPAD_UP
    } else if d == 1 {
        (DPAD_UP + DPAD_RIGHT) as u32
    } else if d == 2 {
        DPAD_RIGHT
    } else if d == 3 {
        (DPAD_DOWN + DPAD_RIGHT) as u32
    } else if d == 4 {
        DPAD_DOWN
    } else if d == 5 {
        (DPAD_DOWN + DPAD_LEFT) as u32
    } else if d == 6 {
        DPAD_LEFT
    } else if d == 7 {
        (DPAD_UP + DPAD_LEFT) as u32
    } else {
        0
    }
}

/// `bit` when `cond` holds, else 0.
pub fn flag(cond: bool, bit: u32) -> (r: u32)
    ensures
        r == bit_if(cond, bit),
{
    if cond {
        bit
    } else {
        0
    }
}

/// D-pad bits of hat position `d` (see [`hat_bits`]).
pub fn hat_buttons(d: u8) -> (r: u32)
    ensures
        r == hat_bits(d as int),
{
    match d {
        0 => DPAD_UP,
        1 => DPAD_UP + DPAD_RIGHT,
        2 => DPAD_RIGHT,
        3 => DPAD_DOWN + DPAD_RIGHT,
        4 => DPAD_DOWN,
        5 => DPAD_DOWN + DPAD_LEFT,
        6 => DPAD_LEFT,
        7 => DPAD_UP + DPAD_LEFT,
        _ => 0,
    }
}

} // verus!
