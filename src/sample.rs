//! Samples are carried as the bit patterns of IEEE-754 single-precision values.
//! For every pattern that is not a NaN, the order of the values on the number line
//! is the order of `order_key`, and the order of their absolute values is the order
//! of `magnitude`: the format stores a sign bit above a magnitude that grows with the
//! value it encodes.
use vstd::prelude::*;

verus! {

/// The bit pattern of `+0.0`.
pub const SILENCE: u32 = 0;

/// The sign bit of a single-precision pattern.
pub const SIGN_BIT: u32 = 0x8000_0000;

/// The pattern with its sign bit cleared.
pub open spec fn magnitude(b: u32) -> int {
    (b % SIGN_BIT) as int
}

/// The place of the value on the number line; `+0.0` and `-0.0` share one place.
pub open spec fn order_key(b: u32) -> int {
    if b >= SIGN_BIT {
        -magnitude(b)
    } else {
        magnitude(b)
    }
}

/// Of two samples, the one of larger absolute value; the second on a tie.
pub open spec fn louder_of(x: u32, y: u32) -> u32 {
    if magnitude(y) >= magnitude(x) {
        y
    } else {
        x
    }
}

/// Of two samples, the larger; the second on a tie.
pub open spec fn larger_of(x: u32, y: u32) -> u32 {
    if order_key(y) >= order_key(x) {
        y
    } else {
        x
    }
}

/// Of two samples, the smaller; the second on a tie.
pub open spec fn smaller_of(x: u32, y: u32) -> u32 {
    if order_key(y) <= order_key(x) {
        y
    } else {
        x
    }
}

pub fn magnitude_of(b: u32) -> (r: u32)
    ensures
        r == magnitude(b),
{
    b % SIGN_BIT
}

pub fn order_key_of(b: u32) -> (r: i64)
    ensures
        r == order_key(b),
{
    let m = magnitude_of(b) as i64;
    if b >= SIGN_BIT {
        -m
    } else {
        m
    }
}

pub fn louder(x: u32, y: u32) -> (r: u32)
    ensures
        r == louder_of(x, y),
{
    if magnitude_of(y) >= magnitude_of(x) {
        y
    } else {
        x
    }
}

pub fn larger(x: u32, y: u32) -> (r: u32)
    ensures
        r == larger_of(x, y),
{
    if order_key_of(y) >= order_key_of(x) {
        y
    } else {
        x
    }
}

pub fn smaller(x: u32, y: u32) -> (r: u32)
    ensures
        r == smaller_of(x, y),
{
    if order_key_of(y) <= order_key_of(x) {
        y
    } else {
        x
    }
}

} // verus!
