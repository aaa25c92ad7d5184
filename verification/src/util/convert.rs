//! Integer conversions that wrap, as a cast between integer types does, with
//! the value they give stated exactly.

use vstd::prelude::*;

verus! {

/// `n` wrapped into the range of `i32`: the value that has the same lowest
/// 32 bits.
pub open spec fn wrapped_i32(n: int) -> int {
    let low = n % 0x1_0000_0000;
    if low < 0x8000_0000 {
        low
    } else {
        low - 0x1_0000_0000
    }
}

/// `n` wrapped into the range of `u16`: the value of its lowest 16 bits.
pub open spec fn wrapped_u16(n: int) -> int {
    n % 0x1_0000
}

/// `n` widened to `usize` with its sign carried along: itself where it is
/// not negative, else counted down from one past the largest `usize`.
pub open spec fn sign_extended_usize(n: int) -> int {
    if n >= 0 {
        n
    } else {
        usize::MAX + 1 + n
    }
}

/// `n` widened to `u64` with its sign carried along.
pub open spec fn sign_extended_u64(n: int) -> int {
    if n >= 0 {
        n
    } else {
        0x1_0000_0000_0000_0000 + n
    }
}

/// Narrows a count to `i32`, keeping its lowest 32 bits.
pub fn usize_to_i32(n: usize) -> (r: i32)
    ensures
        r == wrapped_i32(n as int),
{
    let low: u64 = (n as u64) % 0x1_0000_0000;
    if low < 0x8000_0000 {
        low as i32
    } else {
        ((low as i64) - 0x1_0000_0000) as i32
    }
}

/// Narrows a stored port to `u16`, keeping its lowest 16 bits.
pub fn i32_to_u16(n: i32) -> (r: u16)
    ensures
        r == wrapped_u16(n as int),
{
    let shifted: u64 = ((n as i64) + 0x8000_0000) as u64;
    let low: u64 = shifted % 0x1_0000;
    assert(low == (n as int) % 0x1_0000) by {
        assert((n + 0x8000_0000) % 0x1_0000 == n % 0x1_0000) by (nonlinear_arith);
    }
    low as u16
}

/// Widens a stored count to `usize`, carrying its sign along.
pub fn i32_to_usize(n: i32) -> (r: usize)
    ensures
        r == sign_extended_usize(n as int),
{
    if n >= 0 {
        n as usize
    } else {
        usize::MAX - ((-(n + 1)) as usize)
    }
}

/// Widens a signed number of seconds to `u64`, carrying its sign along.
pub fn i32_to_u64(n: i32) -> (r: u64)
    ensures
        r == sign_extended_u64(n as int),
{
    if n >= 0 {
        n as u64
    } else {
        u64::MAX - ((-(n + 1)) as u64)
    }
}

} // verus!
