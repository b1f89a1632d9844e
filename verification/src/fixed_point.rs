//! Integer arithmetic of the signal path: 32-bit intermediates, arithmetic shifts,
//! truncating division and the wrap of a 32-bit value into 16 bits.
use vstd::prelude::*;

verus! {

/// Whether a mathematical integer fits in an `i32`.
pub open spec fn in_i32(x: int) -> bool {
    i32::MIN <= x <= i32::MAX
}

/// Whether a mathematical integer fits in an `i16`.
pub open spec fn in_i16(x: int) -> bool {
    i16::MIN <= x <= i16::MAX
}

/// The two's-complement wrap of `x` into 16 bits: the unique value in
/// `[-32768, 32767]` congruent to `x` modulo 65536.
pub open spec fn wrap_i16(x: int) -> int {
    (x + 32768) % 65536 - 32768
}

/// Division rounding toward zero (for a positive divisor `d`).
pub open spec fn trunc_div(x: int, d: int) -> int {
    if x >= 0 {
        x / d
    } else {
        -((-x) / d)
    }
}

/// `x` limited to the range `[lo, hi]`.
pub open spec fn clamp(x: int, lo: int, hi: int) -> int {
    if x < lo {
        lo
    } else if x > hi {
        hi
    } else {
        x
    }
}

/// Wrapping a value already in the 16-bit range leaves it unchanged.
pub proof fn lemma_wrap_i16_in_range(x: int)
    requires
        in_i16(x),
    ensures
        wrap_i16(x) == x,
{
}

/// Truncate a 32-bit value to 16 bits, keeping the low bits (Rust's `as i16`).
pub(crate) fn wrap_to_i16(x: i32) -> (r: i16)
    ensures
        r == wrap_i16(x as int),
{
    let r = x as i16;
    assert(((x as i16) as int + 32768) % 65536 == (x as int + 32768) % 65536) by (bit_vector);
    r
}

/// Arithmetic right shift by ten bits: division by 1024 rounding toward negative infinity.
pub(crate) fn shr10(x: i32) -> (r: i32)
    ensures
        r == x as int / 1024,
{
    assert(x >> 10u32 == x / 1024) by (bit_vector);
    x >> 10u32
}

/// Arithmetic right shift by nine bits: division by 512 rounding toward negative infinity.
pub(crate) fn shr9(x: i32) -> (r: i32)
    ensures
        r == x as int / 512,
{
    assert(x >> 9u32 == x / 512) by (bit_vector);
    x >> 9u32
}

/// The low ten bits of a 32-bit value: its residue modulo 1024.
pub(crate) fn low10(x: i32) -> (r: i32)
    ensures
        r == x as int % 1024,
        0 <= r < 1024,
{
    assert(x & 0x3FFi32 == x % 1024) by (bit_vector);
    x & 0x3FF
}

} // verus!
