//! Wavetable generators and the WAV encoding of rendered samples.
pub mod wav;

pub use wav::encode_wav;

use vstd::prelude::*;

use crate::fixed_point::{in_i32, trunc_div, wrap_i16, wrap_to_i16};

verus! {

/// Sample `i` of a sawtooth table of `size` entries: a ramp from `-amplitude` toward
/// `amplitude`, computed in 32 bits with division toward zero and kept to 16 bits.
pub open spec fn saw_sample(i: int, size: int, amplitude: int) -> int {
    wrap_i16(trunc_div(2 * i * amplitude, size) - amplitude)
}

/// Whether a sawtooth table of `size` entries can be computed within 32-bit arithmetic.
pub open spec fn saw_defined(size: int, amplitude: int) -> bool {
    size == 0 || (size <= 0x4000_0000 && in_i32(2 * (size - 1) * amplitude))
}

/// Sample `i` of a triangle table of `size` entries: rising over the first half,
/// falling over the second.
pub open spec fn triangle_sample(i: int, size: int, amplitude: int) -> int {
    if i < size / 2 {
        wrap_i16(trunc_div(4 * i * amplitude, size) - amplitude)
    } else {
        wrap_i16(trunc_div(4 * (size - i) * amplitude, size) - amplitude)
    }
}

/// Whether a triangle table of `size` entries can be computed within 32-bit arithmetic.
pub open spec fn triangle_defined(size: int, amplitude: int) -> bool {
    size == 0 || (4 * (size - size / 2) <= i32::MAX && in_i32(
        4 * (size - size / 2) * amplitude,
    ))
}

/// Sample `i` of a square table of `size` entries.
pub open spec fn square_sample(i: int, size: int, amplitude: int) -> int {
    if i < size / 2 {
        amplitude
    } else {
        -amplitude
    }
}

/// A product `k * c * a` stays within 32 bits when it does for a larger `k`.
proof fn lemma_scaled_product_fits(k: int, n: int, c: int, a: int)
    requires
        0 <= k <= n,
        0 < c,
        in_i32(n * c * a),
    ensures
        in_i32(k * c * a),
        0 <= k * c <= n * c,
{
    assert(in_i32(k * c * a) && 0 <= k * c <= n * c) by (nonlinear_arith)
        requires
            0 <= k <= n,
            0 < c,
            in_i32(n * c * a),
    ;
}

/// The ramp quotient `k * c * a / n` (toward zero) is at most `c * 32768` in size.
proof fn lemma_ramp_quotient_bound(k: int, n: int, c: int, a: int)
    requires
        0 <= k <= n,
        0 < n,
        0 < c,
        -32768 <= a <= 32768,
    ensures
        -(c * 32768) <= trunc_div(k * c * a, n) <= c * 32768,
{
    let p = k * c * a;
    assert(-(n * (c * 32768)) <= p <= n * (c * 32768)) by (nonlinear_arith)
        requires
            0 <= k <= n,
            0 < c,
            -32768 <= a <= 32768,
            p == k * c * a,
    ;
    let m = c * 32768;
    if p >= 0 {
        assert(p / n <= m) by (nonlinear_arith)
            requires
                0 <= p <= n * m,
                0 < n,
        ;
        assert(p / n >= 0) by (nonlinear_arith)
            requires
                0 <= p,
                0 < n,
        ;
    } else {
        assert((-p) / n <= m) by (nonlinear_arith)
            requires
                0 <= -p <= n * m,
                0 < n,
        ;
        assert((-p) / n >= 0) by (nonlinear_arith)
            requires
                0 <= -p,
                0 < n,
        ;
    }
}

/// Generate a sawtooth wave table.
pub fn generate_saw_wave(size: usize, amplitude: i16) -> (wave: Vec<i16>)
    requires
        saw_defined(size as int, amplitude as int),
    ensures
        wave@.len() == size,
        forall|i: int| 0 <= i < size ==> wave@[i] == saw_sample(i, size as int, amplitude as int),
{
    let mut wave: Vec<i16> = Vec::with_capacity(size);
    let mut i: usize = 0;
    while i < size
        invariant
            i <= size,
            saw_defined(size as int, amplitude as int),
            wave@.len() == i,
            forall|j: int| 0 <= j < i ==> wave@[j] == saw_sample(j, size as int, amplitude as int),
        decreases size - i,
    {
        proof {
            lemma_scaled_product_fits(i as int, size - 1, 2, amplitude as int);
            lemma_ramp_quotient_bound(i as int, size as int, 2, amplitude as int);
        }
        // Sawtooth from -amplitude to amplitude
        let ramp: i32 = 2 * i as i32 * amplitude as i32;
        let value: i32 = ramp / size as i32 - amplitude as i32;
        wave.push(wrap_to_i16(value));
        i += 1;
    }
    wave
}

/// Generate a triangle wave table.
pub fn generate_triangle_wave(size: usize, amplitude: i16) -> (wave: Vec<i16>)
    requires
        triangle_defined(size as int, amplitude as int),
    ensures
        wave@.len() == size,
        forall|i: int|
            0 <= i < size ==> wave@[i] == triangle_sample(i, size as int, amplitude as int),
{
    let mut wave: Vec<i16> = Vec::with_capacity(size);
    let half_size = size / 2;
    let mut i: usize = 0;
    while i < size
        invariant
            i <= size,
            half_size == size / 2,
            triangle_defined(size as int, amplitude as int),
            wave@.len() == i,
            forall|j: int|
                0 <= j < i ==> wave@[j] == triangle_sample(j, size as int, amplitude as int),
        decreases size - i,
    {
        let value: i32 = if i < half_size {
            proof {
                lemma_scaled_product_fits(i as int, size - size / 2, 4, amplitude as int);
                lemma_ramp_quotient_bound(i as int, size as int, 4, amplitude as int);
            }
            // Rising part
            (4 * i as i32 * amplitude as i32) / size as i32 - amplitude as i32
        } else {
            proof {
                lemma_scaled_product_fits(size - i, size - size / 2, 4, amplitude as int);
                lemma_ramp_quotient_bound(size - i, size as int, 4, amplitude as int);
            }
            // Falling part
            (4 * (size - i) as i32 * amplitude as i32) / size as i32 - amplitude as i32
        };
        wave.push(wrap_to_i16(value));
        i += 1;
    }
    wave
}

/// Generate a square wave table: `amplitude` over the first half, `-amplitude` over the rest.
pub fn generate_square_wave(size: usize, amplitude: i16) -> (wave: Vec<i16>)
    requires
        size == 0 || amplitude > i16::MIN,
    ensures
        wave@.len() == size,
        forall|i: int|
            0 <= i < size ==> wave@[i] == square_sample(i, size as int, amplitude as int),
        forall|i: int| 0 <= i < size / 2 ==> wave@[i] == amplitude,
        forall|i: int| size / 2 <= i < size ==> wave@[i] == -amplitude,
{
    let mut wave: Vec<i16> = Vec::with_capacity(size);
    let half_size = size / 2;
    let mut i: usize = 0;
    while i < size
        invariant
            i <= size,
            half_size == size / 2,
            size == 0 || amplitude > i16::MIN,
            wave@.len() == i,
            forall|j: int|
                0 <= j < i ==> wave@[j] == square_sample(j, size as int, amplitude as int),
        decreases size - i,
    {
        wave.push(
            if i < half_size {
                amplitude
            } else {
                -amplitude
            },
        );
        i += 1;
    }
    wave
}

/// Law: a sawtooth of non-negative amplitude starts at `-amplitude` and never falls,
/// staying below `amplitude` (at zero amplitude it is silent).
pub proof fn lemma_saw_rises(i: int, j: int, size: int, amplitude: i16)
    requires
        0 <= i <= j < size,
        0 <= amplitude,
    ensures
        saw_sample(0, size, amplitude as int) == -amplitude,
        -amplitude <= saw_sample(i, size, amplitude as int) <= saw_sample(j, size, amplitude as int),
        saw_sample(j, size, amplitude as int) < amplitude || amplitude == 0,
{
    let a = amplitude as int;
    assert(0 <= 2 * i * a <= 2 * j * a) by (nonlinear_arith)
        requires
            0 <= i <= j,
            0 <= a,
    ;
    assert(2 * j * a < 2 * a * size || a == 0) by (nonlinear_arith)
        requires
            0 <= j < size,
            0 <= a,
    ;
    vstd::arithmetic::div_mod::lemma_div_is_ordered(2 * i * a, 2 * j * a, size);
    vstd::arithmetic::div_mod::lemma_div_pos_is_pos(2 * i * a, size);
    if a > 0 {
        assert((2 * j * a) / size < 2 * a) by (nonlinear_arith)
            requires
                0 <= 2 * j * a < 2 * a * size,
                0 < size,
        ;
    }
    assert(2 * 0 * a == 0) by (nonlinear_arith);
    assert((2 * 0 * a) / size == 0);
    crate::fixed_point::lemma_wrap_i16_in_range(-a);
    crate::fixed_point::lemma_wrap_i16_in_range((2 * i * a) / size - a);
    crate::fixed_point::lemma_wrap_i16_in_range((2 * j * a) / size - a);
}

/// Law: the triangle is mirror-symmetric: the falling half retraces the rising half.
pub proof fn lemma_triangle_symmetric(j: int, size: int, amplitude: int)
    requires
        0 < j < size / 2,
    ensures
        triangle_sample(size - j, size, amplitude) == triangle_sample(j, size, amplitude),
{
}

/// Law: the second half of a square wave is the negation of the first.
pub proof fn lemma_square_halves(i: int, size: int, amplitude: int)
    requires
        0 <= i < size / 2,
    ensures
        square_sample(i + size / 2, size, amplitude) == -square_sample(i, size, amplitude),
{
}

/// Law: a square table holds the amplitude itself (whatever its sign) over its first half
/// and its negation over the rest.
pub proof fn lemma_square_levels(i: int, size: int, amplitude: i16)
    requires
        0 <= i < size,
    ensures
        i < size / 2 ==> square_sample(i, size, amplitude as int) == amplitude,
        i >= size / 2 ==> square_sample(i, size, amplitude as int) == -amplitude,
{
}

/// Products that differ only in the sign of one factor have opposite signs.
proof fn lemma_negated_factor(c: int, i: int, a: int)
    ensures
        c * i * (-a) == -(c * i * a),
{
    assert(c * i * (-a) == -(c * i * a)) by (nonlinear_arith);
}

/// Law: negating the amplitude negates every sample of a sawtooth (the ramp divides
/// toward zero, so it is odd in the amplitude).
pub proof fn lemma_saw_odd_in_amplitude(i: int, size: int, amplitude: int)
    requires
        0 <= i < size,
        -32767 <= amplitude <= 32767,
    ensures
        saw_sample(i, size, -amplitude) == -saw_sample(i, size, amplitude),
{
    lemma_negated_factor(2, i, amplitude);
    let a = if amplitude >= 0 { amplitude } else { -amplitude };
    lemma_ramp_quotient_bound(i, size, 2, a);
    assert(2 * i * a < 2 * a * size || a == 0) by (nonlinear_arith)
        requires
            0 <= i < size,
            0 <= a,
    ;
    assert(2 * i * a >= 0) by (nonlinear_arith)
        requires
            0 <= i,
            0 <= a,
    ;
    if a > 0 {
        assert((2 * i * a) / size < 2 * a) by (nonlinear_arith)
            requires
                0 <= 2 * i * a < 2 * a * size,
                0 < size,
        ;
    }
    vstd::arithmetic::div_mod::lemma_div_pos_is_pos(2 * i * a, size);
    lemma_negated_factor(2, i, a);
    let q = trunc_div(2 * i * amplitude, size);
    assert(-a <= q - amplitude <= a);
    crate::fixed_point::lemma_wrap_i16_in_range(q - amplitude);
    crate::fixed_point::lemma_wrap_i16_in_range(-q + amplitude);
}

/// Law: a triangle table of even size and non-negative amplitude starts at `-amplitude`
/// and peaks at `amplitude` in its middle.
pub proof fn lemma_triangle_peak(size: int, amplitude: i16)
    requires
        0 < size,
        size % 2 == 0,
        0 <= amplitude,
    ensures
        triangle_sample(0, size, amplitude as int) == -amplitude,
        triangle_sample(size / 2, size, amplitude as int) == amplitude,
{
    let a = amplitude as int;
    assert(4 * 0 * a == 0) by (nonlinear_arith);
    assert(4 * (size - size / 2) * a == (2 * a) * size) by (nonlinear_arith)
        requires
            size % 2 == 0,
    ;
    vstd::arithmetic::div_mod::lemma_div_multiples_vanish(2 * a, size);
    assert(size * (2 * a) == (2 * a) * size) by (nonlinear_arith);
    crate::fixed_point::lemma_wrap_i16_in_range(-a);
    crate::fixed_point::lemma_wrap_i16_in_range(a);
}

/// Law: a sawtooth of non-negative amplitude holds `2 * i * amplitude / size` (rounded
/// down) minus the amplitude at entry `i`.
pub proof fn lemma_saw_value(i: int, size: int, amplitude: i16)
    requires
        0 <= i < size,
        0 <= amplitude,
    ensures
        saw_sample(i, size, amplitude as int) == (2 * i * amplitude) / size - amplitude,
{
    lemma_saw_rises(i, i, size, amplitude);
    let a = amplitude as int;
    assert(2 * i * a >= 0) by (nonlinear_arith)
        requires
            0 <= i,
            0 <= a,
    ;
    assert(2 * i * a < 2 * a * size || a == 0) by (nonlinear_arith)
        requires
            0 <= i < size,
            0 <= a,
    ;
    vstd::arithmetic::div_mod::lemma_div_pos_is_pos(2 * i * a, size);
    if a > 0 {
        assert((2 * i * a) / size < 2 * a) by (nonlinear_arith)
            requires
                0 <= 2 * i * a < 2 * a * size,
                0 < size,
        ;
    } else {
        assert(2 * i * a == 0) by (nonlinear_arith)
            requires
                a == 0,
        ;
    }
    crate::fixed_point::lemma_wrap_i16_in_range((2 * i * a) / size - a);
}

/// Law: a triangle table of even size and non-negative amplitude holds, at entry `i`,
/// `4 * d * amplitude / size` (rounded down) minus the amplitude, where `d` is the distance
/// of `i` from the nearer end (`i` or `size - i`).
pub proof fn lemma_triangle_value(i: int, size: int, amplitude: i16)
    requires
        0 <= i < size,
        size % 2 == 0,
        0 <= amplitude,
    ensures
        ({
            let d = if i < size - i { i } else { size - i };
            triangle_sample(i, size, amplitude as int) == (4 * d * amplitude) / size - amplitude
        }),
{
    let a = amplitude as int;
    let d = if i < size / 2 { i } else { size - i };
    assert(d <= size / 2);
    assert(0 <= 4 * d * a <= 2 * a * size) by (nonlinear_arith)
        requires
            0 <= d,
            2 * d <= size,
            0 <= a,
    ;
    vstd::arithmetic::div_mod::lemma_div_pos_is_pos(4 * d * a, size);
    assert((4 * d * a) / size <= 2 * a) by (nonlinear_arith)
        requires
            0 <= 4 * d * a <= 2 * a * size,
            0 < size,
    ;
    crate::fixed_point::lemma_wrap_i16_in_range((4 * d * a) / size - a);
}

} // verus!
