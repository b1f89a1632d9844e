//! One sample of the compound oscillator: advance both oscillators, handle sync,
//! read both wavetables, combine the two samples and amplify the result.
use vstd::prelude::*;

use crate::fixed_point::{clamp, in_i32, shr10, shr9, low10, trunc_div, wrap_i16, wrap_to_i16};
use crate::oscillator::{lut_index_of, phase_modulus, OctaneOscillatorState};

verus! {

/// How the outputs of the two oscillators are combined.
#[derive(Debug, Clone, Copy, PartialEq, Eq, Structural)]
pub enum CombineMethod {
    /// Cross-fade between oscillators.
    Fade,
    /// Phase distortion: oscillator B modulates the read position of oscillator A.
    Phase,
    /// Multiplication (ring modulation) with a dry/wet mix.
    Mult,
}

/// Fixed-point weight of a full mix: `alpha_fixed == 1024` stands for alpha 1.0.
pub open spec fn full_scale() -> int {
    1024
}

/// Weighted sum of a cross-fade, scaled by 1024.
pub open spec fn fade_mix(sa: int, sb: int, af: int) -> int {
    sa * (full_scale() - af) + sb * af
}

/// Ring-modulated product of two samples, divided by 512 rounding down.
pub open spec fn ring_product(sa: int, sb: int) -> int {
    (sa * sb) / 512
}

/// Dry/wet sum of the ring modulator, scaled by 1024.
pub open spec fn mult_mix(sa: int, sb: int, af: int) -> int {
    sa * (full_scale() - af) + ring_product(sa, sb) * af
}

/// Offset of oscillator A's read position under phase distortion.
pub open spec fn phase_offset(sb: int, af: int) -> int {
    trunc_div((sb * 12 * af) / 1024, 32)
}

/// Read position of oscillator A under phase distortion, wrapped into `[0, 1024)`.
pub open spec fn distorted_index(index_a: int, sb: int, af: int) -> int {
    (index_a + phase_offset(sb, af)) % 1024
}

/// The combined sample, before amplification.
pub open spec fn combined_value(
    method: CombineMethod,
    lut_a: Seq<i16>,
    index_a: int,
    sa: int,
    sb: int,
    af: int,
) -> int {
    match method {
        CombineMethod::Fade => wrap_i16(fade_mix(sa, sb, af) / 1024),
        CombineMethod::Phase => {
            let i = distorted_index(index_a, sb, af);
            if i < lut_a.len() {
                lut_a[i] as int
            } else {
                0
            }
        },
        CombineMethod::Mult => wrap_i16(mult_mix(sa, sb, af) / 1024),
    }
}

/// Whether combining the two samples stays within 32-bit arithmetic.
pub open spec fn combine_defined(method: CombineMethod, sa: int, sb: int, af: int) -> bool {
    match method {
        CombineMethod::Fade => {
            &&& in_i32(full_scale() - af)
            &&& in_i32(sa * (full_scale() - af))
            &&& in_i32(sb * af)
            &&& in_i32(fade_mix(sa, sb, af))
        },
        CombineMethod::Phase => in_i32(sb * 12 * af),
        CombineMethod::Mult => {
            &&& in_i32(full_scale() - af)
            &&& in_i32(sa * (full_scale() - af))
            &&& in_i32(ring_product(sa, sb) * af)
            &&& in_i32(mult_mix(sa, sb, af))
        },
    }
}

/// The output stage: times 64, saturated to the 16-bit range.
pub open spec fn amplified(r: int) -> int {
    clamp(64 * r, -32768, 32767)
}

/// Whether the sync of oscillator A to B fires: sync is on and B's phase wrapped.
pub open spec fn sync_fires(b: OctaneOscillatorState, sync: bool) -> bool {
    sync && b.phase > b.stepped().phase
}

/// Oscillator A after one sample: reset to phase zero when sync fires, else stepped.
pub open spec fn next_state_a(
    a: OctaneOscillatorState,
    b: OctaneOscillatorState,
    sync: bool,
) -> OctaneOscillatorState {
    if sync_fires(b, sync) {
        OctaneOscillatorState { phase: 0, phase_delta: a.phase_delta }
    } else {
        a.stepped()
    }
}

/// Whether one sample can be produced from the given (already advanced) phases:
/// both wavetable reads are in bounds and the combination stays within 32 bits.
pub open spec fn sample_defined(
    phase_a: u32,
    phase_b: u32,
    lut_a: Seq<i16>,
    lut_b: Seq<i16>,
    method: CombineMethod,
    af: int,
) -> bool {
    let ia = lut_index_of(phase_a);
    let ib = lut_index_of(phase_b);
    &&& ia < lut_a.len()
    &&& ib < lut_b.len()
    &&& combine_defined(method, lut_a[ia] as int, lut_b[ib] as int, af)
}

/// The output sample for the given (already advanced) phases.
pub open spec fn output_sample(
    phase_a: u32,
    phase_b: u32,
    lut_a: Seq<i16>,
    lut_b: Seq<i16>,
    method: CombineMethod,
    af: int,
) -> int {
    let ia = lut_index_of(phase_a);
    let ib = lut_index_of(phase_b);
    amplified(combined_value(method, lut_a, ia, lut_a[ia] as int, lut_b[ib] as int, af))
}

/// Whether `octane_synthesize` can run on these arguments: its wavetable reads are in
/// bounds and its arithmetic stays within 32 bits.
pub open spec fn synthesize_defined(
    a: OctaneOscillatorState,
    b: OctaneOscillatorState,
    lut_a: Seq<i16>,
    lut_b: Seq<i16>,
    method: CombineMethod,
    af: int,
    sync: bool,
) -> bool {
    sample_defined(next_state_a(a, b, sync).phase, b.stepped().phase, lut_a, lut_b, method, af)
}

/// The product of two 16-bit samples lies within `[-2^30, 2^30]`.
proof fn lemma_ring_product_fits(sa: i16, sb: i16)
    ensures
        -0x4000_0000 <= sa * sb <= 0x4000_0000,
{
    assert(-0x4000_0000 <= sa * sb <= 0x4000_0000) by (nonlinear_arith)
        requires
            -32768 <= sa <= 32767,
            -32768 <= sb <= 32767,
    ;
}

/// Bound on a product of two bounded factors.
proof fn lemma_mul_abs_bound(x: int, y: int, bx: int, by: int)
    requires
        -bx <= x <= bx,
        -by <= y <= by,
    ensures
        -(bx * by) <= x * y <= bx * by,
{
    assert(-(bx * by) <= x * y <= bx * by) by (nonlinear_arith)
        requires
            -bx <= x <= bx,
            -by <= y <= by,
    ;
}

/// Whether a 64-bit value fits in 32 bits.
fn fits_i32(x: i64) -> (ok: bool)
    ensures
        ok == in_i32(x as int),
{
    i32::MIN as i64 <= x && x <= i32::MAX as i64
}

/// Whether the weighted sum `sa * (1024 - alpha) + sb * alpha` stays within 32 bits at
/// every step of its evaluation.
fn mix_is_defined(sa: i16, sb: i32, alpha_fixed: i32) -> (ok: bool)
    requires
        -0x20_0000 <= sb <= 0x20_0000,
    ensures
        ok == (in_i32(full_scale() - alpha_fixed) && in_i32(sa * (full_scale() - alpha_fixed))
            && in_i32(sb * alpha_fixed) && in_i32(
            sa * (full_scale() - alpha_fixed) + sb * alpha_fixed,
        )),
{
    let a = sa as i64;
    let b = sb as i64;
    let af = alpha_fixed as i64;
    let w: i64 = 1024 - af;
    proof {
        lemma_mul_abs_bound(a as int, w as int, 0x8000, 0x8000_0400);
        lemma_mul_abs_bound(b as int, af as int, 0x20_0000, 0x8000_0000);
    }
    let dry: i64 = a * w;
    let wet: i64 = b * af;
    fits_i32(w) && fits_i32(dry) && fits_i32(wet) && fits_i32(dry + wet)
}

/// Whether combining two samples by `method` stays within 32-bit arithmetic.
fn combine_is_defined(method: CombineMethod, sample_a: i16, sample_b: i16, alpha_fixed: i32) -> (ok:
    bool)
    ensures
        ok == combine_defined(method, sample_a as int, sample_b as int, alpha_fixed as int),
{
    match method {
        CombineMethod::Fade => mix_is_defined(sample_a, sample_b as i32, alpha_fixed),
        CombineMethod::Phase => {
            let sb = sample_b as i64;
            let af = alpha_fixed as i64;
            proof {
                lemma_mul_abs_bound(sb as int * 12, af as int, 0x6_0000, 0x8000_0000);
            }
            fits_i32(sb * 12 * af)
        },
        CombineMethod::Mult => {
            proof {
                lemma_ring_product_fits(sample_a, sample_b);
            }
            let modulated: i32 = shr9(sample_a as i32 * sample_b as i32);
            mix_is_defined(sample_a, modulated, alpha_fixed)
        },
    }
}

/// Whether `octane_synthesize` can run on these arguments without leaving 32-bit
/// arithmetic or reading outside a wavetable; the states are left unchanged.
pub fn can_synthesize(
    osc_a_state: &OctaneOscillatorState,
    osc_b_state: &OctaneOscillatorState,
    osc_a_lut: &[i16],
    osc_b_lut: &[i16],
    method: CombineMethod,
    alpha_fixed: i32,
    sync: bool,
) -> (ok: bool)
    ensures
        ok == synthesize_defined(
            *osc_a_state,
            *osc_b_state,
            osc_a_lut@,
            osc_b_lut@,
            method,
            alpha_fixed as int,
            sync,
        ),
{
    let phase_b = osc_b_state.phase.wrapping_add(osc_b_state.phase_delta);
    let phase_a = if sync && osc_b_state.phase > phase_b {
        0
    } else {
        osc_a_state.phase.wrapping_add(osc_a_state.phase_delta)
    };
    let index_a = OctaneOscillatorState { phase: phase_a, phase_delta: 0 }.get_lut_index();
    let index_b = OctaneOscillatorState { phase: phase_b, phase_delta: 0 }.get_lut_index();
    if index_a >= osc_a_lut.len() || index_b >= osc_b_lut.len() {
        return false;
    }
    combine_is_defined(method, osc_a_lut[index_a], osc_b_lut[index_b], alpha_fixed)
}

/// Combine two oscillator samples by `method`; `alpha_fixed` is the mix ratio times 1024.
fn combine(
    method: CombineMethod,
    osc_a_lut: &[i16],
    index_a: usize,
    sample_a: i16,
    sample_b: i16,
    alpha_fixed: i32,
) -> (r: i16)
    requires
        index_a < 1024,
        combine_defined(method, sample_a as int, sample_b as int, alpha_fixed as int),
    ensures
        r == combined_value(
            method,
            osc_a_lut@,
            index_a as int,
            sample_a as int,
            sample_b as int,
            alpha_fixed as int,
        ),
{
    match method {
        CombineMethod::Fade => {
            let scale: i32 = 1024;
            let mix = sample_a as i32 * (scale - alpha_fixed) + sample_b as i32 * alpha_fixed;
            wrap_to_i16(shr10(mix))
        },
        CombineMethod::Phase => {
            let offset: i32 = sample_b as i32 * 12;
            let offset: i32 = shr10(offset * alpha_fixed);
            let offset: i32 = offset / 32;
            let final_index = low10(index_a as i32 + offset) as usize;
            if final_index < osc_a_lut.len() {
                osc_a_lut[final_index]
            } else {
                0
            }
        },
        CombineMethod::Mult => {
            proof {
                lemma_ring_product_fits(sample_a, sample_b);
            }
            let modulated: i32 = shr9(sample_a as i32 * sample_b as i32);
            let mix = sample_a as i32 * (1024 - alpha_fixed) + modulated * alpha_fixed;
            wrap_to_i16(shr10(mix))
        },
    }
}

/// Amplify a combined sample by 64 and saturate it to the 16-bit range.
fn amplify(result: i16) -> (out: i16)
    ensures
        out == amplified(result as int),
{
    let v: i32 = result as i32 * 64;
    if v < -32768 {
        -32768
    } else if v > 32767 {
        32767
    } else {
        v as i16
    }
}

/// Main synthesis step: advance both oscillators, reset A to phase zero when sync is on
/// and B's phase wrapped, read both wavetables at the top ten bits of the phases, combine
/// the samples by `method` with mix ratio `alpha_fixed / 1024`, and amplify by 64 with
/// saturation.
pub fn octane_synthesize(
    osc_a_state: &mut OctaneOscillatorState,
    osc_b_state: &mut OctaneOscillatorState,
    osc_a_lut: &[i16],
    osc_b_lut: &[i16],
    method: CombineMethod,
    alpha_fixed: i32,
    sync: bool,
) -> (out: i16)
    requires
        synthesize_defined(
            *old(osc_a_state),
            *old(osc_b_state),
            osc_a_lut@,
            osc_b_lut@,
            method,
            alpha_fixed as int,
            sync,
        ),
    ensures
        *final(osc_b_state) == old(osc_b_state).stepped(),
        *final(osc_a_state) == next_state_a(*old(osc_a_state), *old(osc_b_state), sync),
        out == output_sample(
            final(osc_a_state).phase,
            final(osc_b_state).phase,
            osc_a_lut@,
            osc_b_lut@,
            method,
            alpha_fixed as int,
        ),
{
    // Save previous phase for sync
    let prev_phase_b = osc_b_state.phase;

    osc_a_state.advance_phase();
    osc_b_state.advance_phase();

    if sync && (prev_phase_b > osc_b_state.phase) {
        osc_a_state.phase = 0;
    }

    let index_a = osc_a_state.get_lut_index();
    let index_b = osc_b_state.get_lut_index();

    let sample_a = osc_a_lut[index_a];
    let sample_b = osc_b_lut[index_b];

    let result = combine(method, osc_a_lut, index_a, sample_a, sample_b, alpha_fixed);
    amplify(result)
}


/// Parameters of a one-sample rendering from fresh oscillators, in fixed point.
pub struct FixedProcessParams {
    /// Phase increment of oscillator A.
    pub osc_a_phase_delta: u32,
    /// Phase increment of oscillator B.
    pub osc_b_phase_delta: u32,
    /// Combine method.
    pub method: CombineMethod,
    /// Mix ratio times 1024.
    pub alpha_fixed: i32,
    /// Sync oscillator A to B.
    pub sync: bool,
}

/// Render one sample from two oscillators that start at phase zero with the given
/// increments: both tables are read at the increments' top ten bits (sync cannot fire
/// on the first step).
pub fn octane_process_fixed(osc_a_lut: &[i16], osc_b_lut: &[i16], params: &FixedProcessParams) -> (out:
    i16)
    requires
        sample_defined(
            params.osc_a_phase_delta,
            params.osc_b_phase_delta,
            osc_a_lut@,
            osc_b_lut@,
            params.method,
            params.alpha_fixed as int,
        ),
    ensures
        out == output_sample(
            params.osc_a_phase_delta,
            params.osc_b_phase_delta,
            osc_a_lut@,
            osc_b_lut@,
            params.method,
            params.alpha_fixed as int,
        ),
{
    let mut osc_a = OctaneOscillatorState::new();
    let mut osc_b = OctaneOscillatorState::new();
    osc_a.phase_delta = params.osc_a_phase_delta;
    osc_b.phase_delta = params.osc_b_phase_delta;
    octane_synthesize(
        &mut osc_a,
        &mut osc_b,
        osc_a_lut,
        osc_b_lut,
        params.method,
        params.alpha_fixed,
        params.sync,
    )
}


/// Law: sync fires exactly when it is on and oscillator B's phase wraps past 2^32.
pub proof fn lemma_sync_fires_iff_wrap(b: OctaneOscillatorState, sync: bool)
    ensures
        sync_fires(b, sync) <==> (sync && b.phase + b.phase_delta >= phase_modulus()),
{
}

/// Law: with mix ratio zero every method passes oscillator A's sample through.
pub proof fn lemma_zero_alpha_passes_a(
    method: CombineMethod,
    lut_a: Seq<i16>,
    index_a: int,
    sample_b: i16,
)
    requires
        0 <= index_a < 1024,
        index_a < lut_a.len(),
    ensures
        combined_value(method, lut_a, index_a, lut_a[index_a] as int, sample_b as int, 0)
            == lut_a[index_a] as int,
{
    let sa = lut_a[index_a] as int;
    match method {
        CombineMethod::Fade => {
            assert(fade_mix(sa, sample_b as int, 0) == sa * 1024);
        },
        CombineMethod::Phase => {
            assert(phase_offset(sample_b as int, 0) == 0);
        },
        CombineMethod::Mult => {
            assert(mult_mix(sa, sample_b as int, 0) == sa * 1024);
        },
    }
}

/// Law: a cross-fade at full mix ratio gives oscillator B's sample.
pub proof fn lemma_fade_full_alpha(lut_a: Seq<i16>, index_a: int, sample_a: i16, sample_b: i16)
    ensures
        combined_value(
            CombineMethod::Fade,
            lut_a,
            index_a,
            sample_a as int,
            sample_b as int,
            full_scale(),
        ) == sample_b as int,
{
    assert(sample_a as int * (1024 - 1024) == 0) by (nonlinear_arith);
    assert(fade_mix(sample_a as int, sample_b as int, 1024) == sample_b * 1024);
}

/// Law: for a mix ratio in `[0, 1]` the cross-fade lies between the two samples.
pub proof fn lemma_fade_between(
    lut_a: Seq<i16>,
    index_a: int,
    sample_a: i16,
    sample_b: i16,
    af: int,
)
    requires
        0 <= af <= full_scale(),
    ensures
        ({
            let v = combined_value(
                CombineMethod::Fade,
                lut_a,
                index_a,
                sample_a as int,
                sample_b as int,
                af,
            );
            &&& sample_a <= sample_b ==> sample_a <= v <= sample_b
            &&& sample_b <= sample_a ==> sample_b <= v <= sample_a
        }),
{
    let sa = sample_a as int;
    let sb = sample_b as int;
    let mix = fade_mix(sa, sb, af);
    let lo = if sa <= sb { sa } else { sb };
    let hi = if sa <= sb { sb } else { sa };
    assert(1024 * lo <= mix <= 1024 * hi) by (nonlinear_arith)
        requires
            mix == sa * (1024 - af) + sb * af,
            0 <= af <= 1024,
            lo <= sa <= hi,
            lo <= sb <= hi,
    ;
    assert(lo <= mix / 1024 <= hi);
    crate::fixed_point::lemma_wrap_i16_in_range(mix / 1024);
}

/// Law: for a mix ratio in `[0, 1]` every combination stays within 32-bit arithmetic,
/// except ring modulation at full mix ratio of two samples both at -32768, whose product
/// term reaches 2^31.
pub proof fn lemma_unit_alpha_defined(method: CombineMethod, sample_a: i16, sample_b: i16, af: int)
    requires
        0 <= af <= full_scale(),
        !(method == CombineMethod::Mult && af == full_scale() && sample_a == -32768 && sample_b
            == -32768),
    ensures
        combine_defined(method, sample_a as int, sample_b as int, af),
{
    let sa = sample_a as int;
    let sb = sample_b as int;
    assert(-0x200_0000 <= sa * (1024 - af) <= 0x200_0000) by (nonlinear_arith)
        requires
            -32768 <= sa <= 32767,
            0 <= af <= 1024,
    ;
    assert(-0x200_0000 <= sb * af <= 0x200_0000) by (nonlinear_arith)
        requires
            -32768 <= sb <= 32767,
            0 <= af <= 1024,
    ;
    assert(-0x1800_0000 <= sb * 12 * af <= 0x1800_0000) by (nonlinear_arith)
        requires
            -32768 <= sb <= 32767,
            0 <= af <= 1024,
    ;
    if method == CombineMethod::Mult {
        lemma_ring_product_fits(sample_a, sample_b);
        let m = ring_product(sa, sb);
        assert(-0x20_0000 <= m <= 0x20_0000);
        assert(m < 0x20_0000 || (sa * sb == 0x4000_0000)) by (nonlinear_arith)
            requires
                m == (sa * sb) / 512,
                -0x4000_0000 <= sa * sb <= 0x4000_0000,
        ;
        if sa * sb == 0x4000_0000 {
            assert(sa == -32768 && sb == -32768) by (nonlinear_arith)
                requires
                    sa * sb == 0x4000_0000,
                    -32768 <= sa <= 32767,
                    -32768 <= sb <= 32767,
            ;
        }
        if af < 1024 {
            assert(-0x8000 * (1024 - af) <= sa * (1024 - af) <= 0x8000 * (1024 - af))
                by (nonlinear_arith)
                requires
                    -32768 <= sa <= 32767,
                    0 <= af < 1024,
            ;
            assert(-0x20_0000 * af <= m * af <= 0x20_0000 * af) by (nonlinear_arith)
                requires
                    -0x20_0000 <= m <= 0x20_0000,
                    0 <= af < 1024,
            ;
        } else {
            assert(m < 0x20_0000);
        }
    }
}

/// Law: with wavetables of at least 1024 entries both reads are always in bounds, so
/// one synthesis step is defined for every mix ratio in `[0, 1]` (with the single
/// exception of `lemma_unit_alpha_defined`).
pub proof fn lemma_full_tables_defined(
    a: OctaneOscillatorState,
    b: OctaneOscillatorState,
    lut_a: Seq<i16>,
    lut_b: Seq<i16>,
    method: CombineMethod,
    af: int,
    sync: bool,
)
    requires
        lut_a.len() >= 1024,
        lut_b.len() >= 1024,
        0 <= af <= full_scale(),
        ({
            let sa = lut_a[lut_index_of(next_state_a(a, b, sync).phase)];
            let sb = lut_b[lut_index_of(b.stepped().phase)];
            !(method == CombineMethod::Mult && af == full_scale() && sa == -32768 && sb
                == -32768)
        }),
    ensures
        synthesize_defined(a, b, lut_a, lut_b, method, af, sync),
{
    let ia = lut_index_of(next_state_a(a, b, sync).phase);
    let ib = lut_index_of(b.stepped().phase);
    lemma_unit_alpha_defined(method, lut_a[ia], lut_b[ib], af);
}

/// Law of the output stage: a combined value in `[-512, 511]` comes out multiplied by 64;
/// above that the output saturates at 32767, below it at -32768.
pub proof fn lemma_output_amplifies(
    phase_a: u32,
    phase_b: u32,
    lut_a: Seq<i16>,
    lut_b: Seq<i16>,
    method: CombineMethod,
    af: int,
)
    ensures
        ({
            let ia = lut_index_of(phase_a);
            let ib = lut_index_of(phase_b);
            let v = combined_value(method, lut_a, ia, lut_a[ia] as int, lut_b[ib] as int, af);
            let out = output_sample(phase_a, phase_b, lut_a, lut_b, method, af);
            &&& -512 <= v <= 511 ==> out == 64 * v
            &&& v > 511 ==> out == 32767
            &&& v < -512 ==> out == -32768
        }),
{
}

/// Law of ring modulation: the combined value is the dry sample weighted by
/// `1024 - alpha` plus the full 32-bit product of the two samples, divided by 512 rounding
/// down, weighted by `alpha`; the sum is divided by 1024 rounding down and kept to 16 bits.
pub proof fn lemma_mult_value(lut_a: Seq<i16>, index_a: int, sa: i16, sb: i16, af: int)
    ensures
        combined_value(CombineMethod::Mult, lut_a, index_a, sa as int, sb as int, af)
            == wrap_i16((sa * (1024 - af) + ((sa * sb) / 512) * af) / 1024),
{
}

/// Law: fully wet ring modulation yields the 32-bit product of the two samples divided by
/// 512 rounding down, whenever that fits in 16 bits.
pub proof fn lemma_mult_full_wet(lut_a: Seq<i16>, index_a: int, sa: i16, sb: i16)
    requires
        -32768 <= (sa * sb) / 512 <= 32767,
    ensures
        combined_value(CombineMethod::Mult, lut_a, index_a, sa as int, sb as int, 1024) == (sa
            * sb) / 512,
{
    let m = (sa * sb) / 512;
    assert(sa * (1024 - 1024) == 0) by (nonlinear_arith);
    assert(sa * (1024 - 1024) + m * 1024 == m * 1024);
    assert((m * 1024) / 1024 == m);
    crate::fixed_point::lemma_wrap_i16_in_range(m);
}

/// Law: fully wet ring modulation of two samples of the same sign is never negative, and
/// of opposite signs never positive (when the scaled product fits in 16 bits).
pub proof fn lemma_mult_full_wet_sign(lut_a: Seq<i16>, index_a: int, sa: i16, sb: i16)
    requires
        -32768 <= (sa * sb) / 512 <= 32767,
    ensures
        (sa >= 0 && sb >= 0) || (sa <= 0 && sb <= 0) ==> combined_value(
            CombineMethod::Mult,
            lut_a,
            index_a,
            sa as int,
            sb as int,
            1024,
        ) >= 0,
        (sa >= 0 && sb <= 0) || (sa <= 0 && sb >= 0) ==> combined_value(
            CombineMethod::Mult,
            lut_a,
            index_a,
            sa as int,
            sb as int,
            1024,
        ) <= 0,
{
    lemma_mult_full_wet(lut_a, index_a, sa, sb);
    assert((sa >= 0 && sb >= 0) || (sa <= 0 && sb <= 0) ==> sa * sb >= 0) by (nonlinear_arith);
    assert((sa >= 0 && sb <= 0) || (sa <= 0 && sb >= 0) ==> sa * sb <= 0) by (nonlinear_arith);
}

/// Law of the cross-fade: the combined value is `sa * (1024 - alpha) + sb * alpha`
/// divided by 1024 rounding down and kept to 16 bits.
pub proof fn lemma_fade_value(lut_a: Seq<i16>, index_a: int, sa: i16, sb: i16, af: int)
    ensures
        combined_value(CombineMethod::Fade, lut_a, index_a, sa as int, sb as int, af)
            == wrap_i16((sa * (1024 - af) + sb * af) / 1024),
{
}

/// Law of phase distortion: oscillator A's table is read at its index moved by
/// `sb * 12 * alpha / 1024` (rounded down) divided by 32 (rounded toward zero), modulo
/// 1024; a read past the table's end gives 0.
pub proof fn lemma_phase_value(lut_a: Seq<i16>, index_a: int, sa: i16, sb: i16, af: int)
    ensures
        ({
            let shift = (sb * 12 * af) / 1024;
            let moved = if shift >= 0 {
                shift / 32
            } else {
                -((-shift) / 32)
            };
            let j = (index_a + moved) % 1024;
            combined_value(CombineMethod::Phase, lut_a, index_a, sa as int, sb as int, af) == if j
                < lut_a.len() {
                lut_a[j] as int
            } else {
                0
            }
        }),
{
}

/// Law: phase distortion never invents a value: it yields an entry of oscillator A's
/// table, or 0 past the table's end; with a silent oscillator B it reads A's own index.
pub proof fn lemma_phase_reads_table(lut_a: Seq<i16>, index_a: int, sa: i16, sb: i16, af: int)
    requires
        0 <= index_a < 1024,
    ensures
        ({
            let v = combined_value(CombineMethod::Phase, lut_a, index_a, sa as int, sb as int, af);
            v == 0 || exists|j: int| 0 <= j < lut_a.len() && j < 1024 && v == lut_a[j]
        }),
        sb == 0 && index_a < lut_a.len() ==> combined_value(
            CombineMethod::Phase,
            lut_a,
            index_a,
            sa as int,
            sb as int,
            af,
        ) == lut_a[index_a],
{
    let j = distorted_index(index_a, sb as int, af);
    if j < lut_a.len() {
        assert(0 <= j < 1024);
        assert(lut_a[j] == lut_a[j]);
    }
    if sb == 0 {
        assert(sb * 12 * af == 0) by (nonlinear_arith)
            requires
                sb == 0,
        ;
    }
}

/// Law of one step of oscillator A: its increment stays; its phase becomes 0 when sync is
/// on and B's phase passes 2^32, and otherwise advances by the increment modulo 2^32.
pub proof fn lemma_next_state_a(a: OctaneOscillatorState, b: OctaneOscillatorState, sync: bool)
    ensures
        next_state_a(a, b, sync).phase_delta == a.phase_delta,
        next_state_a(a, b, sync).phase == if sync && b.phase + b.phase_delta >= 0x1_0000_0000 {
            0
        } else {
            (a.phase + a.phase_delta) % 0x1_0000_0000
        },
        b.stepped().phase == (b.phase + b.phase_delta) % 0x1_0000_0000,
        b.stepped().phase_delta == b.phase_delta,
{
}

/// Law: a synthesis step is defined exactly when both wavetable reads are in bounds and
/// every 32-bit intermediate of the chosen combination fits in an `i32`.
pub proof fn lemma_sample_defined_iff(
    phase_a: u32,
    phase_b: u32,
    lut_a: Seq<i16>,
    lut_b: Seq<i16>,
    method: CombineMethod,
    af: int,
)
    ensures
        sample_defined(phase_a, phase_b, lut_a, lut_b, method, af) <==> ({
            let ia = phase_a as int / 0x40_0000;
            let ib = phase_b as int / 0x40_0000;
            &&& ia < lut_a.len()
            &&& ib < lut_b.len()
            &&& {
                let sa = lut_a[ia] as int;
                let sb = lut_b[ib] as int;
                let fits = |x: int| -0x8000_0000 <= x <= 0x7FFF_FFFF;
                match method {
                    CombineMethod::Fade => fits(1024 - af) && fits(sa * (1024 - af)) && fits(
                        sb * af,
                    ) && fits(sa * (1024 - af) + sb * af),
                    CombineMethod::Phase => fits(sb * 12 * af),
                    CombineMethod::Mult => fits(1024 - af) && fits(sa * (1024 - af)) && fits(
                        ((sa * sb) / 512) * af,
                    ) && fits(sa * (1024 - af) + ((sa * sb) / 512) * af),
                }
            }
        }),
{
}

} // verus!
