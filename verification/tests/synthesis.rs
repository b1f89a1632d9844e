use octane::{
    can_synthesize, octane_process_fixed, octane_synthesize, CombineMethod, FixedProcessParams,
    OctaneOscillatorState,
};

/// The fixed-point phase increment of a frequency at a sample rate, as an application
/// computes it from floating-point values.
fn phase_delta_for(frequency: f32, sample_rate: u32) -> u32 {
    ((frequency * (1u64 << 32) as f32) / sample_rate as f32) as u32
}

/// The fixed-point mix ratio of a floating-point alpha.
fn alpha_fixed_for(alpha: f32) -> i32 {
    (alpha * 1024.0) as i32
}

#[test]
fn test_oscillator_phase_increment() {
    let mut osc = OctaneOscillatorState::new();
    osc.phase_delta = phase_delta_for(440.0, 44100);

    let initial_phase = osc.phase;
    osc.advance_phase();

    assert_ne!(initial_phase, osc.phase);
    assert_eq!(osc.phase, osc.phase_delta);
}

#[test]
fn test_fade_combine_method() {
    let mut osc_a = OctaneOscillatorState::new();
    let mut osc_b = OctaneOscillatorState::new();

    // Simple test waveforms
    let wave_a = vec![512i16; 1024]; // Constant value
    let wave_b = vec![-512i16; 1024]; // Constant value

    // With alpha = 0.5, should get average of the two values
    let result = octane_synthesize(
        &mut osc_a,
        &mut osc_b,
        &wave_a,
        &wave_b,
        CombineMethod::Fade,
        alpha_fixed_for(0.5),
        false,
    );

    // Should be close to zero (might not be exactly due to fixed-point math)
    assert!(result.abs() < 10);
}

#[test]
fn default_state_is_at_rest() {
    let s = OctaneOscillatorState::default();
    assert_eq!(s.phase, 0);
    assert_eq!(s.phase_delta, 0);
}

#[test]
fn advance_phase_wraps_modulo_two_to_the_32() {
    let mut s = OctaneOscillatorState { phase: u32::MAX, phase_delta: 2 };
    s.advance_phase();
    assert_eq!(s.phase, 1);
    assert_eq!(s.phase_delta, 2);
}

#[test]
fn advance_accumulates_increments() {
    let mut s = OctaneOscillatorState { phase: 10, phase_delta: 0x8000_0000 };
    s.advance_phase();
    s.advance_phase();
    s.advance_phase();
    // 10 + 3 * 2^31 modulo 2^32
    assert_eq!(s.phase, 10 + 0x8000_0000);
}

#[test]
fn lut_index_is_top_ten_bits() {
    assert_eq!(OctaneOscillatorState { phase: 0, phase_delta: 0 }.get_lut_index(), 0);
    assert_eq!(OctaneOscillatorState { phase: 0x3F_FFFF, phase_delta: 0 }.get_lut_index(), 0);
    assert_eq!(OctaneOscillatorState { phase: 0x40_0000, phase_delta: 0 }.get_lut_index(), 1);
    assert_eq!(OctaneOscillatorState { phase: u32::MAX, phase_delta: 0 }.get_lut_index(), 1023);
}

fn ramp_table() -> Vec<i16> {
    (0..1024).map(|i| i as i16).collect()
}

#[test]
fn sync_resets_a_when_b_wraps() {
    let lut = ramp_table();
    let mut a = OctaneOscillatorState { phase: 0x1000_0000, phase_delta: 0x0100_0000 };
    let mut b = OctaneOscillatorState { phase: 0xF000_0000, phase_delta: 0x2000_0000 };
    let out = octane_synthesize(&mut a, &mut b, &lut, &lut, CombineMethod::Fade, 0, true);
    assert_eq!(b.phase, 0x1000_0000);
    assert_eq!(a.phase, 0);
    assert_eq!(a.phase_delta, 0x0100_0000);
    // A reads index 0 (value 0), alpha 0 keeps A only.
    assert_eq!(out, 0);
}

#[test]
fn no_reset_without_sync_or_without_wrap() {
    let lut = ramp_table();
    let mut a = OctaneOscillatorState { phase: 0x1000_0000, phase_delta: 0x0100_0000 };
    let mut b = OctaneOscillatorState { phase: 0xF000_0000, phase_delta: 0x2000_0000 };
    octane_synthesize(&mut a, &mut b, &lut, &lut, CombineMethod::Fade, 0, false);
    assert_eq!(a.phase, 0x1100_0000);

    let mut a = OctaneOscillatorState { phase: 0x1000_0000, phase_delta: 0x0100_0000 };
    let mut b = OctaneOscillatorState { phase: 0x1000_0000, phase_delta: 0x2000_0000 };
    octane_synthesize(&mut a, &mut b, &lut, &lut, CombineMethod::Fade, 0, true);
    assert_eq!(a.phase, 0x1100_0000);
    assert_eq!(b.phase, 0x3000_0000);
}

#[test]
fn fade_amplifies_and_saturates() {
    let wave_a = vec![100i16; 1024];
    let wave_b = vec![-300i16; 1024];
    let mut a = OctaneOscillatorState::new();
    let mut b = OctaneOscillatorState::new();
    // alpha 0: A only, times 64
    assert_eq!(octane_synthesize(&mut a, &mut b, &wave_a, &wave_b, CombineMethod::Fade, 0, false), 6400);
    // alpha 1: B only, times 64
    assert_eq!(octane_synthesize(&mut a, &mut b, &wave_a, &wave_b, CombineMethod::Fade, 1024, false), -19200);
    // alpha 0.25: (100 * 768 - 300 * 256) / 1024 = 0
    assert_eq!(octane_synthesize(&mut a, &mut b, &wave_a, &wave_b, CombineMethod::Fade, 256, false), 0);
    // saturation
    let loud = vec![512i16; 1024];
    assert_eq!(octane_synthesize(&mut a, &mut b, &loud, &wave_b, CombineMethod::Fade, 0, false), 32767);
    let quiet = vec![-513i16; 1024];
    assert_eq!(octane_synthesize(&mut a, &mut b, &quiet, &wave_b, CombineMethod::Fade, 0, false), -32768);
}

#[test]
fn fade_rounds_toward_negative_infinity() {
    let wave_a = vec![-1i16; 1024];
    let wave_b = vec![0i16; 1024];
    let mut a = OctaneOscillatorState::new();
    let mut b = OctaneOscillatorState::new();
    // (-1 * 512 + 0) >> 10 = -1
    assert_eq!(octane_synthesize(&mut a, &mut b, &wave_a, &wave_b, CombineMethod::Fade, 512, false), -64);
}

#[test]
fn fade_outside_unit_range_wraps_to_sixteen_bits() {
    let wave_a = vec![32767i16; 1024];
    let wave_b = vec![-32768i16; 1024];
    let mut a = OctaneOscillatorState::new();
    let mut b = OctaneOscillatorState::new();
    // (32767 * -1024 - 32768 * 2048) >> 10 = -98303, which wraps to -32767, times 64 saturates
    assert_eq!(octane_synthesize(&mut a, &mut b, &wave_a, &wave_b, CombineMethod::Fade, 2048, false), -32768);
    // (32767 * -1056 - 32768 * 2080) >> 10 = -100351, which wraps to 30721, times 64 saturates
    let v = octane_synthesize(&mut a, &mut b, &wave_a, &wave_b, CombineMethod::Fade, 2080, false);
    assert_eq!(v, 32767);
    let zero = vec![0i16; 1024];
    let min = vec![-32768i16; 1024];
    // (0 - 32768 * 2045) >> 10 = -65440, which wraps to 96
    assert_eq!(octane_synthesize(&mut a, &mut b, &zero, &min, CombineMethod::Fade, 2045, false), 96 * 64);
    let small_a = vec![100i16; 1024];
    let small_b = vec![-100i16; 1024];
    // (100 * -1024 - 100 * 2048) >> 10 = -300, no wrap
    assert_eq!(octane_synthesize(&mut a, &mut b, &small_a, &small_b, CombineMethod::Fade, 2048, false), -19200);
}

#[test]
fn phase_method_reads_a_at_shifted_index() {
    let lut_a = ramp_table();
    let wave_b = vec![1000i16; 1024];
    let mut a = OctaneOscillatorState { phase: 0, phase_delta: 0x40_0000 * 5 };
    let mut b = OctaneOscillatorState::new();
    // offset = ((1000 * 12 * 512) >> 10) / 32 = 6000 / 32 = 187; index = 5 + 187
    let out = octane_synthesize(&mut a, &mut b, &lut_a, &wave_b, CombineMethod::Phase, 512, false);
    assert_eq!(out, 192 * 64);
}

#[test]
fn phase_method_negative_offset_wraps_index() {
    let lut_a = ramp_table();
    let wave_b = vec![-1000i16; 1024];
    let mut a = OctaneOscillatorState::new();
    let mut b = OctaneOscillatorState::new();
    // offset = ((-1000 * 12 * 512) >> 10) / 32 = -6000 / 32 = -187 (toward zero);
    // index = (0 - 187) & 0x3FF = 837
    let out = octane_synthesize(&mut a, &mut b, &lut_a, &wave_b, CombineMethod::Phase, 512, false);
    assert_eq!(out, 32767); // 837 * 64 saturates
    let mut a = OctaneOscillatorState::new();
    let mut b = OctaneOscillatorState::new();
    let small_a: Vec<i16> = (0..1024).map(|i| (i % 7) as i16).collect();
    let out = octane_synthesize(&mut a, &mut b, &small_a, &wave_b, CombineMethod::Phase, 512, false);
    assert_eq!(out, ((837 % 7) * 64) as i16);
}

#[test]
fn phase_method_short_table_gives_zero_past_its_end() {
    // 200 entries: A reads index 0; the distorted index 187 is in range, 837 is not.
    let lut_a: Vec<i16> = (0..200).map(|i| i as i16).collect();
    let wave_b = vec![-1000i16; 1024];
    let mut a = OctaneOscillatorState::new();
    let mut b = OctaneOscillatorState::new();
    let out = octane_synthesize(&mut a, &mut b, &lut_a, &wave_b, CombineMethod::Phase, 512, false);
    assert_eq!(out, 0);
}

#[test]
fn mult_method_ring_modulates() {
    let wave_a = vec![256i16; 1024];
    let wave_b = vec![-100i16; 1024];
    let mut a = OctaneOscillatorState::new();
    let mut b = OctaneOscillatorState::new();
    // modulated = (256 * -100) >> 9 = -50; full wet: (0 + -50 * 1024) >> 10 = -50
    let out = octane_synthesize(&mut a, &mut b, &wave_a, &wave_b, CombineMethod::Mult, 1024, false);
    assert_eq!(out, -50 * 64);
    // half wet: (256 * 512 - 50 * 512) >> 10 = 103
    let out = octane_synthesize(&mut a, &mut b, &wave_a, &wave_b, CombineMethod::Mult, 512, false);
    assert_eq!(out, 103 * 64);
    // dry: A only
    let out = octane_synthesize(&mut a, &mut b, &wave_a, &wave_b, CombineMethod::Mult, 0, false);
    assert_eq!(out, 256 * 64);
}

#[test]
fn mult_rounds_toward_negative_infinity() {
    let wave_a = vec![1i16; 1024];
    let wave_b = vec![-1i16; 1024];
    let mut a = OctaneOscillatorState::new();
    let mut b = OctaneOscillatorState::new();
    // (1 * -1) >> 9 = -1; (0 + -1 * 1024) >> 10 = -1
    let out = octane_synthesize(&mut a, &mut b, &wave_a, &wave_b, CombineMethod::Mult, 1024, false);
    assert_eq!(out, -64);
}

#[test]
fn zero_alpha_passes_a_for_every_method() {
    let lut_a = ramp_table();
    let wave_b = vec![-7000i16; 1024];
    for method in [CombineMethod::Fade, CombineMethod::Phase, CombineMethod::Mult] {
        let mut a = OctaneOscillatorState { phase: 0x40_0000 * 300, phase_delta: 0x40_0000 };
        let mut b = OctaneOscillatorState { phase: 7, phase_delta: 99 };
        let out = octane_synthesize(&mut a, &mut b, &lut_a, &wave_b, method, 0, false);
        assert_eq!(out, 301 * 64);
    }
}

#[test]
fn can_synthesize_reports_out_of_range_reads_and_overflow() {
    let full = vec![1i16; 1024];
    let short = vec![1i16; 4];
    let a = OctaneOscillatorState { phase: 0, phase_delta: 0x40_0000 * 10 };
    let b = OctaneOscillatorState::new();
    assert!(can_synthesize(&a, &b, &full, &full, CombineMethod::Fade, 512, false));
    assert!(!can_synthesize(&a, &b, &short, &full, CombineMethod::Fade, 512, false));
    assert!(can_synthesize(&a, &b, &full, &short, CombineMethod::Fade, 512, false));
    let min = vec![i16::MIN; 1024];
    assert!(!can_synthesize(&a, &b, &min, &min, CombineMethod::Mult, 1024, false));
    assert!(can_synthesize(&a, &b, &min, &min, CombineMethod::Mult, 1023, false));
    assert!(can_synthesize(&a, &b, &min, &min, CombineMethod::Fade, 1024, false));
    assert!(!can_synthesize(&a, &b, &min, &min, CombineMethod::Fade, i32::MIN, false));
    assert!(!can_synthesize(&a, &b, &full, &min, CombineMethod::Phase, i32::MAX, false));
    assert!(can_synthesize(&a, &b, &full, &min, CombineMethod::Phase, 5000, false));
}

#[test]
fn process_reads_tables_at_the_increments() {
    let lut = ramp_table();
    let params = FixedProcessParams {
        osc_a_phase_delta: 0x40_0000 * 3,
        osc_b_phase_delta: 0x40_0000 * 9,
        method: CombineMethod::Fade,
        alpha_fixed: 512,
        sync: true,
    };
    // (3 * 512 + 9 * 512) >> 10 = 6
    assert_eq!(octane_process_fixed(&lut, &lut, &params), 6 * 64);
}

#[test]
fn fade_stays_between_the_samples() {
    let wave_a = vec![-3i16; 1024];
    let wave_b = vec![5i16; 1024];
    for alpha in 0..=1024 {
        let mut a = OctaneOscillatorState::new();
        let mut b = OctaneOscillatorState::new();
        let out = octane_synthesize(&mut a, &mut b, &wave_a, &wave_b, CombineMethod::Fade, alpha, false);
        assert!(-3 * 64 <= out && out <= 5 * 64);
    }
}
