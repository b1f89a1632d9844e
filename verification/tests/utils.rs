use octane::utils::{
    encode_wav, generate_saw_wave, generate_square_wave, generate_triangle_wave,
};

#[test]
fn saw_ramps_from_minus_amplitude() {
    assert_eq!(generate_saw_wave(4, 512), vec![-512, -256, 0, 256]);
    assert_eq!(generate_saw_wave(0, 512), Vec::<i16>::new());
}

#[test]
fn saw_divides_toward_zero() {
    // 200 / 3 = 66 and 400 / 3 = 133
    assert_eq!(generate_saw_wave(3, 100), vec![-100, -34, 33]);
    // -200 / 3 = -66 and -400 / 3 = -133 (toward zero)
    assert_eq!(generate_saw_wave(3, -100), vec![100, 34, -33]);
}

#[test]
fn saw_wraps_at_the_sixteen_bit_edge() {
    // i = 0: 0 + 32768 wraps to -32768; i = 1: -65536 / 2 + 32768 = 0
    assert_eq!(generate_saw_wave(2, i16::MIN), vec![-32768, 0]);
}

#[test]
fn saw_of_full_table_rises() {
    let w = generate_saw_wave(1024, 512);
    assert_eq!(w.len(), 1024);
    assert_eq!(w[0], -512);
    assert_eq!(w[1023], 511);
    assert!(w.windows(2).all(|p| p[0] <= p[1]));
}

#[test]
fn triangle_rises_then_falls() {
    assert_eq!(generate_triangle_wave(4, 512), vec![-512, 0, 512, 0]);
    assert_eq!(generate_triangle_wave(0, 512), Vec::<i16>::new());
}

#[test]
fn triangle_odd_size_and_wrap() {
    // size 5, half 2: 0 -> -100; 1 -> 400/5 - 100 = -20; 2 -> 4*3*100/5 - 100 = 140;
    // 3 -> 800/5 - 100 = 60; 4 -> 400/5 - 100 = -20
    assert_eq!(generate_triangle_wave(5, 100), vec![-100, -20, 140, 60, -20]);
    // size 1: 4 * 1 * 32767 - 32767 = 98301 wraps to 32765
    assert_eq!(generate_triangle_wave(1, 32767), vec![32765]);
}

#[test]
fn triangle_is_symmetric() {
    let w = generate_triangle_wave(1024, 512);
    for j in 1..512 {
        assert_eq!(w[1024 - j], w[j]);
    }
}

#[test]
fn square_halves() {
    assert_eq!(generate_square_wave(4, 100), vec![100, 100, -100, -100]);
    assert_eq!(generate_square_wave(3, 100), vec![100, -100, -100]);
    assert_eq!(generate_square_wave(1, i16::MAX), vec![-i16::MAX]);
    assert_eq!(generate_square_wave(0, i16::MIN), Vec::<i16>::new());
}

#[test]
fn wav_header_and_samples() {
    let bytes = encode_wav(&[1, -1, 0x1234], 8000);
    assert_eq!(bytes.len(), 44 + 6);
    assert_eq!(&bytes[0..4], b"RIFF");
    assert_eq!(&bytes[4..8], &(6u32 + 36).to_le_bytes());
    assert_eq!(&bytes[8..12], b"WAVE");
    assert_eq!(&bytes[12..16], b"fmt ");
    assert_eq!(&bytes[16..20], &[16, 0, 0, 0]);
    assert_eq!(&bytes[20..22], &[1, 0]);
    assert_eq!(&bytes[22..24], &[1, 0]);
    assert_eq!(&bytes[24..28], &8000u32.to_le_bytes());
    assert_eq!(&bytes[28..32], &16000u32.to_le_bytes());
    assert_eq!(&bytes[32..34], &[2, 0]);
    assert_eq!(&bytes[34..36], &[16, 0]);
    assert_eq!(&bytes[36..40], b"data");
    assert_eq!(&bytes[40..44], &6u32.to_le_bytes());
    assert_eq!(&bytes[44..], &[1, 0, 0xFF, 0xFF, 0x34, 0x12]);
}

#[test]
fn wav_samples_decode_back() {
    let samples: Vec<i16> = vec![0, 1, -1, i16::MAX, i16::MIN, 12345, -12345];
    let bytes = encode_wav(&samples, 44100);
    let decoded: Vec<i16> = bytes[44..]
        .chunks(2)
        .map(|c| i16::from_le_bytes([c[0], c[1]]))
        .collect();
    assert_eq!(decoded, samples);
}

#[test]
fn wav_of_no_samples_is_a_bare_header() {
    let bytes = encode_wav(&[], 48000);
    assert_eq!(bytes.len(), 44);
    assert_eq!(&bytes[40..44], &[0, 0, 0, 0]);
    assert_eq!(&bytes[4..8], &36u32.to_le_bytes());
}
