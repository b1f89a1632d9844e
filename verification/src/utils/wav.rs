//! Encoding of 16-bit mono PCM samples as a RIFF/WAVE file.
use vstd::prelude::*;

verus! {

/// The four little-endian bytes of a 32-bit value.
pub open spec fn le_bytes_u32(x: u32) -> Seq<u8> {
    seq![
        (x % 256) as u8,
        ((x / 0x100) % 256) as u8,
        ((x / 0x1_0000) % 256) as u8,
        ((x / 0x100_0000) % 256) as u8,
    ]
}

/// The two's-complement bit pattern of a 16-bit sample, as an unsigned value.
pub open spec fn sample_bits(s: i16) -> int {
    if s < 0 {
        s + 0x1_0000
    } else {
        s as int
    }
}

/// The little-endian PCM encoding of a sequence of samples: two bytes per sample.
pub open spec fn pcm_bytes(samples: Seq<i16>) -> Seq<u8> {
    Seq::new(
        2 * samples.len(),
        |j: int|
            if j % 2 == 0 {
                (sample_bits(samples[j / 2]) % 256) as u8
            } else {
                (sample_bits(samples[j / 2]) / 256) as u8
            },
    )
}

/// The size field of the data chunk: twice the sample count, kept to 32 bits.
pub open spec fn data_chunk_size(num_samples: int) -> u32 {
    ((2 * num_samples) % 0x1_0000_0000) as u32
}

/// The 44-byte header of a mono, 16-bit PCM WAVE file.
pub open spec fn wav_header(num_samples: int, sample_rate: u32) -> Seq<u8> {
    let data_size = data_chunk_size(num_samples);
    // "RIFF", the size of what follows, "WAVE"
    seq![82u8, 73, 70, 70] + le_bytes_u32((data_size + 36) as u32) + seq![87u8, 65, 86, 69]
    // "fmt ", chunk size 16, PCM format, one channel
    + seq![102u8, 109, 116, 32] + seq![16u8, 0, 0, 0] + seq![1u8, 0] + seq![1u8, 0]
    // sample rate, byte rate, block align 2, 16 bits per sample
    + le_bytes_u32(sample_rate) + le_bytes_u32((sample_rate * 2) as u32) + seq![2u8, 0]
        + seq![16u8, 0]
    // "data" and its size
    + seq![100u8, 97, 116, 97] + le_bytes_u32(data_size)
}

/// The unsigned value of four little-endian bytes of `bytes` starting at `at`.
pub open spec fn le_u32_at(bytes: Seq<u8>, at: int) -> int {
    bytes[at] + 0x100 * bytes[at + 1] + 0x1_0000 * bytes[at + 2] + 0x100_0000 * bytes[at + 3]
}

/// The unsigned value of two little-endian bytes of `bytes` starting at `at`.
pub open spec fn le_u16_at(bytes: Seq<u8>, at: int) -> int {
    bytes[at] + 0x100 * bytes[at + 1]
}

/// Whether `bytes` holds the four-byte tag `a b c d` at `at`.
pub open spec fn tag_at(bytes: Seq<u8>, at: int, a: u8, b: u8, c: u8, d: u8) -> bool {
    bytes[at] == a && bytes[at + 1] == b && bytes[at + 2] == c && bytes[at + 3] == d
}

/// What a reader of a mono 16-bit PCM WAVE file finds in `bytes` for `samples` at
/// `sample_rate`: the RIFF, WAVE, fmt and data tags; the RIFF size (data size + 36);
/// a 16-byte PCM fmt chunk of one channel at `sample_rate` with byte rate
/// `2 * sample_rate`, block align 2 and 16 bits per sample; the data size (twice the
/// sample count, kept to 32 bits); and each sample at byte `44 + 2 * k`.
pub open spec fn is_wav_file_of(bytes: Seq<u8>, samples: Seq<i16>, sample_rate: u32) -> bool {
    let data_size = (2 * samples.len()) % 0x1_0000_0000;
    &&& bytes.len() == 44 + 2 * samples.len()
    &&& tag_at(bytes, 0, 82, 73, 70, 70)
    &&& le_u32_at(bytes, 4) == data_size + 36
    &&& tag_at(bytes, 8, 87, 65, 86, 69)
    &&& tag_at(bytes, 12, 102, 109, 116, 32)
    &&& le_u32_at(bytes, 16) == 16
    &&& le_u16_at(bytes, 20) == 1
    &&& le_u16_at(bytes, 22) == 1
    &&& le_u32_at(bytes, 24) == sample_rate
    &&& le_u32_at(bytes, 28) == 2 * sample_rate
    &&& le_u16_at(bytes, 32) == 2
    &&& le_u16_at(bytes, 34) == 16
    &&& tag_at(bytes, 36, 100, 97, 116, 97)
    &&& le_u32_at(bytes, 40) == data_size
    &&& forall|k: int|
        0 <= k < samples.len() ==> #[trigger] decode_sample(bytes[44 + 2 * k], bytes[45 + 2 * k])
            == samples[k]
}

/// Whether a WAVE file of these samples can be encoded: the byte count fits in the
/// machine word, and the file size and byte rate fit in their 32-bit fields.
pub open spec fn wav_encodable(num_samples: int, sample_rate: u32) -> bool {
    &&& 2 * num_samples <= usize::MAX
    &&& data_chunk_size(num_samples) + 36 <= u32::MAX
    &&& sample_rate * 2 <= u32::MAX
}

/// Append the little-endian bytes of a 32-bit value.
fn push_u32_le(out: &mut Vec<u8>, x: u32)
    ensures
        final(out)@ == old(out)@ + le_bytes_u32(x),
{
    out.push((x % 256) as u8);
    out.push(((x / 0x100) % 256) as u8);
    out.push(((x / 0x1_0000) % 256) as u8);
    out.push(((x / 0x100_0000) % 256) as u8);
}

/// Append a four-byte tag.
fn push_tag(out: &mut Vec<u8>, a: u8, b: u8, c: u8, d: u8)
    ensures
        final(out)@ == old(out)@ + seq![a, b, c, d],
{
    out.push(a);
    out.push(b);
    out.push(c);
    out.push(d);
}

/// Append two bytes.
fn push_pair(out: &mut Vec<u8>, a: u8, b: u8)
    ensures
        final(out)@ == old(out)@ + seq![a, b],
{
    out.push(a);
    out.push(b);
}

/// The complete bytes of a WAVE file holding `samples` as 16-bit mono PCM at
/// `sample_rate`: the 44-byte header followed by the little-endian samples.
pub fn encode_wav(samples: &[i16], sample_rate: u32) -> (bytes: Vec<u8>)
    requires
        wav_encodable(samples@.len() as int, sample_rate),
    ensures
        bytes@ == wav_header(samples@.len() as int, sample_rate) + pcm_bytes(samples@),
        is_wav_file_of(bytes@, samples@, sample_rate),
{
    let n = samples.len();
    let total: usize = n * 2;
    // 16-bit samples: 2 bytes per sample
    let data_size = total as u32;
    assert(total as u32 == total as int % 0x1_0000_0000) by (bit_vector);
    let file_size = data_size + 36;
    let byte_rate = sample_rate * 2;

    let mut out: Vec<u8> = Vec::new();
    // RIFF header
    push_tag(&mut out, 82, 73, 70, 70);
    push_u32_le(&mut out, file_size);
    push_tag(&mut out, 87, 65, 86, 69);
    // fmt chunk
    push_tag(&mut out, 102, 109, 116, 32);
    push_tag(&mut out, 16, 0, 0, 0);
    push_pair(&mut out, 1, 0);
    push_pair(&mut out, 1, 0);
    push_u32_le(&mut out, sample_rate);
    push_u32_le(&mut out, byte_rate);
    push_pair(&mut out, 2, 0);
    push_pair(&mut out, 16, 0);
    // data chunk
    push_tag(&mut out, 100, 97, 116, 97);
    push_u32_le(&mut out, data_size);
    let ghost header = out@;
    assert(header =~= wav_header(n as int, sample_rate));

    let mut k: usize = 0;
    while k < n
        invariant
            k <= n,
            n == samples@.len(),
            out@ == header + pcm_bytes(samples@.subrange(0, k as int)),
        decreases n - k,
    {
        let s = samples[k];
        let bits: u16 = if s < 0 {
            (s as i32 + 0x1_0000) as u16
        } else {
            s as u16
        };
        push_pair(&mut out, (bits % 256) as u8, (bits / 256) as u8);
        proof {
            let prev = samples@.subrange(0, k as int);
            let next = samples@.subrange(0, k + 1);
            assert(next[k as int] == s);
            assert(pcm_bytes(next) =~= pcm_bytes(prev) + seq![
                (sample_bits(s) % 256) as u8,
                (sample_bits(s) / 256) as u8,
            ]);
        }
        k += 1;
    }
    assert(samples@.subrange(0, n as int) =~= samples@);
    proof {
        lemma_wav_layout(samples@, sample_rate);
    }
    out
}

/// The sample that a little-endian byte pair decodes to.
pub open spec fn decode_sample(lo: u8, hi: u8) -> int {
    let v = lo + 256 * hi;
    if v >= 0x8000 {
        v - 0x1_0000
    } else {
        v
    }
}

/// Law: decoding the PCM bytes gives back every sample that was encoded.
pub proof fn lemma_pcm_round_trip(samples: Seq<i16>, k: int)
    requires
        0 <= k < samples.len(),
    ensures
        decode_sample(pcm_bytes(samples)[2 * k], pcm_bytes(samples)[2 * k + 1]) == samples[k],
{
    let b = pcm_bytes(samples);
    assert((2 * k) / 2 == k && (2 * k) % 2 == 0);
    assert((2 * k + 1) / 2 == k && (2 * k + 1) % 2 == 1);
    let v = sample_bits(samples[k]);
    assert(0 <= v < 0x1_0000);
    assert(b[2 * k] + 256 * b[2 * k + 1] == v);
}

/// Four little-endian bytes read back to the value they encode.
proof fn lemma_le_bytes_u32_read_back(x: u32)
    ensures
        le_u32_at(le_bytes_u32(x), 0) == x,
{
}

/// Law: an encoded file is read back as the WAVE file of its samples: every header field
/// holds what the format prescribes for the sample count and rate (the byte rate is twice
/// the sample rate), and each sample decodes from its two bytes.
pub proof fn lemma_wav_layout(samples: Seq<i16>, sample_rate: u32)
    requires
        wav_encodable(samples.len() as int, sample_rate),
    ensures
        is_wav_file_of(
            wav_header(samples.len() as int, sample_rate) + pcm_bytes(samples),
            samples,
            sample_rate,
        ),
{
    let n = samples.len() as int;
    let h = wav_header(n, sample_rate);
    let p = pcm_bytes(samples);
    let f = h + p;
    let data_size = data_chunk_size(n);
    lemma_le_bytes_u32_read_back((data_size + 36) as u32);
    lemma_le_bytes_u32_read_back(sample_rate);
    lemma_le_bytes_u32_read_back((sample_rate * 2) as u32);
    lemma_le_bytes_u32_read_back(data_size);
    assert(h.len() == 44);
    assert(f.subrange(4, 8) =~= le_bytes_u32((data_size + 36) as u32));
    assert(f.subrange(24, 28) =~= le_bytes_u32(sample_rate));
    assert(f.subrange(28, 32) =~= le_bytes_u32((sample_rate * 2) as u32));
    assert(f.subrange(40, 44) =~= le_bytes_u32(data_size));
    assert(le_u32_at(f, 4) == le_u32_at(f.subrange(4, 8), 0));
    assert(le_u32_at(f, 24) == le_u32_at(f.subrange(24, 28), 0));
    assert(le_u32_at(f, 28) == le_u32_at(f.subrange(28, 32), 0));
    assert(le_u32_at(f, 40) == le_u32_at(f.subrange(40, 44), 0));
    assert forall|k: int| 0 <= k < samples.len() implies #[trigger] decode_sample(
        f[44 + 2 * k],
        f[45 + 2 * k],
    ) == samples[k] by {
        lemma_pcm_round_trip(samples, k);
        assert(f[44 + 2 * k] == p[2 * k]);
        assert(f[45 + 2 * k] == p[2 * k + 1]);
    }
}

/// Law: the header of an encoded file is 44 bytes long, so sample `k` sits at byte
/// `44 + 2 * k`.
pub proof fn lemma_header_length(num_samples: int, sample_rate: u32)
    ensures
        wav_header(num_samples, sample_rate).len() == 44,
{
}

} // verus!
