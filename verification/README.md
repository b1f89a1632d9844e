# octane

The compound-oscillator engine of a two-oscillator wavetable synthesizer, written in
Verus. Two 32-bit phase accumulators read 1024-entry wavetables; their samples are
combined by cross-fade, phase distortion or ring modulation, then amplified with
saturation. Sawtooth, triangle and square tables and a WAVE encoder come with it.

- `src/oscillator.rs`: the phase accumulator, its wavetable index, and the laws of
  repeated advancing.
- `src/synthesis.rs`: one synthesis step, its exact integer semantics as spec
  functions, a checker for the arguments on which a step is defined, and the laws of
  the combine methods.
- `src/fixed_point.rs`: 16-bit wrap, truncating division and the shifts of the signal
  path.
- `src/utils/`: wavetable generators and the WAVE file encoding.
- `app/`: what works on floating point or files: frequency and mix-ratio conversion,
  the sine table, and writing a WAVE file.
