use vstd::prelude::*;

use vstd::arithmetic::div_mod::lemma_add_mod_noop;

verus! {

/// The number of distinct phase values of the 32-bit phase accumulator.
pub open spec fn phase_modulus() -> int {
    0x1_0000_0000
}

/// The phase reached from `phase` after one step of `delta`, wrapping modulo 2^32.
pub open spec fn stepped_phase(phase: u32, delta: u32) -> u32 {
    ((phase + delta) % phase_modulus()) as u32
}

/// The wavetable index selected by a phase: its top ten bits.
pub open spec fn lut_index_of(phase: u32) -> int {
    phase as int / 0x40_0000
}

/// Oscillator state: a 32-bit phase accumulator and its per-sample increment.
pub struct OctaneOscillatorState {
    pub phase: u32,
    pub phase_delta: u32,
}

impl OctaneOscillatorState {
    /// The state after one phase step: the phase advanced by the increment, which stays.
    pub open spec fn stepped(self) -> Self {
        OctaneOscillatorState {
            phase: stepped_phase(self.phase, self.phase_delta),
            phase_delta: self.phase_delta,
        }
    }

    /// A state at phase zero that does not move.
    pub fn new() -> (s: Self)
        ensures
            s.phase == 0,
            s.phase_delta == 0,
    {
        Self { phase: 0, phase_delta: 0 }
    }

    /// Advance the oscillator phase by one increment, wrapping modulo 2^32.
    pub fn advance_phase(&mut self)
        ensures
            *final(self) == old(self).stepped(),
    {
        self.phase = self.phase.wrapping_add(self.phase_delta);
    }

    /// Get the current wavetable index from the phase (always below 1024).
    pub fn get_lut_index(&self) -> (index: usize)
        ensures
            index == lut_index_of(self.phase),
            index < 1024,
    {
        let p = self.phase;
        assert(((p >> 22u32) & 0x3FFu32) == p / 0x40_0000) by (bit_vector);
        ((self.phase >> 22) & 0x3FF) as usize
    }
}

impl Default for OctaneOscillatorState {
    fn default() -> (s: Self)
        ensures
            s.phase == 0,
            s.phase_delta == 0,
    {
        Self::new()
    }
}

/// The state reached from `s` after `n` phase steps.
pub open spec fn advanced_by(s: OctaneOscillatorState, n: nat) -> OctaneOscillatorState
    decreases n,
{
    if n == 0 {
        s
    } else {
        advanced_by(s, (n - 1) as nat).stepped()
    }
}

/// Law of the phase accumulator: after `n` advances the phase is the starting phase plus
/// `n` increments, modulo 2^32, and the increment is unchanged.
pub proof fn lemma_advance_accumulates(s: OctaneOscillatorState, n: nat)
    ensures
        advanced_by(s, n).phase == (s.phase + n * s.phase_delta) % phase_modulus(),
        advanced_by(s, n).phase_delta == s.phase_delta,
    decreases n,
{
    if n > 0 {
        let m = (n - 1) as nat;
        lemma_advance_accumulates(s, m);
        let prev = s.phase + m * s.phase_delta;
        lemma_add_mod_noop(prev, s.phase_delta as int, phase_modulus());
        assert((s.phase_delta as int) % phase_modulus() == s.phase_delta as int);
        lemma_add_mod_noop(prev % phase_modulus(), s.phase_delta as int, phase_modulus());
        assert((prev % phase_modulus()) % phase_modulus() == prev % phase_modulus());
        assert(prev + s.phase_delta == s.phase + n * s.phase_delta) by (nonlinear_arith)
            requires
                prev == s.phase + m * s.phase_delta,
                n == m + 1,
        ;
    }
}

/// Law: the phase accumulator is periodic: 2^32 advances bring any state back to itself.
pub proof fn lemma_advance_period(s: OctaneOscillatorState)
    ensures
        advanced_by(s, phase_modulus() as nat) == s,
{
    lemma_advance_accumulates(s, phase_modulus() as nat);
    vstd::arithmetic::div_mod::lemma_mod_multiples_vanish(
        s.phase_delta as int,
        s.phase as int,
        phase_modulus(),
    );
    assert(phase_modulus() * s.phase_delta == s.phase_delta * phase_modulus()) by (nonlinear_arith);
}

/// Law: the wavetable index of any phase lies in `[0, 1024)`.
pub proof fn lemma_lut_index_bound(phase: u32)
    ensures
        0 <= lut_index_of(phase) < 1024,
{
}

/// Law: the wavetable index of a phase is the number of whole 2^22 steps it holds: the
/// phase lies in `[index * 2^22, (index + 1) * 2^22)`.
pub proof fn lemma_lut_index_brackets_phase(phase: u32)
    ensures
        lut_index_of(phase) * 0x40_0000 <= phase < (lut_index_of(phase) + 1) * 0x40_0000,
{
}

} // verus!
