//! Octane: the compound-oscillator engine of a two-oscillator wavetable synthesizer.
pub mod fixed_point;
pub mod oscillator;
pub mod synthesis;
pub mod utils;

pub use oscillator::OctaneOscillatorState;
pub use synthesis::{
    can_synthesize, octane_process_fixed, octane_synthesize, CombineMethod, FixedProcessParams,
};
