//! The noise blanker in front of the demodulator.
use vstd::prelude::*;

verus! {

/// How far above the running envelope a sample counts as an impulse.
pub const BLANK_THRESHOLD: u32 = 5;

/// The envelope follows one sample in this many.
pub const ENVELOPE_SAMPLES: u32 = 1024;

/// Configuration of the noise blanker.
#[derive(Debug, Clone, Copy)]
pub struct NoiseBlankerConfig {
    /// Whether it starts switched on. Switched off, it passes blocks as they
    /// are.
    pub enabled: bool,
}

impl Default for NoiseBlankerConfig {
    /// Switched off.
    fn default() -> (r: Self)
        ensures
            !r.enabled,
    {
        NoiseBlankerConfig { enabled: false }
    }
}

/// The noise blanker starts switched off. An impulse is five times as strong
/// as the envelope, which follows one sample in 1024.
pub proof fn law_the_blanker_starts_switched_off(r: NoiseBlankerConfig)
    requires
        call_ensures(<NoiseBlankerConfig as Default>::default, (), r),
    ensures
        !r.enabled,
        BLANK_THRESHOLD == 5 && ENVELOPE_SAMPLES == 1024,
{
}

} // verus!
