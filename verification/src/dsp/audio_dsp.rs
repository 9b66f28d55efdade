//! The processing stage that every listenable path goes through.
use vstd::prelude::*;

verus! {

/// Which stages of audio processing are wanted. With all of them off the
/// block might as well not be there.
#[derive(Debug, Clone, Copy, PartialEq, Eq, Structural)]
pub struct AudioDspFlags {
    /// Noise blanker, against short impulses.
    pub dnb: bool,
    /// Noise reduction.
    pub dnr: bool,
    /// Notch filter.
    pub dnf: bool,
    /// Peak filter.
    pub apf: bool,
}

impl Default for AudioDspFlags {
    /// All off.
    fn default() -> (r: Self)
        ensures
            r == (AudioDspFlags { dnb: false, dnr: false, dnf: false, apf: false }),
    {
        AudioDspFlags { dnb: false, dnr: false, dnf: false, apf: false }
    }
}

/// The post-processor in front of the encoder and the loudspeaker.
#[derive(Debug, Clone, Copy)]
pub struct AudioDsp {
    flags: AudioDspFlags,
}

impl View for AudioDsp {
    type V = AudioDspFlags;

    closed spec fn view(&self) -> AudioDspFlags {
        self.flags
    }
}

impl Default for AudioDsp {
    /// Every stage off.
    fn default() -> (r: Self)
        ensures
            r@ == (AudioDspFlags { dnb: false, dnr: false, dnf: false, apf: false }),
    {
        AudioDsp { flags: AudioDspFlags::default() }
    }
}

impl AudioDsp {
    /// A post-processor with every stage off.
    pub fn new() -> (r: Self)
        ensures
            r@ == (AudioDspFlags { dnb: false, dnr: false, dnf: false, apf: false }),
    {
        AudioDsp::default()
    }

    /// The stages that are on.
    pub fn flags(&self) -> (r: AudioDspFlags)
        ensures
            r == self@,
    {
        self.flags
    }

    /// Switches stages on and off.
    pub fn set_flags(&mut self, flags: AudioDspFlags)
        ensures
            final(self)@ == flags,
    {
        self.flags = flags;
    }

    /// Applies the stages in place. Each of them passes its samples through,
    /// on or off.
    pub fn process<T>(&self, samples: &mut [T])
        ensures
            final(samples)@ == old(samples)@,
    {
    }
}

/// The stages that are set are the stages that are on, and every sample
/// passes as it is.
pub proof fn law_flags_are_kept_and_samples_pass<T>(
    d: &mut AudioDsp,
    flags: AudioDspFlags,
    e: &AudioDsp,
    read: AudioDspFlags,
    samples: &mut [T],
)
    requires
        call_ensures(AudioDsp::flags, (e,), read),
    ensures
        call_ensures(AudioDsp::set_flags, (d, flags), ()) ==> final(d)@ == flags,
        read == e@,
        call_ensures(AudioDsp::process::<T>, (e, samples), ()) ==> final(samples)@
            == old(samples)@,
{
}

} // verus!
