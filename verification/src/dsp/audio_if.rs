//! The bandpass for sources that arrive as audio: which band a mode leaves.
use crate::proto::radio::Mode;
use vstd::prelude::*;

verus! {

/// A band of audio frequencies, in hertz.
#[derive(Debug, Clone, Copy, PartialEq, Eq, Structural)]
pub struct Band {
    pub center_hz: u32,
    pub bandwidth_hz: u32,
}

/// The band of a mode: a narrow one around the usual tone for CW, that of
/// a voice for a single sideband, and none for the modes that need all of the
/// audio.
pub open spec fn band_of(mode: Mode) -> Option<Band> {
    match mode {
        Mode::CW | Mode::CWR => Some(Band { center_hz: 800, bandwidth_hz: 500 }),
        Mode::USB | Mode::LSB => Some(Band { center_hz: 1500, bandwidth_hz: 2400 }),
        _ => None,
    }
}

/// The band that a mode leaves; `None` where the audio passes as it is.
pub fn mode_to_bandpass(mode: Mode) -> (r: Option<Band>)
    ensures
        r == band_of(mode),
{
    match mode {
        Mode::CW | Mode::CWR => Some(Band { center_hz: 800, bandwidth_hz: 500 }),
        Mode::USB | Mode::LSB => Some(Band { center_hz: 1500, bandwidth_hz: 2400 }),
        _ => None,
    }
}

/// The band for a mode that may not be set; without a mode the audio passes
/// as it is.
pub fn bandpass_for(mode: Option<Mode>) -> (r: Option<Band>)
    ensures
        r == (match mode {
            Some(m) => band_of(m),
            None => None,
        }),
{
    match mode {
        Some(m) => mode_to_bandpass(m),
        None => None,
    }
}

/// A band lies within what can be heard of it: it starts above zero and ends
/// below half the usual rate.
pub proof fn law_bands_are_audible(mode: Mode)
    ensures
        band_of(mode) matches Some(b) ==> {
            &&& b.bandwidth_hz > 0
            &&& b.center_hz * 2 > b.bandwidth_hz
            &&& b.center_hz + b.bandwidth_hz / 2 < 24_000
        },
{
}

/// CW leaves a band of 500 Hz around its tone of 800 Hz, and a sideband that
/// of a voice, from 300 to 2700 Hz, on both sides alike. Every other mode
/// leaves the audio as it is.
pub proof fn law_bands_fit_their_modes(mode: Mode, r: Option<Band>, set: Option<Band>)
    requires
        call_ensures(mode_to_bandpass, (mode,), r),
        call_ensures(bandpass_for, (Some(mode),), set),
    ensures
        set == r,
        r is Some <==> mode == Mode::CW || mode == Mode::CWR || mode == Mode::USB || mode
            == Mode::LSB,
        r matches Some(b) ==> {
            let low = b.center_hz - b.bandwidth_hz as int / 2;
            let high = b.center_hz + b.bandwidth_hz as int / 2;
            &&& mode == Mode::CW || mode == Mode::CWR ==> low == 550 && high == 1050
            &&& mode == Mode::USB || mode == Mode::LSB ==> low == 300 && high == 2700
        },
{
}

/// Without a mode nothing is filtered.
pub proof fn law_no_mode_no_band(r: Option<Band>)
    requires
        call_ensures(bandpass_for, (None::<Mode>,), r),
    ensures
        r is None,
{
}

} // verus!
