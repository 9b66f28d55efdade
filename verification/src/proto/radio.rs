//! The radio vocabulary shared by every message: modes, sources, decoders.
use vstd::prelude::*;

verus! {

/// Receive demodulation mode.
///
/// `CWR` is CW-lower; `CW` is CW-upper. `DSB` is double-sideband
/// synchronous AM with full bandwidth. `SAM` is synchronous AM; `SAMU` and
/// `SAML` are its upper and lower single-sideband variants. `DRM` is decoded
/// by an outside process and needs IQ input.
#[derive(Debug, Clone, Copy, PartialEq, Eq, Structural)]
pub enum Mode {
    AM,
    SAM,
    SAMU,
    SAML,
    DSB,
    LSB,
    USB,
    CW,
    CWR,
    FM,
    DRM,
    Unknown,
}

/// The radio's two tuning registers.
#[derive(Debug, Clone, Copy, PartialEq, Eq, Structural)]
pub enum Vfo {
    A,
    B,
}

/// Automatic gain control speed.
#[derive(Debug, Clone, Copy, PartialEq, Eq, Structural)]
pub enum AgcMode {
    Off,
    Slow,
    Medium,
    Fast,
}

/// Top-level source class selected in the user interface. A class can hold
/// several device kinds.
#[derive(Debug, Clone, Copy, PartialEq, Eq, Structural)]
pub enum SourceClass {
    Audio,
    Iq,
}

/// The device family that backs a connection.
#[derive(Debug, Clone, Copy, PartialEq, Eq, Structural)]
pub enum SourceKind {
    FdmDuo,
    HackRf,
    RspDx,
    RtlSdr,
    PortableRadio,
    /// Recorded audio replayed through the audio pipeline.
    AudioFile,
    /// Recorded IQ replayed through the IQ pipeline.
    IqFile,
}

/// The class that owns a device kind: portable radios and audio files are
/// audio, everything else delivers IQ.
pub open spec fn class_of(kind: SourceKind) -> SourceClass {
    if kind == SourceKind::PortableRadio || kind == SourceKind::AudioFile {
        SourceClass::Audio
    } else {
        SourceClass::Iq
    }
}

impl SourceKind {
    /// The source class that owns this device kind.
    pub fn class(self) -> (r: SourceClass)
        ensures
            r == class_of(self),
    {
        match self {
            SourceKind::PortableRadio | SourceKind::AudioFile => SourceClass::Audio,
            SourceKind::FdmDuo
            | SourceKind::HackRf
            | SourceKind::RspDx
            | SourceKind::RtlSdr
            | SourceKind::IqFile => SourceClass::Iq,
        }
    }
}

/// Audio-domain decoder kind. Several can be enabled at once, independent of
/// the demodulation mode.
#[derive(Debug, Clone, Copy, PartialEq, Eq, Hash, Structural)]
pub enum DecoderKind {
    Cw,
    Rtty,
    Psk,
    /// Multi-FSK.
    Mfsk,
    /// Weather fax.
    Fax,
    /// AFSK 1200 packet radio.
    Pckt,
    Wspr,
    Ft8,
    Aprs,
}

/// Recording medium.
#[derive(Debug, Clone, Copy, PartialEq, Eq, Structural)]
pub enum RecKind {
    Iq,
    Audio,
}

} // verus!
