//! The messages between server and client, and the parts they consist of.
use crate::proto::codec::{F32, F64};
use crate::proto::radio::{
    AgcMode, DecoderKind, Mode, RecKind, SourceClass, SourceKind, Vfo,
};
use vstd::prelude::*;

verus! {

/// Stable identifier of a device: its family, and a name that only the
/// backend interprets (serial number, path, file).
#[derive(Debug, Clone, PartialEq, Eq)]
pub struct DeviceId {
    pub kind: SourceKind,
    pub id: String,
}

// ---------------------------------------------------------------------------
// From the server
// ---------------------------------------------------------------------------

/// Spectrum magnitudes in dB, with the centre frequency in the middle.
#[derive(Debug, Clone, PartialEq)]
pub struct FftBins {
    pub center_freq_hz: u64,
    pub span_hz: u32,
    pub ref_level_db: F32,
    pub bins: Vec<F32>,
    /// Monotonic, in microseconds.
    pub timestamp_us: u64,
}

/// Opus-encoded audio.
#[derive(Debug, Clone, PartialEq)]
pub struct AudioChunk {
    pub opus_data: Vec<u8>,
    /// Counts up, so that gaps show.
    pub seq: u32,
}

/// What the radio reports about itself.
#[derive(Debug, Clone, PartialEq)]
pub struct RadioState {
    pub vfo: Vfo,
    pub freq_hz: u64,
    pub mode: Mode,
    /// Bandwidth as the radio shows it, such as `2.4k`, `500` or `D300`.
    pub filter_bw: String,
    /// Bandwidth in Hz, where the label is a number.
    pub filter_bw_hz: Option<F64>,
    /// The radio's own number of the filter.
    pub filter_idx: Option<u8>,
    pub att: bool,
    pub lp: bool,
    pub agc: AgcMode,
    pub agc_threshold: u8,
    pub nr: bool,
    pub nb: bool,
    pub s_meter_db: F32,
    pub tx: bool,
    /// Receive offset in Hz; 0 when it is off.
    pub rit_hz: i32,
    pub rit_on: bool,
    /// Transmit offset in Hz.
    pub xit_hz: i32,
    pub xit_on: bool,
    /// IF shift in Hz.
    pub if_offset_hz: i32,
    /// Signal-to-noise ratio in dB, where the source estimates one.
    pub snr_db: Option<F32>,
}

/// An error for the client to show.
#[derive(Debug, Clone, PartialEq)]
pub struct ErrorMsg {
    pub code: u16,
    pub message: String,
}

/// Where the client's controls take effect.
#[derive(Debug, Clone, Copy, PartialEq, Eq, Structural)]
pub enum ControlTarget {
    /// The source can be listened to, not controlled.
    Nowhere,
    /// In the radio.
    Radio,
    /// In the software demodulator.
    Demod,
    /// In the software demodulator; frequency changes move the radio too.
    DemodMirrorFreq,
}

/// What the active source supports.
#[derive(Debug, Clone, PartialEq)]
pub struct Capabilities {
    pub source: SourceKind,
    pub has_iq: bool,
    pub has_tx: bool,
    pub has_hardware_cat: bool,
    /// Audio from the radio's USB port or a line-in dongle.
    pub has_usb_audio: bool,
    pub supported_demod_modes: Vec<Mode>,
    pub supported_decoders: Vec<DecoderKind>,
    pub drm_flip_spectrum: bool,
    pub control_target: ControlTarget,
}

/// What the DRM decoder reports; `None` where it shows no value.
#[derive(Debug, Clone, PartialEq)]
pub struct DrmStatus {
    pub io_ok: bool,
    pub time_ok: bool,
    pub frame_ok: bool,
    pub fac_ok: bool,
    pub sdc_ok: bool,
    pub msc_ok: bool,
    pub if_level_db: Option<F32>,
    pub snr_db: Option<F32>,
    pub wmer_db: Option<F32>,
    pub mer_db: Option<F32>,
    pub dc_freq_hz: Option<F32>,
    pub sample_offset_hz: Option<F32>,
    pub doppler_hz: Option<F32>,
    pub delay_ms: Option<F32>,
    /// `A` to `D`.
    pub robustness_mode: Option<String>,
    pub bandwidth_khz: Option<u32>,
    pub sdc_mode: Option<String>,
    pub msc_mode: Option<String>,
    pub interleaver_s: Option<u32>,
    pub num_audio_services: u8,
    pub num_data_services: u8,
    /// Microseconds since the decoder started.
    pub timestamp_us: u64,
}

/// The devices that can be selected.
#[derive(Debug, Clone, PartialEq)]
pub struct DeviceList {
    pub audio_devices: Vec<DeviceId>,
    pub iq_devices: Vec<DeviceId>,
    pub active: Option<DeviceId>,
}

/// Text that a decoder has read out of the audio.
#[derive(Debug, Clone, PartialEq)]
pub struct DecodedText {
    pub decoder: DecoderKind,
    pub text: String,
    pub timestamp_us: u64,
}

/// How a recording is going.
#[derive(Debug, Clone, PartialEq)]
pub struct RecordingStatus {
    pub active: bool,
    pub kind: Option<RecKind>,
    pub path: Option<String>,
    pub bytes_written: u64,
    /// Seconds recorded, once there are any.
    pub duration_s: Option<F64>,
}

/// What is kept between sessions: device, tuning and processing switches.
#[derive(Debug, Clone, PartialEq)]
pub struct StateSnapshot {
    pub active_device: Option<DeviceId>,
    pub freq_hz: u64,
    pub mode: Mode,
    pub filter_bw_hz: Option<F64>,
    pub rit_hz: i32,
    pub xit_hz: i32,
    pub if_offset_hz: i32,
    pub enabled_decoders: Vec<DecoderKind>,
    /// Noise blanker on the IQ stream.
    pub nb_on: bool,
    pub dnb_on: bool,
    pub dnr_on: bool,
    pub dnf_on: bool,
    pub apf_on: bool,
}

/// Everything that a server can say.
#[derive(Debug, Clone, PartialEq)]
pub enum ServerMsg {
    FftBins(FftBins),
    Audio(AudioChunk),
    RadioState(RadioState),
    Capabilities(Capabilities),
    DrmStatus(DrmStatus),
    Error(ErrorMsg),
    DeviceList(DeviceList),
    DecodedText(DecodedText),
    RecordingStatus(RecordingStatus),
    StateSnapshot(StateSnapshot),
}

// ---------------------------------------------------------------------------
// From the client
// ---------------------------------------------------------------------------

/// A command for the radio, in the radio's own language.
#[derive(Debug, Clone, PartialEq)]
pub struct CatCommand {
    pub raw: String,
}

/// Opus-encoded audio to transmit.
#[derive(Debug, Clone, PartialEq)]
pub struct TxAudio {
    pub opus_data: Vec<u8>,
    /// Counts up, so that gaps show.
    pub seq: u32,
}

/// Push-to-talk.
#[derive(Debug, Clone, Copy, PartialEq, Eq, Structural)]
pub struct Ptt {
    pub on: bool,
}

/// Start a recording; without a path the server picks one.
#[derive(Debug, Clone, PartialEq)]
pub struct StartRecording {
    pub kind: RecKind,
    pub path: Option<String>,
}

/// Everything that a client can say.
#[derive(Debug, Clone, PartialEq)]
pub enum ClientMsg {
    CatCommand(CatCommand),
    TxAudio(TxAudio),
    Ptt(Ptt),
    /// Demodulate in this mode; `None` follows the radio.
    SetDemodMode(Option<Mode>),
    SetDrmFlipSpectrum(bool),
    EnumerateDevices,
    SelectSource(SourceClass),
    SelectDevice(DeviceId),
    SetDecoder { decoder: DecoderKind, enabled: bool },
    /// Noise blanker on the IQ stream.
    SetNb(bool),
    /// The audio stages, in the order in which they run.
    SetDnb(bool),
    SetDnr(bool),
    SetDnf(bool),
    SetApf(bool),
    StartRecording(StartRecording),
    StopRecording,
    SaveState,
    LoadState,
}

} // verus!
