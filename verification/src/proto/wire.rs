//! How messages and their parts are encoded, field by field.
use crate::proto::codec::{varint, DecodeFault, Listed, Optional, Wire, F32, F64};
use crate::proto::grid::GridCell;
use crate::proto::messages::{
    AudioChunk, Capabilities, CatCommand, ClientMsg, ControlTarget, DecodedText, DeviceId,
    DeviceList, DrmStatus, ErrorMsg, FftBins, Ptt, RadioState, RecordingStatus, ServerMsg,
    StartRecording, StateSnapshot, TxAudio,
};
use crate::proto::radio::{
    AgcMode, DecoderKind, Mode, RecKind, SourceClass, SourceKind, Vfo,
};
use vstd::prelude::*;

verus! {

// ---------------------------------------------------------------------------
// Enumerations: the variant's number
// ---------------------------------------------------------------------------

/// An enumeration without data, whose variants are numbered from 0 in the
/// order of their declaration. Reordering them changes the wire format.
pub trait Numbered: Sized + Copy {
    spec fn number(self) -> u32;

    /// The variant with number `n`.
    spec fn numbered(n: u32) -> Option<Self>;

    fn to_number(self) -> (r: u32)
        ensures
            r == self.number(),
    ;

    fn from_number(n: u32) -> (r: Option<Self>)
        ensures
            r == Self::numbered(n),
    ;

    /// The fault where no variant has number `n`.
    spec fn number_fault(n: u32) -> DecodeFault;

    fn fault_in_number(n: u32) -> (r: DecodeFault)
        ensures
            r == Self::number_fault(n),
    ;

    /// Numbers and variants belong to each other.
    proof fn numbers_agree(self)
        ensures
            Self::numbered(self.number()) == Some(self),
    ;
}

impl<T: Numbered> Wire for T {
    type Model = T;

    open spec fn model(&self) -> T {
        *self
    }

    open spec fn fits(m: T) -> bool {
        true
    }

    open spec fn encoded(m: T) -> Seq<u8> {
        varint(m.number() as nat)
    }

    open spec fn decoded(data: Seq<u8>) -> Result<(T, nat), DecodeFault> {
        match u32::decoded(data) {
            Ok((n, k)) => match T::numbered(n) {
                Some(v) => Ok((v, k)),
                None => Err(T::number_fault(n)),
            },
            Err(fault) => Err(fault),
        }
    }

    fn put(&self, out: &mut Vec<u8>) {
        let n: u32 = self.to_number();
        n.put(out);
    }

    fn read_from(data: &[u8], from: usize) -> (r: Result<(T, usize), DecodeFault>) {
        match u32::read_from(data, from) {
            Ok((n, to)) => match T::from_number(n) {
                Some(v) => Ok((v, to)),
                None => Err(T::fault_in_number(n)),
            },
            Err(fault) => Err(fault),
        }
    }

    proof fn round_trip(m: T, rest: Seq<u8>) {
        m.numbers_agree();
        u32::round_trip(m.number(), rest);
    }
}

impl<T: Numbered> Listed for T {

}

impl Numbered for Mode {
    open spec fn number(self) -> u32 {
        match self {
            Mode::AM => 0,
            Mode::SAM => 1,
            Mode::SAMU => 2,
            Mode::SAML => 3,
            Mode::DSB => 4,
            Mode::LSB => 5,
            Mode::USB => 6,
            Mode::CW => 7,
            Mode::CWR => 8,
            Mode::FM => 9,
            Mode::DRM => 10,
            Mode::Unknown => 11,
        }
    }

    open spec fn numbered(n: u32) -> Option<Self> {
        if n == 0 {
            Some(Mode::AM)
        } else if n == 1 {
            Some(Mode::SAM)
        } else if n == 2 {
            Some(Mode::SAMU)
        } else if n == 3 {
            Some(Mode::SAML)
        } else if n == 4 {
            Some(Mode::DSB)
        } else if n == 5 {
            Some(Mode::LSB)
        } else if n == 6 {
            Some(Mode::USB)
        } else if n == 7 {
            Some(Mode::CW)
        } else if n == 8 {
            Some(Mode::CWR)
        } else if n == 9 {
            Some(Mode::FM)
        } else if n == 10 {
            Some(Mode::DRM)
        } else if n == 11 {
            Some(Mode::Unknown)
        } else {
            None
        }
    }

    fn to_number(self) -> (r: u32) {
        match self {
            Mode::AM => 0,
            Mode::SAM => 1,
            Mode::SAMU => 2,
            Mode::SAML => 3,
            Mode::DSB => 4,
            Mode::LSB => 5,
            Mode::USB => 6,
            Mode::CW => 7,
            Mode::CWR => 8,
            Mode::FM => 9,
            Mode::DRM => 10,
            Mode::Unknown => 11,
        }
    }

    fn from_number(n: u32) -> (r: Option<Self>) {
        match n {
            0 => Some(Mode::AM),
            1 => Some(Mode::SAM),
            2 => Some(Mode::SAMU),
            3 => Some(Mode::SAML),
            4 => Some(Mode::DSB),
            5 => Some(Mode::LSB),
            6 => Some(Mode::USB),
            7 => Some(Mode::CW),
            8 => Some(Mode::CWR),
            9 => Some(Mode::FM),
            10 => Some(Mode::DRM),
            11 => Some(Mode::Unknown),
            _ => None,
        }
    }

    open spec fn number_fault(n: u32) -> DecodeFault {
        DecodeFault::UnexpectedVariant { of: "Mode", max: 11, number: n }
    }

    fn fault_in_number(n: u32) -> (r: DecodeFault) {
        DecodeFault::UnexpectedVariant { of: "Mode", max: 11, number: n }
    }

    proof fn numbers_agree(self) {
    }
}

impl Numbered for Vfo {
    open spec fn number(self) -> u32 {
        match self {
            Vfo::A => 0,
            Vfo::B => 1,
        }
    }

    open spec fn numbered(n: u32) -> Option<Self> {
        if n == 0 {
            Some(Vfo::A)
        } else if n == 1 {
            Some(Vfo::B)
        } else {
            None
        }
    }

    fn to_number(self) -> (r: u32) {
        match self {
            Vfo::A => 0,
            Vfo::B => 1,
        }
    }

    fn from_number(n: u32) -> (r: Option<Self>) {
        match n {
            0 => Some(Vfo::A),
            1 => Some(Vfo::B),
            _ => None,
        }
    }

    open spec fn number_fault(n: u32) -> DecodeFault {
        DecodeFault::UnexpectedVariant { of: "Vfo", max: 1, number: n }
    }

    fn fault_in_number(n: u32) -> (r: DecodeFault) {
        DecodeFault::UnexpectedVariant { of: "Vfo", max: 1, number: n }
    }

    proof fn numbers_agree(self) {
    }
}

impl Numbered for AgcMode {
    open spec fn number(self) -> u32 {
        match self {
            AgcMode::Off => 0,
            AgcMode::Slow => 1,
            AgcMode::Medium => 2,
            AgcMode::Fast => 3,
        }
    }

    open spec fn numbered(n: u32) -> Option<Self> {
        if n == 0 {
            Some(AgcMode::Off)
        } else if n == 1 {
            Some(AgcMode::Slow)
        } else if n == 2 {
            Some(AgcMode::Medium)
        } else if n == 3 {
            Some(AgcMode::Fast)
        } else {
            None
        }
    }

    fn to_number(self) -> (r: u32) {
        match self {
            AgcMode::Off => 0,
            AgcMode::Slow => 1,
            AgcMode::Medium => 2,
            AgcMode::Fast => 3,
        }
    }

    fn from_number(n: u32) -> (r: Option<Self>) {
        match n {
            0 => Some(AgcMode::Off),
            1 => Some(AgcMode::Slow),
            2 => Some(AgcMode::Medium),
            3 => Some(AgcMode::Fast),
            _ => None,
        }
    }

    open spec fn number_fault(n: u32) -> DecodeFault {
        DecodeFault::UnexpectedVariant { of: "AgcMode", max: 3, number: n }
    }

    fn fault_in_number(n: u32) -> (r: DecodeFault) {
        DecodeFault::UnexpectedVariant { of: "AgcMode", max: 3, number: n }
    }

    proof fn numbers_agree(self) {
    }
}

impl Numbered for SourceClass {
    open spec fn number(self) -> u32 {
        match self {
            SourceClass::Audio => 0,
            SourceClass::Iq => 1,
        }
    }

    open spec fn numbered(n: u32) -> Option<Self> {
        if n == 0 {
            Some(SourceClass::Audio)
        } else if n == 1 {
            Some(SourceClass::Iq)
        } else {
            None
        }
    }

    fn to_number(self) -> (r: u32) {
        match self {
            SourceClass::Audio => 0,
            SourceClass::Iq => 1,
        }
    }

    fn from_number(n: u32) -> (r: Option<Self>) {
        match n {
            0 => Some(SourceClass::Audio),
            1 => Some(SourceClass::Iq),
            _ => None,
        }
    }

    open spec fn number_fault(n: u32) -> DecodeFault {
        DecodeFault::UnexpectedVariant { of: "SourceClass", max: 1, number: n }
    }

    fn fault_in_number(n: u32) -> (r: DecodeFault) {
        DecodeFault::UnexpectedVariant { of: "SourceClass", max: 1, number: n }
    }

    proof fn numbers_agree(self) {
    }
}

impl Numbered for SourceKind {
    open spec fn number(self) -> u32 {
        match self {
            SourceKind::FdmDuo => 0,
            SourceKind::HackRf => 1,
            SourceKind::RspDx => 2,
            SourceKind::RtlSdr => 3,
            SourceKind::PortableRadio => 4,
            SourceKind::AudioFile => 5,
            SourceKind::IqFile => 6,
        }
    }

    open spec fn numbered(n: u32) -> Option<Self> {
        if n == 0 {
            Some(SourceKind::FdmDuo)
        } else if n == 1 {
            Some(SourceKind::HackRf)
        } else if n == 2 {
            Some(SourceKind::RspDx)
        } else if n == 3 {
            Some(SourceKind::RtlSdr)
        } else if n == 4 {
            Some(SourceKind::PortableRadio)
        } else if n == 5 {
            Some(SourceKind::AudioFile)
        } else if n == 6 {
            Some(SourceKind::IqFile)
        } else {
            None
        }
    }

    fn to_number(self) -> (r: u32) {
        match self {
            SourceKind::FdmDuo => 0,
            SourceKind::HackRf => 1,
            SourceKind::RspDx => 2,
            SourceKind::RtlSdr => 3,
            SourceKind::PortableRadio => 4,
            SourceKind::AudioFile => 5,
            SourceKind::IqFile => 6,
        }
    }

    fn from_number(n: u32) -> (r: Option<Self>) {
        match n {
            0 => Some(SourceKind::FdmDuo),
            1 => Some(SourceKind::HackRf),
            2 => Some(SourceKind::RspDx),
            3 => Some(SourceKind::RtlSdr),
            4 => Some(SourceKind::PortableRadio),
            5 => Some(SourceKind::AudioFile),
            6 => Some(SourceKind::IqFile),
            _ => None,
        }
    }

    open spec fn number_fault(n: u32) -> DecodeFault {
        DecodeFault::UnexpectedVariant { of: "SourceKind", max: 6, number: n }
    }

    fn fault_in_number(n: u32) -> (r: DecodeFault) {
        DecodeFault::UnexpectedVariant { of: "SourceKind", max: 6, number: n }
    }

    proof fn numbers_agree(self) {
    }
}

impl Numbered for DecoderKind {
    open spec fn number(self) -> u32 {
        match self {
            DecoderKind::Cw => 0,
            DecoderKind::Rtty => 1,
            DecoderKind::Psk => 2,
            DecoderKind::Mfsk => 3,
            DecoderKind::Fax => 4,
            DecoderKind::Pckt => 5,
            DecoderKind::Wspr => 6,
            DecoderKind::Ft8 => 7,
            DecoderKind::Aprs => 8,
        }
    }

    open spec fn numbered(n: u32) -> Option<Self> {
        if n == 0 {
            Some(DecoderKind::Cw)
        } else if n == 1 {
            Some(DecoderKind::Rtty)
        } else if n == 2 {
            Some(DecoderKind::Psk)
        } else if n == 3 {
            Some(DecoderKind::Mfsk)
        } else if n == 4 {
            Some(DecoderKind::Fax)
        } else if n == 5 {
            Some(DecoderKind::Pckt)
        } else if n == 6 {
            Some(DecoderKind::Wspr)
        } else if n == 7 {
            Some(DecoderKind::Ft8)
        } else if n == 8 {
            Some(DecoderKind::Aprs)
        } else {
            None
        }
    }

    fn to_number(self) -> (r: u32) {
        match self {
            DecoderKind::Cw => 0,
            DecoderKind::Rtty => 1,
            DecoderKind::Psk => 2,
            DecoderKind::Mfsk => 3,
            DecoderKind::Fax => 4,
            DecoderKind::Pckt => 5,
            DecoderKind::Wspr => 6,
            DecoderKind::Ft8 => 7,
            DecoderKind::Aprs => 8,
        }
    }

    fn from_number(n: u32) -> (r: Option<Self>) {
        match n {
            0 => Some(DecoderKind::Cw),
            1 => Some(DecoderKind::Rtty),
            2 => Some(DecoderKind::Psk),
            3 => Some(DecoderKind::Mfsk),
            4 => Some(DecoderKind::Fax),
            5 => Some(DecoderKind::Pckt),
            6 => Some(DecoderKind::Wspr),
            7 => Some(DecoderKind::Ft8),
            8 => Some(DecoderKind::Aprs),
            _ => None,
        }
    }

    open spec fn number_fault(n: u32) -> DecodeFault {
        DecodeFault::UnexpectedVariant { of: "DecoderKind", max: 8, number: n }
    }

    fn fault_in_number(n: u32) -> (r: DecodeFault) {
        DecodeFault::UnexpectedVariant { of: "DecoderKind", max: 8, number: n }
    }

    proof fn numbers_agree(self) {
    }
}

impl Numbered for RecKind {
    open spec fn number(self) -> u32 {
        match self {
            RecKind::Iq => 0,
            RecKind::Audio => 1,
        }
    }

    open spec fn numbered(n: u32) -> Option<Self> {
        if n == 0 {
            Some(RecKind::Iq)
        } else if n == 1 {
            Some(RecKind::Audio)
        } else {
            None
        }
    }

    fn to_number(self) -> (r: u32) {
        match self {
            RecKind::Iq => 0,
            RecKind::Audio => 1,
        }
    }

    fn from_number(n: u32) -> (r: Option<Self>) {
        match n {
            0 => Some(RecKind::Iq),
            1 => Some(RecKind::Audio),
            _ => None,
        }
    }

    open spec fn number_fault(n: u32) -> DecodeFault {
        DecodeFault::UnexpectedVariant { of: "RecKind", max: 1, number: n }
    }

    fn fault_in_number(n: u32) -> (r: DecodeFault) {
        DecodeFault::UnexpectedVariant { of: "RecKind", max: 1, number: n }
    }

    proof fn numbers_agree(self) {
    }
}

impl Numbered for ControlTarget {
    open spec fn number(self) -> u32 {
        match self {
            ControlTarget::Nowhere => 0,
            ControlTarget::Radio => 1,
            ControlTarget::Demod => 2,
            ControlTarget::DemodMirrorFreq => 3,
        }
    }

    open spec fn numbered(n: u32) -> Option<Self> {
        if n == 0 {
            Some(ControlTarget::Nowhere)
        } else if n == 1 {
            Some(ControlTarget::Radio)
        } else if n == 2 {
            Some(ControlTarget::Demod)
        } else if n == 3 {
            Some(ControlTarget::DemodMirrorFreq)
        } else {
            None
        }
    }

    fn to_number(self) -> (r: u32) {
        match self {
            ControlTarget::Nowhere => 0,
            ControlTarget::Radio => 1,
            ControlTarget::Demod => 2,
            ControlTarget::DemodMirrorFreq => 3,
        }
    }

    fn from_number(n: u32) -> (r: Option<Self>) {
        match n {
            0 => Some(ControlTarget::Nowhere),
            1 => Some(ControlTarget::Radio),
            2 => Some(ControlTarget::Demod),
            3 => Some(ControlTarget::DemodMirrorFreq),
            _ => None,
        }
    }

    open spec fn number_fault(n: u32) -> DecodeFault {
        DecodeFault::UnexpectedVariant { of: "ControlTarget", max: 3, number: n }
    }

    fn fault_in_number(n: u32) -> (r: DecodeFault) {
        DecodeFault::UnexpectedVariant { of: "ControlTarget", max: 3, number: n }
    }

    proof fn numbers_agree(self) {
    }
}

impl Numbered for GridCell {
    open spec fn number(self) -> u32 {
        match self {
            GridCell::Disp0Left => 0,
            GridCell::Disp0Center => 1,
            GridCell::Disp0Right => 2,
            GridCell::Disp1Left => 3,
            GridCell::Disp1Center => 4,
            GridCell::Disp1Right => 5,
            GridCell::Disp2Left => 6,
            GridCell::Disp2Center => 7,
            GridCell::Disp2Right => 8,
            GridCell::Spectrum => 9,
            GridCell::AmpAxis => 10,
            GridCell::FreqAxis => 11,
            GridCell::Waterfall => 12,
            GridCell::TimeAxis => 13,
            GridCell::Ctrl0Left => 14,
            GridCell::Ctrl0Center => 15,
            GridCell::Ctrl0Right => 16,
            GridCell::Ctrl1Left => 17,
            GridCell::Ctrl1Center => 18,
            GridCell::Ctrl1Right => 19,
        }
    }

    open spec fn numbered(n: u32) -> Option<Self> {
        if n == 0 {
            Some(GridCell::Disp0Left)
        } else if n == 1 {
            Some(GridCell::Disp0Center)
        } else if n == 2 {
            Some(GridCell::Disp0Right)
        } else if n == 3 {
            Some(GridCell::Disp1Left)
        } else if n == 4 {
            Some(GridCell::Disp1Center)
        } else if n == 5 {
            Some(GridCell::Disp1Right)
        } else if n == 6 {
            Some(GridCell::Disp2Left)
        } else if n == 7 {
            Some(GridCell::Disp2Center)
        } else if n == 8 {
            Some(GridCell::Disp2Right)
        } else if n == 9 {
            Some(GridCell::Spectrum)
        } else if n == 10 {
            Some(GridCell::AmpAxis)
        } else if n == 11 {
            Some(GridCell::FreqAxis)
        } else if n == 12 {
            Some(GridCell::Waterfall)
        } else if n == 13 {
            Some(GridCell::TimeAxis)
        } else if n == 14 {
            Some(GridCell::Ctrl0Left)
        } else if n == 15 {
            Some(GridCell::Ctrl0Center)
        } else if n == 16 {
            Some(GridCell::Ctrl0Right)
        } else if n == 17 {
            Some(GridCell::Ctrl1Left)
        } else if n == 18 {
            Some(GridCell::Ctrl1Center)
        } else if n == 19 {
            Some(GridCell::Ctrl1Right)
        } else {
            None
        }
    }

    fn to_number(self) -> (r: u32) {
        match self {
            GridCell::Disp0Left => 0,
            GridCell::Disp0Center => 1,
            GridCell::Disp0Right => 2,
            GridCell::Disp1Left => 3,
            GridCell::Disp1Center => 4,
            GridCell::Disp1Right => 5,
            GridCell::Disp2Left => 6,
            GridCell::Disp2Center => 7,
            GridCell::Disp2Right => 8,
            GridCell::Spectrum => 9,
            GridCell::AmpAxis => 10,
            GridCell::FreqAxis => 11,
            GridCell::Waterfall => 12,
            GridCell::TimeAxis => 13,
            GridCell::Ctrl0Left => 14,
            GridCell::Ctrl0Center => 15,
            GridCell::Ctrl0Right => 16,
            GridCell::Ctrl1Left => 17,
            GridCell::Ctrl1Center => 18,
            GridCell::Ctrl1Right => 19,
        }
    }

    fn from_number(n: u32) -> (r: Option<Self>) {
        match n {
            0 => Some(GridCell::Disp0Left),
            1 => Some(GridCell::Disp0Center),
            2 => Some(GridCell::Disp0Right),
            3 => Some(GridCell::Disp1Left),
            4 => Some(GridCell::Disp1Center),
            5 => Some(GridCell::Disp1Right),
            6 => Some(GridCell::Disp2Left),
            7 => Some(GridCell::Disp2Center),
            8 => Some(GridCell::Disp2Right),
            9 => Some(GridCell::Spectrum),
            10 => Some(GridCell::AmpAxis),
            11 => Some(GridCell::FreqAxis),
            12 => Some(GridCell::Waterfall),
            13 => Some(GridCell::TimeAxis),
            14 => Some(GridCell::Ctrl0Left),
            15 => Some(GridCell::Ctrl0Center),
            16 => Some(GridCell::Ctrl0Right),
            17 => Some(GridCell::Ctrl1Left),
            18 => Some(GridCell::Ctrl1Center),
            19 => Some(GridCell::Ctrl1Right),
            _ => None,
        }
    }

    open spec fn number_fault(n: u32) -> DecodeFault {
        DecodeFault::UnexpectedVariant { of: "GridCell", max: 19, number: n }
    }

    fn fault_in_number(n: u32) -> (r: DecodeFault) {
        DecodeFault::UnexpectedVariant { of: "GridCell", max: 19, number: n }
    }

    proof fn numbers_agree(self) {
    }
}

// ---------------------------------------------------------------------------
// Records: their fields in order
// ---------------------------------------------------------------------------

/// No field is too long for its length field.
#[verifier::opaque]
pub open spec fn fields_fit<F: Wire>(m: F::Model) -> bool {
    F::fits(m)
}

/// The bytes of all fields.
#[verifier::opaque]
pub open spec fn fields_encoded<F: Wire>(m: F::Model) -> Seq<u8> {
    F::encoded(m)
}

/// All fields, read from the start of `data`.
#[verifier::opaque]
pub open spec fn fields_decoded<F: Wire>(data: Seq<u8>) -> Result<(F::Model, nat), DecodeFault> {
    F::decoded(data)
}

/// Appends one field. `tail` stands for the fields behind it.
fn put_field<T: Wire>(v: &T, out: &mut Vec<u8>, Ghost(tail): Ghost<Seq<u8>>)
    ensures
        final(out)@ + tail == old(out)@ + (T::encoded(v.model()) + tail),
        T::fits(v.model()),
{
    let ghost before = out@;
    v.put(out);
    proof {
        lemma_assoc(before, T::encoded(v.model()), tail);
    }
}

proof fn lemma_assoc(a: Seq<u8>, b: Seq<u8>, c: Seq<u8>)
    ensures
        (a + b) + c == a + (b + c),
{
    assert((a + b) + c =~= a + (b + c));
}

/// The fields of [`DeviceId`], in order.
pub type DeviceIdFields = (SourceKind, String);

impl Wire for DeviceId {
    type Model = <DeviceIdFields as Wire>::Model;

    open spec fn model(&self) -> Self::Model {
        (self.kind.model(), self.id.model())
    }

    open spec fn fits(m: Self::Model) -> bool {
        fields_fit::<DeviceIdFields>(m)
    }

    open spec fn encoded(m: Self::Model) -> Seq<u8> {
        fields_encoded::<DeviceIdFields>(m)
    }

    open spec fn decoded(data: Seq<u8>) -> Result<(Self::Model, nat), DecodeFault> {
        fields_decoded::<DeviceIdFields>(data)
    }

    fn put(&self, out: &mut Vec<u8>) {
        reveal(fields_fit);
        reveal(fields_encoded);
        let ghost before = out@;
        self.kind.put(out);
        self.id.put(out);
        assert(out@ =~= before + Self::encoded(self.model()));
    }

    fn read_from(data: &[u8], from: usize) -> (r: Result<(DeviceId, usize), DecodeFault>) {
        reveal(fields_decoded);
        match DeviceIdFields::read_from(data, from) {
            Ok(((kind, id), to)) => Ok((DeviceId { kind, id }, to)),
            Err(fault) => Err(fault),
        }
    }

    proof fn round_trip(m: Self::Model, rest: Seq<u8>) {
        reveal(fields_fit);
        reveal(fields_encoded);
        reveal(fields_decoded);
        DeviceIdFields::round_trip(m, rest);
    }
}

impl Listed for DeviceId {

}

impl Optional for Mode {
    open spec fn presence_fault(found: u8) -> DecodeFault {
        DecodeFault::UnexpectedVariant {
            of: "core::option::Option<efd_station::proto::radio::Mode>",
            max: 1,
            number: found as u32,
        }
    }

    fn fault_in_presence(found: u8) -> (r: DecodeFault) {
        DecodeFault::UnexpectedVariant {
            of: "core::option::Option<efd_station::proto::radio::Mode>",
            max: 1,
            number: found as u32,
        }
    }
}

impl Optional for RecKind {
    open spec fn presence_fault(found: u8) -> DecodeFault {
        DecodeFault::UnexpectedVariant {
            of: "core::option::Option<efd_station::proto::radio::RecKind>",
            max: 1,
            number: found as u32,
        }
    }

    fn fault_in_presence(found: u8) -> (r: DecodeFault) {
        DecodeFault::UnexpectedVariant {
            of: "core::option::Option<efd_station::proto::radio::RecKind>",
            max: 1,
            number: found as u32,
        }
    }
}

impl Optional for DeviceId {
    open spec fn presence_fault(found: u8) -> DecodeFault {
        DecodeFault::UnexpectedVariant {
            of: "core::option::Option<efd_station::proto::messages::DeviceId>",
            max: 1,
            number: found as u32,
        }
    }

    fn fault_in_presence(found: u8) -> (r: DecodeFault) {
        DecodeFault::UnexpectedVariant {
            of: "core::option::Option<efd_station::proto::messages::DeviceId>",
            max: 1,
            number: found as u32,
        }
    }
}

/// The fields of [`FftBins`], in order.
pub type FftBinsFields = (u64, (u32, (F32, (Vec<F32>, u64))));

impl Wire for FftBins {
    type Model = <FftBinsFields as Wire>::Model;

    open spec fn model(&self) -> Self::Model {
        (
            self.center_freq_hz.model(),
            (
                self.span_hz.model(),
                (self.ref_level_db.model(), (self.bins.model(), self.timestamp_us.model())),
            ),
        )
    }

    open spec fn fits(m: Self::Model) -> bool {
        fields_fit::<FftBinsFields>(m)
    }

    open spec fn encoded(m: Self::Model) -> Seq<u8> {
        fields_encoded::<FftBinsFields>(m)
    }

    open spec fn decoded(data: Seq<u8>) -> Result<(Self::Model, nat), DecodeFault> {
        fields_decoded::<FftBinsFields>(data)
    }

    fn put(&self, out: &mut Vec<u8>) {
        reveal(fields_fit);
        reveal(fields_encoded);
        let ghost before = out@;
        self.center_freq_hz.put(out);
        self.span_hz.put(out);
        self.ref_level_db.put(out);
        self.bins.put(out);
        self.timestamp_us.put(out);
        assert(out@ =~= before + Self::encoded(self.model()));
    }

    fn read_from(data: &[u8], from: usize) -> (r: Result<(FftBins, usize), DecodeFault>) {
        reveal(fields_decoded);
        match FftBinsFields::read_from(data, from) {
            Ok(((center_freq_hz, (span_hz, (ref_level_db, (bins, timestamp_us)))), to)) => Ok(
                (FftBins { center_freq_hz, span_hz, ref_level_db, bins, timestamp_us }, to),
            ),
            Err(fault) => Err(fault),
        }
    }

    proof fn round_trip(m: Self::Model, rest: Seq<u8>) {
        reveal(fields_fit);
        reveal(fields_encoded);
        reveal(fields_decoded);
        FftBinsFields::round_trip(m, rest);
    }
}

/// The fields of [`AudioChunk`], in order.
pub type AudioChunkFields = (Vec<u8>, u32);

impl Wire for AudioChunk {
    type Model = <AudioChunkFields as Wire>::Model;

    open spec fn model(&self) -> Self::Model {
        (self.opus_data.model(), self.seq.model())
    }

    open spec fn fits(m: Self::Model) -> bool {
        fields_fit::<AudioChunkFields>(m)
    }

    open spec fn encoded(m: Self::Model) -> Seq<u8> {
        fields_encoded::<AudioChunkFields>(m)
    }

    open spec fn decoded(data: Seq<u8>) -> Result<(Self::Model, nat), DecodeFault> {
        fields_decoded::<AudioChunkFields>(data)
    }

    fn put(&self, out: &mut Vec<u8>) {
        reveal(fields_fit);
        reveal(fields_encoded);
        let ghost before = out@;
        self.opus_data.put(out);
        self.seq.put(out);
        assert(out@ =~= before + Self::encoded(self.model()));
    }

    fn read_from(data: &[u8], from: usize) -> (r: Result<(AudioChunk, usize), DecodeFault>) {
        reveal(fields_decoded);
        match AudioChunkFields::read_from(data, from) {
            Ok(((opus_data, seq), to)) => Ok((AudioChunk { opus_data, seq }, to)),
            Err(fault) => Err(fault),
        }
    }

    proof fn round_trip(m: Self::Model, rest: Seq<u8>) {
        reveal(fields_fit);
        reveal(fields_encoded);
        reveal(fields_decoded);
        AudioChunkFields::round_trip(m, rest);
    }
}

/// The fields of [`RadioState`], in order.
pub type RadioStateFields = (
    (Vfo, (u64, (Mode, (String, Option<F64>)))),
    (
        (Option<u8>, (bool, (bool, (AgcMode, u8)))),
        ((bool, (bool, (F32, (bool, i32)))), (bool, (i32, (bool, (i32, Option<F32>))))),
    ),
);

impl Wire for RadioState {
    type Model = <RadioStateFields as Wire>::Model;

    open spec fn model(&self) -> Self::Model {
        (
            (
                self.vfo.model(),
                (
                    self.freq_hz.model(),
                    (self.mode.model(), (self.filter_bw.model(), self.filter_bw_hz.model())),
                ),
            ),
            (
                (
                    self.filter_idx.model(),
                    (
                        self.att.model(),
                        (self.lp.model(), (self.agc.model(), self.agc_threshold.model())),
                    ),
                ),
                (
                    (
                        self.nr.model(),
                        (
                            self.nb.model(),
                            (self.s_meter_db.model(), (self.tx.model(), self.rit_hz.model())),
                        ),
                    ),
                    (
                        self.rit_on.model(),
                        (
                            self.xit_hz.model(),
                            (self.xit_on.model(), (self.if_offset_hz.model(), self.snr_db.model())),
                        ),
                    ),
                ),
            ),
        )
    }

    open spec fn fits(m: Self::Model) -> bool {
        fields_fit::<RadioStateFields>(m)
    }

    open spec fn encoded(m: Self::Model) -> Seq<u8> {
        fields_encoded::<RadioStateFields>(m)
    }

    open spec fn decoded(data: Seq<u8>) -> Result<(Self::Model, nat), DecodeFault> {
        fields_decoded::<RadioStateFields>(data)
    }

    fn put(&self, out: &mut Vec<u8>) {
        reveal(fields_fit);
        reveal(fields_encoded);
        let ghost from_filter_bw_hz = Option::<F64>::encoded(self.filter_bw_hz.model());
        let ghost from_filter_bw = String::encoded(self.filter_bw.model()) + from_filter_bw_hz;
        let ghost from_mode = Mode::encoded(self.mode.model()) + from_filter_bw;
        let ghost from_freq_hz = u64::encoded(self.freq_hz.model()) + from_mode;
        let ghost part_1 = Vfo::encoded(self.vfo.model()) + from_freq_hz;
        let ghost from_agc_threshold = u8::encoded(self.agc_threshold.model());
        let ghost from_agc = AgcMode::encoded(self.agc.model()) + from_agc_threshold;
        let ghost from_lp = bool::encoded(self.lp.model()) + from_agc;
        let ghost from_att = bool::encoded(self.att.model()) + from_lp;
        let ghost part_2 = Option::<u8>::encoded(self.filter_idx.model()) + from_att;
        let ghost from_rit_hz = i32::encoded(self.rit_hz.model());
        let ghost from_tx = bool::encoded(self.tx.model()) + from_rit_hz;
        let ghost from_s_meter_db = F32::encoded(self.s_meter_db.model()) + from_tx;
        let ghost from_nb = bool::encoded(self.nb.model()) + from_s_meter_db;
        let ghost part_3 = bool::encoded(self.nr.model()) + from_nb;
        let ghost from_snr_db = Option::<F32>::encoded(self.snr_db.model());
        let ghost from_if_offset_hz = i32::encoded(self.if_offset_hz.model()) + from_snr_db;
        let ghost from_xit_on = bool::encoded(self.xit_on.model()) + from_if_offset_hz;
        let ghost from_xit_hz = i32::encoded(self.xit_hz.model()) + from_xit_on;
        let ghost part_4 = bool::encoded(self.rit_on.model()) + from_xit_hz;
        let ghost after_3 = part_4;
        let ghost after_2 = part_3 + after_3;
        let ghost after_1 = part_2 + after_2;
        let ghost at_1 = out@;
        put_field(&self.vfo, out, Ghost(from_freq_hz));
        put_field(&self.freq_hz, out, Ghost(from_mode));
        put_field(&self.mode, out, Ghost(from_filter_bw));
        put_field(&self.filter_bw, out, Ghost(from_filter_bw_hz));
        self.filter_bw_hz.put(out);
        proof {
            lemma_assoc(at_1, part_1, after_1);
        }
        let ghost at_2 = out@;
        put_field(&self.filter_idx, out, Ghost(from_att));
        put_field(&self.att, out, Ghost(from_lp));
        put_field(&self.lp, out, Ghost(from_agc));
        put_field(&self.agc, out, Ghost(from_agc_threshold));
        self.agc_threshold.put(out);
        proof {
            lemma_assoc(at_2, part_2, after_2);
        }
        let ghost at_3 = out@;
        put_field(&self.nr, out, Ghost(from_nb));
        put_field(&self.nb, out, Ghost(from_s_meter_db));
        put_field(&self.s_meter_db, out, Ghost(from_tx));
        put_field(&self.tx, out, Ghost(from_rit_hz));
        self.rit_hz.put(out);
        proof {
            lemma_assoc(at_3, part_3, after_3);
        }
        put_field(&self.rit_on, out, Ghost(from_xit_hz));
        put_field(&self.xit_hz, out, Ghost(from_xit_on));
        put_field(&self.xit_on, out, Ghost(from_if_offset_hz));
        put_field(&self.if_offset_hz, out, Ghost(from_snr_db));
        self.snr_db.put(out);
    }

    fn read_from(data: &[u8], from: usize) -> (r: Result<(RadioState, usize), DecodeFault>) {
        reveal(fields_decoded);
        match RadioStateFields::read_from(data, from) {
            Ok(
                (
                    (
                        (vfo, (freq_hz, (mode, (filter_bw, filter_bw_hz)))),
                        (
                            (filter_idx, (att, (lp, (agc, agc_threshold)))),
                            (
                                (nr, (nb, (s_meter_db, (tx, rit_hz)))),
                                (rit_on, (xit_hz, (xit_on, (if_offset_hz, snr_db)))),
                            ),
                        ),
                    ),
                    to,
                ),
            ) => Ok(
                (
                    RadioState {
                        vfo,
                        freq_hz,
                        mode,
                        filter_bw,
                        filter_bw_hz,
                        filter_idx,
                        att,
                        lp,
                        agc,
                        agc_threshold,
                        nr,
                        nb,
                        s_meter_db,
                        tx,
                        rit_hz,
                        rit_on,
                        xit_hz,
                        xit_on,
                        if_offset_hz,
                        snr_db,
                    },
                    to,
                ),
            ),
            Err(fault) => Err(fault),
        }
    }

    proof fn round_trip(m: Self::Model, rest: Seq<u8>) {
        reveal(fields_fit);
        reveal(fields_encoded);
        reveal(fields_decoded);
        RadioStateFields::round_trip(m, rest);
    }
}

/// The fields of [`ErrorMsg`], in order.
pub type ErrorMsgFields = (u16, String);

impl Wire for ErrorMsg {
    type Model = <ErrorMsgFields as Wire>::Model;

    open spec fn model(&self) -> Self::Model {
        (self.code.model(), self.message.model())
    }

    open spec fn fits(m: Self::Model) -> bool {
        fields_fit::<ErrorMsgFields>(m)
    }

    open spec fn encoded(m: Self::Model) -> Seq<u8> {
        fields_encoded::<ErrorMsgFields>(m)
    }

    open spec fn decoded(data: Seq<u8>) -> Result<(Self::Model, nat), DecodeFault> {
        fields_decoded::<ErrorMsgFields>(data)
    }

    fn put(&self, out: &mut Vec<u8>) {
        reveal(fields_fit);
        reveal(fields_encoded);
        let ghost before = out@;
        self.code.put(out);
        self.message.put(out);
        assert(out@ =~= before + Self::encoded(self.model()));
    }

    fn read_from(data: &[u8], from: usize) -> (r: Result<(ErrorMsg, usize), DecodeFault>) {
        reveal(fields_decoded);
        match ErrorMsgFields::read_from(data, from) {
            Ok(((code, message), to)) => Ok((ErrorMsg { code, message }, to)),
            Err(fault) => Err(fault),
        }
    }

    proof fn round_trip(m: Self::Model, rest: Seq<u8>) {
        reveal(fields_fit);
        reveal(fields_encoded);
        reveal(fields_decoded);
        ErrorMsgFields::round_trip(m, rest);
    }
}

/// The fields of [`Capabilities`], in order.
pub type CapabilitiesFields = (
    (SourceKind, (bool, (bool, (bool, bool)))),
    (Vec<Mode>, (Vec<DecoderKind>, (bool, ControlTarget))),
);

impl Wire for Capabilities {
    type Model = <CapabilitiesFields as Wire>::Model;

    open spec fn model(&self) -> Self::Model {
        (
            (
                self.source.model(),
                (
                    self.has_iq.model(),
                    (
                        self.has_tx.model(),
                        (self.has_hardware_cat.model(), self.has_usb_audio.model()),
                    ),
                ),
            ),
            (
                self.supported_demod_modes.model(),
                (
                    self.supported_decoders.model(),
                    (self.drm_flip_spectrum.model(), self.control_target.model()),
                ),
            ),
        )
    }

    open spec fn fits(m: Self::Model) -> bool {
        fields_fit::<CapabilitiesFields>(m)
    }

    open spec fn encoded(m: Self::Model) -> Seq<u8> {
        fields_encoded::<CapabilitiesFields>(m)
    }

    open spec fn decoded(data: Seq<u8>) -> Result<(Self::Model, nat), DecodeFault> {
        fields_decoded::<CapabilitiesFields>(data)
    }

    fn put(&self, out: &mut Vec<u8>) {
        reveal(fields_fit);
        reveal(fields_encoded);
        let ghost from_has_usb_audio = bool::encoded(self.has_usb_audio.model());
        let ghost from_has_hardware_cat = bool::encoded(self.has_hardware_cat.model())
            + from_has_usb_audio;
        let ghost from_has_tx = bool::encoded(self.has_tx.model()) + from_has_hardware_cat;
        let ghost from_has_iq = bool::encoded(self.has_iq.model()) + from_has_tx;
        let ghost part_1 = SourceKind::encoded(self.source.model()) + from_has_iq;
        let ghost from_control_target = ControlTarget::encoded(self.control_target.model());
        let ghost from_drm_flip_spectrum = bool::encoded(self.drm_flip_spectrum.model())
            + from_control_target;
        let ghost from_supported_decoders =
            Vec::<DecoderKind>::encoded(self.supported_decoders.model())
            + from_drm_flip_spectrum;
        let ghost part_2 = Vec::<Mode>::encoded(self.supported_demod_modes.model())
            + from_supported_decoders;
        let ghost after_1 = part_2;
        let ghost at_1 = out@;
        put_field(&self.source, out, Ghost(from_has_iq));
        put_field(&self.has_iq, out, Ghost(from_has_tx));
        put_field(&self.has_tx, out, Ghost(from_has_hardware_cat));
        put_field(&self.has_hardware_cat, out, Ghost(from_has_usb_audio));
        self.has_usb_audio.put(out);
        proof {
            lemma_assoc(at_1, part_1, after_1);
        }
        put_field(&self.supported_demod_modes, out, Ghost(from_supported_decoders));
        put_field(&self.supported_decoders, out, Ghost(from_drm_flip_spectrum));
        put_field(&self.drm_flip_spectrum, out, Ghost(from_control_target));
        self.control_target.put(out);
    }

    fn read_from(data: &[u8], from: usize) -> (r: Result<(Capabilities, usize), DecodeFault>) {
        reveal(fields_decoded);
        match CapabilitiesFields::read_from(data, from) {
            Ok(
                (
                    (
                        (source, (has_iq, (has_tx, (has_hardware_cat, has_usb_audio)))),
                        (
                            supported_demod_modes,
                            (supported_decoders, (drm_flip_spectrum, control_target)),
                        ),
                    ),
                    to,
                ),
            ) => Ok(
                (
                    Capabilities {
                        source,
                        has_iq,
                        has_tx,
                        has_hardware_cat,
                        has_usb_audio,
                        supported_demod_modes,
                        supported_decoders,
                        drm_flip_spectrum,
                        control_target,
                    },
                    to,
                ),
            ),
            Err(fault) => Err(fault),
        }
    }

    proof fn round_trip(m: Self::Model, rest: Seq<u8>) {
        reveal(fields_fit);
        reveal(fields_encoded);
        reveal(fields_decoded);
        CapabilitiesFields::round_trip(m, rest);
    }
}

/// The fields of [`DrmStatus`], in order.
pub type DrmStatusFields = (
    (bool, (bool, (bool, (bool, bool)))),
    (
        (bool, (Option<F32>, (Option<F32>, (Option<F32>, Option<F32>)))),
        (
            (Option<F32>, (Option<F32>, (Option<F32>, (Option<F32>, Option<String>)))),
            ((Option<u32>, (Option<String>, (Option<String>, (Option<u32>, u8)))), (u8, u64)),
        ),
    ),
);

impl Wire for DrmStatus {
    type Model = <DrmStatusFields as Wire>::Model;

    open spec fn model(&self) -> Self::Model {
        (
            (
                self.io_ok.model(),
                (
                    self.time_ok.model(),
                    (self.frame_ok.model(), (self.fac_ok.model(), self.sdc_ok.model())),
                ),
            ),
            (
                (
                    self.msc_ok.model(),
                    (
                        self.if_level_db.model(),
                        (self.snr_db.model(), (self.wmer_db.model(), self.mer_db.model())),
                    ),
                ),
                (
                    (
                        self.dc_freq_hz.model(),
                        (
                            self.sample_offset_hz.model(),
                            (
                                self.doppler_hz.model(),
                                (self.delay_ms.model(), self.robustness_mode.model()),
                            ),
                        ),
                    ),
                    (
                        (
                            self.bandwidth_khz.model(),
                            (
                                self.sdc_mode.model(),
                                (
                                    self.msc_mode.model(),
                                    (self.interleaver_s.model(), self.num_audio_services.model()),
                                ),
                            ),
                        ),
                        (self.num_data_services.model(), self.timestamp_us.model()),
                    ),
                ),
            ),
        )
    }

    open spec fn fits(m: Self::Model) -> bool {
        fields_fit::<DrmStatusFields>(m)
    }

    open spec fn encoded(m: Self::Model) -> Seq<u8> {
        fields_encoded::<DrmStatusFields>(m)
    }

    open spec fn decoded(data: Seq<u8>) -> Result<(Self::Model, nat), DecodeFault> {
        fields_decoded::<DrmStatusFields>(data)
    }

    fn put(&self, out: &mut Vec<u8>) {
        reveal(fields_fit);
        reveal(fields_encoded);
        let ghost from_sdc_ok = bool::encoded(self.sdc_ok.model());
        let ghost from_fac_ok = bool::encoded(self.fac_ok.model()) + from_sdc_ok;
        let ghost from_frame_ok = bool::encoded(self.frame_ok.model()) + from_fac_ok;
        let ghost from_time_ok = bool::encoded(self.time_ok.model()) + from_frame_ok;
        let ghost part_1 = bool::encoded(self.io_ok.model()) + from_time_ok;
        let ghost from_mer_db = Option::<F32>::encoded(self.mer_db.model());
        let ghost from_wmer_db = Option::<F32>::encoded(self.wmer_db.model()) + from_mer_db;
        let ghost from_snr_db = Option::<F32>::encoded(self.snr_db.model()) + from_wmer_db;
        let ghost from_if_level_db = Option::<F32>::encoded(self.if_level_db.model()) + from_snr_db;
        let ghost part_2 = bool::encoded(self.msc_ok.model()) + from_if_level_db;
        let ghost from_robustness_mode = Option::<String>::encoded(self.robustness_mode.model());
        let ghost from_delay_ms = Option::<F32>::encoded(self.delay_ms.model())
            + from_robustness_mode;
        let ghost from_doppler_hz = Option::<F32>::encoded(self.doppler_hz.model()) + from_delay_ms;
        let ghost from_sample_offset_hz = Option::<F32>::encoded(self.sample_offset_hz.model())
            + from_doppler_hz;
        let ghost part_3 = Option::<F32>::encoded(self.dc_freq_hz.model()) + from_sample_offset_hz;
        let ghost from_num_audio_services = u8::encoded(self.num_audio_services.model());
        let ghost from_interleaver_s = Option::<u32>::encoded(self.interleaver_s.model())
            + from_num_audio_services;
        let ghost from_msc_mode = Option::<String>::encoded(self.msc_mode.model())
            + from_interleaver_s;
        let ghost from_sdc_mode = Option::<String>::encoded(self.sdc_mode.model()) + from_msc_mode;
        let ghost part_4 = Option::<u32>::encoded(self.bandwidth_khz.model()) + from_sdc_mode;
        let ghost from_timestamp_us = u64::encoded(self.timestamp_us.model());
        let ghost part_5 = u8::encoded(self.num_data_services.model()) + from_timestamp_us;
        let ghost after_4 = part_5;
        let ghost after_3 = part_4 + after_4;
        let ghost after_2 = part_3 + after_3;
        let ghost after_1 = part_2 + after_2;
        let ghost at_1 = out@;
        put_field(&self.io_ok, out, Ghost(from_time_ok));
        put_field(&self.time_ok, out, Ghost(from_frame_ok));
        put_field(&self.frame_ok, out, Ghost(from_fac_ok));
        put_field(&self.fac_ok, out, Ghost(from_sdc_ok));
        self.sdc_ok.put(out);
        proof {
            lemma_assoc(at_1, part_1, after_1);
        }
        let ghost at_2 = out@;
        put_field(&self.msc_ok, out, Ghost(from_if_level_db));
        put_field(&self.if_level_db, out, Ghost(from_snr_db));
        put_field(&self.snr_db, out, Ghost(from_wmer_db));
        put_field(&self.wmer_db, out, Ghost(from_mer_db));
        self.mer_db.put(out);
        proof {
            lemma_assoc(at_2, part_2, after_2);
        }
        let ghost at_3 = out@;
        put_field(&self.dc_freq_hz, out, Ghost(from_sample_offset_hz));
        put_field(&self.sample_offset_hz, out, Ghost(from_doppler_hz));
        put_field(&self.doppler_hz, out, Ghost(from_delay_ms));
        put_field(&self.delay_ms, out, Ghost(from_robustness_mode));
        self.robustness_mode.put(out);
        proof {
            lemma_assoc(at_3, part_3, after_3);
        }
        let ghost at_4 = out@;
        put_field(&self.bandwidth_khz, out, Ghost(from_sdc_mode));
        put_field(&self.sdc_mode, out, Ghost(from_msc_mode));
        put_field(&self.msc_mode, out, Ghost(from_interleaver_s));
        put_field(&self.interleaver_s, out, Ghost(from_num_audio_services));
        self.num_audio_services.put(out);
        proof {
            lemma_assoc(at_4, part_4, after_4);
        }
        put_field(&self.num_data_services, out, Ghost(from_timestamp_us));
        self.timestamp_us.put(out);
    }

    fn read_from(data: &[u8], from: usize) -> (r: Result<(DrmStatus, usize), DecodeFault>) {
        reveal(fields_decoded);
        match DrmStatusFields::read_from(data, from) {
            Ok(
                (
                    (
                        (io_ok, (time_ok, (frame_ok, (fac_ok, sdc_ok)))),
                        (
                            (msc_ok, (if_level_db, (snr_db, (wmer_db, mer_db)))),
                            (
                                (
                                    dc_freq_hz,
                                    (sample_offset_hz, (doppler_hz, (delay_ms, robustness_mode))),
                                ),
                                (
                                    (
                                        bandwidth_khz,
                                        (sdc_mode, (msc_mode, (interleaver_s, num_audio_services))),
                                    ),
                                    (num_data_services, timestamp_us),
                                ),
                            ),
                        ),
                    ),
                    to,
                ),
            ) => Ok(
                (
                    DrmStatus {
                        io_ok,
                        time_ok,
                        frame_ok,
                        fac_ok,
                        sdc_ok,
                        msc_ok,
                        if_level_db,
                        snr_db,
                        wmer_db,
                        mer_db,
                        dc_freq_hz,
                        sample_offset_hz,
                        doppler_hz,
                        delay_ms,
                        robustness_mode,
                        bandwidth_khz,
                        sdc_mode,
                        msc_mode,
                        interleaver_s,
                        num_audio_services,
                        num_data_services,
                        timestamp_us,
                    },
                    to,
                ),
            ),
            Err(fault) => Err(fault),
        }
    }

    proof fn round_trip(m: Self::Model, rest: Seq<u8>) {
        reveal(fields_fit);
        reveal(fields_encoded);
        reveal(fields_decoded);
        DrmStatusFields::round_trip(m, rest);
    }
}

/// The fields of [`DeviceList`], in order.
pub type DeviceListFields = (Vec<DeviceId>, (Vec<DeviceId>, Option<DeviceId>));

impl Wire for DeviceList {
    type Model = <DeviceListFields as Wire>::Model;

    open spec fn model(&self) -> Self::Model {
        (self.audio_devices.model(), (self.iq_devices.model(), self.active.model()))
    }

    open spec fn fits(m: Self::Model) -> bool {
        fields_fit::<DeviceListFields>(m)
    }

    open spec fn encoded(m: Self::Model) -> Seq<u8> {
        fields_encoded::<DeviceListFields>(m)
    }

    open spec fn decoded(data: Seq<u8>) -> Result<(Self::Model, nat), DecodeFault> {
        fields_decoded::<DeviceListFields>(data)
    }

    fn put(&self, out: &mut Vec<u8>) {
        reveal(fields_fit);
        reveal(fields_encoded);
        let ghost before = out@;
        self.audio_devices.put(out);
        self.iq_devices.put(out);
        self.active.put(out);
        assert(out@ =~= before + Self::encoded(self.model()));
    }

    fn read_from(data: &[u8], from: usize) -> (r: Result<(DeviceList, usize), DecodeFault>) {
        reveal(fields_decoded);
        match DeviceListFields::read_from(data, from) {
            Ok(((audio_devices, (iq_devices, active)), to)) => Ok(
                (DeviceList { audio_devices, iq_devices, active }, to),
            ),
            Err(fault) => Err(fault),
        }
    }

    proof fn round_trip(m: Self::Model, rest: Seq<u8>) {
        reveal(fields_fit);
        reveal(fields_encoded);
        reveal(fields_decoded);
        DeviceListFields::round_trip(m, rest);
    }
}

/// The fields of [`DecodedText`], in order.
pub type DecodedTextFields = (DecoderKind, (String, u64));

impl Wire for DecodedText {
    type Model = <DecodedTextFields as Wire>::Model;

    open spec fn model(&self) -> Self::Model {
        (self.decoder.model(), (self.text.model(), self.timestamp_us.model()))
    }

    open spec fn fits(m: Self::Model) -> bool {
        fields_fit::<DecodedTextFields>(m)
    }

    open spec fn encoded(m: Self::Model) -> Seq<u8> {
        fields_encoded::<DecodedTextFields>(m)
    }

    open spec fn decoded(data: Seq<u8>) -> Result<(Self::Model, nat), DecodeFault> {
        fields_decoded::<DecodedTextFields>(data)
    }

    fn put(&self, out: &mut Vec<u8>) {
        reveal(fields_fit);
        reveal(fields_encoded);
        let ghost before = out@;
        self.decoder.put(out);
        self.text.put(out);
        self.timestamp_us.put(out);
        assert(out@ =~= before + Self::encoded(self.model()));
    }

    fn read_from(data: &[u8], from: usize) -> (r: Result<(DecodedText, usize), DecodeFault>) {
        reveal(fields_decoded);
        match DecodedTextFields::read_from(data, from) {
            Ok(((decoder, (text, timestamp_us)), to)) => Ok(
                (DecodedText { decoder, text, timestamp_us }, to),
            ),
            Err(fault) => Err(fault),
        }
    }

    proof fn round_trip(m: Self::Model, rest: Seq<u8>) {
        reveal(fields_fit);
        reveal(fields_encoded);
        reveal(fields_decoded);
        DecodedTextFields::round_trip(m, rest);
    }
}

/// The fields of [`RecordingStatus`], in order.
pub type RecordingStatusFields = (bool, (Option<RecKind>, (Option<String>, (u64, Option<F64>))));

impl Wire for RecordingStatus {
    type Model = <RecordingStatusFields as Wire>::Model;

    open spec fn model(&self) -> Self::Model {
        (
            self.active.model(),
            (
                self.kind.model(),
                (self.path.model(), (self.bytes_written.model(), self.duration_s.model())),
            ),
        )
    }

    open spec fn fits(m: Self::Model) -> bool {
        fields_fit::<RecordingStatusFields>(m)
    }

    open spec fn encoded(m: Self::Model) -> Seq<u8> {
        fields_encoded::<RecordingStatusFields>(m)
    }

    open spec fn decoded(data: Seq<u8>) -> Result<(Self::Model, nat), DecodeFault> {
        fields_decoded::<RecordingStatusFields>(data)
    }

    fn put(&self, out: &mut Vec<u8>) {
        reveal(fields_fit);
        reveal(fields_encoded);
        let ghost before = out@;
        self.active.put(out);
        self.kind.put(out);
        self.path.put(out);
        self.bytes_written.put(out);
        self.duration_s.put(out);
        assert(out@ =~= before + Self::encoded(self.model()));
    }

    fn read_from(data: &[u8], from: usize) -> (r: Result<(RecordingStatus, usize), DecodeFault>) {
        reveal(fields_decoded);
        match RecordingStatusFields::read_from(data, from) {
            Ok(((active, (kind, (path, (bytes_written, duration_s)))), to)) => Ok(
                (RecordingStatus { active, kind, path, bytes_written, duration_s }, to),
            ),
            Err(fault) => Err(fault),
        }
    }

    proof fn round_trip(m: Self::Model, rest: Seq<u8>) {
        reveal(fields_fit);
        reveal(fields_encoded);
        reveal(fields_decoded);
        RecordingStatusFields::round_trip(m, rest);
    }
}

/// The fields of [`StateSnapshot`], in order.
pub type StateSnapshotFields = (
    (Option<DeviceId>, (u64, (Mode, (Option<F64>, i32)))),
    ((i32, (i32, (Vec<DecoderKind>, (bool, bool)))), (bool, (bool, bool))),
);

impl Wire for StateSnapshot {
    type Model = <StateSnapshotFields as Wire>::Model;

    open spec fn model(&self) -> Self::Model {
        (
            (
                self.active_device.model(),
                (
                    self.freq_hz.model(),
                    (self.mode.model(), (self.filter_bw_hz.model(), self.rit_hz.model())),
                ),
            ),
            (
                (
                    self.xit_hz.model(),
                    (
                        self.if_offset_hz.model(),
                        (self.enabled_decoders.model(), (self.nb_on.model(), self.dnb_on.model())),
                    ),
                ),
                (self.dnr_on.model(), (self.dnf_on.model(), self.apf_on.model())),
            ),
        )
    }

    open spec fn fits(m: Self::Model) -> bool {
        fields_fit::<StateSnapshotFields>(m)
    }

    open spec fn encoded(m: Self::Model) -> Seq<u8> {
        fields_encoded::<StateSnapshotFields>(m)
    }

    open spec fn decoded(data: Seq<u8>) -> Result<(Self::Model, nat), DecodeFault> {
        fields_decoded::<StateSnapshotFields>(data)
    }

    fn put(&self, out: &mut Vec<u8>) {
        reveal(fields_fit);
        reveal(fields_encoded);
        let ghost from_rit_hz = i32::encoded(self.rit_hz.model());
        let ghost from_filter_bw_hz = Option::<F64>::encoded(self.filter_bw_hz.model())
            + from_rit_hz;
        let ghost from_mode = Mode::encoded(self.mode.model()) + from_filter_bw_hz;
        let ghost from_freq_hz = u64::encoded(self.freq_hz.model()) + from_mode;
        let ghost part_1 = Option::<DeviceId>::encoded(self.active_device.model()) + from_freq_hz;
        let ghost from_dnb_on = bool::encoded(self.dnb_on.model());
        let ghost from_nb_on = bool::encoded(self.nb_on.model()) + from_dnb_on;
        let ghost from_enabled_decoders = Vec::<DecoderKind>::encoded(self.enabled_decoders.model())
            + from_nb_on;
        let ghost from_if_offset_hz = i32::encoded(self.if_offset_hz.model())
            + from_enabled_decoders;
        let ghost part_2 = i32::encoded(self.xit_hz.model()) + from_if_offset_hz;
        let ghost from_apf_on = bool::encoded(self.apf_on.model());
        let ghost from_dnf_on = bool::encoded(self.dnf_on.model()) + from_apf_on;
        let ghost part_3 = bool::encoded(self.dnr_on.model()) + from_dnf_on;
        let ghost after_2 = part_3;
        let ghost after_1 = part_2 + after_2;
        let ghost at_1 = out@;
        put_field(&self.active_device, out, Ghost(from_freq_hz));
        put_field(&self.freq_hz, out, Ghost(from_mode));
        put_field(&self.mode, out, Ghost(from_filter_bw_hz));
        put_field(&self.filter_bw_hz, out, Ghost(from_rit_hz));
        self.rit_hz.put(out);
        proof {
            lemma_assoc(at_1, part_1, after_1);
        }
        let ghost at_2 = out@;
        put_field(&self.xit_hz, out, Ghost(from_if_offset_hz));
        put_field(&self.if_offset_hz, out, Ghost(from_enabled_decoders));
        put_field(&self.enabled_decoders, out, Ghost(from_nb_on));
        put_field(&self.nb_on, out, Ghost(from_dnb_on));
        self.dnb_on.put(out);
        proof {
            lemma_assoc(at_2, part_2, after_2);
        }
        put_field(&self.dnr_on, out, Ghost(from_dnf_on));
        put_field(&self.dnf_on, out, Ghost(from_apf_on));
        self.apf_on.put(out);
    }

    fn read_from(data: &[u8], from: usize) -> (r: Result<(StateSnapshot, usize), DecodeFault>) {
        reveal(fields_decoded);
        match StateSnapshotFields::read_from(data, from) {
            Ok(
                (
                    (
                        (active_device, (freq_hz, (mode, (filter_bw_hz, rit_hz)))),
                        (
                            (xit_hz, (if_offset_hz, (enabled_decoders, (nb_on, dnb_on)))),
                            (dnr_on, (dnf_on, apf_on)),
                        ),
                    ),
                    to,
                ),
            ) => Ok(
                (
                    StateSnapshot {
                        active_device,
                        freq_hz,
                        mode,
                        filter_bw_hz,
                        rit_hz,
                        xit_hz,
                        if_offset_hz,
                        enabled_decoders,
                        nb_on,
                        dnb_on,
                        dnr_on,
                        dnf_on,
                        apf_on,
                    },
                    to,
                ),
            ),
            Err(fault) => Err(fault),
        }
    }

    proof fn round_trip(m: Self::Model, rest: Seq<u8>) {
        reveal(fields_fit);
        reveal(fields_encoded);
        reveal(fields_decoded);
        StateSnapshotFields::round_trip(m, rest);
    }
}

/// The fields of [`CatCommand`], in order.
pub type CatCommandFields = String;

impl Wire for CatCommand {
    type Model = <CatCommandFields as Wire>::Model;

    open spec fn model(&self) -> Self::Model {
        self.raw.model()
    }

    open spec fn fits(m: Self::Model) -> bool {
        fields_fit::<CatCommandFields>(m)
    }

    open spec fn encoded(m: Self::Model) -> Seq<u8> {
        fields_encoded::<CatCommandFields>(m)
    }

    open spec fn decoded(data: Seq<u8>) -> Result<(Self::Model, nat), DecodeFault> {
        fields_decoded::<CatCommandFields>(data)
    }

    fn put(&self, out: &mut Vec<u8>) {
        reveal(fields_fit);
        reveal(fields_encoded);
        let ghost before = out@;
        self.raw.put(out);
        assert(out@ =~= before + Self::encoded(self.model()));
    }

    fn read_from(data: &[u8], from: usize) -> (r: Result<(CatCommand, usize), DecodeFault>) {
        reveal(fields_decoded);
        match CatCommandFields::read_from(data, from) {
            Ok((raw, to)) => Ok((CatCommand { raw }, to)),
            Err(fault) => Err(fault),
        }
    }

    proof fn round_trip(m: Self::Model, rest: Seq<u8>) {
        reveal(fields_fit);
        reveal(fields_encoded);
        reveal(fields_decoded);
        CatCommandFields::round_trip(m, rest);
    }
}

/// The fields of [`TxAudio`], in order.
pub type TxAudioFields = (Vec<u8>, u32);

impl Wire for TxAudio {
    type Model = <TxAudioFields as Wire>::Model;

    open spec fn model(&self) -> Self::Model {
        (self.opus_data.model(), self.seq.model())
    }

    open spec fn fits(m: Self::Model) -> bool {
        fields_fit::<TxAudioFields>(m)
    }

    open spec fn encoded(m: Self::Model) -> Seq<u8> {
        fields_encoded::<TxAudioFields>(m)
    }

    open spec fn decoded(data: Seq<u8>) -> Result<(Self::Model, nat), DecodeFault> {
        fields_decoded::<TxAudioFields>(data)
    }

    fn put(&self, out: &mut Vec<u8>) {
        reveal(fields_fit);
        reveal(fields_encoded);
        let ghost before = out@;
        self.opus_data.put(out);
        self.seq.put(out);
        assert(out@ =~= before + Self::encoded(self.model()));
    }

    fn read_from(data: &[u8], from: usize) -> (r: Result<(TxAudio, usize), DecodeFault>) {
        reveal(fields_decoded);
        match TxAudioFields::read_from(data, from) {
            Ok(((opus_data, seq), to)) => Ok((TxAudio { opus_data, seq }, to)),
            Err(fault) => Err(fault),
        }
    }

    proof fn round_trip(m: Self::Model, rest: Seq<u8>) {
        reveal(fields_fit);
        reveal(fields_encoded);
        reveal(fields_decoded);
        TxAudioFields::round_trip(m, rest);
    }
}

/// The fields of [`Ptt`], in order.
pub type PttFields = bool;

impl Wire for Ptt {
    type Model = <PttFields as Wire>::Model;

    open spec fn model(&self) -> Self::Model {
        self.on.model()
    }

    open spec fn fits(m: Self::Model) -> bool {
        fields_fit::<PttFields>(m)
    }

    open spec fn encoded(m: Self::Model) -> Seq<u8> {
        fields_encoded::<PttFields>(m)
    }

    open spec fn decoded(data: Seq<u8>) -> Result<(Self::Model, nat), DecodeFault> {
        fields_decoded::<PttFields>(data)
    }

    fn put(&self, out: &mut Vec<u8>) {
        reveal(fields_fit);
        reveal(fields_encoded);
        let ghost before = out@;
        self.on.put(out);
        assert(out@ =~= before + Self::encoded(self.model()));
    }

    fn read_from(data: &[u8], from: usize) -> (r: Result<(Ptt, usize), DecodeFault>) {
        reveal(fields_decoded);
        match PttFields::read_from(data, from) {
            Ok((on, to)) => Ok((Ptt { on }, to)),
            Err(fault) => Err(fault),
        }
    }

    proof fn round_trip(m: Self::Model, rest: Seq<u8>) {
        reveal(fields_fit);
        reveal(fields_encoded);
        reveal(fields_decoded);
        PttFields::round_trip(m, rest);
    }
}

/// The fields of [`StartRecording`], in order.
pub type StartRecordingFields = (RecKind, Option<String>);

impl Wire for StartRecording {
    type Model = <StartRecordingFields as Wire>::Model;

    open spec fn model(&self) -> Self::Model {
        (self.kind.model(), self.path.model())
    }

    open spec fn fits(m: Self::Model) -> bool {
        fields_fit::<StartRecordingFields>(m)
    }

    open spec fn encoded(m: Self::Model) -> Seq<u8> {
        fields_encoded::<StartRecordingFields>(m)
    }

    open spec fn decoded(data: Seq<u8>) -> Result<(Self::Model, nat), DecodeFault> {
        fields_decoded::<StartRecordingFields>(data)
    }

    fn put(&self, out: &mut Vec<u8>) {
        reveal(fields_fit);
        reveal(fields_encoded);
        let ghost before = out@;
        self.kind.put(out);
        self.path.put(out);
        assert(out@ =~= before + Self::encoded(self.model()));
    }

    fn read_from(data: &[u8], from: usize) -> (r: Result<(StartRecording, usize), DecodeFault>) {
        reveal(fields_decoded);
        match StartRecordingFields::read_from(data, from) {
            Ok(((kind, path), to)) => Ok((StartRecording { kind, path }, to)),
            Err(fault) => Err(fault),
        }
    }

    proof fn round_trip(m: Self::Model, rest: Seq<u8>) {
        reveal(fields_fit);
        reveal(fields_encoded);
        reveal(fields_decoded);
        StartRecordingFields::round_trip(m, rest);
    }
}

// ---------------------------------------------------------------------------
// Messages: the variant's number, then its content
// ---------------------------------------------------------------------------

/// The content behind a variant's number, which takes `k` bytes.
pub open spec fn content<T: Wire, M>(data: Seq<u8>, k: nat, wrap: spec_fn(T::Model) -> M) -> Result<
    (M, nat),
    DecodeFault,
> {
    match T::decoded(data.skip(k as int)) {
        Ok((v, n)) => Ok((wrap(v), k + n)),
        Err(fault) => Err(fault),
    }
}

proof fn lemma_variant<T: Wire>(number: u32, v: T::Model, rest: Seq<u8>)
    requires
        T::fits(v),
    ensures
        u32::decoded((varint(number as nat) + T::encoded(v)) + rest) == Ok::<
            (u32, nat),
            DecodeFault,
        >((number, varint(number as nat).len())),
        T::decoded(
            ((varint(number as nat) + T::encoded(v)) + rest).skip(
                varint(number as nat).len() as int,
            ),
        ) == Ok::<(T::Model, nat), DecodeFault>((v, T::encoded(v).len())),
{
    let head = varint(number as nat);
    let body = T::encoded(v);
    u32::round_trip(number, body + rest);
    T::round_trip(v, rest);
    assert((head + body) + rest =~= head + (body + rest));
    assert((head + (body + rest)).skip(head.len() as int) =~= body + rest);
}

/// Appends a variant's number.
fn put_number(out: &mut Vec<u8>, number: u32)
    ensures
        final(out)@ == old(out)@ + varint(number as nat),
{
    number.put(out);
}

/// A server message as mathematics.
pub enum ServerModel {
    FftBins(<FftBins as Wire>::Model),
    Audio(<AudioChunk as Wire>::Model),
    RadioState(<RadioState as Wire>::Model),
    Capabilities(<Capabilities as Wire>::Model),
    DrmStatus(<DrmStatus as Wire>::Model),
    Error(<ErrorMsg as Wire>::Model),
    DeviceList(<DeviceList as Wire>::Model),
    DecodedText(<DecodedText as Wire>::Model),
    RecordingStatus(<RecordingStatus as Wire>::Model),
    StateSnapshot(<StateSnapshot as Wire>::Model),
}

impl Wire for ServerMsg {
    type Model = ServerModel;

    open spec fn model(&self) -> ServerModel {
        match self {
            ServerMsg::FftBins(v) => ServerModel::FftBins(v.model()),
            ServerMsg::Audio(v) => ServerModel::Audio(v.model()),
            ServerMsg::RadioState(v) => ServerModel::RadioState(v.model()),
            ServerMsg::Capabilities(v) => ServerModel::Capabilities(v.model()),
            ServerMsg::DrmStatus(v) => ServerModel::DrmStatus(v.model()),
            ServerMsg::Error(v) => ServerModel::Error(v.model()),
            ServerMsg::DeviceList(v) => ServerModel::DeviceList(v.model()),
            ServerMsg::DecodedText(v) => ServerModel::DecodedText(v.model()),
            ServerMsg::RecordingStatus(v) => ServerModel::RecordingStatus(v.model()),
            ServerMsg::StateSnapshot(v) => ServerModel::StateSnapshot(v.model()),
        }
    }

    open spec fn fits(m: ServerModel) -> bool {
        match m {
            ServerModel::FftBins(v) => FftBins::fits(v),
            ServerModel::Audio(v) => AudioChunk::fits(v),
            ServerModel::RadioState(v) => RadioState::fits(v),
            ServerModel::Capabilities(v) => Capabilities::fits(v),
            ServerModel::DrmStatus(v) => DrmStatus::fits(v),
            ServerModel::Error(v) => ErrorMsg::fits(v),
            ServerModel::DeviceList(v) => DeviceList::fits(v),
            ServerModel::DecodedText(v) => DecodedText::fits(v),
            ServerModel::RecordingStatus(v) => RecordingStatus::fits(v),
            ServerModel::StateSnapshot(v) => StateSnapshot::fits(v),
        }
    }

    open spec fn encoded(m: ServerModel) -> Seq<u8> {
        match m {
            ServerModel::FftBins(v) => varint(0) + FftBins::encoded(v),
            ServerModel::Audio(v) => varint(1) + AudioChunk::encoded(v),
            ServerModel::RadioState(v) => varint(2) + RadioState::encoded(v),
            ServerModel::Capabilities(v) => varint(3) + Capabilities::encoded(v),
            ServerModel::DrmStatus(v) => varint(4) + DrmStatus::encoded(v),
            ServerModel::Error(v) => varint(5) + ErrorMsg::encoded(v),
            ServerModel::DeviceList(v) => varint(6) + DeviceList::encoded(v),
            ServerModel::DecodedText(v) => varint(7) + DecodedText::encoded(v),
            ServerModel::RecordingStatus(v) => varint(8) + RecordingStatus::encoded(v),
            ServerModel::StateSnapshot(v) => varint(9) + StateSnapshot::encoded(v),
        }
    }

    open spec fn decoded(data: Seq<u8>) -> Result<(ServerModel, nat), DecodeFault> {
        match u32::decoded(data) {
            Ok((n, k)) => if n == 0 {
                content::<FftBins, _>(data, k, |v| ServerModel::FftBins(v))
            } else if n == 1 {
                content::<AudioChunk, _>(data, k, |v| ServerModel::Audio(v))
            } else if n == 2 {
                content::<RadioState, _>(data, k, |v| ServerModel::RadioState(v))
            } else if n == 3 {
                content::<Capabilities, _>(data, k, |v| ServerModel::Capabilities(v))
            } else if n == 4 {
                content::<DrmStatus, _>(data, k, |v| ServerModel::DrmStatus(v))
            } else if n == 5 {
                content::<ErrorMsg, _>(data, k, |v| ServerModel::Error(v))
            } else if n == 6 {
                content::<DeviceList, _>(data, k, |v| ServerModel::DeviceList(v))
            } else if n == 7 {
                content::<DecodedText, _>(data, k, |v| ServerModel::DecodedText(v))
            } else if n == 8 {
                content::<RecordingStatus, _>(data, k, |v| ServerModel::RecordingStatus(v))
            } else if n == 9 {
                content::<StateSnapshot, _>(data, k, |v| ServerModel::StateSnapshot(v))
            } else {
                Err(DecodeFault::UnexpectedVariant { of: "ServerMsg", max: 9, number: n })
            },
            Err(fault) => Err(fault),
        }
    }

    fn put(&self, out: &mut Vec<u8>) {
        let ghost before = out@;
        match self {
            ServerMsg::FftBins(v) => {
                put_number(out, 0);
                v.put(out);
            },
            ServerMsg::Audio(v) => {
                put_number(out, 1);
                v.put(out);
            },
            ServerMsg::RadioState(v) => {
                put_number(out, 2);
                v.put(out);
            },
            ServerMsg::Capabilities(v) => {
                put_number(out, 3);
                v.put(out);
            },
            ServerMsg::DrmStatus(v) => {
                put_number(out, 4);
                v.put(out);
            },
            ServerMsg::Error(v) => {
                put_number(out, 5);
                v.put(out);
            },
            ServerMsg::DeviceList(v) => {
                put_number(out, 6);
                v.put(out);
            },
            ServerMsg::DecodedText(v) => {
                put_number(out, 7);
                v.put(out);
            },
            ServerMsg::RecordingStatus(v) => {
                put_number(out, 8);
                v.put(out);
            },
            ServerMsg::StateSnapshot(v) => {
                put_number(out, 9);
                v.put(out);
            },
        }
        assert(out@ =~= before + Self::encoded(self.model()));
    }

    #[verifier::rlimit(40)]
    #[verifier::spinoff_prover]
    fn read_from(data: &[u8], from: usize) -> (r: Result<(ServerMsg, usize), DecodeFault>) {
        let (number, at) = match u32::read_from(data, from) {
            Ok(p) => p,
            Err(fault) => {
                return Err(fault);
            },
        };
        assert(data@.skip(from as int).skip(at - from) =~= data@.skip(at as int));
        match number {
            0 => match FftBins::read_from(data, at) {
                Ok((v, to)) => Ok((ServerMsg::FftBins(v), to)),
                Err(fault) => Err(fault),
            },
            1 => match AudioChunk::read_from(data, at) {
                Ok((v, to)) => Ok((ServerMsg::Audio(v), to)),
                Err(fault) => Err(fault),
            },
            2 => match RadioState::read_from(data, at) {
                Ok((v, to)) => Ok((ServerMsg::RadioState(v), to)),
                Err(fault) => Err(fault),
            },
            3 => match Capabilities::read_from(data, at) {
                Ok((v, to)) => Ok((ServerMsg::Capabilities(v), to)),
                Err(fault) => Err(fault),
            },
            4 => match DrmStatus::read_from(data, at) {
                Ok((v, to)) => Ok((ServerMsg::DrmStatus(v), to)),
                Err(fault) => Err(fault),
            },
            5 => match ErrorMsg::read_from(data, at) {
                Ok((v, to)) => Ok((ServerMsg::Error(v), to)),
                Err(fault) => Err(fault),
            },
            6 => match DeviceList::read_from(data, at) {
                Ok((v, to)) => Ok((ServerMsg::DeviceList(v), to)),
                Err(fault) => Err(fault),
            },
            7 => match DecodedText::read_from(data, at) {
                Ok((v, to)) => Ok((ServerMsg::DecodedText(v), to)),
                Err(fault) => Err(fault),
            },
            8 => match RecordingStatus::read_from(data, at) {
                Ok((v, to)) => Ok((ServerMsg::RecordingStatus(v), to)),
                Err(fault) => Err(fault),
            },
            9 => match StateSnapshot::read_from(data, at) {
                Ok((v, to)) => Ok((ServerMsg::StateSnapshot(v), to)),
                Err(fault) => Err(fault),
            },
            _ => Err(DecodeFault::UnexpectedVariant { of: "ServerMsg", max: 9, number }),
        }
    }

    proof fn round_trip(m: ServerModel, rest: Seq<u8>) {
        match m {
            ServerModel::FftBins(v) => lemma_variant::<FftBins>(0, v, rest),
            ServerModel::Audio(v) => lemma_variant::<AudioChunk>(1, v, rest),
            ServerModel::RadioState(v) => lemma_variant::<RadioState>(2, v, rest),
            ServerModel::Capabilities(v) => lemma_variant::<Capabilities>(3, v, rest),
            ServerModel::DrmStatus(v) => lemma_variant::<DrmStatus>(4, v, rest),
            ServerModel::Error(v) => lemma_variant::<ErrorMsg>(5, v, rest),
            ServerModel::DeviceList(v) => lemma_variant::<DeviceList>(6, v, rest),
            ServerModel::DecodedText(v) => lemma_variant::<DecodedText>(7, v, rest),
            ServerModel::RecordingStatus(v) => lemma_variant::<RecordingStatus>(8, v, rest),
            ServerModel::StateSnapshot(v) => lemma_variant::<StateSnapshot>(9, v, rest),
        }
    }
}

/// A client message as mathematics.
pub enum ClientModel {
    CatCommand(<CatCommand as Wire>::Model),
    TxAudio(<TxAudio as Wire>::Model),
    Ptt(<Ptt as Wire>::Model),
    SetDemodMode(<Option<Mode> as Wire>::Model),
    SetDrmFlipSpectrum(<bool as Wire>::Model),
    EnumerateDevices,
    SelectSource(<SourceClass as Wire>::Model),
    SelectDevice(<DeviceId as Wire>::Model),
    SetDecoder(<(DecoderKind, bool) as Wire>::Model),
    SetNb(<bool as Wire>::Model),
    SetDnb(<bool as Wire>::Model),
    SetDnr(<bool as Wire>::Model),
    SetDnf(<bool as Wire>::Model),
    SetApf(<bool as Wire>::Model),
    StartRecording(<StartRecording as Wire>::Model),
    StopRecording,
    SaveState,
    LoadState,
}

impl Wire for ClientMsg {
    type Model = ClientModel;

    open spec fn model(&self) -> ClientModel {
        match self {
            ClientMsg::CatCommand(v) => ClientModel::CatCommand(v.model()),
            ClientMsg::TxAudio(v) => ClientModel::TxAudio(v.model()),
            ClientMsg::Ptt(v) => ClientModel::Ptt(v.model()),
            ClientMsg::SetDemodMode(v) => ClientModel::SetDemodMode(v.model()),
            ClientMsg::SetDrmFlipSpectrum(v) => ClientModel::SetDrmFlipSpectrum(v.model()),
            ClientMsg::EnumerateDevices => ClientModel::EnumerateDevices,
            ClientMsg::SelectSource(v) => ClientModel::SelectSource(v.model()),
            ClientMsg::SelectDevice(v) => ClientModel::SelectDevice(v.model()),
            ClientMsg::SetDecoder { decoder, enabled } => ClientModel::SetDecoder(
                (decoder.model(), enabled.model()),
            ),
            ClientMsg::SetNb(v) => ClientModel::SetNb(v.model()),
            ClientMsg::SetDnb(v) => ClientModel::SetDnb(v.model()),
            ClientMsg::SetDnr(v) => ClientModel::SetDnr(v.model()),
            ClientMsg::SetDnf(v) => ClientModel::SetDnf(v.model()),
            ClientMsg::SetApf(v) => ClientModel::SetApf(v.model()),
            ClientMsg::StartRecording(v) => ClientModel::StartRecording(v.model()),
            ClientMsg::StopRecording => ClientModel::StopRecording,
            ClientMsg::SaveState => ClientModel::SaveState,
            ClientMsg::LoadState => ClientModel::LoadState,
        }
    }

    open spec fn fits(m: ClientModel) -> bool {
        match m {
            ClientModel::CatCommand(v) => CatCommand::fits(v),
            ClientModel::TxAudio(v) => TxAudio::fits(v),
            ClientModel::Ptt(v) => Ptt::fits(v),
            ClientModel::SetDemodMode(v) => Option::<Mode>::fits(v),
            ClientModel::SetDrmFlipSpectrum(v) => bool::fits(v),
            ClientModel::EnumerateDevices => true,
            ClientModel::SelectSource(v) => SourceClass::fits(v),
            ClientModel::SelectDevice(v) => DeviceId::fits(v),
            ClientModel::SetDecoder(v) => <(DecoderKind, bool)>::fits(v),
            ClientModel::SetNb(v) => bool::fits(v),
            ClientModel::SetDnb(v) => bool::fits(v),
            ClientModel::SetDnr(v) => bool::fits(v),
            ClientModel::SetDnf(v) => bool::fits(v),
            ClientModel::SetApf(v) => bool::fits(v),
            ClientModel::StartRecording(v) => StartRecording::fits(v),
            ClientModel::StopRecording => true,
            ClientModel::SaveState => true,
            ClientModel::LoadState => true,
        }
    }

    open spec fn encoded(m: ClientModel) -> Seq<u8> {
        match m {
            ClientModel::CatCommand(v) => varint(0) + CatCommand::encoded(v),
            ClientModel::TxAudio(v) => varint(1) + TxAudio::encoded(v),
            ClientModel::Ptt(v) => varint(2) + Ptt::encoded(v),
            ClientModel::SetDemodMode(v) => varint(3) + Option::<Mode>::encoded(v),
            ClientModel::SetDrmFlipSpectrum(v) => varint(4) + bool::encoded(v),
            ClientModel::EnumerateDevices => varint(5),
            ClientModel::SelectSource(v) => varint(6) + SourceClass::encoded(v),
            ClientModel::SelectDevice(v) => varint(7) + DeviceId::encoded(v),
            ClientModel::SetDecoder(v) => varint(8) + <(DecoderKind, bool)>::encoded(v),
            ClientModel::SetNb(v) => varint(9) + bool::encoded(v),
            ClientModel::SetDnb(v) => varint(10) + bool::encoded(v),
            ClientModel::SetDnr(v) => varint(11) + bool::encoded(v),
            ClientModel::SetDnf(v) => varint(12) + bool::encoded(v),
            ClientModel::SetApf(v) => varint(13) + bool::encoded(v),
            ClientModel::StartRecording(v) => varint(14) + StartRecording::encoded(v),
            ClientModel::StopRecording => varint(15),
            ClientModel::SaveState => varint(16),
            ClientModel::LoadState => varint(17),
        }
    }

    open spec fn decoded(data: Seq<u8>) -> Result<(ClientModel, nat), DecodeFault> {
        match u32::decoded(data) {
            Ok((n, k)) => if n == 0 {
                content::<CatCommand, _>(data, k, |v| ClientModel::CatCommand(v))
            } else if n == 1 {
                content::<TxAudio, _>(data, k, |v| ClientModel::TxAudio(v))
            } else if n == 2 {
                content::<Ptt, _>(data, k, |v| ClientModel::Ptt(v))
            } else if n == 3 {
                content::<Option<Mode>, _>(data, k, |v| ClientModel::SetDemodMode(v))
            } else if n == 4 {
                content::<bool, _>(data, k, |v| ClientModel::SetDrmFlipSpectrum(v))
            } else if n == 5 {
                Ok((ClientModel::EnumerateDevices, k))
            } else if n == 6 {
                content::<SourceClass, _>(data, k, |v| ClientModel::SelectSource(v))
            } else if n == 7 {
                content::<DeviceId, _>(data, k, |v| ClientModel::SelectDevice(v))
            } else if n == 8 {
                content::<(DecoderKind, bool), _>(data, k, |v| ClientModel::SetDecoder(v))
            } else if n == 9 {
                content::<bool, _>(data, k, |v| ClientModel::SetNb(v))
            } else if n == 10 {
                content::<bool, _>(data, k, |v| ClientModel::SetDnb(v))
            } else if n == 11 {
                content::<bool, _>(data, k, |v| ClientModel::SetDnr(v))
            } else if n == 12 {
                content::<bool, _>(data, k, |v| ClientModel::SetDnf(v))
            } else if n == 13 {
                content::<bool, _>(data, k, |v| ClientModel::SetApf(v))
            } else if n == 14 {
                content::<StartRecording, _>(data, k, |v| ClientModel::StartRecording(v))
            } else if n == 15 {
                Ok((ClientModel::StopRecording, k))
            } else if n == 16 {
                Ok((ClientModel::SaveState, k))
            } else if n == 17 {
                Ok((ClientModel::LoadState, k))
            } else {
                Err(DecodeFault::UnexpectedVariant { of: "ClientMsg", max: 17, number: n })
            },
            Err(fault) => Err(fault),
        }
    }

    fn put(&self, out: &mut Vec<u8>) {
        let ghost before = out@;
        match self {
            ClientMsg::CatCommand(v) => {
                put_number(out, 0);
                v.put(out);
            },
            ClientMsg::TxAudio(v) => {
                put_number(out, 1);
                v.put(out);
            },
            ClientMsg::Ptt(v) => {
                put_number(out, 2);
                v.put(out);
            },
            ClientMsg::SetDemodMode(v) => {
                put_number(out, 3);
                v.put(out);
            },
            ClientMsg::SetDrmFlipSpectrum(v) => {
                put_number(out, 4);
                v.put(out);
            },
            ClientMsg::EnumerateDevices => put_number(out, 5),
            ClientMsg::SelectSource(v) => {
                put_number(out, 6);
                v.put(out);
            },
            ClientMsg::SelectDevice(v) => {
                put_number(out, 7);
                v.put(out);
            },
            ClientMsg::SetDecoder { decoder, enabled } => {
                put_number(out, 8);
                decoder.put(out); enabled.put(out);
            },
            ClientMsg::SetNb(v) => {
                put_number(out, 9);
                v.put(out);
            },
            ClientMsg::SetDnb(v) => {
                put_number(out, 10);
                v.put(out);
            },
            ClientMsg::SetDnr(v) => {
                put_number(out, 11);
                v.put(out);
            },
            ClientMsg::SetDnf(v) => {
                put_number(out, 12);
                v.put(out);
            },
            ClientMsg::SetApf(v) => {
                put_number(out, 13);
                v.put(out);
            },
            ClientMsg::StartRecording(v) => {
                put_number(out, 14);
                v.put(out);
            },
            ClientMsg::StopRecording => put_number(out, 15),
            ClientMsg::SaveState => put_number(out, 16),
            ClientMsg::LoadState => put_number(out, 17),
        }
        assert(out@ =~= before + Self::encoded(self.model()));
    }

    #[verifier::rlimit(40)]
    #[verifier::spinoff_prover]
    fn read_from(data: &[u8], from: usize) -> (r: Result<(ClientMsg, usize), DecodeFault>) {
        let (number, at) = match u32::read_from(data, from) {
            Ok(p) => p,
            Err(fault) => {
                return Err(fault);
            },
        };
        assert(data@.skip(from as int).skip(at - from) =~= data@.skip(at as int));
        match number {
            0 => match CatCommand::read_from(data, at) {
                Ok((v, to)) => Ok((ClientMsg::CatCommand(v), to)),
                Err(fault) => Err(fault),
            },
            1 => match TxAudio::read_from(data, at) {
                Ok((v, to)) => Ok((ClientMsg::TxAudio(v), to)),
                Err(fault) => Err(fault),
            },
            2 => match Ptt::read_from(data, at) {
                Ok((v, to)) => Ok((ClientMsg::Ptt(v), to)),
                Err(fault) => Err(fault),
            },
            3 => match Option::<Mode>::read_from(data, at) {
                Ok((v, to)) => Ok((ClientMsg::SetDemodMode(v), to)),
                Err(fault) => Err(fault),
            },
            4 => match bool::read_from(data, at) {
                Ok((v, to)) => Ok((ClientMsg::SetDrmFlipSpectrum(v), to)),
                Err(fault) => Err(fault),
            },
            5 => Ok((ClientMsg::EnumerateDevices, at)),
            6 => match SourceClass::read_from(data, at) {
                Ok((v, to)) => Ok((ClientMsg::SelectSource(v), to)),
                Err(fault) => Err(fault),
            },
            7 => match DeviceId::read_from(data, at) {
                Ok((v, to)) => Ok((ClientMsg::SelectDevice(v), to)),
                Err(fault) => Err(fault),
            },
            8 => match <(DecoderKind, bool)>::read_from(data, at) {
                Ok(((decoder, enabled), to)) => Ok(
                    (ClientMsg::SetDecoder { decoder, enabled }, to),
                ),
                Err(fault) => Err(fault),
            },
            9 => match bool::read_from(data, at) {
                Ok((v, to)) => Ok((ClientMsg::SetNb(v), to)),
                Err(fault) => Err(fault),
            },
            10 => match bool::read_from(data, at) {
                Ok((v, to)) => Ok((ClientMsg::SetDnb(v), to)),
                Err(fault) => Err(fault),
            },
            11 => match bool::read_from(data, at) {
                Ok((v, to)) => Ok((ClientMsg::SetDnr(v), to)),
                Err(fault) => Err(fault),
            },
            12 => match bool::read_from(data, at) {
                Ok((v, to)) => Ok((ClientMsg::SetDnf(v), to)),
                Err(fault) => Err(fault),
            },
            13 => match bool::read_from(data, at) {
                Ok((v, to)) => Ok((ClientMsg::SetApf(v), to)),
                Err(fault) => Err(fault),
            },
            14 => match StartRecording::read_from(data, at) {
                Ok((v, to)) => Ok((ClientMsg::StartRecording(v), to)),
                Err(fault) => Err(fault),
            },
            15 => Ok((ClientMsg::StopRecording, at)),
            16 => Ok((ClientMsg::SaveState, at)),
            17 => Ok((ClientMsg::LoadState, at)),
            _ => Err(DecodeFault::UnexpectedVariant { of: "ClientMsg", max: 17, number }),
        }
    }

    proof fn round_trip(m: ClientModel, rest: Seq<u8>) {
        match m {
            ClientModel::CatCommand(v) => lemma_variant::<CatCommand>(0, v, rest),
            ClientModel::TxAudio(v) => lemma_variant::<TxAudio>(1, v, rest),
            ClientModel::Ptt(v) => lemma_variant::<Ptt>(2, v, rest),
            ClientModel::SetDemodMode(v) => lemma_variant::<Option<Mode>>(3, v, rest),
            ClientModel::SetDrmFlipSpectrum(v) => lemma_variant::<bool>(4, v, rest),
            ClientModel::EnumerateDevices => u32::round_trip(5, rest),
            ClientModel::SelectSource(v) => lemma_variant::<SourceClass>(6, v, rest),
            ClientModel::SelectDevice(v) => lemma_variant::<DeviceId>(7, v, rest),
            ClientModel::SetDecoder(v) => lemma_variant::<(DecoderKind, bool)>(8, v, rest),
            ClientModel::SetNb(v) => lemma_variant::<bool>(9, v, rest),
            ClientModel::SetDnb(v) => lemma_variant::<bool>(10, v, rest),
            ClientModel::SetDnr(v) => lemma_variant::<bool>(11, v, rest),
            ClientModel::SetDnf(v) => lemma_variant::<bool>(12, v, rest),
            ClientModel::SetApf(v) => lemma_variant::<bool>(13, v, rest),
            ClientModel::StartRecording(v) => lemma_variant::<StartRecording>(14, v, rest),
            ClientModel::StopRecording => u32::round_trip(15, rest),
            ClientModel::SaveState => u32::round_trip(16, rest),
            ClientModel::LoadState => u32::round_trip(17, rest),
        }
    }
}

// ---------------------------------------------------------------------------
// Laws of the layout
// ---------------------------------------------------------------------------

/// The variants are numbered in the order of their declaration, from zero.
pub proof fn law_modes_are_numbered_in_order(k: u32, n: u32)
    requires
        k < 12,
        call_ensures(<Mode as Numbered>::to_number, (seq![Mode::AM, Mode::SAM, Mode::SAMU,
            Mode::SAML, Mode::DSB, Mode::LSB, Mode::USB, Mode::CW, Mode::CWR, Mode::FM, Mode::DRM,
            Mode::Unknown][k as int],), n),
    ensures
        n == k,
        Mode::numbered(k) == Some(seq![Mode::AM, Mode::SAM, Mode::SAMU, Mode::SAML, Mode::DSB,
            Mode::LSB, Mode::USB, Mode::CW, Mode::CWR, Mode::FM, Mode::DRM,
            Mode::Unknown][k as int]),
        Mode::numbered((k + 12) as u32) is None,
{
}

/// The variants are numbered in the order of their declaration, from zero.
pub proof fn law_vfos_are_numbered_in_order(k: u32, n: u32)
    requires
        k < 2,
        call_ensures(<Vfo as Numbered>::to_number, (seq![Vfo::A, Vfo::B][k as int],), n),
    ensures
        n == k,
        Vfo::numbered(k) == Some(seq![Vfo::A, Vfo::B][k as int]),
        Vfo::numbered((k + 2) as u32) is None,
{
}

/// The variants are numbered in the order of their declaration, from zero.
pub proof fn law_agc_modes_are_numbered_in_order(k: u32, n: u32)
    requires
        k < 4,
        call_ensures(<AgcMode as Numbered>::to_number, (seq![AgcMode::Off, AgcMode::Slow,
            AgcMode::Medium, AgcMode::Fast][k as int],), n),
    ensures
        n == k,
        AgcMode::numbered(k) == Some(seq![AgcMode::Off, AgcMode::Slow, AgcMode::Medium,
            AgcMode::Fast][k as int]),
        AgcMode::numbered((k + 4) as u32) is None,
{
}

/// The variants are numbered in the order of their declaration, from zero.
pub proof fn law_source_classes_are_numbered_in_order(k: u32, n: u32)
    requires
        k < 2,
        call_ensures(<SourceClass as Numbered>::to_number, (seq![SourceClass::Audio,
            SourceClass::Iq][k as int],), n),
    ensures
        n == k,
        SourceClass::numbered(k) == Some(seq![SourceClass::Audio, SourceClass::Iq][k as int]),
        SourceClass::numbered((k + 2) as u32) is None,
{
}

/// The variants are numbered in the order of their declaration, from zero.
pub proof fn law_source_kinds_are_numbered_in_order(k: u32, n: u32)
    requires
        k < 7,
        call_ensures(<SourceKind as Numbered>::to_number, (seq![SourceKind::FdmDuo,
            SourceKind::HackRf, SourceKind::RspDx, SourceKind::RtlSdr, SourceKind::PortableRadio,
            SourceKind::AudioFile, SourceKind::IqFile][k as int],), n),
    ensures
        n == k,
        SourceKind::numbered(k) == Some(seq![SourceKind::FdmDuo, SourceKind::HackRf,
            SourceKind::RspDx, SourceKind::RtlSdr, SourceKind::PortableRadio,
            SourceKind::AudioFile, SourceKind::IqFile][k as int]),
        SourceKind::numbered((k + 7) as u32) is None,
{
}

/// The variants are numbered in the order of their declaration, from zero.
pub proof fn law_decoder_kinds_are_numbered_in_order(k: u32, n: u32)
    requires
        k < 9,
        call_ensures(<DecoderKind as Numbered>::to_number, (seq![DecoderKind::Cw,
            DecoderKind::Rtty, DecoderKind::Psk, DecoderKind::Mfsk, DecoderKind::Fax,
            DecoderKind::Pckt, DecoderKind::Wspr, DecoderKind::Ft8,
            DecoderKind::Aprs][k as int],), n),
    ensures
        n == k,
        DecoderKind::numbered(k) == Some(seq![DecoderKind::Cw, DecoderKind::Rtty,
            DecoderKind::Psk, DecoderKind::Mfsk, DecoderKind::Fax, DecoderKind::Pckt,
            DecoderKind::Wspr, DecoderKind::Ft8, DecoderKind::Aprs][k as int]),
        DecoderKind::numbered((k + 9) as u32) is None,
{
}

/// The variants are numbered in the order of their declaration, from zero.
pub proof fn law_rec_kinds_are_numbered_in_order(k: u32, n: u32)
    requires
        k < 2,
        call_ensures(<RecKind as Numbered>::to_number, (seq![RecKind::Iq,
            RecKind::Audio][k as int],), n),
    ensures
        n == k,
        RecKind::numbered(k) == Some(seq![RecKind::Iq, RecKind::Audio][k as int]),
        RecKind::numbered((k + 2) as u32) is None,
{
}

/// The variants are numbered in the order of their declaration, from zero.
pub proof fn law_control_targets_are_numbered_in_order(k: u32, n: u32)
    requires
        k < 4,
        call_ensures(<ControlTarget as Numbered>::to_number, (seq![ControlTarget::Nowhere,
            ControlTarget::Radio, ControlTarget::Demod,
            ControlTarget::DemodMirrorFreq][k as int],), n),
    ensures
        n == k,
        ControlTarget::numbered(k) == Some(seq![ControlTarget::Nowhere, ControlTarget::Radio,
            ControlTarget::Demod, ControlTarget::DemodMirrorFreq][k as int]),
        ControlTarget::numbered((k + 4) as u32) is None,
{
}

/// The variants are numbered in the order of their declaration, from zero.
pub proof fn law_grid_cells_are_numbered_in_order(k: u32, n: u32)
    requires
        k < 20,
        call_ensures(<GridCell as Numbered>::to_number, (seq![GridCell::Disp0Left,
            GridCell::Disp0Center, GridCell::Disp0Right, GridCell::Disp1Left,
            GridCell::Disp1Center, GridCell::Disp1Right, GridCell::Disp2Left,
            GridCell::Disp2Center, GridCell::Disp2Right, GridCell::Spectrum, GridCell::AmpAxis,
            GridCell::FreqAxis, GridCell::Waterfall, GridCell::TimeAxis, GridCell::Ctrl0Left,
            GridCell::Ctrl0Center, GridCell::Ctrl0Right, GridCell::Ctrl1Left,
            GridCell::Ctrl1Center, GridCell::Ctrl1Right][k as int],), n),
    ensures
        n == k,
        GridCell::numbered(k) == Some(seq![GridCell::Disp0Left, GridCell::Disp0Center,
            GridCell::Disp0Right, GridCell::Disp1Left, GridCell::Disp1Center,
            GridCell::Disp1Right, GridCell::Disp2Left, GridCell::Disp2Center,
            GridCell::Disp2Right, GridCell::Spectrum, GridCell::AmpAxis, GridCell::FreqAxis,
            GridCell::Waterfall, GridCell::TimeAxis, GridCell::Ctrl0Left, GridCell::Ctrl0Center,
            GridCell::Ctrl0Right, GridCell::Ctrl1Left, GridCell::Ctrl1Center,
            GridCell::Ctrl1Right][k as int]),
        GridCell::numbered((k + 20) as u32) is None,
{
}

/// The bytes of a device are those of its fields, in the order in which they are
/// declared.
pub proof fn law_device_id_is_written_field_by_field(s: &DeviceId, out: &mut Vec<u8>)
    ensures
        call_ensures(<DeviceId as Wire>::put, (s, out), ()) ==> final(out)@ == old(out)@
            + DeviceIdFields::encoded(
            (s.kind.model(), s.id.model()),
        ),
{
    reveal(fields_encoded);
}

/// The bytes of a spectrum are those of its fields, in the order in which they are
/// declared.
pub proof fn law_fft_bins_is_written_field_by_field(s: &FftBins, out: &mut Vec<u8>)
    ensures
        call_ensures(<FftBins as Wire>::put, (s, out), ()) ==> final(out)@ == old(out)@
            + FftBinsFields::encoded(
            (s.center_freq_hz.model(), (s.span_hz.model(), (s.ref_level_db.model(),
                (s.bins.model(), s.timestamp_us.model())))),
        ),
{
    reveal(fields_encoded);
}

/// The bytes of a piece of audio are those of its fields, in the order in which they are
/// declared.
pub proof fn law_audio_chunk_is_written_field_by_field(s: &AudioChunk, out: &mut Vec<u8>)
    ensures
        call_ensures(<AudioChunk as Wire>::put, (s, out), ()) ==> final(out)@ == old(out)@
            + AudioChunkFields::encoded(
            (s.opus_data.model(), s.seq.model()),
        ),
{
    reveal(fields_encoded);
}

/// The bytes of the radio's state are those of its fields, in the order in which they are
/// declared.
pub proof fn law_radio_state_is_written_field_by_field(s: &RadioState, out: &mut Vec<u8>)
    ensures
        call_ensures(<RadioState as Wire>::put, (s, out), ()) ==> final(out)@ == old(out)@
            + RadioStateFields::encoded(
            ((s.vfo.model(), (s.freq_hz.model(), (s.mode.model(), (s.filter_bw.model(),
                s.filter_bw_hz.model())))), ((s.filter_idx.model(), (s.att.model(), (s.lp.model(),
                (s.agc.model(), s.agc_threshold.model())))), ((s.nr.model(), (s.nb.model(),
                (s.s_meter_db.model(), (s.tx.model(), s.rit_hz.model())))), (s.rit_on.model(),
                (s.xit_hz.model(), (s.xit_on.model(), (s.if_offset_hz.model(),
                s.snr_db.model()))))))),
        ),
{
    reveal(fields_encoded);
}

/// The bytes of an error are those of its fields, in the order in which they are
/// declared.
pub proof fn law_error_msg_is_written_field_by_field(s: &ErrorMsg, out: &mut Vec<u8>)
    ensures
        call_ensures(<ErrorMsg as Wire>::put, (s, out), ()) ==> final(out)@ == old(out)@
            + ErrorMsgFields::encoded(
            (s.code.model(), s.message.model()),
        ),
{
    reveal(fields_encoded);
}

/// The bytes of what a source can do are those of its fields, in the order in which they are
/// declared.
pub proof fn law_capabilities_is_written_field_by_field(s: &Capabilities, out: &mut Vec<u8>)
    ensures
        call_ensures(<Capabilities as Wire>::put, (s, out), ()) ==> final(out)@ == old(out)@
            + CapabilitiesFields::encoded(
            ((s.source.model(), (s.has_iq.model(), (s.has_tx.model(), (s.has_hardware_cat.model(),
                s.has_usb_audio.model())))), (s.supported_demod_modes.model(),
                (s.supported_decoders.model(), (s.drm_flip_spectrum.model(),
                s.control_target.model())))),
        ),
{
    reveal(fields_encoded);
}

/// The bytes of a DRM report are those of its fields, in the order in which they are
/// declared.
pub proof fn law_drm_status_is_written_field_by_field(s: &DrmStatus, out: &mut Vec<u8>)
    ensures
        call_ensures(<DrmStatus as Wire>::put, (s, out), ()) ==> final(out)@ == old(out)@
            + DrmStatusFields::encoded(
            ((s.io_ok.model(), (s.time_ok.model(), (s.frame_ok.model(), (s.fac_ok.model(),
                s.sdc_ok.model())))), ((s.msc_ok.model(), (s.if_level_db.model(),
                (s.snr_db.model(), (s.wmer_db.model(), s.mer_db.model())))),
                ((s.dc_freq_hz.model(), (s.sample_offset_hz.model(), (s.doppler_hz.model(),
                (s.delay_ms.model(), s.robustness_mode.model())))), ((s.bandwidth_khz.model(),
                (s.sdc_mode.model(), (s.msc_mode.model(), (s.interleaver_s.model(),
                s.num_audio_services.model())))), (s.num_data_services.model(),
                s.timestamp_us.model()))))),
        ),
{
    reveal(fields_encoded);
}

/// The bytes of the devices are those of its fields, in the order in which they are
/// declared.
pub proof fn law_device_list_is_written_field_by_field(s: &DeviceList, out: &mut Vec<u8>)
    ensures
        call_ensures(<DeviceList as Wire>::put, (s, out), ()) ==> final(out)@ == old(out)@
            + DeviceListFields::encoded(
            (s.audio_devices.model(), (s.iq_devices.model(), s.active.model())),
        ),
{
    reveal(fields_encoded);
}

/// The bytes of decoded text are those of its fields, in the order in which they are
/// declared.
pub proof fn law_decoded_text_is_written_field_by_field(s: &DecodedText, out: &mut Vec<u8>)
    ensures
        call_ensures(<DecodedText as Wire>::put, (s, out), ()) ==> final(out)@ == old(out)@
            + DecodedTextFields::encoded(
            (s.decoder.model(), (s.text.model(), s.timestamp_us.model())),
        ),
{
    reveal(fields_encoded);
}

/// The bytes of a recording are those of its fields, in the order in which they are
/// declared.
pub proof fn law_recording_status_is_written_field_by_field(s: &RecordingStatus, out: &mut Vec<u8>)
    ensures
        call_ensures(<RecordingStatus as Wire>::put, (s, out), ()) ==> final(out)@ == old(out)@
            + RecordingStatusFields::encoded(
            (s.active.model(), (s.kind.model(), (s.path.model(), (s.bytes_written.model(),
                s.duration_s.model())))),
        ),
{
    reveal(fields_encoded);
}

/// The bytes of a snapshot are those of its fields, in the order in which they are
/// declared.
pub proof fn law_state_snapshot_is_written_field_by_field(s: &StateSnapshot, out: &mut Vec<u8>)
    ensures
        call_ensures(<StateSnapshot as Wire>::put, (s, out), ()) ==> final(out)@ == old(out)@
            + StateSnapshotFields::encoded(
            ((s.active_device.model(), (s.freq_hz.model(), (s.mode.model(),
                (s.filter_bw_hz.model(), s.rit_hz.model())))), ((s.xit_hz.model(),
                (s.if_offset_hz.model(), (s.enabled_decoders.model(), (s.nb_on.model(),
                s.dnb_on.model())))), (s.dnr_on.model(), (s.dnf_on.model(), s.apf_on.model())))),
        ),
{
    reveal(fields_encoded);
}

/// The bytes of audio to send are those of its fields, in the order in which they are
/// declared.
pub proof fn law_tx_audio_is_written_field_by_field(s: &TxAudio, out: &mut Vec<u8>)
    ensures
        call_ensures(<TxAudio as Wire>::put, (s, out), ()) ==> final(out)@ == old(out)@
            + TxAudioFields::encoded(
            (s.opus_data.model(), s.seq.model()),
        ),
{
    reveal(fields_encoded);
}

/// The bytes of a request to record are those of its fields, in the order in which they are
/// declared.
pub proof fn law_start_recording_is_written_field_by_field(s: &StartRecording, out: &mut Vec<u8>)
    ensures
        call_ensures(<StartRecording as Wire>::put, (s, out), ()) ==> final(out)@ == old(out)@
            + StartRecordingFields::encoded(
            (s.kind.model(), s.path.model()),
        ),
{
    reveal(fields_encoded);
}

/// A server message is written as its number, in the order of declaration,
/// and its content.
pub proof fn law_server_messages_are_numbered_in_order(m: &ServerMsg, out: &mut Vec<u8>)
    ensures
        call_ensures(<ServerMsg as Wire>::put, (m, out), ()) ==> match *m {
            ServerMsg::FftBins(v) => final(out)@
                == old(out)@ + (seq![0u8] + FftBins::encoded(v.model())),
            ServerMsg::Audio(v) => final(out)@
                == old(out)@ + (seq![1u8] + AudioChunk::encoded(v.model())),
            ServerMsg::RadioState(v) => final(out)@
                == old(out)@ + (seq![2u8] + RadioState::encoded(v.model())),
            ServerMsg::Capabilities(v) => final(out)@
                == old(out)@ + (seq![3u8] + Capabilities::encoded(v.model())),
            ServerMsg::DrmStatus(v) => final(out)@
                == old(out)@ + (seq![4u8] + DrmStatus::encoded(v.model())),
            ServerMsg::Error(v) => final(out)@
                == old(out)@ + (seq![5u8] + ErrorMsg::encoded(v.model())),
            ServerMsg::DeviceList(v) => final(out)@
                == old(out)@ + (seq![6u8] + DeviceList::encoded(v.model())),
            ServerMsg::DecodedText(v) => final(out)@
                == old(out)@ + (seq![7u8] + DecodedText::encoded(v.model())),
            ServerMsg::RecordingStatus(v) => final(out)@
                == old(out)@ + (seq![8u8] + RecordingStatus::encoded(v.model())),
            ServerMsg::StateSnapshot(v) => final(out)@
                == old(out)@ + (seq![9u8] + StateSnapshot::encoded(v.model())),
        },
{
}

/// A client message is written as its number, in the order of declaration,
/// and its content.
pub proof fn law_client_messages_are_numbered_in_order(m: &ClientMsg, out: &mut Vec<u8>)
    ensures
        call_ensures(<ClientMsg as Wire>::put, (m, out), ()) ==> match *m {
            ClientMsg::CatCommand(v) => final(out)@
                == old(out)@ + (seq![0u8] + CatCommand::encoded(v.model())),
            ClientMsg::TxAudio(v) => final(out)@
                == old(out)@ + (seq![1u8] + TxAudio::encoded(v.model())),
            ClientMsg::Ptt(v) => final(out)@ == old(out)@ + (seq![2u8] + Ptt::encoded(v.model())),
            ClientMsg::SetDemodMode(v) => final(out)@
                == old(out)@ + (seq![3u8] + Option::<Mode>::encoded(v.model())),
            ClientMsg::SetDrmFlipSpectrum(v) => final(out)@
                == old(out)@ + (seq![4u8] + bool::encoded(v.model())),
            ClientMsg::EnumerateDevices => final(out)@ == old(out)@ + seq![5u8],
            ClientMsg::SelectSource(v) => final(out)@
                == old(out)@ + (seq![6u8] + SourceClass::encoded(v.model())),
            ClientMsg::SelectDevice(v) => final(out)@
                == old(out)@ + (seq![7u8] + DeviceId::encoded(v.model())),
            ClientMsg::SetDecoder { decoder, enabled } => final(out)@
                == old(out)@ + (seq![8u8] + (DecoderKind::encoded(decoder) + bool::encoded(enabled))),
            ClientMsg::SetNb(v) => final(out)@ == old(out)@ + (seq![9u8] + bool::encoded(v.model())),
            ClientMsg::SetDnb(v) => final(out)@
                == old(out)@ + (seq![10u8] + bool::encoded(v.model())),
            ClientMsg::SetDnr(v) => final(out)@
                == old(out)@ + (seq![11u8] + bool::encoded(v.model())),
            ClientMsg::SetDnf(v) => final(out)@
                == old(out)@ + (seq![12u8] + bool::encoded(v.model())),
            ClientMsg::SetApf(v) => final(out)@
                == old(out)@ + (seq![13u8] + bool::encoded(v.model())),
            ClientMsg::StartRecording(v) => final(out)@
                == old(out)@ + (seq![14u8] + StartRecording::encoded(v.model())),
            ClientMsg::StopRecording => final(out)@ == old(out)@ + seq![15u8],
            ClientMsg::SaveState => final(out)@ == old(out)@ + seq![16u8],
            ClientMsg::LoadState => final(out)@ == old(out)@ + seq![17u8],
        },
{
}

} // verus!
