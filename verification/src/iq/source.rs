//! The supported sources and what each can do.
use crate::iq::error::{IqError, IqErrorView};
use crate::proto::radio::{class_of, Mode, SourceClass, SourceKind};
use vstd::prelude::*;
use vstd::string::*;

verus! {

/// USB vendor number of the FDM-DUO.
pub const ELAD_VENDOR_ID: u16 = 0x1721;

/// USB product number of the FDM-DUO's IQ device.
pub const ELAD_PRODUCT_ID: u16 = 0x061a;

/// Which USB device to open as the FDM-DUO.
#[derive(Debug, Clone, Copy)]
pub struct FdmDuoConfig {
    pub vendor_id: u16,
    pub product_id: u16,
}

impl Default for FdmDuoConfig {
    /// The numbers the FDM-DUO is made with.
    fn default() -> (r: Self)
        ensures
            r.vendor_id == ELAD_VENDOR_ID,
            r.product_id == ELAD_PRODUCT_ID,
    {
        FdmDuoConfig { vendor_id: ELAD_VENDOR_ID, product_id: ELAD_PRODUCT_ID }
    }
}

#[derive(Debug, Clone)]
pub struct HackRfConfig {
    pub serial: Option<String>,
}

impl Default for HackRfConfig {
    /// Any device.
    fn default() -> (r: Self)
        ensures
            r.serial is None,
    {
        HackRfConfig { serial: None }
    }
}

#[derive(Debug, Clone)]
pub struct RspDxConfig {
    pub serial: Option<String>,
}

impl Default for RspDxConfig {
    /// Any device.
    fn default() -> (r: Self)
        ensures
            r.serial is None,
    {
        RspDxConfig { serial: None }
    }
}

#[derive(Debug, Clone, Copy)]
pub struct RtlSdrConfig {
    pub index: u32,
}

impl Default for RtlSdrConfig {
    /// The first device.
    fn default() -> (r: Self)
        ensures
            r.index == 0,
    {
        RtlSdrConfig { index: 0 }
    }
}

#[derive(Debug, Clone, Copy)]
pub struct PortableRadioConfig;

impl Default for PortableRadioConfig {
    /// There is nothing to configure.
    fn default() -> (r: Self)
        ensures
            r == PortableRadioConfig,
    {
        PortableRadioConfig
    }
}

/// A source, with what it needs to be opened.
#[derive(Debug, Clone)]
pub enum SourceConfig {
    FdmDuo(FdmDuoConfig),
    HackRf(HackRfConfig),
    RspDx(RspDxConfig),
    RtlSdr(RtlSdrConfig),
    PortableRadio(PortableRadioConfig),
}

/// What a source can do.
#[derive(Debug, Clone)]
pub struct SourceCapabilities {
    pub kind: SourceKind,
    pub has_iq: bool,
    pub has_tx: bool,
    pub has_hardware_cat: bool,
    pub supported_demod_modes: Vec<Mode>,
}

/// A [`SourceCapabilities`] as mathematics.
pub struct CapabilitiesView {
    pub kind: SourceKind,
    pub has_iq: bool,
    pub has_tx: bool,
    pub has_hardware_cat: bool,
    pub supported_demod_modes: Seq<Mode>,
}

impl View for SourceCapabilities {
    type V = CapabilitiesView;

    open spec fn view(&self) -> CapabilitiesView {
        CapabilitiesView {
            kind: self.kind,
            has_iq: self.has_iq,
            has_tx: self.has_tx,
            has_hardware_cat: self.has_hardware_cat,
            supported_demod_modes: self.supported_demod_modes@,
        }
    }
}

/// The device family of a source.
pub open spec fn kind_of(s: SourceConfig) -> SourceKind {
    match s {
        SourceConfig::FdmDuo(_) => SourceKind::FdmDuo,
        SourceConfig::HackRf(_) => SourceKind::HackRf,
        SourceConfig::RspDx(_) => SourceKind::RspDx,
        SourceConfig::RtlSdr(_) => SourceKind::RtlSdr,
        SourceConfig::PortableRadio(_) => SourceKind::PortableRadio,
    }
}

/// The modes that can be demodulated from IQ.
pub open spec fn iq_modes() -> Seq<Mode> {
    seq![Mode::USB, Mode::LSB, Mode::CW, Mode::CWR, Mode::AM, Mode::FM, Mode::DRM]
}

/// What a source can do: all but the portable radio deliver IQ, and with it
/// every mode; two can transmit; one is controlled over a serial port.
pub open spec fn abilities(s: SourceConfig) -> CapabilitiesView {
    let kind = kind_of(s);
    let has_iq = kind != SourceKind::PortableRadio;
    CapabilitiesView {
        kind,
        has_iq,
        has_tx: kind == SourceKind::FdmDuo || kind == SourceKind::HackRf,
        has_hardware_cat: kind == SourceKind::FdmDuo,
        supported_demod_modes: if has_iq {
            iq_modes()
        } else {
            Seq::empty()
        },
    }
}

fn all_iq_modes() -> (r: Vec<Mode>)
    ensures
        r@ == iq_modes(),
{
    let modes: Vec<Mode> = vec![
        Mode::USB,
        Mode::LSB,
        Mode::CW,
        Mode::CWR,
        Mode::AM,
        Mode::FM,
        Mode::DRM,
    ];
    modes
}

impl SourceConfig {
    /// The device family of the source.
    pub fn kind(&self) -> (r: SourceKind)
        ensures
            r == kind_of(*self),
    {
        match self {
            SourceConfig::FdmDuo(_) => SourceKind::FdmDuo,
            SourceConfig::HackRf(_) => SourceKind::HackRf,
            SourceConfig::RspDx(_) => SourceKind::RspDx,
            SourceConfig::RtlSdr(_) => SourceKind::RtlSdr,
            SourceConfig::PortableRadio(_) => SourceKind::PortableRadio,
        }
    }

    /// What the source can do.
    pub fn capabilities(&self) -> (r: SourceCapabilities)
        ensures
            r@ == abilities(*self),
    {
        match self {
            SourceConfig::FdmDuo(_) => SourceCapabilities {
                kind: SourceKind::FdmDuo,
                has_iq: true,
                has_tx: true,
                has_hardware_cat: true,
                supported_demod_modes: all_iq_modes(),
            },
            SourceConfig::HackRf(_) => SourceCapabilities {
                kind: SourceKind::HackRf,
                has_iq: true,
                has_tx: true,
                has_hardware_cat: false,
                supported_demod_modes: all_iq_modes(),
            },
            SourceConfig::RspDx(_) => SourceCapabilities {
                kind: SourceKind::RspDx,
                has_iq: true,
                has_tx: false,
                has_hardware_cat: false,
                supported_demod_modes: all_iq_modes(),
            },
            SourceConfig::RtlSdr(_) => SourceCapabilities {
                kind: SourceKind::RtlSdr,
                has_iq: true,
                has_tx: false,
                has_hardware_cat: false,
                supported_demod_modes: all_iq_modes(),
            },
            SourceConfig::PortableRadio(_) => SourceCapabilities {
                kind: SourceKind::PortableRadio,
                has_iq: false,
                has_tx: false,
                has_hardware_cat: false,
                supported_demod_modes: Vec::new(),
            },
        }
    }

    /// Whether a driver can capture IQ from the source: the FDM-DUO's can.
    /// The portable radio has no IQ, and the others have no driver.
    pub fn driver(&self) -> (r: Result<FdmDuoConfig, IqError>)
        ensures
            match r {
                Ok(c) => *self == SourceConfig::FdmDuo(c),
                Err(e) => {
                    &&& !(*self is FdmDuo)
                    &&& e@ == if *self is PortableRadio {
                        IqErrorView::SourceHasNoIq(kind_of(*self))
                    } else {
                        IqErrorView::BackendNotImplemented(kind_of(*self))
                    }
                },
            },
    {
        match self {
            SourceConfig::FdmDuo(c) => Ok(*c),
            SourceConfig::PortableRadio(_) => Err(
                IqError::SourceHasNoIq(SourceKind::PortableRadio),
            ),
            other => Err(IqError::BackendNotImplemented(other.kind())),
        }
    }
}

/// The capabilities of a source agree with each other: a source delivers IQ
/// if and only if its class says so, DRM goes with IQ, and so does every
/// demodulated mode.
pub proof fn law_capabilities_agree(s: SourceConfig)
    ensures
        abilities(s).kind == kind_of(s),
        abilities(s).has_iq == (class_of(kind_of(s)) == SourceClass::Iq),
        abilities(s).has_iq == abilities(s).supported_demod_modes.contains(Mode::DRM),
        !abilities(s).has_iq ==> abilities(s).supported_demod_modes.len() == 0,
        abilities(s).has_tx ==> abilities(s).has_iq,
        abilities(s).has_hardware_cat ==> abilities(s).has_tx,
{
}

/// What the sources can do, as their users know them: every one but the
/// portable radio delivers IQ; the FDM-DUO and the HackRF transmit; and the
/// FDM-DUO alone is controlled over its own port.
pub proof fn law_sources_do_what_they_are_known_for(
    s: &SourceConfig,
    kind: SourceKind,
    c: SourceCapabilities,
)
    requires
        call_ensures(SourceConfig::kind, (s,), kind),
        call_ensures(SourceConfig::capabilities, (s,), c),
    ensures
        c.kind == kind,
        *s is FdmDuo <==> kind == SourceKind::FdmDuo,
        *s is HackRf <==> kind == SourceKind::HackRf,
        *s is RspDx <==> kind == SourceKind::RspDx,
        *s is RtlSdr <==> kind == SourceKind::RtlSdr,
        *s is PortableRadio <==> kind == SourceKind::PortableRadio,
        c.has_iq <==> !(*s is PortableRadio),
        c.has_tx <==> *s is FdmDuo || *s is HackRf,
        c.has_hardware_cat <==> *s is FdmDuo,
{
}

/// From IQ every mode can be received that the radio has a name for, and DRM
/// besides; without IQ none can.
pub proof fn law_iq_brings_every_mode(s: &SourceConfig, c: SourceCapabilities, mode: Mode)
    requires
        call_ensures(SourceConfig::capabilities, (s,), c),
    ensures
        c.supported_demod_modes@.contains(mode) <==> c.has_iq && (mode == Mode::DRM || mode
            != Mode::Unknown && crate::cat::parse::mode_of_digit(
            ((crate::proto::filters::mode_digit(mode)->0) as nat - 48) as nat,
        ) == mode),
        c.supported_demod_modes@.len() == if c.has_iq {
            7int
        } else {
            0
        },
{
    let m = iq_modes();
    assert(m[0] == Mode::USB && m[1] == Mode::LSB && m[2] == Mode::CW && m[3] == Mode::CWR && m[4]
        == Mode::AM && m[5] == Mode::FM && m[6] == Mode::DRM);
}

/// A source has a driver if it is the FDM-DUO, which is opened as it is
/// configured. The others are told apart by why they have none.
pub proof fn law_the_fdm_duo_has_a_driver(s: &SourceConfig, r: Result<FdmDuoConfig, IqError>)
    requires
        call_ensures(SourceConfig::driver, (s,), r),
    ensures
        *s matches SourceConfig::FdmDuo(c) ==> r == Ok::<FdmDuoConfig, IqError>(c),
        *s is PortableRadio ==> (r matches Err(e) && e@ == IqErrorView::SourceHasNoIq(
            SourceKind::PortableRadio,
        )),
        *s is HackRf ==> (r matches Err(e) && e@ == IqErrorView::BackendNotImplemented(
            SourceKind::HackRf,
        )),
        *s is RspDx ==> (r matches Err(e) && e@ == IqErrorView::BackendNotImplemented(
            SourceKind::RspDx,
        )),
        *s is RtlSdr ==> (r matches Err(e) && e@ == IqErrorView::BackendNotImplemented(
            SourceKind::RtlSdr,
        )),
{
}

/// The radio is opened by the numbers by which it is found among the USB
/// devices.
pub proof fn law_the_radio_has_its_numbers(c: FdmDuoConfig)
    requires
        call_ensures(<FdmDuoConfig as Default>::default, (), c),
    ensures
        crate::iq::error::hex4(c.vendor_id as int) == "1721"@,
        crate::iq::error::hex4(c.product_id as int) == "061A"@,
{
    reveal_strlit("1721");
    reveal_strlit("061A");
    assert(crate::iq::error::hex4(0x1721) =~= "1721"@);
    assert(crate::iq::error::hex4(0x061a) =~= "061A"@);
}

/// The radio is known by its vendor and its product.
pub proof fn law_the_radio_is_known_by_its_numbers()
    ensures
        ELAD_VENDOR_ID == 0x1721 && ELAD_PRODUCT_ID == 0x061a,
{
}

} // verus!
