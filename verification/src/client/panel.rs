//! The panel's buttons and labels: what the server's messages make of them,
//! and which messages they send.
use crate::cat::commands::{
    mode_text, set_agc_threshold, set_freq, set_mode, threshold_text, tune_text,
};
use crate::iq::error::{kind_name, kind_text};
use crate::proto::filters::mode_digit;
use crate::proto::messages::{
    Capabilities, ClientMsg, ControlTarget, DeviceId, DeviceList, ServerMsg, StartRecording,
    StateSnapshot,
};
use crate::proto::radio::{
    class_of, DecoderKind, Mode, RecKind, SourceClass, SourceKind, Vfo,
};
use crate::text::{decimal, push_decimal, same_text};
use vstd::prelude::*;
use vstd::string::*;

verus! {

// ---------------------------------------------------------------------------
// Devices
// ---------------------------------------------------------------------------

/// The short name of a device family.
pub open spec fn short_name(kind: SourceKind) -> Seq<char> {
    match kind {
        SourceKind::FdmDuo => "FDM"@,
        SourceKind::HackRf => "HRF"@,
        SourceKind::RspDx => "RSP"@,
        SourceKind::RtlSdr => "RTL"@,
        SourceKind::PortableRadio => "POR"@,
        SourceKind::AudioFile => "AF"@,
        SourceKind::IqFile => "IQF"@,
    }
}

/// The short name of a device family.
pub fn device_short_label(kind: SourceKind) -> (r: &'static str)
    ensures
        r@ == short_name(kind),
{
    match kind {
        SourceKind::FdmDuo => "FDM",
        SourceKind::HackRf => "HRF",
        SourceKind::RspDx => "RSP",
        SourceKind::RtlSdr => "RTL",
        SourceKind::PortableRadio => "POR",
        SourceKind::AudioFile => "AF",
        SourceKind::IqFile => "IQF",
    }
}

/// The label of a device in the list of its class: audio devices are counted,
/// the others go by their family.
pub open spec fn class_label(kind: SourceKind, index: nat) -> Seq<char> {
    match class_of(kind) {
        SourceClass::Audio => "AUD"@ + decimal(index),
        SourceClass::Iq => short_name(kind),
    }
}

/// The label of a device in the list of its class.
pub fn class_short_label(dev: &DeviceId, index_in_class: usize) -> (r: String)
    ensures
        r@ == class_label(dev.kind, index_in_class as nat),
{
    match dev.kind.class() {
        SourceClass::Audio => {
            let mut s: String = "AUD".to_owned();
            push_decimal(&mut s, index_in_class as u64);
            s
        },
        SourceClass::Iq => device_short_label(dev.kind).to_owned(),
    }
}

/// Two identifiers of the same device.
pub open spec fn same_id(a: DeviceId, b: DeviceId) -> bool {
    a.kind == b.kind && a.id@ == b.id@
}

fn is_same(a: &DeviceId, b: &DeviceId) -> (r: bool)
    ensures
        r == same_id(*a, *b),
{
    a.kind == b.kind && same_text(a.id.as_str(), b.id.as_str())
}

/// The place of a device in a list, from `at` on, and the first place where it
/// is not listed.
pub open spec fn place_of(devices: Seq<DeviceId>, dev: DeviceId, at: int) -> int
    decreases devices.len() - at,
{
    if at < 0 || at >= devices.len() {
        0
    } else if same_id(devices[at], dev) {
        at
    } else {
        place_of(devices, dev, at + 1)
    }
}

fn position(devices: &Vec<DeviceId>, dev: &DeviceId) -> (r: usize)
    ensures
        r == place_of(devices@, *dev, 0),
{
    let mut at: usize = 0;
    while at < devices.len()
        invariant
            at <= devices@.len(),
            place_of(devices@, *dev, 0) == place_of(devices@, *dev, at as int),
        decreases devices@.len() - at,
    {
        if is_same(&devices[at], dev) {
            return at;
        }
        at += 1;
    }
    0
}

/// What the display shows of the active device.
#[derive(Debug)]
pub struct ActiveDevice {
    /// Its class, whose chip lights up.
    pub class: SourceClass,
    /// The label below the chip.
    pub label: String,
    /// The active-source pill.
    pub pill: String,
}

/// The tag of a class.
pub open spec fn class_tag(class: SourceClass) -> Seq<char> {
    match class {
        SourceClass::Iq => "IQ"@,
        SourceClass::Audio => "AUD"@,
    }
}

fn tag_of(class: SourceClass) -> (r: &'static str)
    ensures
        r@ == class_tag(class),
{
    match class {
        SourceClass::Iq => "IQ",
        SourceClass::Audio => "AUD",
    }
}

/// The list that a class's devices are in.
pub open spec fn listed(list: DeviceList, class: SourceClass) -> Seq<DeviceId> {
    match class {
        SourceClass::Audio => list.audio_devices@,
        SourceClass::Iq => list.iq_devices@,
    }
}

/// What the display shows of a list's active device; `None` leaves it as it
/// is.
pub fn active_device(list: &DeviceList) -> (r: Option<ActiveDevice>)
    ensures
        match list.active {
            Some(dev) => {
                let class = class_of(dev.kind);
                &&& r matches Some(shown)
                &&& shown.class == class
                &&& shown.label@ == class_label(
                    dev.kind,
                    place_of(listed(*list, class), dev, 0) as nat,
                )
                &&& shown.pill@ == short_name(dev.kind) + " "@ + class_tag(class)
            },
            None => r is None,
        },
{
    match &list.active {
        Some(dev) => {
            let class = dev.kind.class();
            let index: usize = match class {
                SourceClass::Audio => position(&list.audio_devices, dev),
                SourceClass::Iq => position(&list.iq_devices, dev),
            };
            let mut pill: String = device_short_label(dev.kind).to_owned();
            pill.append(" ");
            pill.append(tag_of(class));
            Some(ActiveDevice { class, label: class_short_label(dev, index), pill })
        },
        None => None,
    }
}

/// Whether a list's active device makes the spectrum stale: an audio source
/// has none.
pub fn clears_spectrum(list: &DeviceList) -> (r: bool)
    ensures
        r == (list.active matches Some(dev) && class_of(dev.kind) == SourceClass::Audio),
{
    match &list.active {
        Some(dev) => match dev.kind.class() {
            SourceClass::Audio => true,
            SourceClass::Iq => false,
        },
        None => false,
    }
}

/// Whether a message changes the picture: a new spectrum does, and a list that
/// makes the old one stale.
pub fn needs_redraw(msg: &ServerMsg) -> (r: bool)
    ensures
        r == (match *msg {
            ServerMsg::FftBins(_) => true,
            ServerMsg::DeviceList(list) => list.active matches Some(dev) && class_of(dev.kind)
                == SourceClass::Audio,
            _ => false,
        }),
{
    match msg {
        ServerMsg::FftBins(_) => true,
        ServerMsg::DeviceList(list) => clears_spectrum(list),
        _ => false,
    }
}

/// A device that can be picked: not the placeholder of a file.
pub open spec fn is_real(dev: DeviceId) -> bool {
    !((dev.kind == SourceKind::AudioFile || dev.kind == SourceKind::IqFile) && dev.id@.len() == 0)
}

/// The devices of a list that can be picked, in their order.
pub open spec fn real_of(devices: Seq<DeviceId>) -> Seq<(SourceKind, Seq<char>)>
    decreases devices.len(),
{
    if devices.len() == 0 {
        Seq::empty()
    } else if is_real(devices.last()) {
        real_of(devices.drop_last()).push((devices.last().kind, devices.last().id@))
    } else {
        real_of(devices.drop_last())
    }
}

/// Identifiers as mathematics.
pub open spec fn id_views(devices: Seq<DeviceId>) -> Seq<(SourceKind, Seq<char>)> {
    Seq::new(devices.len(), |i: int| (devices[i].kind, devices[i].id@))
}

/// The devices of a list that can be picked.
pub fn real_devices(devices: &Vec<DeviceId>) -> (r: Vec<DeviceId>)
    ensures
        id_views(r@) == real_of(devices@),
{
    let mut out: Vec<DeviceId> = Vec::new();
    let mut i: usize = 0;
    while i < devices.len()
        invariant
            i <= devices@.len(),
            id_views(out@) == real_of(devices@.take(i as int)),
        decreases devices@.len() - i,
    {
        let dev: &DeviceId = &devices[i];
        assert(devices@.take(i + 1).drop_last() =~= devices@.take(i as int));
        let is_file: bool = match dev.kind {
            SourceKind::AudioFile | SourceKind::IqFile => true,
            _ => false,
        };
        if !(is_file && dev.id.as_str().is_empty()) {
            out.push(DeviceId { kind: dev.kind, id: dev.id.clone() });
        }
        i += 1;
    }
    assert(devices@.take(i as int) =~= devices@);
    out
}

/// Only devices that can be picked are offered.
pub proof fn law_only_real_devices_are_offered(devices: Seq<DeviceId>, k: int)
    requires
        0 <= k < real_of(devices).len(),
    ensures
        !((real_of(devices)[k].0 == SourceKind::AudioFile || real_of(devices)[k].0
            == SourceKind::IqFile) && real_of(devices)[k].1.len() == 0),
    decreases devices.len(),
{
    if devices.len() > 0 {
        if k < real_of(devices.drop_last()).len() {
            law_only_real_devices_are_offered(devices.drop_last(), k);
        }
    }
}

/// Picking a device selects the class of the list it was picked from, and
/// then the device.
pub fn pick_messages(class: SourceClass, dev: &DeviceId) -> (r: Vec<ClientMsg>)
    ensures
        r@.len() == 2,
        r@[0] == ClientMsg::SelectSource(class),
        r@[1] matches ClientMsg::SelectDevice(d) && same_id(d, *dev),
{
    let mut out: Vec<ClientMsg> = Vec::new();
    out.push(ClientMsg::SelectSource(class));
    out.push(ClientMsg::SelectDevice(DeviceId { kind: dev.kind, id: dev.id.clone() }));
    out
}

// ---------------------------------------------------------------------------
// Modes
// ---------------------------------------------------------------------------

/// A mode that can be chosen, and its name.
#[derive(Debug, Clone, Copy)]
pub struct ModeChoice {
    pub label: &'static str,
    pub mode: Mode,
}

/// The modes of the list, in its order.
pub open spec fn list_modes() -> Seq<Mode> {
    seq![Mode::LSB, Mode::USB, Mode::CW, Mode::CWR, Mode::AM, Mode::FM, Mode::DRM]
}

/// Their names.
pub open spec fn list_labels() -> Seq<Seq<char>> {
    seq!["LSB"@, "USB"@, "CW"@, "CWR"@, "AM"@, "FM"@, "DRM"@]
}

/// The modes of some choices.
pub open spec fn modes_of(choices: Seq<ModeChoice>) -> Seq<Mode> {
    Seq::new(choices.len(), |i: int| choices[i].mode)
}

/// The names of some choices.
pub open spec fn labels_of(choices: Seq<ModeChoice>) -> Seq<Seq<char>> {
    Seq::new(choices.len(), |i: int| choices[i].label@)
}

/// The modes that can be chosen from the list.
pub fn mode_list() -> (r: Vec<ModeChoice>)
    ensures
        modes_of(r@) == list_modes(),
        labels_of(r@) == list_labels(),
{
    let r: Vec<ModeChoice> = vec![
        ModeChoice { label: "LSB", mode: Mode::LSB },
        ModeChoice { label: "USB", mode: Mode::USB },
        ModeChoice { label: "CW", mode: Mode::CW },
        ModeChoice { label: "CWR", mode: Mode::CWR },
        ModeChoice { label: "AM", mode: Mode::AM },
        ModeChoice { label: "FM", mode: Mode::FM },
        ModeChoice { label: "DRM", mode: Mode::DRM },
    ];
    r
}

/// The modes that have a button, in its order.
pub open spec fn button_modes() -> Seq<Mode> {
    seq![
        Mode::AM,
        Mode::SAM,
        Mode::DSB,
        Mode::USB,
        Mode::LSB,
        Mode::CW,
        Mode::CWR,
        Mode::FM,
    ]
}

/// The names on the mode buttons.
pub open spec fn button_labels() -> Seq<Seq<char>> {
    seq!["AM"@, "SAM"@, "DSB"@, "USB"@, "LSB"@, "CWᵤ"@, "CWₗ"@, "FMₙ"@]
}

/// The mode buttons.
pub fn mode_buttons() -> (r: Vec<ModeChoice>)
    ensures
        modes_of(r@) == button_modes(),
        labels_of(r@) == button_labels(),
{
    let r: Vec<ModeChoice> = vec![
        ModeChoice { label: "AM", mode: Mode::AM },
        ModeChoice { label: "SAM", mode: Mode::SAM },
        ModeChoice { label: "DSB", mode: Mode::DSB },
        ModeChoice { label: "USB", mode: Mode::USB },
        ModeChoice { label: "LSB", mode: Mode::LSB },
        ModeChoice { label: "CWᵤ", mode: Mode::CW },
        ModeChoice { label: "CWₗ", mode: Mode::CWR },
        ModeChoice { label: "FMₙ", mode: Mode::FM },
    ];
    r
}

/// Choosing a mode sets the demodulator, and the radio where it has a command
/// for the mode.
pub fn mode_messages(mode: Mode) -> (r: Vec<ClientMsg>)
    ensures
        r@.len() == (if mode_digit(mode) is Some {
            2int
        } else {
            1
        }),
        r@[0] == ClientMsg::SetDemodMode(Some(mode)),
        mode_digit(mode) matches Some(digit) ==> (r@[1] matches ClientMsg::CatCommand(cmd)
            && cmd.raw@ == mode_text(digit)),
{
    let mut out: Vec<ClientMsg> = Vec::new();
    out.push(ClientMsg::SetDemodMode(Some(mode)));
    match set_mode(mode) {
        Some(cmd) => {
            out.push(ClientMsg::CatCommand(cmd));
        },
        None => {},
    }
    out
}

/// What a click on a mode button does.
#[derive(Debug, Clone, Copy, PartialEq, Eq, Structural)]
pub enum ModeClick {
    /// The button was pressed already: it stays so, and nothing else happens.
    Stay,
    /// The mode is chosen, and every other button comes up. The DRM lines and
    /// the flip button go with the DRM mode.
    Choose { drm: bool },
}

/// What a click does that leaves a mode's button pressed or not.
pub fn mode_click(mode: Mode, pressed: bool) -> (r: ModeClick)
    ensures
        r == (if pressed {
            ModeClick::Choose { drm: mode == Mode::DRM }
        } else {
            ModeClick::Stay
        }),
{
    if pressed {
        ModeClick::Choose { drm: mode == Mode::DRM }
    } else {
        ModeClick::Stay
    }
}

/// Which mode buttons are pressed in a mode.
pub fn pressed_modes(mode: Mode) -> (r: Vec<bool>)
    ensures
        r@.len() == button_modes().len(),
        forall|k: int| 0 <= k < r@.len() ==> #[trigger] r@[k] == (button_modes()[k] == mode),
{
    let buttons: Vec<ModeChoice> = mode_buttons();
    let mut out: Vec<bool> = Vec::new();
    let mut i: usize = 0;
    while i < buttons.len()
        invariant
            i <= buttons@.len(),
            modes_of(buttons@) == button_modes(),
            out@.len() == i,
            forall|k: int| 0 <= k < i ==> #[trigger] out@[k] == (button_modes()[k] == mode),
        decreases buttons@.len() - i,
    {
        out.push(buttons[i].mode == mode);
        i += 1;
    }
    out
}

/// At most one mode button is pressed, and exactly one where the mode has
/// a button.
pub proof fn law_one_mode_is_pressed(mode: Mode)
    ensures
        forall|i: int, j: int|
            0 <= i < button_modes().len() && 0 <= j < button_modes().len()
                && #[trigger] button_modes()[i] == mode && #[trigger] button_modes()[j] == mode
                ==> i == j,
        button_modes().contains(mode) <==> !(mode == Mode::SAMU || mode == Mode::SAML || mode
            == Mode::DRM || mode == Mode::Unknown),
{
}

// ---------------------------------------------------------------------------
// Decoders and other switches
// ---------------------------------------------------------------------------

/// A decoder's button.
#[derive(Debug, Clone, Copy)]
pub struct DecoderChoice {
    pub label: &'static str,
    pub decoder: DecoderKind,
    /// Digital voice rather than an audio decoder.
    pub voice: bool,
}

/// The decoders that have a button, in its order. The last two stand for DRM
/// and FreeDV, which have no kind of their own.
pub open spec fn button_decoders() -> Seq<DecoderKind> {
    seq![
        DecoderKind::Cw,
        DecoderKind::Psk,
        DecoderKind::Mfsk,
        DecoderKind::Rtty,
        DecoderKind::Fax,
        DecoderKind::Pckt,
        DecoderKind::Ft8,
        DecoderKind::Aprs,
    ]
}

/// The names on the decoder buttons.
pub open spec fn decoder_labels() -> Seq<Seq<char>> {
    seq!["CW"@, "PSK"@, "MFSK"@, "RTTY"@, "FAX"@, "PCKT"@, "DRM"@, "FDV"@]
}

/// The decoder buttons.
pub fn decoder_buttons() -> (r: Vec<DecoderChoice>)
    ensures
        r@.len() == 8,
        forall|k: int|
            0 <= k < 8 ==> {
                &&& (#[trigger] r@[k]).decoder == button_decoders()[k]
                &&& r@[k].label@ == decoder_labels()[k]
                &&& r@[k].voice == (k >= 6)
            },
{
    vec![
        DecoderChoice { label: "CW", decoder: DecoderKind::Cw, voice: false },
        DecoderChoice { label: "PSK", decoder: DecoderKind::Psk, voice: false },
        DecoderChoice { label: "MFSK", decoder: DecoderKind::Mfsk, voice: false },
        DecoderChoice { label: "RTTY", decoder: DecoderKind::Rtty, voice: false },
        DecoderChoice { label: "FAX", decoder: DecoderKind::Fax, voice: false },
        DecoderChoice { label: "PCKT", decoder: DecoderKind::Pckt, voice: false },
        DecoderChoice { label: "DRM", decoder: DecoderKind::Ft8, voice: true },
        DecoderChoice { label: "FDV", decoder: DecoderKind::Aprs, voice: true },
    ]
}

fn has_decoder(decoders: &Vec<DecoderKind>, kind: DecoderKind) -> (r: bool)
    ensures
        r == decoders@.contains(kind),
{
    let mut i: usize = 0;
    while i < decoders.len()
        invariant
            i <= decoders@.len(),
            forall|k: int| 0 <= k < i ==> decoders@[k] != kind,
        decreases decoders@.len() - i,
    {
        if decoders[i] == kind {
            return true;
        }
        i += 1;
    }
    false
}

/// The switches as a snapshot sets them.
#[derive(Debug)]
pub struct Switches {
    pub nb: bool,
    pub apf: bool,
    pub dnr: bool,
    pub dnf: bool,
    /// The mode buttons, in their order.
    pub modes: Vec<bool>,
    /// The decoder buttons, in their order.
    pub decoders: Vec<bool>,
}

/// The switches for a snapshot: every stage and decoder as it is kept, and the
/// button of its mode.
pub fn apply_snapshot(snap: &StateSnapshot) -> (r: Switches)
    ensures
        r.nb == snap.nb_on,
        r.apf == snap.apf_on,
        r.dnr == snap.dnr_on,
        r.dnf == snap.dnf_on,
        r.modes@.len() == button_modes().len(),
        forall|k: int|
            0 <= k < r.modes@.len() ==> #[trigger] r.modes@[k] == (button_modes()[k] == snap.mode),
        r.decoders@.len() == button_decoders().len(),
        forall|k: int|
            0 <= k < r.decoders@.len() ==> #[trigger] r.decoders@[k]
                == snap.enabled_decoders@.contains(button_decoders()[k]),
{
    let buttons: Vec<DecoderChoice> = decoder_buttons();
    let mut decoders: Vec<bool> = Vec::new();
    let mut i: usize = 0;
    while i < 8
        invariant
            i <= 8,
            buttons@.len() == 8,
            forall|k: int| 0 <= k < 8 ==> (#[trigger] buttons@[k]).decoder == button_decoders()[k],
            decoders@.len() == i,
            forall|k: int|
                0 <= k < i ==> #[trigger] decoders@[k] == snap.enabled_decoders@.contains(
                    button_decoders()[k],
                ),
        decreases 8 - i,
    {
        decoders.push(has_decoder(&snap.enabled_decoders, buttons[i].decoder));
        i += 1;
    }
    Switches {
        nb: snap.nb_on,
        apf: snap.apf_on,
        dnr: snap.dnr_on,
        dnf: snap.dnf_on,
        modes: pressed_modes(snap.mode),
        decoders,
    }
}

/// The recording button starts a recording of the audio at a place of the
/// server's choice, and stops it.
pub fn record_message(on: bool) -> (r: ClientMsg)
    ensures
        on ==> (r matches ClientMsg::StartRecording(s) && s.kind == RecKind::Audio && s.path
            is None),
        !on ==> r is StopRecording,
{
    if on {
        ClientMsg::StartRecording(StartRecording { kind: RecKind::Audio, path: None })
    } else {
        ClientMsg::StopRecording
    }
}

/// A typed frequency tunes the radio.
pub fn freq_message(hz: u64) -> (r: ClientMsg)
    ensures
        r matches ClientMsg::CatCommand(cmd) && cmd.raw@ == tune_text(Vfo::A, hz as nat),
{
    ClientMsg::CatCommand(set_freq(hz))
}

/// A typed threshold goes to the radio.
pub fn agc_message(threshold: u8) -> (r: ClientMsg)
    ensures
        r matches ClientMsg::CatCommand(cmd) && cmd.raw@ == threshold_text(
            if threshold <= 10 {
                threshold as nat
            } else {
                10
            },
        ),
{
    ClientMsg::CatCommand(set_agc_threshold(threshold))
}

// ---------------------------------------------------------------------------
// Capabilities
// ---------------------------------------------------------------------------

/// How a class's chip looks.
#[derive(Debug, Clone, Copy, PartialEq, Eq, Structural)]
pub enum ChipState {
    /// Selected.
    Active,
    /// Could be selected.
    Inactive,
    /// Not available.
    Disabled,
}

/// How a chip looks: a class that is not available is shown as such, selected
/// or not.
pub open spec fn chip_of(selected: bool, available: bool) -> ChipState {
    if !available {
        ChipState::Disabled
    } else if selected {
        ChipState::Active
    } else {
        ChipState::Inactive
    }
}

/// How a chip looks.
pub fn chip_state(selected: bool, available: bool) -> (r: ChipState)
    ensures
        r == chip_of(selected, available),
{
    if !available {
        ChipState::Disabled
    } else if selected {
        ChipState::Active
    } else {
        ChipState::Inactive
    }
}

/// What the panel looks like for a source.
#[derive(Debug)]
pub struct PanelState {
    /// Controls that act on the radio or the demodulator can be used.
    pub live: bool,
    pub show_ptt: bool,
    /// The gain control and frequency tiles.
    pub show_tiles: bool,
    pub show_audio_picker: bool,
    pub show_iq_picker: bool,
    pub audio_chip: ChipState,
    pub iq_chip: ChipState,
    /// The active-source pill.
    pub pill: String,
    /// The audio routing.
    pub routing: &'static str,
    pub flip: bool,
    /// The threshold is to be sent to the radio.
    pub send_threshold: bool,
}

/// The tag of a source: audio where there is no IQ.
pub open spec fn source_tag(has_iq: bool, has_usb_audio: bool) -> Seq<char> {
    if has_usb_audio && !has_iq {
        "AUD"@
    } else {
        "IQ"@
    }
}

/// Fits the panel to what the source can do.
pub fn apply_capabilities(caps: &Capabilities) -> (r: PanelState)
    ensures
        r.live == (caps.control_target != ControlTarget::Nowhere),
        r.show_ptt == caps.has_tx,
        r.show_tiles == caps.has_hardware_cat,
        r.show_audio_picker == caps.has_usb_audio,
        r.show_iq_picker == caps.has_iq,
        r.audio_chip == chip_of(class_of(caps.source) == SourceClass::Audio, caps.has_usb_audio),
        r.iq_chip == chip_of(class_of(caps.source) == SourceClass::Iq, caps.has_iq),
        r.pill@ == kind_text(caps.source) + " "@ + source_tag(caps.has_iq, caps.has_usb_audio),
        r.routing@ == (if caps.has_usb_audio && !caps.has_iq {
            "PASSTHROUGH"@
        } else {
            "SWDEMOD"@
        }),
        r.flip == caps.drm_flip_spectrum,
        r.send_threshold == (caps.has_hardware_cat && caps.control_target == ControlTarget::Radio),
{
    let class = caps.source.class();
    let audio_only: bool = caps.has_usb_audio && !caps.has_iq;
    let mut pill: String = kind_name(caps.source).to_owned();
    pill.append(" ");
    if audio_only {
        pill.append("AUD");
    } else {
        pill.append("IQ");
    }
    PanelState {
        live: caps.control_target != ControlTarget::Nowhere,
        show_ptt: caps.has_tx,
        show_tiles: caps.has_hardware_cat,
        show_audio_picker: caps.has_usb_audio,
        show_iq_picker: caps.has_iq,
        audio_chip: chip_state(class == SourceClass::Audio, caps.has_usb_audio),
        iq_chip: chip_state(class == SourceClass::Iq, caps.has_iq),
        pill,
        routing: if audio_only {
            "PASSTHROUGH"
        } else {
            "SWDEMOD"
        },
        flip: caps.drm_flip_spectrum,
        send_threshold: caps.has_hardware_cat && caps.control_target == ControlTarget::Radio,
    }
}

/// The choices whose mode is supported, in their order.
pub open spec fn offered(all: Seq<ModeChoice>, supported: Seq<Mode>) -> Seq<ModeChoice>
    decreases all.len(),
{
    if all.len() == 0 {
        Seq::empty()
    } else if supported.contains(all.last().mode) {
        offered(all.drop_last(), supported).push(all.last())
    } else {
        offered(all.drop_last(), supported)
    }
}

/// The place of a mode among choices, from `at` on.
pub open spec fn choice_at(choices: Seq<ModeChoice>, mode: Mode, at: int) -> Option<int>
    decreases choices.len() - at,
{
    if at < 0 || at >= choices.len() {
        None
    } else if choices[at].mode == mode {
        Some(at)
    } else {
        choice_at(choices, mode, at + 1)
    }
}

/// The choice that is selected when the choices change: the mode from before,
/// else the upper sideband, else the first.
pub open spec fn selected_after(choices: Seq<ModeChoice>, before: Option<Mode>) -> int {
    let kept = match before {
        Some(m) => choice_at(choices, m, 0),
        None => None,
    };
    match kept {
        Some(k) => k,
        None => match choice_at(choices, Mode::USB, 0) {
            Some(k) => k,
            None => 0,
        },
    }
}

fn has_mode(modes: &Vec<Mode>, mode: Mode) -> (r: bool)
    ensures
        r == modes@.contains(mode),
{
    let mut i: usize = 0;
    while i < modes.len()
        invariant
            i <= modes@.len(),
            forall|k: int| 0 <= k < i ==> modes@[k] != mode,
        decreases modes@.len() - i,
    {
        if modes[i] == mode {
            return true;
        }
        i += 1;
    }
    false
}

fn find_choice(choices: &Vec<ModeChoice>, mode: Mode) -> (r: Option<usize>)
    ensures
        match r {
            Some(k) => choice_at(choices@, mode, 0) == Some(k as int),
            None => choice_at(choices@, mode, 0) is None,
        },
{
    let mut at: usize = 0;
    while at < choices.len()
        invariant
            at <= choices@.len(),
            choice_at(choices@, mode, 0) == choice_at(choices@, mode, at as int),
        decreases choices@.len() - at,
    {
        if choices[at].mode == mode {
            return Some(at);
        }
        at += 1;
    }
    None
}

/// The mode list for a source.
#[derive(Debug)]
pub struct ModeMenu {
    pub choices: Vec<ModeChoice>,
    pub selected: usize,
}

/// The mode list for what a source supports, and the choice that is selected
/// in it after a mode before. `None` leaves the list as it is: a source that
/// supports none of the modes does not change it.
pub fn mode_menu(supported: &Vec<Mode>, before: Option<Mode>) -> (r: Option<ModeMenu>)
    ensures
        match r {
            Some(menu) => {
                &&& menu.choices@.len() > 0
                &&& exists|all: Seq<ModeChoice>|
                    {
                        &&& modes_of(all) == list_modes()
                        &&& labels_of(all) == list_labels()
                        &&& menu.choices@ == #[trigger] offered(all, supported@)
                    }
                &&& menu.selected == selected_after(menu.choices@, before)
            },
            None => forall|k: int|
                0 <= k < list_modes().len() ==> !supported@.contains(#[trigger] list_modes()[k]),
        },
{
    let all: Vec<ModeChoice> = mode_list();
    let mut choices: Vec<ModeChoice> = Vec::new();
    let mut i: usize = 0;
    while i < all.len()
        invariant
            i <= all@.len(),
            modes_of(all@) == list_modes(),
            choices@ == offered(all@.take(i as int), supported@),
            choices@.len() == 0 ==> forall|k: int|
                0 <= k < i ==> !supported@.contains(#[trigger] list_modes()[k]),
        decreases all@.len() - i,
    {
        assert(all@.take(i + 1).drop_last() =~= all@.take(i as int));
        if has_mode(supported, all[i].mode) {
            choices.push(all[i]);
        }
        i += 1;
    }
    if choices.len() == 0 {
        return None;
    }
    let kept: Option<usize> = match before {
        Some(m) => find_choice(&choices, m),
        None => None,
    };
    let selected: usize = match kept {
        Some(k) => k,
        None => match find_choice(&choices, Mode::USB) {
            Some(k) => k,
            None => 0,
        },
    };
    Some(ModeMenu { choices, selected })
}

proof fn lemma_choice_at(choices: Seq<ModeChoice>, mode: Mode, at: int)
    requires
        0 <= at,
    ensures
        match choice_at(choices, mode, at) {
            Some(k) => at <= k < choices.len() && choices[k].mode == mode,
            None => forall|j: int| at <= j < choices.len() ==> (#[trigger] choices[j]).mode != mode,
        },
    decreases choices.len() - at,
{
    if at < choices.len() && choices[at].mode != mode {
        lemma_choice_at(choices, mode, at + 1);
    }
}

/// What is selected is a choice, and a mode that is still offered stays
/// selected.
pub proof fn law_selection_is_kept(choices: Seq<ModeChoice>, before: Mode)
    requires
        choices.len() > 0,
    ensures
        0 <= selected_after(choices, Some(before)) < choices.len(),
        (exists|k: int| 0 <= k < choices.len() && (#[trigger] choices[k]).mode == before)
            ==> choices[selected_after(choices, Some(before))].mode == before,
{
    lemma_choice_at(choices, before, 0);
    lemma_choice_at(choices, Mode::USB, 0);
}

/// Only supported modes are offered.
pub proof fn law_only_supported_modes_are_offered(
    all: Seq<ModeChoice>,
    supported: Seq<Mode>,
    k: int,
)
    requires
        0 <= k < offered(all, supported).len(),
    ensures
        supported.contains(offered(all, supported)[k].mode),
    decreases all.len(),
{
    if all.len() > 0 {
        if k < offered(all.drop_last(), supported).len() {
            law_only_supported_modes_are_offered(all.drop_last(), supported, k);
        }
    }
}

// ---------------------------------------------------------------------------
// Laws
// ---------------------------------------------------------------------------

/// Every device family has its own name and its own short name.
pub proof fn law_families_are_told_apart(a: SourceKind, b: SourceKind)
    ensures
        short_name(a) == short_name(b) ==> a == b,
        kind_text(a) == kind_text(b) ==> a == b,
{
    reveal_strlit("FDM");
    reveal_strlit("HRF");
    reveal_strlit("RSP");
    reveal_strlit("RTL");
    reveal_strlit("POR");
    reveal_strlit("AF");
    reveal_strlit("IQF");
    reveal_strlit("FdmDuo");
    reveal_strlit("HackRf");
    reveal_strlit("RspDx");
    reveal_strlit("RtlSdr");
    reveal_strlit("PortableRadio");
    reveal_strlit("AudioFile");
    reveal_strlit("IqFile");
    assert("FDM"@[0] == 'F' && "HRF"@[0] == 'H' && "RSP"@[1] == 'S' && "RTL"@[1] == 'T'
        && "POR"@[0] == 'P' && "AF"@[0] == 'A' && "IQF"@[0] == 'I' && "RSP"@[0] == 'R'
        && "RTL"@[0] == 'R');
    assert("FdmDuo"@[0] == 'F' && "HackRf"@[0] == 'H' && "RspDx"@[1] == 's' && "RtlSdr"@[1] == 't'
        && "PortableRadio"@[0] == 'P' && "AudioFile"@[0] == 'A' && "IqFile"@[0] == 'I'
        && "RspDx"@[0] == 'R' && "RtlSdr"@[0] == 'R');
}

/// The short names are the first letters of the makers' names.
pub proof fn law_short_names(kind: SourceKind, r: &'static str)
    requires
        call_ensures(device_short_label, (kind,), r),
    ensures
        match kind {
            SourceKind::FdmDuo => r@ == "FDM"@,
            SourceKind::HackRf => r@ == "HRF"@,
            SourceKind::RspDx => r@ == "RSP"@,
            SourceKind::RtlSdr => r@ == "RTL"@,
            SourceKind::PortableRadio => r@ == "POR"@,
            SourceKind::AudioFile => r@ == "AF"@,
            SourceKind::IqFile => r@ == "IQF"@,
        },
{
}

/// Portable radios and audio files are audio, and every other family is IQ.
pub proof fn law_classes_of_families(kind: SourceKind, r: SourceClass)
    requires
        call_ensures(SourceKind::class, (kind,), r),
    ensures
        r == SourceClass::Audio <==> kind == SourceKind::PortableRadio || kind
            == SourceKind::AudioFile,
{
}

/// Audio devices are labelled by their place in the list, and all others by
/// their family, wherever they stand.
pub proof fn law_labels_count_audio_devices(
    dev: &DeviceId,
    i: usize,
    j: usize,
    a: String,
    b: String,
)
    requires
        call_ensures(class_short_label, (dev, i), a),
        call_ensures(class_short_label, (dev, j), b),
    ensures
        class_of(dev.kind) == SourceClass::Iq ==> a@ == b@ && a@ == short_name(dev.kind),
        class_of(dev.kind) == SourceClass::Audio ==> a@ == seq!['A', 'U', 'D'] + decimal(i as nat)
            && (a@ == b@ ==> i == j),
{
    reveal_strlit("AUD");
    assert("AUD"@ =~= seq!['A', 'U', 'D']);
    crate::text::lemma_decimal(i as nat);
    crate::text::lemma_decimal(j as nat);
    if class_of(dev.kind) == SourceClass::Audio && a@ == b@ {
        assert(a@.skip(3) =~= decimal(i as nat));
        assert(b@.skip(3) =~= decimal(j as nat));
    }
}

proof fn lemma_place(devices: Seq<DeviceId>, dev: DeviceId, at: int, k: int)
    requires
        0 <= at <= k < devices.len(),
        same_id(devices[k], dev),
        forall|i: int| at <= i < k ==> !same_id(#[trigger] devices[i], dev),
    ensures
        place_of(devices, dev, at) == k,
    decreases k - at,
{
    if at < k {
        lemma_place(devices, dev, at + 1, k);
    }
}

/// The active device lights the chip of its class and is labelled by its
/// place in the list of that class; the pill names its family and class.
pub proof fn law_the_active_device_is_shown(
    list: &DeviceList,
    dev: DeviceId,
    k: int,
    r: Option<ActiveDevice>,
)
    requires
        call_ensures(active_device, (list,), r),
        list.active == Some(dev),
    ensures
        r matches Some(shown) && {
            &&& shown.class == class_of(dev.kind)
            &&& class_of(dev.kind) == SourceClass::Iq ==> shown.label@ == short_name(dev.kind)
                && shown.pill@ == short_name(dev.kind) + " "@ + "IQ"@
            &&& class_of(dev.kind) == SourceClass::Audio ==> shown.pill@ == short_name(dev.kind)
                + " "@ + "AUD"@
            &&& class_of(dev.kind) == SourceClass::Audio && 0 <= k < list.audio_devices@.len()
                && same_id(list.audio_devices@[k], dev) && (forall|i: int|
                0 <= i < k ==> !same_id(#[trigger] list.audio_devices@[i], dev)) ==> shown.label@
                == "AUD"@ + decimal(k as nat)
        },
{
    if class_of(dev.kind) == SourceClass::Audio && 0 <= k < list.audio_devices@.len() && same_id(
        list.audio_devices@[k],
        dev,
    ) && (forall|i: int| 0 <= i < k ==> !same_id(#[trigger] list.audio_devices@[i], dev)) {
        lemma_place(list.audio_devices@, dev, 0, k);
    }
}

/// Without an active device nothing is shown and nothing is cleared.
pub proof fn law_no_active_device_changes_nothing(
    list: &DeviceList,
    shown: Option<ActiveDevice>,
    clears: bool,
)
    requires
        list.active is None,
        call_ensures(active_device, (list,), shown),
        call_ensures(clears_spectrum, (list,), clears),
    ensures
        shown is None,
        !clears,
{
}

/// An audio source has no spectrum, and every IQ source has one. The picture
/// is drawn again for a new spectrum, and where the old one goes.
pub proof fn law_only_audio_sources_clear_the_spectrum(
    list: DeviceList,
    clears: bool,
    msg: &ServerMsg,
    redraw: bool,
)
    requires
        call_ensures(clears_spectrum, (&list,), clears),
        call_ensures(needs_redraw, (msg,), redraw),
    ensures
        clears <==> (list.active matches Some(d) && (d.kind == SourceKind::PortableRadio || d.kind
            == SourceKind::AudioFile)),
        *msg is FftBins ==> redraw,
        *msg == ServerMsg::DeviceList(list) ==> redraw == clears,
        !(*msg is FftBins) && !(*msg is DeviceList) ==> !redraw,
{
}

/// A device is picked in the list it was picked from, as itself.
pub proof fn law_picking_selects_the_list_then_the_device(
    class: SourceClass,
    dev: &DeviceId,
    r: Vec<ClientMsg>,
)
    requires
        call_ensures(pick_messages, (class, dev), r),
    ensures
        r@.len() == 2,
        r@[0] == ClientMsg::SelectSource(class),
        r@[1] matches ClientMsg::SelectDevice(d) && d.kind == dev.kind && d.id@ == dev.id@,
{
}

proof fn lemma_real_are_kept(devices: Seq<DeviceId>, k: int)
    requires
        0 <= k < devices.len(),
        is_real(devices[k]),
    ensures
        real_of(devices).contains((devices[k].kind, devices[k].id@)),
        real_of(devices).len() <= devices.len(),
    decreases devices.len(),
{
    lemma_real_len(devices);
    let last = devices.len() - 1;
    if k == last {
        let r = real_of(devices);
        assert(r[r.len() - 1] == (devices[k].kind, devices[k].id@));
    } else {
        let shorter = devices.drop_last();
        lemma_real_are_kept(shorter, k);
        let r = real_of(shorter);
        let i = choose|i: int| 0 <= i < r.len() && r[i] == (devices[k].kind, devices[k].id@);
        assert(real_of(devices)[i] == r[i]);
    }
}

proof fn lemma_real_len(devices: Seq<DeviceId>)
    ensures
        real_of(devices).len() <= devices.len(),
    decreases devices.len(),
{
    if devices.len() > 0 {
        lemma_real_len(devices.drop_last());
    }
}

/// Every device that can be picked is offered: all but files without a name.
pub proof fn law_every_real_device_is_offered(
    devices: &Vec<DeviceId>,
    k: int,
    r: Vec<DeviceId>,
)
    requires
        call_ensures(real_devices, (devices,), r),
        0 <= k < devices@.len(),
        devices@[k].id@.len() > 0 || !(devices@[k].kind == SourceKind::AudioFile || devices@[k].kind
            == SourceKind::IqFile),
    ensures
        exists|i: int|
            0 <= i < r@.len() && (#[trigger] r@[i]).kind == devices@[k].kind && r@[i].id@
                == devices@[k].id@,
        r@.len() <= devices@.len(),
{
    lemma_real_are_kept(devices@, k);
    let v = real_of(devices@);
    let i = choose|i: int| 0 <= i < v.len() && v[i] == (devices@[k].kind, devices@[k].id@);
    assert(id_views(r@)[i] == v[i]);
    assert(r@[i].kind == devices@[k].kind);
}

/// The list names its modes as they are kept between sessions, and the
/// buttons show what the tuning line shows, without markup where there is
/// none.
pub proof fn law_modes_go_by_their_names(list: Vec<ModeChoice>, buttons: Vec<ModeChoice>, k: int)
    requires
        call_ensures(mode_list, (), list),
        call_ensures(mode_buttons, (), buttons),
    ensures
        list@.len() == 7,
        0 <= k < 7 ==> list@[k].label@ == crate::client::params::mode_name(list@[k].mode),
        buttons@.len() == 8,
        0 <= k < 8 ==> {
            let mode = buttons@[k].mode;
            &&& mode == Mode::CW ==> buttons@[k].label@ == "CWᵤ"@
            &&& mode == Mode::CWR ==> buttons@[k].label@ == "CWₗ"@
            &&& mode == Mode::FM ==> buttons@[k].label@ == "FMₙ"@
            &&& mode != Mode::CW && mode != Mode::CWR && mode != Mode::FM ==> buttons@[k].label@
                == crate::client::tuning::mode_label(mode)
        },
{
    assert(modes_of(list@).len() == 7 && labels_of(list@).len() == 7);
    assert(modes_of(buttons@).len() == 8 && labels_of(buttons@).len() == 8);
    if 0 <= k < 7 {
        assert(modes_of(list@)[k] == list@[k].mode && labels_of(list@)[k] == list@[k].label@);
    }
    if 0 <= k < 8 {
        assert(modes_of(buttons@)[k] == buttons@[k].mode && labels_of(buttons@)[k]
            == buttons@[k].label@);
    }
}

/// A mode that is chosen goes to the demodulator as itself, and to the radio
/// by the radio's own command for it.
pub proof fn law_chosen_modes_go_to_both(
    mode: Mode,
    cmd: Option<crate::proto::messages::CatCommand>,
    r: Vec<ClientMsg>,
)
    requires
        call_ensures(set_mode, (mode,), cmd),
        call_ensures(mode_messages, (mode,), r),
    ensures
        r@[0] == ClientMsg::SetDemodMode(Some(mode)),
        mode == Mode::Unknown ==> r@.len() == 1,
        mode != Mode::Unknown ==> r@.len() == 2 && (r@[1] matches ClientMsg::CatCommand(c) && cmd
            is Some && c.raw@ == cmd->0.raw@),
{
}

/// A button that is pressed again stays pressed; another one chooses its
/// mode, and DRM brings its own lines.
pub proof fn law_clicks_choose_modes(mode: Mode, pressed: bool, r: ModeClick)
    requires
        call_ensures(mode_click, (mode, pressed), r),
    ensures
        r == ModeClick::Stay <==> !pressed,
        r matches ModeClick::Choose { drm } ==> (drm <==> mode == Mode::DRM),
{
}

/// A snapshot presses the buttons of what is on: every stage by its own
/// name, the mode that is set, and each decoder that is enabled.
pub proof fn law_snapshots_press_what_is_on(
    snap: &StateSnapshot,
    modes: Vec<ModeChoice>,
    decoders: Vec<DecoderChoice>,
    k: int,
    r: Switches,
)
    requires
        call_ensures(apply_snapshot, (snap,), r),
        call_ensures(mode_buttons, (), modes),
        call_ensures(decoder_buttons, (), decoders),
    ensures
        r.nb == snap.nb_on && r.apf == snap.apf_on,
        r.dnr == snap.dnr_on && r.dnf == snap.dnf_on,
        r.modes@.len() == modes@.len() && r.decoders@.len() == decoders@.len(),
        0 <= k < modes@.len() ==> (r.modes@[k] <==> modes@[k].mode == snap.mode),
        0 <= k < decoders@.len() ==> (r.decoders@[k] <==> snap.enabled_decoders@.contains(
            decoders@[k].decoder,
        )),
{
    assert(modes_of(modes@).len() == modes@.len());
    if 0 <= k < modes@.len() {
        assert(modes_of(modes@)[k] == modes@[k].mode);
    }
}

/// No two decoder buttons switch the same decoder or have the same name, and
/// the two for digital voice come last.
pub proof fn law_decoder_buttons_differ(r: Vec<DecoderChoice>, i: int, j: int)
    requires
        call_ensures(decoder_buttons, (), r),
        0 <= i < j < r@.len(),
    ensures
        r@[i].decoder != r@[j].decoder,
        r@.len() == 8,
        r@[i].voice ==> r@[j].voice,
        r@[j].voice <==> j >= 6,
        r@[0].decoder == DecoderKind::Cw && r@[1].decoder == DecoderKind::Psk,
        r@[2].decoder == DecoderKind::Mfsk && r@[3].decoder == DecoderKind::Rtty,
        r@[4].decoder == DecoderKind::Fax && r@[5].decoder == DecoderKind::Pckt,
        r@[6].decoder == DecoderKind::Ft8 && r@[7].decoder == DecoderKind::Aprs,
        r@[0].label@ == "CW"@ && r@[1].label@ == "PSK"@ && r@[2].label@ == "MFSK"@,
        r@[3].label@ == "RTTY"@ && r@[4].label@ == "FAX"@ && r@[5].label@ == "PCKT"@,
        r@[6].label@ == "DRM"@ && r@[7].label@ == "FDV"@,
{
}

/// The recording button records audio and leaves the place to the server.
pub proof fn law_the_button_records_audio(on: ClientMsg, off: ClientMsg)
    requires
        call_ensures(record_message, (true,), on),
        call_ensures(record_message, (false,), off),
    ensures
        on matches ClientMsg::StartRecording(s) && s.kind == RecKind::Audio && s.path is None,
        off is StopRecording,
{
}

/// What is typed goes to the radio as the command for it.
pub proof fn law_entries_become_commands(
    hz: u64,
    f: ClientMsg,
    tuned: crate::proto::messages::CatCommand,
    threshold: u8,
    a: ClientMsg,
    set: crate::proto::messages::CatCommand,
)
    requires
        call_ensures(freq_message, (hz,), f),
        call_ensures(set_freq, (hz,), tuned),
        call_ensures(agc_message, (threshold,), a),
        call_ensures(set_agc_threshold, (threshold,), set),
    ensures
        f matches ClientMsg::CatCommand(c) && c.raw@ == tuned.raw@,
        a matches ClientMsg::CatCommand(c) && c.raw@ == set.raw@,
{
}

/// A class that is not available is shown as such; one that is, by whether it
/// is selected.
pub proof fn law_chips(selected: bool, available: bool, r: ChipState)
    requires
        call_ensures(chip_state, (selected, available), r),
    ensures
        r == ChipState::Disabled <==> !available,
        r == ChipState::Active <==> available && selected,
        r == ChipState::Inactive <==> available && !selected,
{
}

/// The panel shows what the source can do, and nothing that it cannot.
pub proof fn law_the_panel_shows_what_the_source_can_do(caps: &Capabilities, r: PanelState)
    requires
        call_ensures(apply_capabilities, (caps,), r),
    ensures
        r.show_ptt == caps.has_tx,
        r.show_tiles == caps.has_hardware_cat,
        r.show_audio_picker == caps.has_usb_audio,
        r.show_iq_picker == caps.has_iq,
        r.live <==> caps.control_target != ControlTarget::Nowhere,
        r.flip == caps.drm_flip_spectrum,
        r.send_threshold <==> caps.has_hardware_cat && caps.control_target == ControlTarget::Radio,
        r.audio_chip == ChipState::Disabled <==> !caps.has_usb_audio,
        r.iq_chip == ChipState::Disabled <==> !caps.has_iq,
        r.audio_chip == ChipState::Active <==> caps.has_usb_audio && (caps.source
            == SourceKind::PortableRadio || caps.source == SourceKind::AudioFile),
        r.iq_chip == ChipState::Active <==> caps.has_iq && !(caps.source
            == SourceKind::PortableRadio || caps.source == SourceKind::AudioFile),
        caps.has_usb_audio && !caps.has_iq ==> r.routing@ == "PASSTHROUGH"@ && r.pill@ == kind_text(
            caps.source,
        ) + " "@ + "AUD"@,
        !(caps.has_usb_audio && !caps.has_iq) ==> r.routing@ == "SWDEMOD"@ && r.pill@ == kind_text(
            caps.source,
        ) + " "@ + "IQ"@,
{
}

proof fn lemma_supported_are_offered(all: Seq<ModeChoice>, supported: Seq<Mode>, k: int)
    requires
        0 <= k < all.len(),
        supported.contains(all[k].mode),
    ensures
        offered(all, supported).contains(all[k]),
    decreases all.len(),
{
    let last = all.len() - 1;
    let o = offered(all, supported);
    if k == last {
        assert(o[o.len() - 1] == all[k]);
    } else {
        let shorter = all.drop_last();
        lemma_supported_are_offered(shorter, supported, k);
        let r = offered(shorter, supported);
        let i = choose|i: int| 0 <= i < r.len() && r[i] == all[k];
        assert(o[i] == r[i]);
    }
}

/// The list offers exactly the modes of its own that the source supports. The
/// mode from before stays selected where it is offered, else it is the upper
/// sideband where that is, and else the first.
pub proof fn law_the_list_offers_what_is_supported(
    supported: &Vec<Mode>,
    before: Option<Mode>,
    mode: Mode,
    r: Option<ModeMenu>,
)
    requires
        call_ensures(mode_menu, (supported, before), r),
    ensures
        r matches Some(menu) ==> {
            let modes = modes_of(menu.choices@);
            &&& modes.contains(mode) <==> supported@.contains(mode) && list_modes().contains(mode)
            &&& menu.selected < menu.choices@.len()
            &&& before matches Some(m) ==> (modes.contains(m) ==> menu.choices@[menu.selected as int].mode
                == m)
            &&& (before matches Some(m) ==> !modes.contains(m)) && modes.contains(Mode::USB)
                ==> menu.choices@[menu.selected as int].mode == Mode::USB
            &&& (before matches Some(m) ==> !modes.contains(m)) && !modes.contains(Mode::USB)
                ==> menu.selected == 0
        },
        r is None ==> !(supported@.contains(mode) && list_modes().contains(mode)),
{
    if let Some(menu) = r {
        let all = choose|all: Seq<ModeChoice>|
            {
                &&& modes_of(all) == list_modes()
                &&& labels_of(all) == list_labels()
                &&& menu.choices@ == #[trigger] offered(all, supported@)
            };
        let o = menu.choices@;
        let modes = modes_of(o);
        if supported@.contains(mode) && list_modes().contains(mode) {
            let k = choose|k: int| 0 <= k < list_modes().len() && list_modes()[k] == mode;
            assert(modes_of(all)[k] == all[k].mode);
            lemma_supported_are_offered(all, supported@, k);
            let i = choose|i: int| 0 <= i < o.len() && o[i] == all[k];
            assert(modes[i] == mode);
        }
        if modes.contains(mode) {
            let i = choose|i: int| 0 <= i < modes.len() && modes[i] == mode;
            law_only_supported_modes_are_offered(all, supported@, i);
            lemma_offered_are_listed(all, supported@, i);
            let k = choose|k: int| 0 <= k < all.len() && all[k] == o[i];
            assert(modes_of(all)[k] == mode);
        }
        lemma_choice_at(o, Mode::USB, 0);
        if let Some(m) = before {
            lemma_choice_at(o, m, 0);
            if modes.contains(m) {
                let i = choose|i: int| 0 <= i < modes.len() && modes[i] == m;
                assert(o[i].mode == m);
            } else if choice_at(o, m, 0) is Some {
                assert(modes[choice_at(o, m, 0)->0] == m);
            }
        }
        if modes.contains(Mode::USB) {
            let i = choose|i: int| 0 <= i < modes.len() && modes[i] == Mode::USB;
            assert(o[i].mode == Mode::USB);
        } else if choice_at(o, Mode::USB, 0) is Some {
            assert(modes[choice_at(o, Mode::USB, 0)->0] == Mode::USB);
        }
    } else if supported@.contains(mode) && list_modes().contains(mode) {
        let k = choose|k: int| 0 <= k < list_modes().len() && list_modes()[k] == mode;
        assert(supported@.contains(list_modes()[k]));
    }
}

proof fn lemma_offered_are_listed(all: Seq<ModeChoice>, supported: Seq<Mode>, i: int)
    requires
        0 <= i < offered(all, supported).len(),
    ensures
        all.contains(offered(all, supported)[i]),
    decreases all.len(),
{
    if all.len() > 0 {
        let shorter = all.drop_last();
        let r = offered(shorter, supported);
        if i < r.len() {
            lemma_offered_are_listed(shorter, supported, i);
            let k = choose|k: int| 0 <= k < shorter.len() && shorter[k] == r[i];
            assert(all[k] == r[i]);
        } else {
            assert(all[all.len() - 1] == offered(all, supported)[i]);
        }
    }
}

/// The button of the mode that is set is pressed, and no other.
pub proof fn law_the_modes_button_is_pressed(
    mode: Mode,
    buttons: Vec<ModeChoice>,
    k: int,
    r: Vec<bool>,
)
    requires
        call_ensures(mode_buttons, (), buttons),
        call_ensures(pressed_modes, (mode,), r),
        0 <= k < buttons@.len(),
    ensures
        r@.len() == buttons@.len(),
        r@[k] <==> buttons@[k].mode == mode,
{
    assert(modes_of(buttons@).len() == buttons@.len());
    assert(modes_of(buttons@)[k] == buttons@[k].mode);
}

/// The list has the sidebands first, then CW on either side, AM, FM and DRM;
/// the buttons have the AM family first, then the sidebands, CW and FM.
pub proof fn law_modes_stand_in_their_order(list: Vec<ModeChoice>, buttons: Vec<ModeChoice>)
    requires
        call_ensures(mode_list, (), list),
        call_ensures(mode_buttons, (), buttons),
    ensures
        modes_of(list@) == seq![
            Mode::LSB,
            Mode::USB,
            Mode::CW,
            Mode::CWR,
            Mode::AM,
            Mode::FM,
            Mode::DRM,
        ],
        modes_of(buttons@) == seq![
            Mode::AM,
            Mode::SAM,
            Mode::DSB,
            Mode::USB,
            Mode::LSB,
            Mode::CW,
            Mode::CWR,
            Mode::FM,
        ],
{
}

/// The choices that are offered keep their order: one more at the end comes
/// last, if it is supported, and changes nothing else.
pub proof fn law_offered_choices_keep_their_order(
    all: Seq<ModeChoice>,
    choice: ModeChoice,
    supported: Seq<Mode>,
)
    ensures
        offered(all.push(choice), supported) == if supported.contains(choice.mode) {
            offered(all, supported).push(choice)
        } else {
            offered(all, supported)
        },
{
    assert(all.push(choice).drop_last() =~= all);
}

} // verus!
