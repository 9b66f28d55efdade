//! The operator's side.
use efd_station::client::display::DisplayRange;
use efd_station::client::link::{
    push_bounded, receive, Backoff, Frame, Incoming, MAX_QUEUE,
};
use efd_station::client::panel::{
    active_device, agc_message, apply_capabilities, apply_snapshot, chip_state, class_short_label,
    clears_spectrum, decoder_buttons, freq_message, mode_buttons, mode_click, mode_list, mode_menu,
    mode_messages, needs_redraw, pick_messages, real_devices, record_message, ChipState, ModeClick,
};
use efd_station::client::params::{mode_str, SdrParams};
use efd_station::client::ring::{
    find_config, unusable_output, ConfigChoice, OutputConfig, Ring, RING_CAPACITY,
};
use efd_station::client::status::{
    prime_drm_placeholders, recording_line, refresh_status_line, update_drm, DecodedLog,
    Processing,
};
use efd_station::client::tuning::{
    agc_entry, agc_tile, bw_entry, bw_tile, current_tuning_markup, fallback_tuning_markup,
    format_freq_spaced, format_tuning_markup, freq_entry, freq_tile, if_tile, mode_markup,
    offset_entry, parse_filter_bw_hz, rit_tile, set_freq_immediate, sync_from_radio, Bandwidth,
    CachedState,
};
use efd_station::client::waterfall::{passband_edges, Picture};
use efd_station::proto::codec::F32;
use efd_station::proto::filters::filters_for_mode;
use efd_station::proto::frame::encode_msg;
use efd_station::proto::messages::{
    Capabilities, ClientMsg, ControlTarget, DeviceId, DeviceList, DrmStatus, ErrorMsg, RadioState,
    ServerMsg, StateSnapshot,
};
use efd_station::proto::radio::{
    AgcMode, DecoderKind, Mode, RecKind, SourceClass, SourceKind, Vfo,
};

fn state() -> RadioState {
    RadioState {
        vfo: Vfo::B,
        freq_hz: 14_200_000,
        mode: Mode::CW,
        filter_bw: "500".to_string(),
        filter_bw_hz: None,
        filter_idx: None,
        att: false,
        lp: false,
        agc: AgcMode::Slow,
        agc_threshold: 0,
        nr: false,
        nb: false,
        s_meter_db: F32 { bits: (-73.0f32).to_bits() },
        tx: false,
        rit_hz: -150,
        rit_on: true,
        xit_hz: 0,
        xit_on: false,
        if_offset_hz: 40,
        snr_db: None,
    }
}

fn dev(kind: SourceKind, id: &str) -> DeviceId {
    DeviceId { kind, id: id.to_string() }
}

fn caps() -> Capabilities {
    Capabilities {
        source: SourceKind::FdmDuo,
        has_iq: true,
        has_tx: true,
        has_hardware_cat: true,
        has_usb_audio: true,
        supported_demod_modes: vec![Mode::AM, Mode::USB, Mode::SAM],
        supported_decoders: vec![],
        drm_flip_spectrum: true,
        control_target: ControlTarget::Radio,
    }
}

// --- the display range ---

#[test]
fn zoom_steps_through_its_levels() {
    let mut r = DisplayRange::new(-20, 100);
    let up: Vec<i32> = (0..6).map(|_| r.zoom_in()).collect();
    assert_eq!(up, vec![2, 4, 6, 8, 10, 10]);
    let down: Vec<i32> = (0..6).map(|_| r.zoom_out()).collect();
    assert_eq!(down, vec![8, 6, 4, 2, 1, 1]);
    r.set_zoom(3);
    assert_eq!(r.zoom_in(), 4);
    r.set_zoom(3);
    assert_eq!(r.zoom_out(), 2);
    assert_eq!((r.ref_level(), r.range(), r.db_bottom()), (-20, 100, -120));
    r.set_ref_level(0);
    r.set_range(80);
    assert_eq!((r.db_top(), r.db_bottom()), (0, -80));
}

#[test]
fn the_pan_stays_within_the_span() {
    let mut r = DisplayRange::new(-20, 100);
    r.set_pan_frac(300);
    assert_eq!(r.pan_frac(), 0);
    r.set_zoom(6);
    r.set_pan_frac(500);
    assert_eq!(r.pan_frac(), 416);
    r.set_pan_frac(-500);
    assert_eq!(r.pan_frac(), -416);
    r.pan_by(96);
    assert_eq!(r.pan_frac(), -400);
    r.pan_by(100);
    assert_eq!(r.pan_frac(), -383);
    r.pan_by(i32::MIN);
    assert_eq!(r.pan_frac(), -416);
    let v = r.visible_range();
    assert!(v.start >= 0);
    assert_eq!(v.end - v.start, 1000);
    assert_eq!(v.denominator, 6000);
    r.set_zoom(2);
    assert_eq!(r.pan_frac(), -250);
    let v = r.visible_range();
    assert_eq!((v.start, v.end, v.denominator), (0, 1000, 2000));
    r.set_zoom(1);
    assert_eq!(r.pan_frac(), 0);
}

#[test]
fn a_nudge_goes_by_the_visible_width() {
    let mut r = DisplayRange::new(-20, 100);
    r.set_zoom(4);
    r.pan_by(200);
    assert_eq!(r.pan_frac(), 50);
    r.pan_by(-400);
    assert_eq!(r.pan_frac(), -50);
    r.set_zoom(10);
    r.pan_by(200);
    assert_eq!(r.pan_frac(), -30);
    r.pan_by(5);
    assert_eq!(r.pan_frac(), -29);
}

// --- parameters ---

#[test]
fn kept_modes_come_back() {
    let mut p = SdrParams::default();
    assert_eq!((p.freq_hz, p.mode(), p.agc_threshold), (7_100_000, Mode::USB, 5));
    for m in [Mode::LSB, Mode::USB, Mode::CW, Mode::CWR, Mode::AM, Mode::FM, Mode::DRM] {
        p.set_mode(m);
        assert_eq!(p.mode(), m);
    }
    p.set_mode(Mode::SAMU);
    assert_eq!(p.mode(), Mode::AM);
    assert_eq!(mode_str(Mode::Unknown), "USB");
    p.mode = "nonsense".into();
    assert_eq!(p.mode(), Mode::USB);
    p.keep(1, Mode::FM);
    assert_eq!((p.freq_hz, p.mode(), p.agc_threshold), (1, Mode::FM, 5));
}

// --- the connection ---

#[test]
fn a_full_queue_drops_its_older_half() {
    let mut q: Vec<usize> = Vec::new();
    for i in 0..=MAX_QUEUE {
        push_bounded(&mut q, i, MAX_QUEUE);
    }
    assert_eq!(q.len(), MAX_QUEUE / 2 + 1);
    assert_eq!(q[0], MAX_QUEUE / 2);
    assert_eq!(*q.last().unwrap(), MAX_QUEUE);
}

#[test]
fn pauses_double_up_to_a_limit() {
    let mut b = Backoff::new();
    let pauses: Vec<u64> = (0..6).map(|_| b.pause()).collect();
    assert_eq!(pauses, vec![2, 4, 8, 16, 30, 30]);
    b.connected();
    assert_eq!(b.pause(), 2);
}

#[test]
fn frames_bring_messages_or_end_the_connection() {
    let msg = ServerMsg::Error(ErrorMsg { code: 1, message: "x".into() });
    let mut bytes = encode_msg(&msg);
    assert!(matches!(receive(Frame::Binary(bytes.clone())), Incoming::Message(m) if m == msg));
    assert!(matches!(receive(Frame::Binary(bytes[..2].to_vec())), Incoming::Ignored));
    bytes[0] = 99;
    assert!(matches!(receive(Frame::Binary(bytes)), Incoming::Disconnect));
    assert!(matches!(receive(Frame::Binary(vec![])), Incoming::Ignored));
    assert!(matches!(receive(Frame::Other), Incoming::Ignored));
    assert!(matches!(receive(Frame::Close), Incoming::Disconnect));
    assert!(matches!(receive(Frame::Ended), Incoming::Disconnect));
    assert!(matches!(receive(Frame::Failed), Incoming::Disconnect));
}

// --- the loudspeaker ---

#[test]
fn the_ring_keeps_the_newest() {
    let mut ring = Ring::new();
    let block: Vec<u32> = (0..960).collect();
    for _ in 0..10 {
        ring.push(&block);
    }
    assert_eq!(ring.len(), RING_CAPACITY);
    ring.push(&[7, 8]);
    assert_eq!(ring.len(), RING_CAPACITY);
    assert_eq!(ring.pop(0), 2);
}

#[test]
fn samples_go_to_every_channel() {
    let mut ring = Ring::new();
    ring.push(&[1, 2]);
    assert_eq!(ring.play(7, 2, 0), vec![1, 1, 2, 2, 0, 0, 0]);
    assert_eq!(ring.len(), 0);
    ring.push(&[5]);
    assert_eq!(ring.play(3, 2, 0), vec![5, 5, 0]);
}

#[test]
fn a_loudspeaker_at_48_khz_is_chosen() {
    let c = |is_float, min_rate, max_rate| OutputConfig { is_float, min_rate, max_rate };
    let configs = vec![c(false, 8_000, 96_000), c(true, 44_100, 44_100), c(true, 8_000, 48_000)];
    assert_eq!(find_config(&configs, 44_100), ConfigChoice::Listed(2));
    assert_eq!(find_config(&vec![], 48_000), ConfigChoice::DeviceDefault);
    assert_eq!(find_config(&vec![], 44_100), ConfigChoice::Unusable);
    assert_eq!(
        unusable_output(44_100),
        "no 48kHz output config found (default is 44100Hz)"
    );
}

// --- tuning ---

#[test]
fn frequencies_are_grouped() {
    assert_eq!(format_freq_spaced(14_200_000), "14 200 000");
    assert_eq!(format_freq_spaced(0), "0");
    assert_eq!(format_freq_spaced(999), "999");
    assert_eq!(format_freq_spaced(1_000), "1 000");
    for hz in [0, 5, 1_234, 7_100_000, u64::MAX] {
        assert_eq!(freq_entry(&format_freq_spaced(hz)), Some(hz));
    }
}

#[test]
fn entries_are_read() {
    assert_eq!(freq_entry("14.200,000"), Some(14_200_000));
    assert_eq!(freq_entry("14 MHz"), None);
    assert_eq!(freq_entry("18446744073709551616"), None);
    assert_eq!(agc_entry(" 7 "), Some(7));
    assert_eq!(agc_entry("99"), Some(10));
    assert_eq!(agc_entry("256"), None);
    assert_eq!(bw_entry("2400\n"), Some(2400));
    assert_eq!(bw_entry("-1"), None);
    assert_eq!(offset_entry("-150"), Some(-150));
    assert_eq!(offset_entry("+40"), Some(40));
    assert_eq!(offset_entry("x"), None);
}

fn hz(label: &str) -> Option<f64> {
    match parse_filter_bw_hz(label) {
        Bandwidth::Hertz(v) => Some(v as f64),
        Bandwidth::Number { text, kilo } => {
            text.parse::<f64>().ok().map(|v| if kilo { v * 1000.0 } else { v })
        }
    }
}

#[test]
fn bandwidth_labels_are_read() {
    assert_eq!(hz("2.4k"), Some(2400.0));
    assert_eq!(hz("500"), Some(500.0));
    assert_eq!(hz("100&4"), Some(100.0));
    assert_eq!(hz("D300"), Some(300.0));
    assert_eq!(hz("D1k"), Some(1000.0));
    assert_eq!(hz(" Narrow "), Some(6000.0));
    assert_eq!(hz("Wide"), Some(15_000.0));
    assert_eq!(hz("Data"), Some(9000.0));
    assert_eq!(hz("?"), None);
    assert_eq!(hz(""), None);
}

#[test]
fn the_tuning_line_shows_the_radio() {
    assert_eq!(
        format_tuning_markup(&state(), None),
        "<i>f</i> <span size='x-large'><b>14 200 000</b></span> Hz   demod <b>CW<sub>u</sub></b>   \
         <i>bw</i> <b>500</b>   <i>RIT</i> <b>-150</b> Hz   <i>IF</i> <b>+40</b> Hz"
    );
    let mut off = state();
    off.rit_on = false;
    let shown = format_tuning_markup(&off, Some("500 Hz"));
    assert!(shown.contains("<b>500 Hz</b>   <i>RIT</i> <b>+0</b>"));
    assert_eq!(mode_markup(Mode::Unknown), "—");
    assert!(fallback_tuning_markup().contains("demod <b>—</b>"));
}

#[test]
fn a_typed_frequency_shows_at_once() {
    let shown = set_freq_immediate(None, 7_100_000);
    assert_eq!(shown.mode, "USB");
    assert_eq!(
        current_tuning_markup(Some(&shown)),
        "<i>f</i> <span size='x-large'><b>7 100 000</b></span> Hz   demod <b>USB</b>   \
         <i>bw</i> <b>—</b>   <i>RIT</i> <b>0</b> Hz   <i>IF</i> <b>0</b> Hz"
    );
    assert_eq!(current_tuning_markup(None), fallback_tuning_markup());
    let before = CachedState::of(&state(), 12);
    assert!(before.same(&CachedState::of(&state(), 12)));
    assert!(!before.same(&CachedState::of(&state(), 13)));
    let after = set_freq_immediate(Some(before), 5);
    assert_eq!((after.freq_hz, after.vfo.as_str(), after.s_reading), (5, "VFO B", 12));
}

#[test]
fn tiles_show_what_they_set() {
    assert_eq!(agc_tile(5), "<i>agc 5</i>");
    assert_eq!(freq_tile(7_100_000), "<i>f</i> 7 100 000<sup>Hz</sup>");
    assert_eq!(bw_tile(2400), "<i>bw</i> 2400<sup>Hz</sup>");
    assert_eq!(rit_tile(0), "<i>rit</i> +0<sup>Hz</sup>");
    assert_eq!(if_tile(-15), "<i>IF</i> -15<sup>Hz</sup>");
    let t = sync_from_radio(&state(), None);
    assert_eq!(t.bw, "<i>bw</i> 500");
    assert_eq!(t.rit, "<i>rit</i> -150<sup>Hz</sup>");
    let mut blank = state();
    blank.filter_bw = String::new();
    assert_eq!(sync_from_radio(&blank, None).bw, "<i>bw</i> —");
}

// --- the status lines ---

#[test]
fn the_status_line_shows_the_stages() {
    let p = Processing {
        nb_on: true,
        dnr_on: false,
        dnf_on: false,
        apf_on: true,
        decoders: vec![DecoderKind::Cw, DecoderKind::Ft8],
    };
    assert_eq!(
        refresh_status_line(&p, Some("12"), false).unwrap(),
        "SNR <b>12</b> dB   <b>NB</b>  <span alpha='45%'>DNR<sub>off</sub></span>  \
         <span alpha='45%'>DNF<sub>off</sub></span>  <b>APF</b>   decode <b>Cw</b> <b>Ft8</b>"
    );
    let none = Processing { decoders: vec![], ..p };
    assert!(refresh_status_line(&none, None, false).unwrap().ends_with("decode <i>—</i>"));
    assert!(refresh_status_line(&none, None, true).is_none());
}

#[test]
fn decoded_text_scrolls() {
    let mut log = DecodedLog::new();
    assert!(log.push_decoded(DecoderKind::Cw, "  \n").is_none());
    assert_eq!(log.push_decoded(DecoderKind::Cw, " CQ ").unwrap(), "[Cw] CQ");
    let mut all = String::new();
    for i in 0..7 {
        all = log.push_decoded(DecoderKind::Rtty, &format!("{i}")).unwrap();
    }
    assert_eq!(all, "[Rtty] 1\n[Rtty] 2\n[Rtty] 3\n[Rtty] 4\n[Rtty] 5\n[Rtty] 6");
}

#[test]
fn drm_lines_show_the_decoder() {
    let primed = prime_drm_placeholders();
    assert_eq!(primed.first, "DRM Mode --- · --- · --- · Audio:0 Data:0");
    assert_eq!(primed.second, "SNR --- · WMER --- · FAC ✗ · SDC ✗ · MSC ✗");
    let s = DrmStatus {
        io_ok: true,
        time_ok: true,
        frame_ok: true,
        fac_ok: true,
        sdc_ok: true,
        msc_ok: false,
        if_level_db: None,
        snr_db: None,
        wmer_db: None,
        mer_db: None,
        dc_freq_hz: None,
        sample_offset_hz: None,
        doppler_hz: None,
        delay_ms: None,
        robustness_mode: Some("B".into()),
        bandwidth_khz: Some(10),
        sdc_mode: None,
        msc_mode: Some("SM 64-QAM".into()),
        interleaver_s: None,
        num_audio_services: 1,
        num_data_services: 2,
        timestamp_us: 0,
    };
    let lines = update_drm(&s, Some("25.6"), None);
    assert_eq!(lines.first, "DRM Mode B · 10 kHz · SM 64-QAM · Audio:1 Data:2");
    assert_eq!(lines.second, "SNR 25.6 dB · WMER --- · FAC ✓ · SDC ✓ · MSC ✗");
}

#[test]
fn a_recording_has_a_line() {
    assert_eq!(
        recording_line(true, Some(RecKind::Audio), Some(" 12.5"), "121"),
        "REC audio:  12.5s  121 KiB"
    );
    assert_eq!(recording_line(true, None, None, "0"), "REC ?:   ---  0 KiB");
    assert_eq!(recording_line(false, None, None, "0"), "");
}

// --- the panel ---

#[test]
fn devices_have_short_labels() {
    assert_eq!(class_short_label(&dev(SourceKind::HackRf, "x"), 3), "HRF");
    assert_eq!(class_short_label(&dev(SourceKind::PortableRadio, "x"), 3), "AUD3");
}

#[test]
fn the_active_device_is_shown() {
    let list = DeviceList {
        audio_devices: vec![
            dev(SourceKind::PortableRadio, "hw:0,0"),
            dev(SourceKind::PortableRadio, "hw:1,0"),
        ],
        iq_devices: vec![dev(SourceKind::FdmDuo, "S")],
        active: Some(dev(SourceKind::PortableRadio, "hw:1,0")),
    };
    let shown = active_device(&list).unwrap();
    assert_eq!(shown.class, SourceClass::Audio);
    assert_eq!(shown.label, "AUD1");
    assert_eq!(shown.pill, "POR AUD");
    assert!(clears_spectrum(&list));
    assert!(needs_redraw(&ServerMsg::DeviceList(list.clone())));
    let iq = DeviceList { active: Some(dev(SourceKind::FdmDuo, "other")), ..list };
    let shown = active_device(&iq).unwrap();
    assert_eq!((shown.label.as_str(), shown.pill.as_str()), ("FDM", "FDM IQ"));
    assert!(!clears_spectrum(&iq));
    assert!(!needs_redraw(&ServerMsg::DeviceList(iq.clone())));
    assert!(active_device(&DeviceList { active: None, ..iq }).is_none());
}

#[test]
fn placeholders_are_not_offered() {
    let all = vec![
        dev(SourceKind::AudioFile, ""),
        dev(SourceKind::AudioFile, "a.wav"),
        dev(SourceKind::FdmDuo, ""),
        dev(SourceKind::IqFile, ""),
    ];
    let ids: Vec<DeviceId> = real_devices(&all);
    assert_eq!(ids, vec![dev(SourceKind::AudioFile, "a.wav"), dev(SourceKind::FdmDuo, "")]);
}

#[test]
fn picking_selects_the_class_of_the_list() {
    let d = dev(SourceKind::FdmDuo, "S");
    assert_eq!(
        pick_messages(SourceClass::Audio, &d),
        vec![ClientMsg::SelectSource(SourceClass::Audio), ClientMsg::SelectDevice(d.clone())]
    );
}

#[test]
fn mode_buttons_send_their_mode() {
    let msgs = mode_messages(Mode::SAM);
    assert_eq!(msgs[0], ClientMsg::SetDemodMode(Some(Mode::SAM)));
    assert!(matches!(&msgs[1], ClientMsg::CatCommand(c) if c.raw == "MD5;"));
    assert_eq!(mode_messages(Mode::Unknown).len(), 1);
    assert_eq!(mode_click(Mode::USB, false), ModeClick::Stay);
    assert_eq!(mode_click(Mode::USB, true), ModeClick::Choose { drm: false });
    assert_eq!(mode_click(Mode::DRM, true), ModeClick::Choose { drm: true });
    assert_eq!(mode_buttons().len(), 8);
    assert_eq!(mode_buttons()[5].label, "CWᵤ");
    assert_eq!(mode_list()[6].mode, Mode::DRM);
}

#[test]
fn a_snapshot_sets_the_switches() {
    let snap = StateSnapshot {
        active_device: None,
        freq_hz: 0,
        mode: Mode::DSB,
        filter_bw_hz: None,
        rit_hz: 0,
        xit_hz: 0,
        if_offset_hz: 0,
        enabled_decoders: vec![DecoderKind::Psk, DecoderKind::Aprs],
        nb_on: true,
        dnb_on: true,
        dnr_on: false,
        dnf_on: true,
        apf_on: false,
    };
    let s = apply_snapshot(&snap);
    assert_eq!((s.nb, s.apf, s.dnr, s.dnf), (true, false, false, true));
    let pressed: Vec<usize> = (0..8).filter(|&i| s.modes[i]).collect();
    assert_eq!(pressed, vec![2]);
    let on: Vec<&str> =
        decoder_buttons()
            .iter()
            .zip(&s.decoders)
            .filter(|(_, on)| **on)
            .map(|(b, _)| b.label)
            .collect();
    assert_eq!(on, vec!["PSK", "FDV"]);
}

#[test]
fn buttons_send_messages() {
    assert!(matches!(record_message(true), ClientMsg::StartRecording(s)
        if s.kind == RecKind::Audio && s.path.is_none()));
    assert_eq!(record_message(false), ClientMsg::StopRecording);
    assert!(
        matches!(freq_message(7_100_000), ClientMsg::CatCommand(c) if c.raw == "FA00007100000;")
    );
    assert!(matches!(agc_message(42), ClientMsg::CatCommand(c) if c.raw == "TH10;"));
}

#[test]
fn the_panel_fits_the_source() {
    let p = apply_capabilities(&caps());
    assert!(p.live && p.show_ptt && p.show_tiles && p.send_threshold && p.flip);
    assert_eq!((p.audio_chip, p.iq_chip), (ChipState::Inactive, ChipState::Active));
    assert_eq!((p.pill.as_str(), p.routing), ("FdmDuo IQ", "SWDEMOD"));
    let audio = Capabilities {
        source: SourceKind::PortableRadio,
        has_iq: false,
        control_target: ControlTarget::Nowhere,
        ..caps()
    };
    let p = apply_capabilities(&audio);
    assert!(!p.live && !p.send_threshold);
    assert_eq!((p.audio_chip, p.iq_chip), (ChipState::Active, ChipState::Disabled));
    assert_eq!((p.pill.as_str(), p.routing), ("PortableRadio AUD", "PASSTHROUGH"));
    assert_eq!(chip_state(true, false), ChipState::Disabled);
}

#[test]
fn the_mode_list_offers_what_is_supported() {
    let menu = mode_menu(&caps().supported_demod_modes, Some(Mode::AM)).unwrap();
    let labels: Vec<&str> = menu.choices.iter().map(|c| c.label).collect();
    assert_eq!(labels, vec!["USB", "AM"]);
    assert_eq!(menu.selected, 1);
    let menu = mode_menu(&vec![Mode::AM, Mode::USB], Some(Mode::FM)).unwrap();
    assert_eq!(menu.choices[menu.selected].mode, Mode::USB);
    let menu = mode_menu(&vec![Mode::FM, Mode::AM], None).unwrap();
    assert_eq!(menu.selected, 0);
    assert!(mode_menu(&vec![Mode::SAM], Some(Mode::USB)).is_none());
}

// --- the waterfall ---

#[test]
fn the_picture_wraps_and_resizes() {
    let mut p = Picture::new();
    for _ in 0..513 {
        p.advance();
    }
    assert_eq!(p.next_row(), 1);
    assert!(!p.resize(1024));
    assert!(p.resize(9000));
    assert_eq!((p.columns(), p.next_row()), (4096, 0));
    assert!(p.resize(0));
    assert_eq!(p.columns(), 1);
}

#[test]
fn columns_show_bins_from_left_to_right() {
    let mut p = Picture::new();
    p.resize(4);
    let bins: Vec<usize> = (0..4).map(|x| p.bin_at(x, 10)).collect();
    assert_eq!(bins, vec![0, 2, 5, 7]);
    let few: Vec<usize> = (0..4).map(|x| p.bin_at(x, 2)).collect();
    assert_eq!(few, vec![0, 0, 1, 1]);
    assert_eq!(p.bin_at(3, 0), 0);
    assert_eq!(passband_edges(Mode::LSB), (-2, 0));
    assert_eq!(passband_edges(Mode::AM), (-1, 1));
}

#[test]
fn every_filter_has_a_bandwidth() {
    let modes = [Mode::LSB, Mode::USB, Mode::CW, Mode::CWR, Mode::AM, Mode::FM, Mode::DRM];
    for mode in modes {
        for filter in filters_for_mode(mode) {
            assert!(hz(filter.label).unwrap() > 0.0, "{}", filter.label);
        }
    }
    assert_eq!(hz("D1k"), Some(1000.0));
    assert_eq!(hz("100&4"), Some(100.0));
}
