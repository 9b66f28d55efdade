//! Messages and their encoding.
use efd_station::proto::codec::{DecodeFault, IntegerType, Wire, F32, F64};
use efd_station::proto::frame::{decode_msg, encode_msg, WireError, PROTO_VERSION};
use efd_station::proto::grid::GridCell;
use efd_station::proto::messages::{
    AudioChunk, Capabilities, CatCommand, ClientMsg, ControlTarget, DecodedText, DeviceId,
    DeviceList, DrmStatus, ErrorMsg, FftBins, Ptt, RadioState, RecordingStatus, ServerMsg,
    StartRecording, StateSnapshot, TxAudio,
};
use efd_station::proto::radio::{
    AgcMode, DecoderKind, Mode, RecKind, SourceClass, SourceKind, Vfo,
};

fn f32v(v: f32) -> F32 {
    F32 { bits: v.to_bits() }
}

fn f64v(v: f64) -> F64 {
    F64 { bits: v.to_bits() }
}

fn bytes_of<T: Wire>(val: &T) -> Vec<u8> {
    let mut out = Vec::new();
    val.put(&mut out);
    out
}

fn round_trip<T: Wire>(val: &T) -> T {
    let bytes = bytes_of(val);
    match T::read_from(&bytes, 0) {
        Ok((decoded, used)) => {
            assert_eq!(used, bytes.len());
            decoded
        }
        Err(e) => panic!("decode: {e:?}"),
    }
}

/// What `bincode` makes of a value by itself.
fn reference<T: bincode::Encode>(val: T) -> Vec<u8> {
    bincode::encode_to_vec(val, bincode::config::standard()).unwrap()
}

fn sample_radio_state() -> RadioState {
    RadioState {
        vfo: Vfo::A,
        freq_hz: 14_200_000,
        mode: Mode::USB,
        filter_bw: "2400".to_string(),
        filter_bw_hz: Some(f64v(2400.0)),
        filter_idx: Some(8),
        att: false,
        lp: true,
        agc: AgcMode::Slow,
        agc_threshold: 50,
        nr: false,
        nb: false,
        s_meter_db: f32v(-73.0),
        tx: false,
        rit_hz: 0,
        rit_on: false,
        xit_hz: 0,
        xit_on: false,
        if_offset_hz: 0,
        snr_db: Some(f32v(18.5)),
    }
}

fn sample_drm_status() -> DrmStatus {
    DrmStatus {
        io_ok: true,
        time_ok: true,
        frame_ok: true,
        fac_ok: true,
        sdc_ok: true,
        msc_ok: true,
        if_level_db: Some(f32v(-17.8)),
        snr_db: Some(f32v(25.6)),
        wmer_db: Some(f32v(23.6)),
        mer_db: Some(f32v(23.6)),
        dc_freq_hz: Some(f32v(11_965.99)),
        sample_offset_hz: Some(f32v(-5.45)),
        doppler_hz: Some(f32v(1.11)),
        delay_ms: Some(f32v(0.62)),
        robustness_mode: Some("B".into()),
        bandwidth_khz: Some(10),
        sdc_mode: Some("16-QAM".into()),
        msc_mode: Some("SM 64-QAM".into()),
        interleaver_s: Some(2),
        num_audio_services: 1,
        num_data_services: 0,
        timestamp_us: 987_654_321,
    }
}

#[test]
fn fft_bins_round_trip() {
    let orig = FftBins {
        center_freq_hz: 7_100_000,
        span_hz: 192_000,
        ref_level_db: f32v(-30.0),
        bins: vec![f32v(-80.0), f32v(-75.5), f32v(-60.0), f32v(-55.2)],
        timestamp_us: 123_456_789,
    };
    assert_eq!(orig, round_trip(&orig));
}

#[test]
fn audio_chunk_round_trip() {
    let orig = AudioChunk {
        opus_data: vec![0xDE, 0xAD, 0xBE, 0xEF],
        seq: 42,
    };
    assert_eq!(orig, round_trip(&orig));
}

#[test]
fn radio_state_round_trip() {
    let orig = sample_radio_state();
    assert_eq!(orig, round_trip(&orig));
}

#[test]
fn error_msg_round_trip() {
    let orig = ErrorMsg {
        code: 500,
        message: "rigctld connection lost".to_string(),
    };
    assert_eq!(orig, round_trip(&orig));
}

#[test]
fn cat_command_round_trip() {
    let orig = CatCommand {
        raw: "FA00007100000;".to_string(),
    };
    assert_eq!(orig, round_trip(&orig));
}

#[test]
fn tx_audio_round_trip() {
    let orig = TxAudio {
        opus_data: vec![1, 2, 3, 4, 5],
        seq: 100,
    };
    assert_eq!(orig, round_trip(&orig));
}

#[test]
fn ptt_round_trip() {
    let on = Ptt { on: true };
    let off = Ptt { on: false };
    assert_eq!(on, round_trip(&on));
    assert_eq!(off, round_trip(&off));
}

#[test]
fn drm_status_round_trip() {
    let orig = sample_drm_status();
    assert_eq!(orig, round_trip(&orig));
}

#[test]
fn capabilities_round_trip() {
    let orig = Capabilities {
        source: SourceKind::FdmDuo,
        has_iq: true,
        has_tx: true,
        has_hardware_cat: true,
        has_usb_audio: true,
        supported_demod_modes: vec![
            Mode::USB,
            Mode::LSB,
            Mode::CW,
            Mode::AM,
            Mode::SAM,
            Mode::FM,
        ],
        supported_decoders: vec![DecoderKind::Cw, DecoderKind::Rtty, DecoderKind::Psk],
        drm_flip_spectrum: false,
        control_target: ControlTarget::DemodMirrorFreq,
    };
    assert_eq!(orig, round_trip(&orig));
}

#[test]
fn device_list_round_trip() {
    let orig = DeviceList {
        audio_devices: vec![DeviceId {
            kind: SourceKind::PortableRadio,
            id: "hw:1,0".into(),
        }],
        iq_devices: vec![
            DeviceId {
                kind: SourceKind::FdmDuo,
                id: "SL1JO3".into(),
            },
            DeviceId {
                kind: SourceKind::RtlSdr,
                id: "0".into(),
            },
        ],
        active: Some(DeviceId {
            kind: SourceKind::FdmDuo,
            id: "SL1JO3".into(),
        }),
    };
    assert_eq!(orig, round_trip(&orig));
}

#[test]
fn decoded_text_round_trip() {
    let orig = DecodedText {
        decoder: DecoderKind::Cw,
        text: "QST DE WA1W".into(),
        timestamp_us: 123,
    };
    assert_eq!(orig, round_trip(&orig));
}

#[test]
fn recording_status_round_trip() {
    let orig = RecordingStatus {
        active: true,
        kind: Some(RecKind::Iq),
        path: Some("/var/efd/rec/20260418-1400-iq.raw".into()),
        bytes_written: 123_456,
        duration_s: Some(f64v(12.5)),
    };
    assert_eq!(orig, round_trip(&orig));
}

#[test]
fn state_snapshot_round_trip() {
    let orig = StateSnapshot {
        active_device: Some(DeviceId {
            kind: SourceKind::FdmDuo,
            id: "SL1JO3".into(),
        }),
        freq_hz: 14_074_000,
        mode: Mode::USB,
        filter_bw_hz: Some(f64v(2400.0)),
        rit_hz: 10,
        xit_hz: 0,
        if_offset_hz: -15,
        enabled_decoders: vec![DecoderKind::Cw, DecoderKind::Ft8],
        nb_on: true,
        dnb_on: false,
        dnr_on: true,
        dnf_on: false,
        apf_on: false,
    };
    assert_eq!(orig, round_trip(&orig));
}

#[test]
fn grid_cell_round_trip() {
    let cells = [
        GridCell::Disp0Center,
        GridCell::Ctrl1Right,
        GridCell::Spectrum,
        GridCell::TimeAxis,
    ];
    for cell in cells {
        assert_eq!(cell, round_trip(&cell));
    }
}

#[test]
fn server_msg_round_trip() {
    let msgs = vec![
        ServerMsg::FftBins(FftBins {
            center_freq_hz: 7_000_000,
            span_hz: 48_000,
            ref_level_db: f32v(-20.0),
            bins: vec![f32v(-90.0); 4096],
            timestamp_us: 0,
        }),
        ServerMsg::Audio(AudioChunk {
            opus_data: vec![0xFF; 120],
            seq: 1,
        }),
        ServerMsg::RadioState(sample_radio_state()),
        ServerMsg::Error(ErrorMsg {
            code: 404,
            message: "not found".to_string(),
        }),
        ServerMsg::DeviceList(DeviceList {
            audio_devices: vec![],
            iq_devices: vec![],
            active: None,
        }),
        ServerMsg::DecodedText(DecodedText {
            decoder: DecoderKind::Rtty,
            text: "CQ CQ".into(),
            timestamp_us: 9,
        }),
    ];
    for msg in &msgs {
        assert_eq!(*msg, round_trip(msg));
    }
}

#[test]
fn client_msg_round_trip() {
    let msgs = vec![
        ClientMsg::CatCommand(CatCommand {
            raw: "IF;".to_string(),
        }),
        ClientMsg::TxAudio(TxAudio {
            opus_data: vec![0xAB; 60],
            seq: 7,
        }),
        ClientMsg::Ptt(Ptt { on: true }),
        ClientMsg::SetDemodMode(Some(Mode::SAMU)),
        ClientMsg::SetDrmFlipSpectrum(true),
        ClientMsg::EnumerateDevices,
        ClientMsg::SelectSource(SourceClass::Iq),
        ClientMsg::SelectDevice(DeviceId {
            kind: SourceKind::HackRf,
            id: "abcd".into(),
        }),
        ClientMsg::SetDecoder {
            decoder: DecoderKind::Ft8,
            enabled: true,
        },
        ClientMsg::SetNb(true),
        ClientMsg::SetDnr(true),
        ClientMsg::SetDnf(false),
        ClientMsg::SetApf(true),
        ClientMsg::SetDnb(false),
        ClientMsg::StartRecording(StartRecording {
            kind: RecKind::Audio,
            path: None,
        }),
        ClientMsg::StopRecording,
        ClientMsg::SaveState,
        ClientMsg::LoadState,
    ];
    for msg in &msgs {
        assert_eq!(*msg, round_trip(msg));
    }
}

#[test]
fn round_trip_carries_version() {
    let msg = ClientMsg::CatCommand(CatCommand { raw: "IF;".into() });
    let bytes = encode_msg(&msg);
    assert_eq!(bytes[0], PROTO_VERSION);
    let decoded: ClientMsg = decode_msg(&bytes).unwrap();
    assert_eq!(decoded, msg);
}

#[test]
fn version_mismatch_is_detected() {
    let mut bytes = encode_msg(&ClientMsg::Ptt(Ptt { on: true }));
    bytes[0] = 99;
    let err = decode_msg::<ClientMsg>(&bytes).unwrap_err();
    match err {
        WireError::VersionMismatch { got: 99, want } => assert_eq!(want, PROTO_VERSION),
        other => panic!("expected version mismatch, got {other:?}"),
    }
}

#[test]
fn empty_input_is_rejected() {
    let err = decode_msg::<ClientMsg>(&[]).unwrap_err();
    assert!(matches!(err, WireError::Empty));
}

#[test]
fn integers_are_encoded_as_bincode_does() {
    for v in [0u64, 250, 251, 65_535, 65_536, 4_294_967_295, 4_294_967_296, u64::MAX] {
        assert_eq!(bytes_of(&v), reference(v));
        assert_eq!(round_trip(&v), v);
    }
    for v in [0u32, 250, 251, 65_535, 65_536, u32::MAX] {
        assert_eq!(bytes_of(&v), reference(v));
        assert_eq!(round_trip(&v), v);
    }
    for v in [0u16, 250, 251, u16::MAX] {
        assert_eq!(bytes_of(&v), reference(v));
        assert_eq!(round_trip(&v), v);
    }
    for v in [0i32, 1, -1, 125, -125, -126, 40_000, i32::MIN, i32::MAX] {
        assert_eq!(bytes_of(&v), reference(v));
        assert_eq!(round_trip(&v), v);
    }
    for v in [0u8, 251, 255] {
        assert_eq!(bytes_of(&v), reference(v));
    }
}

#[test]
fn values_are_encoded_as_bincode_does() {
    assert_eq!(bytes_of(&f32v(-73.25)), reference(-73.25f32));
    assert_eq!(bytes_of(&f64v(2400.0)), reference(2400.0f64));
    assert_eq!(bytes_of(&true), reference(true));
    assert_eq!(bytes_of(&"grün".to_string()), reference("grün"));
    assert_eq!(bytes_of(&Some(7u32)), reference(Some(7u32)));
    assert_eq!(bytes_of(&None::<u32>), reference(None::<u32>));
    assert_eq!(bytes_of(&vec![1u8; 300]), reference(vec![1u8; 300]));
}

#[test]
fn messages_are_encoded_as_bincode_does() {
    let state = sample_radio_state();
    let first = (0u32, 14_200_000u64, 6u32, "2400", Some(2400.0f64), Some(8u8), false, true);
    let second = (1u32, 50u8, false, false, -73.0f32, false);
    let third = (0i32, false, 0i32, false, 0i32, Some(18.5f32));
    assert_eq!(bytes_of(&state), reference((first, second, third)));

    let text = DecodedText {
        decoder: DecoderKind::Psk,
        text: "CQ".into(),
        timestamp_us: 1_000,
    };
    assert_eq!(bytes_of(&text), reference((2u32, "CQ", 1_000u64)));
    assert_eq!(
        bytes_of(&ServerMsg::DecodedText(text)),
        reference((7u32, (2u32, "CQ", 1_000u64)))
    );
    assert_eq!(
        bytes_of(&ClientMsg::SetDecoder {
            decoder: DecoderKind::Aprs,
            enabled: true
        }),
        reference((8u32, 8u32, true))
    );
    assert_eq!(bytes_of(&ClientMsg::LoadState), reference(17u32));
    assert_eq!(
        bytes_of(&ClientMsg::SetDemodMode(Some(Mode::Unknown))),
        reference((3u32, Some(11u32)))
    );
}

#[test]
fn bytes_behind_a_message_are_ignored() {
    let mut bytes = encode_msg(&ClientMsg::SetNb(true));
    bytes.push(77);
    assert_eq!(decode_msg::<ClientMsg>(&bytes).unwrap(), ClientMsg::SetNb(true));
}

#[test]
fn every_fault_is_named() {
    let v = PROTO_VERSION;
    // No variant number.
    let e = decode_msg::<ClientMsg>(&[v]).unwrap_err();
    assert_eq!(e, WireError::Decode(DecodeFault::UnexpectedEnd { additional: 1 }));
    // A variant number that is too wide.
    let e = decode_msg::<ClientMsg>(&[v, 253]).unwrap_err();
    let wide = DecodeFault::InvalidIntegerType {
        expected: IntegerType::U32,
        found: IntegerType::U64,
    };
    assert_eq!(e, WireError::Decode(wide));
    // No such variant.
    let e = decode_msg::<ClientMsg>(&[v, 18]).unwrap_err();
    let unknown = DecodeFault::UnexpectedVariant { of: "ClientMsg", max: 17, number: 18 };
    assert_eq!(e, WireError::Decode(unknown));
    // A flag that is neither.
    let e = decode_msg::<ClientMsg>(&[v, 2, 2]).unwrap_err();
    assert_eq!(e, WireError::Decode(DecodeFault::InvalidBooleanValue(2)));
    // Text that ends too early.
    let e = decode_msg::<ClientMsg>(&[v, 0, 3, 65]).unwrap_err();
    assert_eq!(e, WireError::Decode(DecodeFault::UnexpectedEnd { additional: 2 }));
    // Text that is none.
    let e = decode_msg::<ClientMsg>(&[v, 0, 2, 65, 0xff]).unwrap_err();
    let bad = DecodeFault::Utf8 { valid_up_to: 1, error_len: Some(1) };
    assert_eq!(e, WireError::Decode(bad));
    // Sound that ends too early.
    let e = decode_msg::<ClientMsg>(&[v, 1, 9, 1, 2]).unwrap_err();
    assert_eq!(e, WireError::Decode(DecodeFault::UnexpectedEnd { additional: 7 }));
}

#[test]
fn wire_errors_have_words() {
    assert_eq!(WireError::Empty.message(), "empty wire frame (no version byte)");
    assert_eq!(
        WireError::VersionMismatch { got: 1, want: 3 }.message(),
        "wire-format version mismatch: got 1, want 3"
    );
    let v = PROTO_VERSION;
    let words = |bytes: &[u8]| decode_msg::<ClientMsg>(bytes).unwrap_err().message();
    assert_eq!(words(&[v]), "bincode decode: UnexpectedEnd { additional: 1 }");
    assert_eq!(
        words(&[v, 18]),
        "bincode decode: UnexpectedVariant { type_name: \"ClientMsg\", \
         allowed: Range { min: 0, max: 17 }, found: 18 }"
    );
    assert_eq!(
        words(&[v, 3, 7]),
        "bincode decode: UnexpectedVariant { \
         type_name: \"core::option::Option<efd_station::proto::radio::Mode>\", \
         allowed: Range { min: 0, max: 1 }, found: 7 }"
    );
    assert_eq!(words(&[v, 2, 2]), "bincode decode: InvalidBooleanValue(2)");
    assert_eq!(
        words(&[v, 0, 1, 0xc3]),
        "bincode decode: Utf8 { inner: Utf8Error { valid_up_to: 0, error_len: None } }"
    );
}

/// Reads the same bytes here and with `bincode`, and compares what is wrong
/// with them.
fn same_words<T: Wire, B: bincode::Decode<()>>(bytes: &[u8]) {
    let here = T::read_from(bytes, 0).map(|r| r.1).map_err(|f| WireError::Decode(f).message());
    let there = bincode::decode_from_slice::<B, _>(bytes, bincode::config::standard())
        .map(|r| r.1)
        .map_err(|e| format!("bincode decode: {e}"));
    assert_eq!(here, there, "{bytes:?}");
}

#[test]
fn faults_are_worded_as_bincode_does() {
    for first in 0..=255u8 {
        for len in 0..12 {
            let mut bytes = vec![first];
            bytes.extend((1..len).map(|k| k as u8));
            bytes.truncate(len);
            same_words::<u8, u8>(&bytes);
            same_words::<u16, u16>(&bytes);
            same_words::<u32, u32>(&bytes);
            same_words::<u64, u64>(&bytes);
            same_words::<i32, i32>(&bytes);
            same_words::<bool, bool>(&bytes);
            same_words::<F32, f32>(&bytes);
            same_words::<F64, f64>(&bytes);
            same_words::<Option<u8>, Option<u8>>(&bytes);
            same_words::<Option<u32>, Option<u32>>(&bytes);
            same_words::<Option<F32>, Option<f32>>(&bytes);
            same_words::<Option<F64>, Option<f64>>(&bytes);
        }
    }
    for bytes in [&[][..], &[3, 65], &[1, 0xff], &[2, 0xc3, 0x28], &[3, 65, 0xe2, 0x82], &[255]] {
        same_words::<String, String>(bytes);
        same_words::<Option<String>, Option<String>>(bytes);
        same_words::<Vec<u8>, Vec<u8>>(bytes);
        same_words::<Vec<F32>, Vec<f32>>(bytes);
    }
}

#[test]
fn numbers_in_messages_compare_as_numbers() {
    let single = |v: f32| F32 { bits: v.to_bits() };
    let double = |v: f64| F64 { bits: v.to_bits() };
    assert!(single(0.0) == single(-0.0));
    assert!(single(f32::NAN) != single(f32::NAN));
    assert!(single(1.5) == single(1.5) && single(1.5) != single(-1.5));
    assert!(single(f32::INFINITY) == single(f32::INFINITY));
    assert!(double(0.0) == double(-0.0));
    assert!(double(f64::NAN) != double(f64::NAN));
    assert!(double(f64::INFINITY) != double(f64::NEG_INFINITY));
    let mut bins = FftBins {
        center_freq_hz: 7_100_000,
        span_hz: 192_000,
        ref_level_db: single(0.0),
        bins: vec![single(-80.0)],
        timestamp_us: 1,
    };
    let mut other = bins.clone();
    other.ref_level_db = single(-0.0);
    assert_eq!(bins, other);
    bins.bins[0] = single(f32::NAN);
    assert_ne!(bins, bins.clone());
}

#[test]
fn different_messages_have_different_frames() {
    let a = encode_msg(&ServerMsg::DrmStatus(sample_drm_status()));
    let mut other = sample_drm_status();
    other.timestamp_us += 1;
    let b = encode_msg(&ServerMsg::DrmStatus(other));
    assert_ne!(a, b);
}
