//! The DRM decoder's screen and the processes around it.
use efd_station::dsp::drm::{
    bridge_result, flag_ok, loopback_buffer_frames, parse_tui_line, strip_ansi, DreamArg, DreamExit,
    DrmConfig, DrmInput, StatusReader, TuiStatus,
};
use efd_station::dsp::drm_file::{
    drain_ms, missing_file, stereo_sums, FileBridge, FileEvent, BYTES_PER_CHUNK, FRAMES_PER_CHUNK,
};
use efd_station::dsp::error::DspError;

fn number(text: &Option<String>) -> Option<f32> {
    text.as_ref().map(|t| t.parse().unwrap())
}

const LOCKED: [&str; 13] = [
    "        IO:O  Time:O  Frame:O  FAC:O  SDC:O  MSC:O",
    "                   IF Level: -17.8 dB",
    "                        SNR: 25.6 dB",
    "         MSC WMER / MSC MER: 23.6 dB / 23.6 dB",
    " DC Frequency of DRM Signal: 11965.99 Hz",
    "    Sample Frequency Offset: -5.45 Hz (-113 ppm)",
    "            Doppler / Delay: 1.11 Hz / 0.62 ms",
    "       DRM Mode / Bandwidth: B / 10 kHz",
    "          Interleaver Depth: 2 s",
    "             SDC / MSC Mode: 16-QAM / SM 64-QAM",
    "        Prot. Level (B / A): 0 / 0",
    "         Number of Services: Audio: 1 / Data: 0",
    "       Received time - date: Service not available",
];

#[test]
fn default_dream_rate_is_supported() {
    let cfg = DrmConfig::default();
    assert!(matches!(
        cfg.dream_rate,
        24_000 | 48_000 | 96_000 | 192_000
    ));
}

#[test]
fn strip_ansi_removes_csi() {
    assert_eq!(strip_ansi("\x1b[?25lhello\x1b[H"), "hello");
    assert_eq!(strip_ansi("\x1b[K"), "");
    assert_eq!(strip_ansi("plain text"), "plain text");
    assert_eq!(strip_ansi("\x1b[31mred\x1b[0m end"), "red end");
}

#[test]
fn parse_tui_full_frame_locked() {
    let mut acc = TuiStatus::empty();
    let mut done = false;
    for l in LOCKED {
        done |= parse_tui_line(l, &mut acc);
    }
    assert!(done, "frame terminator should fire");
    assert!(acc.io_ok && acc.time_ok && acc.frame_ok);
    assert!(acc.fac_ok && acc.sdc_ok && acc.msc_ok);
    assert_eq!(number(&acc.if_level_db), Some(-17.8));
    assert_eq!(number(&acc.snr_db), Some(25.6));
    assert_eq!(number(&acc.wmer_db), Some(23.6));
    assert_eq!(number(&acc.mer_db), Some(23.6));
    assert!((number(&acc.dc_freq_hz).unwrap() - 11_965.99).abs() < 0.01);
    assert!((number(&acc.sample_offset_hz).unwrap() - (-5.45)).abs() < 0.01);
    assert_eq!(number(&acc.doppler_hz), Some(1.11));
    assert_eq!(number(&acc.delay_ms), Some(0.62));
    assert_eq!(acc.robustness_mode.as_deref(), Some("B"));
    assert_eq!(acc.bandwidth_khz, Some(10));
    assert_eq!(acc.interleaver_s, Some(2));
    assert_eq!(acc.sdc_mode.as_deref(), Some("16-QAM"));
    assert_eq!(acc.msc_mode.as_deref(), Some("SM 64-QAM"));
    assert_eq!(acc.num_audio_services, 1);
    assert_eq!(acc.num_data_services, 0);
}

#[test]
fn parse_tui_frame_before_lock_yields_none() {
    // All fields "---" except the status flags.
    let lines = [
        "        IO:O  Time:   Frame:   FAC:   SDC:   MSC: ",
        "                   IF Level: ---",
        "                        SNR: ---",
        "         MSC WMER / MSC MER: ---",
        " DC Frequency of DRM Signal: ---",
        "    Sample Frequency Offset: ---",
        "            Doppler / Delay: ---",
        "       DRM Mode / Bandwidth: ---",
        "          Interleaver Depth: ---",
        "             SDC / MSC Mode: ---",
        "        Prot. Level (B / A): ---",
        "         Number of Services: ---",
        "       Received time - date: ---",
    ];
    let mut acc = TuiStatus::empty();
    let mut done = false;
    for l in lines {
        done |= parse_tui_line(l, &mut acc);
    }
    assert!(done);
    assert!(acc.io_ok);
    assert!(!acc.time_ok);
    assert!(!acc.frame_ok);
    assert!(acc.if_level_db.is_none());
    assert!(acc.snr_db.is_none());
    assert!(acc.robustness_mode.is_none());
    assert!(acc.bandwidth_khz.is_none());
}

#[test]
fn parse_tui_handles_ansi_terminators() {
    // Real screen lines are wrapped in \e[K and the like.
    let raw = "                   IF Level: -21.6 dB\x1b[K";
    let cleaned = strip_ansi(raw);
    let mut acc = TuiStatus::empty();
    parse_tui_line(&cleaned, &mut acc);
    assert_eq!(number(&acc.if_level_db), Some(-21.6));
}

#[test]
fn reports_follow_each_other() {
    let mut reader = StatusReader::new();
    for _ in 0..2 {
        for l in &LOCKED[..12] {
            assert!(reader.line(&format!("\x1b[K{l}\r\n")).is_none());
        }
        let report = reader.line(&format!("{}\n", LOCKED[12])).unwrap();
        assert_eq!(report.msc_mode.as_deref(), Some("SM 64-QAM"));
        assert_eq!(report.bandwidth_khz, Some(10));
    }
    let empty = reader.line(LOCKED[12]).unwrap();
    assert!(!empty.io_ok);
    assert!(empty.snr_db.is_none());
}

#[test]
fn stripping_keeps_what_is_no_code() {
    assert_eq!(strip_ansi("\u{e9}"), "\u{e9}");
    assert_eq!(strip_ansi("M\u{fc}nchen\x1b[1;31m \u{2603}\x1b[0m!"), "M\u{fc}nchen \u{2603}!");
    assert_eq!(strip_ansi("\x1bMup"), "\x1bMup");
    assert_eq!(strip_ansi("a\x1b[12"), "a");
}

#[test]
fn a_mark_may_stand_behind_blanks() {
    let chars = |s: &str| s.chars().collect::<Vec<char>>();
    assert!(flag_ok(&chars("O")));
    assert!(flag_ok(&chars(" O")));
    assert!(flag_ok(&chars(" \t O  Time:O")));
    assert!(!flag_ok(&chars("")));
    assert!(!flag_ok(&chars("   ")));
    assert!(!flag_ok(&chars("  Frame:O")));
    let mut acc = TuiStatus::empty();
    assert!(!parse_tui_line("IO: O  Time:   Frame:O  FAC: O  SDC:   MSC:  ", &mut acc));
    assert!(acc.io_ok && acc.frame_ok && acc.fac_ok);
    assert!(!acc.time_ok && !acc.sdc_ok && !acc.msc_ok);
}

#[test]
fn the_decoders_end_is_judged_by_its_input() {
    assert!(bridge_result(DrmInput::File, DreamExit::Cancelled).is_ok());
    assert!(bridge_result(DrmInput::File, DreamExit::Exited(true)).is_ok());
    assert_eq!(
        bridge_result(DrmInput::File, DreamExit::Exited(false)).unwrap_err().message(),
        "DRM: dream subprocess exited non-zero"
    );
    assert_eq!(
        bridge_result(DrmInput::AudioBroadcast, DreamExit::Exited(true)).unwrap_err().message(),
        "DRM: dream subprocess exited"
    );
    assert_eq!(
        bridge_result(DrmInput::File, DreamExit::WaitFailed("gone".into()))
            .unwrap_err()
            .message(),
        "DRM: dream wait: gone"
    );
}

fn words(args: Vec<DreamArg>) -> Vec<String> {
    args.into_iter()
        .map(|a| match a {
            DreamArg::Text(t) => t,
            DreamArg::InputFile => "<file>".to_string(),
        })
        .collect()
}

#[test]
fn the_decoder_is_started_with_its_arguments() {
    let cfg = DrmConfig::default();
    assert_eq!(
        words(cfg.args(DrmInput::AudioBroadcast)),
        vec![
            "-I",
            "plughw:Loopback,1,0",
            "-O",
            "plughw:Loopback,0,1",
            "--sigsrate",
            "48000",
            "--audsrate",
            "48000"
        ]
    );
    let flipped = DrmConfig { flip_spectrum: true, ..DrmConfig::default() };
    let args = words(flipped.args(DrmInput::File));
    assert_eq!(args[..2], ["-f", "<file>"]);
    assert_eq!(args[8..], ["-p", "1"]);
}

#[test]
fn the_file_bridge_builds_its_processes() {
    let b = FileBridge {
        input_sink: "drm_in".into(),
        output_sink: "drm_out".into(),
        dream_rate: 48_000,
    };
    assert_eq!(b.player_args("/x.flac"), vec!["--device", "drm_in", "/x.flac"]);
    assert_eq!(
        b.recorder_args(),
        vec![
            "--record",
            "--device",
            "drm_out.monitor",
            "--channels=2",
            "--format=s16le",
            "--rate=48000",
            "--raw"
        ]
    );
    assert_eq!(
        b.decoder_args(),
        vec![
            "-I",
            "drm_in.monitor",
            "-O",
            "drm_out",
            "--sigsrate",
            "48000",
            "--audsrate",
            "48000"
        ]
    );
    assert_eq!(
        missing_file("/x").message(),
        "DRM: drm-file-test: input file does not exist: /x"
    );
    assert_eq!(drain_ms(FileEvent::PlayerDone), 1000);
    assert_eq!(drain_ms(FileEvent::Cancelled), 0);
    assert_eq!(drain_ms(FileEvent::ChildDied), 0);
}

#[test]
fn stereo_is_added_up() {
    let bytes: Vec<u8> = [1i16, 2, -1, -32768, 32767, 32767]
        .iter()
        .flat_map(|s| s.to_le_bytes())
        .collect();
    assert_eq!(stereo_sums(&bytes), vec![3, -32769, 65534]);
    assert_eq!(stereo_sums(&bytes[..7]), vec![3]);
    assert_eq!(stereo_sums(&vec![0; BYTES_PER_CHUNK]).len(), FRAMES_PER_CHUNK);
}

#[test]
fn dsp_errors_have_words() {
    assert_eq!(
        DspError::Lagged(3).message(),
        "IQ broadcast channel lagged by 3 messages"
    );
    assert_eq!(DspError::ChannelClosed.message(), "IQ broadcast channel closed");
    assert_eq!(DspError::Cancelled.message(), "FFT cancelled");
    assert_eq!(DspError::Drm("x".into()).message(), "DRM: x");
}

#[test]
fn the_sound_loop_holds_half_a_second() {
    assert_eq!(loopback_buffer_frames(48_000), 24_000);
    assert_eq!(loopback_buffer_frames(1), 0);
}
