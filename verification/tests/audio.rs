//! Sound devices and recordings.
use efd_station::audio::discover::{
    discover_alsa_devices, find_card, is_readable, resolve_device, resolve_pcm_devices,
    SoundListing,
};
use efd_station::audio::error::AudioError;
use efd_station::audio::file_source::{
    codec_type_name, decode_step, packet_step, pause_ns, Codec, Decoding, FileSourceConfig, Packet,
    PacketStep, Playable, Track,
};
use efd_station::audio::stream::{
    card_buffer_frames, downmix, upmix, AlsaConfig, Transfer, UsbRxConfig, UsbTxConfig, FULL_SCALE,
};
use efd_station::cat::discover::{Entry, UsbDevice};

fn dir(name: &str, children: Vec<Entry>) -> Entry {
    Entry { name: name.to_string(), is_dir: true, children }
}

fn usb(name: &str, ids: Option<(&str, &str)>, below: Vec<Entry>) -> UsbDevice {
    UsbDevice {
        name: name.to_string(),
        vendor: ids.map(|i| i.0.to_string()),
        product: ids.map(|i| i.1.to_string()),
        below,
    }
}

fn names(v: &[&str]) -> Vec<String> {
    v.iter().map(|s| s.to_string()).collect()
}

fn station() -> SoundListing {
    SoundListing {
        usb: vec![
            usb("1-1.1", None, vec![dir("sound", vec![dir("card9", vec![])])]),
            usb(
                "1-2.1",
                None,
                vec![dir("1-2.1:1.0", vec![dir("sound", vec![dir("card2", vec![])])])],
            ),
            usb("1-2.3", Some(("1721", "061a")), vec![]),
        ],
        sound: names(&["controlC2", "pcmC0D0p", "pcmC2D0p", "pcmC2D1c", "pcmC2D3c"]),
    }
}

#[test]
fn the_radios_card_is_on_its_hub() {
    let l = station();
    assert_eq!(find_card(&l.usb), Some(2));
    assert!(is_readable(&l));
    let found = discover_alsa_devices(&l).unwrap();
    assert_eq!(found.capture.as_deref(), Some("hw:2,1"));
    assert_eq!(found.playback.as_deref(), Some("hw:2,0"));
}

#[test]
fn a_card_stands_in_the_sound_directory() {
    let mut l = station();
    l.usb[1].below = vec![dir("1-2.1:1.0", vec![dir("other", vec![dir("card2", vec![])])])];
    assert_eq!(find_card(&l.usb), None);
    // A card is a directory.
    let file = Entry { name: "card2".to_string(), is_dir: false, children: vec![] };
    l.usb[1].below = vec![dir("sound", vec![file])];
    assert_eq!(find_card(&l.usb), None);
    // The radio itself may carry the card.
    l.usb[2].below = vec![dir("sound", vec![dir("card5", vec![])])];
    assert_eq!(find_card(&l.usb), Some(5));
}

#[test]
fn configured_names_stand() {
    let l = station();
    assert_eq!(resolve_device("hw:7,7", true, &l), Some("hw:7,7".to_string()));
    assert_eq!(resolve_device("", true, &l), Some(String::new()));
    assert_eq!(resolve_device("auto", true, &l), Some("hw:2,1".to_string()));
    assert_eq!(resolve_device("auto", false, &l), Some("hw:2,0".to_string()));
    let nothing = SoundListing { usb: vec![], sound: vec![] };
    assert_eq!(resolve_device("auto", true, &nothing), None);
}

#[test]
fn names_that_cannot_be_cut_are_told_apart() {
    let mut l = station();
    l.sound.push("pcmC2D".into());
    assert!(!is_readable(&l));
    let found = resolve_pcm_devices(2, &names(&["pcmC2D0x", "pcmC2Dxc", "pcmC20D0c"]));
    assert_eq!((found.capture, found.playback), (None, None));
}

#[test]
fn buffers_follow_rate_and_latency() {
    let config = AlsaConfig::default();
    assert!(config.can_size());
    let size = config.buffer_size();
    assert_eq!((size.buffer_frames, size.period_frames), (2400, 600));
    let absurd = AlsaConfig { sample_rate: 1 << 20, latency_ms: 1 << 13, ..config };
    assert!(!absurd.can_size());
    assert_eq!(card_buffer_frames(48_000), 4800);
    assert_eq!(UsbRxConfig::default().device, "default");
    assert_eq!(UsbTxConfig::default().sample_rate, 48_000);
}

#[test]
fn a_transfer_goes_on_until_all_is_moved() {
    let mut t = Transfer::new(960);
    assert_eq!(t.next(), Some(0));
    t.moved(500);
    assert_eq!(t.next(), Some(500));
    t.moved(460);
    assert_eq!(t.next(), None);
}

#[test]
fn mono_survives_the_card() {
    let mono = [0i16, 1, -1, i16::MAX, -i16::MAX];
    let stereo = upmix(&mono);
    assert_eq!(stereo[..4], [0, 0, 1, 1]);
    let sums = downmix(&stereo);
    let back: Vec<i16> = sums.iter().map(|s| (s / 2) as i16).collect();
    assert_eq!(back, mono);
    assert_eq!(downmix(&[1, 2, 3]), vec![3]);
}

#[test]
fn mixed_samples_stay_within_full_scale() {
    let low = i16::MIN;
    let sums = downmix(&[low, low, low, -32767, low, 0, i16::MAX, i16::MAX]);
    assert_eq!(sums, vec![-65534, -65534, -32768, 65534]);
    for s in sums {
        let sample = s as f32 / (2.0 * FULL_SCALE as f32);
        assert!((-1.0..=1.0).contains(&sample));
    }
}

#[test]
fn a_recording_must_fit() {
    let config = FileSourceConfig { path: "x.wav".into(), sample_rate: 48_000 };
    let track = Track { id: 4, sample_rate: Some(48_000), channels: Some(2) };
    assert_eq!(config.check(Some(track)).unwrap(), Playable { id: 4, channels: 2 });
    let why = |t: Option<Track>| config.check(t).unwrap_err().message();
    assert_eq!(why(None), "file source config: no decodable track in file");
    assert_eq!(
        why(Some(Track { sample_rate: None, ..track })),
        "file source config: file sample rate unknown"
    );
    assert_eq!(
        why(Some(Track { sample_rate: Some(44_100), ..track })),
        "file source config: file rate 44100 Hz does not match configured rate 48000 Hz \
         (no resampling yet)"
    );
    assert_eq!(
        why(Some(Track { channels: None, ..track })),
        "file source config: file channel layout unknown"
    );
}

#[test]
fn packets_are_decoded_skipped_or_end_the_source() {
    assert!(matches!(packet_step(Packet::Of(4), 4), PacketStep::Decode));
    assert!(matches!(packet_step(Packet::Of(5), 4), PacketStep::Skip));
    assert!(matches!(packet_step(Packet::End, 4), PacketStep::Finish));
    assert!(matches!(
        packet_step(Packet::Cancelled, 4),
        PacketStep::Fail(AudioError::Cancelled)
    ));
    assert!(matches!(
        packet_step(Packet::Failed("io".into()), 4),
        PacketStep::Fail(AudioError::Decode(_))
    ));
    assert!(decode_step(Decoding::Samples).unwrap());
    assert!(!decode_step(Decoding::BadData).unwrap());
    assert_eq!(
        decode_step(Decoding::Failed("reset".into())).unwrap_err().message(),
        "file source decode: reset"
    );
    assert_eq!(codec_type_name(Codec::PcmS24le), "PCM s24le");
    assert_eq!(codec_type_name(Codec::Other), "unknown");
}

#[test]
fn audio_errors_have_words() {
    assert_eq!(AudioError::Alsa("x".into()).message(), "ALSA error: x");
    assert_eq!(AudioError::Opus("x".into()).message(), "Opus error: x");
    assert_eq!(AudioError::ChannelClosed.message(), "audio channel closed");
    assert_eq!(AudioError::Cancelled.message(), "audio task cancelled");
    assert_eq!(AudioError::FileIo("x".into()).message(), "file source I/O: x");
}

#[test]
fn a_recording_plays_at_its_own_pace() {
    assert_eq!(pause_ns(960, 48_000, 0), 20_000_000);
    assert_eq!(pause_ns(960, 48_000, 5_000_000), 15_000_000);
    assert_eq!(pause_ns(960, 48_000, 30_000_000), 0);
    assert_eq!(pause_ns(48_000, 48_000, 0), 1_000_000_000);
    assert_eq!(pause_ns(u64::MAX, 1, 0), u64::MAX as u128 * 1_000_000_000);
}
