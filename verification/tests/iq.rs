//! IQ sources and the FDM-DUO's replies.
use efd_station::iq::error::{IqError, UsbFault, UsbFaultKind};
use efd_station::iq::fdm_duo::{
    convert_samples, read_frequency, streaming_started, Capture, CaptureEvent, CaptureStep,
    DeviceInfo, USB_BUFFER_SIZE,
};
use efd_station::iq::source::{
    FdmDuoConfig, HackRfConfig, PortableRadioConfig, RspDxConfig, RtlSdrConfig, SourceConfig,
};
use efd_station::proto::radio::{Mode, SourceKind};

fn normalized(usb_data: &[u8]) -> Vec<[f32; 2]> {
    convert_samples(usb_data)
        .iter()
        .map(|s| [s[0] as f32 / 2_147_483_648.0, s[1] as f32 / 2_147_483_648.0])
        .collect()
}

fn fault(kind: UsbFaultKind) -> UsbFault {
    UsbFault { kind, text: "Pipe error".into() }
}

#[test]
fn convert_samples_basic() {
    // i32 max → ~1.0, i32 min → -1.0, zero → 0.0
    let mut buf = [0u8; 24]; // 3 samples

    // Sample 0: I=0, Q=0
    // (already zero)

    // Sample 1: I = i32::MAX, Q = i32::MIN
    let i_max = i32::MAX.to_le_bytes();
    let q_min = i32::MIN.to_le_bytes();
    buf[8..12].copy_from_slice(&i_max);
    buf[12..16].copy_from_slice(&q_min);

    // Sample 2: I = 1073741824 (0.5), Q = -1073741824 (-0.5)
    let half_pos = 1_073_741_824i32.to_le_bytes();
    let half_neg = (-1_073_741_824i32).to_le_bytes();
    buf[16..20].copy_from_slice(&half_pos);
    buf[20..24].copy_from_slice(&half_neg);

    let samples = normalized(&buf);
    assert_eq!(samples.len(), 3);

    assert!((samples[0][0]).abs() < 1e-7);
    assert!((samples[0][1]).abs() < 1e-7);

    assert!((samples[1][0] - 1.0).abs() < 1e-6);
    assert!((samples[1][1] + 1.0).abs() < 1e-6);

    assert!((samples[2][0] - 0.5).abs() < 1e-6);
    assert!((samples[2][1] + 0.5).abs() < 1e-6);
}

#[test]
fn convert_samples_partial_ignored() {
    // 10 bytes → 1 complete sample, 2 leftover bytes ignored
    let buf = [0u8; 10];
    let samples = normalized(&buf);
    assert_eq!(samples.len(), 1);
}

#[test]
fn a_full_buffer_is_whole() {
    assert_eq!(convert_samples(&vec![0; USB_BUFFER_SIZE]).len(), 1536);
}

#[test]
fn the_device_introduces_itself() {
    let mut info = DeviceInfo::unknown();
    info.take_version(&[3, 7]);
    assert_eq!((info.hw_version_major, info.hw_version_minor), (3, 7));
    info.take_version(&[9]);
    assert_eq!((info.hw_version_major, info.hw_version_minor), (3, 7));

    let mut serial = [0u8; 32];
    serial[..6].copy_from_slice(b"SL1JO3");
    info.take_serial(&serial);
    assert_eq!(info.serial, "SL1JO3");
    info.take_serial(&serial[..31]);
    assert_eq!(info.serial, "SL1JO3");
    // What is not UTF-8 is replaced.
    serial[5] = 0xff;
    info.take_serial(&serial);
    assert_eq!(info.serial, "SL1JO\u{fffd}");

    info.take_correction(&(-1234i32).to_le_bytes());
    assert_eq!(info.effective_clock(), 122_880_000 - 1234);
    info.take_correction(&1_000_001i32.to_le_bytes());
    assert_eq!(info.sample_rate_correction, -1234);
    info.take_correction(&1_000_000i32.to_le_bytes());
    assert_eq!(info.effective_clock(), 123_880_000);
}

#[test]
fn streaming_is_confirmed() {
    assert!(streaming_started(Ok((1, 0xE9))).is_ok());
    assert_eq!(
        streaming_started(Ok((1, 0x0A))).unwrap_err().message(),
        "FIFO control failed: start FIFO: got 1 bytes, buf[0]=0x0A"
    );
    assert_eq!(
        streaming_started(Err(fault(UsbFaultKind::Other))).unwrap_err().message(),
        "USB error: Pipe error"
    );
}

#[test]
fn the_centre_frequency_is_read() {
    let mut reply = [0u8; 11];
    reply[1..5].copy_from_slice(&14_074_000u32.to_be_bytes());
    assert_eq!(read_frequency(Ok(&reply)).unwrap(), 14_074_000);
    assert_eq!(
        read_frequency(Ok(&reply[..5])).unwrap_err().message(),
        "FIFO control failed: read_frequency: expected 11 bytes, got 5"
    );
    assert!(read_frequency(Err(fault(UsbFaultKind::Timeout))).is_err());
}

#[test]
fn the_capture_goes_on_or_stops() {
    let mut c = Capture::new();
    assert!(matches!(c.step(CaptureEvent::Read(0)), CaptureStep::Retry));
    assert!(matches!(
        c.step(CaptureEvent::Failed(fault(UsbFaultKind::Timeout))),
        CaptureStep::Retry
    ));
    let rereads = (1..=1000)
        .filter(|_| {
            matches!(c.step(CaptureEvent::Read(8)), CaptureStep::Publish { reread: true })
        })
        .count();
    assert_eq!(rereads, 2);
    assert_eq!(c.blocks, 1000);
    assert!(matches!(
        c.step(CaptureEvent::Failed(fault(UsbFaultKind::NoDevice))),
        CaptureStep::Stop(IqError::Usb(_))
    ));
    assert!(matches!(
        c.step(CaptureEvent::Cancelled),
        CaptureStep::Stop(IqError::Cancelled)
    ));
}

#[test]
fn sources_say_what_they_can_do() {
    let duo = SourceConfig::FdmDuo(FdmDuoConfig::default()).capabilities();
    assert_eq!(duo.kind, SourceKind::FdmDuo);
    assert!(duo.has_iq && duo.has_tx && duo.has_hardware_cat);
    assert_eq!(
        duo.supported_demod_modes,
        vec![Mode::USB, Mode::LSB, Mode::CW, Mode::CWR, Mode::AM, Mode::FM, Mode::DRM]
    );
    let hack = SourceConfig::HackRf(HackRfConfig::default()).capabilities();
    assert!(hack.has_iq && hack.has_tx && !hack.has_hardware_cat);
    let rtl = SourceConfig::RtlSdr(RtlSdrConfig::default());
    assert_eq!(rtl.kind(), SourceKind::RtlSdr);
    assert!(!rtl.capabilities().has_tx);
    let portable = SourceConfig::PortableRadio(PortableRadioConfig).capabilities();
    assert!(!portable.has_iq);
    assert!(portable.supported_demod_modes.is_empty());
}

#[test]
fn only_the_duo_has_a_driver() {
    let duo = SourceConfig::FdmDuo(FdmDuoConfig::default());
    assert_eq!(duo.driver().unwrap().product_id, 0x061a);
    let rsp = SourceConfig::RspDx(RspDxConfig::default());
    assert_eq!(rsp.driver().unwrap_err().message(), "backend not implemented: RspDx");
    let portable = SourceConfig::PortableRadio(PortableRadioConfig);
    assert_eq!(
        portable.driver().unwrap_err().message(),
        "source PortableRadio does not provide IQ"
    );
}

#[test]
fn iq_errors_have_words() {
    assert_eq!(
        IqError::DeviceNotFound { vid: 0x1721, pid: 0x61a }.message(),
        "device not found (VID=0x1721, PID=0x061A)"
    );
    assert_eq!(IqError::Cancelled.message(), "streaming cancelled");
    assert_eq!(IqError::ChannelClosed.message(), "broadcast channel closed");
}
