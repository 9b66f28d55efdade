//! The radio's filter tables.
use efd_station::proto::filters::{filter_label, filters_for_mode, kenwood_mode_char};
use efd_station::proto::radio::{Mode, SourceClass, SourceKind};

#[test]
fn lsb_usb_has_22_entries() {
    assert_eq!(filters_for_mode(Mode::LSB).len(), 22);
    assert_eq!(filters_for_mode(Mode::USB).len(), 22);
}

#[test]
fn cw_starts_at_index_7() {
    let cw = filters_for_mode(Mode::CW);
    assert_eq!(cw.first().map(|f| f.index), Some(7));
    assert_eq!(cw.first().map(|f| f.label), Some("100&4"));
}

#[test]
fn filter_label_roundtrip() {
    assert_eq!(filter_label(Mode::USB, 8), Some("2.4k"));
    assert_eq!(filter_label(Mode::AM, 0), Some("2.5k"));
    assert_eq!(filter_label(Mode::FM, 1), Some("Wide"));
    assert_eq!(filter_label(Mode::CW, 13), Some("500"));
    assert_eq!(filter_label(Mode::USB, 99), None);
}

#[test]
fn software_modes_share_am_table() {
    for m in [Mode::SAM, Mode::SAMU, Mode::SAML, Mode::DSB, Mode::DRM] {
        assert_eq!(
            filters_for_mode(m).as_ptr(),
            filters_for_mode(Mode::AM).as_ptr()
        );
    }
}

#[test]
fn kenwood_mode_char_values() {
    assert_eq!(kenwood_mode_char(Mode::LSB), Some('1'));
    assert_eq!(kenwood_mode_char(Mode::USB), Some('2'));
    assert_eq!(kenwood_mode_char(Mode::CW), Some('3'));
    assert_eq!(kenwood_mode_char(Mode::FM), Some('4'));
    assert_eq!(kenwood_mode_char(Mode::AM), Some('5'));
    assert_eq!(kenwood_mode_char(Mode::CWR), Some('7'));
    assert_eq!(kenwood_mode_char(Mode::SAMU), Some('5'));
    assert_eq!(kenwood_mode_char(Mode::Unknown), None);
}

#[test]
fn source_kind_class_mapping() {
    assert_eq!(SourceKind::FdmDuo.class(), SourceClass::Iq);
    assert_eq!(SourceKind::HackRf.class(), SourceClass::Iq);
    assert_eq!(SourceKind::IqFile.class(), SourceClass::Iq);
    assert_eq!(SourceKind::PortableRadio.class(), SourceClass::Audio);
    assert_eq!(SourceKind::AudioFile.class(), SourceClass::Audio);
}

#[test]
fn every_label_is_found_by_its_index() {
    for m in [Mode::LSB, Mode::USB, Mode::CW, Mode::CWR, Mode::AM, Mode::FM, Mode::DRM] {
        for f in filters_for_mode(m) {
            assert_eq!(filter_label(m, f.index), Some(f.label));
        }
    }
}
