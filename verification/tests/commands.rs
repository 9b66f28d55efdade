//! The commands that the client sends to the radio.
use efd_station::cat::commands::{
    set_agc_mode, set_agc_threshold, set_filter, set_freq, set_mode, tune,
};
use efd_station::proto::messages::CatCommand;
use efd_station::proto::radio::{AgcMode, Mode, Vfo};

fn raws(cmds: Vec<CatCommand>) -> Vec<String> {
    cmds.into_iter().map(|c| c.raw).collect()
}

#[test]
fn threshold_format() {
    assert_eq!(set_agc_threshold(0).raw, "TH00;");
    assert_eq!(set_agc_threshold(5).raw, "TH05;");
    assert_eq!(set_agc_threshold(10).raw, "TH10;");
    // Values above 10 clamp to 10.
    assert_eq!(set_agc_threshold(42).raw, "TH10;");
}

#[test]
fn agc_mode_off_is_single_gc1() {
    assert_eq!(raws(set_agc_mode(AgcMode::Off)), vec!["GC1;"]);
}

#[test]
fn set_filter_format() {
    assert_eq!(set_filter(Mode::USB, 8).unwrap().raw, "RF208;");
    assert_eq!(set_filter(Mode::CW, 13).unwrap().raw, "RF313;");
    assert_eq!(set_filter(Mode::AM, 0).unwrap().raw, "RF500;");
    assert_eq!(set_filter(Mode::FM, 1).unwrap().raw, "RF401;");
    // Software-only modes park at AM (P1 = '5').
    assert_eq!(set_filter(Mode::SAM, 3).unwrap().raw, "RF503;");
    assert!(set_filter(Mode::Unknown, 0).is_none());
}

#[test]
fn agc_mode_speeds_emit_gc0_then_gs() {
    assert_eq!(raws(set_agc_mode(AgcMode::Slow)), vec!["GC0;", "GS0000;"]);
    assert_eq!(raws(set_agc_mode(AgcMode::Medium)), vec!["GC0;", "GS0001;"]);
    assert_eq!(raws(set_agc_mode(AgcMode::Fast)), vec!["GC0;", "GS0002;"]);
}

#[test]
fn frequencies_have_eleven_digits() {
    assert_eq!(set_freq(7_100_000).raw, "FA00007100000;");
    assert_eq!(tune(Vfo::B, 99_999_999_999).raw, "FB99999999999;");
    assert_eq!(set_freq(0).raw, "FA00000000000;");
}

#[test]
fn modes_have_a_digit_or_no_command() {
    assert_eq!(set_mode(Mode::CWR).unwrap().raw, "MD7;");
    assert_eq!(set_mode(Mode::DSB).unwrap().raw, "MD5;");
    assert_eq!(set_mode(Mode::DRM).unwrap().raw, "MD5;");
    assert!(set_mode(Mode::Unknown).is_none());
}
