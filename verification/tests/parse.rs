//! What the radio's answers mean.
use efd_station::cat::commands::{set_agc_threshold, set_filter};
use efd_station::cat::parse::{
    can_cut_if, can_cut_rf, can_cut_ri, can_cut_sm, can_cut_th, kenwood_mode, level_of_reading,
    mode_char,
    parse_if_response, parse_if_response_tuple, parse_rf_index, parse_rf_response,
    parse_ri_response, parse_sm_response, parse_th_response, RssiField,
};
use efd_station::proto::filters::kenwood_mode_char;
use efd_station::proto::radio::{Mode, Vfo};

fn dbm(level: efd_station::cat::parse::MeterLevel) -> f32 {
    level.elevenths_dbm as f32 / 11.0
}

fn rssi(field: RssiField) -> f32 {
    let magnitude: f32 = field.magnitude.parse().unwrap();
    if field.negative {
        -magnitude
    } else {
        magnitude
    }
}

#[test]
fn parse_if_basic() {
    // IF(2) + freq(11) + padding(16) + tx(1)@28 + mode(1)@29 + vfo(1)@30 + trail + ;
    let resp = "IF000071000000000000000000000200;";
    let r = parse_if_response(resp).unwrap();
    assert_eq!(r.freq_hz, 7_100_000);
    assert_eq!(r.mode, Mode::USB);
    assert_eq!(r.vfo, Vfo::A);
    assert!(!r.tx);
}

#[test]
fn parse_if_lsb_vfob() {
    let resp = "IF000142000000000000000000000110;";
    let r = parse_if_response(resp).unwrap();
    assert_eq!(r.freq_hz, 14_200_000);
    assert_eq!(r.mode, Mode::LSB);
    assert_eq!(r.vfo, Vfo::B);
}

#[test]
fn parse_if_tx_state() {
    // tx=1 at position 28
    let resp = "IF000071000000000000000000001200;";
    let r = parse_if_response(resp).unwrap();
    assert!(r.tx);
}

#[test]
fn parse_sm_s9() {
    // S9 = reading 0011 per FDM-DUO manual
    let resp = "SM00011;";
    let db = dbm(parse_sm_response(resp).unwrap());
    assert!((db - (-73.0)).abs() < 0.1, "S9 should be -73 dBm, got {db}");
}

#[test]
fn parse_sm_s0() {
    let resp = "SM00000;";
    let db = dbm(parse_sm_response(resp).unwrap());
    assert!((db - (-127.0)).abs() < 0.1);
}

#[test]
fn parse_sm_s9_plus_60() {
    // S9+60 = reading 0022
    let resp = "SM00022;";
    let db = dbm(parse_sm_response(resp).unwrap());
    assert!((db - (-13.0)).abs() < 0.1, "S9+60 should be -13 dBm, got {db}");
}

#[test]
fn parse_ri_negative() {
    let resp = "RI-00085;";
    let db = rssi(parse_ri_response(resp).unwrap());
    assert!((db - (-85.0)).abs() < 0.1);
}

#[test]
fn parse_ri_unreliable() {
    let resp = "RI!00000;";
    assert!(parse_ri_response(resp).is_none());
}

#[test]
fn parse_if_too_short() {
    assert!(parse_if_response("IF001234;").is_none());
}

#[test]
fn parse_if_wrong_prefix() {
    let resp = "FA00007100000;";
    assert!(parse_if_response(resp).is_none());
}

#[test]
fn parse_rf_usb_2400() {
    let resp = "RF20808;";
    let bw = parse_rf_response(resp, Mode::USB).unwrap();
    assert_eq!(bw, "2.4k");
}

#[test]
fn parse_rf_cw_500() {
    let resp = "RF31300;";
    let bw = parse_rf_response(resp, Mode::CW).unwrap();
    assert_eq!(bw, "500");
}

#[test]
fn parse_rf_am() {
    let resp = "RF50300;";
    let bw = parse_rf_response(resp, Mode::AM).unwrap();
    assert_eq!(bw, "4.0k");
}

#[test]
fn kenwood_mode_mapping() {
    assert_eq!(kenwood_mode(1), Mode::LSB);
    assert_eq!(kenwood_mode(2), Mode::USB);
    assert_eq!(kenwood_mode(3), Mode::CW);
    assert_eq!(kenwood_mode(4), Mode::FM);
    assert_eq!(kenwood_mode(5), Mode::AM);
    assert_eq!(kenwood_mode(7), Mode::CWR);
    assert_eq!(kenwood_mode(0), Mode::Unknown);
    assert_eq!(kenwood_mode(9), Mode::Unknown);
}

#[test]
fn answers_may_have_white_space_around_them() {
    let resp = "  IF000071000000000000000000000200;\r\n";
    assert!(can_cut_if(resp));
    assert_eq!(
        parse_if_response_tuple(resp),
        Some((7_100_000, Mode::USB, Vfo::A))
    );
}

#[test]
fn answers_that_cannot_be_cut_are_told_apart() {
    assert!(!can_cut_if("IF0000710000\u{e9}000000000000000200;"));
    assert!(can_cut_if("IF001234;"));
    assert!(can_cut_sm("SM00011;"));
    assert!(can_cut_ri("RI-00085;"));
    assert!(can_cut_th("TH05;"));
    assert!(can_cut_rf("RF20808;"));
}

#[test]
fn a_threshold_reads_back() {
    for v in 0..=10u8 {
        assert_eq!(parse_th_response(&set_agc_threshold(v).raw), Some(v));
    }
    assert_eq!(parse_th_response("SM00011;"), None);
}

#[test]
fn a_filter_index_reads_back() {
    for i in [0u8, 7, 21] {
        let resp = set_filter(Mode::USB, i).unwrap().raw;
        assert_eq!(parse_rf_index(&resp), Some(i));
    }
    assert_eq!(parse_rf_response("RF29900;", Mode::USB).unwrap(), "?");
}

#[test]
fn mode_digits_lead_back() {
    for m in [Mode::LSB, Mode::USB, Mode::CW, Mode::FM, Mode::AM, Mode::CWR] {
        let c = kenwood_mode_char(m).unwrap();
        assert_eq!(kenwood_mode(c.to_digit(10).unwrap() as u8), m);
        assert_eq!(mode_char(m), Some(c));
    }
}

#[test]
fn no_level_is_above_zero() {
    assert_eq!(dbm(parse_sm_response("SM09999;").unwrap()), 0.0);
}

#[test]
fn a_status_has_32_characters_before_its_semicolon() {
    assert_eq!(parse_if_response("IF00007100000000000000000000020;"), None);
    let status = parse_if_response("IF000071000000000000000000001210;").unwrap();
    assert_eq!((status.freq_hz, status.mode, status.vfo), (7_100_000, Mode::USB, Vfo::B));
    assert!(status.tx);
}

#[test]
fn the_meter_goes_by_the_manuals_table() {
    let s_units = [(0, 0), (2, 1), (3, 2), (4, 3), (5, 4), (6, 5), (8, 6), (9, 7), (10, 8), (11, 9)];
    for (reading, s) in s_units {
        let level = parse_sm_response(&format!("SM0{reading:04};")).unwrap();
        assert_eq!(level.elevenths_dbm, 11 * (-127 + 6 * s));
    }
    for (reading, over) in [(12, 10), (14, 20), (16, 30), (18, 40), (20, 50), (22, 60)] {
        let level = parse_sm_response(&format!("SM0{reading:04};")).unwrap();
        assert_eq!(level.elevenths_dbm, 11 * (-73 + over));
    }
    assert_eq!(dbm(parse_sm_response("SM00012;").unwrap()), -63.0);
}

#[test]
fn greater_readings_are_stronger() {
    assert_eq!(level_of_reading(1).elevenths_dbm, -1343);
    assert_eq!(level_of_reading(13).elevenths_dbm, -683);
    assert_eq!(level_of_reading(24).elevenths_dbm, -23);
    let levels: Vec<i32> = (0..40u16).map(|n| level_of_reading(n).elevenths_dbm).collect();
    assert!(levels.windows(2).all(|w| w[0] <= w[1]));
    assert_eq!(levels[39], 0);
}
