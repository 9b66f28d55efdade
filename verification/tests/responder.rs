//! Conversations with other programs over the line protocol.
use efd_station::cat::responder::{
    handle_line, mode_to_cat, mode_to_str, read_line_bounded, sent_answer, str_to_mode, Backend,
    Clients, LineStep, Request, MAX_CONCURRENT_CONNS, MAX_LINE_BYTES,
};
use efd_station::proto::codec::F32;
use efd_station::proto::messages::RadioState;
use efd_station::proto::radio::{AgcMode, Mode, Vfo};

fn fake_state(freq_hz: u64, mode: Mode, tx: bool) -> RadioState {
    RadioState {
        vfo: Vfo::A,
        freq_hz,
        mode,
        filter_bw: String::new(),
        filter_bw_hz: None,
        filter_idx: None,
        att: false,
        lp: false,
        agc: AgcMode::Slow,
        agc_threshold: 0,
        nr: false,
        nb: false,
        s_meter_db: F32 { bits: (-73.0f32).to_bits() },
        tx,
        rit_hz: 0,
        rit_on: false,
        xit_hz: 0,
        xit_on: false,
        if_offset_hz: 0,
        snr_db: None,
    }
}

/// A connection: what the other side gets back, and what was set off.
struct Conversation {
    reply: String,
    cat: Vec<String>,
    modes: Vec<Mode>,
    closed: bool,
}

fn converse(
    backend: Backend,
    state: Option<&RadioState>,
    cat_open: bool,
    input: &[u8],
) -> Conversation {
    let mut backend = backend;
    let mut out = Conversation {
        reply: String::new(),
        cat: Vec::new(),
        modes: Vec::new(),
        closed: false,
    };
    let mut rest: &[u8] = input;
    let mut line: Vec<u8> = Vec::new();
    loop {
        match read_line_bounded(&mut line, rest, MAX_LINE_BYTES) {
            LineStep::Eof | LineStep::TooLong => {
                out.closed = true;
                return out;
            }
            LineStep::More(n) => rest = &rest[n..],
            LineStep::Line(n) => {
                rest = &rest[n..];
                let whole = std::mem::take(&mut line);
                match handle_line(whole, &backend, state) {
                    None => {}
                    Some(Request::Answer(s)) => out.reply.push_str(&s),
                    Some(Request::SendCat(cmd)) => {
                        if cat_open {
                            out.cat.push(cmd.raw);
                        }
                        out.reply.push_str(&sent_answer(cat_open));
                    }
                    Some(Request::SetDemodMode(m)) => {
                        if let Backend::Demod { mode } = &mut backend {
                            if *mode != Some(m) {
                                *mode = Some(m);
                                out.modes.push(m);
                            }
                        }
                        out.reply.push_str(&sent_answer(true));
                    }
                    Some(Request::Close) => {
                        out.closed = true;
                        return out;
                    }
                }
            }
        }
    }
}

fn hw(state: Option<RadioState>, req: &str) -> Conversation {
    let input = format!("{req}q\n");
    converse(Backend::Hardware, state.as_ref(), true, input.as_bytes())
}

fn demod(mode: Option<Mode>, state: Option<RadioState>, req: &str) -> Conversation {
    let input = format!("{req}q\n");
    converse(Backend::Demod { mode }, state.as_ref(), true, input.as_bytes())
}

#[test]
fn mode_roundtrip() {
    for m in [Mode::USB, Mode::LSB, Mode::CW, Mode::CWR, Mode::AM, Mode::FM] {
        let s = mode_to_str(m);
        assert_eq!(str_to_mode(s), Some(m));
    }
}

#[test]
fn pkt_variants_map_to_base() {
    assert_eq!(str_to_mode("PKTUSB"), Some(Mode::USB));
    assert_eq!(str_to_mode("PKTLSB"), Some(Mode::LSB));
    assert_eq!(str_to_mode("PKTFM"), Some(Mode::FM));
}

#[test]
fn unknown_mode_rejected() {
    assert_eq!(str_to_mode("FOO"), None);
}

#[test]
fn get_freq_reports_state() {
    let c = hw(Some(fake_state(14_074_000, Mode::USB, false)), "f\n");
    assert_eq!(c.reply, "14074000\n");
}

#[test]
fn get_freq_zero_when_no_state() {
    assert_eq!(hw(None, "f\n").reply, "0\n");
}

#[test]
fn set_freq_emits_cat_command() {
    let c = hw(None, "F 14074000\n");
    assert_eq!(c.reply, "RPRT 0\n");
    assert_eq!(c.cat, vec!["FA00014074000;"]);
}

#[test]
fn set_freq_uses_vfo_b_when_state_says_b() {
    let mut state = fake_state(0, Mode::USB, false);
    state.vfo = Vfo::B;
    let c = hw(Some(state), "F 7074000\n");
    assert_eq!(c.reply, "RPRT 0\n");
    assert_eq!(c.cat, vec!["FB00007074000;"]);
}

#[test]
fn set_freq_returns_rprt_minus_6_when_cat_closed() {
    let c = converse(Backend::Hardware, None, false, b"F 14074000\nq\n");
    assert_eq!(c.reply, "RPRT -6\n");
}

#[test]
fn set_freq_missing_arg_reports_error() {
    assert_eq!(hw(None, "F\n").reply, "RPRT -1\n");
}

#[test]
fn get_mode_reports_state() {
    let c = hw(Some(fake_state(0, Mode::LSB, false)), "m\n");
    assert_eq!(c.reply, "LSB\n0\n");
}

#[test]
fn set_mode_on_hardware_emits_cat_command() {
    let c = hw(None, "M CW 500\n");
    assert_eq!(c.reply, "RPRT 0\n");
    assert_eq!(c.cat, vec!["MD3;"]);
}

#[test]
fn set_mode_pktusb_maps_to_usb() {
    let c = hw(None, "M PKTUSB 3000\n");
    assert_eq!(c.reply, "RPRT 0\n");
    assert_eq!(c.cat, vec!["MD2;"]);
}

#[test]
fn set_mode_unknown_reports_error() {
    assert_eq!(hw(None, "M BOGUS 0\n").reply, "RPRT -11\n");
}

#[test]
fn get_ptt_reports_state() {
    let rx = hw(Some(fake_state(0, Mode::USB, false)), "t\n");
    assert_eq!(rx.reply, "0\n");
    let tx = hw(Some(fake_state(0, Mode::USB, true)), "t\n");
    assert_eq!(tx.reply, "1\n");
}

#[test]
fn set_ptt_on_hardware_emits_tx_command() {
    let c = hw(None, "T 1\n");
    assert_eq!(c.reply, "RPRT 0\n");
    assert_eq!(c.cat, vec!["TX;"]);
}

#[test]
fn set_ptt_off_hardware_emits_rx_command() {
    let c = hw(None, "T 0\n");
    assert_eq!(c.reply, "RPRT 0\n");
    assert_eq!(c.cat, vec!["RX;"]);
}

#[test]
fn set_ptt_on_demod_backend_rejected() {
    assert_eq!(demod(None, None, "T 1\n").reply, "RPRT -11\n");
}

#[test]
fn demod_set_mode_updates_watch_not_cat() {
    let c = demod(None, None, "M CW 500\n");
    assert_eq!(c.reply, "RPRT 0\n");
    assert!(c.cat.is_empty());
    assert_eq!(c.modes, vec![Mode::CW]);
}

#[test]
fn demod_set_mode_skips_watch_when_unchanged() {
    let c = demod(Some(Mode::CW), None, "M CW 500\n");
    assert_eq!(c.reply, "RPRT 0\n");
    assert!(c.modes.is_empty());
}

#[test]
fn demod_set_freq_still_retunes_hardware() {
    let c = demod(None, None, "F 7074000\n");
    assert_eq!(c.reply, "RPRT 0\n");
    assert_eq!(c.cat, vec!["FA00007074000;"]);
}

#[test]
fn demod_get_mode_prefers_demod_watch() {
    let c = demod(
        Some(Mode::CW),
        Some(fake_state(0, Mode::USB, false)),
        "m\n",
    );
    assert_eq!(c.reply, "CW\n0\n");
}

#[test]
fn unknown_command_returns_rprt_minus_11() {
    assert_eq!(hw(None, "dump_state\n").reply, "RPRT -11\n");
}

#[test]
fn quit_closes_connection_cleanly() {
    let c = hw(None, "");
    assert!(c.closed);
    assert_eq!(c.reply.len(), 0);
}

#[test]
fn connection_cap_rejects_beyond_max() {
    let mut clients = Clients::new();
    for _ in 0..MAX_CONCURRENT_CONNS {
        assert!(clients.let_in());
    }
    assert!(!clients.let_in());
    clients.leave();
    assert!(clients.let_in());
}

#[test]
fn oversized_line_disconnects_no_oom() {
    let junk = vec![b'A'; MAX_LINE_BYTES * 2];
    let c = converse(Backend::Hardware, None, true, &junk);
    assert!(c.closed);
    assert!(c.reply.is_empty());
}

#[test]
fn multiple_commands_one_connection() {
    let state = fake_state(14_074_000, Mode::USB, false);
    let c = converse(Backend::Hardware, Some(&state), true, b"f\nt\nq\n");
    assert_eq!(c.reply, "14074000\n0\n");
}

#[test]
fn frequencies_out_of_range_are_refused() {
    assert_eq!(hw(None, "F 999\n").reply, "RPRT -11\n");
    assert_eq!(hw(None, "F 100000000000\n").reply, "RPRT -11\n");
    assert_eq!(hw(None, "F 1000\n").cat, vec!["FA00000001000;"]);
    assert_eq!(hw(None, "F 99999999999\n").cat, vec!["FA99999999999;"]);
    assert_eq!(hw(None, "F x\n").reply, "RPRT -1\n");
}

#[test]
fn lines_that_are_not_text_are_passed_over() {
    let c = converse(Backend::Hardware, None, true, b"\xff\xfe\n   \nf\nq\n");
    assert_eq!(c.reply, "0\n");
}

#[test]
fn a_last_line_needs_no_line_feed() {
    let c = converse(Backend::Hardware, None, true, b"f");
    assert_eq!(c.reply, "0\n");
    assert!(c.closed);
}

#[test]
fn a_line_may_come_in_pieces() {
    let mut line: Vec<u8> = Vec::new();
    assert_eq!(read_line_bounded(&mut line, b"F 14", 100), LineStep::More(4));
    assert_eq!(read_line_bounded(&mut line, b"074000\nf", 100), LineStep::Line(7));
    assert_eq!(line, b"F 14074000");
    assert_eq!(read_line_bounded(&mut line, b"0123456789", 15), LineStep::TooLong);
}

#[test]
fn software_modes_are_set_as_am() {
    assert_eq!(mode_to_cat(Mode::SAML), Some("MD5;".to_string()));
    assert_eq!(mode_to_cat(Mode::Unknown), None);
    assert_eq!(mode_to_str(Mode::DRM), "AM");
}

#[test]
fn a_line_may_come_in_any_pieces() {
    let input = b"F 14074000\nrest";
    for size in 1..=input.len() {
        let mut line: Vec<u8> = Vec::new();
        for piece in input.chunks(size) {
            match read_line_bounded(&mut line, piece, 10) {
                LineStep::More(n) => assert_eq!(n, piece.len()),
                step => {
                    assert!(matches!(step, LineStep::Line(_)));
                    break;
                }
            }
        }
        assert_eq!(line, b"F 14074000");
        let mut line: Vec<u8> = Vec::new();
        let last = input
            .chunks(size)
            .map(|piece| read_line_bounded(&mut line, piece, 9))
            .find(|step| !matches!(step, LineStep::More(_)));
        assert_eq!(last, Some(LineStep::TooLong));
    }
}

#[test]
fn the_end_of_input_completes_a_line() {
    for size in 1..=3 {
        let mut line: Vec<u8> = Vec::new();
        for piece in b"f 1".chunks(size) {
            assert_eq!(read_line_bounded(&mut line, piece, 3), LineStep::More(piece.len()));
        }
        assert_eq!(read_line_bounded(&mut line, b"", 3), LineStep::Line(0));
        assert_eq!(line, b"f 1");
    }
    let mut line: Vec<u8> = Vec::new();
    assert_eq!(read_line_bounded(&mut line, b"f 1", 2), LineStep::TooLong);
    assert_eq!(read_line_bounded(&mut line, b"", 2), LineStep::Eof);
}
