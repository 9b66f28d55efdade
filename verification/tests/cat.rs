//! The radio's serial port: finding it, talking over it, and polling it.
use efd_station::cat::client::{connect_timed_out, Exchange, ReadEvent};
use efd_station::cat::discover::{
    contains, discover_by_hub_sibling, discover_by_id, discover_serial_device, find_elad_hub_prefix,
    find_tty_under, hub_prefix, is_radio_name, Entry, Link, Listing, UsbDevice,
};
use efd_station::cat::error::CatError;
use efd_station::cat::poll::{radio_state, Ask, CatConfig, Poll, SignalLevel, Stage};
use efd_station::cat::rigctld::{self, DeviceChoice, RigctldConfig};
use efd_station::cat::serial::{
    answer_text, can_coalesce, coalesce, expected_prefix, judge, missing_device, read_step, receive,
    sendable, write_step, write_timed_out, PortRead, ReadStep, Verdict, WriteEvent, WriteStep,
};
use efd_station::proto::codec::F32;
use efd_station::proto::messages::CatCommand;
use efd_station::proto::radio::{AgcMode, Mode, Vfo};

fn cmd(raw: &str) -> CatCommand {
    CatCommand { raw: raw.to_string() }
}

fn file(name: &str) -> Entry {
    Entry { name: name.to_string(), is_dir: false, children: vec![] }
}

fn dir(name: &str, children: Vec<Entry>) -> Entry {
    Entry { name: name.to_string(), is_dir: true, children }
}

fn usb(name: &str, ids: Option<(&str, &str)>, below: Vec<Entry>) -> UsbDevice {
    UsbDevice {
        name: name.to_string(),
        vendor: ids.map(|i| i.0.to_string()),
        product: ids.map(|i| i.1.to_string()),
        below,
    }
}

fn radio_on_hub() -> Vec<UsbDevice> {
    vec![
        usb("1-2", None, vec![]),
        usb("1-2.1:1.0", None, vec![dir("ttyUSB9", vec![])]),
        usb("1-2.1", None, vec![dir("1-2.1:1.0", vec![dir("ttyUSB0", vec![])])]),
        usb("1-2.3", Some(("1721", "061a")), vec![]),
    ]
}

#[test]
fn discover_returns_none_when_no_dir() {
    let result = rigctld::discover_serial_device(&vec![]);
    assert!(result.is_ok());
    assert!(result.unwrap().is_none());
}

#[test]
fn the_radios_own_link_comes_first() {
    let listing = Listing {
        udev: Some(Link { name: "/dev/fdm-duo".into(), target: Ok("/dev/ttyUSB3".into()) }),
        by_id: Ok(vec![]),
        usb: Ok(radio_on_hub()),
        devices: vec!["ttyUSB0".into()],
    };
    assert_eq!(discover_serial_device(&listing).unwrap(), Some("/dev/ttyUSB3".to_string()));
}

#[test]
fn a_port_is_known_by_its_name() {
    let links = vec![
        Link { name: "usb-FTDI_0-if00".into(), target: Ok("/dev/ttyUSB1".into()) },
        Link { name: "usb-ELAD_FDM-DUO-if00".into(), target: Ok("/dev/ttyUSB2".into()) },
    ];
    assert_eq!(discover_by_id(&links).unwrap(), Some("/dev/ttyUSB2".to_string()));
    assert!(is_radio_name("xFDM_DUOx"));
    assert!(!is_radio_name("elad"));
}

#[test]
fn a_link_that_leads_nowhere_is_an_error() {
    let links = vec![Link { name: "usb-ELAD".into(), target: Err("no such file".into()) }];
    match discover_by_id(&links) {
        Err(CatError::Io(why)) => assert_eq!(why, "no such file"),
        other => panic!("expected an error, got {other:?}"),
    }
}

#[test]
fn a_list_that_cannot_be_read_counts_when_it_is_needed() {
    let why = |l: &Listing| discover_serial_device(l).unwrap_err().message();
    let mut l = Listing {
        udev: Some(Link { name: "fdm-duo-cat".into(), target: Ok("/dev/ttyUSB3".into()) }),
        by_id: Err("by-id".into()),
        usb: Err("usb".into()),
        devices: vec!["ttyUSB0".into()],
    };
    assert_eq!(discover_serial_device(&l).unwrap(), Some("/dev/ttyUSB3".to_string()));
    l.udev = None;
    assert_eq!(why(&l), "I/O error: by-id");
    l.by_id = Ok(vec![]);
    assert_eq!(why(&l), "I/O error: usb");
    l.usb = Ok(radio_on_hub());
    assert_eq!(discover_serial_device(&l).unwrap(), Some("/dev/ttyUSB0".to_string()));
}

#[test]
fn an_unreadable_entry_ends_the_search_for_rigctld() {
    let radio = || Ok(Link { name: "usb-ELAD".into(), target: Ok("/dev/ttyUSB2".into()) });
    let other = || Ok(Link { name: "usb-FTDI".into(), target: Err("gone".into()) });
    let found = rigctld::discover_serial_device(&vec![other(), radio(), Err("bad".into())]);
    assert_eq!(found.unwrap(), Some("/dev/ttyUSB2".to_string()));
    let found = rigctld::discover_serial_device(&vec![other(), Err("bad".into()), radio()]);
    assert_eq!(found.unwrap_err().message(), "I/O error: bad");
    assert_eq!(rigctld::discover_serial_device(&vec![other()]).unwrap(), None);
}

#[test]
fn the_port_is_a_neighbour_on_the_hub() {
    let devices = vec!["ttyUSB0".to_string()];
    assert_eq!(
        discover_by_hub_sibling(&radio_on_hub(), &devices),
        Some("/dev/ttyUSB0".to_string())
    );
    assert_eq!(discover_by_hub_sibling(&radio_on_hub(), &vec![]), None);
    assert_eq!(find_elad_hub_prefix(&radio_on_hub()), Some("1-2.".to_string()));
    assert_eq!(hub_prefix("1-2.3.4"), Some("1-2.3.".to_string()));
    assert_eq!(hub_prefix("usb1"), None);
}

#[test]
fn ports_are_looked_for_four_levels_down() {
    let deep = vec![dir("a", vec![dir("b", vec![dir("c", vec![file("ttyACM0")])])])];
    assert_eq!(find_tty_under(&deep), Some("ttyACM0".to_string()));
    let deeper = vec![dir("x", deep)];
    assert_eq!(find_tty_under(&deeper), None);
}

#[test]
fn nothing_listed_nothing_found() {
    let listing = Listing { udev: None, by_id: Ok(vec![]), usb: Ok(vec![]), devices: vec![] };
    assert_eq!(discover_serial_device(&listing).unwrap(), None);
}

#[test]
fn occurrences_are_found_anywhere() {
    assert!(contains("abc", "c"));
    assert!(contains("abc", ""));
    assert!(contains("", ""));
    assert!(!contains("ab", "abc"));
}

#[test]
fn a_newer_command_replaces_the_older() {
    let mut batch = Vec::new();
    for raw in ["FA00007100000;", "MD2;", "FA00007200000;"] {
        assert!(can_coalesce(raw));
        coalesce(&mut batch, cmd(raw));
    }
    let mut raws: Vec<&str> = batch.iter().map(|c| c.raw.as_str()).collect();
    raws.sort();
    assert_eq!(raws, vec!["FA00007200000;", "MD2;"]);
}

#[test]
fn commands_end_with_a_semicolon() {
    assert!(sendable("IF;"));
    assert!(!sendable("IF"));
    assert!(!sendable(""));
    assert!(!sendable(&format!("{};", "9".repeat(5000))));
}

#[test]
fn an_answer_ends_at_the_semicolon() {
    let mut answer = Vec::new();
    assert!(!receive(&mut answer, b"IF0"));
    assert!(receive(&mut answer, b"1;SM"));
    assert_eq!(answer, b"IF01;");
}

#[test]
fn stale_answers_are_passed_over() {
    assert_eq!(expected_prefix("RF2;"), vec!['R', 'F']);
    assert_eq!(judge("RF2;", "SM00011;", 3), Verdict::Discard);
    assert_eq!(judge("RF2;", "SM00011;", 1), Verdict::Accept);
    assert_eq!(judge("RF2;", "RF20808;", 3), Verdict::Accept);
    assert_eq!(judge("RF2;", "", 3), Verdict::Accept);
}

fn sent(p: &Poll) -> String {
    match p.ask() {
        Ask::Send(s) => s,
        other => panic!("expected a command, got {other:?}"),
    }
}

#[test]
fn a_poll_asks_for_everything() {
    let mut p = Poll::new();
    assert_eq!(sent(&p), "IF;");
    p = p.replied(Ok("IF000071000000000000000000000200;".into()), false).unwrap();
    assert_eq!(sent(&p), "RF2;");
    p = p.replied(Ok("RF20808;".into()), false).unwrap();
    assert_eq!(p.stage, Stage::Rssi);
    p = p.replied(Ok("RI-00085;".into()), false).unwrap();
    match p.ask() {
        Ask::ReadNumber { text, negative } => {
            assert_eq!(text.parse::<f32>().unwrap(), 85.0);
            assert!(negative);
        }
        other => panic!("expected a number, got {other:?}"),
    }
    let level = F32 { bits: (-85.0f32).to_bits() };
    p = p.number_read(Some(level), false).unwrap();
    p = p.replied(Ok("TH05;".into()), false).unwrap();
    for _ in 0..4 {
        p = p.flag_read(None, false).unwrap();
    }
    p = p.speed_read(None);
    assert!(matches!(p.ask(), Ask::Nothing));
    assert!(matches!(p.found.level, SignalLevel::Dbm(v) if v == level));
    let state = radio_state(p.found, level, None);
    assert_eq!(state.freq_hz, 7_100_000);
    assert_eq!(state.mode, Mode::USB);
    assert_eq!(state.vfo, Vfo::A);
    assert_eq!(state.filter_bw, "2.4k");
    assert_eq!(state.filter_idx, Some(8));
    assert_eq!(state.agc_threshold, 5);
    assert_eq!(state.agc, AgcMode::Slow);
}

#[test]
fn a_meter_stands_in_for_the_signal_strength() {
    let mut p = Poll::new();
    p = p.replied(Ok("IF000071000000000000000000000200;".into()), false).unwrap();
    p = p.replied(Err(CatError::Disconnected), false).unwrap();
    p = p.replied(Ok("RI!00000;".into()), false).unwrap();
    assert_eq!(p.stage, Stage::Meter);
    p = p.replied(Ok("SM00011;".into()), false).unwrap();
    match p.found.level {
        SignalLevel::Meter(m) => assert_eq!(m.elevenths_dbm, -73 * 11),
        ref other => panic!("expected the meter, got {other:?}"),
    }
}

#[test]
fn a_poll_without_status_fails() {
    assert!(Poll::new().replied(Err(CatError::Disconnected), false).is_err());
    assert!(Poll::new().replied(Ok("?;".into()), false).is_err());
}

#[test]
fn a_poll_stops_between_commands() {
    let replies = [
        "IF000071000000000000000000000200;",
        "RF20808;",
        "RI!00000;",
        "SM00011;",
        "TH05;",
    ];
    for stop in 0..replies.len() {
        let mut p = Poll::new();
        for reply in &replies[..stop] {
            p = p.replied(Ok(reply.to_string()), false).unwrap();
        }
        match p.replied(Ok(replies[stop].into()), true) {
            Err(CatError::Cancelled) => {}
            other => panic!("expected to be stopped, got {:?}", other.map(|p| p.stage)),
        }
    }
    let mut p = Poll::new();
    for reply in replies {
        p = p.replied(Ok(reply.to_string()), false).unwrap();
    }
    assert_eq!(p.stage, Stage::Attenuator);
    let p = p.flag_read(Some(true), false).unwrap();
    assert!(p.found.att);
    assert!(matches!(p.flag_read(None, true), Err(CatError::Cancelled)));
}

#[test]
fn rigctld_is_started_with_its_arguments() {
    let config = RigctldConfig::default();
    assert_eq!(config.device_choice(), DeviceChoice::Search);
    let args = config.args("/dev/ttyUSB0");
    assert!(args.contains(&"3077".to_string()));
    assert!(args.contains(&"/dev/ttyUSB0".to_string()));
    assert!(args.contains(&"38400".to_string()));
    assert!(args.contains(&"127.0.0.1".to_string()));
    assert!(args.contains(&"4532".to_string()));
    let off = RigctldConfig { serial_device: "none".into(), ..RigctldConfig::default() };
    assert_eq!(off.device_choice(), DeviceChoice::Unmanaged);
    let given = RigctldConfig { serial_device: "/dev/x".into(), ..RigctldConfig::default() };
    assert_eq!(given.device_choice(), DeviceChoice::Configured);
    assert_eq!(CatConfig::default().serial_device, "auto");
}

#[test]
fn cat_errors_have_words() {
    assert_eq!(CatError::Io("x".into()).message(), "I/O error: x");
    assert_eq!(CatError::Disconnected.message(), "CAT connection lost");
    assert_eq!(CatError::BadResponse("?;".into()).message(), "invalid CAT response: ?;");
    assert_eq!(CatError::Cancelled.message(), "CAT task cancelled");
}

#[test]
fn an_answer_is_gathered_up_to_its_semicolon() {
    let mut e = Exchange::new();
    assert_eq!(e.append("FA000"), None);
    assert_eq!(e.append("14200000;IF"), Some("FA00014200000;".to_string()));
    let mut e = Exchange::new();
    assert_eq!(e.step(ReadEvent::Bytes(vec![b'M', 0xff])).unwrap(), None);
    assert_eq!(
        e.step(ReadEvent::Bytes(b"2;".to_vec())).unwrap(),
        Some("M\u{fffd}2;".to_string())
    );
}

#[test]
fn an_answer_that_does_not_come_is_a_failure() {
    let mut e = Exchange::new();
    assert_eq!(e.append("FA1"), None);
    assert_eq!(
        e.step(ReadEvent::TimedOut).unwrap_err().message(),
        "invalid CAT response: timeout waiting for ';' (got: FA1)"
    );
    assert_eq!(e.step(ReadEvent::Closed).unwrap_err().message(), "CAT connection lost");
    assert_eq!(
        e.step(ReadEvent::Failed("broken pipe".to_string())).unwrap_err().message(),
        "I/O error: broken pipe"
    );
    assert_eq!(
        connect_timed_out("127.0.0.1:4532").message(),
        "I/O error: connect to 127.0.0.1:4532 timed out"
    );
}

#[test]
fn serial_failures_name_the_port() {
    assert_eq!(
        write_timed_out("/dev/ttyUSB0", 3, 14).message(),
        "I/O error: CAT write timed out after 500ms on /dev/ttyUSB0 (3 of 14 bytes written)"
    );
    assert_eq!(
        missing_device("/dev/ttyUSB0").message(),
        "I/O error: serial device not found: /dev/ttyUSB0"
    );
    assert_eq!(answer_text(b"FA\xf0\x9f;"), "FA\u{fffd};");
}

#[test]
fn the_port_is_the_configured_or_the_found_one() {
    let found = || Ok(Some("/dev/ttyUSB3".to_string()));
    let auto = CatConfig::default();
    assert_eq!(auto.device(found()), Some("/dev/ttyUSB3".to_string()));
    assert_eq!(auto.device(Ok(None)), None);
    assert_eq!(auto.device(Err(CatError::Disconnected)), None);
    let given = CatConfig { serial_device: "/dev/x".into(), ..CatConfig::default() };
    assert_eq!(given.device(found()), Some("/dev/x".to_string()));
}

#[test]
fn rigctld_is_started_on_a_port_that_exists() {
    let found = || Ok(Some("/dev/ttyUSB3".to_string()));
    let with = |d: &str| RigctldConfig { serial_device: d.into(), ..RigctldConfig::default() };
    assert_eq!(with("none").start_device(found(), true).unwrap(), None);
    assert_eq!(with("auto").start_device(found(), false).unwrap(), Some("/dev/ttyUSB3".into()));
    assert_eq!(
        with("auto").start_device(Ok(None), true).unwrap_err().message(),
        "I/O error: no Elad FDM-DUO serial device found in /dev/serial/by-id/"
    );
    assert!(matches!(
        with("auto").start_device(Err(CatError::Disconnected), true),
        Err(CatError::Disconnected)
    ));
    assert_eq!(with("/dev/x").start_device(Ok(None), true).unwrap(), Some("/dev/x".into()));
    assert_eq!(
        with("/dev/x").start_device(found(), false).unwrap_err().message(),
        "I/O error: serial device not found: /dev/x"
    );
}

#[test]
fn an_answer_that_cannot_be_cut_is_told_apart() {
    let poll = Poll::new();
    assert!(poll.accepts("IF000142000000000000000000000000002000000 ;"));
    assert!(poll.accepts(""));
    assert!(poll.accepts("?;"));
    let accents = "\u{e9}".repeat(19);
    assert!(!poll.accepts(&format!("IF{accents};")));
}

#[test]
fn a_batch_is_the_last_of_each_kind() {
    let mut batch = Vec::new();
    for raw in ["MD2;", "FA00007100000;", "TH05;", "MD1;", "FA00007200000;", "MD3;"] {
        coalesce(&mut batch, cmd(raw));
    }
    let raws: Vec<&str> = batch.iter().map(|c| c.raw.as_str()).collect();
    assert_eq!(raws, vec!["MD3;", "FA00007200000;", "TH05;"]);
    // A command without a kind of its own does not push out another.
    coalesce(&mut batch, cmd(""));
    coalesce(&mut batch, cmd("F"));
    assert_eq!(batch.len(), 5);
    assert_eq!(batch[1].raw, "FA00007200000;");
}

#[test]
fn writing_goes_on_until_all_is_taken() {
    let step = |written, event| write_step("/dev/ttyUSB0", written, 14, event);
    assert!(matches!(step(0, WriteEvent::NotReady), WriteStep::GoOn(0)));
    assert!(matches!(step(3, WriteEvent::Wrote(5)), WriteStep::GoOn(8)));
    assert!(matches!(step(8, WriteEvent::Wrote(0)), WriteStep::GoOn(8)));
    assert!(matches!(step(8, WriteEvent::Wrote(6)), WriteStep::Done));
    match step(3, WriteEvent::TimeUp) {
        WriteStep::Fail(e) => assert_eq!(
            e.message(),
            "I/O error: CAT write timed out after 500ms on /dev/ttyUSB0 (3 of 14 bytes written)"
        ),
        other => panic!("expected a failure, got {other:?}"),
    }
    match step(3, WriteEvent::Failed("EIO".into())) {
        WriteStep::Fail(e) => assert_eq!(e.message(), "I/O error: EIO"),
        other => panic!("expected a failure, got {other:?}"),
    }
}

#[test]
fn reading_goes_on_until_the_semicolon_or_the_deadline() {
    let mut answer = Vec::new();
    assert!(matches!(read_step(&mut answer, PortRead::NotReady), ReadStep::GoOn));
    assert!(matches!(read_step(&mut answer, PortRead::Bytes(b"SM0".to_vec())), ReadStep::GoOn));
    match read_step(&mut answer.clone(), PortRead::TimeUp) {
        ReadStep::Answer(text) => assert_eq!(text, "SM0"),
        other => panic!("expected what came, got {other:?}"),
    }
    match read_step(&mut answer, PortRead::Bytes(b"0011;IF".to_vec())) {
        ReadStep::Answer(text) => assert_eq!(text, "SM00011;"),
        other => panic!("expected the answer, got {other:?}"),
    }
    match read_step(&mut answer, PortRead::Failed("EIO".into())) {
        ReadStep::Fail(e) => assert_eq!(e.message(), "I/O error: EIO"),
        other => panic!("expected a failure, got {other:?}"),
    }
}
