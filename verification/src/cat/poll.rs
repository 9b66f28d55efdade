//! Asking the radio for its state, one question at a time.
//!
//! A poll asks for the status first and gives up without it. Everything else
//! is optional: what the radio does not answer keeps its default. Stopping is
//! possible between any two commands.
use crate::cat::error::{CatError, CatErrorView};
use crate::cat::parse::{
    frame, if_cuttable, if_status, mode_char, parse_if_response, parse_rf_index, parse_rf_response,
    parse_ri_response, parse_sm_response, parse_th_response, rf_cuttable, rf_index, rf_label,
    ri_cuttable, ri_field, sm_cuttable, sm_level, th_cuttable, th_threshold, IfResponse,
    MeterLevel, RssiField,
};
use crate::proto::codec::{F32, F64};
use crate::proto::filters::mode_digit;
use crate::proto::messages::RadioState;
use crate::proto::radio::{AgcMode, Mode, Vfo};
use crate::text::same_text;
use vstd::prelude::*;
use vstd::string::*;

verus! {

/// How the radio is connected and how often it is asked.
#[derive(Debug, Clone)]
pub struct CatConfig {
    /// A device path, or `auto` to look for the radio.
    pub serial_device: String,
    /// Milliseconds between two polls.
    pub poll_interval_ms: u64,
}

impl Default for CatConfig {
    fn default() -> (r: Self)
        ensures
            r.serial_device@ == "auto"@,
            r.poll_interval_ms == 200,
    {
        CatConfig { serial_device: "auto".to_owned(), poll_interval_ms: 200 }
    }
}

impl CatConfig {
    /// The port to open; `None` where there is none. `found` is what a search
    /// brought, for a configuration that asks for one.
    pub fn device(&self, found: Result<Option<String>, CatError>) -> (r: Option<String>)
        ensures
            match r {
                Some(d) => if self.serial_device@ == "auto"@ {
                    found matches Ok(Some(f)) && d@ == f@
                } else {
                    d@ == self.serial_device@
                },
                None => self.serial_device@ == "auto"@ && !(found matches Ok(Some(_))),
            },
    {
        if same_text(self.serial_device.as_str(), "auto") {
            match found {
                Ok(Some(d)) => Some(d),
                _ => None,
            }
        } else {
            Some(self.serial_device.clone())
        }
    }
}

/// The next question of a poll.
#[derive(Debug, Clone, Copy, PartialEq, Eq, Structural)]
pub enum Stage {
    Status,
    Filter,
    Rssi,
    /// The signal strength came as text that is to be read as a number.
    RssiNumber,
    Meter,
    Threshold,
    Attenuator,
    LowPass,
    NoiseReduction,
    NoiseBlanker,
    AgcSpeed,
    Done,
}

/// A signal level: a number that the radio gave, or a step of its meter.
#[derive(Debug, Clone, Copy, PartialEq)]
pub enum SignalLevel {
    Dbm(F32),
    Meter(MeterLevel),
}

/// What a poll has found out.
#[derive(Debug)]
pub struct Polled {
    pub vfo: Vfo,
    pub freq_hz: u64,
    pub mode: Mode,
    pub tx: bool,
    pub filter_bw: String,
    pub filter_idx: Option<u8>,
    pub level: SignalLevel,
    pub agc_threshold: u8,
    pub att: bool,
    pub lp: bool,
    pub nr: bool,
    pub nb: bool,
    pub agc: AgcMode,
}

/// What a poll has found out, as mathematics.
pub struct PolledView {
    pub vfo: Vfo,
    pub freq_hz: u64,
    pub mode: Mode,
    pub tx: bool,
    pub filter_bw: Seq<char>,
    pub filter_idx: Option<u8>,
    pub level: SignalLevel,
    pub agc_threshold: u8,
    pub att: bool,
    pub lp: bool,
    pub nr: bool,
    pub nb: bool,
    pub agc: AgcMode,
}

impl View for Polled {
    type V = PolledView;

    open spec fn view(&self) -> PolledView {
        PolledView {
            vfo: self.vfo,
            freq_hz: self.freq_hz,
            mode: self.mode,
            tx: self.tx,
            filter_bw: self.filter_bw@,
            filter_idx: self.filter_idx,
            level: self.level,
            agc_threshold: self.agc_threshold,
            att: self.att,
            lp: self.lp,
            nr: self.nr,
            nb: self.nb,
            agc: self.agc,
        }
    }
}

/// The level that is reported when the radio gives none: -127 dBm.
pub open spec fn floor_level() -> SignalLevel {
    SignalLevel::Meter(MeterLevel { elevenths_dbm: (-127 * 11) as i32 })
}

/// The defaults around a status.
pub open spec fn polled_defaults(s: IfResponse) -> PolledView {
    PolledView {
        vfo: s.vfo,
        freq_hz: s.freq_hz,
        mode: s.mode,
        tx: s.tx,
        filter_bw: Seq::empty(),
        filter_idx: None,
        level: floor_level(),
        agc_threshold: 0,
        att: false,
        lp: false,
        nr: false,
        nb: false,
        agc: AgcMode::Slow,
    }
}

/// A poll under way.
#[derive(Debug)]
pub struct Poll {
    pub stage: Stage,
    pub found: Polled,
    /// The signal strength's number text, while it is to be read.
    pub number: String,
    pub negative: bool,
}

/// A poll under way, as mathematics.
pub struct PollView {
    pub stage: Stage,
    pub found: PolledView,
    pub number: Seq<char>,
    pub negative: bool,
}

impl View for Poll {
    type V = PollView;

    open spec fn view(&self) -> PollView {
        PollView {
            stage: self.stage,
            found: self.found@,
            number: self.number@,
            negative: self.negative,
        }
    }
}

/// What a poll needs next.
#[derive(Debug)]
pub enum Ask {
    /// Send this and hand back what the radio answers.
    Send(String),
    /// Read this text as a number of dBm, below zero if `negative`.
    ReadNumber { text: String, negative: bool },
    /// Nothing: the poll is complete.
    Nothing,
}

/// What a poll needs next, as mathematics.
pub enum AskView {
    Send(Seq<char>),
    ReadNumber { text: Seq<char>, negative: bool },
    Nothing,
}

impl View for Ask {
    type V = AskView;

    open spec fn view(&self) -> AskView {
        match self {
            Ask::Send(s) => AskView::Send(s@),
            Ask::ReadNumber { text, negative } => AskView::ReadNumber {
                text: text@,
                negative: *negative,
            },
            Ask::Nothing => AskView::Nothing,
        }
    }
}

/// The question for a stage.
pub open spec fn question(p: PollView) -> AskView {
    match p.stage {
        Stage::Status => AskView::Send("IF;"@),
        Stage::Filter => match mode_digit(p.found.mode) {
            Some(digit) => AskView::Send("RF"@.push(digit) + ";"@),
            None => AskView::Nothing,
        },
        Stage::Rssi => AskView::Send("RI;"@),
        Stage::RssiNumber => AskView::ReadNumber { text: p.number, negative: p.negative },
        Stage::Meter => AskView::Send("SM0;"@),
        Stage::Threshold => AskView::Send("TH;"@),
        Stage::Attenuator => AskView::Send("RA;"@),
        Stage::LowPass => AskView::Send("LP;"@),
        Stage::NoiseReduction => AskView::Send("NR;"@),
        Stage::NoiseBlanker => AskView::Send("NB;"@),
        Stage::AgcSpeed => AskView::Send("GT;"@),
        Stage::Done => AskView::Nothing,
    }
}

/// A stage whose answer is text that the poll reads itself.
pub open spec fn text_stage(stage: Stage) -> bool {
    stage == Stage::Status || stage == Stage::Filter || stage == Stage::Rssi || stage
        == Stage::Meter || stage == Stage::Threshold
}

/// A stage whose answer is a switch position.
pub open spec fn flag_stage(stage: Stage) -> bool {
    stage == Stage::Attenuator || stage == Stage::LowPass || stage == Stage::NoiseReduction
        || stage == Stage::NoiseBlanker
}

/// The cuts that reading an answer makes at a stage fall between characters.
pub open spec fn answer_cuttable(stage: Stage, reply: Seq<char>) -> bool {
    match stage {
        Stage::Status => if_cuttable(reply),
        Stage::Filter => rf_cuttable(reply),
        Stage::Rssi => ri_cuttable(reply),
        Stage::Meter => sm_cuttable(reply),
        Stage::Threshold => th_cuttable(reply),
        _ => true,
    }
}

/// The poll after its text question was answered, or failed with `None`.
/// Only the status question needs an answer that makes sense. A request to
/// stop takes effect before the next command is sent.
pub open spec fn after_text(
    p: PollView,
    reply: Result<Seq<char>, CatErrorView>,
    cancelled: bool,
) -> Result<PollView, CatErrorView> {
    match p.stage {
        Stage::Status => match reply {
            Err(e) => Err(e),
            Ok(text) => match if_status(frame(text)) {
                None => Err(CatErrorView::BadResponse("cannot parse IF response: "@ + text)),
                Some(s) => if cancelled {
                    Err(CatErrorView::Cancelled)
                } else {
                    Ok(
                        PollView {
                            stage: if mode_digit(s.mode) is Some {
                                Stage::Filter
                            } else {
                                Stage::Rssi
                            },
                            found: polled_defaults(s),
                            number: Seq::empty(),
                            negative: false,
                        },
                    )
                },
            },
        },
        Stage::Filter => if cancelled {
            Err(CatErrorView::Cancelled)
        } else {
            let index = match reply {
                Ok(text) => rf_index(frame(text)),
                Err(_) => None,
            };
            Ok(
                PollView {
                    stage: Stage::Rssi,
                    found: PolledView {
                        filter_bw: match index {
                            Some(i) => rf_label(p.found.mode, i),
                            None => Seq::empty(),
                        },
                        filter_idx: match index {
                            Some(i) => Some(i as u8),
                            None => None,
                        },
                        ..p.found
                    },
                    ..p
                },
            )
        },
        Stage::Rssi => if cancelled {
            Err(CatErrorView::Cancelled)
        } else {
            let field = match reply {
                Ok(text) => ri_field(frame(text)),
                Err(_) => None,
            };
            match field {
                Some((negative, number)) => Ok(
                    PollView { stage: Stage::RssiNumber, number, negative, ..p },
                ),
                None => Ok(PollView { stage: Stage::Meter, ..p }),
            }
        },
        Stage::Meter => if cancelled {
            Err(CatErrorView::Cancelled)
        } else {
            let level = match reply {
                Ok(text) => sm_level(frame(text)),
                Err(_) => None,
            };
            Ok(
                PollView {
                    stage: Stage::Threshold,
                    found: PolledView {
                        level: match level {
                            Some(e) => SignalLevel::Meter(MeterLevel { elevenths_dbm: e as i32 }),
                            None => floor_level(),
                        },
                        ..p.found
                    },
                    ..p
                },
            )
        },
        Stage::Threshold => if cancelled {
            Err(CatErrorView::Cancelled)
        } else {
            let threshold = match reply {
                Ok(text) => th_threshold(frame(text)),
                Err(_) => None,
            };
            Ok(
                PollView {
                    stage: Stage::Attenuator,
                    found: PolledView {
                        agc_threshold: match threshold {
                            Some(v) => v as u8,
                            None => 0,
                        },
                        ..p.found
                    },
                    ..p
                },
            )
        },
        _ => Ok(p),
    }
}

/// The poll after the signal strength was read: as a number, or not, and then
/// the meter is asked.
pub open spec fn after_number(p: PollView, number: Option<F32>, cancelled: bool) -> Result<
    PollView,
    CatErrorView,
> {
    if cancelled {
        Err(CatErrorView::Cancelled)
    } else {
        match number {
            Some(v) => Ok(
                PollView {
                    stage: Stage::Threshold,
                    found: PolledView { level: SignalLevel::Dbm(v), ..p.found },
                    ..p
                },
            ),
            None => Ok(PollView { stage: Stage::Meter, ..p }),
        }
    }
}

/// The poll after a switch position was asked, unless it is to stop.
pub open spec fn after_flag(p: PollView, flag: Option<bool>, cancelled: bool) -> Result<
    PollView,
    CatErrorView,
> {
    if cancelled {
        Err(CatErrorView::Cancelled)
    } else {
        Ok(with_flag(p, flag))
    }
}

/// The poll with a switch position; off where it is not known.
pub open spec fn with_flag(p: PollView, flag: Option<bool>) -> PollView {
    let on = flag == Some(true);
    match p.stage {
        Stage::Attenuator => PollView {
            stage: Stage::LowPass,
            found: PolledView { att: on, ..p.found },
            ..p
        },
        Stage::LowPass => PollView {
            stage: Stage::NoiseReduction,
            found: PolledView { lp: on, ..p.found },
            ..p
        },
        Stage::NoiseReduction => PollView {
            stage: Stage::NoiseBlanker,
            found: PolledView { nr: on, ..p.found },
            ..p
        },
        Stage::NoiseBlanker => PollView {
            stage: Stage::AgcSpeed,
            found: PolledView { nb: on, ..p.found },
            ..p
        },
        _ => p,
    }
}

/// The poll after the gain control speed was asked; slow where it is not
/// known.
pub open spec fn after_speed(p: PollView, speed: Option<AgcMode>) -> PollView {
    PollView {
        stage: Stage::Done,
        found: PolledView {
            agc: match speed {
                Some(v) => v,
                None => AgcMode::Slow,
            },
            ..p.found
        },
        ..p
    }
}

/// The reply behind a result.
pub open spec fn reply_view(reply: Result<String, CatError>) -> Result<Seq<char>, CatErrorView> {
    match reply {
        Ok(s) => Ok(s@),
        Err(e) => Err(e@),
    }
}

fn defaults(s: IfResponse) -> (r: Polled)
    ensures
        r@ == polled_defaults(s),
{
    Polled {
        vfo: s.vfo,
        freq_hz: s.freq_hz,
        mode: s.mode,
        tx: s.tx,
        filter_bw: String::new(),
        filter_idx: None,
        level: SignalLevel::Meter(MeterLevel { elevenths_dbm: -1397 }),
        agc_threshold: 0,
        att: false,
        lp: false,
        nr: false,
        nb: false,
        agc: AgcMode::Slow,
    }
}

impl Poll {
    /// A poll that has asked nothing yet.
    pub fn new() -> (r: Poll)
        ensures
            r@ == (PollView {
                stage: Stage::Status,
                found: polled_defaults(
                    IfResponse { freq_hz: 0, mode: Mode::Unknown, vfo: Vfo::A, tx: false },
                ),
                number: Seq::empty(),
                negative: false,
            }),
    {
        Poll {
            stage: Stage::Status,
            found: defaults(
                IfResponse { freq_hz: 0, mode: Mode::Unknown, vfo: Vfo::A, tx: false },
            ),
            number: String::new(),
            negative: false,
        }
    }

    /// What the poll needs next.
    pub fn ask(&self) -> (r: Ask)
        ensures
            r@ == question(self@),
    {
        match self.stage {
            Stage::Status => Ask::Send("IF;".to_owned()),
            Stage::Filter => match mode_char(self.found.mode) {
                Some(digit) => {
                    let mut cmd: String = "RF".to_owned();
                    cmd.push(digit);
                    cmd.append(";");
                    Ask::Send(cmd)
                },
                None => Ask::Nothing,
            },
            Stage::Rssi => Ask::Send("RI;".to_owned()),
            Stage::RssiNumber => Ask::ReadNumber {
                text: self.number.clone(),
                negative: self.negative,
            },
            Stage::Meter => Ask::Send("SM0;".to_owned()),
            Stage::Threshold => Ask::Send("TH;".to_owned()),
            Stage::Attenuator => Ask::Send("RA;".to_owned()),
            Stage::LowPass => Ask::Send("LP;".to_owned()),
            Stage::NoiseReduction => Ask::Send("NR;".to_owned()),
            Stage::NoiseBlanker => Ask::Send("NB;".to_owned()),
            Stage::AgcSpeed => Ask::Send("GT;".to_owned()),
            Stage::Done => Ask::Nothing,
        }
    }

    /// Whether a reply can be handed to [`Poll::replied`] at this stage: its
    /// fields can be cut out between characters.
    pub fn accepts(&self, reply: &str) -> (r: bool)
        ensures
            r == answer_cuttable(self.stage, reply@),
    {
        match self.stage {
            Stage::Status => crate::cat::parse::can_cut_if(reply),
            Stage::Filter => crate::cat::parse::can_cut_rf(reply),
            Stage::Rssi => crate::cat::parse::can_cut_ri(reply),
            Stage::Meter => crate::cat::parse::can_cut_sm(reply),
            Stage::Threshold => crate::cat::parse::can_cut_th(reply),
            _ => true,
        }
    }

    /// Goes on after the radio's reply to a text question, or its failure.
    pub fn replied(self, reply: Result<String, CatError>, cancelled: bool) -> (r: Result<
        Poll,
        CatError,
    >)
        requires
            text_stage(self.stage),
            reply matches Ok(text) ==> answer_cuttable(self.stage, text@),
        ensures
            match r {
                Ok(p) => after_text(self@, reply_view(reply), cancelled) == Ok::<
                    PollView,
                    CatErrorView,
                >(p@),
                Err(e) => after_text(self@, reply_view(reply), cancelled) == Err::<
                    PollView,
                    CatErrorView,
                >(e@),
            },
    {
        let mut p: Poll = self;
        match p.stage {
            Stage::Status => {
                let text: String = match reply {
                    Ok(text) => text,
                    Err(e) => {
                        return Err(e);
                    },
                };
                match parse_if_response(text.as_str()) {
                    None => Err(
                        CatError::BadResponse(
                            "cannot parse IF response: ".to_owned().concat(text.as_str()),
                        ),
                    ),
                    Some(s) => {
                        if cancelled {
                            return Err(CatError::Cancelled);
                        }
                        let stage: Stage = match mode_char(s.mode) {
                            Some(_) => Stage::Filter,
                            None => Stage::Rssi,
                        };
                        Ok(
                            Poll {
                                stage,
                                found: defaults(s),
                                number: String::new(),
                                negative: false,
                            },
                        )
                    },
                }
            },
            Stage::Filter => {
                if cancelled {
                    return Err(CatError::Cancelled);
                }
                let mut bw: String = String::new();
                let mut idx: Option<u8> = None;
                if let Ok(text) = &reply {
                    idx = parse_rf_index(text.as_str());
                    match parse_rf_response(text.as_str(), p.found.mode) {
                        Some(label) => {
                            bw = label;
                        },
                        None => {},
                    }
                }
                p.found.filter_bw = bw;
                p.found.filter_idx = idx;
                p.stage = Stage::Rssi;
                Ok(p)
            },
            Stage::Rssi => {
                if cancelled {
                    return Err(CatError::Cancelled);
                }
                let field: Option<RssiField> = match &reply {
                    Ok(text) => parse_ri_response(text.as_str()),
                    Err(_) => None,
                };
                match field {
                    Some(f) => {
                        p.number = f.magnitude;
                        p.negative = f.negative;
                        p.stage = Stage::RssiNumber;
                    },
                    None => {
                        p.stage = Stage::Meter;
                    },
                }
                Ok(p)
            },
            Stage::Meter => {
                if cancelled {
                    return Err(CatError::Cancelled);
                }
                let level: Option<MeterLevel> = match &reply {
                    Ok(text) => parse_sm_response(text.as_str()),
                    Err(_) => None,
                };
                p.found.level = match level {
                    Some(l) => SignalLevel::Meter(l),
                    None => SignalLevel::Meter(MeterLevel { elevenths_dbm: -1397 }),
                };
                p.stage = Stage::Threshold;
                Ok(p)
            },
            _ => {
                if cancelled {
                    return Err(CatError::Cancelled);
                }
                let threshold: Option<u8> = match &reply {
                    Ok(text) => parse_th_response(text.as_str()),
                    Err(_) => None,
                };
                p.found.agc_threshold = match threshold {
                    Some(v) => v,
                    None => 0,
                };
                p.stage = Stage::Attenuator;
                Ok(p)
            },
        }
    }

    /// Goes on after the signal strength text was read as a number, or could
    /// not be.
    pub fn number_read(self, number: Option<F32>, cancelled: bool) -> (r: Result<Poll, CatError>)
        requires
            self.stage == Stage::RssiNumber,
        ensures
            match r {
                Ok(p) => after_number(self@, number, cancelled) == Ok::<PollView, CatErrorView>(
                    p@,
                ),
                Err(e) => after_number(self@, number, cancelled) == Err::<PollView, CatErrorView>(
                    e@,
                ),
            },
    {
        if cancelled {
            return Err(CatError::Cancelled);
        }
        let mut p: Poll = self;
        match number {
            Some(v) => {
                p.found.level = SignalLevel::Dbm(v);
                p.stage = Stage::Threshold;
            },
            None => {
                p.stage = Stage::Meter;
            },
        }
        Ok(p)
    }

    /// Goes on after a switch position was asked.
    pub fn flag_read(self, flag: Option<bool>, cancelled: bool) -> (r: Result<Poll, CatError>)
        requires
            flag_stage(self.stage),
        ensures
            match r {
                Ok(p) => after_flag(self@, flag, cancelled) == Ok::<PollView, CatErrorView>(p@),
                Err(e) => after_flag(self@, flag, cancelled) == Err::<PollView, CatErrorView>(e@),
            },
    {
        if cancelled {
            return Err(CatError::Cancelled);
        }
        let on: bool = match flag {
            Some(b) => b,
            None => false,
        };
        let mut p: Poll = self;
        match p.stage {
            Stage::Attenuator => {
                p.found.att = on;
                p.stage = Stage::LowPass;
            },
            Stage::LowPass => {
                p.found.lp = on;
                p.stage = Stage::NoiseReduction;
            },
            Stage::NoiseReduction => {
                p.found.nr = on;
                p.stage = Stage::NoiseBlanker;
            },
            _ => {
                p.found.nb = on;
                p.stage = Stage::AgcSpeed;
            },
        }
        Ok(p)
    }

    /// Goes on after the gain control speed was asked. It is the last command,
    /// and there is nothing left to stop.
    pub fn speed_read(self, speed: Option<AgcMode>) -> (r: Poll)
        requires
            self.stage == Stage::AgcSpeed,
        ensures
            r@ == after_speed(self@, speed),
    {
        let mut p: Poll = self;
        p.found.agc = match speed {
            Some(v) => v,
            None => AgcMode::Slow,
        };
        p.stage = Stage::Done;
        p
    }
}

/// The state that a finished poll reports. Level and bandwidth are handed in
/// as numbers; offsets are not asked for, and are 0.
pub fn radio_state(found: Polled, s_meter_db: F32, filter_bw_hz: Option<F64>) -> (r: RadioState)
    ensures
        r.vfo == found.vfo,
        r.freq_hz == found.freq_hz,
        r.mode == found.mode,
        r.filter_bw@ == found.filter_bw@,
        r.filter_bw_hz == filter_bw_hz,
        r.filter_idx == found.filter_idx,
        r.att == found.att,
        r.lp == found.lp,
        r.agc == found.agc,
        r.agc_threshold == found.agc_threshold,
        r.nr == found.nr,
        r.nb == found.nb,
        r.s_meter_db == s_meter_db,
        r.tx == found.tx,
        r.rit_hz == 0 && !r.rit_on && r.xit_hz == 0 && !r.xit_on && r.if_offset_hz == 0,
        r.snr_db is None,
{
    RadioState {
        vfo: found.vfo,
        freq_hz: found.freq_hz,
        mode: found.mode,
        filter_bw: found.filter_bw,
        filter_bw_hz,
        filter_idx: found.filter_idx,
        att: found.att,
        lp: found.lp,
        agc: found.agc,
        agc_threshold: found.agc_threshold,
        nr: found.nr,
        nb: found.nb,
        s_meter_db,
        tx: found.tx,
        rit_hz: 0,
        rit_on: false,
        xit_hz: 0,
        xit_on: false,
        if_offset_hz: 0,
        snr_db: None,
    }
}

// ---------------------------------------------------------------------------
// Laws
// ---------------------------------------------------------------------------

/// How many questions can still follow.
pub open spec fn questions_left(stage: Stage) -> nat {
    match stage {
        Stage::Status => 11,
        Stage::Filter => 10,
        Stage::Rssi => 9,
        Stage::RssiNumber => 8,
        Stage::Meter => 7,
        Stage::Threshold => 6,
        Stage::Attenuator => 5,
        Stage::LowPass => 4,
        Stage::NoiseReduction => 3,
        Stage::NoiseBlanker => 2,
        Stage::AgcSpeed => 1,
        Stage::Done => 0,
    }
}

/// Every answer brings a poll closer to its end.
pub proof fn law_poll_moves_on(
    p: PollView,
    reply: Result<Seq<char>, CatErrorView>,
    cancelled: bool,
    number: Option<F32>,
    flag: Option<bool>,
    speed: Option<AgcMode>,
)
    ensures
        text_stage(p.stage) ==> (after_text(p, reply, cancelled) matches Ok(q) ==> questions_left(
            q.stage,
        ) < questions_left(p.stage)),
        p.stage == Stage::RssiNumber ==> (after_number(p, number, cancelled) matches Ok(q)
            ==> questions_left(q.stage) < questions_left(p.stage)),
        flag_stage(p.stage) ==> (after_flag(p, flag, cancelled) matches Ok(q) ==> questions_left(
            q.stage,
        ) < questions_left(p.stage)),
        p.stage == Stage::AgcSpeed ==> after_speed(p, speed).stage == Stage::Done,
{
}

/// A stop request takes effect between any two commands: whatever comes back
/// from a command, no other is sent.
pub proof fn law_stop_between_commands(
    p: PollView,
    reply: Result<Seq<char>, CatErrorView>,
    number: Option<F32>,
    flag: Option<bool>,
)
    ensures
        text_stage(p.stage) ==> after_text(p, reply, true) is Err,
        text_stage(p.stage) && p.stage != Stage::Status ==> after_text(p, reply, true) == Err::<
            PollView,
            CatErrorView,
        >(CatErrorView::Cancelled),
        p.stage == Stage::Status && reply is Ok && if_status(frame(reply->Ok_0)) is Some
            ==> after_text(p, reply, true) == Err::<PollView, CatErrorView>(
            CatErrorView::Cancelled,
        ),
        after_number(p, number, true) == Err::<PollView, CatErrorView>(CatErrorView::Cancelled),
        after_flag(p, flag, true) == Err::<PollView, CatErrorView>(CatErrorView::Cancelled),
{
}

/// A radio that answers nothing but the status leaves every other value at
/// its default, and the poll still succeeds.
pub proof fn law_silence_gives_defaults(p: PollView, text: Seq<char>, e: CatErrorView)
    requires
        p.stage == Stage::Status,
        if_status(frame(text)) is Some,
    ensures
        ({
            let status = if_status(frame(text))->0;
            let first = after_text(p, Ok(text), false)->Ok_0;
            let second = if first.stage == Stage::Filter {
                after_text(first, Err(e), false)->Ok_0
            } else {
                first
            };
            let metered = after_text(after_text(second, Err(e), false)->Ok_0, Err(e), false)->Ok_0;
            let asked = after_text(metered, Err(e), false)->Ok_0;
            let att = after_flag(asked, None, false)->Ok_0;
            let lp = after_flag(att, None, false)->Ok_0;
            let nr = after_flag(lp, None, false)->Ok_0;
            let switched = after_flag(nr, None, false)->Ok_0;
            let last = after_speed(switched, None);
            last.stage == Stage::Done && last.found == polled_defaults(status)
        }),
{
}

/// A switch position goes where it was asked for: the answer to `RA;` is the
/// attenuator, to `LP;` the low-pass filter, to `NR;` the noise reduction and
/// to `NB;` the noise blanker. It changes nothing else that was found, and off
/// is what counts where the answer is not known.
pub proof fn law_flags_go_where_they_were_asked(
    p: Poll,
    ask: Ask,
    flag: Option<bool>,
    r: Result<Poll, CatError>,
)
    requires
        flag_stage(p.stage),
        call_ensures(Poll::ask, (&p,), ask),
        call_ensures(Poll::flag_read, (p, flag, false), r),
    ensures
        r is Ok,
        ({
            let on = flag == Some(true);
            let before = p.found@;
            let after = r->Ok_0.found@;
            &&& ask@ == AskView::Send("RA;"@) ==> after == (PolledView { att: on, ..before })
            &&& ask@ == AskView::Send("LP;"@) ==> after == (PolledView { lp: on, ..before })
            &&& ask@ == AskView::Send("NR;"@) ==> after == (PolledView { nr: on, ..before })
            &&& ask@ == AskView::Send("NB;"@) ==> after == (PolledView { nb: on, ..before })
            &&& ask@ == AskView::Send("RA;"@) || ask@ == AskView::Send("LP;"@) || ask@
                == AskView::Send("NR;"@) || ask@ == AskView::Send("NB;"@)
        }),
{
    lemma_questions_differ();
}

proof fn lemma_questions_differ()
    ensures
        "RA;"@ != "LP;"@ && "RA;"@ != "NR;"@ && "RA;"@ != "NB;"@,
        "LP;"@ != "NR;"@ && "LP;"@ != "NB;"@ && "NR;"@ != "NB;"@,
{
    reveal_strlit("RA;");
    reveal_strlit("LP;");
    reveal_strlit("NR;");
    reveal_strlit("NB;");
    assert("RA;"@[0] == 'R' && "LP;"@[0] == 'L' && "NR;"@[0] == 'N' && "NB;"@[0] == 'N');
    assert("NR;"@[1] == 'R' && "NB;"@[1] == 'B');
}

/// Where a status was asked for, the status is what is found, and everything
/// else starts from its default.
pub proof fn law_status_starts_the_report(
    p: Poll,
    text: String,
    reply: &str,
    status: Option<IfResponse>,
    r: Result<Poll, CatError>,
)
    requires
        p.stage == Stage::Status,
        reply@ == text@,
        call_ensures(parse_if_response, (reply,), status),
        call_ensures(Poll::replied, (p, Ok::<String, CatError>(text), false), r),
    ensures
        r is Ok <==> status is Some,
        r matches Ok(q) ==> {
            let s = status->0;
            &&& q.found.freq_hz == s.freq_hz
            &&& q.found.mode == s.mode
            &&& q.found.vfo == s.vfo
            &&& q.found.tx == s.tx
            &&& q.found.filter_bw@.len() == 0 && q.found.filter_idx is None
            &&& q.found.level == SignalLevel::Meter(MeterLevel { elevenths_dbm: -1397i32 })
            &&& q.found.agc_threshold == 0 && q.found.agc == AgcMode::Slow
            &&& !q.found.att && !q.found.lp && !q.found.nr && !q.found.nb
        },
        r matches Err(e) ==> e@ == CatErrorView::BadResponse(
            "cannot parse IF response: "@ + text@,
        ),
{
}

/// Every other text answer sets the value that was asked for and no other,
/// and one that makes no sense sets its default.
pub proof fn law_answers_set_what_was_asked(
    p: Poll,
    text: String,
    reply: &str,
    index: Option<u8>,
    label: Option<String>,
    level: Option<MeterLevel>,
    threshold: Option<u8>,
    r: Result<Poll, CatError>,
)
    requires
        reply@ == text@,
        call_ensures(parse_rf_index, (reply,), index),
        call_ensures(parse_rf_response, (reply, p.found.mode), label),
        call_ensures(parse_sm_response, (reply,), level),
        call_ensures(parse_th_response, (reply,), threshold),
        call_ensures(Poll::replied, (p, Ok::<String, CatError>(text), false), r),
    ensures
        p.stage == Stage::Filter ==> (r matches Ok(q) && q.found@ == (PolledView {
            filter_idx: index,
            filter_bw: match label {
                Some(l) => l@,
                None => Seq::empty(),
            },
            ..p.found@
        })),
        p.stage == Stage::Rssi ==> (r matches Ok(q) && q.found@ == p.found@),
        p.stage == Stage::Meter ==> (r matches Ok(q) && q.found@ == (PolledView {
            level: SignalLevel::Meter(
                match level {
                    Some(l) => l,
                    None => MeterLevel { elevenths_dbm: -1397i32 },
                },
            ),
            ..p.found@
        })),
        p.stage == Stage::Threshold ==> (r matches Ok(q) && q.found@ == (PolledView {
            agc_threshold: match threshold {
                Some(v) => v,
                None => 0,
            },
            ..p.found@
        })),
{
}

/// A signal strength that could be read is the level that is reported, and
/// the meter is not asked; where it could not, the meter is.
pub proof fn law_strength_comes_before_the_meter(
    p: Poll,
    number: Option<F32>,
    r: Result<Poll, CatError>,
    next: Ask,
)
    requires
        p.stage == Stage::RssiNumber,
        call_ensures(Poll::number_read, (p, number, false), r),
        r is Ok,
        call_ensures(Poll::ask, (&r->Ok_0,), next),
    ensures
        number matches Some(v) ==> r->Ok_0.found@ == (PolledView {
            level: SignalLevel::Dbm(v),
            ..p.found@
        }) && next@ == AskView::Send("TH;"@),
        number is None ==> r->Ok_0.found@ == p.found@ && next@ == AskView::Send("SM0;"@),
{
}

/// The speed of the gain control is what was answered last, and slow where
/// that is not known. The poll is then complete.
pub proof fn law_speed_completes_the_report(p: Poll, speed: Option<AgcMode>, q: Poll, next: Ask)
    requires
        p.stage == Stage::AgcSpeed,
        call_ensures(Poll::speed_read, (p, speed), q),
        call_ensures(Poll::ask, (&q,), next),
    ensures
        speed matches Some(v) ==> q.found@ == (PolledView { agc: v, ..p.found@ }),
        speed is None ==> q.found@ == (PolledView { agc: AgcMode::Slow, ..p.found@ }),
        next@ is Nothing,
{
}

/// A whole poll asks for everything, each time in the radio's own words, and
/// its report holds each answer where it belongs.
pub proof fn law_finished_poll_holds_every_answer(
    p: PollView,
    status: Seq<char>,
    filter: Seq<char>,
    strength: Seq<char>,
    level: F32,
    threshold: Seq<char>,
    att: bool,
    lp: bool,
    nr: bool,
    nb: bool,
    speed: AgcMode,
)
    requires
        p.stage == Stage::Status,
        if_status(frame(status)) is Some,
        if_status(frame(status))->0.mode != Mode::Unknown,
        rf_index(frame(filter)) is Some,
        ri_field(frame(strength)) is Some,
        th_threshold(frame(threshold)) is Some,
    ensures
        ({
            let s = if_status(frame(status))->0;
            let (negative, number) = ri_field(frame(strength))->0;
            let p1 = after_text(p, Ok(status), false)->Ok_0;
            let p2 = after_text(p1, Ok(filter), false)->Ok_0;
            let p3 = after_text(p2, Ok(strength), false)->Ok_0;
            let p4 = after_number(p3, Some(level), false)->Ok_0;
            let p5 = after_text(p4, Ok(threshold), false)->Ok_0;
            let p6 = after_flag(p5, Some(att), false)->Ok_0;
            let p7 = after_flag(p6, Some(lp), false)->Ok_0;
            let p8 = after_flag(p7, Some(nr), false)->Ok_0;
            let p9 = after_flag(p8, Some(nb), false)->Ok_0;
            let last = after_speed(p9, Some(speed));
            &&& question(p) == AskView::Send("IF;"@)
            &&& question(p1) == AskView::Send("RF"@.push(mode_digit(s.mode)->0) + ";"@)
            &&& question(p2) == AskView::Send("RI;"@)
            &&& question(p3) == (AskView::ReadNumber { text: number, negative })
            &&& question(p4) == AskView::Send("TH;"@)
            &&& question(p5) == AskView::Send("RA;"@)
            &&& question(p6) == AskView::Send("LP;"@)
            &&& question(p7) == AskView::Send("NR;"@)
            &&& question(p8) == AskView::Send("NB;"@)
            &&& question(p9) == AskView::Send("GT;"@)
            &&& question(last) is Nothing
            &&& last.found.freq_hz == s.freq_hz && last.found.mode == s.mode && last.found.vfo
                == s.vfo && last.found.tx == s.tx
            &&& last.found.filter_idx == Some(rf_index(frame(filter))->0 as u8)
            &&& last.found.filter_bw == rf_label(s.mode, rf_index(frame(filter))->0)
            &&& last.found.level == SignalLevel::Dbm(level)
            &&& last.found.agc_threshold == th_threshold(frame(threshold))->0 as u8
            &&& last.found.att == att && last.found.lp == lp
            &&& last.found.nr == nr && last.found.nb == nb
            &&& last.found.agc == speed
        }),
{
}

/// The state that is published is what was found, each value under its own
/// name.
pub proof fn law_state_says_what_was_found(
    found: Polled,
    level: F32,
    bw: Option<F64>,
    r: RadioState,
)
    requires
        call_ensures(radio_state, (found, level, bw), r),
    ensures
        r.freq_hz == found.freq_hz && r.mode == found.mode && r.vfo == found.vfo,
        r.tx == found.tx && r.att == found.att && r.lp == found.lp,
        r.nr == found.nr && r.nb == found.nb,
        r.agc == found.agc && r.agc_threshold == found.agc_threshold,
        r.filter_bw@ == found.filter_bw@ && r.filter_idx == found.filter_idx,
        r.filter_bw_hz == bw && r.s_meter_db == level,
        r.rit_hz == 0 && r.xit_hz == 0 && r.if_offset_hz == 0,
        !r.rit_on && !r.xit_on && r.snr_db is None,
{
}

/// A port that is configured is the port; only `auto` takes the one that was
/// found.
pub proof fn law_configured_port_stands(
    config: &CatConfig,
    found: Result<Option<String>, CatError>,
    r: Option<String>,
)
    requires
        call_ensures(CatConfig::device, (config, found), r),
    ensures
        config.serial_device@ != "auto"@ ==> (r matches Some(d) && d@ == config.serial_device@),
        config.serial_device@ == "auto"@ ==> match found {
            Ok(Some(f)) => r matches Some(d) && d@ == f@,
            _ => r is None,
        },
{
}

/// The radio is looked for, and asked five times a second.
pub proof fn law_default_polling(c: CatConfig)
    requires
        call_ensures(<CatConfig as Default>::default, (), c),
    ensures
        c.serial_device@ == "auto"@,
        5 * c.poll_interval_ms == 1000,
{
}

/// A poll starts with nothing known, and asks for the status first.
pub proof fn law_polls_start_with_the_status(p: Poll, ask: Ask)
    requires
        call_ensures(Poll::new, (), p),
        call_ensures(Poll::ask, (&p,), ask),
    ensures
        ask@ == AskView::Send("IF;"@),
        text_stage(p.stage),
        p.found.freq_hz == 0 && p.found.mode == Mode::Unknown && p.found.vfo == Vfo::A,
        !p.found.tx,
{
}

/// Answers in the radio's own letters are accepted at every stage.
pub proof fn law_ascii_answers_are_accepted(p: &Poll, reply: &str, r: bool)
    requires
        vstd::utf8::is_ascii_chars(reply@),
        reply@.len() > 0,
        !crate::text::is_white(reply@[0]),
        !crate::text::is_white(reply@.last()),
        call_ensures(Poll::accepts, (p, reply), r),
    ensures
        r,
{
    crate::cat::parse::lemma_ascii_frame(reply@);
    let b = frame(reply@);
    assert(b.len() >= 33 ==> crate::cat::parse::cut(b, 13) && crate::cat::parse::cut(b, 28)
        && crate::cat::parse::cut(b, 29) && crate::cat::parse::cut(b, 30)
        && crate::cat::parse::cut(b, 31));
    assert(b.len() >= 7 ==> crate::cat::parse::cut(b, 3) && crate::cat::parse::cut(b, 7));
    assert(b.len() >= 8 ==> crate::cat::parse::cut(b, 8));
    assert(b.len() >= 5 ==> crate::cat::parse::cut(b, 4) && crate::cat::parse::cut(b, 5));
}

} // verus!
