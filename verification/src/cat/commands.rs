//! Commands for the radio, in its own language: two letters, fields of fixed
//! width, and a semicolon.
use crate::proto::filters::{kenwood_mode_char, mode_digit};
use crate::proto::messages::CatCommand;
use crate::proto::radio::{AgcMode, Mode, Vfo};
use crate::text::{padded, push_padded};
use vstd::prelude::*;
use vstd::string::*;

verus! {

/// Tunes a register: `FA` or `FB`, and the frequency in eleven digits.
pub open spec fn tune_text(vfo: Vfo, hz: nat) -> Seq<char> {
    (if vfo == Vfo::A {
        "FA"@
    } else {
        "FB"@
    }) + padded(hz, 11) + ";"@
}

/// Selects a mode: `MD` and the mode's digit.
pub open spec fn mode_text(digit: char) -> Seq<char> {
    "MD"@.push(digit) + ";"@
}

/// Selects a filter: `RF`, the mode's digit, and the index in two digits.
pub open spec fn filter_text(digit: char, index: nat) -> Seq<char> {
    "RF"@.push(digit) + padded(index, 2) + ";"@
}

/// Sets the gain control threshold: `TH` and two digits.
pub open spec fn threshold_text(value: nat) -> Seq<char> {
    "TH"@ + padded(value, 2) + ";"@
}

/// Sets the gain control speed: `GS0` and three digits.
pub open spec fn speed_text(speed: nat) -> Seq<char> {
    "GS0"@ + padded(speed, 3) + ";"@
}

/// The command that tunes a register.
pub fn tune(vfo: Vfo, hz: u64) -> (r: CatCommand)
    ensures
        r.raw@ == tune_text(vfo, hz as nat),
{
    let mut raw: String = match vfo {
        Vfo::A => "FA".to_owned(),
        Vfo::B => "FB".to_owned(),
    };
    push_padded(&mut raw, hz, 11);
    raw.append(";");
    CatCommand { raw }
}

/// The command that tunes register A.
pub fn set_freq(hz: u64) -> (r: CatCommand)
    ensures
        r.raw@ == tune_text(Vfo::A, hz as nat),
{
    tune(Vfo::A, hz)
}

/// The command that selects a mode; the AM family parks the radio in AM.
/// There is none for `Mode::Unknown`.
pub fn set_mode(mode: Mode) -> (r: Option<CatCommand>)
    ensures
        match (mode_digit(mode), r) {
            (Some(digit), Some(cmd)) => cmd.raw@ == mode_text(digit),
            (None, None) => true,
            _ => false,
        },
{
    match kenwood_mode_char(mode) {
        Some(digit) => {
            let mut raw: String = "MD".to_owned();
            raw.push(digit);
            raw.append(";");
            Some(CatCommand { raw })
        },
        None => None,
    }
}

/// The command that selects a filter of a mode. There is none for
/// `Mode::Unknown`.
pub fn set_filter(mode: Mode, index: u8) -> (r: Option<CatCommand>)
    ensures
        match (mode_digit(mode), r) {
            (Some(digit), Some(cmd)) => cmd.raw@ == filter_text(digit, index as nat),
            (None, None) => true,
            _ => false,
        },
{
    match kenwood_mode_char(mode) {
        Some(digit) => {
            let mut raw: String = "RF".to_owned();
            raw.push(digit);
            push_padded(&mut raw, index as u64, 2);
            raw.append(";");
            Some(CatCommand { raw })
        },
        None => None,
    }
}

/// The command that sets the gain control threshold; values above 10 count
/// as 10.
pub fn set_agc_threshold(value: u8) -> (r: CatCommand)
    ensures
        r.raw@ == threshold_text(if value <= 10 {
            value as nat
        } else {
            10
        }),
{
    let v: u8 = if value <= 10 {
        value
    } else {
        10
    };
    let mut raw: String = "TH".to_owned();
    push_padded(&mut raw, v as u64, 2);
    raw.append(";");
    CatCommand { raw }
}

/// The commands that set the gain control: `GC1;` turns it off; `GC0;` turns
/// it on and the speed follows.
pub open spec fn agc_texts(mode: AgcMode) -> Seq<Seq<char>> {
    match mode {
        AgcMode::Off => seq!["GC1;"@],
        AgcMode::Slow => seq!["GC0;"@, speed_text(0)],
        AgcMode::Medium => seq!["GC0;"@, speed_text(1)],
        AgcMode::Fast => seq!["GC0;"@, speed_text(2)],
    }
}

/// The commands that set the gain control.
pub fn set_agc_mode(mode: AgcMode) -> (r: Vec<CatCommand>)
    ensures
        r@.len() == agc_texts(mode).len(),
        forall|k: int| 0 <= k < r@.len() ==> (#[trigger] r@[k]).raw@ == agc_texts(mode)[k],
{
    let mut out: Vec<CatCommand> = Vec::new();
    let speed: u64 = match mode {
        AgcMode::Off => {
            out.push(CatCommand { raw: "GC1;".to_owned() });
            return out;
        },
        AgcMode::Slow => 0,
        AgcMode::Medium => 1,
        AgcMode::Fast => 2,
    };
    out.push(CatCommand { raw: "GC0;".to_owned() });
    let mut raw: String = "GS0".to_owned();
    push_padded(&mut raw, speed, 3);
    raw.append(";");
    out.push(CatCommand { raw });
    out
}

/// The highest frequency that eleven digits can say.
pub const MAX_FREQ_HZ: u64 = 99_999_999_999;

/// Up to [`MAX_FREQ_HZ`], a tuning command has its fourteen characters, and
/// its frequency field reads back as the frequency.
pub proof fn law_tuning_is_well_formed(vfo: Vfo, hz: nat)
    requires
        hz <= MAX_FREQ_HZ,
    ensures
        tune_text(vfo, hz).len() == 14,
        crate::text::unsigned_text(tune_text(vfo, hz).subrange(2, 13), u64::MAX as nat) == Some(hz),
{
    reveal_strlit("FA");
    reveal_strlit("FB");
    reveal_strlit(";");
    assert(vstd::arithmetic::power::pow(10, 11) == 100_000_000_000) by {
        reveal(vstd::arithmetic::power::pow);
        reveal_with_fuel(vstd::arithmetic::power::pow, 12);
    }
    crate::text::lemma_decimal_len(hz, 11);
    crate::text::lemma_padded(hz, 11);
    crate::text::lemma_padded_reads_back(hz, 11, u64::MAX as nat);
    assert(tune_text(vfo, hz).subrange(2, 13) =~= padded(hz, 11));
}

/// A tuning command names the register that it is for, and says the frequency
/// that it was made for.
pub proof fn law_tuning_says_what_it_was_told(vfo: Vfo, hz: u64, cmd: CatCommand)
    requires
        hz <= MAX_FREQ_HZ,
        call_ensures(tune, (vfo, hz), cmd),
    ensures
        cmd.raw@.len() == 14,
        cmd.raw@[0] == 'F',
        vfo == Vfo::A <==> cmd.raw@[1] == 'A',
        vfo == Vfo::B <==> cmd.raw@[1] == 'B',
        crate::text::all_digits(cmd.raw@.subrange(2, 13)),
        crate::text::value(cmd.raw@.subrange(2, 13)) == hz,
        cmd.raw@[13] == ';',
{
    law_tuning_is_well_formed(vfo, hz as nat);
    reveal_strlit("FA");
    reveal_strlit("FB");
    reveal_strlit(";");
    crate::text::lemma_padded(hz as nat, 11);
    assert(cmd.raw@.subrange(2, 13) =~= padded(hz as nat, 11));
}

/// Without a register named, it is A that is tuned.
pub proof fn law_register_a_is_tuned(hz: u64, cmd: CatCommand, a: CatCommand)
    requires
        call_ensures(set_freq, (hz,), cmd),
        call_ensures(tune, (Vfo::A, hz), a),
    ensures
        cmd.raw@ == a.raw@,
{
}

/// A mode command carries the digit by which the radio reports that mode;
/// the AM family is set as AM. Only the unknown mode has none.
pub proof fn law_mode_commands_carry_the_radios_digit(mode: Mode, r: Option<CatCommand>)
    requires
        call_ensures(set_mode, (mode,), r),
    ensures
        r is None <==> mode == Mode::Unknown,
        r matches Some(cmd) ==> {
            let digit = cmd.raw@[2];
            &&& cmd.raw@ == seq!['M', 'D', digit, ';']
            &&& '0' <= digit <= '9'
            &&& crate::cat::parse::mode_of_digit((digit as nat - 48) as nat) == if mode == Mode::DRM
                || mode == Mode::SAM || mode == Mode::SAMU || mode == Mode::SAML || mode
                == Mode::DSB {
                Mode::AM
            } else {
                mode
            }
        },
{
    reveal_strlit("MD");
    reveal_strlit(";");
    if let Some(cmd) = r {
        assert(cmd.raw@ =~= seq!['M', 'D', cmd.raw@[2], ';']);
    }
}

/// A filter command names the mode as the mode command does, and the filter
/// by its index.
pub proof fn law_filter_commands_name_mode_and_filter(
    mode: Mode,
    index: u8,
    m: Option<CatCommand>,
    r: Option<CatCommand>,
)
    requires
        index < 100,
        call_ensures(set_mode, (mode,), m),
        call_ensures(set_filter, (mode, index), r),
    ensures
        r is None <==> m is None,
        r matches Some(cmd) ==> {
            &&& cmd.raw@.len() == 6
            &&& cmd.raw@[0] == 'R' && cmd.raw@[1] == 'F' && cmd.raw@[5] == ';'
            &&& cmd.raw@[2] == m->0.raw@[2]
            &&& crate::text::all_digits(cmd.raw@.subrange(3, 5))
            &&& crate::text::value(cmd.raw@.subrange(3, 5)) == index
        },
{
    reveal_strlit("MD");
    reveal_strlit("RF");
    reveal_strlit(";");
    assert(vstd::arithmetic::power::pow(10, 2) == 100) by {
        reveal(vstd::arithmetic::power::pow);
        reveal_with_fuel(vstd::arithmetic::power::pow, 3);
    }
    crate::text::lemma_decimal_len(index as nat, 2);
    crate::text::lemma_padded(index as nat, 2);
    if let Some(cmd) = r {
        assert(cmd.raw@.subrange(3, 5) =~= padded(index as nat, 2));
    }
}

/// A threshold command says the threshold, and never more than ten.
pub proof fn law_threshold_commands_say_the_threshold(value: u8, cmd: CatCommand)
    requires
        call_ensures(set_agc_threshold, (value,), cmd),
    ensures
        cmd.raw@.len() == 5,
        cmd.raw@[0] == 'T' && cmd.raw@[1] == 'H' && cmd.raw@[4] == ';',
        value <= 10 ==> crate::text::value(cmd.raw@.subrange(2, 4)) == value,
        value > 10 ==> crate::text::value(cmd.raw@.subrange(2, 4)) == 10,
        crate::text::all_digits(cmd.raw@.subrange(2, 4)),
{
    reveal_strlit("TH");
    reveal_strlit(";");
    let v: nat = if value <= 10 {
        value as nat
    } else {
        10
    };
    assert(vstd::arithmetic::power::pow(10, 2) == 100) by {
        reveal(vstd::arithmetic::power::pow);
        reveal_with_fuel(vstd::arithmetic::power::pow, 3);
    }
    crate::text::lemma_decimal_len(v, 2);
    crate::text::lemma_padded(v, 2);
    assert(cmd.raw@.subrange(2, 4) =~= padded(v, 2));
}

/// How fast a gain control is.
pub open spec fn quickness(mode: AgcMode) -> int {
    match mode {
        AgcMode::Off => -1,
        AgcMode::Slow => 0,
        AgcMode::Medium => 1,
        AgcMode::Fast => 2,
    }
}

/// The gain control is switched off by one command, and otherwise switched on
/// before its speed is set: by a number of three digits, the higher the
/// faster.
pub proof fn law_gain_control_is_on_before_its_speed(mode: AgcMode, r: Vec<CatCommand>)
    requires
        call_ensures(set_agc_mode, (mode,), r),
    ensures
        mode == AgcMode::Off ==> r@.len() == 1 && r@[0].raw@ == seq!['G', 'C', '1', ';'],
        mode != AgcMode::Off ==> {
            let speed = r@[1].raw@;
            &&& r@.len() == 2
            &&& r@[0].raw@ == seq!['G', 'C', '0', ';']
            &&& speed.len() == 7
            &&& speed[0] == 'G' && speed[1] == 'S' && speed[2] == '0' && speed[6] == ';'
            &&& crate::text::all_digits(speed.subrange(3, 6))
            &&& crate::text::value(speed.subrange(3, 6)) == quickness(mode)
        },
{
    reveal_strlit("GC0;");
    reveal_strlit("GC1;");
    reveal_strlit("GS0");
    reveal_strlit(";");
    if mode == AgcMode::Off {
        assert(r@[0].raw@ =~= seq!['G', 'C', '1', ';']);
    } else {
        let v = quickness(mode) as nat;
        assert(vstd::arithmetic::power::pow(10, 3) == 1000) by {
            reveal(vstd::arithmetic::power::pow);
            reveal_with_fuel(vstd::arithmetic::power::pow, 4);
        }
        crate::text::lemma_decimal_len(v, 3);
        crate::text::lemma_padded(v, 3);
        assert(r@[0].raw@ =~= seq!['G', 'C', '0', ';']);
        assert(r@[1].raw@ == speed_text(v));
        assert(r@[1].raw@.subrange(3, 6) =~= padded(v, 3));
    }
}

} // verus!
