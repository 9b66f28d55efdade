//! Reading the radio's answers.
//!
//! An answer is two letters, fields of fixed width, and a semicolon. Fields
//! are cut out of the answer's UTF-8 bytes. A cut has to fall between two
//! characters, which is no question for the ASCII that the radio sends; the
//! `*_cuttable` conditions say it for every other text.
use crate::proto::filters::{filter_label, kenwood_mode_char, label_of, mode_digit};
use crate::proto::radio::{Mode, Vfo};
use crate::text::{latin1_of, parse_unsigned, trimmed_text};
use vstd::prelude::*;
use vstd::string::*;

verus! {

/// The mode that a mode digit of the radio stands for.
pub open spec fn mode_of_digit(digit: nat) -> Mode {
    if digit == 1 {
        Mode::LSB
    } else if digit == 2 {
        Mode::USB
    } else if digit == 3 {
        Mode::CW
    } else if digit == 4 {
        Mode::FM
    } else if digit == 5 {
        Mode::AM
    } else if digit == 7 {
        Mode::CWR
    } else {
        Mode::Unknown
    }
}

/// The mode for a mode digit of the radio; `Mode::Unknown` for any other
/// number.
pub fn kenwood_mode(digit: u8) -> (r: Mode)
    ensures
        r == mode_of_digit(digit as nat),
{
    match digit {
        1 => Mode::LSB,
        2 => Mode::USB,
        3 => Mode::CW,
        4 => Mode::FM,
        5 => Mode::AM,
        7 => Mode::CWR,
        _ => Mode::Unknown,
    }
}

/// The digit by which the radio knows a mode.
pub fn mode_char(mode: Mode) -> (r: Option<char>)
    ensures
        r == mode_digit(mode),
{
    kenwood_mode_char(mode)
}

/// The bytes of an answer without the white space around it.
pub open spec fn frame(response: Seq<char>) -> Seq<u8> {
    vstd::utf8::encode_utf8(crate::text::trim(response))
}

/// A frame has at least `len` bytes and starts with the letters `a` and `b`.
pub open spec fn is_frame(bytes: Seq<u8>, len: nat, a: char, b: char) -> bool {
    bytes.len() >= len && bytes[0] == a as u8 && bytes[1] == b as u8
}

/// The number in the bytes from `from` to `to`, if it is at most `max`.
pub open spec fn number(bytes: Seq<u8>, from: int, to: int, max: nat) -> Option<nat> {
    crate::text::unsigned_text(crate::text::latin1(bytes.subrange(from, to)), max)
}

/// A cut in front of byte `at` falls between two characters.
pub open spec fn cut(bytes: Seq<u8>, at: int) -> bool {
    vstd::utf8::is_char_boundary(bytes, at)
}

/// Reads the number in the bytes from `from` to `to`.
fn read_number(bytes: &[u8], from: usize, to: usize, max: u64) -> (r: Option<u64>)
    requires
        from <= to <= bytes@.len(),
    ensures
        r == (match number(bytes@, from as int, to as int, max as nat) {
            Some(v) => Some(v as u64),
            None => None,
        }),
{
    let field: Vec<char> = latin1_of(vstd::slice::slice_subrange(bytes, from, to));
    parse_unsigned(field.as_slice(), max)
}

/// Whether a frame has at least `len` bytes and starts with two letters.
fn check_frame(bytes: &[u8], len: usize, a: char, b: char) -> (r: bool)
    requires
        len >= 2,
    ensures
        r == is_frame(bytes@, len as nat, a, b),
{
    bytes.len() >= len && bytes[0] == a as u8 && bytes[1] == b as u8
}

// ---------------------------------------------------------------------------
// IF: frequency, mode, register, transmit state
// ---------------------------------------------------------------------------

/// What the radio's status answer says.
#[derive(Debug, Clone, Copy, PartialEq, Eq, Structural)]
pub struct IfResponse {
    pub freq_hz: u64,
    pub mode: Mode,
    pub vfo: Vfo,
    pub tx: bool,
}

/// The status that a frame reports: frequency at 2, transmit state at 28,
/// mode at 29, register at 30. At least 32 characters stand before the
/// semicolon that ends it. The transmit state is on only for a `1`;
/// without one of the other three numbers there is no status.
pub open spec fn if_status(bytes: Seq<u8>) -> Option<IfResponse> {
    if !is_frame(bytes, 33, 'I', 'F') {
        None
    } else {
        match (
            number(bytes, 2, 13, u64::MAX as nat),
            number(bytes, 29, 30, 255),
            number(bytes, 30, 31, 255),
        ) {
            (Some(freq), Some(mode), Some(vfo)) => Some(
                IfResponse {
                    freq_hz: freq as u64,
                    mode: mode_of_digit(mode),
                    vfo: if vfo == 0 {
                        Vfo::A
                    } else {
                        Vfo::B
                    },
                    tx: number(bytes, 28, 29, 255) == Some(1nat),
                },
            ),
            _ => None,
        }
    }
}

/// The cuts that reading a status makes fall between characters.
pub open spec fn if_cuttable(response: Seq<char>) -> bool {
    let bytes = frame(response);
    is_frame(bytes, 33, 'I', 'F') ==> {
        &&& cut(bytes, 13)
        &&& number(bytes, 2, 13, u64::MAX as nat) is Some ==> {
            &&& cut(bytes, 28)
            &&& cut(bytes, 29)
            &&& cut(bytes, 30)
            &&& number(bytes, 29, 30, 255) is Some ==> cut(bytes, 31)
        }
    }
}

/// Whether the cuts that reading a status makes fall between characters.
pub fn can_cut_if(response: &str) -> (r: bool)
    ensures
        r == if_cuttable(response@),
{
    let text: String = trimmed_text(response);
    let whole: &str = text.as_str();
    let s: &[u8] = whole.as_bytes();
    if !check_frame(s, 33, 'I', 'F') {
        return true;
    }
    if !whole.is_char_boundary(13) {
        return false;
    }
    if read_number(s, 2, 13, u64::MAX).is_none() {
        return true;
    }
    if !whole.is_char_boundary(28) || !whole.is_char_boundary(29) || !whole.is_char_boundary(30) {
        return false;
    }
    read_number(s, 29, 30, 255).is_none() || whole.is_char_boundary(31)
}

/// Reads a status answer; `None` if it is too short, starts otherwise, or
/// lacks a number.
pub fn parse_if_response(response: &str) -> (r: Option<IfResponse>)
    requires
        if_cuttable(response@),
    ensures
        r == if_status(frame(response@)),
{
    let text: String = trimmed_text(response);
    let s: &[u8] = text.as_str().as_bytes();
    if !check_frame(s, 33, 'I', 'F') {
        return None;
    }
    let freq_hz: u64 = match read_number(s, 2, 13, u64::MAX) {
        Some(v) => v,
        None => {
            return None;
        },
    };
    let tx: bool = match read_number(s, 28, 29, 255) {
        Some(v) => v == 1,
        None => false,
    };
    let mode: Mode = match read_number(s, 29, 30, 255) {
        Some(v) => kenwood_mode(v as u8),
        None => {
            return None;
        },
    };
    let vfo: Vfo = match read_number(s, 30, 31, 255) {
        Some(v) => if v == 0 {
            Vfo::A
        } else {
            Vfo::B
        },
        None => {
            return None;
        },
    };
    Some(IfResponse { freq_hz, mode, vfo, tx })
}

/// Frequency, mode and register of a status answer.
pub fn parse_if_response_tuple(response: &str) -> (r: Option<(u64, Mode, Vfo)>)
    requires
        if_cuttable(response@),
    ensures
        r == (match if_status(frame(response@)) {
            Some(s) => Some((s.freq_hz, s.mode, s.vfo)),
            None => None,
        }),
{
    match parse_if_response(response) {
        Some(s) => Some((s.freq_hz, s.mode, s.vfo)),
        None => None,
    }
}

// ---------------------------------------------------------------------------
// SM and RI: signal level
// ---------------------------------------------------------------------------

/// A signal level in elevenths of a dBm: the meter's steps are not whole.
#[derive(Debug, Clone, Copy, PartialEq, Eq, Structural)]
pub struct MeterLevel {
    pub elevenths_dbm: i32,
}

/// The level in dBm of the readings that the radio's manual lists: S0 to S9
/// in steps of 6 dB up to -73 dBm, and from there in steps of 10 dB up to
/// 60 dB above S9.
pub open spec fn listed_level(reading: int) -> Option<int> {
    if reading == 0 {
        Some(-127)
    } else if 2 <= reading <= 6 {
        Some(-127 + 6 * (reading - 1))
    } else if 8 <= reading <= 11 {
        Some(-127 + 6 * (reading - 2))
    } else if 12 <= reading <= 22 && reading % 2 == 0 {
        Some(-73 + 5 * (reading - 10))
    } else {
        None
    }
}

/// The level of a reading that the manual does not list, in elevenths of a
/// dBm. It lies on the straight line from S0 at 0 to S9 at 11, or on that
/// from S9 to 60 dB above it at 22, which goes on up to 0 dBm.
pub open spec fn unlisted_level(reading: int) -> int {
    let e = if reading <= 11 {
        -127 * 11 + reading * 54
    } else {
        -73 * 11 + (reading - 11) * 60
    };
    if e > 0 {
        0
    } else {
        e
    }
}

/// The level of a meter reading, in elevenths of a dBm.
pub open spec fn meter_level(reading: int) -> int {
    match listed_level(reading) {
        Some(dbm) => 11 * dbm,
        None => unlisted_level(reading),
    }
}

/// The level of a meter reading.
pub fn level_of_reading(reading: u16) -> (r: MeterLevel)
    ensures
        r.elevenths_dbm == meter_level(reading as int),
{
    let n: i32 = reading as i32;
    let elevenths_dbm: i32 = if n == 0 {
        -1397
    } else if 2 <= n && n <= 6 {
        -1397 + 66 * (n - 1)
    } else if 8 <= n && n <= 11 {
        -1397 + 66 * (n - 2)
    } else if 12 <= n && n <= 22 && n % 2 == 0 {
        -803 + 55 * (n - 10)
    } else if n <= 11 {
        -1397 + 54 * n
    } else if n <= 24 {
        -803 + 60 * (n - 11)
    } else {
        0
    };
    MeterLevel { elevenths_dbm }
}

/// The level that a meter frame reports: the reading stands at 3.
pub open spec fn sm_level(bytes: Seq<u8>) -> Option<int> {
    if !is_frame(bytes, 7, 'S', 'M') {
        None
    } else {
        match number(bytes, 3, 7, u16::MAX as nat) {
            Some(reading) => Some(meter_level(reading as int)),
            None => None,
        }
    }
}

/// The cuts that reading a meter answer makes fall between characters.
pub open spec fn sm_cuttable(response: Seq<char>) -> bool {
    let bytes = frame(response);
    is_frame(bytes, 7, 'S', 'M') ==> cut(bytes, 3) && cut(bytes, 7)
}

/// Whether the cuts that reading a meter answer makes fall between characters.
pub fn can_cut_sm(response: &str) -> (r: bool)
    ensures
        r == sm_cuttable(response@),
{
    let text: String = trimmed_text(response);
    let whole: &str = text.as_str();
    let s: &[u8] = whole.as_bytes();
    !check_frame(s, 7, 'S', 'M') || whole.is_char_boundary(3) && whole.is_char_boundary(7)
}

/// Reads a meter answer.
pub fn parse_sm_response(response: &str) -> (r: Option<MeterLevel>)
    requires
        sm_cuttable(response@),
    ensures
        match r {
            Some(level) => sm_level(frame(response@)) == Some(level.elevenths_dbm as int),
            None => sm_level(frame(response@)) is None,
        },
{
    let text: String = trimmed_text(response);
    let s: &[u8] = text.as_str().as_bytes();
    if !check_frame(s, 7, 'S', 'M') {
        return None;
    }
    match read_number(s, 3, 7, u16::MAX as u64) {
        Some(v) => Some(level_of_reading(v as u16)),
        None => None,
    }
}

/// The number in a signal strength answer, still as text.
#[derive(Debug)]
pub struct RssiField {
    pub negative: bool,
    pub magnitude: String,
}

/// The sign and the number text of a signal strength frame: the sign stands
/// at 2, the number from 3 to 8. A `!` marks a reading that cannot be relied
/// on, and there is none.
pub open spec fn ri_field(bytes: Seq<u8>) -> Option<(bool, Seq<char>)> {
    if !is_frame(bytes, 8, 'R', 'I') || bytes[2] == '!' as u8 {
        None
    } else {
        Some(
            (
                bytes[2] == '-' as u8,
                crate::text::trim(vstd::utf8::decode_utf8(bytes.subrange(3, 8))),
            ),
        )
    }
}

/// The cuts that reading a signal strength makes fall between characters.
pub open spec fn ri_cuttable(response: Seq<char>) -> bool {
    let bytes = frame(response);
    is_frame(bytes, 8, 'R', 'I') && bytes[2] != '!' as u8 ==> cut(bytes, 3) && cut(bytes, 8)
}

/// Whether the cuts that reading a signal strength makes fall between
/// characters.
pub fn can_cut_ri(response: &str) -> (r: bool)
    ensures
        r == ri_cuttable(response@),
{
    let text: String = trimmed_text(response);
    let whole: &str = text.as_str();
    let s: &[u8] = whole.as_bytes();
    !check_frame(s, 8, 'R', 'I') || s[2] == '!' as u8 || whole.is_char_boundary(3)
        && whole.is_char_boundary(8)
}

/// Reads the sign and the number text of a signal strength answer.
pub fn parse_ri_response(response: &str) -> (r: Option<RssiField>)
    requires
        ri_cuttable(response@),
    ensures
        match r {
            Some(field) => ri_field(frame(response@)) == Some(
                (field.negative, field.magnitude@),
            ),
            None => ri_field(frame(response@)) is None,
        },
{
    let text: String = trimmed_text(response);
    let whole: &str = text.as_str();
    let s: &[u8] = whole.as_bytes();
    if !check_frame(s, 8, 'R', 'I') {
        return None;
    }
    let sign: u8 = s[2];
    if sign == '!' as u8 {
        return None;
    }
    let head: &str = whole.split_at(8).0;
    proof {
        vstd::utf8::encode_utf8_valid_utf8(whole@);
        vstd::utf8::encode_utf8_valid_utf8(head@);
        let bytes = whole.spec_bytes();
        vstd::utf8::is_char_boundary_iff_not_is_continuation_byte(bytes, 3);
        vstd::utf8::is_char_boundary_iff_not_is_continuation_byte(head.spec_bytes(), 3);
    }
    let number: &str = head.split_at(3).1;
    proof {
        vstd::utf8::encode_utf8_decode_utf8(number@);
        assert(number.spec_bytes() =~= whole.spec_bytes().subrange(3, 8));
    }
    Some(RssiField { negative: sign == '-' as u8, magnitude: trimmed_text(number) })
}

// ---------------------------------------------------------------------------
// TH: gain control threshold
// ---------------------------------------------------------------------------

/// The threshold that a frame reports, from 0 to 10.
pub open spec fn th_threshold(bytes: Seq<u8>) -> Option<nat> {
    if !is_frame(bytes, 5, 'T', 'H') {
        None
    } else {
        number(bytes, 2, 4, 10)
    }
}

/// The cuts that reading a threshold makes fall between characters.
pub open spec fn th_cuttable(response: Seq<char>) -> bool {
    let bytes = frame(response);
    is_frame(bytes, 5, 'T', 'H') ==> cut(bytes, 4)
}

/// Whether the cuts that reading a threshold makes fall between characters.
pub fn can_cut_th(response: &str) -> (r: bool)
    ensures
        r == th_cuttable(response@),
{
    let text: String = trimmed_text(response);
    let whole: &str = text.as_str();
    let s: &[u8] = whole.as_bytes();
    !check_frame(s, 5, 'T', 'H') || whole.is_char_boundary(4)
}

/// Reads a threshold answer.
pub fn parse_th_response(response: &str) -> (r: Option<u8>)
    requires
        th_cuttable(response@),
    ensures
        r == (match th_threshold(frame(response@)) {
            Some(v) => Some(v as u8),
            None => None,
        }),
{
    let text: String = trimmed_text(response);
    let s: &[u8] = text.as_str().as_bytes();
    if !check_frame(s, 5, 'T', 'H') {
        return None;
    }
    match read_number(s, 2, 4, 10) {
        Some(v) => Some(v as u8),
        None => None,
    }
}

// ---------------------------------------------------------------------------
// RF: filter
// ---------------------------------------------------------------------------

/// The filter index that a frame reports, at 3.
pub open spec fn rf_index(bytes: Seq<u8>) -> Option<nat> {
    if !is_frame(bytes, 6, 'R', 'F') {
        None
    } else {
        number(bytes, 3, 5, u8::MAX as nat)
    }
}

/// The label for a filter index of the radio, `?` where the mode has none.
pub open spec fn rf_label(mode: Mode, index: nat) -> Seq<char> {
    match label_of(mode, index as int) {
        Some(label) => label,
        None => "?"@,
    }
}

/// The cuts that reading a filter answer makes fall between characters.
pub open spec fn rf_cuttable(response: Seq<char>) -> bool {
    let bytes = frame(response);
    is_frame(bytes, 6, 'R', 'F') ==> cut(bytes, 3) && cut(bytes, 5)
}

/// Whether the cuts that reading a filter answer makes fall between
/// characters.
pub fn can_cut_rf(response: &str) -> (r: bool)
    ensures
        r == rf_cuttable(response@),
{
    let text: String = trimmed_text(response);
    let whole: &str = text.as_str();
    let s: &[u8] = whole.as_bytes();
    !check_frame(s, 6, 'R', 'F') || whole.is_char_boundary(3) && whole.is_char_boundary(5)
}

/// Reads the filter index of a filter answer.
pub fn parse_rf_index(response: &str) -> (r: Option<u8>)
    requires
        rf_cuttable(response@),
    ensures
        r == (match rf_index(frame(response@)) {
            Some(v) => Some(v as u8),
            None => None,
        }),
{
    let text: String = trimmed_text(response);
    let s: &[u8] = text.as_str().as_bytes();
    if !check_frame(s, 6, 'R', 'F') {
        return None;
    }
    match read_number(s, 3, 5, u8::MAX as u64) {
        Some(v) => Some(v as u8),
        None => None,
    }
}

/// Reads the bandwidth label of a filter answer.
pub fn parse_rf_response(response: &str, mode: Mode) -> (r: Option<String>)
    requires
        rf_cuttable(response@),
    ensures
        match r {
            Some(label) => rf_index(frame(response@)) is Some && label@ == rf_label(
                mode,
                rf_index(frame(response@))->0,
            ),
            None => rf_index(frame(response@)) is None,
        },
{
    match parse_rf_index(response) {
        Some(index) => Some(
            match filter_label(mode, index) {
                Some(label) => label.to_owned(),
                None => "?".to_owned(),
            },
        ),
        None => None,
    }
}

// ---------------------------------------------------------------------------
// Laws
// ---------------------------------------------------------------------------

/// A mode's digit leads back to the mode; the AM family goes by AM.
pub proof fn law_mode_digits_lead_back(mode: Mode)
    ensures
        match mode_digit(mode) {
            Some(digit) => '0' <= digit <= '9' && mode_of_digit((digit as nat - 48) as nat) == (
            if crate::proto::filters::am_family(mode) {
                Mode::AM
            } else {
                mode
            }),
            None => mode == Mode::Unknown,
        },
{
}

/// A greater reading is a stronger signal, from S0 up to 0 dBm.
pub proof fn law_greater_readings_are_stronger(a: int, b: int)
    requires
        0 <= a <= b,
    ensures
        -127 * 11 <= meter_level(a) <= meter_level(b) <= 0,
{
}

/// ASCII text without white space at its ends is its own frame, byte for
/// character, and can be cut everywhere.
pub proof fn lemma_ascii_frame(s: Seq<char>)
    requires
        vstd::utf8::is_ascii_chars(s),
        s.len() > 0,
        !crate::text::is_white(s[0]),
        !crate::text::is_white(s.last()),
    ensures
        frame(s).len() == s.len(),
        crate::text::latin1(frame(s)) == s,
        forall|k: int| 0 <= k < s.len() ==> #[trigger] frame(s)[k] == s[k] as u8,
        forall|k: int| 0 <= k <= s.len() ==> #[trigger] cut(frame(s), k),
{
    let white = |c: char| crate::text::is_white(c);
    crate::text::lemma_leading(s, white, 0);
    assert(s.skip(0) =~= s);
    crate::text::lemma_trailing(s, white, 0);
    vstd::utf8::is_ascii_chars_encode_utf8(s);
    let b = frame(s);
    vstd::utf8::encode_utf8_valid_utf8(s);
    assert forall|k: int| 0 <= k <= s.len() implies #[trigger] cut(b, k) by {
        if k < s.len() {
            vstd::utf8::is_char_boundary_iff_not_is_continuation_byte(b, k);
        } else {
            vstd::utf8::is_char_boundary_start_end_of_seq(b);
        }
    }
}

/// A field of ASCII text reads as the characters that stand there.
pub proof fn lemma_ascii_number(s: Seq<char>, from: int, to: int, max: nat)
    requires
        vstd::utf8::is_ascii_chars(s),
        s.len() > 0,
        !crate::text::is_white(s[0]),
        !crate::text::is_white(s.last()),
        0 <= from <= to <= s.len(),
    ensures
        number(frame(s), from, to, max) == crate::text::unsigned_text(s.subrange(from, to), max),
{
    lemma_ascii_frame(s);
    let b = frame(s);
    assert(crate::text::latin1(b.subrange(from, to)) =~= crate::text::latin1(b).subrange(from, to));
}

/// The text of a status answer: frequency in eleven digits, fifteen
/// characters that are not looked at, transmit, mode and register digits, and
/// what follows.
pub open spec fn status_text(
    hz: nat,
    middle: Seq<char>,
    tx: nat,
    mode: nat,
    vfo: nat,
    tail: Seq<char>,
) -> Seq<char> {
    "IF"@ + crate::text::padded(hz, 11) + middle + seq![
        crate::text::digit_char(tx),
        crate::text::digit_char(mode),
        crate::text::digit_char(vfo),
    ] + tail
}

/// A status answer is read as what it says.
pub proof fn law_status_is_read(
    hz: nat,
    middle: Seq<char>,
    tx: nat,
    mode: nat,
    vfo: nat,
    tail: Seq<char>,
)
    requires
        hz <= crate::cat::commands::MAX_FREQ_HZ,
        middle.len() == 15,
        tx < 10,
        mode < 10,
        vfo < 10,
        tail.len() >= 2,
        vstd::utf8::is_ascii_chars(middle),
        vstd::utf8::is_ascii_chars(tail),
        !crate::text::is_white(tail.last()),
    ensures
        if_cuttable(status_text(hz, middle, tx, mode, vfo, tail)),
        if_status(frame(status_text(hz, middle, tx, mode, vfo, tail))) == Some(
            IfResponse {
                freq_hz: hz as u64,
                mode: mode_of_digit(mode),
                vfo: if vfo == 0 {
                    Vfo::A
                } else {
                    Vfo::B
                },
                tx: tx == 1,
            },
        ),
{
    reveal_strlit("IF");
    let digits = crate::text::padded(hz, 11);
    assert(vstd::arithmetic::power::pow(10, 11) == 100_000_000_000) by {
        reveal(vstd::arithmetic::power::pow);
        reveal_with_fuel(vstd::arithmetic::power::pow, 12);
    }
    crate::text::lemma_decimal_len(hz, 11);
    crate::text::lemma_padded(hz, 11);
    crate::text::lemma_padded_reads_back(hz, 11, u64::MAX as nat);
    let s = status_text(hz, middle, tx, mode, vfo, tail);
    assert(vstd::utf8::is_ascii_chars(s));
    lemma_ascii_frame(s);
    lemma_ascii_number(s, 2, 13, u64::MAX as nat);
    assert(s.subrange(2, 13) =~= digits);
    lemma_ascii_number(s, 28, 29, 255);
    lemma_ascii_number(s, 29, 30, 255);
    lemma_ascii_number(s, 30, 31, 255);
    lemma_digit_text(tx);
    lemma_digit_text(mode);
    lemma_digit_text(vfo);
    assert(s.subrange(28, 29) =~= seq![crate::text::digit_char(tx)]);
    assert(s.subrange(29, 30) =~= seq![crate::text::digit_char(mode)]);
    assert(s.subrange(30, 31) =~= seq![crate::text::digit_char(vfo)]);
}

proof fn lemma_digit_text(d: nat)
    requires
        d < 10,
    ensures
        crate::text::unsigned_text(seq![crate::text::digit_char(d)], 255) == Some(d),
{
    crate::text::lemma_padded_reads_back(d, 1, 255);
}

/// A filter that was set reads back, and with the label that it was chosen
/// by.
pub proof fn law_filter_reads_back(mode: Mode, index: nat)
    requires
        mode != Mode::Unknown,
        index < 100,
    ensures
        ({
            let text = crate::cat::commands::filter_text(mode_digit(mode)->0, index);
            &&& rf_cuttable(text)
            &&& rf_index(frame(text)) == Some(index)
            &&& label_of(mode, index as int) is Some ==> label_of(mode, index as int) == Some(
                rf_label(mode, index),
            )
        }),
{
    reveal_strlit("RF");
    reveal_strlit(";");
    let digits = crate::text::padded(index, 2);
    assert(vstd::arithmetic::power::pow(10, 2) == 100) by {
        reveal(vstd::arithmetic::power::pow);
        reveal_with_fuel(vstd::arithmetic::power::pow, 3);
    }
    crate::text::lemma_decimal_len(index, 2);
    crate::text::lemma_padded(index, 2);
    crate::text::lemma_padded_reads_back(index, 2, 255);
    let s = crate::cat::commands::filter_text(mode_digit(mode)->0, index);
    assert(vstd::utf8::is_ascii_chars(s));
    lemma_ascii_frame(s);
    lemma_ascii_number(s, 3, 5, 255);
    assert(s.subrange(3, 5) =~= digits);
}

/// A threshold that was set reads back.
pub proof fn law_threshold_reads_back(value: nat)
    requires
        value <= 10,
    ensures
        th_cuttable(crate::cat::commands::threshold_text(value)),
        th_threshold(frame(crate::cat::commands::threshold_text(value))) == Some(value),
{
    reveal_strlit("TH");
    reveal_strlit(";");
    let digits = crate::text::padded(value, 2);
    assert(vstd::arithmetic::power::pow(10, 2) == 100) by {
        reveal(vstd::arithmetic::power::pow);
        reveal_with_fuel(vstd::arithmetic::power::pow, 3);
    }
    crate::text::lemma_decimal_len(value, 2);
    crate::text::lemma_padded(value, 2);
    crate::text::lemma_padded_reads_back(value, 2, 10);
    let s = crate::cat::commands::threshold_text(value);
    assert(vstd::utf8::is_ascii_chars(s));
    lemma_ascii_frame(s);
    lemma_ascii_number(s, 2, 4, 10);
    assert(s.subrange(2, 4) =~= digits);
}

/// The radio numbers its modes from 1 to 7, and leaves out 6; no other number
/// is a mode. The two sidebands, and the two sides of CW, have different ones.
pub proof fn law_mode_numbers(digit: u8, r: Mode)
    requires
        call_ensures(kenwood_mode, (digit,), r),
    ensures
        r == Mode::Unknown <==> !(1 <= digit <= 7 && digit != 6),
        r != Mode::Unknown ==> mode_digit(r) == Some((48 + digit) as char),
        r == Mode::LSB <==> digit == 1,
        r == Mode::USB <==> digit == 2,
        r == Mode::CW <==> digit == 3,
        r == Mode::FM <==> digit == 4,
        r == Mode::AM <==> digit == 5,
        r == Mode::CWR <==> digit == 7,
{
}

/// A status answer is read as what it says: each field sets the value that it
/// stands for. The short form of a status says the same as the whole.
pub proof fn law_status_fields_are_read(
    text: &str,
    hz: nat,
    middle: Seq<char>,
    tx: nat,
    mode: nat,
    vfo: nat,
    tail: Seq<char>,
    r: Option<IfResponse>,
    short: Option<(u64, Mode, Vfo)>,
)
    requires
        hz <= crate::cat::commands::MAX_FREQ_HZ,
        middle.len() == 15,
        tx < 10,
        mode < 10,
        vfo < 10,
        tail.len() >= 2,
        vstd::utf8::is_ascii_chars(middle),
        vstd::utf8::is_ascii_chars(tail),
        !crate::text::is_white(tail.last()),
        text@ == seq!['I', 'F'] + crate::text::padded(hz, 11) + middle + seq![
            crate::text::digit_char(tx),
            crate::text::digit_char(mode),
            crate::text::digit_char(vfo),
        ] + tail,
        call_ensures(parse_if_response, (text,), r),
        call_ensures(parse_if_response_tuple, (text,), short),
    ensures
        r matches Some(s) && {
            &&& s.freq_hz == hz
            &&& s.tx <==> tx == 1
            &&& s.mode == Mode::Unknown || mode_digit(s.mode) == Some(crate::text::digit_char(mode))
            &&& s.mode == Mode::Unknown <==> mode == 0 || mode == 6 || mode > 7
            &&& s.vfo == Vfo::A <==> vfo == 0
            &&& short == Some((s.freq_hz, s.mode, s.vfo))
        },
{
    reveal_strlit("IF");
    assert("IF"@ =~= seq!['I', 'F']);
    law_status_is_read(hz, middle, tx, mode, vfo, tail);
}

/// An answer of another kind, or one that is too short for its fields, is
/// read as nothing.
pub proof fn law_other_answers_are_nothing(
    text: &str,
    status: Option<IfResponse>,
    level: Option<MeterLevel>,
    strength: Option<RssiField>,
    threshold: Option<u8>,
    filter: Option<u8>,
)
    requires
        call_ensures(parse_if_response, (text,), status),
        call_ensures(parse_sm_response, (text,), level),
        call_ensures(parse_ri_response, (text,), strength),
        call_ensures(parse_th_response, (text,), threshold),
        call_ensures(parse_rf_index, (text,), filter),
    ensures
        ({
            let b = vstd::utf8::encode_utf8(crate::text::trim(text@));
            &&& status is Some ==> b.len() >= 33 && b[0] == 73 && b[1] == 70
            &&& level is Some ==> b.len() >= 7 && b[0] == 83 && b[1] == 77
            &&& strength is Some ==> b.len() >= 8 && b[0] == 82 && b[1] == 73
            &&& threshold is Some ==> b.len() >= 5 && b[0] == 84 && b[1] == 72
            &&& filter is Some ==> b.len() >= 6 && b[0] == 82 && b[1] == 70
        }),
{
}

proof fn lemma_four_digits(n: nat)
    requires
        n < 10_000,
    ensures
        crate::text::padded(n, 4).len() == 4,
        crate::text::all_digits(crate::text::padded(n, 4)),
        crate::text::unsigned_text(crate::text::padded(n, 4), u16::MAX as nat) == Some(n),
{
    assert(vstd::arithmetic::power::pow(10, 4) == 10_000) by {
        reveal(vstd::arithmetic::power::pow);
        reveal_with_fuel(vstd::arithmetic::power::pow, 5);
    }
    crate::text::lemma_decimal_len(n, 4);
    crate::text::lemma_padded(n, 4);
    crate::text::lemma_padded_reads_back(n, 4, u16::MAX as nat);
}

/// A meter answer is read as the level of its reading, whichever meter it is
/// about.
pub proof fn law_meter_is_read(
    text: &str,
    which: char,
    reading: u16,
    r: Option<MeterLevel>,
    level: MeterLevel,
)
    requires
        '0' <= which <= '9',
        reading < 10_000,
        text@ == seq!['S', 'M', which] + crate::text::padded(reading as nat, 4) + seq![';'],
        call_ensures(parse_sm_response, (text,), r),
        call_ensures(level_of_reading, (reading,), level),
    ensures
        sm_cuttable(text@),
        r == Some(level),
{
    lemma_four_digits(reading as nat);
    let digits = crate::text::padded(reading as nat, 4);
    let s = text@;
    assert(vstd::utf8::is_ascii_chars(s));
    lemma_ascii_frame(s);
    lemma_ascii_number(s, 3, 7, u16::MAX as nat);
    assert(s.subrange(3, 7) =~= digits);
}

/// The readings that the manual lists for S0 to S9, and for every 10 dB above
/// it.
pub open spec fn s_readings() -> Seq<u16> {
    seq![0u16, 2, 3, 4, 5, 6, 8, 9, 10, 11]
}

/// The listed readings from S9 on.
pub open spec fn readings_above_s9() -> Seq<u16> {
    seq![11u16, 12, 14, 16, 18, 20, 22]
}

/// An S unit is 6 dB, up to S9 at -73 dBm, and from there the listed readings
/// are 10 dB apart.
pub proof fn law_s_units_are_six_decibels(k: int, a: MeterLevel, b: MeterLevel)
    ensures
        0 <= k < 10 && call_ensures(level_of_reading, (s_readings()[k],), a) ==> a.elevenths_dbm
            == 11 * (-73 - 6 * (9 - k)),
        0 <= k < 7 && call_ensures(level_of_reading, (readings_above_s9()[k],), b)
            ==> b.elevenths_dbm == 11 * (-73 + 10 * k),
{
}

/// A reading that the manual does not list lies between its neighbours.
pub proof fn law_readings_between_lie_between(
    n: u16,
    below: MeterLevel,
    level: MeterLevel,
    above: MeterLevel,
)
    requires
        0 < n < u16::MAX,
        call_ensures(level_of_reading, ((n - 1) as u16,), below),
        call_ensures(level_of_reading, (n,), level),
        call_ensures(level_of_reading, ((n + 1) as u16,), above),
    ensures
        below.elevenths_dbm <= level.elevenths_dbm <= above.elevenths_dbm <= 0,
        n <= 22 ==> below.elevenths_dbm < level.elevenths_dbm,
{
}

/// A signal strength is read with its sign and its number, negative behind a
/// minus alone, and not at all where the radio marks it as unreliable.
pub proof fn law_strength_is_read(
    text: &str,
    sign: char,
    digits: Seq<char>,
    r: Option<RssiField>,
)
    requires
        (sign as u32) < 128,
        digits.len() == 5,
        crate::text::all_digits(digits),
        text@ == seq!['R', 'I', sign] + digits + seq![';'],
        call_ensures(parse_ri_response, (text,), r),
    ensures
        ri_cuttable(text@),
        sign == '!' <==> r is None,
        r matches Some(f) ==> (f.negative <==> sign == '-') && f.magnitude@ == digits,
{
    let s = text@;
    assert(vstd::utf8::is_ascii_chars(s));
    lemma_ascii_frame(s);
    let b = frame(s);
    assert(b.subrange(3, 8) =~= vstd::utf8::encode_utf8(digits)) by {
        assert(vstd::utf8::is_ascii_chars(digits));
        vstd::utf8::is_ascii_chars_encode_utf8(digits);
        assert forall|k: int| 0 <= k < 5 implies b.subrange(3, 8)[k] == digits[k] as u8 by {
            assert(b[k + 3] == s[k + 3] as u8);
        }
    }
    vstd::utf8::encode_utf8_decode_utf8(digits);
    let white = |c: char| crate::text::is_white(c);
    assert(!crate::text::is_white(digits[0]) && !crate::text::is_white(digits.last()));
    crate::text::lemma_leading(digits, white, 0);
    assert(digits.skip(0) =~= digits);
    crate::text::lemma_trailing(digits, white, 0);
    assert(b[2] == s[2] as u8);
}

/// A threshold answer reads as the threshold that it says, and as nothing
/// where that is more than ten.
pub proof fn law_threshold_is_read(text: &str, value: nat, r: Option<u8>)
    requires
        value < 100,
        text@ == seq!['T', 'H'] + crate::text::padded(value, 2) + seq![';'],
        call_ensures(parse_th_response, (text,), r),
    ensures
        value <= 10 ==> r == Some(value as u8),
        value > 10 ==> r is None,
{
    assert(vstd::arithmetic::power::pow(10, 2) == 100) by {
        reveal(vstd::arithmetic::power::pow);
        reveal_with_fuel(vstd::arithmetic::power::pow, 3);
    }
    crate::text::lemma_decimal_len(value, 2);
    crate::text::lemma_padded(value, 2);
    let s = text@;
    assert(vstd::utf8::is_ascii_chars(s));
    lemma_ascii_frame(s);
    lemma_ascii_number(s, 2, 4, 10);
    assert(s.subrange(2, 4) =~= crate::text::padded(value, 2));
}

/// A filter answer reads as the index that it says, and with the label of
/// that filter in the mode that is asked about.
pub proof fn law_filter_is_read(
    text: &str,
    mode: Mode,
    digit: char,
    index: u8,
    i: Option<u8>,
    label: Option<String>,
)
    requires
        '0' <= digit <= '9',
        index < 100,
        text@ == seq!['R', 'F', digit] + crate::text::padded(index as nat, 2) + seq![';'],
        call_ensures(parse_rf_index, (text,), i),
        call_ensures(parse_rf_response, (text, mode), label),
    ensures
        i == Some(index),
        label matches Some(l) && match label_of(mode, index as int) {
            Some(known) => l@ == known,
            None => l@ == seq!['?'],
        },
{
    assert(vstd::arithmetic::power::pow(10, 2) == 100) by {
        reveal(vstd::arithmetic::power::pow);
        reveal_with_fuel(vstd::arithmetic::power::pow, 3);
    }
    crate::text::lemma_decimal_len(index as nat, 2);
    crate::text::lemma_padded(index as nat, 2);
    crate::text::lemma_padded_reads_back(index as nat, 2, 255);
    let s = text@;
    assert(vstd::utf8::is_ascii_chars(s));
    lemma_ascii_frame(s);
    lemma_ascii_number(s, 3, 5, 255);
    assert(s.subrange(3, 5) =~= crate::text::padded(index as nat, 2));
    reveal_strlit("?");
    assert("?"@ =~= seq!['?']);
}

/// The radio's own answers, which are ASCII, can always be read.
pub proof fn law_ascii_answers_can_be_read(
    text: &str,
    status: bool,
    level: bool,
    strength: bool,
    threshold: bool,
    filter: bool,
)
    requires
        vstd::utf8::is_ascii_chars(text@),
        text@.len() > 0,
        !crate::text::is_white(text@[0]),
        !crate::text::is_white(text@.last()),
        call_ensures(can_cut_if, (text,), status),
        call_ensures(can_cut_sm, (text,), level),
        call_ensures(can_cut_ri, (text,), strength),
        call_ensures(can_cut_th, (text,), threshold),
        call_ensures(can_cut_rf, (text,), filter),
    ensures
        status && level && strength && threshold && filter,
{
    lemma_ascii_frame(text@);
    let b = frame(text@);
    assert(b.len() >= 33 ==> cut(b, 13) && cut(b, 28) && cut(b, 29) && cut(b, 30) && cut(b, 31));
    assert(b.len() >= 7 ==> cut(b, 3) && cut(b, 7));
    assert(b.len() >= 8 ==> cut(b, 8));
    assert(b.len() >= 5 ==> cut(b, 4) && cut(b, 5));
}

/// The digit that a mode is asked about with is the one that it is set with.
pub proof fn law_modes_have_one_digit(mode: Mode, a: Option<char>, b: Option<char>)
    requires
        call_ensures(mode_char, (mode,), a),
        call_ensures(kenwood_mode_char, (mode,), b),
    ensures
        a == b,
        a is None <==> mode == Mode::Unknown,
        mode == Mode::LSB <==> a == Some('1'),
        mode == Mode::USB <==> a == Some('2'),
        mode == Mode::CW <==> a == Some('3'),
        mode == Mode::FM <==> a == Some('4'),
        mode == Mode::CWR <==> a == Some('7'),
        mode == Mode::AM ==> a == Some('5'),
{
}

/// A reading that the manual does not list lies on a straight line: up to
/// S9 on that from S0 to S9, and above it on that from S9 to 60 dB over S9,
/// which goes on up to 0 dBm.
pub proof fn law_unlisted_readings_lie_on_a_line(
    n: u16,
    s0: MeterLevel,
    s9: MeterLevel,
    strongest: MeterLevel,
    level: MeterLevel,
)
    requires
        call_ensures(level_of_reading, (0,), s0),
        call_ensures(level_of_reading, (11,), s9),
        call_ensures(level_of_reading, (22,), strongest),
        call_ensures(level_of_reading, (n,), level),
    ensures
        n == 1 || n == 7 ==> 11 * (level.elevenths_dbm - s0.elevenths_dbm) == n * (
        s9.elevenths_dbm - s0.elevenths_dbm),
        n > 12 && (n % 2 == 1 || n > 22) && level.elevenths_dbm < 0 ==> 11 * (level.elevenths_dbm
            - s9.elevenths_dbm) == (n - 11) * (strongest.elevenths_dbm - s9.elevenths_dbm),
        level.elevenths_dbm >= 0 ==> level.elevenths_dbm == 0 && 11 * -s9.elevenths_dbm <= (n - 11)
            * (strongest.elevenths_dbm - s9.elevenths_dbm),
{
    let low = s9.elevenths_dbm - s0.elevenths_dbm;
    let high = strongest.elevenths_dbm - s9.elevenths_dbm;
    assert(n * low == n * 594) by (nonlinear_arith)
        requires
            low == 594,
    ;
    assert((n - 11) * high == (n - 11) * 660) by (nonlinear_arith)
        requires
            high == 660,
    ;
}

} // verus!
