//! Tuning as it is shown and as it is typed: frequencies, modes, bandwidths
//! and offsets.
use crate::proto::filters::filter_labels;
use crate::proto::messages::RadioState;
use crate::proto::radio::{Mode, Vfo};
use crate::text::{
    chars_of, decimal, decimal_chars, is_digit, is_text, is_white, leading, lemma_decimal,
    lemma_leading, lemma_padded_reads_back, lemma_signed_reads_back, lemma_trailing,
    parse_signed, parse_unsigned, push_decimal,
    push_signed, same_text, signed_decimal, signed_text, string_of, trim, trimmed, unsigned_text,
};
use vstd::prelude::*;
use vstd::string::*;

verus! {

// ---------------------------------------------------------------------------
// Frequencies
// ---------------------------------------------------------------------------

/// The first `n` of these digits, with a space wherever a multiple of three
/// digits follows.
pub open spec fn spaced_to(d: Seq<char>, n: int) -> Seq<char>
    decreases n,
{
    if n <= 0 {
        Seq::empty()
    } else if n > 1 && (d.len() - (n - 1)) % 3 == 0 {
        spaced_to(d, n - 1).push(' ').push(d[n - 1])
    } else {
        spaced_to(d, n - 1).push(d[n - 1])
    }
}

/// A number with its digits in groups of three.
pub open spec fn spaced(n: nat) -> Seq<char> {
    spaced_to(decimal(n), decimal(n).len() as int)
}

/// A frequency with its digits in groups of three, such as `14 200 000`.
pub fn format_freq_spaced(hz: u64) -> (r: String)
    ensures
        r@ == spaced(hz as nat),
{
    let raw: Vec<char> = decimal_chars(hz);
    let len: usize = raw.len();
    let mut out: String = String::new();
    let mut i: usize = 0;
    while i < len
        invariant
            i <= len == raw@.len(),
            out@ == spaced_to(raw@, i as int),
        decreases len - i,
    {
        if i > 0 && (len - i) % 3 == 0 {
            out.push(' ');
        }
        out.push(raw[i]);
        i += 1;
    }
    out
}

/// A character that may stand between the digits of a typed frequency.
pub open spec fn is_separator(c: char) -> bool {
    c == '.' || c == ',' || c == ' '
}

/// Text without separators.
pub open spec fn without_separators(s: Seq<char>) -> Seq<char>
    decreases s.len(),
{
    if s.len() == 0 {
        Seq::empty()
    } else if is_separator(s.last()) {
        without_separators(s.drop_last())
    } else {
        without_separators(s.drop_last()).push(s.last())
    }
}

/// The frequency that was typed; `None` if it is no number.
pub fn freq_entry(text: &str) -> (r: Option<u64>)
    ensures
        match r {
            Some(hz) => unsigned_text(without_separators(text@), u64::MAX as nat) == Some(
                hz as nat,
            ),
            None => unsigned_text(without_separators(text@), u64::MAX as nat) is None,
        },
{
    let v: Vec<char> = chars_of(text);
    let mut kept: Vec<char> = Vec::new();
    let mut i: usize = 0;
    while i < v.len()
        invariant
            i <= v@.len(),
            kept@ == without_separators(v@.take(i as int)),
        decreases v@.len() - i,
    {
        let c: char = v[i];
        assert(v@.take(i + 1).drop_last() =~= v@.take(i as int));
        if !(c == '.' || c == ',' || c == ' ') {
            kept.push(c);
        }
        i += 1;
    }
    assert(v@.take(i as int) =~= text@);
    parse_unsigned(kept.as_slice(), 0xFFFF_FFFF_FFFF_FFFF)
}

proof fn lemma_spaces_go(d: Seq<char>, n: int)
    requires
        0 <= n <= d.len(),
        forall|k: int| 0 <= k < d.len() ==> is_digit(#[trigger] d[k]),
    ensures
        without_separators(spaced_to(d, n)) == d.take(n),
    decreases n,
{
    if n > 0 {
        lemma_spaces_go(d, n - 1);
        reveal_with_fuel(without_separators, 3);
        let before = spaced_to(d, n - 1);
        let all = spaced_to(d, n);
        if n > 1 && (d.len() - (n - 1)) % 3 == 0 {
            assert(all.drop_last() =~= before.push(' '));
            assert(before.push(' ').drop_last() =~= before);
        } else {
            assert(all.drop_last() =~= before);
        }
    }
}

/// A frequency can be typed as it is shown.
pub proof fn law_shown_frequency_can_be_typed(hz: nat)
    requires
        hz <= u64::MAX,
    ensures
        unsigned_text(without_separators(spaced(hz)), u64::MAX as nat) == Some(hz),
{
    let d = decimal(hz);
    lemma_decimal(hz);
    lemma_spaces_go(d, d.len() as int);
    assert(d.take(d.len() as int) =~= d);
    lemma_padded_reads_back(hz, 0, u64::MAX as nat);
}

// ---------------------------------------------------------------------------
// Other entries
// ---------------------------------------------------------------------------

/// The largest gain control threshold.
pub const MAX_AGC_THRESHOLD: u8 = 10;

/// The threshold that was typed, brought down to the largest; `None` if it is
/// no number up to 255.
pub fn agc_entry(text: &str) -> (r: Option<u8>)
    ensures
        match unsigned_text(trim(text@), 255) {
            Some(v) => r == Some(
                if v <= MAX_AGC_THRESHOLD {
                    v as u8
                } else {
                    MAX_AGC_THRESHOLD
                },
            ),
            None => r is None,
        },
{
    let v: Vec<char> = chars_of(text);
    match parse_unsigned(trimmed(v.as_slice()), 255) {
        Some(n) => Some(
            if n <= 10 {
                n as u8
            } else {
                MAX_AGC_THRESHOLD
            },
        ),
        None => None,
    }
}

/// The bandwidth in hertz that was typed.
pub fn bw_entry(text: &str) -> (r: Option<u32>)
    ensures
        match r {
            Some(v) => unsigned_text(trim(text@), u32::MAX as nat) == Some(v as nat),
            None => unsigned_text(trim(text@), u32::MAX as nat) is None,
        },
{
    let v: Vec<char> = chars_of(text);
    match parse_unsigned(trimmed(v.as_slice()), 0xFFFF_FFFF) {
        Some(n) => Some(n as u32),
        None => None,
    }
}

/// The offset in hertz that was typed.
pub fn offset_entry(text: &str) -> (r: Option<i32>)
    ensures
        match r {
            Some(v) => signed_text(trim(text@), i32::MIN as int, i32::MAX as int) == Some(v as int),
            None => signed_text(trim(text@), i32::MIN as int, i32::MAX as int) is None,
        },
{
    let v: Vec<char> = chars_of(text);
    parse_signed(trimmed(v.as_slice()))
}

/// An offset can be typed as it is shown, with its sign.
pub proof fn law_shown_offset_can_be_typed(hz: int)
    requires
        i32::MIN <= hz <= i32::MAX,
    ensures
        signed_text(signed_decimal(hz), i32::MIN as int, i32::MAX as int) == Some(hz),
{
    lemma_signed_reads_back(hz, i32::MIN as int, i32::MAX as int);
}

// ---------------------------------------------------------------------------
// Bandwidths
// ---------------------------------------------------------------------------

/// What a filter's label says of its bandwidth: a number of hertz for the
/// labels that are words, else the text of a number, in hertz or in
/// kilohertz.
#[derive(Debug)]
pub enum Bandwidth {
    Hertz(u32),
    Number { text: String, kilo: bool },
}

/// A [`Bandwidth`] as mathematics.
pub enum BandwidthView {
    Hertz(u32),
    Number { text: Seq<char>, kilo: bool },
}

impl View for Bandwidth {
    type V = BandwidthView;

    open spec fn view(&self) -> BandwidthView {
        match self {
            Bandwidth::Hertz(hz) => BandwidthView::Hertz(*hz),
            Bandwidth::Number { text, kilo } => BandwidthView::Number { text: text@, kilo: *kilo },
        }
    }
}

/// The number in a label: without the `D` of the digital filters in front, and
/// without what stands behind an ampersand.
pub open spec fn label_number(t: Seq<char>) -> Seq<char> {
    let d = if t.len() > 0 && t[0] == 'D' {
        t.skip(1)
    } else {
        t
    };
    d.take(leading(d, |c: char| c != '&') as int)
}

/// What a filter's label says of its bandwidth.
pub open spec fn label_bandwidth(label: Seq<char>) -> BandwidthView {
    let t = trim(label);
    let n = label_number(t);
    if t == "Narrow"@ {
        BandwidthView::Hertz(6_000)
    } else if t == "Wide"@ {
        BandwidthView::Hertz(15_000)
    } else if t == "Data"@ {
        BandwidthView::Hertz(9_000)
    } else if n.len() > 0 && n.last() == 'k' {
        BandwidthView::Number { text: n.drop_last(), kilo: true }
    } else {
        BandwidthView::Number { text: n, kilo: false }
    }
}

/// Reads a filter's label, such as `2.4k`, `500`, `100&4`, `D300`, `D1k` or
/// `Narrow`.
pub fn parse_filter_bw_hz(bw: &str) -> (r: Bandwidth)
    ensures
        r@ == label_bandwidth(bw@),
{
    let v: Vec<char> = chars_of(bw);
    let t: &[char] = trimmed(v.as_slice());
    if is_text(t, "Narrow") {
        return Bandwidth::Hertz(6_000);
    }
    if is_text(t, "Wide") {
        return Bandwidth::Hertz(15_000);
    }
    if is_text(t, "Data") {
        return Bandwidth::Hertz(9_000);
    }
    let from: usize = if t.len() > 0 && t[0] == 'D' {
        1
    } else {
        0
    };
    let d: &[char] = vstd::slice::slice_subrange(t, from, t.len());
    assert(d@ =~= if t@.len() > 0 && t@[0] == 'D' {
        t@.skip(1)
    } else {
        t@
    });
    let mut to: usize = 0;
    while to < d.len() && d[to] != '&'
        invariant
            to <= d@.len(),
            forall|k: int| 0 <= k < to ==> #[trigger] d@[k] != '&',
        decreases d@.len() - to,
    {
        to += 1;
    }
    proof {
        lemma_leading(d@, |c: char| c != '&', to as nat);
    }
    let n: &[char] = vstd::slice::slice_subrange(d, 0, to);
    if to > 0 && n[to - 1] == 'k' {
        let k: &[char] = vstd::slice::slice_subrange(n, 0, to - 1);
        Bandwidth::Number { text: string_of(k), kilo: true }
    } else {
        Bandwidth::Number { text: string_of(n), kilo: false }
    }
}

// ---------------------------------------------------------------------------
// Modes
// ---------------------------------------------------------------------------

/// A mode in markup, with subscripts for sideband variants.
pub open spec fn mode_label(mode: Mode) -> Seq<char> {
    match mode {
        Mode::AM => "AM"@,
        Mode::SAM => "SAM"@,
        Mode::SAMU => "SAM<sub>u</sub>"@,
        Mode::SAML => "SAM<sub>l</sub>"@,
        Mode::DSB => "DSB"@,
        Mode::LSB => "LSB"@,
        Mode::USB => "USB"@,
        Mode::CW => "CW<sub>u</sub>"@,
        Mode::CWR => "CW<sub>l</sub>"@,
        Mode::FM => "FM<sub>n</sub>"@,
        Mode::DRM => "DRM"@,
        Mode::Unknown => "—"@,
    }
}

/// A mode in markup, with subscripts for sideband variants.
pub fn mode_markup(mode: Mode) -> (r: &'static str)
    ensures
        r@ == mode_label(mode),
{
    match mode {
        Mode::AM => "AM",
        Mode::SAM => "SAM",
        Mode::SAMU => "SAM<sub>u</sub>",
        Mode::SAML => "SAM<sub>l</sub>",
        Mode::DSB => "DSB",
        Mode::LSB => "LSB",
        Mode::USB => "USB",
        Mode::CW => "CW<sub>u</sub>",
        Mode::CWR => "CW<sub>l</sub>",
        Mode::FM => "FM<sub>n</sub>",
        Mode::DRM => "DRM",
        Mode::Unknown => "—",
    }
}

// ---------------------------------------------------------------------------
// The tuning line
// ---------------------------------------------------------------------------

/// The tuning line: frequency, mode, bandwidth and the two offsets.
pub open spec fn tuning_text(
    freq: Seq<char>,
    mode: Seq<char>,
    bw: Seq<char>,
    rit: Seq<char>,
    shift: Seq<char>,
) -> Seq<char> {
    "<i>f</i> <span size='x-large'><b>"@ + freq + "</b></span> Hz   demod <b>"@ + mode
        + "</b>   <i>bw</i> <b>"@ + bw + "</b>   <i>RIT</i> <b>"@ + rit
        + "</b> Hz   <i>IF</i> <b>"@ + shift + "</b> Hz"@
}

fn tuning_line(freq: &str, mode: &str, bw: &str, rit: &str, shift: &str) -> (r: String)
    ensures
        r@ == tuning_text(freq@, mode@, bw@, rit@, shift@),
{
    let mut s: String = "<i>f</i> <span size='x-large'><b>".to_owned();
    s.append(freq);
    s.append("</b></span> Hz   demod <b>");
    s.append(mode);
    s.append("</b>   <i>bw</i> <b>");
    s.append(bw);
    s.append("</b>   <i>RIT</i> <b>");
    s.append(rit);
    s.append("</b> Hz   <i>IF</i> <b>");
    s.append(shift);
    s.append("</b> Hz");
    s
}

/// The tuning line before anything is known.
pub open spec fn no_tuning_text() -> Seq<char> {
    "<i>f</i> <span size='x-large'><b>—</b></span> Hz   demod <b>—</b>   <i>bw</i> <b>—</b> Hz   <i>RIT</i> <b>0</b> Hz   <i>IF</i> <b>0</b> Hz"@
}

/// The tuning line before anything is known.
pub fn fallback_tuning_markup() -> (r: String)
    ensures
        r@ == no_tuning_text(),
{
    "<i>f</i> <span size='x-large'><b>—</b></span> Hz   demod <b>—</b>   <i>bw</i> <b>—</b> Hz   <i>RIT</i> <b>0</b> Hz   <i>IF</i> <b>0</b> Hz".to_owned()
}

/// The receive offset in effect.
pub open spec fn rit_in_effect(state: RadioState) -> int {
    if state.rit_on {
        state.rit_hz as int
    } else {
        0
    }
}

/// The bandwidth that is shown: the formatted number where there is one, else
/// the radio's own label.
pub open spec fn shown_bandwidth(state: RadioState, formatted: Option<Seq<char>>) -> Seq<char> {
    match formatted {
        Some(t) => t,
        None => state.filter_bw@,
    }
}

/// A text that may be missing.
pub open spec fn opt_str(s: Option<&str>) -> Option<Seq<char>> {
    match s {
        Some(t) => Some(t@),
        None => None,
    }
}

fn signed(n: i32) -> (r: String)
    ensures
        r@ == signed_decimal(n as int),
{
    let mut s: String = String::new();
    push_signed(&mut s, n);
    s
}

fn rit_of(state: &RadioState) -> (r: i32)
    ensures
        r == rit_in_effect(*state),
{
    if state.rit_on {
        state.rit_hz
    } else {
        0
    }
}

/// The tuning line for what the radio reports. `formatted` is the bandwidth in
/// hertz as text, where the report has it.
pub fn format_tuning_markup(state: &RadioState, formatted: Option<&str>) -> (r: String)
    ensures
        r@ == tuning_text(
            spaced(state.freq_hz as nat),
            mode_label(state.mode),
            shown_bandwidth(*state, opt_str(formatted)),
            signed_decimal(rit_in_effect(*state)),
            signed_decimal(state.if_offset_hz as int),
        ),
{
    let freq: String = format_freq_spaced(state.freq_hz);
    let bw: &str = match formatted {
        Some(t) => t,
        None => state.filter_bw.as_str(),
    };
    let rit: String = signed(rit_of(state));
    let shift: String = signed(state.if_offset_hz);
    tuning_line(freq.as_str(), mode_markup(state.mode), bw, rit.as_str(), shift.as_str())
}

/// What the display last showed of the radio.
#[derive(Debug)]
pub struct CachedState {
    pub freq_hz: u64,
    pub mode: String,
    pub vfo: String,
    pub filter_bw: String,
    /// The signal reading in tenths.
    pub s_reading: u16,
    pub tx: bool,
}

/// A [`CachedState`] as mathematics.
pub struct CachedView {
    pub freq_hz: u64,
    pub mode: Seq<char>,
    pub vfo: Seq<char>,
    pub filter_bw: Seq<char>,
    pub s_reading: u16,
    pub tx: bool,
}

impl View for CachedState {
    type V = CachedView;

    open spec fn view(&self) -> CachedView {
        CachedView {
            freq_hz: self.freq_hz,
            mode: self.mode@,
            vfo: self.vfo@,
            filter_bw: self.filter_bw@,
            s_reading: self.s_reading,
            tx: self.tx,
        }
    }
}

/// The name of a tuning register.
pub open spec fn vfo_text(vfo: Vfo) -> Seq<char> {
    if vfo == Vfo::A {
        "VFO A"@
    } else {
        "VFO B"@
    }
}

impl CachedState {
    /// What the display shows of a report.
    pub fn of(state: &RadioState, s_reading: u16) -> (r: Self)
        ensures
            r@ == (CachedView {
                freq_hz: state.freq_hz,
                mode: mode_label(state.mode),
                vfo: vfo_text(state.vfo),
                filter_bw: state.filter_bw@,
                s_reading,
                tx: state.tx,
            }),
    {
        CachedState {
            freq_hz: state.freq_hz,
            mode: mode_markup(state.mode).to_owned(),
            vfo: match state.vfo {
                Vfo::A => "VFO A".to_owned(),
                Vfo::B => "VFO B".to_owned(),
            },
            filter_bw: state.filter_bw.clone(),
            s_reading,
            tx: state.tx,
        }
    }

    /// Whether the display would show the same.
    pub fn same(&self, other: &CachedState) -> (r: bool)
        ensures
            r == (self@ == other@),
    {
        self.freq_hz == other.freq_hz && self.s_reading == other.s_reading && self.tx == other.tx
            && same_text(self.mode.as_str(), other.mode.as_str()) && same_text(
            self.vfo.as_str(),
            other.vfo.as_str(),
        ) && same_text(self.filter_bw.as_str(), other.filter_bw.as_str())
    }
}

/// What is shown once a frequency has been typed, before the radio confirms
/// it.
pub open spec fn typed_freq(shown: Option<CachedView>, hz: u64) -> CachedView {
    match shown {
        Some(s) => CachedView { freq_hz: hz, ..s },
        None => CachedView {
            freq_hz: hz,
            mode: "USB"@,
            vfo: "VFO A"@,
            filter_bw: Seq::empty(),
            s_reading: 0,
            tx: false,
        },
    }
}

/// What the display shows, as mathematics.
pub open spec fn cached_view(shown: Option<CachedState>) -> Option<CachedView> {
    match shown {
        Some(s) => Some(s@),
        None => None,
    }
}

/// Shows a frequency before the radio confirms it.
pub fn set_freq_immediate(shown: Option<CachedState>, hz: u64) -> (r: CachedState)
    ensures
        r@ == typed_freq(cached_view(shown), hz),
{
    match shown {
        Some(s) => CachedState {
            freq_hz: hz,
            mode: s.mode,
            vfo: s.vfo,
            filter_bw: s.filter_bw,
            s_reading: s.s_reading,
            tx: s.tx,
        },
        None => CachedState {
            freq_hz: hz,
            mode: "USB".to_owned(),
            vfo: "VFO A".to_owned(),
            filter_bw: String::new(),
            s_reading: 0,
            tx: false,
        },
    }
}

/// The tuning line for what the display last showed, without offsets.
pub open spec fn cached_text(shown: Option<CachedView>) -> Seq<char> {
    match shown {
        Some(s) => tuning_text(
            spaced(s.freq_hz as nat),
            s.mode,
            if s.filter_bw.len() == 0 {
                "—"@
            } else {
                s.filter_bw
            },
            "0"@,
            "0"@,
        ),
        None => no_tuning_text(),
    }
}

/// The tuning line for what the display last showed.
pub fn current_tuning_markup(shown: Option<&CachedState>) -> (r: String)
    ensures
        r@ == cached_text(
            match shown {
                Some(s) => Some(s@),
                None => None,
            },
        ),
{
    match shown {
        Some(s) => {
            let freq: String = format_freq_spaced(s.freq_hz);
            let bw: &str = if s.filter_bw.as_str().is_empty() {
                "—"
            } else {
                s.filter_bw.as_str()
            };
            tuning_line(freq.as_str(), s.mode.as_str(), bw, "0", "0")
        },
        None => fallback_tuning_markup(),
    }
}

// ---------------------------------------------------------------------------
// Tiles
// ---------------------------------------------------------------------------

/// A tile with a name, a value and the unit of hertz.
pub open spec fn hertz_tile(name: Seq<char>, shown: Seq<char>) -> Seq<char> {
    "<i>"@ + name + "</i> "@ + shown + "<sup>Hz</sup>"@
}

fn tile(name: &str, shown: &str) -> (r: String)
    ensures
        r@ == hertz_tile(name@, shown@),
{
    let mut s: String = "<i>".to_owned();
    s.append(name);
    s.append("</i> ");
    s.append(shown);
    s.append("<sup>Hz</sup>");
    s
}

/// The tile of the gain control threshold.
pub fn agc_tile(threshold: u8) -> (r: String)
    ensures
        r@ == "<i>agc "@ + decimal(threshold as nat) + "</i>"@,
{
    let mut s: String = "<i>agc ".to_owned();
    push_decimal(&mut s, threshold as u64);
    s.append("</i>");
    s
}

/// The tile of the frequency.
pub fn freq_tile(hz: u64) -> (r: String)
    ensures
        r@ == hertz_tile("f"@, spaced(hz as nat)),
{
    tile("f", format_freq_spaced(hz).as_str())
}

/// The tile of a bandwidth that was typed.
pub fn bw_tile(hz: u32) -> (r: String)
    ensures
        r@ == hertz_tile("bw"@, decimal(hz as nat)),
{
    let mut n: String = String::new();
    push_decimal(&mut n, hz as u64);
    tile("bw", n.as_str())
}

/// The tile of the receive offset.
pub fn rit_tile(hz: i32) -> (r: String)
    ensures
        r@ == hertz_tile("rit"@, signed_decimal(hz as int)),
{
    tile("rit", signed(hz).as_str())
}

/// The tile of the IF shift.
pub fn if_tile(hz: i32) -> (r: String)
    ensures
        r@ == hertz_tile("IF"@, signed_decimal(hz as int)),
{
    tile("IF", signed(hz).as_str())
}

/// The tiles as the radio's report sets them.
#[derive(Debug)]
pub struct Tiles {
    pub freq: String,
    pub bw: String,
    pub rit: String,
    pub shift: String,
}

/// The bandwidth on its tile: the formatted number, else the radio's label,
/// else a dash.
pub open spec fn tile_bandwidth(state: RadioState, formatted: Option<Seq<char>>) -> Seq<char> {
    let t = shown_bandwidth(state, formatted);
    if formatted is None && t.len() == 0 {
        "—"@
    } else {
        t
    }
}

/// The tiles for what the radio reports. `formatted` is the bandwidth in hertz
/// as text, where the report has it.
pub fn sync_from_radio(state: &RadioState, formatted: Option<&str>) -> (r: Tiles)
    ensures
        r.freq@ == hertz_tile("f"@, spaced(state.freq_hz as nat)),
        r.bw@ == "<i>bw</i> "@ + tile_bandwidth(*state, opt_str(formatted)),
        r.rit@ == hertz_tile("rit"@, signed_decimal(rit_in_effect(*state))),
        r.shift@ == hertz_tile("IF"@, signed_decimal(state.if_offset_hz as int)),
{
    let bw: &str = match formatted {
        Some(t) => t,
        None => if state.filter_bw.as_str().is_empty() {
            "—"
        } else {
            state.filter_bw.as_str()
        },
    };
    Tiles {
        freq: freq_tile(state.freq_hz),
        bw: "<i>bw</i> ".to_owned().concat(bw),
        rit: rit_tile(rit_of(state)),
        shift: if_tile(state.if_offset_hz),
    }
}

/// An offset that is switched off shows as none.
pub proof fn law_offset_off_shows_zero(state: RadioState)
    requires
        !state.rit_on,
    ensures
        signed_decimal(rit_in_effect(state)) == seq!['+', '0'],
{
}

/// A text writes a decimal number above zero: digits, among them one that is
/// not zero, and at most one point.
pub open spec fn writes_positive_number(text: Seq<char>) -> bool {
    &&& forall|k: int| 0 <= k < text.len() ==> is_digit(#[trigger] text[k]) || text[k] == '.'
    &&& forall|j: int, k: int|
        0 <= j < k < text.len() ==> !(#[trigger] text[j] == '.' && #[trigger] text[k] == '.')
    &&& exists|k: int| 0 <= k < text.len() && '1' <= #[trigger] text[k] <= '9'
}

/// A bandwidth is above zero.
pub open spec fn is_positive(bw: BandwidthView) -> bool {
    match bw {
        BandwidthView::Hertz(hz) => hz > 0,
        BandwidthView::Number { text, .. } => writes_positive_number(text),
    }
}

/// Every filter that a mode offers has a label that tells a bandwidth above
/// zero.
pub proof fn law_filter_labels_tell_a_bandwidth(mode: Mode, k: int)
    requires
        0 <= k < filter_labels(mode).len(),
    ensures
        is_positive(label_bandwidth(filter_labels(mode)[k])),
{
    let label = filter_labels(mode)[k];
    if mode == Mode::LSB || mode == Mode::USB {
        reveal_strlit("1.6k");
        reveal_strlit("1.7k");
        reveal_strlit("1.8k");
        reveal_strlit("1.9k");
        reveal_strlit("2.0k");
        reveal_strlit("2.1k");
        reveal_strlit("2.2k");
        reveal_strlit("2.3k");
        reveal_strlit("2.4k");
        reveal_strlit("2.5k");
        reveal_strlit("2.6k");
        reveal_strlit("2.7k");
        reveal_strlit("2.8k");
        reveal_strlit("2.9k");
        reveal_strlit("3.0k");
        reveal_strlit("3.1k");
        reveal_strlit("4.0k");
        reveal_strlit("5.0k");
        reveal_strlit("6.0k");
        reveal_strlit("D300");
        reveal_strlit("D600");
        reveal_strlit("D1k");
        if k < 19 {
            lemma_label_in_kilohertz(label);
        } else if k < 21 {
            lemma_label_in_hertz(label, 1);
        } else {
            lemma_named_labels(label);
            lemma_untrimmed(label);
            let d = label.skip(1);
            lemma_leading(d, |c: char| c != '&', 2);
            assert(label_bandwidth(label)->text[0] == '1');
        }
    } else if mode == Mode::CW || mode == Mode::CWR {
        reveal_strlit("100&4");
        reveal_strlit("100&3");
        reveal_strlit("100&2");
        reveal_strlit("100&1");
        reveal_strlit("100");
        reveal_strlit("300");
        reveal_strlit("500");
        reveal_strlit("1.0k");
        reveal_strlit("1.5k");
        reveal_strlit("2.6k");
        if k < 7 {
            lemma_label_in_hertz(label, 0);
        } else {
            lemma_label_in_kilohertz(label);
        }
    } else if mode == Mode::FM {
        reveal_strlit("Narrow");
        reveal_strlit("Wide");
        reveal_strlit("Data");
        lemma_untrimmed(label);
    } else {
        reveal_strlit("2.5k");
        reveal_strlit("3.0k");
        reveal_strlit("3.5k");
        reveal_strlit("4.0k");
        reveal_strlit("4.5k");
        reveal_strlit("5.0k");
        reveal_strlit("5.5k");
        reveal_strlit("6.0k");
        lemma_label_in_kilohertz(label);
    }
}

/// A label without white space at its ends is not trimmed.
proof fn lemma_untrimmed(label: Seq<char>)
    requires
        label.len() > 0,
        !is_white(label[0]),
        !is_white(label.last()),
    ensures
        trim(label) == label,
{
    let blank = |c: char| is_white(c);
    lemma_leading(label, blank, 0);
    lemma_trailing(label, blank, 0);
}

/// A label such as `2.4k`.
proof fn lemma_label_in_kilohertz(label: Seq<char>)
    requires
        label.len() == 4,
        '1' <= label[0] <= '9',
        label[1] == '.',
        is_digit(label[2]),
        label[3] == 'k',
    ensures
        label_bandwidth(label) == (BandwidthView::Number { text: label.take(3), kilo: true }),
        writes_positive_number(label.take(3)),
{
    lemma_named_labels(label);
    lemma_untrimmed(label);
    lemma_leading(label, |c: char| c != '&', 4);
    assert(label.take(4) =~= label);
}

/// A label such as `500` or `100&4`, behind `from` letters `D`.
proof fn lemma_label_in_hertz(label: Seq<char>, from: int)
    requires
        0 <= from <= 1,
        label.len() >= from + 3,
        from == 1 ==> label[0] == 'D',
        '1' <= label[from] <= '9',
        label[from + 1] == '0',
        label[from + 2] == '0',
        label.len() > from + 3 ==> label[from + 3] == '&',
        !is_white(label.last()),
    ensures
        label_bandwidth(label) == (BandwidthView::Number {
            text: label.subrange(from, from + 3),
            kilo: false,
        }),
        writes_positive_number(label.subrange(from, from + 3)),
{
    lemma_named_labels(label);
    lemma_untrimmed(label);
    let d = if from == 1 {
        label.skip(1)
    } else {
        label
    };
    lemma_leading(d, |c: char| c != '&', 3);
    let n = label.subrange(from, from + 3);
    assert(d.take(3) =~= n);
}

/// A label with a digit at its front, or behind one letter, is none of the
/// names.
proof fn lemma_named_labels(label: Seq<char>)
    requires
        label.len() >= 2,
        is_digit(label[0]) || is_digit(label[1]),
    ensures
        label != "Narrow"@,
        label != "Wide"@,
        label != "Data"@,
{
    reveal_strlit("Narrow");
    reveal_strlit("Wide");
    reveal_strlit("Data");
}

// ---------------------------------------------------------------------------
// Laws of what is shown and typed
// ---------------------------------------------------------------------------

/// How long a number of `len` digits becomes with its spaces.
pub open spec fn spaced_len(len: int) -> int {
    len + (len - 1) / 3
}

proof fn lemma_groups(d: Seq<char>, n: int)
    requires
        1 <= n <= d.len(),
        forall|k: int| 0 <= k < d.len() ==> is_digit(#[trigger] d[k]),
    ensures
        spaced_to(d, n).len() == spaced_len(d.len() as int) - (d.len() - n) - (d.len() - n) / 3,
        forall|i: int|
            0 <= i < spaced_to(d, n).len() ==> (#[trigger] spaced_to(d, n)[i] == ' ' <==> (
            spaced_len(d.len() as int) - 1 - i) % 4 == 3),
    decreases n,
{
    let total = spaced_len(d.len() as int);
    if n == 1 {
        reveal_with_fuel(spaced_to, 2);
        let l = d.len() as int;
        assert(spaced_to(d, 1) =~= seq![d[0]]);
        assert(is_digit(d[0]));
        assert((l - 1 + (l - 1) / 3) % 4 != 3) by {
            let m = (l - 1) / 3;
            let r = (l - 1) % 3;
            assert(l - 1 == 3 * m + r);
            assert(l - 1 + m == 4 * m + r);
        }
    } else {
        lemma_groups(d, n - 1);
        assert(is_digit(d[n - 1]));
        let left = d.len() - (n - 1);
        let m = left / 3;
        let r = left % 3;
        assert(left == 3 * m + r);
        assert(left + m == 4 * m + r);
        assert((left - 1) / 3 == if r == 0 {
            m - 1
        } else {
            m
        });
    }
}

/// The digits of a frequency stand in groups of three, counted from the
/// right: every fourth character from the end is a space, and no other.
pub proof fn law_digits_stand_in_groups_of_three(hz: u64, r: String, i: int)
    requires
        call_ensures(format_freq_spaced, (hz,), r),
        0 <= i < r@.len(),
    ensures
        r@[r@.len() - 1 - i] == ' ' <==> i % 4 == 3,
{
    let d = decimal(hz as nat);
    lemma_decimal(hz as nat);
    lemma_groups(d, d.len() as int);
}

/// A number that is typed is the number that was meant, with white space
/// around it or not. A threshold never exceeds ten.
pub proof fn law_entries_are_read(
    text: &str,
    before: Seq<char>,
    after: Seq<char>,
    n: u32,
    agc: Option<u8>,
    bw: Option<u32>,
)
    requires
        forall|k: int| 0 <= k < before.len() ==> crate::text::is_white(#[trigger] before[k]),
        forall|k: int| 0 <= k < after.len() ==> crate::text::is_white(#[trigger] after[k]),
        text@ == before + decimal(n as nat) + after,
        call_ensures(agc_entry, (text,), agc),
        call_ensures(bw_entry, (text,), bw),
    ensures
        bw == Some(n),
        n <= 10 ==> agc == Some(n as u8),
        10 < n <= 255 ==> agc == Some(10u8),
        n > 255 ==> agc is None,
{
    let d = decimal(n as nat);
    lemma_decimal(n as nat);
    assert(is_digit(d[0]) && is_digit(d.last()));
    crate::text::law_trimming_keeps_the_text(before, d, after);
    lemma_padded_reads_back(n as nat, 0, u32::MAX as nat);
    if n <= 255 {
        lemma_padded_reads_back(n as nat, 0, 255);
    }
    assert(!(d[0] == '+'));
}

/// An offset that is typed with its sign is that offset.
pub proof fn law_offsets_are_read(
    text: &str,
    before: Seq<char>,
    after: Seq<char>,
    n: i32,
    r: Option<i32>,
)
    requires
        forall|k: int| 0 <= k < before.len() ==> crate::text::is_white(#[trigger] before[k]),
        forall|k: int| 0 <= k < after.len() ==> crate::text::is_white(#[trigger] after[k]),
        text@ == before + signed_decimal(n as int) + after,
        call_ensures(offset_entry, (text,), r),
    ensures
        r == Some(n),
{
    let d = signed_decimal(n as int);
    lemma_signed_reads_back(n as int, i32::MIN as int, i32::MAX as int);
    let digits = if n < 0 {
        decimal((-n) as nat)
    } else {
        decimal(n as nat)
    };
    lemma_decimal(
        if n < 0 {
            (-n) as nat
        } else {
            n as nat
        },
    );
    assert(d.last() == digits.last());
    assert(is_digit(digits.last()));
    crate::text::law_trimming_keeps_the_text(before, d, after);
}

/// A frequency that is typed, with or without separators, is that frequency;
/// what is shown of it can be typed again.
pub proof fn law_frequencies_are_read(hz: u64, shown: String, text: &str, r: Option<u64>)
    requires
        call_ensures(format_freq_spaced, (hz,), shown),
        text@ == shown@,
        call_ensures(freq_entry, (text,), r),
    ensures
        r == Some(hz),
{
    law_shown_frequency_can_be_typed(hz as nat);
}

/// Points, commas and spaces between the digits do not matter.
pub proof fn law_separators_do_not_matter(a: Seq<char>, c: char)
    ensures
        without_separators(a.push(c)) == if c == '.' || c == ',' || c == ' ' {
            without_separators(a)
        } else {
            without_separators(a).push(c)
        },
        without_separators(Seq::empty()) == Seq::<char>::empty(),
{
    assert(a.push(c).drop_last() =~= a);
}

/// A label is read as its number: in kilohertz with a `k` behind it, in hertz
/// without; a `D` in front and anything behind an ampersand do not count.
pub proof fn law_labels_are_read_as_their_number(
    label: &str,
    digital: bool,
    number: Seq<char>,
    kilo: bool,
    tail: Seq<char>,
    r: Bandwidth,
)
    requires
        number.len() > 0,
        is_digit(number[0]),
        forall|k: int| 0 <= k < number.len() ==> is_digit(#[trigger] number[k]) || number[k] == '.',
        tail.len() > 0 ==> tail[0] == '&' && !is_white(tail.last()),
        label@ == (if digital {
            seq!['D']
        } else {
            Seq::empty()
        }) + number + (if kilo {
            seq!['k']
        } else {
            Seq::empty()
        }) + tail,
        call_ensures(parse_filter_bw_hz, (label,), r),
    ensures
        r@ == (BandwidthView::Number { text: number, kilo }),
{
    let front = if digital {
        seq!['D']
    } else {
        Seq::<char>::empty()
    };
    let mark = if kilo {
        seq!['k']
    } else {
        Seq::<char>::empty()
    };
    let l = label@;
    let core = number + mark;
    assert(l[front.len() as int] == number[0]);
    assert(l =~= front + core + tail);
    if l.len() >= 2 {
        lemma_named_labels(l);
    } else {
        reveal_strlit("Narrow");
        reveal_strlit("Wide");
        reveal_strlit("Data");
    }
    assert(!is_white(l[0]));
    assert(!is_white(l.last())) by {
        if tail.len() > 0 {
            assert(l.last() == tail.last());
        } else {
            assert(l.last() == core.last());
            if !kilo {
                assert(core.last() == number[number.len() - 1]);
            }
        }
    }
    lemma_untrimmed(l);
    let d = if l[0] == 'D' {
        l.skip(1)
    } else {
        l
    };
    assert(d =~= core + tail);
    assert forall|k: int| 0 <= k < core.len() implies #[trigger] core[k] != '&' by {
        if k < number.len() {
            assert(core[k] == number[k]);
        }
    }
    let p = |c: char| c != '&';
    assert forall|k: int| 0 <= k < core.len() implies #[trigger] p(d[k]) by {
        assert(d[k] == core[k]);
    }
    lemma_leading(d, p, core.len());
    assert(d.take(core.len() as int) =~= core);
    if kilo {
        assert(core.drop_last() =~= number);
    } else {
        assert(core =~= number);
        assert(number.last() == number[number.len() - 1]);
    }
}

/// The three labels that are words stand for 6, 15 and 9 kHz.
pub proof fn law_words_stand_for_their_bandwidth(
    a: &str,
    b: &str,
    c: &str,
    narrow: Bandwidth,
    wide: Bandwidth,
    data: Bandwidth,
)
    requires
        a@ == "Narrow"@,
        b@ == "Wide"@,
        c@ == "Data"@,
        call_ensures(parse_filter_bw_hz, (a,), narrow),
        call_ensures(parse_filter_bw_hz, (b,), wide),
        call_ensures(parse_filter_bw_hz, (c,), data),
    ensures
        narrow@ == BandwidthView::Hertz(6_000),
        wide@ == BandwidthView::Hertz(15_000),
        data@ == BandwidthView::Hertz(9_000),
{
    reveal_strlit("Narrow");
    reveal_strlit("Wide");
    reveal_strlit("Data");
    lemma_untrimmed("Narrow"@);
    lemma_untrimmed("Wide"@);
    lemma_untrimmed("Data"@);
    assert("Narrow"@[0] == 'N' && "Wide"@[0] == 'W' && "Data"@[0] == 'D');
}

/// The tuning line shows the frequency, the mode, the bandwidth and the two
/// offsets of the radio, each behind its own name. The receive offset counts
/// only while it is on.
pub proof fn law_the_tuning_line_shows_the_radio(
    state: &RadioState,
    formatted: Option<&str>,
    freq: String,
    mode: &'static str,
    r: String,
)
    requires
        call_ensures(format_tuning_markup, (state, formatted), r),
        call_ensures(format_freq_spaced, (state.freq_hz,), freq),
        call_ensures(mode_markup, (state.mode,), mode),
    ensures
        r@ == "<i>f</i> <span size='x-large'><b>"@ + freq@ + "</b></span> Hz   demod <b>"@ + mode@
            + "</b>   <i>bw</i> <b>"@ + (match formatted {
            Some(t) => t@,
            None => state.filter_bw@,
        }) + "</b>   <i>RIT</i> <b>"@ + signed_decimal(
            if state.rit_on {
                state.rit_hz as int
            } else {
                0
            },
        ) + "</b> Hz   <i>IF</i> <b>"@ + signed_decimal(state.if_offset_hz as int) + "</b> Hz"@,
{
}

/// The modes are shown by their names, with the side as a subscript where
/// there are two, and FM as the narrow one. A dash stands for no mode.
pub proof fn law_modes_are_shown_by_their_names(mode: Mode, r: &'static str)
    requires
        call_ensures(mode_markup, (mode,), r),
    ensures
        mode == Mode::CW ==> r@ == "CW<sub>u</sub>"@,
        mode == Mode::CWR ==> r@ == "CW<sub>l</sub>"@,
        mode == Mode::SAMU ==> r@ == "SAM<sub>u</sub>"@,
        mode == Mode::SAML ==> r@ == "SAM<sub>l</sub>"@,
        mode == Mode::FM ==> r@ == "FM<sub>n</sub>"@,
        mode == Mode::SAM ==> r@ == "SAM"@,
        mode == Mode::DSB ==> r@ == "DSB"@,
        mode == Mode::Unknown ==> r@ == "—"@,
        mode == Mode::AM || mode == Mode::LSB || mode == Mode::USB || mode == Mode::DRM ==> r@
            == crate::client::params::mode_name(mode),
{
}

/// A typed frequency is shown at once, and nothing else of the display
/// changes. Where nothing was shown it is that of an idle receiver.
pub proof fn law_typed_frequencies_are_shown_at_once(
    shown: Option<CachedState>,
    hz: u64,
    r: CachedState,
)
    requires
        call_ensures(set_freq_immediate, (shown, hz), r),
    ensures
        r.freq_hz == hz,
        match shown {
            Some(s) => r.mode@ == s.mode@ && r.vfo@ == s.vfo@ && r.filter_bw@ == s.filter_bw@
                && r.s_reading == s.s_reading && r.tx == s.tx,
            None => r.mode@ == "USB"@ && r.vfo@ == "VFO A"@ && r.filter_bw@.len() == 0
                && r.s_reading == 0 && !r.tx,
        },
{
}

/// What the display remembers of a report is what it shows of it, and it is
/// drawn again if and only if any of that differs.
pub proof fn law_the_display_remembers_what_it_shows(
    state: &RadioState,
    reading: u16,
    mode: &'static str,
    a: CachedState,
    b: &CachedState,
    same: bool,
)
    requires
        call_ensures(CachedState::of, (state, reading), a),
        call_ensures(mode_markup, (state.mode,), mode),
        call_ensures(CachedState::same, (&a, b), same),
    ensures
        a.freq_hz == state.freq_hz && a.mode@ == mode@ && a.filter_bw@ == state.filter_bw@,
        a.s_reading == reading && a.tx == state.tx,
        state.vfo == Vfo::A ==> a.vfo@ == "VFO A"@,
        state.vfo == Vfo::B ==> a.vfo@ == "VFO B"@,
        same <==> a.freq_hz == b.freq_hz && a.mode@ == b.mode@ && a.vfo@ == b.vfo@ && a.filter_bw@
            == b.filter_bw@ && a.s_reading == b.s_reading && a.tx == b.tx,
{
}

/// The tuning line without a report shows the frequency, mode and bandwidth
/// that were shown last, and no offsets.
pub proof fn law_the_last_tuning_is_shown_without_offsets(
    s: &CachedState,
    freq: String,
    r: String,
)
    requires
        call_ensures(current_tuning_markup, (Some(s),), r),
        call_ensures(format_freq_spaced, (s.freq_hz,), freq),
    ensures
        r@ == "<i>f</i> <span size='x-large'><b>"@ + freq@ + "</b></span> Hz   demod <b>"@
            + s.mode@ + "</b>   <i>bw</i> <b>"@ + (if s.filter_bw@.len() == 0 {
            "—"@
        } else {
            s.filter_bw@
        }) + "</b>   <i>RIT</i> <b>"@ + "0"@ + "</b> Hz   <i>IF</i> <b>"@ + "0"@ + "</b> Hz"@,
{
}

/// Each tile shows its own value under its own name.
pub proof fn law_tiles_show_their_own_values(
    hz: u64,
    offset: i32,
    bw: u32,
    threshold: u8,
    shown: String,
    f: String,
    b: String,
    rit: String,
    shift: String,
    agc: String,
)
    requires
        call_ensures(format_freq_spaced, (hz,), shown),
        call_ensures(freq_tile, (hz,), f),
        call_ensures(bw_tile, (bw,), b),
        call_ensures(rit_tile, (offset,), rit),
        call_ensures(if_tile, (offset,), shift),
        call_ensures(agc_tile, (threshold,), agc),
    ensures
        f@ == "<i>"@ + "f"@ + "</i> "@ + shown@ + "<sup>Hz</sup>"@,
        b@ == "<i>"@ + "bw"@ + "</i> "@ + decimal(bw as nat) + "<sup>Hz</sup>"@,
        rit@ == "<i>"@ + "rit"@ + "</i> "@ + signed_decimal(offset as int) + "<sup>Hz</sup>"@,
        shift@ == "<i>"@ + "IF"@ + "</i> "@ + signed_decimal(offset as int) + "<sup>Hz</sup>"@,
        agc@ == "<i>agc "@ + decimal(threshold as nat) + "</i>"@,
{
}

/// A report sets every tile as if its value had been typed; the bandwidth is
/// shown as it is formatted, else by the radio's label, else by a dash.
pub proof fn law_reports_set_the_tiles(
    state: &RadioState,
    formatted: Option<&str>,
    f: String,
    rit: String,
    shift: String,
    r: Tiles,
)
    requires
        call_ensures(sync_from_radio, (state, formatted), r),
        call_ensures(freq_tile, (state.freq_hz,), f),
        call_ensures(
            rit_tile,
            (if state.rit_on {
                state.rit_hz
            } else {
                0
            },),
            rit,
        ),
        call_ensures(if_tile, (state.if_offset_hz,), shift),
    ensures
        r.freq@ == f@,
        r.rit@ == rit@,
        r.shift@ == shift@,
        r.bw@ == "<i>bw</i> "@ + (match formatted {
            Some(t) => t@,
            None => if state.filter_bw@.len() == 0 {
                "—"@
            } else {
                state.filter_bw@
            },
        }),
{
}

/// Where nothing was shown before, the tuning line has dashes for what is
/// unknown and no offsets.
pub proof fn law_unknown_tuning_is_shown_as_dashes(empty: String, r: String)
    requires
        call_ensures(fallback_tuning_markup, (), empty),
        call_ensures(current_tuning_markup, (None::<&CachedState>,), r),
    ensures
        r@ == empty@,
        r@ == "<i>f</i> <span size='x-large'><b>—</b></span> Hz   demod <b>—</b>   <i>bw</i> <b>—</b> Hz   <i>RIT</i> <b>0</b> Hz   <i>IF</i> <b>0</b> Hz"@,
{
}

} // verus!
