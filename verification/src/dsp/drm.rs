//! The DRM decoder process: how it is started, what its screen says, and what
//! its end means.
//!
//! The decoder writes its status to a text screen, line by line. A line names
//! a value and shows it, or three dashes where there is none yet; the last
//! line of a screen completes a report. Numbers stay text here: the caller
//! reads them.
use crate::dsp::error::{DspError, DspErrorView};
use crate::text::{
    chars_of, decimal, has_prefix, is_digit, is_white, leading, lemma_leading, lemma_trailing,
    parse_unsigned, push_decimal, starts_with, string_of, trailing, trim, trimmed, unsigned_text,
    white,
};
use vstd::prelude::*;
use vstd::string::*;

verus! {

// ---------------------------------------------------------------------------
// Starting the decoder
// ---------------------------------------------------------------------------

/// Where the decoder reads its samples.
pub open spec fn loopback_to_decoder() -> Seq<char> {
    "plughw:Loopback,1,0"@
}

/// Where the decoder writes the audio.
pub open spec fn loopback_from_decoder() -> Seq<char> {
    "plughw:Loopback,0,1"@
}

/// How the decoder is run.
#[derive(Debug, Clone)]
pub struct DrmConfig {
    /// Path of the decoder program.
    pub dream_binary: String,
    /// Sample rate; the decoder takes 24, 48, 96 or 192 kHz.
    pub dream_rate: u32,
    /// Whether the decoder is to mirror the spectrum.
    pub flip_spectrum: bool,
}

/// A rate that the decoder takes.
pub open spec fn is_decoder_rate(rate: int) -> bool {
    rate == 24_000 || rate == 48_000 || rate == 96_000 || rate == 192_000
}

impl Default for DrmConfig {
    fn default() -> (r: Self)
        ensures
            r.dream_binary@ == "dream"@,
            r.dream_rate == 48_000,
            !r.flip_spectrum,
            is_decoder_rate(r.dream_rate as int),
    {
        DrmConfig { dream_binary: "dream".to_owned(), dream_rate: 48_000, flip_spectrum: false }
    }
}

/// Where the decoder gets its signal.
#[derive(Debug, Clone, Copy, PartialEq, Eq, Structural)]
pub enum DrmInput {
    /// From the demodulator, by way of a sound loop.
    AudioBroadcast,
    /// From a file that the decoder opens itself.
    File,
}

/// An argument of the decoder.
#[derive(Debug)]
pub enum DreamArg {
    Text(String),
    /// The path of the input file.
    InputFile,
}

/// An argument of the decoder, as mathematics.
pub enum DreamArgView {
    Text(Seq<char>),
    InputFile,
}

impl View for DreamArg {
    type V = DreamArgView;

    open spec fn view(&self) -> DreamArgView {
        match self {
            DreamArg::Text(s) => DreamArgView::Text(s@),
            DreamArg::InputFile => DreamArgView::InputFile,
        }
    }
}

/// The decoder's arguments: where it reads and writes, its two rates, and the
/// mirror switch, which takes a number.
pub open spec fn dream_arguments(config: DrmConfig, input: DrmInput) -> Seq<DreamArgView> {
    let source = match input {
        DrmInput::AudioBroadcast => seq![
            DreamArgView::Text("-I"@),
            DreamArgView::Text(loopback_to_decoder()),
        ],
        DrmInput::File => seq![DreamArgView::Text("-f"@), DreamArgView::InputFile],
    };
    let rest = seq![
        DreamArgView::Text("-O"@),
        DreamArgView::Text(loopback_from_decoder()),
        DreamArgView::Text("--sigsrate"@),
        DreamArgView::Text(decimal(config.dream_rate as nat)),
        DreamArgView::Text("--audsrate"@),
        DreamArgView::Text(decimal(config.dream_rate as nat)),
    ];
    let flip = if config.flip_spectrum {
        seq![DreamArgView::Text("-p"@), DreamArgView::Text("1"@)]
    } else {
        Seq::empty()
    };
    source + rest + flip
}

/// The views of a list of arguments.
pub open spec fn arg_views(args: Seq<DreamArg>) -> Seq<DreamArgView> {
    Seq::new(args.len(), |k: int| args[k]@)
}

fn push_arg(out: &mut Vec<DreamArg>, text: &str)
    ensures
        arg_views(final(out)@) == arg_views(old(out)@).push(DreamArgView::Text(text@)),
{
    out.push(DreamArg::Text(text.to_owned()));
}

impl DrmConfig {
    /// The decoder's arguments.
    pub fn args(&self, input: DrmInput) -> (r: Vec<DreamArg>)
        ensures
            arg_views(r@) == dream_arguments(*self, input),
    {
        let mut rate: String = String::new();
        push_decimal(&mut rate, self.dream_rate as u64);
        let mut out: Vec<DreamArg> = Vec::new();
        match input {
            DrmInput::AudioBroadcast => {
                push_arg(&mut out, "-I");
                push_arg(&mut out, "plughw:Loopback,1,0");
            },
            DrmInput::File => {
                push_arg(&mut out, "-f");
                let ghost before = arg_views(out@);
                out.push(DreamArg::InputFile);
                assert(arg_views(out@) =~= before.push(DreamArgView::InputFile));
            },
        }
        push_arg(&mut out, "-O");
        push_arg(&mut out, "plughw:Loopback,0,1");
        push_arg(&mut out, "--sigsrate");
        push_arg(&mut out, rate.as_str());
        push_arg(&mut out, "--audsrate");
        push_arg(&mut out, rate.as_str());
        if self.flip_spectrum {
            push_arg(&mut out, "-p");
            push_arg(&mut out, "1");
        }
        out
    }
}

/// The buffer of the sound loop: half a second.
pub fn loopback_buffer_frames(rate: u32) -> (r: i64)
    ensures
        r == rate as int / 2,
{
    (rate / 2) as i64
}

// ---------------------------------------------------------------------------
// The decoder's end
// ---------------------------------------------------------------------------

/// How the decoder ended.
#[derive(Debug)]
pub enum DreamExit {
    /// It was stopped.
    Cancelled,
    /// It ended by itself; `true` for success.
    Exited(bool),
    /// Its end could not be awaited.
    WaitFailed(String),
}

/// What the decoder's end means: reaching the end of a file is what a file is
/// read for; in live operation the decoder never ends by itself.
pub open spec fn exit_meaning(input: DrmInput, exit: DreamExit) -> Result<(), DspErrorView> {
    match exit {
        DreamExit::Cancelled => Ok(()),
        DreamExit::Exited(success) => match input {
            DrmInput::File => if success {
                Ok(())
            } else {
                Err(DspErrorView::Drm("dream subprocess exited non-zero"@))
            },
            DrmInput::AudioBroadcast => Err(DspErrorView::Drm("dream subprocess exited"@)),
        },
        DreamExit::WaitFailed(e) => Err(DspErrorView::Drm("dream wait: "@ + e@)),
    }
}

/// What the decoder's end means for the caller.
pub fn bridge_result(input: DrmInput, exit: DreamExit) -> (r: Result<(), DspError>)
    ensures
        match r {
            Ok(()) => exit_meaning(input, exit) == Ok::<(), DspErrorView>(()),
            Err(e) => exit_meaning(input, exit) == Err::<(), DspErrorView>(e@),
        },
{
    match exit {
        DreamExit::Cancelled => Ok(()),
        DreamExit::Exited(success) => match input {
            DrmInput::File => if success {
                Ok(())
            } else {
                Err(DspError::Drm("dream subprocess exited non-zero".to_owned()))
            },
            DrmInput::AudioBroadcast => Err(DspError::Drm("dream subprocess exited".to_owned())),
        },
        DreamExit::WaitFailed(e) => Err(
            DspError::Drm("dream wait: ".to_owned().concat(e.as_str())),
        ),
    }
}

// ---------------------------------------------------------------------------
// The screen's control codes
// ---------------------------------------------------------------------------

/// The character that starts a control code.
pub open spec fn is_escape(c: char) -> bool {
    c == '\x1b'
}

/// An ASCII letter.
pub open spec fn is_letter(c: char) -> bool {
    'A' <= c <= 'Z' || 'a' <= c <= 'z'
}

/// Where the control code at the start of `s` ends: behind its first letter,
/// or at the end.
pub open spec fn code_len(s: Seq<char>) -> nat {
    let n = 2 + leading(s.skip(2), |c: char| !is_letter(c));
    if n < s.len() {
        n + 1
    } else {
        s.len()
    }
}

/// A control code starts with an escape and a bracket.
pub open spec fn starts_code(s: Seq<char>) -> bool {
    s.len() >= 2 && is_escape(s[0]) && s[1] == '['
}

/// Text without control codes; every other character stays.
pub open spec fn without_codes(s: Seq<char>) -> Seq<char>
    decreases s.len(),
{
    if s.len() == 0 {
        Seq::empty()
    } else if starts_code(s) {
        without_codes(s.skip(code_len(s) as int))
    } else {
        seq![s[0]] + without_codes(s.skip(1))
    }
}

/// Removes control codes from a screen line.
pub fn strip_ansi(s: &str) -> (r: String)
    ensures
        r@ == without_codes(s@),
{
    let chars: Vec<char> = chars_of(s);
    let mut out: String = String::new();
    let mut i: usize = 0;
    assert(chars@.skip(0) =~= chars@);
    while i < chars.len()
        invariant
            i <= chars@.len(),
            out@ + without_codes(chars@.skip(i as int)) == without_codes(chars@),
        decreases chars@.len() - i,
    {
        let ghost rest = chars@.skip(i as int);
        if chars[i] == '\x1b' && i + 1 < chars.len() && chars[i + 1] == '[' {
            let start: usize = i + 2;
            let mut j: usize = start;
            while j < chars.len() && !('A' <= chars[j] && chars[j] <= 'Z' || 'a' <= chars[j]
                && chars[j] <= 'z')
                invariant
                    start <= j <= chars@.len(),
                    forall|k: int| start <= k < j ==> !is_letter(#[trigger] chars@[k]),
                decreases chars@.len() - j,
            {
                j = j + 1;
            }
            proof {
                let t = rest.skip(2);
                lemma_leading(t, |c: char| !is_letter(c), (j - start) as nat);
            }
            let next: usize = if j < chars.len() {
                j + 1
            } else {
                j
            };
            assert(rest.skip(code_len(rest) as int) =~= chars@.skip(next as int));
            i = next;
        } else {
            let ghost before = out@;
            out.push(chars[i]);
            proof {
                let c = chars@[i as int];
                assert(rest.skip(1) =~= chars@.skip(i + 1));
                assert(before + (seq![c] + without_codes(rest.skip(1))) =~= before.push(c)
                    + without_codes(rest.skip(1)));
            }
            i = i + 1;
        }
    }
    out
}

// ---------------------------------------------------------------------------
// The screen's lines
// ---------------------------------------------------------------------------

/// What the screen has shown so far; numbers as text.
#[derive(Debug, Clone)]
pub struct TuiStatus {
    pub io_ok: bool,
    pub time_ok: bool,
    pub frame_ok: bool,
    pub fac_ok: bool,
    pub sdc_ok: bool,
    pub msc_ok: bool,
    pub if_level_db: Option<String>,
    pub snr_db: Option<String>,
    pub wmer_db: Option<String>,
    pub mer_db: Option<String>,
    pub dc_freq_hz: Option<String>,
    pub sample_offset_hz: Option<String>,
    pub doppler_hz: Option<String>,
    pub delay_ms: Option<String>,
    pub robustness_mode: Option<String>,
    pub bandwidth_khz: Option<u32>,
    pub sdc_mode: Option<String>,
    pub msc_mode: Option<String>,
    pub interleaver_s: Option<u32>,
    pub num_audio_services: u8,
    pub num_data_services: u8,
}

/// A [`TuiStatus`] as mathematics.
pub struct TuiView {
    pub io_ok: bool,
    pub time_ok: bool,
    pub frame_ok: bool,
    pub fac_ok: bool,
    pub sdc_ok: bool,
    pub msc_ok: bool,
    pub if_level_db: Option<Seq<char>>,
    pub snr_db: Option<Seq<char>>,
    pub wmer_db: Option<Seq<char>>,
    pub mer_db: Option<Seq<char>>,
    pub dc_freq_hz: Option<Seq<char>>,
    pub sample_offset_hz: Option<Seq<char>>,
    pub doppler_hz: Option<Seq<char>>,
    pub delay_ms: Option<Seq<char>>,
    pub robustness_mode: Option<Seq<char>>,
    pub bandwidth_khz: Option<u32>,
    pub sdc_mode: Option<Seq<char>>,
    pub msc_mode: Option<Seq<char>>,
    pub interleaver_s: Option<u32>,
    pub num_audio_services: u8,
    pub num_data_services: u8,
}

/// The text of an optional string.
pub open spec fn opt_text(s: Option<String>) -> Option<Seq<char>> {
    match s {
        Some(t) => Some(t@),
        None => None,
    }
}

impl View for TuiStatus {
    type V = TuiView;

    open spec fn view(&self) -> TuiView {
        TuiView {
            io_ok: self.io_ok,
            time_ok: self.time_ok,
            frame_ok: self.frame_ok,
            fac_ok: self.fac_ok,
            sdc_ok: self.sdc_ok,
            msc_ok: self.msc_ok,
            if_level_db: opt_text(self.if_level_db),
            snr_db: opt_text(self.snr_db),
            wmer_db: opt_text(self.wmer_db),
            mer_db: opt_text(self.mer_db),
            dc_freq_hz: opt_text(self.dc_freq_hz),
            sample_offset_hz: opt_text(self.sample_offset_hz),
            doppler_hz: opt_text(self.doppler_hz),
            delay_ms: opt_text(self.delay_ms),
            robustness_mode: opt_text(self.robustness_mode),
            bandwidth_khz: self.bandwidth_khz,
            sdc_mode: opt_text(self.sdc_mode),
            msc_mode: opt_text(self.msc_mode),
            interleaver_s: self.interleaver_s,
            num_audio_services: self.num_audio_services,
            num_data_services: self.num_data_services,
        }
    }
}

/// Nothing shown yet.
pub open spec fn nothing_shown() -> TuiView {
    TuiView {
        io_ok: false,
        time_ok: false,
        frame_ok: false,
        fac_ok: false,
        sdc_ok: false,
        msc_ok: false,
        if_level_db: None,
        snr_db: None,
        wmer_db: None,
        mer_db: None,
        dc_freq_hz: None,
        sample_offset_hz: None,
        doppler_hz: None,
        delay_ms: None,
        robustness_mode: None,
        bandwidth_khz: None,
        sdc_mode: None,
        msc_mode: None,
        interleaver_s: None,
        num_audio_services: 0,
        num_data_services: 0,
    }
}

impl TuiStatus {
    /// A report with nothing in it.
    pub fn empty() -> (r: Self)
        ensures
            r@ == nothing_shown(),
    {
        TuiStatus {
            io_ok: false,
            time_ok: false,
            frame_ok: false,
            fac_ok: false,
            sdc_ok: false,
            msc_ok: false,
            if_level_db: None,
            snr_db: None,
            wmer_db: None,
            mer_db: None,
            dc_freq_hz: None,
            sample_offset_hz: None,
            doppler_hz: None,
            delay_ms: None,
            robustness_mode: None,
            bandwidth_khz: None,
            sdc_mode: None,
            msc_mode: None,
            interleaver_s: None,
            num_audio_services: 0,
            num_data_services: 0,
        }
    }
}

/// A value that is not shown: blank, or dashes.
pub open spec fn is_absent(t: Seq<char>) -> bool {
    t.len() == 0 || has_prefix(t, "---"@)
}

/// A character that a decimal number can be written with.
pub open spec fn is_number_char(c: char) -> bool {
    is_digit(c) || c == '.' || c == '-' || c == '+' || c == 'e' || c == 'E'
}

/// The number text at the start of a value; its unit is left out.
pub open spec fn number_text(s: Seq<char>) -> Option<Seq<char>> {
    let t = trim(s);
    if is_absent(t) {
        None
    } else {
        Some(t.take(leading(t, |c: char| is_number_char(c)) as int))
    }
}

/// The whole number at the start of a value.
pub open spec fn whole_number(s: Seq<char>) -> Option<u32> {
    let t = trim(s);
    if is_absent(t) {
        None
    } else {
        match unsigned_text(
            t.take(leading(t, |c: char| is_digit(c)) as int),
            u32::MAX as nat,
        ) {
            Some(v) => Some(v as u32),
            None => None,
        }
    }
}

/// A status mark is an `O` for okay: the first character that is no white
/// space.
pub open spec fn is_okay(after: Seq<char>) -> bool {
    let t = unindented(after);
    t.len() > 0 && t[0] == 'O'
}

/// `s` behind the prefix `p`.
pub open spec fn behind(s: Seq<char>, p: Seq<char>) -> Seq<char> {
    s.skip(p.len() as int)
}

/// What follows the first `p` in `s`, from `at` on.
pub open spec fn after_first(s: Seq<char>, p: Seq<char>, at: int) -> Option<Seq<char>>
    decreases s.len() + 1 - at,
{
    if at < 0 || at > s.len() {
        None
    } else if has_prefix(s.skip(at), p) {
        Some(s.skip(at + p.len()))
    } else {
        after_first(s, p, at + 1)
    }
}

/// Where the first slash stands, from `at` on.
pub open spec fn slash_from(s: Seq<char>, at: int) -> Option<int>
    decreases s.len() - at,
{
    if at < 0 || at >= s.len() {
        None
    } else if s[at] == '/' {
        Some(at)
    } else {
        slash_from(s, at + 1)
    }
}

/// The two sides of a single slash.
pub open spec fn halves(s: Seq<char>) -> Option<(Seq<char>, Seq<char>)> {
    match slash_from(s, 0) {
        Some(i) => if slash_from(s, i + 1) is None {
            Some((s.take(i), s.skip(i + 1)))
        } else {
            None
        },
        None => None,
    }
}

/// A status mark after a line of marks, the old one where the label is
/// missing.
pub open spec fn mark(line: Seq<char>, label: Seq<char>, before: bool) -> bool {
    match after_first(line, label, 0) {
        Some(after) => is_okay(after),
        None => before,
    }
}

/// A count of services, the old one where the label is missing.
pub open spec fn count(body: Seq<char>, label: Seq<char>, before: u8) -> u8 {
    match after_first(body, label, 0) {
        Some(after) => match whole_number(after) {
            Some(n) => (n % 256) as u8,
            None => 0,
        },
        None => before,
    }
}

/// A line without the white space in front.
pub open spec fn unindented(line: Seq<char>) -> Seq<char> {
    line.skip(leading(line, |c: char| is_white(c)) as int)
}

/// The report after one more line, which starts at its first character that
/// is no white space. Lines that say nothing of interest change nothing.
pub open spec fn report_line(v: TuiView, t: Seq<char>) -> TuiView {
    if has_prefix(t, "IO:"@) {
        TuiView {
            io_ok: mark(t, "IO:"@, v.io_ok),
            time_ok: mark(t, "Time:"@, v.time_ok),
            frame_ok: mark(t, "Frame:"@, v.frame_ok),
            fac_ok: mark(t, "FAC:"@, v.fac_ok),
            sdc_ok: mark(t, "SDC:"@, v.sdc_ok),
            msc_ok: mark(t, "MSC:"@, v.msc_ok),
            ..v
        }
    } else if has_prefix(t, "IF Level:"@) {
        TuiView { if_level_db: number_text(behind(t, "IF Level:"@)), ..v }
    } else if has_prefix(t, "MSC WMER / MSC MER:"@) {
        let body = behind(t, "MSC WMER / MSC MER:"@);
        match halves(body) {
            Some((a, b)) => TuiView { wmer_db: number_text(a), mer_db: number_text(b), ..v },
            None => TuiView { wmer_db: number_text(body), mer_db: None, ..v },
        }
    } else if has_prefix(t, "SNR:"@) {
        TuiView { snr_db: number_text(behind(t, "SNR:"@)), ..v }
    } else if has_prefix(t, "DC Frequency of DRM Signal:"@) {
        TuiView { dc_freq_hz: number_text(behind(t, "DC Frequency of DRM Signal:"@)), ..v }
    } else if has_prefix(t, "Sample Frequency Offset:"@) {
        TuiView { sample_offset_hz: number_text(behind(t, "Sample Frequency Offset:"@)), ..v }
    } else if has_prefix(t, "Doppler / Delay:"@) {
        match halves(behind(t, "Doppler / Delay:"@)) {
            Some((a, b)) => TuiView { doppler_hz: number_text(a), delay_ms: number_text(b), ..v },
            None => v,
        }
    } else if has_prefix(t, "DRM Mode / Bandwidth:"@) {
        match halves(behind(t, "DRM Mode / Bandwidth:"@)) {
            Some((a, b)) => TuiView {
                robustness_mode: if is_absent(trim(a)) {
                    v.robustness_mode
                } else {
                    Some(trim(a))
                },
                bandwidth_khz: whole_number(b),
                ..v
            },
            None => v,
        }
    } else if has_prefix(t, "Interleaver Depth:"@) {
        TuiView { interleaver_s: whole_number(behind(t, "Interleaver Depth:"@)), ..v }
    } else if has_prefix(t, "SDC / MSC Mode:"@) {
        let body = trim(behind(t, "SDC / MSC Mode:"@));
        if is_absent(body) {
            v
        } else {
            match halves(body) {
                Some((a, b)) => TuiView { sdc_mode: Some(trim(a)), msc_mode: Some(trim(b)), ..v },
                None => v,
            }
        }
    } else if has_prefix(t, "Number of Services:"@) {
        let body = behind(t, "Number of Services:"@);
        TuiView {
            num_audio_services: count(body, "Audio:"@, v.num_audio_services),
            num_data_services: count(body, "Data:"@, v.num_data_services),
            ..v
        }
    } else {
        v
    }
}

/// The line that completes a report.
pub open spec fn completes_report(t: Seq<char>) -> bool {
    has_prefix(t, "Received time - date:"@)
}

fn begins(t: &[char], p: &str) -> (r: bool)
    ensures
        r == has_prefix(t@, p@),
{
    let w: Vec<char> = chars_of(p);
    starts_with(t, w.as_slice())
}

fn rest_of<'a>(t: &'a [char], p: &str) -> (r: &'a [char])
    requires
        has_prefix(t@, p@),
    ensures
        r@ == behind(t@, p@),
{
    let n: usize = p.unicode_len();
    let r = vstd::slice::slice_subrange(t, n, t.len());
    r
}

fn absent(t: &[char]) -> (r: bool)
    ensures
        r == is_absent(t@),
{
    t.len() == 0 || begins(t, "---")
}

/// The number text at the start of a value; `None` where none is shown.
pub fn parse_opt_number(s: &[char]) -> (r: Option<String>)
    ensures
        opt_text(r) == number_text(s@),
{
    let t: &[char] = trimmed(s);
    if absent(t) {
        return None;
    }
    let mut n: usize = 0;
    while n < t.len() && ('0' <= t[n] && t[n] <= '9' || t[n] == '.' || t[n] == '-' || t[n] == '+'
        || t[n] == 'e' || t[n] == 'E')
        invariant
            n <= t@.len(),
            forall|k: int| 0 <= k < n ==> is_number_char(#[trigger] t@[k]),
        decreases t@.len() - n,
    {
        n = n + 1;
    }
    proof {
        lemma_leading(t@, |c: char| is_number_char(c), n as nat);
    }
    let head: &[char] = vstd::slice::slice_subrange(t, 0, n);
    Some(string_of(head))
}

/// The whole number at the start of a value; `None` where none is shown or it
/// is too large.
pub fn parse_opt_u32(s: &[char]) -> (r: Option<u32>)
    ensures
        r == whole_number(s@),
{
    let t: &[char] = trimmed(s);
    if absent(t) {
        return None;
    }
    let mut n: usize = 0;
    while n < t.len() && '0' <= t[n] && t[n] <= '9'
        invariant
            n <= t@.len(),
            forall|k: int| 0 <= k < n ==> is_digit(#[trigger] t@[k]),
        decreases t@.len() - n,
    {
        n = n + 1;
    }
    proof {
        lemma_leading(t@, |c: char| is_digit(c), n as nat);
    }
    let head: &[char] = vstd::slice::slice_subrange(t, 0, n);
    match parse_unsigned(head, u32::MAX as u64) {
        Some(v) => Some(v as u32),
        None => None,
    }
}

/// Whether the first character that is no white space is the mark for okay.
pub fn flag_ok(after: &[char]) -> (r: bool)
    ensures
        r == is_okay(after@),
{
    let mut n: usize = 0;
    while n < after.len() && white(after[n])
        invariant
            n <= after@.len(),
            forall|k: int| 0 <= k < n ==> is_white(#[trigger] after@[k]),
        decreases after@.len() - n,
    {
        n = n + 1;
    }
    proof {
        lemma_leading(after@, |c: char| is_white(c), n as nat);
    }
    n < after.len() && after[n] == 'O'
}

fn find_after<'a>(s: &'a [char], p: &str) -> (r: Option<&'a [char]>)
    ensures
        match r {
            Some(t) => after_first(s@, p@, 0) == Some(t@),
            None => after_first(s@, p@, 0) is None,
        },
{
    let n: usize = p.unicode_len();
    let mut at: usize = 0;
    loop
        invariant
            at <= s@.len(),
            n == p@.len(),
            after_first(s@, p@, 0) == after_first(s@, p@, at as int),
        decreases s@.len() - at,
    {
        let tail: &'a [char] = vstd::slice::slice_subrange(s, at, s.len());
        if begins(tail, p) {
            let r = vstd::slice::slice_subrange(tail, n, tail.len());
            return Some(r);
        }
        if at == s.len() {
            assert(after_first(s@, p@, at + 1) is None);
            return None;
        }
        at = at + 1;
    }
}

fn find_slash(s: &[char], from: usize) -> (r: Option<usize>)
    requires
        from <= s@.len(),
    ensures
        match r {
            Some(i) => slash_from(s@, from as int) == Some(i as int) && from <= i < s@.len(),
            None => slash_from(s@, from as int) is None,
        },
{
    let mut at: usize = from;
    while at < s.len()
        invariant
            from <= at <= s@.len(),
            slash_from(s@, from as int) == slash_from(s@, at as int),
        decreases s@.len() - at,
    {
        if s[at] == '/' {
            return Some(at);
        }
        at = at + 1;
    }
    None
}

fn split_halves<'a>(s: &'a [char]) -> (r: Option<(&'a [char], &'a [char])>)
    ensures
        match r {
            Some((a, b)) => halves(s@) == Some((a@, b@)),
            None => halves(s@) is None,
        },
{
    let end: usize = s.len();
    match find_slash(s, 0) {
        Some(i) => match find_slash(s, i + 1) {
            Some(_) => None,
            None => {
                let a = vstd::slice::slice_subrange(s, 0, i);
                let b = vstd::slice::slice_subrange(s, i + 1, end);
                Some((a, b))
            },
        },
        None => None,
    }
}

fn read_mark(line: &[char], label: &str, before: bool) -> (r: bool)
    ensures
        r == mark(line@, label@, before),
{
    match find_after(line, label) {
        Some(after) => flag_ok(after),
        None => before,
    }
}

fn read_count(body: &[char], label: &str, before: u8) -> (r: u8)
    ensures
        r == count(body@, label@, before),
{
    match find_after(body, label) {
        Some(after) => match parse_opt_u32(after) {
            Some(n) => (n % 256) as u8,
            None => 0,
        },
        None => before,
    }
}

/// Takes one line of the screen, without control codes, into a report;
/// `true` when the line completes it.
pub fn parse_tui_line(line: &str, acc: &mut TuiStatus) -> (r: bool)
    ensures
        final(acc)@ == report_line(old(acc)@, unindented(line@)),
        r == completes_report(unindented(line@)),
{
    let chars: Vec<char> = chars_of(line);
    let mut from: usize = 0;
    while from < chars.len() && white(chars[from])
        invariant
            from <= chars@.len(),
            forall|k: int| 0 <= k < from ==> is_white(#[trigger] chars@[k]),
        decreases chars@.len() - from,
    {
        from = from + 1;
    }
    proof {
        lemma_leading(chars@, |c: char| is_white(c), from as nat);
        lemma_report_end(unindented(line@));
    }
    let t: &[char] = vstd::slice::slice_subrange(chars.as_slice(), from, chars.len());
    if begins(t, "IO:") {
        acc.io_ok = read_mark(t, "IO:", acc.io_ok);
        acc.time_ok = read_mark(t, "Time:", acc.time_ok);
        acc.frame_ok = read_mark(t, "Frame:", acc.frame_ok);
        acc.fac_ok = read_mark(t, "FAC:", acc.fac_ok);
        acc.sdc_ok = read_mark(t, "SDC:", acc.sdc_ok);
        acc.msc_ok = read_mark(t, "MSC:", acc.msc_ok);
        return false;
    }
    if begins(t, "IF Level:") {
        acc.if_level_db = parse_opt_number(rest_of(t, "IF Level:"));
        return false;
    }
    if begins(t, "MSC WMER / MSC MER:") {
        let body: &[char] = rest_of(t, "MSC WMER / MSC MER:");
        match split_halves(body) {
            Some((a, b)) => {
                acc.wmer_db = parse_opt_number(a);
                acc.mer_db = parse_opt_number(b);
            },
            None => {
                acc.wmer_db = parse_opt_number(body);
                acc.mer_db = None;
            },
        }
        return false;
    }
    if begins(t, "SNR:") {
        acc.snr_db = parse_opt_number(rest_of(t, "SNR:"));
        return false;
    }
    if begins(t, "DC Frequency of DRM Signal:") {
        acc.dc_freq_hz = parse_opt_number(rest_of(t, "DC Frequency of DRM Signal:"));
        return false;
    }
    if begins(t, "Sample Frequency Offset:") {
        acc.sample_offset_hz = parse_opt_number(rest_of(t, "Sample Frequency Offset:"));
        return false;
    }
    if begins(t, "Doppler / Delay:") {
        match split_halves(rest_of(t, "Doppler / Delay:")) {
            Some((a, b)) => {
                acc.doppler_hz = parse_opt_number(a);
                acc.delay_ms = parse_opt_number(b);
            },
            None => {},
        }
        return false;
    }
    if begins(t, "DRM Mode / Bandwidth:") {
        match split_halves(rest_of(t, "DRM Mode / Bandwidth:")) {
            Some((a, b)) => {
                let m: &[char] = trimmed(a);
                if !absent(m) {
                    acc.robustness_mode = Some(string_of(m));
                }
                acc.bandwidth_khz = parse_opt_u32(b);
            },
            None => {},
        }
        return false;
    }
    if begins(t, "Interleaver Depth:") {
        acc.interleaver_s = parse_opt_u32(rest_of(t, "Interleaver Depth:"));
        return false;
    }
    if begins(t, "SDC / MSC Mode:") {
        let body: &[char] = trimmed(rest_of(t, "SDC / MSC Mode:"));
        if !absent(body) {
            match split_halves(body) {
                Some((a, b)) => {
                    acc.sdc_mode = Some(string_of(trimmed(a)));
                    acc.msc_mode = Some(string_of(trimmed(b)));
                },
                None => {},
            }
        }
        return false;
    }
    if begins(t, "Number of Services:") {
        let body: &[char] = rest_of(t, "Number of Services:");
        acc.num_audio_services = read_count(body, "Audio:", acc.num_audio_services);
        acc.num_data_services = read_count(body, "Data:", acc.num_data_services);
        return false;
    }
    begins(t, "Received time - date:")
}

/// The line that completes a report starts like no other.
proof fn lemma_report_end(t: Seq<char>)
    ensures
        completes_report(t) ==> {
            &&& !has_prefix(t, "IO:"@)
            &&& !has_prefix(t, "IF Level:"@)
            &&& !has_prefix(t, "MSC WMER / MSC MER:"@)
            &&& !has_prefix(t, "SNR:"@)
            &&& !has_prefix(t, "DC Frequency of DRM Signal:"@)
            &&& !has_prefix(t, "Sample Frequency Offset:"@)
            &&& !has_prefix(t, "Doppler / Delay:"@)
            &&& !has_prefix(t, "DRM Mode / Bandwidth:"@)
            &&& !has_prefix(t, "Interleaver Depth:"@)
            &&& !has_prefix(t, "SDC / MSC Mode:"@)
            &&& !has_prefix(t, "Number of Services:"@)
        },
{
    reveal_strlit("Received time - date:");
    lemma_first_char(t, "Received time - date:"@);
    reveal_strlit("IO:");
    lemma_first_char(t, "IO:"@);
    reveal_strlit("IF Level:");
    lemma_first_char(t, "IF Level:"@);
    reveal_strlit("MSC WMER / MSC MER:");
    lemma_first_char(t, "MSC WMER / MSC MER:"@);
    reveal_strlit("SNR:");
    lemma_first_char(t, "SNR:"@);
    reveal_strlit("DC Frequency of DRM Signal:");
    lemma_first_char(t, "DC Frequency of DRM Signal:"@);
    reveal_strlit("Sample Frequency Offset:");
    lemma_first_char(t, "Sample Frequency Offset:"@);
    reveal_strlit("Doppler / Delay:");
    lemma_first_char(t, "Doppler / Delay:"@);
    reveal_strlit("DRM Mode / Bandwidth:");
    lemma_first_char(t, "DRM Mode / Bandwidth:"@);
    reveal_strlit("Interleaver Depth:");
    lemma_first_char(t, "Interleaver Depth:"@);
    reveal_strlit("SDC / MSC Mode:");
    lemma_first_char(t, "SDC / MSC Mode:"@);
    reveal_strlit("Number of Services:");
    lemma_first_char(t, "Number of Services:"@);
}

proof fn lemma_first_char(t: Seq<char>, p: Seq<char>)
    requires
        p.len() > 0,
    ensures
        has_prefix(t, p) ==> t[0] == p[0],
{
}

// ---------------------------------------------------------------------------
// Reading the screen
// ---------------------------------------------------------------------------

/// A screen line without the line ends behind it.
pub open spec fn without_line_end(line: Seq<char>) -> Seq<char> {
    line.take(line.len() - trailing(line, |c: char| c == '\r' || c == '\n'))
}

/// What a raw line of the decoder's output says: line ends, control codes and
/// indentation removed.
pub open spec fn screen_text(line: Seq<char>) -> Seq<char> {
    unindented(without_codes(without_line_end(line)))
}

/// Gathers the decoder's screen lines into reports.
pub struct StatusReader {
    acc: TuiStatus,
}

impl View for StatusReader {
    type V = TuiView;

    closed spec fn view(&self) -> TuiView {
        self.acc@
    }
}

impl StatusReader {
    /// A reader that has seen nothing.
    pub fn new() -> (r: Self)
        ensures
            r@ == nothing_shown(),
    {
        StatusReader { acc: TuiStatus::empty() }
    }

    /// Takes a raw line of the decoder's output. The line that completes a
    /// report gives it, and the next report starts empty.
    pub fn line(&mut self, line: &str) -> (r: Option<TuiStatus>)
        ensures
            match r {
                Some(report) => {
                    &&& completes_report(screen_text(line@))
                    &&& report@ == report_line(old(self)@, screen_text(line@))
                    &&& final(self)@ == nothing_shown()
                },
                None => {
                    &&& !completes_report(screen_text(line@))
                    &&& final(self)@ == report_line(old(self)@, screen_text(line@))
                },
            },
    {
        let chars: Vec<char> = chars_of(line);
        let mut to: usize = chars.len();
        while to > 0 && (chars[to - 1] == '\r' || chars[to - 1] == '\n')
            invariant
                to <= chars@.len(),
                forall|k: int|
                    to <= k < chars@.len() ==> (#[trigger] chars@[k] == '\r' || chars@[k] == '\n'),
            decreases to,
        {
            to = to - 1;
        }
        proof {
            lemma_trailing(
                chars@,
                |c: char| c == '\r' || c == '\n',
                (chars@.len() - to) as nat,
            );
        }
        let kept: &[char] = vstd::slice::slice_subrange(chars.as_slice(), 0, to);
        let clean: String = strip_ansi(string_of(kept).as_str());
        if parse_tui_line(clean.as_str(), &mut self.acc) {
            let mut report: TuiStatus = TuiStatus::empty();
            std::mem::swap(&mut report, &mut self.acc);
            Some(report)
        } else {
            None
        }
    }
}

// ---------------------------------------------------------------------------
// Laws
// ---------------------------------------------------------------------------

/// Text without an escape has no control codes, and stays as it is.
pub proof fn law_plain_text_is_kept(s: Seq<char>)
    requires
        forall|k: int| 0 <= k < s.len() ==> !is_escape(#[trigger] s[k]),
    ensures
        without_codes(s) == s,
    decreases s.len(),
{
    if s.len() > 0 {
        let t = s.skip(1);
        law_plain_text_is_kept(t);
    }
}

/// A control code disappears, and what stands before and behind it stays.
pub proof fn law_codes_disappear(
    plain: Seq<char>,
    params: Seq<char>,
    letter: char,
    rest: Seq<char>,
)
    requires
        forall|k: int| 0 <= k < plain.len() ==> !is_escape(#[trigger] plain[k]),
        is_letter(letter),
        forall|k: int| 0 <= k < params.len() ==> !is_letter(#[trigger] params[k]),
    ensures
        without_codes(plain + (seq!['\x1b', '['] + params + seq![letter] + rest)) == plain
            + without_codes(rest),
    decreases plain.len(),
{
    let code = seq!['\x1b', '['] + params + seq![letter] + rest;
    let s = plain + code;
    if plain.len() == 0 {
        let t = s.skip(2);
        lemma_leading(t, |c: char| !is_letter(c), params.len());
        assert(s.skip(code_len(s) as int) =~= rest);
    } else {
        let shorter = plain.skip(1);
        law_codes_disappear(shorter, params, letter, rest);
        assert(s.skip(1) =~= shorter + code);
    }
}

/// A line that completes a report does not change it.
pub proof fn law_last_line_only_completes(v: TuiView, t: Seq<char>)
    requires
        completes_report(t),
    ensures
        report_line(v, t) == v,
{
    lemma_report_end(t);
}

/// A label stands behind `before`, and its first two characters do not stand
/// next to each other earlier.
proof fn lemma_after_first(s: Seq<char>, p: Seq<char>, before: int, at: int)
    requires
        0 <= at <= before,
        p.len() >= 2,
        before + p.len() <= s.len(),
        s.subrange(before, before + p.len()) == p,
        forall|k: int| 0 <= k < before ==> !(#[trigger] s[k] == p[0] && s[k + 1] == p[1]),
    ensures
        after_first(s, p, at) == Some(s.skip(before + p.len())),
    decreases before - at,
{
    let t = s.skip(at);
    if at == before {
        assert(t.take(p.len() as int) =~= s.subrange(before, before + p.len()));
    } else {
        if has_prefix(t, p) {
            assert(t.take(p.len() as int)[0] == s[at]);
            assert(t.take(p.len() as int)[1] == s[at + 1]);
        }
        lemma_after_first(s, p, before, at + 1);
    }
}

proof fn lemma_two_chars(t: Seq<char>, p: Seq<char>)
    requires
        p.len() >= 2,
    ensures
        has_prefix(t, p) ==> t.len() >= 2 && t[0] == p[0] && t[1] == p[1],
{
    if has_prefix(t, p) {
        assert(t.take(p.len() as int)[0] == t[0]);
        assert(t.take(p.len() as int)[1] == t[1]);
    }
}

/// Which line of the screen a text is, by its first two characters.
proof fn lemma_which_line(t: Seq<char>)
    ensures
        has_prefix(t, "IO:"@) ==> t[0] == 'I' && t[1] == 'O',
        has_prefix(t, "IF Level:"@) ==> t[0] == 'I' && t[1] == 'F',
        has_prefix(t, "Interleaver Depth:"@) ==> t[0] == 'I' && t[1] == 'n',
        has_prefix(t, "MSC WMER / MSC MER:"@) ==> t[0] == 'M' && t[1] == 'S',
        has_prefix(t, "SNR:"@) ==> t[0] == 'S' && t[1] == 'N',
        has_prefix(t, "Sample Frequency Offset:"@) ==> t[0] == 'S' && t[1] == 'a',
        has_prefix(t, "SDC / MSC Mode:"@) ==> t[0] == 'S' && t[1] == 'D',
        has_prefix(t, "DC Frequency of DRM Signal:"@) ==> t[0] == 'D' && t[1] == 'C',
        has_prefix(t, "Doppler / Delay:"@) ==> t[0] == 'D' && t[1] == 'o',
        has_prefix(t, "DRM Mode / Bandwidth:"@) ==> t[0] == 'D' && t[1] == 'R',
        has_prefix(t, "Number of Services:"@) ==> t[0] == 'N' && t[1] == 'u',
        has_prefix(t, "Received time - date:"@) ==> t[0] == 'R' && t[1] == 'e',
{
    reveal_strlit("IO:");
    lemma_two_chars(t, "IO:"@);
    reveal_strlit("IF Level:");
    lemma_two_chars(t, "IF Level:"@);
    reveal_strlit("Interleaver Depth:");
    lemma_two_chars(t, "Interleaver Depth:"@);
    reveal_strlit("MSC WMER / MSC MER:");
    lemma_two_chars(t, "MSC WMER / MSC MER:"@);
    reveal_strlit("SNR:");
    lemma_two_chars(t, "SNR:"@);
    reveal_strlit("Sample Frequency Offset:");
    lemma_two_chars(t, "Sample Frequency Offset:"@);
    reveal_strlit("SDC / MSC Mode:");
    lemma_two_chars(t, "SDC / MSC Mode:"@);
    reveal_strlit("DC Frequency of DRM Signal:");
    lemma_two_chars(t, "DC Frequency of DRM Signal:"@);
    reveal_strlit("Doppler / Delay:");
    lemma_two_chars(t, "Doppler / Delay:"@);
    reveal_strlit("DRM Mode / Bandwidth:");
    lemma_two_chars(t, "DRM Mode / Bandwidth:"@);
    reveal_strlit("Number of Services:");
    lemma_two_chars(t, "Number of Services:"@);
    reveal_strlit("Received time - date:");
    lemma_two_chars(t, "Received time - date:"@);
}

/// A mark that is followed by what is no okay: an `O` is okay, and anything
/// else is not.
proof fn lemma_mark(after: Seq<char>)
    requires
        after.len() == 1 || after.len() >= 4 && after[1] == ' ' && after[2] == ' ' && !is_white(
            after[3],
        ) && after[3] != 'O',
    ensures
        is_okay(after) == (after[0] == 'O'),
{
    let blank = |c: char| is_white(c);
    if !is_white(after[0]) {
        lemma_leading(after, blank, 0);
    } else if after.len() == 1 {
        lemma_leading(after, blank, 1);
    } else {
        lemma_leading(after, blank, 3);
    }
}

/// A line of the screen that starts with an indent is the line without it.
proof fn lemma_indent(indent: Seq<char>, t: Seq<char>)
    requires
        forall|k: int| 0 <= k < indent.len() ==> is_white(#[trigger] indent[k]),
        t.len() > 0,
        !is_white(t[0]),
    ensures
        unindented(indent + t) == t,
{
    lemma_leading(indent + t, |c: char| is_white(c), indent.len());
    assert((indent + t).skip(indent.len() as int) =~= t);
}

/// The line of status marks, with a mark behind every label.
pub open spec fn marks_line(
    io: char,
    time: char,
    frame: char,
    fac: char,
    sdc: char,
    msc: char,
) -> Seq<char> {
    seq![
        'I', 'O', ':', io, ' ', ' ', 'T', 'i', 'm', 'e', ':', time, ' ', ' ', 'F', 'r', 'a', 'm',
        'e', ':', frame, ' ', ' ', 'F', 'A', 'C', ':', fac, ' ', ' ', 'S', 'D', 'C', ':', sdc,
        ' ', ' ', 'M', 'S', 'C', ':', msc,
    ]
}

proof fn lemma_marks(io: char, time: char, frame: char, fac: char, sdc: char, msc: char, v: TuiView)
    ensures
        report_line(v, marks_line(io, time, frame, fac, sdc, msc)) == (TuiView {
            io_ok: io == 'O',
            time_ok: time == 'O',
            frame_ok: frame == 'O',
            fac_ok: fac == 'O',
            sdc_ok: sdc == 'O',
            msc_ok: msc == 'O',
            ..v
        }),
{
    let t = marks_line(io, time, frame, fac, sdc, msc);
    reveal_strlit("IO:");
    reveal_strlit("Time:");
    reveal_strlit("Frame:");
    reveal_strlit("FAC:");
    reveal_strlit("SDC:");
    reveal_strlit("MSC:");
    assert(t.take(3) =~= "IO:"@);
    assert(t.subrange(0, 3) =~= "IO:"@);
    lemma_after_first(t, "IO:"@, 0, 0);
    lemma_mark(t.skip(3));
    assert(t.subrange(6, 11) =~= "Time:"@);
    lemma_after_first(t, "Time:"@, 6, 0);
    lemma_mark(t.skip(11));
    assert(t.subrange(14, 20) =~= "Frame:"@);
    lemma_after_first(t, "Frame:"@, 14, 0);
    lemma_mark(t.skip(20));
    assert(t.subrange(23, 27) =~= "FAC:"@);
    lemma_after_first(t, "FAC:"@, 23, 0);
    lemma_mark(t.skip(27));
    assert(t.subrange(30, 34) =~= "SDC:"@);
    lemma_after_first(t, "SDC:"@, 30, 0);
    lemma_mark(t.skip(34));
    assert(t.subrange(37, 41) =~= "MSC:"@);
    lemma_after_first(t, "MSC:"@, 37, 0);
    lemma_mark(t.skip(41));
}

/// Every flag of a report is the mark behind the label of the same name: it
/// is set if and only if that mark is an `O`. The line says nothing else, and
/// completes nothing.
pub proof fn law_flags_are_their_own_marks(
    line: &str,
    acc: &mut TuiStatus,
    indent: Seq<char>,
    io: char,
    time: char,
    frame: char,
    fac: char,
    sdc: char,
    msc: char,
    done: bool,
)
    requires
        forall|k: int| 0 <= k < indent.len() ==> is_white(#[trigger] indent[k]),
        line@ == indent + marks_line(io, time, frame, fac, sdc, msc),
    ensures
        call_ensures(parse_tui_line, (line, acc), done) ==> {
            &&& final(acc)@ == (TuiView {
                io_ok: io == 'O',
                time_ok: time == 'O',
                frame_ok: frame == 'O',
                fac_ok: fac == 'O',
                sdc_ok: sdc == 'O',
                msc_ok: msc == 'O',
                ..old(acc)@
            })
            &&& !done
        },
{
    let t = marks_line(io, time, frame, fac, sdc, msc);
    lemma_indent(indent, t);
    lemma_marks(io, time, frame, fac, sdc, msc, old(acc)@);
    lemma_which_line(t);
}

/// A value as the screen shows it: a gap, the number, and behind it a unit or
/// nothing.
pub open spec fn shows(body: Seq<char>, number: Seq<char>) -> bool {
    exists|gap: Seq<char>, unit: Seq<char>|
        {
            &&& body == #[trigger] (gap + number + unit)
            &&& forall|k: int| 0 <= k < gap.len() ==> is_white(#[trigger] gap[k])
            &&& number.len() > 0
            &&& forall|k: int| 0 <= k < number.len() ==> is_number_char(#[trigger] number[k])
            &&& !has_prefix(number, "---"@)
            &&& unit.len() > 0 ==> is_white(unit[0])
        }
}

/// Where no number is shown there are dashes.
pub open spec fn shows_nothing(body: Seq<char>) -> bool {
    exists|gap: Seq<char>, rest: Seq<char>|
        {
            &&& body == #[trigger] (gap + "---"@ + rest)
            &&& forall|k: int| 0 <= k < gap.len() ==> is_white(#[trigger] gap[k])
        }
}

/// What is left of a shown value without the white space around it: the
/// number, and behind it nothing or white space and more.
proof fn lemma_trimmed_value(gap: Seq<char>, number: Seq<char>, unit: Seq<char>) -> (u: Seq<char>)
    requires
        forall|k: int| 0 <= k < gap.len() ==> is_white(#[trigger] gap[k]),
        number.len() > 0,
        forall|k: int| 0 <= k < number.len() ==> !is_white(#[trigger] number[k]),
        unit.len() > 0 ==> is_white(unit[0]),
    ensures
        trim(gap + number + unit) == number + u,
        u.len() > 0 ==> is_white(u[0]),
{
    let blank = |c: char| is_white(c);
    let s = gap + number + unit;
    let t = number + unit;
    lemma_leading(s, blank, gap.len());
    assert(s.skip(gap.len() as int) =~= t);
    let n = trailing(t, blank);
    lemma_trailing_within(t, number.len());
    let u = unit.take(unit.len() - n);
    assert(t.take(t.len() - n) =~= number + u);
    u
}

/// White space at the end does not reach into what holds none.
proof fn lemma_trailing_within(t: Seq<char>, n: nat)
    requires
        0 < n <= t.len(),
        forall|k: int| 0 <= k < n ==> !is_white(#[trigger] t[k]),
    ensures
        trailing(t, |c: char| is_white(c)) <= t.len() - n,
    decreases t.len(),
{
    if t.len() > n && is_white(t.last()) {
        lemma_trailing_within(t.drop_last(), n);
    } else if t.len() == n {
        assert(t.last() == t[n - 1]);
    }
}

proof fn lemma_no_dashes(number: Seq<char>, u: Seq<char>)
    requires
        number.len() > 0,
        !has_prefix(number, "---"@),
        u.len() > 0 ==> is_white(u[0]),
    ensures
        !is_absent(number + u),
{
    reveal_strlit("---");
    let t = number + u;
    if has_prefix(t, "---"@) {
        assert(t.take(3)[0] == '-' && t.take(3)[1] == '-' && t.take(3)[2] == '-');
        if number.len() >= 3 {
            assert(number.take(3) =~= t.take(3));
        } else {
            assert(t[number.len() as int] == u[0]);
            assert(t.take(3)[number.len() as int] == u[0]);
        }
    }
}

/// A number is read as it is shown, without its unit.
proof fn lemma_shown_number(body: Seq<char>, number: Seq<char>)
    requires
        shows(body, number),
    ensures
        number_text(body) == Some(number),
{
    let (gap, unit) = choose|gap: Seq<char>, unit: Seq<char>|
        {
            &&& body == #[trigger] (gap + number + unit)
            &&& forall|k: int| 0 <= k < gap.len() ==> is_white(#[trigger] gap[k])
            &&& number.len() > 0
            &&& forall|k: int| 0 <= k < number.len() ==> is_number_char(#[trigger] number[k])
            &&& !has_prefix(number, "---"@)
            &&& unit.len() > 0 ==> is_white(unit[0])
        };
    let u = lemma_trimmed_value(gap, number, unit);
    lemma_no_dashes(number, u);
    let t = number + u;
    let p = |c: char| is_number_char(c);
    assert forall|k: int| 0 <= k < number.len() implies #[trigger] p(t[k]) by {
        assert(t[k] == number[k]);
    }
    lemma_leading(t, p, number.len());
    assert(t.take(number.len() as int) =~= number);
}

proof fn lemma_shown_nothing(body: Seq<char>)
    requires
        shows_nothing(body),
    ensures
        number_text(body) is None,
        whole_number(body) is None,
{
    let (gap, rest) = choose|gap: Seq<char>, rest: Seq<char>|
        {
            &&& body == #[trigger] (gap + "---"@ + rest)
            &&& forall|k: int| 0 <= k < gap.len() ==> is_white(#[trigger] gap[k])
        };
    reveal_strlit("---");
    let blank = |c: char| is_white(c);
    lemma_leading(body, blank, gap.len());
    let t = body.skip(gap.len() as int);
    assert(t =~= "---"@ + rest);
    lemma_trailing_within(t, 3);
    let n = trailing(t, blank);
    assert(t.take(t.len() - n).take(3) =~= "---"@);
}

/// A whole number is read as it is shown, without its unit.
proof fn lemma_shown_whole(gap: Seq<char>, n: nat, unit: Seq<char>)
    requires
        forall|k: int| 0 <= k < gap.len() ==> is_white(#[trigger] gap[k]),
        n <= u32::MAX,
        unit.len() > 0 ==> is_white(unit[0]),
    ensures
        whole_number(gap + decimal(n) + unit) == Some(n as u32),
{
    let d = decimal(n);
    crate::text::lemma_decimal(n);
    crate::text::lemma_padded_reads_back(n, 0, u32::MAX as nat);
    let u = lemma_trimmed_value(gap, d, unit);
    assert(!has_prefix(d, "---"@)) by {
        reveal_strlit("---");
        if has_prefix(d, "---"@) {
            assert(d.take(3)[0] == d[0]);
        }
    }
    lemma_no_dashes(d, u);
    let t = d + u;
    let p = |c: char| is_digit(c);
    assert forall|k: int| 0 <= k < d.len() implies #[trigger] p(t[k]) by {
        assert(t[k] == d[k]);
    }
    lemma_leading(t, p, d.len());
    assert(t.take(d.len() as int) =~= d);
}

/// A line with one label and one value, which shows a number or nothing.
pub open spec fn valued_line(
    line: Seq<char>,
    label: Seq<char>,
    value: Option<Seq<char>>,
) -> bool {
    exists|indent: Seq<char>, body: Seq<char>|
        {
            &&& line == #[trigger] (indent + (label + body))
            &&& forall|k: int| 0 <= k < indent.len() ==> is_white(#[trigger] indent[k])
            &&& match value {
                Some(number) => shows(body, number),
                None => shows_nothing(body),
            }
        }
}

proof fn lemma_valued_line(line: Seq<char>, label: Seq<char>, value: Option<Seq<char>>)
    requires
        valued_line(line, label, value),
        label.len() >= 2,
        !is_white(label[0]),
    ensures
        has_prefix(unindented(line), label),
        unindented(line).len() >= 2,
        unindented(line)[0] == label[0],
        unindented(line)[1] == label[1],
        number_text(behind(unindented(line), label)) == value,
{
    let (indent, body) = choose|indent: Seq<char>, body: Seq<char>|
        {
            &&& line == #[trigger] (indent + (label + body))
            &&& forall|k: int| 0 <= k < indent.len() ==> is_white(#[trigger] indent[k])
            &&& match value {
                Some(number) => shows(body, number),
                None => shows_nothing(body),
            }
        };
    let t = label + body;
    lemma_indent(indent, t);
    assert(t.take(label.len() as int) =~= label);
    assert(t.skip(label.len() as int) =~= body);
    match value {
        Some(number) => {
            lemma_shown_number(body, number);
        },
        None => {
            lemma_shown_nothing(body);
        },
    }
}

/// Each of the lines with one value sets the value of its own name, as it is
/// shown, and no other; dashes set that there is none.
pub proof fn law_values_go_by_their_labels(
    line: &str,
    acc: &mut TuiStatus,
    value: Option<Seq<char>>,
    done: bool,
)
    ensures
        call_ensures(parse_tui_line, (line, acc), done) ==> {
            &&& valued_line(line@, "IF Level:"@, value) ==> !done && final(acc)@ == (TuiView {
                if_level_db: value,
                ..old(acc)@
            })
            &&& valued_line(line@, "SNR:"@, value) ==> !done && final(acc)@ == (TuiView {
                snr_db: value,
                ..old(acc)@
            })
            &&& valued_line(line@, "DC Frequency of DRM Signal:"@, value) ==> !done && final(acc)@
                == (TuiView { dc_freq_hz: value, ..old(acc)@ })
            &&& valued_line(line@, "Sample Frequency Offset:"@, value) ==> !done && final(acc)@
                == (TuiView { sample_offset_hz: value, ..old(acc)@ })
        },
{
    reveal_strlit("IF Level:");
    reveal_strlit("SNR:");
    reveal_strlit("DC Frequency of DRM Signal:");
    reveal_strlit("Sample Frequency Offset:");
    let t = unindented(line@);
    lemma_which_line(t);
    if valued_line(line@, "IF Level:"@, value) {
        lemma_valued_line(line@, "IF Level:"@, value);
    }
    if valued_line(line@, "SNR:"@, value) {
        lemma_valued_line(line@, "SNR:"@, value);
    }
    if valued_line(line@, "DC Frequency of DRM Signal:"@, value) {
        lemma_valued_line(line@, "DC Frequency of DRM Signal:"@, value);
    }
    if valued_line(line@, "Sample Frequency Offset:"@, value) {
        lemma_valued_line(line@, "Sample Frequency Offset:"@, value);
    }
}

proof fn lemma_slash(s: Seq<char>, at: int, to: int)
    requires
        0 <= at <= to <= s.len(),
        forall|k: int| at <= k < to ==> #[trigger] s[k] != '/',
        to < s.len() ==> s[to] == '/',
    ensures
        slash_from(s, at) == (if to < s.len() {
            Some(to)
        } else {
            None
        }),
    decreases to - at,
{
    if at < to {
        lemma_slash(s, at + 1, to);
    }
}

/// No slash stands in a text.
pub open spec fn slashless(s: Seq<char>) -> bool {
    forall|k: int| 0 <= k < s.len() ==> #[trigger] s[k] != '/'
}

proof fn lemma_halves(a: Seq<char>, b: Seq<char>)
    requires
        slashless(a),
        slashless(b),
    ensures
        halves(a + seq!['/'] + b) == Some((a, b)),
{
    let s = a + seq!['/'] + b;
    lemma_slash(s, 0, a.len() as int);
    assert forall|k: int| a.len() + 1 <= k < s.len() implies #[trigger] s[k] != '/' by {
        assert(s[k] == b[k - a.len() - 1]);
    }
    lemma_slash(s, a.len() as int + 1, s.len() as int);
    assert(s.take(a.len() as int) =~= a);
    assert(s.skip(a.len() as int + 1) =~= b);
}

/// A line with one label and two values with a slash between them.
pub open spec fn paired_line(
    line: Seq<char>,
    label: Seq<char>,
    first: Seq<char>,
    second: Seq<char>,
) -> bool {
    exists|indent: Seq<char>|
        {
            &&& line == #[trigger] (indent + (label + (first + seq!['/'] + second)))
            &&& forall|k: int| 0 <= k < indent.len() ==> is_white(#[trigger] indent[k])
            &&& slashless(first)
            &&& slashless(second)
        }
}

proof fn lemma_paired_line(
    line: Seq<char>,
    label: Seq<char>,
    first: Seq<char>,
    second: Seq<char>,
)
    requires
        paired_line(line, label, first, second),
        label.len() >= 2,
        !is_white(label[0]),
    ensures
        has_prefix(unindented(line), label),
        unindented(line).len() >= 2,
        unindented(line)[0] == label[0],
        unindented(line)[1] == label[1],
        behind(unindented(line), label) == first + seq!['/'] + second,
        halves(behind(unindented(line), label)) == Some((first, second)),
{
    let indent = choose|indent: Seq<char>|
        {
            &&& line == #[trigger] (indent + (label + (first + seq!['/'] + second)))
            &&& forall|k: int| 0 <= k < indent.len() ==> is_white(#[trigger] indent[k])
            &&& slashless(first)
            &&& slashless(second)
        };
    let body = first + seq!['/'] + second;
    let t = label + body;
    lemma_indent(indent, t);
    assert(t.take(label.len() as int) =~= label);
    assert(t.skip(label.len() as int) =~= body);
    lemma_halves(first, second);
}

/// Where a line shows two numbers, the first and the second go to the values
/// that its label names in that order.
pub proof fn law_pairs_keep_their_order(
    line: &str,
    acc: &mut TuiStatus,
    first: Seq<char>,
    second: Seq<char>,
    a: Seq<char>,
    b: Seq<char>,
    done: bool,
)
    requires
        shows(first, a),
        shows(second, b),
    ensures
        call_ensures(parse_tui_line, (line, acc), done) ==> {
            &&& paired_line(line@, "MSC WMER / MSC MER:"@, first, second) ==> !done && final(acc)@
                == (TuiView { wmer_db: Some(a), mer_db: Some(b), ..old(acc)@ })
            &&& paired_line(line@, "Doppler / Delay:"@, first, second) ==> !done && final(acc)@
                == (TuiView { doppler_hz: Some(a), delay_ms: Some(b), ..old(acc)@ })
        },
{
    reveal_strlit("MSC WMER / MSC MER:");
    reveal_strlit("Doppler / Delay:");
    lemma_which_line(unindented(line@));
    lemma_shown_number(first, a);
    lemma_shown_number(second, b);
    if paired_line(line@, "MSC WMER / MSC MER:"@, first, second) {
        lemma_paired_line(line@, "MSC WMER / MSC MER:"@, first, second);
    }
    if paired_line(line@, "Doppler / Delay:"@, first, second) {
        lemma_paired_line(line@, "Doppler / Delay:"@, first, second);
    }
}

/// A name as the screen shows it: with white space around it.
pub open spec fn names(body: Seq<char>, name: Seq<char>) -> bool {
    exists|before: Seq<char>, after: Seq<char>|
        {
            &&& body == #[trigger] (before + name + after)
            &&& forall|k: int| 0 <= k < before.len() ==> is_white(#[trigger] before[k])
            &&& forall|k: int| 0 <= k < after.len() ==> is_white(#[trigger] after[k])
            &&& name.len() > 0
            &&& !is_white(name[0])
            &&& !is_white(name.last())
            &&& !has_prefix(name, "---"@)
        }
}

proof fn lemma_name(body: Seq<char>, name: Seq<char>)
    requires
        names(body, name),
    ensures
        trim(body) == name,
        !is_absent(name),
        name.len() > 0,
{
    let (before, after) = choose|before: Seq<char>, after: Seq<char>|
        {
            &&& body == #[trigger] (before + name + after)
            &&& forall|k: int| 0 <= k < before.len() ==> is_white(#[trigger] before[k])
            &&& forall|k: int| 0 <= k < after.len() ==> is_white(#[trigger] after[k])
            &&& name.len() > 0
            &&& !is_white(name[0])
            &&& !is_white(name.last())
            &&& !has_prefix(name, "---"@)
        };
    crate::text::law_trimming_keeps_the_text(before, name, after);
}

/// The line of mode and bandwidth sets these two: the mode's name as it
/// stands, and the number of kilohertz.
pub proof fn law_mode_and_bandwidth_are_read(
    line: &str,
    acc: &mut TuiStatus,
    first: Seq<char>,
    name: Seq<char>,
    gap: Seq<char>,
    khz: u32,
    unit: Seq<char>,
    done: bool,
)
    requires
        names(first, name),
        forall|k: int| 0 <= k < gap.len() ==> is_white(#[trigger] gap[k]),
        unit.len() > 0 ==> is_white(unit[0]),
        paired_line(
            line@,
            "DRM Mode / Bandwidth:"@,
            first,
            gap + decimal(khz as nat) + unit,
        ),
    ensures
        call_ensures(parse_tui_line, (line, acc), done) ==> !done && final(acc)@ == (TuiView {
            robustness_mode: Some(name),
            bandwidth_khz: Some(khz),
            ..old(acc)@
        }),
{
    reveal_strlit("DRM Mode / Bandwidth:");
    lemma_which_line(unindented(line@));
    lemma_name(first, name);
    lemma_shown_whole(gap, khz as nat, unit);
    lemma_paired_line(line@, "DRM Mode / Bandwidth:"@, first, gap + decimal(khz as nat) + unit);
}

/// The line of the two modulations sets the first for the service
/// description and the second for the audio.
pub proof fn law_modulations_keep_their_order(
    line: &str,
    acc: &mut TuiStatus,
    before: Seq<char>,
    sdc: Seq<char>,
    between: Seq<char>,
    after: Seq<char>,
    msc: Seq<char>,
    end: Seq<char>,
    done: bool,
)
    requires
        forall|k: int| 0 <= k < before.len() ==> is_white(#[trigger] before[k]),
        forall|k: int| 0 <= k < between.len() ==> is_white(#[trigger] between[k]),
        forall|k: int| 0 <= k < after.len() ==> is_white(#[trigger] after[k]),
        forall|k: int| 0 <= k < end.len() ==> is_white(#[trigger] end[k]),
        sdc.len() > 0,
        msc.len() > 0,
        !is_white(sdc[0]),
        !is_white(sdc.last()),
        !is_white(msc[0]),
        !is_white(msc.last()),
        sdc[0] != '-',
        paired_line(
            line@,
            "SDC / MSC Mode:"@,
            before + sdc + between,
            after + msc + end,
        ),
    ensures
        call_ensures(parse_tui_line, (line, acc), done) ==> !done && final(acc)@ == (TuiView {
            sdc_mode: Some(sdc),
            msc_mode: Some(msc),
            ..old(acc)@
        }),
{
    reveal_strlit("SDC / MSC Mode:");
    reveal_strlit("---");
    lemma_which_line(unindented(line@));
    let first = before + sdc + between;
    let second = after + msc + end;
    lemma_paired_line(line@, "SDC / MSC Mode:"@, first, second);
    let body = first + seq!['/'] + second;
    let core = sdc + between + seq!['/'] + after + msc;
    assert(body =~= before + core + end);
    crate::text::law_trimming_keeps_the_text(before, core, end);
    if has_prefix(core, "---"@) {
        assert(core.take(3)[0] == core[0]);
    }
    let a = sdc + between;
    let b = after + msc;
    assert(core =~= a + seq!['/'] + b);
    assert(slashless(a)) by {
        assert forall|k: int| 0 <= k < a.len() implies #[trigger] a[k] != '/' by {
            assert(first[before.len() + k] == a[k]);
        }
    }
    assert(slashless(b)) by {
        assert forall|k: int| 0 <= k < b.len() implies #[trigger] b[k] != '/' by {
            assert(second[k] == b[k]);
        }
    }
    lemma_halves(a, b);
    let none = Seq::<char>::empty();
    crate::text::law_trimming_keeps_the_text(none, sdc, between);
    crate::text::law_trimming_keeps_the_text(after, msc, none);
    assert(none + sdc + between =~= a);
    assert(after + msc + none =~= b);
}

/// The interleaver's depth is the whole number behind its label.
pub proof fn law_interleaver_depth_is_read(
    line: &str,
    acc: &mut TuiStatus,
    indent: Seq<char>,
    gap: Seq<char>,
    seconds: u32,
    unit: Seq<char>,
    done: bool,
)
    requires
        forall|k: int| 0 <= k < indent.len() ==> is_white(#[trigger] indent[k]),
        forall|k: int| 0 <= k < gap.len() ==> is_white(#[trigger] gap[k]),
        unit.len() > 0 ==> is_white(unit[0]),
        line@ == indent + ("Interleaver Depth:"@ + (gap + decimal(seconds as nat) + unit)),
    ensures
        call_ensures(parse_tui_line, (line, acc), done) ==> !done && final(acc)@ == (TuiView {
            interleaver_s: Some(seconds),
            ..old(acc)@
        }),
{
    reveal_strlit("Interleaver Depth:");
    let label = "Interleaver Depth:"@;
    let body = gap + decimal(seconds as nat) + unit;
    let t = label + body;
    lemma_indent(indent, t);
    lemma_which_line(t);
    assert(t.take(label.len() as int) =~= label);
    assert(t.skip(label.len() as int) =~= body);
    lemma_shown_whole(gap, seconds as nat, unit);
}

/// The services as the screen shows them.
pub open spec fn services(audio: nat, data: nat) -> Seq<char> {
    seq![' ', 'A', 'u', 'd', 'i', 'o', ':', ' '] + decimal(audio) + seq![
        ' ', '/', ' ', 'D', 'a', 't', 'a', ':', ' ',
    ] + decimal(data)
}

proof fn lemma_audio_services(audio: u8, data: u8, before: u8)
    ensures
        count(services(audio as nat, data as nat), "Audio:"@, before) == audio,
{
    reveal_strlit("Audio:");
    let body = services(audio as nat, data as nat);
    let a = decimal(audio as nat);
    let unit = seq![' ', '/', ' ', 'D', 'a', 't', 'a', ':', ' '] + decimal(data as nat);
    assert(body.subrange(1, 7) =~= "Audio:"@);
    lemma_after_first(body, "Audio:"@, 1, 0);
    assert(body.skip(7) =~= seq![' '] + a + unit);
    lemma_shown_whole(seq![' '], audio as nat, unit);
}

proof fn lemma_data_services(audio: u8, data: u8, before: u8)
    ensures
        count(services(audio as nat, data as nat), "Data:"@, before) == data,
{
    reveal_strlit("Data:");
    let body = services(audio as nat, data as nat);
    let a = decimal(audio as nat);
    let d = decimal(data as nat);
    crate::text::lemma_decimal(audio as nat);
    let at = 11 + a.len() as int;
    assert(body.subrange(at, at + 5) =~= "Data:"@);
    assert forall|k: int| 0 <= k < at implies #[trigger] body[k] != 'D' by {
        if 8 <= k < 8 + a.len() {
            assert(body[k] == a[k - 8]);
            assert(is_digit(a[k - 8]));
        }
    }
    lemma_after_first(body, "Data:"@, at, 0);
    let none = Seq::<char>::empty();
    assert(body.skip(at + 5) =~= seq![' '] + d + none);
    lemma_shown_whole(seq![' '], data as nat, none);
}

/// The services are counted by their own labels: audio and data.
pub proof fn law_services_are_counted_by_their_labels(
    line: &str,
    acc: &mut TuiStatus,
    indent: Seq<char>,
    audio: u8,
    data: u8,
    done: bool,
)
    requires
        forall|k: int| 0 <= k < indent.len() ==> is_white(#[trigger] indent[k]),
        line@ == indent + ("Number of Services:"@ + services(audio as nat, data as nat)),
    ensures
        call_ensures(parse_tui_line, (line, acc), done) ==> !done && final(acc)@ == (TuiView {
            num_audio_services: audio,
            num_data_services: data,
            ..old(acc)@
        }),
{
    reveal_strlit("Number of Services:");
    let label = "Number of Services:"@;
    let body = services(audio as nat, data as nat);
    let t = label + body;
    lemma_indent(indent, t);
    lemma_which_line(t);
    assert(t.take(label.len() as int) =~= label);
    assert(t.skip(label.len() as int) =~= body);
    lemma_audio_services(audio, data, old(acc)@.num_audio_services);
    lemma_data_services(audio, data, old(acc)@.num_data_services);
}

/// The line with the time completes a report and changes nothing of it.
pub proof fn law_the_time_completes_a_report(
    line: &str,
    acc: &mut TuiStatus,
    indent: Seq<char>,
    rest: Seq<char>,
    done: bool,
)
    requires
        forall|k: int| 0 <= k < indent.len() ==> is_white(#[trigger] indent[k]),
        line@ == indent + ("Received time - date:"@ + rest),
    ensures
        call_ensures(parse_tui_line, (line, acc), done) ==> done && final(acc)@ == old(acc)@,
{
    reveal_strlit("Received time - date:");
    let label = "Received time - date:"@;
    let t = label + rest;
    lemma_indent(indent, t);
    lemma_which_line(t);
    assert(t.take(label.len() as int) =~= label);
}

/// A report is handed out with its last line, and the next one starts empty;
/// until then everything is kept.
pub proof fn law_reports_come_one_by_one(
    reader: &mut StatusReader,
    line: &str,
    r: Option<TuiStatus>,
)
    ensures
        call_ensures(StatusReader::line, (reader, line), r) ==> {
            &&& has_prefix(screen_text(line@), "Received time - date:"@) <==> r is Some
            &&& r matches Some(report) ==> report@ == old(reader)@ && final(reader)@
                == nothing_shown()
        },
{
    if completes_report(screen_text(line@)) {
        law_last_line_only_completes(old(reader)@, screen_text(line@));
    }
}

/// A raw line says what it says without its indent and its line end.
pub proof fn law_line_ends_and_indents_say_nothing(
    indent: Seq<char>,
    text: Seq<char>,
    end: Seq<char>,
)
    requires
        forall|k: int| 0 <= k < indent.len() ==> is_white(#[trigger] indent[k]) && indent[k]
            != '\x1b',
        forall|k: int| 0 <= k < text.len() ==> !is_escape(#[trigger] text[k]),
        forall|k: int| 0 <= k < end.len() ==> #[trigger] end[k] == '\r' || end[k] == '\n',
        text.len() > 0,
        !is_white(text[0]),
        !(text.last() == '\r' || text.last() == '\n'),
    ensures
        screen_text(indent + text + end) == text,
{
    let line = indent + text + end;
    let kept = indent + text;
    lemma_trailing(line, |c: char| c == '\r' || c == '\n', end.len());
    assert(line.take(line.len() - end.len()) =~= kept);
    law_plain_text_is_kept(kept);
    lemma_indent(indent, text);
}

/// The decoder reads from the sound loop or from the file, writes to the
/// other end of the loop, and runs at the configured rate on both sides. The
/// spectrum is mirrored by one more switch, with its number, and only where
/// that is configured.
pub proof fn law_decoder_is_started_as_configured(
    config: &DrmConfig,
    input: DrmInput,
    r: Vec<DreamArg>,
)
    requires
        call_ensures(DrmConfig::args, (config, input), r),
    ensures
        ({
            let v = arg_views(r@);
            let rate = DreamArgView::Text(decimal(config.dream_rate as nat));
            &&& v.len() == if config.flip_spectrum {
                10int
            } else {
                8
            }
            &&& input == DrmInput::AudioBroadcast ==> v[0] == DreamArgView::Text("-I"@) && v[1]
                == DreamArgView::Text("plughw:Loopback,1,0"@)
            &&& input == DrmInput::File ==> v[0] == DreamArgView::Text("-f"@) && v[1]
                == DreamArgView::InputFile
            &&& v[2] == DreamArgView::Text("-O"@)
            &&& v[3] == DreamArgView::Text("plughw:Loopback,0,1"@)
            &&& v[4] == DreamArgView::Text("--sigsrate"@) && v[5] == rate
            &&& v[6] == DreamArgView::Text("--audsrate"@) && v[7] == rate
            &&& config.flip_spectrum ==> v[8] == DreamArgView::Text("-p"@) && v[9]
                == DreamArgView::Text("1"@)
        }),
{
}

/// The end of the decoder is a failure unless it was stopped, or has read
/// its file to the end without one.
pub proof fn law_only_a_stop_or_a_read_file_is_no_failure(
    input: DrmInput,
    exit: DreamExit,
    r: Result<(), DspError>,
)
    requires
        call_ensures(bridge_result, (input, exit), r),
    ensures
        r is Ok <==> exit is Cancelled || input == DrmInput::File && exit == DreamExit::Exited(
            true,
        ),
        r matches Err(e) ==> {
            &&& exit matches DreamExit::WaitFailed(why) ==> e@ == DspErrorView::Drm(
                "dream wait: "@ + why@,
            )
            &&& exit is Exited && input == DrmInput::File ==> e@ == DspErrorView::Drm(
                "dream subprocess exited non-zero"@,
            )
            &&& exit is Exited && input == DrmInput::AudioBroadcast ==> e@ == DspErrorView::Drm(
                "dream subprocess exited"@,
            )
        },
{
}

/// The sound loop's buffer holds half a second.
pub proof fn law_loop_holds_half_a_second(rate: u32, frames: i64)
    requires
        call_ensures(loopback_buffer_frames, (rate,), frames),
    ensures
        2 * frames <= rate <= 2 * frames + 1,
{
}

/// The decoder is found by its name, runs at a rate that it takes, and does
/// not mirror the spectrum.
pub proof fn law_default_decoder(c: DrmConfig)
    requires
        call_ensures(<DrmConfig as Default>::default, (), c),
    ensures
        c.dream_binary@ == "dream"@,
        c.dream_rate == 48_000,
        is_decoder_rate(c.dream_rate as int),
        !c.flip_spectrum,
{
}

/// Stripping removes control codes and keeps everything else, in its order.
pub proof fn law_stripping_keeps_the_text(
    line: &str,
    plain: Seq<char>,
    params: Seq<char>,
    letter: char,
    more: Seq<char>,
    r: String,
)
    requires
        call_ensures(strip_ansi, (line,), r),
        forall|k: int| 0 <= k < plain.len() ==> #[trigger] plain[k] != '\x1b',
        forall|k: int| 0 <= k < more.len() ==> #[trigger] more[k] != '\x1b',
        'A' <= letter <= 'Z' || 'a' <= letter <= 'z',
        forall|k: int|
            0 <= k < params.len() ==> !('A' <= #[trigger] params[k] <= 'Z' || 'a' <= params[k]
                <= 'z'),
    ensures
        line@ == plain ==> r@ == plain,
        line@ == plain + (seq!['\x1b', '['] + params + seq![letter] + more) ==> r@ == plain + more,
{
    law_plain_text_is_kept(plain);
    law_plain_text_is_kept(more);
    law_codes_disappear(plain, params, letter, more);
}

/// A shown number is read as it is shown, and dashes as none.
pub proof fn law_shown_numbers_are_read(
    body: &[char],
    number: Seq<char>,
    r: Option<String>,
    whole: Option<u32>,
)
    requires
        call_ensures(parse_opt_number, (body,), r),
        call_ensures(parse_opt_u32, (body,), whole),
    ensures
        shows(body@, number) ==> (r matches Some(t) && t@ == number),
        shows_nothing(body@) ==> r is None && whole is None,
{
    if shows(body@, number) {
        lemma_shown_number(body@, number);
    }
    if shows_nothing(body@) {
        lemma_shown_nothing(body@);
    }
}

/// A shown whole number is read as that number.
pub proof fn law_shown_whole_numbers_are_read(
    body: &[char],
    gap: Seq<char>,
    n: u32,
    unit: Seq<char>,
    r: Option<u32>,
)
    requires
        call_ensures(parse_opt_u32, (body,), r),
        forall|k: int| 0 <= k < gap.len() ==> is_white(#[trigger] gap[k]),
        unit.len() > 0 ==> is_white(unit[0]),
        body@ == gap + decimal(n as nat) + unit,
    ensures
        r == Some(n),
{
    lemma_shown_whole(gap, n as nat, unit);
}

/// A mark is okay if the first character that is no white space is an `O`.
pub proof fn law_marks_stand_behind_blanks(
    after: &[char],
    blanks: Seq<char>,
    m: char,
    rest: Seq<char>,
    r: bool,
)
    requires
        call_ensures(flag_ok, (after,), r),
        forall|k: int| 0 <= k < blanks.len() ==> is_white(#[trigger] blanks[k]),
        !is_white(m),
    ensures
        after@ == blanks + (seq![m] + rest) ==> (r <==> m == 'O'),
        after@ == blanks ==> !r,
{
    lemma_indent(blanks, seq![m] + rest);
    lemma_leading(blanks, |c: char| is_white(c), blanks.len());
}

/// A report starts with nothing in it.
pub proof fn law_reports_start_empty(s: TuiStatus, reader: StatusReader)
    requires
        call_ensures(TuiStatus::empty, (), s),
        call_ensures(StatusReader::new, (), reader),
    ensures
        reader@ == s@,
        !s.io_ok && !s.time_ok && !s.frame_ok && !s.fac_ok && !s.sdc_ok && !s.msc_ok,
        s.if_level_db is None && s.snr_db is None && s.wmer_db is None && s.mer_db is None,
        s.dc_freq_hz is None && s.sample_offset_hz is None && s.doppler_hz is None && s.delay_ms
            is None,
        s.robustness_mode is None && s.bandwidth_khz is None && s.sdc_mode is None && s.msc_mode
            is None && s.interleaver_s is None,
        s.num_audio_services == 0 && s.num_data_services == 0,
{
}

/// Numbers are written with digits, a point, signs and an exponent, and with
/// nothing else.
pub proof fn law_characters_of_numbers(c: char)
    ensures
        is_number_char(c) <==> '0' <= c <= '9' || c == '.' || c == '-' || c == '+' || c == 'e' || c
            == 'E',
{
}

proof fn lemma_no_label(s: Seq<char>, p: Seq<char>, at: int)
    requires
        0 <= at,
        p.len() >= 2,
        forall|k: int| 0 <= k < s.len() - 1 ==> !(#[trigger] s[k] == p[0] && s[k + 1] == p[1]),
    ensures
        after_first(s, p, at) is None,
    decreases s.len() + 1 - at,
{
    if at <= s.len() {
        let t = s.skip(at);
        if has_prefix(t, p) {
            assert(t.take(p.len() as int)[0] == s[at]);
            assert(t.take(p.len() as int)[1] == s[at + 1]);
        }
        lemma_no_label(s, p, at + 1);
    }
}

/// A count is the whole number behind its label, wherever that stands; one
/// that cannot be read is none. Without the label the count stays.
pub proof fn law_counts_stand_behind_their_labels(
    label: Seq<char>,
    front: Seq<char>,
    after: &[char],
    before: u8,
    r: Option<u32>,
)
    requires
        label == "Audio:"@ || label == "Data:"@,
        call_ensures(parse_opt_u32, (after,), r),
    ensures
        (forall|k: int|
            0 <= k < front.len() ==> !(#[trigger] (front + label)[k] == label[0] && (front + label)[k
                + 1] == label[1])) ==> count(front + label + after@, label, before) == match r {
            Some(n) => n % 256,
            None => 0,
        },
        (forall|k: int|
            0 <= k < front.len() - 1 ==> !(#[trigger] front[k] == label[0] && front[k + 1]
                == label[1])) ==> count(front, label, before) == before,
{
    reveal_strlit("Audio:");
    reveal_strlit("Data:");
    let s = front + label + after@;
    let n = front.len() as int;
    if forall|k: int|
        0 <= k < n ==> !(#[trigger] (front + label)[k] == label[0] && (front + label)[k + 1]
            == label[1]) {
        assert(s.subrange(n, n + label.len()) =~= label);
        assert forall|k: int| 0 <= k < n implies !(#[trigger] s[k] == label[0] && s[k + 1]
            == label[1]) by {
            assert(s[k] == (front + label)[k] && s[k + 1] == (front + label)[k + 1]);
        }
        lemma_after_first(s, label, n, 0);
        assert(s.skip(n + label.len()) =~= after@);
    }
    if forall|k: int|
        0 <= k < front.len() - 1 ==> !(#[trigger] front[k] == label[0] && front[k + 1] == label[1]) {
        lemma_no_label(front, label, 0);
    }
}

} // verus!
