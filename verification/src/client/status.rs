//! The display's lines about the signal: processing, decoded text, DRM and
//! recording.
use crate::client::tuning::opt_str;
use crate::proto::messages::DrmStatus;
use crate::proto::radio::{DecoderKind, RecKind};
use crate::text::{chars_of, decimal, push_decimal, string_of, trim, trimmed};
use vstd::prelude::*;
use vstd::string::*;

verus! {

/// The texts of a list of strings.
pub open spec fn texts(v: Seq<String>) -> Seq<Seq<char>> {
    Seq::new(v.len(), |i: int| v[i]@)
}

/// Texts one after another with something between them.
pub open spec fn joined(parts: Seq<Seq<char>>, between: Seq<char>) -> Seq<char>
    decreases parts.len(),
{
    if parts.len() == 0 {
        Seq::empty()
    } else if parts.len() == 1 {
        parts[0]
    } else {
        joined(parts.drop_last(), between) + between + parts.last()
    }
}

fn join(parts: &Vec<String>, between: &str) -> (r: String)
    ensures
        r@ == joined(texts(parts@), between@),
{
    let mut out: String = String::new();
    let mut i: usize = 0;
    while i < parts.len()
        invariant
            i <= parts@.len(),
            out@ == joined(texts(parts@).take(i as int), between@),
        decreases parts@.len() - i,
    {
        proof {
            let next = texts(parts@).take(i + 1);
            assert(next.drop_last() =~= texts(parts@).take(i as int));
        }
        if i > 0 {
            out.append(between);
        }
        out.append(parts[i].as_str());
        i += 1;
    }
    assert(texts(parts@).take(i as int) =~= texts(parts@));
    out
}

// ---------------------------------------------------------------------------
// Processing and decoders
// ---------------------------------------------------------------------------

/// The name of a decoder.
pub open spec fn decoder_text(kind: DecoderKind) -> Seq<char> {
    match kind {
        DecoderKind::Cw => "Cw"@,
        DecoderKind::Rtty => "Rtty"@,
        DecoderKind::Psk => "Psk"@,
        DecoderKind::Mfsk => "Mfsk"@,
        DecoderKind::Fax => "Fax"@,
        DecoderKind::Pckt => "Pckt"@,
        DecoderKind::Wspr => "Wspr"@,
        DecoderKind::Ft8 => "Ft8"@,
        DecoderKind::Aprs => "Aprs"@,
    }
}

/// The name of a decoder.
pub fn decoder_name(kind: DecoderKind) -> (r: &'static str)
    ensures
        r@ == decoder_text(kind),
{
    match kind {
        DecoderKind::Cw => "Cw",
        DecoderKind::Rtty => "Rtty",
        DecoderKind::Psk => "Psk",
        DecoderKind::Mfsk => "Mfsk",
        DecoderKind::Fax => "Fax",
        DecoderKind::Pckt => "Pckt",
        DecoderKind::Wspr => "Wspr",
        DecoderKind::Ft8 => "Ft8",
        DecoderKind::Aprs => "Aprs",
    }
}

/// What the status line shows besides the signal.
#[derive(Debug)]
pub struct Processing {
    pub nb_on: bool,
    pub dnr_on: bool,
    pub dnf_on: bool,
    pub apf_on: bool,
    pub decoders: Vec<DecoderKind>,
}

/// A name in bold.
pub open spec fn bold(t: Seq<char>) -> Seq<char> {
    "<b>"@ + t + "</b>"@
}

fn in_bold(t: &str) -> (r: String)
    ensures
        r@ == bold(t@),
{
    "<b>".to_owned().concat(t).concat("</b>")
}

/// The name of a stage: bold where it is on, dim where it is off.
pub open spec fn stage_tag(label: Seq<char>, on: bool) -> Seq<char> {
    if on {
        bold(label)
    } else {
        "<span alpha='45%'>"@ + label + "<sub>off</sub></span>"@
    }
}

fn tag(label: &str, on: bool) -> (r: String)
    ensures
        r@ == stage_tag(label@, on),
{
    if on {
        in_bold(label)
    } else {
        "<span alpha='45%'>".to_owned().concat(label).concat("<sub>off</sub></span>")
    }
}

/// The decoders that are on, or a dash.
pub open spec fn decoders_text(decoders: Seq<DecoderKind>) -> Seq<char> {
    if decoders.len() == 0 {
        "<i>—</i>"@
    } else {
        joined(Seq::new(decoders.len(), |i: int| bold(decoder_text(decoders[i]))), " "@)
    }
}

fn decoders_line(decoders: &Vec<DecoderKind>) -> (r: String)
    ensures
        r@ == decoders_text(decoders@),
{
    if decoders.len() == 0 {
        return "<i>—</i>".to_owned();
    }
    let mut parts: Vec<String> = Vec::new();
    let mut i: usize = 0;
    while i < decoders.len()
        invariant
            i <= decoders@.len(),
            texts(parts@) == Seq::new(i as nat, |j: int| bold(decoder_text(decoders@[j]))),
        decreases decoders@.len() - i,
    {
        let ghost before = parts@;
        parts.push(in_bold(decoder_name(decoders[i])));
        assert(texts(parts@) =~= texts(before).push(bold(decoder_text(decoders@[i as int]))));
        assert(texts(parts@) =~= Seq::new(
            (i + 1) as nat,
            |j: int| bold(decoder_text(decoders@[j])),
        ));
        i += 1;
    }
    join(&parts, " ")
}

/// The status line: signal-to-noise ratio, the stages, and the decoders.
pub open spec fn status_text(
    snr: Option<Seq<char>>,
    nb: bool,
    dnr: bool,
    dnf: bool,
    apf: bool,
    decoders: Seq<DecoderKind>,
) -> Seq<char> {
    "SNR "@ + (match snr {
        Some(t) => bold(t) + " dB"@,
        None => "<i>—</i>"@,
    }) + "   "@ + stage_tag("NB"@, nb) + "  "@ + stage_tag("DNR"@, dnr) + "  "@ + stage_tag(
        "DNF"@,
        dnf,
    ) + "  "@ + stage_tag("APF"@, apf) + "   decode "@ + decoders_text(decoders)
}

/// The status line. `snr` is the ratio in dB as text, where one is known.
/// There is none in the DRM mode, whose own lines stand in its place.
pub fn refresh_status_line(p: &Processing, snr: Option<&str>, in_drm: bool) -> (r: Option<String>)
    ensures
        match r {
            Some(line) => !in_drm && line@ == status_text(
                opt_str(snr),
                p.nb_on,
                p.dnr_on,
                p.dnf_on,
                p.apf_on,
                p.decoders@,
            ),
            None => in_drm,
        },
{
    if in_drm {
        return None;
    }
    let mut s: String = "SNR ".to_owned();
    match snr {
        Some(t) => {
            let ratio: String = in_bold(t).concat(" dB");
            s.append(ratio.as_str());
        },
        None => {
            s.append("<i>—</i>");
        },
    }
    s.append("   ");
    s.append(tag("NB", p.nb_on).as_str());
    s.append("  ");
    s.append(tag("DNR", p.dnr_on).as_str());
    s.append("  ");
    s.append(tag("DNF", p.dnf_on).as_str());
    s.append("  ");
    s.append(tag("APF", p.apf_on).as_str());
    s.append("   decode ");
    s.append(decoders_line(&p.decoders).as_str());
    Some(s)
}

// ---------------------------------------------------------------------------
// Decoded text
// ---------------------------------------------------------------------------

/// Lines of decoded text that are kept.
pub const DECODED_LINES_KEPT: usize = 6;

/// The newest lines of decoded text.
pub struct DecodedLog {
    lines: Vec<String>,
}

impl View for DecodedLog {
    type V = Seq<Seq<char>>;

    closed spec fn view(&self) -> Seq<Seq<char>> {
        texts(self.lines@)
    }
}

/// A line of the log: the decoder's name, and its text.
pub open spec fn decoded_line(decoder: DecoderKind, text: Seq<char>) -> Seq<char> {
    "["@ + decoder_text(decoder) + "] "@ + trim(text)
}

/// The log with one more line, of which the newest are kept.
pub open spec fn log_after(lines: Seq<Seq<char>>, line: Seq<char>) -> Seq<Seq<char>> {
    if lines.len() >= DECODED_LINES_KEPT {
        lines.skip(lines.len() - DECODED_LINES_KEPT + 1).push(line)
    } else {
        lines.push(line)
    }
}

impl DecodedLog {
    pub fn new() -> (r: Self)
        ensures
            r@ == Seq::<Seq<char>>::empty(),
    {
        let r = DecodedLog { lines: Vec::new() };
        r
    }

    /// Adds what a decoder has read, and gives the text of the whole log.
    /// Blank text changes nothing.
    pub fn push_decoded(&mut self, decoder: DecoderKind, text: &str) -> (r: Option<String>)
        ensures
            match r {
                Some(all) => {
                    &&& trim(text@).len() > 0
                    &&& final(self)@ == log_after(old(self)@, decoded_line(decoder, text@))
                    &&& all@ == joined(final(self)@, "\n"@)
                },
                None => trim(text@).len() == 0 && final(self)@ == old(self)@,
            },
    {
        let v: Vec<char> = chars_of(text);
        let t: &[char] = trimmed(v.as_slice());
        if t.len() == 0 {
            return None;
        }
        let len: usize = self.lines.len();
        if len >= DECODED_LINES_KEPT {
            let mut newer: Vec<String> = self.lines.split_off(len - DECODED_LINES_KEPT + 1);
            std::mem::swap(&mut self.lines, &mut newer);
        }
        let mut line: String = "[".to_owned();
        line.append(decoder_name(decoder));
        line.append("] ");
        line.append(string_of(t).as_str());
        self.lines.push(line);
        Some(join(&self.lines, "\n"))
    }
}

/// The log never grows beyond its bound, and its last line is the newest.
pub proof fn law_log_is_bounded(lines: Seq<Seq<char>>, line: Seq<char>)
    ensures
        log_after(lines, line).len() <= DECODED_LINES_KEPT,
        log_after(lines, line).last() == line,
        lines.len() < DECODED_LINES_KEPT ==> log_after(lines, line) == lines.push(line),
{
}

// ---------------------------------------------------------------------------
// DRM
// ---------------------------------------------------------------------------

/// A text, or dashes where there is none.
pub open spec fn or_dashes(t: Option<Seq<char>>) -> Seq<char> {
    match t {
        Some(s) => s,
        None => "---"@,
    }
}

/// A string that may be missing, as text.
pub open spec fn opt_view(s: Option<String>) -> Option<Seq<char>> {
    match s {
        Some(t) => Some(t@),
        None => None,
    }
}

/// The first DRM line: mode, bandwidth, modulation and services.
pub open spec fn drm_text1(
    mode: Option<Seq<char>>,
    bandwidth_khz: Option<u32>,
    modulation: Option<Seq<char>>,
    audio: u8,
    data: u8,
) -> Seq<char> {
    "DRM Mode "@ + or_dashes(mode) + " · "@ + or_dashes(
        match bandwidth_khz {
            Some(v) => Some(decimal(v as nat) + " kHz"@),
            None => None,
        },
    ) + " · "@ + or_dashes(modulation) + " · Audio:"@ + decimal(audio as nat) + " Data:"@ + decimal(
        data as nat,
    )
}

fn drm_first(
    mode: Option<&str>,
    bandwidth_khz: Option<u32>,
    modulation: Option<&str>,
    audio: u8,
    data: u8,
) -> (r: String)
    ensures
        r@ == drm_text1(opt_str(mode), bandwidth_khz, opt_str(modulation), audio, data),
{
    let mut s: String = "DRM Mode ".to_owned();
    match mode {
        Some(t) => {
            s.append(t);
        },
        None => {
            s.append("---");
        },
    }
    s.append(" · ");
    match bandwidth_khz {
        Some(v) => {
            let mut khz: String = String::new();
            push_decimal(&mut khz, v as u64);
            khz.append(" kHz");
            s.append(khz.as_str());
        },
        None => {
            s.append("---");
        },
    }
    s.append(" · ");
    match modulation {
        Some(t) => {
            s.append(t);
        },
        None => {
            s.append("---");
        },
    }
    s.append(" · Audio:");
    push_decimal(&mut s, audio as u64);
    s.append(" Data:");
    push_decimal(&mut s, data as u64);
    s
}

/// The mark of a lock.
pub open spec fn lock_mark(ok: bool) -> Seq<char> {
    if ok {
        "✓"@
    } else {
        "✗"@
    }
}

fn mark(ok: bool) -> (r: &'static str)
    ensures
        r@ == lock_mark(ok),
{
    if ok {
        "✓"
    } else {
        "✗"
    }
}

/// A level in dB, or dashes.
pub open spec fn level(t: Option<Seq<char>>) -> Seq<char> {
    or_dashes(
        match t {
            Some(s) => Some(s + " dB"@),
            None => None,
        },
    )
}

/// The second DRM line: the two ratios and the locks.
pub open spec fn drm_text2(
    snr: Option<Seq<char>>,
    wmer: Option<Seq<char>>,
    fac: bool,
    sdc: bool,
    msc: bool,
) -> Seq<char> {
    "SNR "@ + level(snr) + " · WMER "@ + level(wmer) + " · FAC "@ + lock_mark(fac) + " · SDC "@
        + lock_mark(sdc) + " · MSC "@ + lock_mark(msc)
}

fn push_level(s: &mut String, t: Option<&str>)
    ensures
        final(s)@ == old(s)@ + level(opt_str(t)),
{
    match t {
        Some(n) => {
            let both: String = n.to_owned().concat(" dB");
            s.append(both.as_str());
        },
        None => {
            s.append("---");
        },
    }
}

fn drm_second(snr: Option<&str>, wmer: Option<&str>, fac: bool, sdc: bool, msc: bool) -> (r: String)
    ensures
        r@ == drm_text2(opt_str(snr), opt_str(wmer), fac, sdc, msc),
{
    let mut s: String = "SNR ".to_owned();
    push_level(&mut s, snr);
    s.append(" · WMER ");
    push_level(&mut s, wmer);
    s.append(" · FAC ");
    s.append(mark(fac));
    s.append(" · SDC ");
    s.append(mark(sdc));
    s.append(" · MSC ");
    s.append(mark(msc));
    s
}

/// The two lines that the display has for DRM.
#[derive(Debug)]
pub struct DrmLines {
    pub first: String,
    pub second: String,
}

fn as_opt_str(s: &Option<String>) -> (r: Option<&str>)
    ensures
        opt_str(r) == opt_view(*s),
{
    match s {
        Some(t) => Some(t.as_str()),
        None => None,
    }
}

/// The DRM lines for a decoder's report. `snr` and `wmer` are its two ratios
/// as text, where it has them.
pub fn update_drm(s: &DrmStatus, snr: Option<&str>, wmer: Option<&str>) -> (r: DrmLines)
    ensures
        r.first@ == drm_text1(
            opt_view(s.robustness_mode),
            s.bandwidth_khz,
            opt_view(s.msc_mode),
            s.num_audio_services,
            s.num_data_services,
        ),
        r.second@ == drm_text2(opt_str(snr), opt_str(wmer), s.fac_ok, s.sdc_ok, s.msc_ok),
{
    DrmLines {
        first: drm_first(
            as_opt_str(&s.robustness_mode),
            s.bandwidth_khz,
            as_opt_str(&s.msc_mode),
            s.num_audio_services,
            s.num_data_services,
        ),
        second: drm_second(snr, wmer, s.fac_ok, s.sdc_ok, s.msc_ok),
    }
}

/// The DRM lines before the first report: those of a report that says
/// nothing.
pub fn prime_drm_placeholders() -> (r: DrmLines)
    ensures
        r.first@ == drm_text1(None, None, None, 0, 0),
        r.second@ == drm_text2(None, None, false, false, false),
{
    DrmLines {
        first: drm_first(None, None, None, 0, 0),
        second: drm_second(None, None, false, false, false),
    }
}

// ---------------------------------------------------------------------------
// Recording
// ---------------------------------------------------------------------------

/// What is recorded.
pub open spec fn rec_kind_text(kind: Option<RecKind>) -> Seq<char> {
    match kind {
        Some(RecKind::Iq) => "IQ"@,
        Some(RecKind::Audio) => "audio"@,
        None => "?"@,
    }
}

/// The line about a recording. `duration` is its length in seconds as text,
/// where it is known, and `kib` its size. Without a recording it is blank.
pub fn recording_line(
    active: bool,
    kind: Option<RecKind>,
    duration: Option<&str>,
    kib: &str,
) -> (r: String)
    ensures
        r@ == (if active {
            "REC "@ + rec_kind_text(kind) + ": "@ + (match opt_str(duration) {
                Some(t) => t + "s"@,
                None => "  ---"@,
            }) + "  "@ + kib@ + " KiB"@
        } else {
            Seq::empty()
        }),
{
    if !active {
        return String::new();
    }
    let mut s: String = "REC ".to_owned();
    s.append(
        match kind {
            Some(RecKind::Iq) => "IQ",
            Some(RecKind::Audio) => "audio",
            None => "?",
        },
    );
    s.append(": ");
    match duration {
        Some(t) => {
            let seconds: String = t.to_owned().concat("s");
            s.append(seconds.as_str());
        },
        None => {
            s.append("  ---");
        },
    }
    s.append("  ");
    s.append(kib);
    s.append(" KiB");
    s
}

// ---------------------------------------------------------------------------
// Laws
// ---------------------------------------------------------------------------

/// How a stage's name looks on the line.
pub open spec fn shown_stage(name: Seq<char>, on: bool) -> Seq<char> {
    if on {
        "<b>"@ + name + "</b>"@
    } else {
        "<span alpha='45%'>"@ + name + "<sub>off</sub></span>"@
    }
}

/// The status line shows every stage under its own name, in bold if and only
/// if it is on, behind the signal-to-noise ratio and before the decoders. In
/// DRM there is no such line.
pub proof fn law_the_line_shows_every_stage(
    p: &Processing,
    snr: Option<&str>,
    in_drm: bool,
    r: Option<String>,
)
    requires
        call_ensures(refresh_status_line, (p, snr, in_drm), r),
    ensures
        r is None <==> in_drm,
        r matches Some(line) ==> line@ == "SNR "@ + (match snr {
            Some(t) => "<b>"@ + t@ + "</b>"@ + " dB"@,
            None => "<i>—</i>"@,
        }) + "   "@ + shown_stage("NB"@, p.nb_on) + "  "@ + shown_stage("DNR"@, p.dnr_on) + "  "@
            + shown_stage("DNF"@, p.dnf_on) + "  "@ + shown_stage("APF"@, p.apf_on)
            + "   decode "@ + decoders_text(p.decoders@),
{
}

/// The decoders that are on are shown in their order, with a space between
/// two of them; a dash stands for none.
pub proof fn law_decoders_are_shown_in_order(decoders: Seq<DecoderKind>, kind: DecoderKind)
    ensures
        decoders_text(seq![kind]) == "<b>"@ + decoder_text(kind) + "</b>"@,
        decoders.len() > 0 ==> decoders_text(decoders.push(kind)) == decoders_text(decoders) + " "@
            + ("<b>"@ + decoder_text(kind) + "</b>"@),
        decoders_text(Seq::empty()) == "<i>—</i>"@,
{
    let f = |s: Seq<DecoderKind>| Seq::new(s.len(), |i: int| bold(decoder_text(s[i])));
    assert(f(seq![kind]) =~= seq![bold(decoder_text(kind))]);
    let more = decoders.push(kind);
    assert(f(more).drop_last() =~= f(decoders));
}

/// Every decoder has its own name.
pub proof fn law_decoders_are_told_apart(kind: DecoderKind, r: &'static str)
    requires
        call_ensures(decoder_name, (kind,), r),
    ensures
        match kind {
            DecoderKind::Cw => r@ == "Cw"@,
            DecoderKind::Rtty => r@ == "Rtty"@,
            DecoderKind::Psk => r@ == "Psk"@,
            DecoderKind::Mfsk => r@ == "Mfsk"@,
            DecoderKind::Fax => r@ == "Fax"@,
            DecoderKind::Pckt => r@ == "Pckt"@,
            DecoderKind::Wspr => r@ == "Wspr"@,
            DecoderKind::Ft8 => r@ == "Ft8"@,
            DecoderKind::Aprs => r@ == "Aprs"@,
        },
{
}

/// A decoded text is added at the end, with its decoder in front; the log
/// keeps the six newest lines in their order, and shows them one below the
/// other. Blank text is no line.
pub proof fn law_the_log_keeps_the_newest_lines(
    log: &mut DecodedLog,
    decoder: DecoderKind,
    text: &str,
    r: Option<String>,
)
    requires
        old(log)@.len() <= 6,
    ensures
        call_ensures(DecodedLog::push_decoded, (log, decoder, text), r) ==> {
            let line = "["@ + decoder_text(decoder) + "] "@ + trim(text@);
            let all = old(log)@.push(line);
            &&& r is None <==> trim(text@).len() == 0
            &&& r is None ==> final(log)@ == old(log)@
            &&& r is Some && old(log)@.len() < 6 ==> final(log)@ == all
            &&& r is Some && old(log)@.len() == 6 ==> final(log)@ == all.skip(1)
            &&& r matches Some(shown) ==> shown@ == joined(final(log)@, "\n"@)
        },
{
    let line = "["@ + decoder_text(decoder) + "] "@ + trim(text@);
    if old(log)@.len() == 6 {
        assert(old(log)@.push(line).skip(1) =~= old(log)@.skip(1).push(line));
    }
}

/// Lines that are shown together keep their order, with a line feed between
/// two of them.
pub proof fn law_shown_lines_keep_their_order(lines: Seq<Seq<char>>, line: Seq<char>)
    ensures
        joined(seq![line], "\n"@) == line,
        lines.len() > 0 ==> joined(lines.push(line), "\n"@) == joined(lines, "\n"@) + "\n"@ + line,
{
    assert(lines.push(line).drop_last() =~= lines);
}

/// The first DRM line shows the mode, the bandwidth, the modulation of the
/// audio and the services; the second the two ratios and the three locks,
/// each mark behind its own name. Dashes stand for what is not known.
pub proof fn law_drm_lines_show_the_report(
    s: &DrmStatus,
    snr: Option<&str>,
    wmer: Option<&str>,
    r: DrmLines,
)
    requires
        call_ensures(update_drm, (s, snr, wmer), r),
    ensures
        r.first@ == "DRM Mode "@ + (match s.robustness_mode {
            Some(t) => t@,
            None => "---"@,
        }) + " · "@ + (match s.bandwidth_khz {
            Some(v) => decimal(v as nat) + " kHz"@,
            None => "---"@,
        }) + " · "@ + (match s.msc_mode {
            Some(t) => t@,
            None => "---"@,
        }) + " · Audio:"@ + decimal(s.num_audio_services as nat) + " Data:"@ + decimal(
            s.num_data_services as nat,
        ),
        r.second@ == "SNR "@ + (match snr {
            Some(t) => t@ + " dB"@,
            None => "---"@,
        }) + " · WMER "@ + (match wmer {
            Some(t) => t@ + " dB"@,
            None => "---"@,
        }) + " · FAC "@ + (if s.fac_ok {
            "✓"@
        } else {
            "✗"@
        }) + " · SDC "@ + (if s.sdc_ok {
            "✓"@
        } else {
            "✗"@
        }) + " · MSC "@ + (if s.msc_ok {
            "✓"@
        } else {
            "✗"@
        }),
{
}

/// Before the first report the DRM lines are those of a report that says
/// nothing and locks nothing.
pub proof fn law_drm_lines_start_empty(
    s: &DrmStatus,
    empty: DrmLines,
    r: DrmLines,
)
    requires
        call_ensures(update_drm, (s, None::<&str>, None::<&str>), empty),
        call_ensures(prime_drm_placeholders, (), r),
        s.robustness_mode is None && s.bandwidth_khz is None && s.msc_mode is None,
        s.num_audio_services == 0 && s.num_data_services == 0,
        !s.fac_ok && !s.sdc_ok && !s.msc_ok,
    ensures
        r.first@ == empty.first@,
        r.second@ == empty.second@,
{
}

/// The recording line says what is recorded, how long and how much, and is
/// blank without a recording.
pub proof fn law_the_line_says_what_is_recorded(
    active: bool,
    kind: Option<RecKind>,
    duration: Option<&str>,
    kib: &str,
    r: String,
)
    requires
        call_ensures(recording_line, (active, kind, duration, kib), r),
    ensures
        !active ==> r@.len() == 0,
        active ==> r@ == "REC "@ + (match kind {
            Some(RecKind::Iq) => "IQ"@,
            Some(RecKind::Audio) => "audio"@,
            None => "?"@,
        }) + ": "@ + (match duration {
            Some(t) => t@ + "s"@,
            None => "  ---"@,
        }) + "  "@ + kib@ + " KiB"@,
{
}

} // verus!
