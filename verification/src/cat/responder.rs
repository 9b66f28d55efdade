//! The line protocol by which other programs control the station, with the
//! vocabulary that hamlib's `rigctld` clients need first: `f`/`F` frequency,
//! `m`/`M` mode, `t`/`T` transmit, `q` quit.
use crate::cat::commands::{mode_text, set_mode, tune, tune_text, MAX_FREQ_HZ};
use crate::proto::codec::text_from_utf8;
use crate::proto::filters::{am_family, mode_digit};
use crate::proto::messages::{CatCommand, RadioState};
use crate::proto::radio::{Mode, Vfo};
use crate::text::{
    chars_of, decimal, is_text, parse_unsigned, push_decimal, trim, trimmed, unsigned_text, words,
    words_of,
};
use vstd::prelude::*;
use vstd::string::*;

verus! {

/// How many clients one responder serves at a time.
pub const MAX_CONCURRENT_CONNS: usize = 16;

/// The lowest frequency that a client may ask for.
pub const MIN_FREQ_HZ: u64 = 1_000;

/// How long a command line may be.
pub const MAX_LINE_BYTES: usize = 4096;

// ---------------------------------------------------------------------------
// Mode names
// ---------------------------------------------------------------------------

/// The protocol's name for a mode. Modes that only the software demodulator
/// knows are reported as AM, an unknown mode as USB.
pub open spec fn mode_name(mode: Mode) -> Seq<char> {
    if mode == Mode::USB || mode == Mode::Unknown {
        "USB"@
    } else if mode == Mode::LSB {
        "LSB"@
    } else if mode == Mode::CW {
        "CW"@
    } else if mode == Mode::CWR {
        "CWR"@
    } else if mode == Mode::FM {
        "FM"@
    } else {
        "AM"@
    }
}

/// The mode that a name of the protocol stands for.
pub open spec fn named_mode(name: Seq<char>) -> Option<Mode> {
    if name == "USB"@ || name == "PKTUSB"@ {
        Some(Mode::USB)
    } else if name == "LSB"@ || name == "PKTLSB"@ {
        Some(Mode::LSB)
    } else if name == "CW"@ {
        Some(Mode::CW)
    } else if name == "CWR"@ {
        Some(Mode::CWR)
    } else if name == "AM"@ {
        Some(Mode::AM)
    } else if name == "FM"@ || name == "PKTFM"@ || name == "FMN"@ || name == "WFM"@ {
        Some(Mode::FM)
    } else {
        None
    }
}

/// The protocol's name for a mode.
pub fn mode_to_str(mode: Mode) -> (r: &'static str)
    ensures
        r@ == mode_name(mode),
{
    match mode {
        Mode::USB => "USB",
        Mode::LSB => "LSB",
        Mode::CW => "CW",
        Mode::CWR => "CWR",
        Mode::AM => "AM",
        Mode::FM => "FM",
        Mode::DRM | Mode::SAM | Mode::SAMU | Mode::SAML | Mode::DSB => "AM",
        Mode::Unknown => "USB",
    }
}

fn mode_from_chars(s: &[char]) -> (r: Option<Mode>)
    ensures
        r == named_mode(s@),
{
    if is_text(s, "USB") || is_text(s, "PKTUSB") {
        Some(Mode::USB)
    } else if is_text(s, "LSB") || is_text(s, "PKTLSB") {
        Some(Mode::LSB)
    } else if is_text(s, "CW") {
        Some(Mode::CW)
    } else if is_text(s, "CWR") {
        Some(Mode::CWR)
    } else if is_text(s, "AM") {
        Some(Mode::AM)
    } else if is_text(s, "FM") || is_text(s, "PKTFM") || is_text(s, "FMN") || is_text(s, "WFM") {
        Some(Mode::FM)
    } else {
        None
    }
}

/// The mode that a name of the protocol stands for; `None` for any other
/// text.
pub fn str_to_mode(s: &str) -> (r: Option<Mode>)
    ensures
        r == named_mode(s@),
{
    let v: Vec<char> = chars_of(s);
    mode_from_chars(v.as_slice())
}

/// The radio command for a mode.
pub fn mode_to_cat(mode: Mode) -> (r: Option<String>)
    ensures
        match (mode_digit(mode), r) {
            (Some(digit), Some(raw)) => raw@ == mode_text(digit),
            (None, None) => true,
            _ => false,
        },
{
    match set_mode(mode) {
        Some(cmd) => Some(cmd.raw),
        None => None,
    }
}

// ---------------------------------------------------------------------------
// Commands
// ---------------------------------------------------------------------------

/// What a responder controls.
#[derive(Debug, Clone, Copy, PartialEq, Eq, Structural)]
pub enum Backend {
    /// The radio: everything goes out as radio commands.
    Hardware,
    /// The software demodulator, with the mode it is set to. Only the radio
    /// can tune, and the demodulator cannot transmit.
    Demod { mode: Option<Mode> },
}

/// What a command line asks for.
#[derive(Debug)]
pub enum Request {
    /// Answer with this text.
    Answer(String),
    /// Send this to the radio, then answer with [`sent_answer`].
    SendCat(CatCommand),
    /// Set the demodulator to this mode, then answer with [`sent_answer`] for
    /// a success.
    SetDemodMode(Mode),
    /// Close the connection without an answer.
    Close,
}

/// A [`Request`] as mathematics.
pub enum RequestView {
    Answer(Seq<char>),
    SendCat(Seq<char>),
    SetDemodMode(Mode),
    Close,
}

impl View for Request {
    type V = RequestView;

    open spec fn view(&self) -> RequestView {
        match self {
            Request::Answer(s) => RequestView::Answer(s@),
            Request::SendCat(cmd) => RequestView::SendCat(cmd.raw@),
            Request::SetDemodMode(mode) => RequestView::SetDemodMode(*mode),
            Request::Close => RequestView::Close,
        }
    }
}

/// Report 0: done.
pub open spec fn report_done() -> Seq<char> {
    "RPRT 0\n"@
}

/// Report -1: an argument is missing or no number.
pub open spec fn report_argument() -> Seq<char> {
    "RPRT -1\n"@
}

/// Report -6: the radio's command queue is closed.
pub open spec fn report_io() -> Seq<char> {
    "RPRT -6\n"@
}

/// Report -11: not available, or not a valid value.
pub open spec fn report_unavailable() -> Seq<char> {
    "RPRT -11\n"@
}

/// The mode in force: the demodulator's own where it has one, else the
/// radio's.
pub open spec fn mode_in_force(backend: Backend, state: Option<RadioState>) -> Mode {
    let radio = match state {
        Some(s) => s.mode,
        None => Mode::Unknown,
    };
    match backend {
        Backend::Demod { mode: Some(m) } => m,
        _ => radio,
    }
}

/// `F`: tune the register that the radio uses, within the limits.
pub open spec fn tune_request(args: Seq<Seq<char>>, state: Option<RadioState>) -> RequestView {
    let hz = if args.len() > 0 {
        unsigned_text(args[0], u64::MAX as nat)
    } else {
        None
    };
    match hz {
        None => RequestView::Answer(report_argument()),
        Some(hz) => if MIN_FREQ_HZ <= hz <= MAX_FREQ_HZ {
            RequestView::SendCat(
                tune_text(
                    match state {
                        Some(s) => s.vfo,
                        None => Vfo::A,
                    },
                    hz,
                ),
            )
        } else {
            RequestView::Answer(report_unavailable())
        },
    }
}

/// `M`: set the mode, of the radio or of the demodulator.
pub open spec fn mode_request(args: Seq<Seq<char>>, backend: Backend) -> RequestView {
    if args.len() == 0 {
        RequestView::Answer(report_argument())
    } else {
        match named_mode(args[0]) {
            None => RequestView::Answer(report_unavailable()),
            Some(mode) => match backend {
                Backend::Hardware => match mode_digit(mode) {
                    Some(digit) => RequestView::SendCat(mode_text(digit)),
                    None => RequestView::Answer(report_io()),
                },
                Backend::Demod { mode: current } => if current == Some(mode) {
                    RequestView::Answer(report_done())
                } else {
                    RequestView::SetDemodMode(mode)
                },
            },
        }
    }
}

/// `T`: transmit for `1`, receive for anything else.
pub open spec fn ptt_request(args: Seq<Seq<char>>, backend: Backend) -> RequestView {
    if args.len() == 0 {
        RequestView::Answer(report_argument())
    } else {
        match backend {
            Backend::Hardware => RequestView::SendCat(
                if args[0] == "1"@ {
                    "TX;"@
                } else {
                    "RX;"@
                },
            ),
            Backend::Demod { .. } => RequestView::Answer(report_unavailable()),
        }
    }
}

/// What a line of words asks for.
pub open spec fn request(
    line: Seq<Seq<char>>,
    backend: Backend,
    state: Option<RadioState>,
) -> RequestView {
    if line.len() == 0 {
        RequestView::Answer(report_unavailable())
    } else {
        let cmd = line[0];
        let args = line.skip(1);
        if cmd == "f"@ {
            RequestView::Answer(
                decimal(
                    match state {
                        Some(s) => s.freq_hz as nat,
                        None => 0,
                    },
                ) + "\n"@,
            )
        } else if cmd == "F"@ {
            tune_request(args, state)
        } else if cmd == "m"@ {
            RequestView::Answer(mode_name(mode_in_force(backend, state)) + "\n0\n"@)
        } else if cmd == "M"@ {
            mode_request(args, backend)
        } else if cmd == "t"@ {
            RequestView::Answer(
                if (match state {
                    Some(s) => s.tx,
                    None => false,
                }) {
                    "1\n"@
                } else {
                    "0\n"@
                },
            )
        } else if cmd == "T"@ {
            ptt_request(args, backend)
        } else if cmd == "q"@ || cmd == "Q"@ {
            RequestView::Close
        } else {
            RequestView::Answer(report_unavailable())
        }
    }
}

fn answer(text: &str) -> (r: Request)
    ensures
        r@ == RequestView::Answer(text@),
{
    Request::Answer(text.to_owned())
}

/// The mode in force: the demodulator's own where it has one, else the
/// radio's.
pub fn current_mode(backend: &Backend, state: Option<&RadioState>) -> (r: Mode)
    ensures
        r == mode_in_force(*backend, owned(state)),
{
    let radio: Mode = match state {
        Some(s) => s.mode,
        None => Mode::Unknown,
    };
    match backend {
        Backend::Demod { mode: Some(m) } => *m,
        _ => radio,
    }
}

/// The state behind a reference.
pub open spec fn owned(state: Option<&RadioState>) -> Option<RadioState> {
    match state {
        Some(s) => Some(*s),
        None => None,
    }
}

/// What a command line asks for.
pub fn handle_command(line: &str, backend: &Backend, state: Option<&RadioState>) -> (r: Request)
    ensures
        r@ == request(words(line@), *backend, owned(state)),
{
    let chars: Vec<char> = chars_of(line);
    let parts: Vec<Vec<char>> = words_of(chars.as_slice());
    if parts.len() == 0 {
        return answer("RPRT -11\n");
    }
    let has_arg: bool = parts.len() > 1;
    let cmd: &[char] = parts[0].as_slice();
    if is_text(cmd, "f") {
        let hz: u64 = match state {
            Some(s) => s.freq_hz,
            None => 0,
        };
        let mut text: String = String::new();
        push_decimal(&mut text, hz);
        text.append("\n");
        Request::Answer(text)
    } else if is_text(cmd, "F") {
        let hz: Option<u64> = if has_arg {
            parse_unsigned(parts[1].as_slice(), u64::MAX)
        } else {
            None
        };
        match hz {
            None => answer("RPRT -1\n"),
            Some(hz) => {
                if MIN_FREQ_HZ <= hz && hz <= MAX_FREQ_HZ {
                    let vfo: Vfo = match state {
                        Some(s) => s.vfo,
                        None => Vfo::A,
                    };
                    Request::SendCat(tune(vfo, hz))
                } else {
                    answer("RPRT -11\n")
                }
            },
        }
    } else if is_text(cmd, "m") {
        let mut text: String = mode_to_str(current_mode(backend, state)).to_owned();
        text.append("\n0\n");
        Request::Answer(text)
    } else if is_text(cmd, "M") {
        if !has_arg {
            return answer("RPRT -1\n");
        }
        match mode_from_chars(parts[1].as_slice()) {
            None => answer("RPRT -11\n"),
            Some(mode) => match backend {
                Backend::Hardware => match set_mode(mode) {
                    Some(cmd) => Request::SendCat(cmd),
                    None => answer("RPRT -6\n"),
                },
                Backend::Demod { mode: current } => {
                    let same: bool = match current {
                        Some(m) => *m == mode,
                        None => false,
                    };
                    if same {
                        answer("RPRT 0\n")
                    } else {
                        Request::SetDemodMode(mode)
                    }
                },
            },
        }
    } else if is_text(cmd, "t") {
        let tx: bool = match state {
            Some(s) => s.tx,
            None => false,
        };
        if tx {
            answer("1\n")
        } else {
            answer("0\n")
        }
    } else if is_text(cmd, "T") {
        if !has_arg {
            return answer("RPRT -1\n");
        }
        match backend {
            Backend::Hardware => {
                let raw: String = if is_text(parts[1].as_slice(), "1") {
                    "TX;".to_owned()
                } else {
                    "RX;".to_owned()
                };
                Request::SendCat(CatCommand { raw })
            },
            Backend::Demod { .. } => answer("RPRT -11\n"),
        }
    } else if is_text(cmd, "q") || is_text(cmd, "Q") {
        Request::Close
    } else {
        answer("RPRT -11\n")
    }
}

/// The answer once a command was handed on, or could not be.
pub fn sent_answer(ok: bool) -> (r: String)
    ensures
        r@ == (if ok {
            report_done()
        } else {
            report_io()
        }),
{
    if ok {
        "RPRT 0\n".to_owned()
    } else {
        "RPRT -6\n".to_owned()
    }
}

/// What a received line asks for; a line that is blank or not UTF-8 asks for
/// nothing.
pub fn handle_line(line: Vec<u8>, backend: &Backend, state: Option<&RadioState>) -> (r: Option<
    Request,
>)
    ensures
        match r {
            Some(req) => vstd::utf8::valid_utf8(line@) && trim(
                vstd::utf8::decode_utf8(line@),
            ).len() > 0 && req@ == request(
                words(trim(vstd::utf8::decode_utf8(line@))),
                *backend,
                owned(state),
            ),
            None => !vstd::utf8::valid_utf8(line@) || trim(
                vstd::utf8::decode_utf8(line@),
            ).len() == 0,
        },
{
    match text_from_utf8(line) {
        Ok(text) => {
            let chars: Vec<char> = chars_of(text.as_str());
            let line: String = crate::text::string_of(trimmed(chars.as_slice()));
            if line.as_str().is_empty() {
                None
            } else {
                Some(handle_command(line.as_str(), backend, state))
            }
        },
        Err(_) => None,
    }
}

// ---------------------------------------------------------------------------
// Clients
// ---------------------------------------------------------------------------

/// How many clients are connected.
#[derive(Debug, Clone, Copy)]
pub struct Clients {
    open: usize,
}

impl View for Clients {
    type V = nat;

    closed spec fn view(&self) -> nat {
        self.open as nat
    }
}

impl Clients {
    /// No more than are served at a time.
    pub open spec fn valid(&self) -> bool {
        self@ <= MAX_CONCURRENT_CONNS
    }

    pub fn new() -> (r: Self)
        ensures
            r.valid(),
            r@ == 0,
    {
        Clients { open: 0 }
    }

    /// A client has connected; `false` turns it away, because there are as
    /// many as are served at a time.
    pub fn let_in(&mut self) -> (r: bool)
        requires
            old(self).valid(),
        ensures
            final(self).valid(),
            r == (old(self)@ < MAX_CONCURRENT_CONNS),
            final(self)@ == if r {
                old(self)@ + 1
            } else {
                old(self)@
            },
    {
        if self.open < MAX_CONCURRENT_CONNS {
            self.open = self.open + 1;
            true
        } else {
            false
        }
    }

    /// A client that was let in has gone.
    pub fn leave(&mut self)
        requires
            old(self).valid(),
            old(self)@ > 0,
        ensures
            final(self).valid(),
            final(self)@ == old(self)@ - 1,
    {
        self.open = self.open - 1;
    }
}

// ---------------------------------------------------------------------------
// Lines
// ---------------------------------------------------------------------------

/// How a piece of input extends the line that is being read.
#[derive(Debug, Clone, Copy, PartialEq, Eq, Structural)]
pub enum LineStep {
    /// The input ended, and no line was begun.
    Eof,
    /// The line is complete; this many bytes of the piece belong to it.
    Line(usize),
    /// The line goes on; this many bytes of the piece were taken.
    More(usize),
    /// The line is too long. Nothing was taken.
    TooLong,
}

/// Where the first line feed stands, if there is one.
pub open spec fn line_end(piece: Seq<u8>) -> Option<int>
    decreases piece.len(),
{
    if piece.len() == 0 {
        None
    } else if piece[0] == 10 {
        Some(0)
    } else {
        match line_end(piece.skip(1)) {
            Some(at) => Some(at + 1),
            None => None,
        }
    }
}

/// The line and the step after one more piece of input. An empty piece means
/// that the input ended, which completes a line that was begun.
pub open spec fn line_step(line: Seq<u8>, piece: Seq<u8>, max: nat) -> (Seq<u8>, LineStep) {
    if piece.len() == 0 {
        (
            line,
            if line.len() == 0 {
                LineStep::Eof
            } else {
                LineStep::Line(0)
            },
        )
    } else {
        match line_end(piece) {
            Some(at) => if line.len() + at > max {
                (line, LineStep::TooLong)
            } else {
                (line + piece.take(at), LineStep::Line((at + 1) as usize))
            },
            None => if line.len() + piece.len() > max {
                (line, LineStep::TooLong)
            } else {
                (line + piece, LineStep::More(piece.len() as usize))
            },
        }
    }
}

proof fn lemma_line_end(piece: Seq<u8>, at: int)
    requires
        0 <= at <= piece.len(),
        forall|k: int| 0 <= k < at ==> #[trigger] piece[k] != 10,
        at < piece.len() ==> piece[at] == 10,
    ensures
        line_end(piece) == (if at < piece.len() {
            Some(at)
        } else {
            None
        }),
    decreases piece.len(),
{
    if piece.len() > 0 && piece[0] != 10 {
        lemma_line_end(piece.skip(1), at - 1);
    }
}

/// Takes one more piece of input into the line that is being read.
pub fn read_line_bounded(buf: &mut Vec<u8>, available: &[u8], max_bytes: usize) -> (r: LineStep)
    ensures
        (final(buf)@, r) == line_step(old(buf)@, available@, max_bytes as nat),
{
    if available.len() == 0 {
        return if buf.len() == 0 {
            LineStep::Eof
        } else {
            LineStep::Line(0)
        };
    }
    let mut pos: usize = 0;
    while pos < available.len() && available[pos] != 10
        invariant
            pos <= available@.len(),
            forall|k: int| 0 <= k < pos ==> #[trigger] available@[k] != 10,
        decreases available@.len() - pos,
    {
        pos = pos + 1;
    }
    proof {
        lemma_line_end(available@, pos as int);
    }
    if buf.len() > max_bytes || pos > max_bytes - buf.len() {
        return LineStep::TooLong;
    }
    let ghost before = buf@;
    let mut i: usize = 0;
    while i < pos
        invariant
            i <= pos <= available@.len(),
            buf@ == before + available@.take(i as int),
        decreases pos - i,
    {
        buf.push(available[i]);
        i = i + 1;
    }
    if pos < available.len() {
        LineStep::Line(pos + 1)
    } else {
        LineStep::More(pos)
    }
}

// ---------------------------------------------------------------------------
// Laws
// ---------------------------------------------------------------------------

/// A line that is being read never grows beyond the limit.
pub proof fn law_lines_are_bounded(line: Seq<u8>, piece: Seq<u8>, max: nat)
    requires
        line.len() <= max,
    ensures
        line_step(line, piece, max).0.len() <= max,
{
    lemma_line_end_within(piece);
}

proof fn lemma_line_end_within(piece: Seq<u8>)
    ensures
        match line_end(piece) {
            Some(at) => 0 <= at < piece.len() && piece[at] == 10 && forall|k: int|
                0 <= k < at ==> #[trigger] piece[k] != 10,
            None => forall|k: int| 0 <= k < piece.len() ==> #[trigger] piece[k] != 10,
        },
    decreases piece.len(),
{
    if piece.len() > 0 && piece[0] != 10 {
        let rest = piece.skip(1);
        lemma_line_end_within(rest);
        match line_end(rest) {
            Some(at) => {
                assert forall|k: int| 0 <= k < at + 1 implies #[trigger] piece[k] != 10 by {
                    if k > 0 {
                        assert(rest[k - 1] != 10);
                    }
                }
            },
            None => {
                assert forall|k: int| 0 <= k < piece.len() implies #[trigger] piece[k] != 10 by {
                    if k > 0 {
                        assert(rest[k - 1] != 10);
                    }
                }
            },
        }
    }
}

/// The pieces of an input put together.
pub open spec fn joined(pieces: Seq<Seq<u8>>) -> Seq<u8>
    decreases pieces.len(),
{
    if pieces.len() == 0 {
        Seq::empty()
    } else {
        pieces[0] + joined(pieces.skip(1))
    }
}

/// The line and the last step after pieces of input, up to the one that ends
/// the line.
pub open spec fn line_steps(line: Seq<u8>, pieces: Seq<Seq<u8>>, max: nat) -> (Seq<u8>, LineStep)
    decreases pieces.len(),
{
    if pieces.len() == 0 {
        (line, LineStep::More(0))
    } else {
        let (longer, step) = line_step(line, pieces[0], max);
        match step {
            LineStep::More(_) => line_steps(longer, pieces.skip(1), max),
            _ => (longer, step),
        }
    }
}

/// A piece that does not end a line: it is not empty, and has no line feed.
pub open spec fn goes_on(piece: Seq<u8>) -> bool {
    piece.len() > 0 && forall|k: int| 0 <= k < piece.len() ==> #[trigger] piece[k] != 10
}

/// However a line is cut into pieces on its way, it arrives whole, or is
/// refused for its length. `end` is what stands before the line feed in the
/// last piece, and `rest` what stands behind it.
pub proof fn law_pieces_make_the_line(
    pieces: Seq<Seq<u8>>,
    end: Seq<u8>,
    rest: Seq<u8>,
    max: nat,
)
    requires
        forall|i: int| 0 <= i < pieces.len() ==> goes_on(#[trigger] pieces[i]),
        forall|k: int| 0 <= k < end.len() ==> #[trigger] end[k] != 10,
        max <= usize::MAX,
    ensures
        ({
            let line = joined(pieces) + end;
            let r = line_steps(Seq::empty(), pieces.push(end + seq![10u8] + rest), max);
            if line.len() <= max {
                r == (line, LineStep::Line((end.len() + 1) as usize))
            } else {
                r.1 == LineStep::TooLong
            }
        }),
{
    lemma_pieces(Seq::empty(), pieces, end, rest, max);
}

/// However it is cut into pieces, a line that the end of the input completes
/// arrives whole, or is refused for its length. An empty piece stands for the
/// end; without anything before it there is no line.
pub proof fn law_end_of_input_completes_the_line(pieces: Seq<Seq<u8>>, max: nat)
    requires
        forall|i: int| 0 <= i < pieces.len() ==> goes_on(#[trigger] pieces[i]),
        max <= usize::MAX,
    ensures
        ({
            let line = joined(pieces);
            let r = line_steps(Seq::empty(), pieces.push(Seq::empty()), max);
            if line.len() > max {
                r.1 == LineStep::TooLong
            } else if line.len() == 0 {
                r == (line, LineStep::Eof)
            } else {
                r == (line, LineStep::Line(0))
            }
        }),
{
    lemma_last_pieces(Seq::empty(), pieces, max);
}

proof fn lemma_last_pieces(line: Seq<u8>, pieces: Seq<Seq<u8>>, max: nat)
    requires
        line.len() <= max <= usize::MAX,
        forall|i: int| 0 <= i < pieces.len() ==> goes_on(#[trigger] pieces[i]),
    ensures
        ({
            let whole = line + joined(pieces);
            let r = line_steps(line, pieces.push(Seq::empty()), max);
            if whole.len() > max {
                r.1 == LineStep::TooLong
            } else if whole.len() == 0 {
                r == (whole, LineStep::Eof)
            } else {
                r == (whole, LineStep::Line(0))
            }
        }),
    decreases pieces.len(),
{
    let all = pieces.push(Seq::empty());
    if pieces.len() > 0 {
        let piece = pieces[0];
        lemma_line_end(piece, piece.len() as int);
        let others = pieces.skip(1);
        assert(all.skip(1) =~= others.push(Seq::empty()));
        if line.len() + piece.len() <= max {
            lemma_last_pieces(line + piece, others, max);
        }
    }
}

proof fn lemma_pieces(
    line: Seq<u8>,
    pieces: Seq<Seq<u8>>,
    end: Seq<u8>,
    rest: Seq<u8>,
    max: nat,
)
    requires
        line.len() <= max <= usize::MAX,
        forall|i: int| 0 <= i < pieces.len() ==> goes_on(#[trigger] pieces[i]),
        forall|k: int| 0 <= k < end.len() ==> #[trigger] end[k] != 10,
    ensures
        ({
            let whole = line + joined(pieces) + end;
            let r = line_steps(line, pieces.push(end + seq![10u8] + rest), max);
            if whole.len() <= max {
                r == (whole, LineStep::Line((end.len() + 1) as usize))
            } else {
                r.1 == LineStep::TooLong
            }
        }),
    decreases pieces.len(),
{
    let last = end + seq![10u8] + rest;
    let all = pieces.push(last);
    if pieces.len() == 0 {
        lemma_line_end(last, end.len() as int);
    } else {
        let piece = pieces[0];
        lemma_line_end(piece, piece.len() as int);
        let others = pieces.skip(1);
        assert(all.skip(1) =~= others.push(last));
        if line.len() + piece.len() <= max {
            lemma_pieces(line + piece, others, end, rest, max);
        }
    }
}

/// The names of the radio's own modes lead back to the mode; the AM family
/// goes by AM.
pub proof fn law_mode_names_lead_back(mode: Mode)
    requires
        mode != Mode::Unknown,
    ensures
        named_mode(mode_name(mode)) == Some(
            if am_family(mode) {
                Mode::AM
            } else {
                mode
            },
        ),
{
    reveal_strlit("USB");
    reveal_strlit("PKTUSB");
    reveal_strlit("LSB");
    reveal_strlit("PKTLSB");
    reveal_strlit("CW");
    reveal_strlit("CWR");
    reveal_strlit("AM");
    reveal_strlit("FM");
    reveal_strlit("PKTFM");
    reveal_strlit("FMN");
    reveal_strlit("WFM");
    assert("USB"@[0] == 'U');
    assert("LSB"@[0] == 'L');
    assert("CW"@.len() == 2);
    assert("CWR"@.len() == 3);
    assert("AM"@[0] == 'A');
    assert("FM"@[0] == 'F');
}

/// Every mode that can be named can also be set in the radio.
pub proof fn law_named_modes_have_commands(name: Seq<char>)
    ensures
        named_mode(name) matches Some(mode) ==> mode_digit(mode) is Some,
{
}

/// Whatever a client sends, a tuning command that leaves is well formed.
pub proof fn law_tuning_requests_are_well_formed(
    args: Seq<Seq<char>>,
    state: Option<RadioState>,
)
    ensures
        tune_request(args, state) matches RequestView::SendCat(raw) ==> raw.len() == 14,
{
    if args.len() > 0 {
        if let Some(hz) = unsigned_text(args[0], u64::MAX as nat) {
            if hz <= MAX_FREQ_HZ {
                crate::cat::commands::law_tuning_is_well_formed(
                    match state {
                        Some(s) => s.vfo,
                        None => Vfo::A,
                    },
                    hz,
                );
            }
        }
    }
}

/// The demodulator is never told to transmit, and never told to change to
/// the mode that it is in.
pub proof fn law_demodulator_limits(
    line: Seq<Seq<char>>,
    mode: Option<Mode>,
    state: Option<RadioState>,
)
    ensures
        request(line, Backend::Demod { mode }, state) matches RequestView::SendCat(raw) ==> raw
            != "TX;"@ && raw != "RX;"@,
        request(line, Backend::Demod { mode }, state) matches RequestView::SetDemodMode(m) ==> mode
            != Some(m),
{
    reveal_strlit("TX;");
    reveal_strlit("RX;");
    if line.len() > 0 {
        law_tuning_requests_are_well_formed(line.skip(1), state);
    }
}

/// Whatever a responder controls, `f` tells the frequency that the radio is
/// tuned to, and zero only while that is not known.
pub proof fn law_frequency_is_told_on_every_port(
    line: &str,
    backend: &Backend,
    state: Option<&RadioState>,
    r: Request,
)
    requires
        words(line@).len() > 0,
        words(line@)[0] == seq!['f'],
        call_ensures(handle_command, (line, backend, state), r),
    ensures
        r@ matches RequestView::Answer(text) && {
            &&& text.len() > 1
            &&& text.last() == '\n'
            &&& state matches Some(s) ==> unsigned_text(text.drop_last(), u64::MAX as nat) == Some(
                s.freq_hz as nat,
            )
            &&& state is None ==> text == seq!['0', '\n']
        },
{
    lemma_commands();
    let hz: nat = match state {
        Some(s) => s.freq_hz as nat,
        None => 0,
    };
    crate::text::lemma_padded_reads_back(hz, 0, u64::MAX as nat);
    crate::text::lemma_decimal(hz);
    let text = decimal(hz) + "\n"@;
    assert(text.drop_last() =~= decimal(hz));
    if state is None {
        assert(text =~= seq!['0', '\n']);
    }
}

proof fn lemma_commands()
    ensures
        "f"@ == seq!['f'] && "F"@ == seq!['F'] && "m"@ == seq!['m'] && "M"@ == seq!['M'],
        "t"@ == seq!['t'] && "T"@ == seq!['T'] && "q"@ == seq!['q'] && "Q"@ == seq!['Q'],
        "\n"@ == seq!['\n'] && "1"@ == seq!['1'],
        seq!['f'] != seq!['F'] && seq!['f'] != seq!['m'] && seq!['f'] != seq!['M'] && seq!['f']
            != seq!['t'] && seq!['f'] != seq!['T'] && seq!['f'] != seq!['q'] && seq!['f']
            != seq!['Q'],
        seq!['F'] != seq!['m'] && seq!['F'] != seq!['M'] && seq!['F'] != seq!['t'] && seq!['F']
            != seq!['T'] && seq!['F'] != seq!['q'] && seq!['F'] != seq!['Q'],
        seq!['m'] != seq!['M'] && seq!['m'] != seq!['t'] && seq!['m'] != seq!['T'] && seq!['m']
            != seq!['q'] && seq!['m'] != seq!['Q'],
        seq!['M'] != seq!['t'] && seq!['M'] != seq!['T'] && seq!['M'] != seq!['q'] && seq!['M']
            != seq!['Q'],
        seq!['t'] != seq!['T'] && seq!['t'] != seq!['q'] && seq!['t'] != seq!['Q'],
        seq!['T'] != seq!['q'] && seq!['T'] != seq!['Q'],
{
    reveal_strlit("f");
    reveal_strlit("F");
    reveal_strlit("m");
    reveal_strlit("M");
    reveal_strlit("t");
    reveal_strlit("T");
    reveal_strlit("q");
    reveal_strlit("Q");
    reveal_strlit("\n");
    reveal_strlit("1");
    assert("f"@ =~= seq!['f'] && "F"@ =~= seq!['F'] && "m"@ =~= seq!['m'] && "M"@ =~= seq!['M']);
    assert("t"@ =~= seq!['t'] && "T"@ =~= seq!['T'] && "q"@ =~= seq!['q'] && "Q"@ =~= seq!['Q']);
    assert("\n"@ =~= seq!['\n'] && "1"@ =~= seq!['1']);
    assert(seq!['f'][0] == 'f' && seq!['F'][0] == 'F' && seq!['m'][0] == 'm' && seq!['M'][0]
        == 'M' && seq!['t'][0] == 't' && seq!['T'][0] == 'T' && seq!['q'][0] == 'q' && seq![
        'Q',
    ][0] == 'Q');
}

/// `t` tells whether the radio transmits, on every port alike.
pub proof fn law_transmission_is_told_on_every_port(
    line: &str,
    backend: &Backend,
    state: Option<&RadioState>,
    r: Request,
)
    requires
        words(line@).len() > 0,
        words(line@)[0] == seq!['t'],
        call_ensures(handle_command, (line, backend, state), r),
    ensures
        r@ matches RequestView::Answer(text) && {
            let sending = state matches Some(s) && s.tx;
            &&& sending ==> text == seq!['1', '\n']
            &&& !sending ==> text == seq!['0', '\n']
        },
{
    lemma_commands();
    reveal_strlit("1\n");
    reveal_strlit("0\n");
    assert("1\n"@ =~= seq!['1', '\n'] && "0\n"@ =~= seq!['0', '\n']);
}

/// `m` tells a name that stands for the mode in force: the demodulator's own
/// on its port where it has one, and else the radio's. A passband of zero
/// follows. Software modes are told as AM, and an unknown one as USB.
pub proof fn law_mode_told_is_the_mode_in_force(
    line: &str,
    backend: &Backend,
    state: Option<&RadioState>,
    r: Request,
)
    requires
        words(line@).len() > 0,
        words(line@)[0] == seq!['m'],
        call_ensures(handle_command, (line, backend, state), r),
    ensures
        ({
            let radio = match state {
                Some(s) => s.mode,
                None => Mode::Unknown,
            };
            let mode = match *backend {
                Backend::Hardware => radio,
                Backend::Demod { mode: None } => radio,
                Backend::Demod { mode: Some(own) } => own,
            };
            r@ matches RequestView::Answer(text) && {
                let n = text.len() - 3;
                &&& n >= 2
                &&& text.skip(n) == seq!['\n', '0', '\n']
                &&& named_mode(text.take(n)) == Some(
                    if mode == Mode::Unknown {
                        Mode::USB
                    } else if am_family(mode) {
                        Mode::AM
                    } else {
                        mode
                    },
                )
            }
        }),
{
    lemma_commands();
    let mode = mode_in_force(*backend, owned(state));
    if mode != Mode::Unknown {
        law_mode_names_lead_back(mode);
    } else {
        law_mode_names_lead_back(Mode::USB);
    }
    reveal_strlit("USB");
    reveal_strlit("LSB");
    reveal_strlit("CW");
    reveal_strlit("CWR");
    reveal_strlit("AM");
    reveal_strlit("FM");
    reveal_strlit("\n0\n");
    let name = mode_name(mode);
    let text = name + "\n0\n"@;
    assert(text.take(text.len() - 3) =~= name);
    assert(text.skip(text.len() - 3) =~= seq!['\n', '0', '\n']);
}

/// `F` with a frequency from 1 kHz up to what eleven digits hold tunes the
/// radio's own register to it, on every port; any other number is refused as
/// not valid, and anything else as no argument.
pub proof fn law_tuning_requests_reach_the_radio(
    line: &str,
    backend: &Backend,
    state: Option<&RadioState>,
    hz: u64,
    r: Request,
    cmd: CatCommand,
)
    requires
        words(line@).len() > 0,
        words(line@)[0] == seq!['F'],
        call_ensures(handle_command, (line, backend, state), r),
        call_ensures(
            tune,
            (
                match state {
                    Some(s) => s.vfo,
                    None => Vfo::A,
                },
                hz,
            ),
            cmd,
        ),
    ensures
        words(line@).len() > 1 && words(line@)[1] == decimal(hz as nat) ==> {
            &&& 1_000 <= hz <= 99_999_999_999 ==> r@ == RequestView::SendCat(cmd.raw@)
            &&& !(1_000 <= hz <= 99_999_999_999) ==> r@ == RequestView::Answer("RPRT -11\n"@)
        },
        words(line@).len() == 1 || unsigned_text(words(line@)[1], u64::MAX as nat) is None ==> r@
            == RequestView::Answer("RPRT -1\n"@),
{
    lemma_commands();
    crate::text::lemma_padded_reads_back(hz as nat, 0, u64::MAX as nat);
}

/// `M` with a mode's name sets that mode: in the radio by its own command,
/// and in the demodulator directly, unless that is in the mode already.
pub proof fn law_mode_requests_reach_their_port(
    line: &str,
    backend: &Backend,
    state: Option<&RadioState>,
    mode: Mode,
    r: Request,
    cmd: Option<CatCommand>,
)
    requires
        words(line@).len() > 0,
        words(line@)[0] == seq!['M'],
        call_ensures(handle_command, (line, backend, state), r),
        call_ensures(set_mode, (mode,), cmd),
    ensures
        words(line@).len() > 1 && named_mode(words(line@)[1]) == Some(mode) ==> match *backend {
            Backend::Hardware => cmd is Some && r@ == RequestView::SendCat(cmd->0.raw@),
            Backend::Demod { mode: own } => if own == Some(mode) {
                r@ == RequestView::Answer("RPRT 0\n"@)
            } else {
                r@ == RequestView::SetDemodMode(mode)
            },
        },
        words(line@).len() > 1 && named_mode(words(line@)[1]) is None ==> r@ == RequestView::Answer(
            "RPRT -11\n"@,
        ),
        words(line@).len() == 1 ==> r@ == RequestView::Answer("RPRT -1\n"@),
{
    lemma_commands();
    if words(line@).len() > 1 {
        law_named_modes_have_commands(words(line@)[1]);
    }
}

/// The names of the modes: the plain ones, and the packet and wide variants
/// that clients send for them.
pub proof fn law_names_stand_for_their_modes()
    ensures
        named_mode("USB"@) == Some(Mode::USB) && named_mode("PKTUSB"@) == Some(Mode::USB),
        named_mode("LSB"@) == Some(Mode::LSB) && named_mode("PKTLSB"@) == Some(Mode::LSB),
        named_mode("CW"@) == Some(Mode::CW) && named_mode("CWR"@) == Some(Mode::CWR),
        named_mode("AM"@) == Some(Mode::AM),
        named_mode("FM"@) == Some(Mode::FM) && named_mode("PKTFM"@) == Some(Mode::FM),
        named_mode("FMN"@) == Some(Mode::FM) && named_mode("WFM"@) == Some(Mode::FM),
{
    reveal_strlit("USB");
    reveal_strlit("PKTUSB");
    reveal_strlit("LSB");
    reveal_strlit("PKTLSB");
    reveal_strlit("CW");
    reveal_strlit("CWR");
    reveal_strlit("AM");
    reveal_strlit("FM");
    reveal_strlit("PKTFM");
    reveal_strlit("FMN");
    reveal_strlit("WFM");
    assert("USB"@.len() == 3 && "USB"@[0] == 'U');
    assert("LSB"@.len() == 3 && "LSB"@[0] == 'L');
    assert("PKTUSB"@.len() == 6 && "PKTUSB"@[3] == 'U');
    assert("PKTLSB"@.len() == 6 && "PKTLSB"@[3] == 'L');
    assert("CW"@.len() == 2 && "CW"@[0] == 'C');
    assert("CWR"@.len() == 3 && "CWR"@[0] == 'C');
    assert("AM"@.len() == 2 && "AM"@[0] == 'A');
    assert("FM"@.len() == 2 && "FM"@[0] == 'F');
    assert("PKTFM"@.len() == 5);
    assert("FMN"@.len() == 3 && "FMN"@[0] == 'F');
    assert("WFM"@.len() == 3 && "WFM"@[0] == 'W');
}

/// `T 1` switches the radio to transmit and any other argument to receive;
/// the demodulator refuses both.
pub proof fn law_transmit_requests_go_to_the_radio_only(
    line: &str,
    backend: &Backend,
    state: Option<&RadioState>,
    r: Request,
)
    requires
        words(line@).len() > 0,
        words(line@)[0] == seq!['T'],
        call_ensures(handle_command, (line, backend, state), r),
    ensures
        words(line@).len() == 1 ==> r@ == RequestView::Answer("RPRT -1\n"@),
        words(line@).len() > 1 && *backend is Hardware ==> r@ == RequestView::SendCat(
            if words(line@)[1] == seq!['1'] {
                seq!['T', 'X', ';']
            } else {
                seq!['R', 'X', ';']
            },
        ),
        words(line@).len() > 1 && *backend is Demod ==> r@ == RequestView::Answer(
            "RPRT -11\n"@,
        ),
{
    lemma_commands();
    reveal_strlit("TX;");
    reveal_strlit("RX;");
    assert("TX;"@ =~= seq!['T', 'X', ';'] && "RX;"@ =~= seq!['R', 'X', ';']);
}

/// `q`, in either case, closes the connection, and nothing else does. Any
/// word that is no command is answered as not available.
pub proof fn law_only_quitting_closes(
    line: &str,
    backend: &Backend,
    state: Option<&RadioState>,
    r: Request,
)
    requires
        call_ensures(handle_command, (line, backend, state), r),
    ensures
        r@ is Close <==> words(line@).len() > 0 && (words(line@)[0] == seq!['q'] || words(line@)[0]
            == seq!['Q']),
        words(line@).len() == 0 || words(line@)[0].len() != 1 ==> r@ == RequestView::Answer(
            "RPRT -11\n"@,
        ),
{
    lemma_commands();
}

/// What was handed on is reported as done, and what could not be as an
/// input-output error.
pub proof fn law_handing_on_is_reported(a: String, b: String)
    requires
        call_ensures(sent_answer, (true,), a),
        call_ensures(sent_answer, (false,), b),
    ensures
        a@ == "RPRT 0\n"@,
        b@ == "RPRT -6\n"@,
{
}

/// A line that is not blank is answered as a command; one that is blank, or
/// no text at all, is passed over.
pub proof fn law_lines_with_words_are_answered(
    line: Vec<u8>,
    text: Seq<char>,
    command: &str,
    backend: &Backend,
    state: Option<&RadioState>,
    direct: Request,
    r: Option<Request>,
)
    requires
        line@ == vstd::utf8::encode_utf8(text),
        command@ == trim(text),
        call_ensures(handle_command, (command, backend, state), direct),
        call_ensures(handle_line, (line, backend, state), r),
    ensures
        trim(text).len() == 0 ==> r is None,
        trim(text).len() > 0 ==> (r matches Some(req) && req@ == direct@),
{
    vstd::utf8::encode_utf8_valid_utf8(text);
    vstd::utf8::encode_utf8_decode_utf8(text);
}

/// Bytes that are no text are passed over.
pub proof fn law_bytes_that_are_no_text_are_passed_over(
    line: Vec<u8>,
    backend: &Backend,
    state: Option<&RadioState>,
    r: Option<Request>,
)
    requires
        !vstd::utf8::valid_utf8(line@),
        call_ensures(handle_line, (line, backend, state), r),
    ensures
        r is None,
{
}

/// A piece adds to the line what stands before its line feed, and no piece
/// that would make the line too long adds anything.
pub proof fn law_pieces_add_up_to_their_line_feed(
    line: &mut Vec<u8>,
    piece: &[u8],
    head: Seq<u8>,
    rest: Seq<u8>,
    max: usize,
    r: LineStep,
)
    requires
        forall|k: int| 0 <= k < head.len() ==> #[trigger] head[k] != 10,
    ensures
        call_ensures(read_line_bounded, (line, piece, max), r) ==> {
            &&& piece@ == head + seq![10u8] + rest && old(line)@.len() + head.len() <= max ==> r
                == LineStep::Line((head.len() + 1) as usize) && final(line)@ == old(line)@ + head
            &&& piece@ == head && head.len() > 0 && old(line)@.len() + head.len() <= max ==> r
                == LineStep::More(head.len() as usize) && final(line)@ == old(line)@ + head
            &&& (piece@ == head + seq![10u8] + rest || piece@ == head && head.len() > 0)
                && old(line)@.len() + head.len() > max ==> r == LineStep::TooLong && final(line)@
                == old(line)@
            &&& piece@.len() == 0 ==> final(line)@ == old(line)@ && r == if old(line)@.len() == 0 {
                LineStep::Eof
            } else {
                LineStep::Line(0)
            }
        },
{
    let whole = head + seq![10u8] + rest;
    lemma_line_end(whole, head.len() as int);
    lemma_line_end(head, head.len() as int);
    assert(whole.take(head.len() as int) =~= head);
}

/// Sixteen clients are served at a time, and a place is free again once one
/// has gone.
pub proof fn law_sixteen_clients_are_served(a: &mut Clients, b: &mut Clients, r: bool)
    requires
        old(a)@ <= 16,
        0 < old(b)@ <= 16,
    ensures
        call_ensures(Clients::let_in, (a,), r) ==> {
            &&& r <==> old(a)@ < 16
            &&& r ==> final(a)@ == old(a)@ + 1
            &&& !r ==> final(a)@ == old(a)@
        },
        call_ensures(Clients::leave, (b,), ()) ==> final(b)@ == old(b)@ - 1,
{
}

/// The name that is told for a mode stands for that mode again, and the
/// command for a mode is the radio's own.
pub proof fn law_names_and_commands_belong_to_their_modes(
    mode: Mode,
    name: &'static str,
    text: &str,
    back: Option<Mode>,
    cmd: Option<CatCommand>,
    raw: Option<String>,
)
    requires
        call_ensures(mode_to_str, (mode,), name),
        text@ == name@,
        call_ensures(str_to_mode, (text,), back),
        call_ensures(set_mode, (mode,), cmd),
        call_ensures(mode_to_cat, (mode,), raw),
    ensures
        mode != Mode::Unknown && !am_family(mode) ==> back == Some(mode),
        am_family(mode) ==> back == Some(Mode::AM),
        mode == Mode::Unknown ==> back == Some(Mode::USB),
        cmd is Some <==> raw is Some,
        raw matches Some(r) ==> r@ == cmd->0.raw@,
{
    if mode != Mode::Unknown {
        law_mode_names_lead_back(mode);
    } else {
        law_mode_names_lead_back(Mode::USB);
    }
}

/// The mode in force on the radio's port is the radio's; on the demodulator's
/// port its own goes before that.
pub proof fn law_the_demodulators_mode_goes_first(
    backend: &Backend,
    state: Option<&RadioState>,
    r: Mode,
)
    requires
        call_ensures(current_mode, (backend, state), r),
    ensures
        *backend matches Backend::Demod { mode: Some(own) } ==> r == own,
        !(*backend matches Backend::Demod { mode: Some(_) }) ==> match state {
            Some(s) => r == s.mode,
            None => r == Mode::Unknown,
        },
{
}

} // verus!
