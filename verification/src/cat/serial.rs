//! Commands on their way to the radio, and answers on their way back.
use crate::cat::error::{CatError, CatErrorView};
use crate::proto::messages::CatCommand;
use crate::text::{
    chars_of, decimal, has_prefix, leading, lemma_leading, lossy_text, push_decimal, starts_with,
    text_lossy,
};
use vstd::prelude::*;
use vstd::string::*;

verus! {

/// How long a command may be, in bytes.
pub const MAX_CAT_CMD_LEN: usize = 64;

/// How many answers to other commands are passed over.
pub const STALE_ATTEMPTS: u8 = 3;

// ---------------------------------------------------------------------------
// Batches: the last command of each kind
// ---------------------------------------------------------------------------

/// The bytes of a text.
pub open spec fn bytes_of(text: Seq<char>) -> Seq<u8> {
    vstd::utf8::encode_utf8(text)
}

/// What tells the kind of a command: its first two bytes, or all of a shorter
/// one.
pub open spec fn kind_of(text: Seq<char>) -> Seq<u8> {
    let b = bytes_of(text);
    if b.len() < 2 {
        b
    } else {
        b.take(2)
    }
}

/// The first command of a kind, from `at` on.
pub open spec fn first_of_kind(batch: Seq<Seq<char>>, kind: Seq<u8>, at: int) -> Option<int>
    decreases batch.len() - at,
{
    if at < 0 || at >= batch.len() {
        None
    } else if kind_of(batch[at]) == kind {
        Some(at)
    } else {
        first_of_kind(batch, kind, at + 1)
    }
}

/// A batch with one more command, which takes the place of an older one of
/// its kind.
pub open spec fn with_command(batch: Seq<Seq<char>>, cmd: Seq<char>) -> Seq<Seq<char>> {
    match first_of_kind(batch, kind_of(cmd), 0) {
        Some(at) => batch.update(at, cmd),
        None => batch.push(cmd),
    }
}

/// The texts of a batch.
pub open spec fn texts(batch: Seq<CatCommand>) -> Seq<Seq<char>> {
    Seq::new(batch.len(), |k: int| batch[k].raw@)
}

/// The first two bytes of a command end between two characters.
pub open spec fn kind_cuttable(cmd: Seq<char>) -> bool {
    vstd::utf8::is_char_boundary(bytes_of(cmd), kind_of(cmd).len() as int)
}

/// The bytes that tell the kind of a command.
fn kind_bytes(cmd: &str) -> (r: &[u8])
    ensures
        r@ == kind_of(cmd@),
{
    let b: &[u8] = cmd.as_bytes();
    if b.len() < 2 {
        b
    } else {
        vstd::slice::slice_subrange(b, 0, 2)
    }
}

/// Whether two commands are of one kind.
fn same_kind(a: &str, b: &str) -> (r: bool)
    ensures
        r == (kind_of(a@) == kind_of(b@)),
{
    let x: &[u8] = kind_bytes(a);
    let y: &[u8] = kind_bytes(b);
    if x.len() != y.len() {
        return false;
    }
    let mut i: usize = 0;
    while i < x.len()
        invariant
            x@ == kind_of(a@),
            y@ == kind_of(b@),
            i <= x@.len() == y@.len(),
            forall|k: int| 0 <= k < i ==> x@[k] == y@[k],
        decreases x@.len() - i,
    {
        if x[i] != y[i] {
            return false;
        }
        i = i + 1;
    }
    assert(x@ =~= y@);
    true
}

/// Whether [`coalesce`] can take a command: its kind can be cut off between
/// two characters.
pub fn can_coalesce(cmd: &str) -> (r: bool)
    ensures
        r == kind_cuttable(cmd@),
{
    cmd.is_char_boundary(kind_bytes(cmd).len())
}

/// Adds a command to a batch; it replaces an older one of its kind.
pub fn coalesce(batch: &mut Vec<CatCommand>, cmd: CatCommand)
    requires
        kind_cuttable(cmd.raw@),
    ensures
        texts(final(batch)@) == with_command(texts(old(batch)@), cmd.raw@),
{
    let ghost before = texts(batch@);
    let ghost kind = kind_of(cmd.raw@);
    let mut at: usize = 0;
    while at < batch.len()
        invariant
            at <= batch@.len(),
            before == texts(batch@),
            kind == kind_of(cmd.raw@),
            first_of_kind(before, kind, 0) == first_of_kind(before, kind, at as int),
            batch@ == old(batch)@,
        decreases batch@.len() - at,
    {
        if same_kind(batch[at].raw.as_str(), cmd.raw.as_str()) {
            batch.set(at, cmd);
            return ;
        }
        at = at + 1;
    }
    batch.push(cmd);
}

/// A command that may be sent: not too long, and with its semicolon.
pub open spec fn is_sendable(cmd: Seq<char>) -> bool {
    bytes_of(cmd).len() <= MAX_CAT_CMD_LEN && cmd.len() > 0 && cmd.last() == ';'
}

/// Whether a command may be sent.
pub fn sendable(cmd: &str) -> (r: bool)
    ensures
        r == is_sendable(cmd@),
{
    let chars: Vec<char> = chars_of(cmd);
    cmd.as_bytes().len() <= MAX_CAT_CMD_LEN && chars.len() > 0 && chars[chars.len() - 1] == ';'
}

// ---------------------------------------------------------------------------
// Answers
// ---------------------------------------------------------------------------

/// Where an answer ends: behind its first semicolon.
pub open spec fn answer_end(bytes: Seq<u8>) -> Option<int>
    decreases bytes.len(),
{
    if bytes.len() == 0 {
        None
    } else if bytes[0] == ';' as u8 {
        Some(1)
    } else {
        match answer_end(bytes.skip(1)) {
            Some(n) => Some(n + 1),
            None => None,
        }
    }
}

/// The answer so far, and whether it is complete.
pub open spec fn answer_so_far(bytes: Seq<u8>) -> (Seq<u8>, bool) {
    match answer_end(bytes) {
        Some(n) => (bytes.take(n), true),
        None => (bytes, false),
    }
}

proof fn lemma_answer_end(bytes: Seq<u8>, at: int)
    requires
        0 <= at <= bytes.len(),
        forall|k: int| 0 <= k < at ==> #[trigger] bytes[k] != ';' as u8,
        at < bytes.len() ==> bytes[at] == ';' as u8,
    ensures
        answer_end(bytes) == (if at < bytes.len() {
            Some(at + 1)
        } else {
            None
        }),
    decreases bytes.len(),
{
    if bytes.len() > 0 && bytes[0] != ';' as u8 {
        lemma_answer_end(bytes.skip(1), at - 1);
    }
}

/// Takes received bytes into an answer; `true` once it is complete, and what
/// follows its semicolon is dropped.
pub fn receive(answer: &mut Vec<u8>, piece: &[u8]) -> (r: bool)
    ensures
        (final(answer)@, r) == answer_so_far(old(answer)@ + piece@),
{
    let ghost whole = answer@ + piece@;
    let ghost before = answer@;
    let mut i: usize = 0;
    while i < piece.len()
        invariant
            i <= piece@.len(),
            answer@ == before + piece@.take(i as int),
        decreases piece@.len() - i,
    {
        answer.push(piece[i]);
        i = i + 1;
    }
    let mut at: usize = 0;
    while at < answer.len() && answer[at] != ';' as u8
        invariant
            at <= answer@.len(),
            answer@ == whole,
            forall|k: int| 0 <= k < at ==> #[trigger] answer@[k] != ';' as u8,
        decreases answer@.len() - at,
    {
        at = at + 1;
    }
    proof {
        lemma_answer_end(whole, at as int);
    }
    if at < answer.len() {
        answer.truncate(at + 1);
        true
    } else {
        false
    }
}

/// An ASCII letter.
pub open spec fn is_letter(c: char) -> bool {
    'a' <= c <= 'z' || 'A' <= c <= 'Z'
}

/// The letters at the start of a command, with which its answer starts too.
pub open spec fn expected_letters(cmd: Seq<char>) -> Seq<char> {
    cmd.take(leading(cmd, |c: char| is_letter(c)) as int)
}

/// The text of an answer.
pub fn answer_text(answer: &[u8]) -> (r: String)
    ensures
        r@ == lossy_text(answer@),
{
    text_lossy(answer)
}

/// How long writing a command, or reading an answer, may take, in
/// milliseconds.
pub const IO_DEADLINE_MS: u64 = 500;

/// What is said of a command that the port did not take in time.
pub open spec fn timeout_text(device: Seq<char>, written: nat, total: nat) -> Seq<char> {
    "CAT write timed out after 500ms on "@ + device + " ("@ + decimal(written) + " of "@ + decimal(
        total,
    ) + " bytes written)"@
}

/// The port did not take a command in time.
pub fn write_timed_out(device: &str, written: usize, total: usize) -> (r: CatError)
    ensures
        r@ == CatErrorView::Io(timeout_text(device@, written as nat, total as nat)),
{
    let mut s: String = "CAT write timed out after 500ms on ".to_owned();
    s.append(device);
    s.append(" (");
    push_decimal(&mut s, written as u64);
    s.append(" of ");
    push_decimal(&mut s, total as u64);
    s.append(" bytes written)");
    CatError::Io(s)
}

/// What came of trying to write to the port.
#[derive(Debug)]
pub enum WriteEvent {
    /// The time for writing is up.
    TimeUp,
    /// The port took nothing: it was not ready, or interrupted.
    NotReady,
    /// The port took this many bytes.
    Wrote(usize),
    /// The system refused, for this reason.
    Failed(String),
}

/// How writing goes on.
#[derive(Debug)]
pub enum WriteStep {
    /// Everything is written.
    Done,
    /// With the byte at this place.
    GoOn(usize),
    Fail(CatError),
}

/// Goes on with a command of `total` bytes of which `written` are written.
pub fn write_step(device: &str, written: usize, total: usize, event: WriteEvent) -> (r: WriteStep)
    requires
        written < total,
        event matches WriteEvent::Wrote(n) ==> written + n <= usize::MAX,
    ensures
        match event {
            WriteEvent::TimeUp => r matches WriteStep::Fail(e) && e@ == CatErrorView::Io(
                timeout_text(device@, written as nat, total as nat),
            ),
            WriteEvent::NotReady => r == WriteStep::GoOn(written),
            WriteEvent::Wrote(n) => r == (if written + n >= total {
                WriteStep::Done
            } else {
                WriteStep::GoOn((written + n) as usize)
            }),
            WriteEvent::Failed(why) => r matches WriteStep::Fail(e) && e@ == CatErrorView::Io(why@),
        },
{
    match event {
        WriteEvent::TimeUp => WriteStep::Fail(write_timed_out(device, written, total)),
        WriteEvent::NotReady => WriteStep::GoOn(written),
        WriteEvent::Wrote(n) => if written + n >= total {
            WriteStep::Done
        } else {
            WriteStep::GoOn(written + n)
        },
        WriteEvent::Failed(why) => WriteStep::Fail(CatError::Io(why)),
    }
}

/// What came of trying to read from the port.
#[derive(Debug)]
pub enum PortRead {
    /// The time for reading is up.
    TimeUp,
    /// Nothing came: the port was not ready, or interrupted.
    NotReady,
    /// These bytes came.
    Bytes(Vec<u8>),
    /// The system refused, for this reason.
    Failed(String),
}

/// How reading goes on.
#[derive(Debug)]
pub enum ReadStep {
    GoOn,
    /// This is the answer, or as much of it as came in time.
    Answer(String),
    Fail(CatError),
}

/// Goes on with an answer that is being read.
pub fn read_step(answer: &mut Vec<u8>, event: PortRead) -> (r: ReadStep)
    ensures
        match event {
            PortRead::TimeUp => final(answer)@ == old(answer)@ && (r matches ReadStep::Answer(text)
                && text@ == lossy_text(old(answer)@)),
            PortRead::NotReady => final(answer)@ == old(answer)@ && r is GoOn,
            PortRead::Bytes(piece) => {
                let (bytes, complete) = answer_so_far(old(answer)@ + piece@);
                &&& final(answer)@ == bytes
                &&& if complete {
                    r matches ReadStep::Answer(text) && text@ == lossy_text(bytes)
                } else {
                    r is GoOn
                }
            },
            PortRead::Failed(why) => final(answer)@ == old(answer)@ && (r matches ReadStep::Fail(e)
                && e@ == CatErrorView::Io(why@)),
        },
{
    match event {
        PortRead::TimeUp => ReadStep::Answer(answer_text(answer.as_slice())),
        PortRead::NotReady => ReadStep::GoOn,
        PortRead::Bytes(piece) => if receive(answer, piece.as_slice()) {
            ReadStep::Answer(answer_text(answer.as_slice()))
        } else {
            ReadStep::GoOn
        },
        PortRead::Failed(why) => ReadStep::Fail(CatError::Io(why)),
    }
}

/// The port does not exist.
pub fn missing_device(device: &str) -> (r: CatError)
    ensures
        r@ == CatErrorView::Io("serial device not found: "@ + device@),
{
    CatError::Io("serial device not found: ".to_owned().concat(device))
}

/// What to do with an answer.
#[derive(Debug, Clone, Copy, PartialEq, Eq, Structural)]
pub enum Verdict {
    /// It is the answer, or the best there will be.
    Accept,
    /// It answers an earlier command; read another.
    Discard,
}

/// An answer is accepted when it is empty, when it starts like the command,
/// or when no more may be passed over.
pub open spec fn verdict(cmd: Seq<char>, answer: Seq<char>, attempts: int) -> Verdict {
    if answer.len() == 0 || has_prefix(answer, expected_letters(cmd)) || attempts <= 1 {
        Verdict::Accept
    } else {
        Verdict::Discard
    }
}

/// The letters at the start of a command.
pub fn expected_prefix(cmd: &str) -> (r: Vec<char>)
    ensures
        r@ == expected_letters(cmd@),
{
    let chars: Vec<char> = chars_of(cmd);
    let mut out: Vec<char> = Vec::new();
    let mut i: usize = 0;
    while i < chars.len() && ('a' <= chars[i] && chars[i] <= 'z' || 'A' <= chars[i] && chars[i]
        <= 'Z')
        invariant
            i <= chars@.len(),
            chars@ == cmd@,
            out@ == chars@.take(i as int),
            forall|k: int| 0 <= k < i ==> is_letter(#[trigger] chars@[k]),
        decreases chars@.len() - i,
    {
        out.push(chars[i]);
        i = i + 1;
    }
    proof {
        lemma_leading(chars@, |c: char| is_letter(c), i as nat);
    }
    out
}

/// Whether an answer belongs to a command, with `attempts` answers that may
/// still be read.
pub fn judge(cmd: &str, answer: &str, attempts: u8) -> (r: Verdict)
    ensures
        r == verdict(cmd@, answer@, attempts as int),
{
    let expected: Vec<char> = expected_prefix(cmd);
    let got: Vec<char> = chars_of(answer);
    if got.len() == 0 || starts_with(got.as_slice(), expected.as_slice()) || attempts <= 1 {
        Verdict::Accept
    } else {
        Verdict::Discard
    }
}

// ---------------------------------------------------------------------------
// Laws
// ---------------------------------------------------------------------------

/// No two commands in a batch are of the same kind.
pub open spec fn kinds_differ(batch: Seq<Seq<char>>) -> bool {
    forall|i: int, j: int|
        0 <= i < j < batch.len() ==> kind_of(#[trigger] batch[i]) != kind_of(#[trigger] batch[j])
}

proof fn lemma_first_of_kind(batch: Seq<Seq<char>>, kind: Seq<u8>, at: int)
    requires
        0 <= at <= batch.len(),
    ensures
        match first_of_kind(batch, kind, at) {
            Some(i) => at <= i < batch.len() && kind_of(batch[i]) == kind,
            None => forall|i: int|
                at <= i < batch.len() ==> kind_of(#[trigger] batch[i]) != kind,
        },
    decreases batch.len() - at,
{
    if at < batch.len() && kind_of(batch[at]) != kind {
        lemma_first_of_kind(batch, kind, at + 1);
    }
}

/// A new command is in the batch, and nothing else in it has changed but the
/// one that it replaces.
pub proof fn law_newest_command_stays(batch: Seq<Seq<char>>, cmd: Seq<char>)
    ensures
        with_command(batch, cmd).contains(cmd),
        with_command(batch, cmd).len() <= batch.len() + 1,
        forall|i: int|
            0 <= i < batch.len() && kind_of(batch[i]) != kind_of(cmd)
                ==> #[trigger] with_command(batch, cmd)[i] == batch[i],
{
    lemma_first_of_kind(batch, kind_of(cmd), 0);
    match first_of_kind(batch, kind_of(cmd), 0) {
        Some(at) => {
            assert(with_command(batch, cmd)[at] == cmd);
        },
        None => {
            assert(with_command(batch, cmd)[batch.len() as int] == cmd);
        },
    }
}

/// A batch never holds two commands of one kind.
pub proof fn law_one_command_of_each_kind(batch: Seq<Seq<char>>, cmd: Seq<char>)
    requires
        kinds_differ(batch),
    ensures
        kinds_differ(with_command(batch, cmd)),
{
    let kind = kind_of(cmd);
    lemma_first_of_kind(batch, kind, 0);
}

/// The batch that a queue of commands makes.
pub open spec fn batch_of(queue: Seq<Seq<char>>) -> Seq<Seq<char>>
    decreases queue.len(),
{
    if queue.len() == 0 {
        Seq::empty()
    } else {
        with_command(batch_of(queue.drop_last()), queue.last())
    }
}

/// The kinds of commands in a queue, in the order in which they first appear.
pub open spec fn kinds_in(queue: Seq<Seq<char>>) -> Seq<Seq<u8>>
    decreases queue.len(),
{
    if queue.len() == 0 {
        Seq::empty()
    } else {
        let before = kinds_in(queue.drop_last());
        let kind = kind_of(queue.last());
        if before.contains(kind) {
            before
        } else {
            before.push(kind)
        }
    }
}

/// The last command of a kind in a queue.
pub open spec fn last_of_kind(queue: Seq<Seq<char>>, kind: Seq<u8>) -> Option<Seq<char>>
    decreases queue.len(),
{
    if queue.len() == 0 {
        None
    } else if kind_of(queue.last()) == kind {
        Some(queue.last())
    } else {
        last_of_kind(queue.drop_last(), kind)
    }
}

/// The batch of a whole queue is the last command of each kind, in the order
/// in which the kinds first appear.
pub proof fn law_batches_keep_the_last_of_each_kind(queue: Seq<Seq<char>>)
    ensures
        batch_of(queue).len() == kinds_in(queue).len(),
        forall|i: int|
            0 <= i < batch_of(queue).len() ==> {
                &&& last_of_kind(queue, kinds_in(queue)[i]) == Some(#[trigger] batch_of(queue)[i])
                &&& kind_of(batch_of(queue)[i]) == kinds_in(queue)[i]
            },
        kinds_differ(batch_of(queue)),
    decreases queue.len(),
{
    if queue.len() > 0 {
        let earlier = queue.drop_last();
        let cmd = queue.last();
        let kind = kind_of(cmd);
        let before = batch_of(earlier);
        let kinds = kinds_in(earlier);
        law_batches_keep_the_last_of_each_kind(earlier);
        lemma_first_of_kind(before, kind, 0);
        law_one_command_of_each_kind(before, cmd);
        if first_of_kind(before, kind, 0) is None && kinds.contains(kind) {
            let i = kinds.index_of(kind);
            assert(kind_of(before[i]) == kind);
        }
    }
}

/// An answer that is complete ends with its only semicolon, however it
/// arrived.
pub proof fn law_answers_end_at_the_semicolon(bytes: Seq<u8>)
    ensures
        answer_so_far(bytes).1 ==> {
            let a = answer_so_far(bytes).0;
            &&& a.len() > 0
            &&& a.last() == ';' as u8
            &&& forall|k: int| 0 <= k < a.len() - 1 ==> #[trigger] a[k] != ';' as u8
        },
        !answer_so_far(bytes).1 ==> forall|k: int|
            0 <= k < bytes.len() ==> #[trigger] bytes[k] != ';' as u8,
    decreases bytes.len(),
{
    if bytes.len() > 0 && bytes[0] != ';' as u8 {
        let rest = bytes.skip(1);
        law_answers_end_at_the_semicolon(rest);
        if answer_so_far(bytes).1 {
            lemma_answer_len(rest);
            let a = answer_so_far(bytes).0;
            let b = answer_so_far(rest).0;
            assert forall|k: int| 0 <= k < a.len() - 1 implies #[trigger] a[k] != ';' as u8 by {
                if k > 0 {
                    assert(a[k] == b[k - 1]);
                }
            }
        } else {
            assert forall|k: int| 0 <= k < bytes.len() implies #[trigger] bytes[k] != ';' as u8 by {
                if k > 0 {
                    assert(bytes[k] == rest[k - 1]);
                }
            }
        }
    }
}

proof fn lemma_answer_len(bytes: Seq<u8>)
    ensures
        answer_end(bytes) matches Some(n) ==> 1 <= n <= bytes.len(),
    decreases bytes.len(),
{
    if bytes.len() > 0 && bytes[0] != ';' as u8 {
        lemma_answer_len(bytes.skip(1));
    }
}

/// A command may be sent if it ends with its semicolon and has at most 64
/// bytes.
pub proof fn law_commands_that_may_be_sent(cmd: &str, r: bool)
    requires
        call_ensures(sendable, (cmd,), r),
    ensures
        r <==> cmd@.len() > 0 && cmd@.last() == ';' && vstd::utf8::encode_utf8(cmd@).len() <= 64,
{
}

/// Every tuning command that a register can hold may be sent.
pub proof fn law_tuning_may_be_sent(
    vfo: crate::proto::radio::Vfo,
    hz: u64,
    cmd: CatCommand,
    text: &str,
    r: bool,
)
    requires
        hz <= crate::cat::commands::MAX_FREQ_HZ,
        call_ensures(crate::cat::commands::tune, (vfo, hz), cmd),
        text@ == cmd.raw@,
        call_ensures(sendable, (text,), r),
    ensures
        r,
{
    crate::cat::commands::law_tuning_says_what_it_was_told(vfo, hz, cmd);
    assert forall|k: int| 0 <= k < 14 implies '\0' <= #[trigger] cmd.raw@[k] <= '\u{7f}' by {
        if 2 <= k < 13 {
            let d = cmd.raw@.subrange(2, 13);
            assert(d[k - 2] == cmd.raw@[k]);
            assert(crate::text::is_digit(d[k - 2]));
        }
    }
    assert(vstd::utf8::is_ascii_chars(cmd.raw@));
    vstd::utf8::is_ascii_chars_encode_utf8(cmd.raw@);
}

/// An answer that starts with the letters of its command is taken; any other
/// is passed over as long as there are attempts left, and taken at the last.
/// Silence is taken as it is.
pub proof fn law_answers_match_their_commands(
    cmd: &str,
    answer: &str,
    attempts: u8,
    letters: Vec<char>,
    r: Verdict,
)
    requires
        call_ensures(expected_prefix, (cmd,), letters),
        call_ensures(judge, (cmd, answer, attempts), r),
    ensures
        r == Verdict::Discard <==> attempts > 1 && answer@.len() > 0 && !(answer@.len()
            >= letters@.len() && answer@.take(letters@.len() as int) == letters@),
{
}

/// The letters of a command are all that stand in front of its first
/// character that is no letter.
pub proof fn law_expected_letters(cmd: &str, letters: Seq<char>, rest: Seq<char>, r: Vec<char>)
    requires
        call_ensures(expected_prefix, (cmd,), r),
        cmd@ == letters + rest,
        forall|k: int|
            0 <= k < letters.len() ==> 'A' <= #[trigger] letters[k] <= 'Z' || 'a' <= letters[k]
                <= 'z',
        rest.len() > 0 ==> !('A' <= rest[0] <= 'Z' || 'a' <= rest[0] <= 'z'),
    ensures
        r@ == letters,
{
    let p = |c: char| is_letter(c);
    assert forall|k: int| 0 <= k < letters.len() implies #[trigger] p(cmd@[k]) by {
        assert(cmd@[k] == letters[k]);
    }
    lemma_leading(cmd@, p, letters.len());
    assert(cmd@.take(letters.len() as int) =~= letters);
}

/// However the bytes of an answer come in, it is what stands up to its first
/// semicolon.
pub proof fn law_answers_are_what_came_first(
    answer: &mut Vec<u8>,
    piece: &[u8],
    head: Seq<u8>,
    rest: Seq<u8>,
    r: bool,
)
    requires
        forall|k: int| 0 <= k < head.len() ==> #[trigger] head[k] != 59,
    ensures
        call_ensures(receive, (answer, piece), r) ==> {
            &&& old(answer)@ + piece@ == head + seq![59u8] + rest ==> r && final(answer)@ == head
                + seq![59u8]
            &&& old(answer)@ + piece@ == head ==> !r && final(answer)@ == head
        },
{
    let whole = head + seq![59u8] + rest;
    lemma_answer_end(whole, head.len() as int);
    lemma_answer_end(head, head.len() as int);
    assert(whole.take(head.len() as int + 1) =~= head + seq![59u8]);
}

/// Writing goes on behind what the port has taken, ends when it has taken
/// everything, and fails when the time is up or the system refuses.
pub proof fn law_writing_goes_on_behind_what_was_taken(
    device: &str,
    written: usize,
    total: usize,
    event: WriteEvent,
    r: WriteStep,
    late: CatError,
)
    requires
        written < total,
        event matches WriteEvent::Wrote(n) ==> written + n <= total,
        call_ensures(write_step, (device, written, total, event), r),
        call_ensures(write_timed_out, (device, written, total), late),
    ensures
        r is Fail <==> event is TimeUp || event is Failed,
        r is Done <==> (event matches WriteEvent::Wrote(n) && written + n == total),
        r matches WriteStep::GoOn(at) ==> written <= at < total && (event matches WriteEvent::Wrote(
            n,
        ) ==> at == written + n) && (event is NotReady ==> at == written),
        event matches WriteEvent::Failed(why) ==> (r matches WriteStep::Fail(e) && e@
            == CatErrorView::Io(why@)),
        event is TimeUp ==> (r matches WriteStep::Fail(e) && e@ == late@),
{
}

/// Reading ends with the semicolon, with the time, or with a failure, which
/// keeps its reason. What came in time counts, also without its semicolon.
pub proof fn law_reading_ends_with_the_semicolon_or_the_time(
    answer: &mut Vec<u8>,
    event: PortRead,
    r: ReadStep,
)
    ensures
        call_ensures(read_step, (answer, event), r) ==> {
            &&& event is TimeUp ==> (r matches ReadStep::Answer(text) && text@ == lossy_text(
                old(answer)@,
            )) && final(answer)@ == old(answer)@
            &&& event is NotReady ==> r is GoOn && final(answer)@ == old(answer)@
            &&& r is Fail <==> event is Failed
            &&& event matches PortRead::Failed(why) ==> (r matches ReadStep::Fail(e) && e@
                == CatErrorView::Io(why@)) && final(answer)@ == old(answer)@
            &&& event matches PortRead::Bytes(piece) ==> (r is Answer <==> exists|k: int|
                0 <= k < old(answer)@.len() + piece@.len() && #[trigger] (old(answer)@ + piece@)[k]
                    == 59)
        },
{
    if let PortRead::Bytes(piece) = event {
        let all = old(answer)@ + piece@;
        law_answers_end_at_the_semicolon(all);
        lemma_answer_len(all);
        if answer_so_far(all).1 {
            let a = answer_so_far(all).0;
            assert(all[a.len() - 1] == 59);
        }
    }
}

/// What is said of a command that took too long is how long it may take, and
/// how much of it was written.
pub proof fn law_the_deadline_is_told(device: &str, written: usize, total: usize, e: CatError)
    requires
        call_ensures(write_timed_out, (device, written, total), e),
    ensures
        e@ == CatErrorView::Io(
            "CAT write timed out after "@ + decimal(IO_DEADLINE_MS as nat) + "ms on "@ + device@
                + " ("@ + decimal(written as nat) + " of "@ + decimal(total as nat)
                + " bytes written)"@,
        ),
        STALE_ATTEMPTS == 3,
{
    reveal_strlit("CAT write timed out after 500ms on ");
    reveal_strlit("CAT write timed out after ");
    reveal_strlit("ms on ");
    reveal_with_fuel(decimal, 4);
    assert(decimal(500) =~= seq!['5', '0', '0']);
    assert("CAT write timed out after 500ms on "@ =~= "CAT write timed out after "@ + decimal(500)
        + "ms on "@);
}

proof fn lemma_ascii_kind(text: Seq<char>)
    requires
        vstd::utf8::is_ascii_chars(text),
        text.len() >= 2,
    ensures
        kind_of(text) == seq![text[0] as u8, text[1] as u8],
        kind_cuttable(text),
{
    vstd::utf8::is_ascii_chars_encode_utf8(text);
    vstd::utf8::encode_utf8_valid_utf8(text);
    let b = bytes_of(text);
    assert(b.take(2) =~= seq![text[0] as u8, text[1] as u8]);
    if text.len() == 2 {
        vstd::utf8::is_char_boundary_start_end_of_seq(b);
    } else {
        assert(b[2] == text[2] as u8);
        vstd::utf8::is_char_boundary_iff_not_is_continuation_byte(b, 2);
    }
}

/// A newer command takes the place of an older one if and only if both start
/// with the same two letters; otherwise both are sent, the older first.
pub proof fn law_the_first_two_letters_tell_the_kind(
    batch: &mut Vec<CatCommand>,
    cmd: CatCommand,
    older: Seq<char>,
)
    requires
        texts(old(batch)@) == seq![older],
        vstd::utf8::is_ascii_chars(older),
        vstd::utf8::is_ascii_chars(cmd.raw@),
        older.len() >= 2,
        cmd.raw@.len() >= 2,
    ensures
        call_ensures(coalesce, (batch, cmd), ()) ==> texts(final(batch)@) == if older[0]
            == cmd.raw@[0] && older[1] == cmd.raw@[1] {
            seq![cmd.raw@]
        } else {
            seq![older, cmd.raw@]
        },
{
    lemma_ascii_kind(older);
    lemma_ascii_kind(cmd.raw@);
    let b = texts(old(batch)@);
    lemma_first_of_kind(b, kind_of(cmd.raw@), 0);
    assert(kind_of(older)[0] == older[0] as u8 && kind_of(older)[1] == older[1] as u8);
    assert(kind_of(cmd.raw@)[0] == cmd.raw@[0] as u8 && kind_of(cmd.raw@)[1] == cmd.raw@[1] as u8);
    assert(b.push(cmd.raw@) =~= seq![older, cmd.raw@]);
    assert(b.update(0, cmd.raw@) =~= seq![cmd.raw@]);
}

/// A new command is in the batch, the others keep their places, and none of
/// another kind is lost.
pub proof fn law_batches_take_commands_in(batch: &mut Vec<CatCommand>, cmd: CatCommand, i: int)
    requires
        0 <= i < old(batch)@.len(),
        kind_of(old(batch)@[i].raw@) != kind_of(cmd.raw@),
    ensures
        call_ensures(coalesce, (batch, cmd), ()) ==> {
            &&& i < final(batch)@.len()
            &&& final(batch)@[i].raw@ == old(batch)@[i].raw@
            &&& texts(final(batch)@).contains(cmd.raw@)
        },
{
    let b = texts(old(batch)@);
    law_newest_command_stays(b, cmd.raw@);
    lemma_first_of_kind(b, kind_of(cmd.raw@), 0);
    assert(b[i] == old(batch)@[i].raw@);
    if call_ensures(coalesce, (batch, cmd), ()) {
        assert(texts(final(batch)@)[i] == b[i]);
        assert(texts(final(batch)@).len() == final(batch)@.len());
    }
}

/// Every command in the radio's own letters can be batched.
pub proof fn law_ascii_commands_can_be_batched(cmd: &str, r: bool)
    requires
        call_ensures(can_coalesce, (cmd,), r),
        vstd::utf8::is_ascii_chars(cmd@),
    ensures
        r,
{
    if cmd@.len() >= 2 {
        lemma_ascii_kind(cmd@);
    } else {
        vstd::utf8::is_ascii_chars_encode_utf8(cmd@);
        vstd::utf8::encode_utf8_valid_utf8(cmd@);
        vstd::utf8::is_char_boundary_start_end_of_seq(bytes_of(cmd@));
    }
}

/// An answer that is text is that text; a port that is missing is named.
pub proof fn law_ports_and_answers_are_named(device: &str, e: CatError, answer: &[u8], r: String)
    requires
        call_ensures(missing_device, (device,), e),
        call_ensures(answer_text, (answer,), r),
    ensures
        e@ == CatErrorView::Io("serial device not found: "@ + device@),
        r@ == lossy_text(answer@),
{
}

/// The answer that is read is the text of the bytes up to the first
/// semicolon; without one all bytes are kept for the next turn.
pub proof fn law_the_answer_read_is_what_came_first(
    answer: &mut Vec<u8>,
    piece: Vec<u8>,
    head: Seq<u8>,
    rest: Seq<u8>,
    r: ReadStep,
)
    requires
        forall|k: int| 0 <= k < head.len() ==> #[trigger] head[k] != 59,
    ensures
        call_ensures(read_step, (answer, PortRead::Bytes(piece)), r) ==> {
            &&& old(answer)@ + piece@ == head + seq![59u8] + rest ==> final(answer)@ == head
                + seq![59u8] && (r matches ReadStep::Answer(text) && text@ == lossy_text(
                head + seq![59u8],
            ))
            &&& old(answer)@ + piece@ == head ==> final(answer)@ == head && r is GoOn
        },
{
    let whole = head + seq![59u8] + rest;
    lemma_answer_end(whole, head.len() as int);
    lemma_answer_end(head, head.len() as int);
    assert(whole.take(head.len() as int + 1) =~= head + seq![59u8]);
}

} // verus!
