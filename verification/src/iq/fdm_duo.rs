//! The FDM-DUO's IQ device: what its replies mean, and the samples it sends.
use crate::iq::error::{hex2, push_hex2, IqError, IqErrorView, UsbFault, UsbFaultKind};
use crate::text::{
    chars_of, decimal, lemma_trailing, lossy_text, push_decimal, string_of, text_lossy, trailing,
};
use vstd::prelude::*;
use vstd::string::*;

verus! {

/// The endpoint that IQ samples come from.
pub const ELAD_RF_ENDPOINT: u8 = 0x86;

/// Bytes read at a time.
pub const USB_BUFFER_SIZE: usize = 12288;

/// IQ samples per second.
pub const DEFAULT_SAMPLE_RATE: u32 = 192_000;

/// The rate of the clock that samples are derived from, as it is meant to be.
pub const S_RATE: i64 = 122_880_000;

/// The byte with which the device confirms that it streams.
pub const STREAMING: u8 = 0xE9;

/// Bytes in one IQ sample: four for each part.
pub const BYTES_PER_SAMPLE: usize = 8;

// ---------------------------------------------------------------------------
// What the device says of itself
// ---------------------------------------------------------------------------

/// What the device says of itself.
#[derive(Debug, Clone)]
pub struct DeviceInfo {
    pub serial: String,
    pub hw_version_major: u8,
    pub hw_version_minor: u8,
    pub sample_rate_correction: i32,
}

/// Text without the NUL characters behind it.
pub open spec fn without_nuls(s: Seq<char>) -> Seq<char> {
    s.take(s.len() - trailing(s, |c: char| c == '\0'))
}

/// Removes the NUL characters behind a text.
pub fn trim_nuls(s: &str) -> (r: String)
    ensures
        r@ == without_nuls(s@),
{
    let v: Vec<char> = chars_of(s);
    let mut to: usize = v.len();
    while to > 0 && v[to - 1] == '\0'
        invariant
            to <= v@.len(),
            forall|k: int| to <= k < v@.len() ==> #[trigger] v@[k] == '\0',
        decreases to,
    {
        to = to - 1;
    }
    proof {
        lemma_trailing(v@, |c: char| c == '\0', (v@.len() - to) as nat);
    }
    let kept: &[char] = vstd::slice::slice_subrange(v.as_slice(), 0, to);
    string_of(kept)
}

/// The number that four bytes stand for, the lowest one first, with a sign.
pub open spec fn word(b: Seq<u8>, at: int) -> int {
    let v = b[at] + 0x100 * b[at + 1] + 0x1_0000 * b[at + 2] + 0x100_0000 * b[at + 3];
    if b[at + 3] < 128 {
        v
    } else {
        v - 0x1_0000_0000
    }
}

fn read_word(b: &[u8], at: usize) -> (r: i32)
    requires
        at + 4 <= b@.len(),
    ensures
        r == word(b@, at as int),
{
    let v: i64 = b[at] as i64 + 0x100 * (b[at + 1] as i64) + 0x1_0000 * (b[at + 2] as i64)
        + 0x100_0000 * (b[at + 3] as i64);
    if b[at + 3] < 128 {
        v as i32
    } else {
        (v - 0x1_0000_0000) as i32
    }
}

/// A correction that is taken: at most a million either way.
pub open spec fn is_plausible(correction: int) -> bool {
    -1_000_000 <= correction <= 1_000_000
}

impl DeviceInfo {
    /// Nothing known yet.
    pub fn unknown() -> (r: Self)
        ensures
            r.serial@ == Seq::<char>::empty(),
            r.hw_version_major == 0,
            r.hw_version_minor == 0,
            r.sample_rate_correction == 0,
    {
        DeviceInfo {
            serial: String::new(),
            hw_version_major: 0,
            hw_version_minor: 0,
            sample_rate_correction: 0,
        }
    }

    /// Takes the hardware version from a reply of two bytes; any other reply
    /// changes nothing.
    pub fn take_version(&mut self, reply: &[u8])
        ensures
            final(self).serial == old(self).serial,
            final(self).sample_rate_correction == old(self).sample_rate_correction,
            reply@.len() == 2 ==> final(self).hw_version_major == reply@[0]
                && final(self).hw_version_minor == reply@[1],
            reply@.len() != 2 ==> *final(self) == *old(self),
    {
        if reply.len() == 2 {
            self.hw_version_major = reply[0];
            self.hw_version_minor = reply[1];
        }
    }

    /// Takes the serial number from a reply of 32 bytes; any other reply
    /// changes nothing.
    pub fn take_serial(&mut self, reply: &[u8])
        ensures
            final(self).hw_version_major == old(self).hw_version_major,
            final(self).hw_version_minor == old(self).hw_version_minor,
            final(self).sample_rate_correction == old(self).sample_rate_correction,
            reply@.len() == 32 ==> final(self).serial@ == without_nuls(lossy_text(reply@)),
            reply@.len() != 32 ==> *final(self) == *old(self),
    {
        if reply.len() == 32 {
            self.serial = trim_nuls(text_lossy(reply).as_str());
        }
    }

    /// Takes the clock's correction from a reply of four bytes. Any other
    /// reply, and a correction that is out of range, changes nothing.
    pub fn take_correction(&mut self, reply: &[u8])
        ensures
            final(self).serial == old(self).serial,
            final(self).hw_version_major == old(self).hw_version_major,
            final(self).hw_version_minor == old(self).hw_version_minor,
            final(self).sample_rate_correction == (if reply@.len() == 4 && is_plausible(
                word(reply@, 0),
            ) {
                word(reply@, 0)
            } else {
                old(self).sample_rate_correction as int
            }),
    {
        if reply.len() == 4 {
            let correction: i32 = read_word(reply, 0);
            if -1_000_000 <= correction && correction <= 1_000_000 {
                self.sample_rate_correction = correction;
            }
        }
    }

    /// The rate of the clock, with the device's own correction.
    pub fn effective_clock(&self) -> (r: i64)
        ensures
            r == S_RATE + self.sample_rate_correction,
    {
        S_RATE + self.sample_rate_correction as i64
    }
}

/// However the device answers, its clock stays within a million of what it
/// is meant to be.
pub proof fn law_clock_stays_near(reply: Seq<u8>, before: i32)
    requires
        is_plausible(before as int),
    ensures
        ({
            let after = if reply.len() == 4 && is_plausible(word(reply, 0)) {
                word(reply, 0)
            } else {
                before as int
            };
            121_880_000 <= S_RATE + after <= 123_880_000
        }),
{
}

// ---------------------------------------------------------------------------
// Replies to requests
// ---------------------------------------------------------------------------

/// The start of streaming succeeded if the device answers with one byte, the
/// confirmation. The reply comes with its length.
pub fn streaming_started(reply: Result<(usize, u8), UsbFault>) -> (r: Result<(), IqError>)
    ensures
        match reply {
            Ok((n, byte)) => if n == 1 && byte == STREAMING {
                r is Ok
            } else {
                r matches Err(e) && e@ == IqErrorView::FifoControl(
                    "start FIFO: got "@ + decimal(n as nat) + " bytes, buf[0]=0x"@ + hex2(
                        byte as int,
                    ),
                )
            },
            Err(f) => r matches Err(e) && e@ == IqErrorView::Usb(f.kind, f.text@),
        },
{
    match reply {
        Ok((n, byte)) => {
            if n == 1 && byte == STREAMING {
                return Ok(());
            }
            let mut s: String = "start FIFO: got ".to_owned();
            push_decimal(&mut s, n as u64);
            s.append(" bytes, buf[0]=0x");
            push_hex2(&mut s, byte);
            Err(IqError::FifoControl(s))
        },
        Err(f) => Err(IqError::Usb(f)),
    }
}

/// The number that four bytes stand for, the highest one first.
pub open spec fn frequency(b: Seq<u8>) -> int {
    0x100_0000 * b[1] + 0x1_0000 * b[2] + 0x100 * b[3] + b[4]
}

/// The centre frequency in hertz, which a reply of eleven bytes holds behind
/// its first byte.
pub fn read_frequency(reply: Result<&[u8], UsbFault>) -> (r: Result<u64, IqError>)
    ensures
        match reply {
            Ok(b) => if b@.len() == 11 {
                r matches Ok(hz) && hz == frequency(b@)
            } else {
                r matches Err(e) && e@ == IqErrorView::FifoControl(
                    "read_frequency: expected 11 bytes, got "@ + decimal(b@.len()),
                )
            },
            Err(f) => r matches Err(e) && e@ == IqErrorView::Usb(f.kind, f.text@),
        },
{
    match reply {
        Ok(b) => {
            if b.len() == 11 {
                return Ok(
                    0x100_0000 * (b[1] as u64) + 0x1_0000 * (b[2] as u64) + 0x100 * (b[3] as u64)
                        + b[4] as u64,
                );
            }
            let mut s: String = "read_frequency: expected 11 bytes, got ".to_owned();
            push_decimal(&mut s, b.len() as u64);
            Err(IqError::FifoControl(s))
        },
        Err(f) => Err(IqError::Usb(f)),
    }
}

// ---------------------------------------------------------------------------
// Samples
// ---------------------------------------------------------------------------

/// The IQ sample at a place in raw data. Divided by 2^31, its parts lie
/// between -1 and 1.
pub open spec fn iq_sample(data: Seq<u8>, k: int) -> (int, int) {
    (word(data, 8 * k), word(data, 8 * k + 4))
}

/// The whole IQ samples of raw data; what is left of the last one is dropped.
pub fn convert_samples(usb_data: &[u8]) -> (r: Vec<[i32; 2]>)
    ensures
        r@.len() == usb_data@.len() / 8,
        forall|k: int|
            0 <= k < r@.len() ==> ((#[trigger] r@[k])@[0] as int, r@[k]@[1] as int) == iq_sample(
                usb_data@,
                k,
            ),
{
    let total: usize = usb_data.len();
    let count: usize = total / BYTES_PER_SAMPLE;
    let mut out: Vec<[i32; 2]> = Vec::new();
    let mut k: usize = 0;
    while k < count
        invariant
            k <= count == total / 8,
            total == usb_data@.len(),
            out@.len() == k,
            forall|j: int|
                0 <= j < k ==> ((#[trigger] out@[j])@[0] as int, out@[j]@[1] as int) == iq_sample(
                    usb_data@,
                    j,
                ),
        decreases count - k,
    {
        let at: usize = 8 * k;
        let i_val: i32 = read_word(usb_data, at);
        let q_val: i32 = read_word(usb_data, at + 4);
        out.push([i_val, q_val]);
        k += 1;
    }
    out
}

/// A full buffer holds whole samples only.
pub proof fn law_full_buffer_is_whole(data: Seq<u8>)
    requires
        data.len() == USB_BUFFER_SIZE,
    ensures
        8 * (data.len() / 8) == data.len(),
        data.len() / 8 == 1536,
{
}

// ---------------------------------------------------------------------------
// Capturing
// ---------------------------------------------------------------------------

/// What a turn of the capture brings.
#[derive(Debug)]
pub enum CaptureEvent {
    /// The caller wants to stop.
    Cancelled,
    /// This many bytes were read.
    Read(usize),
    Failed(UsbFault),
}

/// What the capture does next.
#[derive(Debug)]
pub enum CaptureStep {
    /// Convert and publish the block, and read the centre frequency again if
    /// `reread` says so.
    Publish { reread: bool },
    /// Try again.
    Retry,
    Stop(IqError),
}

/// After this many blocks the centre frequency is read again.
pub const REREAD_BLOCKS: u64 = 500;

/// The running capture: how many blocks it has published.
#[derive(Debug, Clone, Copy)]
pub struct Capture {
    pub blocks: u64,
}

impl Capture {
    pub fn new() -> (r: Self)
        ensures
            r.blocks == 0,
    {
        Capture { blocks: 0 }
    }

    /// Decides one turn: a timeout and an empty read are tried again, every
    /// other failure ends the capture.
    pub fn step(&mut self, event: CaptureEvent) -> (r: CaptureStep)
        requires
            old(self).blocks < u64::MAX,
        ensures
            final(self).blocks == old(self).blocks + (if event matches CaptureEvent::Read(n) && n
                > 0 {
                1int
            } else {
                0
            }),
            match event {
                CaptureEvent::Cancelled => r matches CaptureStep::Stop(e) && e@
                    == IqErrorView::Cancelled,
                CaptureEvent::Read(n) => if n > 0 {
                    r == (CaptureStep::Publish {
                        reread: final(self).blocks % REREAD_BLOCKS == 0,
                    })
                } else {
                    r is Retry
                },
                CaptureEvent::Failed(f) => if f.kind == UsbFaultKind::Timeout {
                    r is Retry
                } else {
                    r matches CaptureStep::Stop(e) && e@ == IqErrorView::Usb(f.kind, f.text@)
                },
            },
    {
        match event {
            CaptureEvent::Cancelled => CaptureStep::Stop(IqError::Cancelled),
            CaptureEvent::Read(n) => if n > 0 {
                self.blocks = self.blocks + 1;
                CaptureStep::Publish { reread: self.blocks % REREAD_BLOCKS == 0 }
            } else {
                CaptureStep::Retry
            },
            CaptureEvent::Failed(f) => match f.kind {
                UsbFaultKind::Timeout => CaptureStep::Retry,
                _ => CaptureStep::Stop(IqError::Usb(f)),
            },
        }
    }
}

// ---------------------------------------------------------------------------
// Laws
// ---------------------------------------------------------------------------

/// A reply that holds a frequency behind its first byte, the highest byte
/// first, reads as that frequency; of any other length it is no frequency, and
/// the length is told.
pub proof fn law_frequency_reads_back(reply: &[u8], hz: u32, r: Result<u64, IqError>)
    requires
        call_ensures(read_frequency, (Ok::<&[u8], UsbFault>(reply),), r),
    ensures
        reply@.len() == 11 && reply@[1] == hz as int / 0x100_0000 && reply@[2] == hz as int
            / 0x1_0000 % 0x100 && reply@[3] == hz as int / 0x100 % 0x100 && reply@[4] == hz as int
            % 0x100 ==> r == Ok::<u64, IqError>(hz as u64),
        reply@.len() == 11 <==> r is Ok,
        reply@.len() != 11 ==> r->Err_0@ == IqErrorView::FifoControl(
            "read_frequency: expected 11 bytes, got "@ + decimal(reply@.len()),
        ),
{
}

/// A failed request gives no frequency and no stream, and its reason is kept.
pub proof fn law_failed_requests_keep_their_reason(
    f: UsbFault,
    hz: Result<u64, IqError>,
    started: Result<(), IqError>,
)
    requires
        call_ensures(read_frequency, (Err::<&[u8], UsbFault>(f),), hz),
        call_ensures(streaming_started, (Err::<(usize, u8), UsbFault>(f),), started),
    ensures
        hz is Err && hz->Err_0@ == IqErrorView::Usb(f.kind, f.text@),
        started is Err && started->Err_0@ == IqErrorView::Usb(f.kind, f.text@),
{
}

/// The stream has started if one byte came, and that was the confirmation;
/// no other reply will do, and what came instead is told.
pub proof fn law_only_the_confirmation_starts_the_stream(
    n: usize,
    byte: u8,
    r: Result<(), IqError>,
)
    requires
        call_ensures(streaming_started, (Ok::<(usize, u8), UsbFault>((n, byte)),), r),
    ensures
        r is Ok <==> n == 1 && byte == 0xE9,
        r matches Err(e) ==> e@ == IqErrorView::FifoControl(
            "start FIFO: got "@ + decimal(n as nat) + " bytes, buf[0]=0x"@ + hex2(byte as int),
        ),
{
}

/// The bytes of a number with a sign, the lowest one first: those of the
/// number itself, or of what it lacks to 2^32.
pub open spec fn word_bytes(v: i32) -> Seq<u8> {
    let u = if v < 0 {
        v + 0x1_0000_0000
    } else {
        v as int
    };
    seq![
        (u % 0x100) as u8,
        (u / 0x100 % 0x100) as u8,
        (u / 0x1_0000 % 0x100) as u8,
        (u / 0x100_0000) as u8,
    ]
}

proof fn lemma_word(data: Seq<u8>, at: int, v: i32)
    requires
        0 <= at <= data.len() - 4,
        data.subrange(at, at + 4) == word_bytes(v),
    ensures
        word(data, at) == v,
{
    let w = data.subrange(at, at + 4);
    assert(data[at] == w[0] && data[at + 1] == w[1] && data[at + 2] == w[2] && data[at + 3]
        == w[3]);
}

/// Samples read as they were sent: both parts in their order, whatever stands
/// around them.
pub proof fn law_samples_read_back(data: &[u8], k: int, i: i32, q: i32, r: Vec<[i32; 2]>)
    requires
        call_ensures(convert_samples, (data,), r),
        0 <= k,
        8 * k + 8 <= data@.len(),
        data@.subrange(8 * k, 8 * k + 4) == word_bytes(i),
        data@.subrange(8 * k + 4, 8 * k + 8) == word_bytes(q),
    ensures
        k < r@.len(),
        r@[k]@[0] == i,
        r@[k]@[1] == q,
        8 * r@.len() <= data@.len() < 8 * r@.len() + 8,
{
    lemma_word(data@, 8 * k, i);
    lemma_word(data@, 8 * k + 4, q);
}

/// A correction of up to a million either way is taken as it was sent; any
/// other, and a reply of another length, leaves the clock as it was.
pub proof fn law_corrections_read_back(info: &mut DeviceInfo, reply: &[u8], c: i32)
    ensures
        call_ensures(DeviceInfo::take_correction, (info, reply), ()) ==> {
            &&& reply@ == word_bytes(c) && -1_000_000 <= c <= 1_000_000
                ==> final(info).sample_rate_correction == c
            &&& reply@ == word_bytes(c) && !(-1_000_000 <= c <= 1_000_000)
                ==> final(info).sample_rate_correction == old(info).sample_rate_correction
            &&& reply@.len() != 4 ==> final(info).sample_rate_correction
                == old(info).sample_rate_correction
            &&& final(info).serial == old(info).serial
            &&& final(info).hw_version_major == old(info).hw_version_major
            &&& final(info).hw_version_minor == old(info).hw_version_minor
        },
{
    if reply@ == word_bytes(c) {
        assert(reply@.subrange(0, 4) =~= reply@);
        lemma_word(reply@, 0, c);
    }
}

/// Version and serial number each come from the reply to their own question.
pub proof fn law_replies_fill_their_own_fields(
    a: &mut DeviceInfo,
    b: &mut DeviceInfo,
    version: &[u8],
    serial: &[u8],
)
    ensures
        call_ensures(DeviceInfo::take_version, (a, version), ()) ==> {
            &&& version@.len() == 2 ==> final(a).hw_version_major == version@[0]
                && final(a).hw_version_minor == version@[1]
            &&& version@.len() != 2 ==> *final(a) == *old(a)
            &&& final(a).serial == old(a).serial
            &&& final(a).sample_rate_correction == old(a).sample_rate_correction
        },
        call_ensures(DeviceInfo::take_serial, (b, serial), ()) ==> {
            &&& serial@.len() != 32 ==> *final(b) == *old(b)
            &&& final(b).hw_version_major == old(b).hw_version_major
            &&& final(b).hw_version_minor == old(b).hw_version_minor
            &&& final(b).sample_rate_correction == old(b).sample_rate_correction
        },
{
}

/// A serial number that is filled up with NUL characters loses those and no
/// other character.
pub proof fn law_padding_is_removed(text: Seq<char>, nuls: nat)
    requires
        text.len() == 0 || text.last() != '\0',
    ensures
        without_nuls(text + Seq::new(nuls, |k: int| '\0')) == text,
{
    let s = text + Seq::new(nuls, |k: int| '\0');
    lemma_trailing(s, |c: char| c == '\0', nuls);
    assert(s.take(s.len() - nuls) =~= text);
}

/// The clock runs at 640 times the sample rate, and as much faster as the
/// correction says.
pub proof fn law_clock_follows_the_correction(info: &DeviceInfo, r: i64)
    requires
        call_ensures(DeviceInfo::effective_clock, (info,), r),
    ensures
        r - info.sample_rate_correction == 640 * DEFAULT_SAMPLE_RATE,
{
}

/// A capture goes on through empty reads and timeouts, and stops at the
/// caller's wish and at every other failure. Each block that has bytes is
/// published, and after five hundred of them the frequency is read again.
pub proof fn law_capture_goes_on_until_it_cannot(c: &mut Capture, e: CaptureEvent, r: CaptureStep)
    requires
        old(c).blocks < u64::MAX,
    ensures
        call_ensures(Capture::step, (c, e), r) ==> {
            &&& r is Publish <==> (e matches CaptureEvent::Read(n) && n > 0)
            &&& r is Stop <==> e is Cancelled || (e matches CaptureEvent::Failed(f) && f.kind
                != UsbFaultKind::Timeout)
            &&& final(c).blocks - old(c).blocks == if r is Publish {
                1int
            } else {
                0
            }
            &&& r matches CaptureStep::Publish { reread } ==> (reread <==> exists|k: int|
                #[trigger] (500 * k) == final(c).blocks)
            &&& e matches CaptureEvent::Failed(f) ==> (r matches CaptureStep::Stop(why) ==> why@
                == IqErrorView::Usb(f.kind, f.text@))
            &&& e is Cancelled ==> (r matches CaptureStep::Stop(why) && why@
                == IqErrorView::Cancelled)
        },
{
    if call_ensures(Capture::step, (c, e), r) && r is Publish {
        let n = final(c).blocks as int;
        assert(500 * (n / 500) == n || n % 500 != 0);
    }
}

/// A serial number comes without the padding behind it.
pub proof fn law_serial_numbers_lose_their_padding(
    s: &str,
    text: Seq<char>,
    nuls: nat,
    r: String,
)
    requires
        call_ensures(trim_nuls, (s,), r),
        text.len() == 0 || text.last() != '\0',
        s@ == text + Seq::new(nuls, |k: int| '\0'),
    ensures
        r@ == text,
{
    law_padding_is_removed(text, nuls);
}

/// The serial number is what the reply says, without its padding.
pub proof fn law_serial_numbers_are_read(
    info: &mut DeviceInfo,
    reply: &[u8],
    text: Seq<char>,
    nuls: nat,
)
    requires
        reply@.len() == 32,
        text.len() == 0 || text.last() != '\0',
        lossy_text(reply@) == text + Seq::new(nuls, |k: int| '\0'),
    ensures
        call_ensures(DeviceInfo::take_serial, (info, reply), ()) ==> final(info).serial@ == text,
{
    law_padding_is_removed(text, nuls);
}

/// A device that has told nothing yet has no serial number, no version and
/// no correction.
pub proof fn law_nothing_is_known_at_first(r: DeviceInfo)
    requires
        call_ensures(DeviceInfo::unknown, (), r),
    ensures
        r.serial@.len() == 0,
        r.hw_version_major == 0 && r.hw_version_minor == 0 && r.sample_rate_correction == 0,
{
}

/// The radio's clock runs 640 times as fast as its stream, whose samples have
/// four bytes for each part.
pub proof fn law_the_clock_is_a_multiple_of_the_rate()
    ensures
        S_RATE == 640 * DEFAULT_SAMPLE_RATE,
        DEFAULT_SAMPLE_RATE == 192_000,
        BYTES_PER_SAMPLE == 2 * 4,
        USB_BUFFER_SIZE == 1536 * BYTES_PER_SAMPLE,
        ELAD_RF_ENDPOINT == 0x86 && STREAMING == 0xE9,
{
}

} // verus!
