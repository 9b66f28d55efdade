//! Playing a recording through the DRM decoder: the processes that stand
//! around it, and the stereo samples that come back.
use crate::dsp::error::{DspError, DspErrorView};
use crate::text::{decimal, push_decimal};
use vstd::prelude::*;
use vstd::string::*;

verus! {

/// Stereo frames in one block of decoded audio.
pub const FRAMES_PER_CHUNK: usize = 960;

/// Bytes in one such block: two channels of two bytes.
pub const BYTES_PER_CHUNK: usize = 3840;

/// The sound server's sinks on either side of the decoder, and the rate they
/// run at.
#[derive(Debug)]
pub struct FileBridge {
    pub input_sink: String,
    pub output_sink: String,
    pub dream_rate: u32,
}

/// The texts of a list of strings.
pub open spec fn texts(v: Seq<String>) -> Seq<Seq<char>> {
    Seq::new(v.len(), |i: int| v[i]@)
}

/// A recording that is not there cannot be played.
pub fn missing_file(path: &str) -> (r: DspError)
    ensures
        r@ == DspErrorView::Drm("drm-file-test: input file does not exist: "@ + path@),
{
    DspError::Drm("drm-file-test: input file does not exist: ".to_owned().concat(path))
}

impl FileBridge {
    /// The player reads the recording into the decoder's input.
    pub fn player_args(&self, file: &str) -> (r: Vec<String>)
        ensures
            texts(r@) == seq!["--device"@, self.input_sink@, file@],
    {
        let mut args: Vec<String> = Vec::new();
        args.push("--device".to_owned());
        args.push(self.input_sink.as_str().to_owned());
        args.push(file.to_owned());
        args
    }

    /// The recorder reads what the decoder plays, as raw stereo samples.
    pub fn recorder_args(&self) -> (r: Vec<String>)
        ensures
            texts(r@) == seq![
                "--record"@,
                "--device"@,
                self.output_sink@ + ".monitor"@,
                "--channels=2"@,
                "--format=s16le"@,
                "--rate="@ + decimal(self.dream_rate as nat),
                "--raw"@,
            ],
    {
        let mut rate: String = "--rate=".to_owned();
        push_decimal(&mut rate, self.dream_rate as u64);
        let mut args: Vec<String> = Vec::new();
        args.push("--record".to_owned());
        args.push("--device".to_owned());
        args.push(self.output_sink.as_str().to_owned().concat(".monitor"));
        args.push("--channels=2".to_owned());
        args.push("--format=s16le".to_owned());
        args.push(rate);
        args.push("--raw".to_owned());
        assert(texts(args@) =~= seq![
            "--record"@,
            "--device"@,
            self.output_sink@ + ".monitor"@,
            "--channels=2"@,
            "--format=s16le"@,
            "--rate="@ + decimal(self.dream_rate as nat),
            "--raw"@,
        ]);
        args
    }

    /// The decoder stands between the two sinks, and takes its input for
    /// real audio.
    pub fn decoder_args(&self) -> (r: Vec<String>)
        ensures
            texts(r@) == seq![
                "-I"@,
                self.input_sink@ + ".monitor"@,
                "-O"@,
                self.output_sink@,
                "--sigsrate"@,
                decimal(self.dream_rate as nat),
                "--audsrate"@,
                decimal(self.dream_rate as nat),
            ],
    {
        let mut args: Vec<String> = Vec::new();
        args.push("-I".to_owned());
        args.push(self.input_sink.as_str().to_owned().concat(".monitor"));
        args.push("-O".to_owned());
        args.push(self.output_sink.as_str().to_owned());
        args.push("--sigsrate".to_owned());
        args.push(number_text(self.dream_rate));
        args.push("--audsrate".to_owned());
        args.push(number_text(self.dream_rate));
        assert(texts(args@) =~= seq![
            "-I"@,
            self.input_sink@ + ".monitor"@,
            "-O"@,
            self.output_sink@,
            "--sigsrate"@,
            decimal(self.dream_rate as nat),
            "--audsrate"@,
            decimal(self.dream_rate as nat),
        ]);
        args
    }
}

fn number_text(n: u32) -> (r: String)
    ensures
        r@ == decimal(n as nat),
{
    let mut s: String = String::new();
    push_decimal(&mut s, n as u64);
    s
}

/// The number that two bytes stand for, the lower one first, with a sign.
pub open spec fn sample_value(low: u8, high: u8) -> int {
    if high < 128 {
        low + 256 * high
    } else {
        low + 256 * high - 65536
    }
}

/// The two channels of a frame added up.
pub open spec fn frame_sum(bytes: Seq<u8>, frame: int) -> int {
    sample_value(bytes[4 * frame], bytes[4 * frame + 1]) + sample_value(
        bytes[4 * frame + 2],
        bytes[4 * frame + 3],
    )
}

/// A sample of two bytes.
pub fn sample(low: u8, high: u8) -> (r: i32)
    ensures
        r == sample_value(low, high),
{
    let v: i32 = low as i32 + 256 * (high as i32);
    if high < 128 {
        v
    } else {
        v - 65536
    }
}

/// The sum of the two channels for each whole frame of raw stereo samples.
/// Halved and divided by full scale, it is the mono sample.
pub fn stereo_sums(bytes: &[u8]) -> (r: Vec<i32>)
    ensures
        r@.len() == bytes@.len() / 4,
        forall|k: int| 0 <= k < r@.len() ==> #[trigger] r@[k] == frame_sum(bytes@, k),
{
    let total: usize = bytes.len();
    let frames: usize = total / 4;
    let mut out: Vec<i32> = Vec::new();
    let mut k: usize = 0;
    while k < frames
        invariant
            k <= frames == total / 4,
            total == bytes@.len(),
            out@.len() == k,
            forall|j: int| 0 <= j < k ==> #[trigger] out@[j] == frame_sum(bytes@, j),
        decreases frames - k,
    {
        let at: usize = 4 * k;
        let left: i32 = sample(bytes[at], bytes[at + 1]);
        let right: i32 = sample(bytes[at + 2], bytes[at + 3]);
        out.push(left + right);
        k += 1;
    }
    out
}

/// A block of decoded audio gives one sample for each of its frames, each
/// within twice full scale.
pub proof fn law_chunk_is_a_frame_each(bytes: Seq<u8>, frame: int)
    requires
        bytes.len() == BYTES_PER_CHUNK,
        0 <= frame < FRAMES_PER_CHUNK,
    ensures
        bytes.len() / 4 == FRAMES_PER_CHUNK,
        -65536 <= frame_sum(bytes, frame) <= 65534,
{
}

/// How the bridge goes on when something happens.
#[derive(Debug, Clone, Copy, PartialEq, Eq, Structural)]
pub enum FileEvent {
    /// The caller wants it stopped.
    Cancelled,
    /// The recording has been played.
    PlayerDone,
    /// The decoder or the recorder is gone.
    ChildDied,
}

/// How long the decoder may go on, in milliseconds, so that the tail of the
/// audio comes through. Where it is stopped, or there is nothing left to come
/// through, the bridge ends at once.
pub fn drain_ms(event: FileEvent) -> (r: u64)
    ensures
        r == (match event {
            FileEvent::Cancelled => 0u64,
            FileEvent::PlayerDone => 1000u64,
            FileEvent::ChildDied => 0u64,
        }),
{
    match event {
        FileEvent::Cancelled => 0,
        FileEvent::PlayerDone => 1000,
        FileEvent::ChildDied => 0,
    }
}

/// The two bytes of a sample with a sign, the lower one first.
pub open spec fn sample_bytes(v: i16) -> Seq<u8> {
    let u = if v < 0 {
        v + 65536
    } else {
        v as int
    };
    seq![(u % 256) as u8, (u / 256) as u8]
}

/// Decoded frames are read as they were sent, and both channels count alike.
pub proof fn law_frames_add_up_their_channels(
    bytes: &[u8],
    k: int,
    left: i16,
    right: i16,
    r: Vec<i32>,
)
    requires
        call_ensures(stereo_sums, (bytes,), r),
        0 <= k,
        4 * k + 4 <= bytes@.len(),
        bytes@.subrange(4 * k, 4 * k + 2) == sample_bytes(left),
        bytes@.subrange(4 * k + 2, 4 * k + 4) == sample_bytes(right),
    ensures
        k < r@.len(),
        r@[k] == left + right,
        4 * r@.len() <= bytes@.len() < 4 * r@.len() + 4,
{
    let a = bytes@.subrange(4 * k, 4 * k + 2);
    let b = bytes@.subrange(4 * k + 2, 4 * k + 4);
    assert(bytes@[4 * k] == a[0] && bytes@[4 * k + 1] == a[1]);
    assert(bytes@[4 * k + 2] == b[0] && bytes@[4 * k + 3] == b[1]);
}

/// The recording is played into the decoder's input, the decoder listens
/// there and plays into its output, and the recorder listens to that; all at
/// one rate.
pub proof fn law_the_three_programs_are_connected(
    bridge: &FileBridge,
    file: &str,
    player: Vec<String>,
    decoder: Vec<String>,
    recorder: Vec<String>,
)
    requires
        call_ensures(FileBridge::player_args, (bridge, file), player),
        call_ensures(FileBridge::decoder_args, (bridge,), decoder),
        call_ensures(FileBridge::recorder_args, (bridge,), recorder),
    ensures
        ({
            let p = texts(player@);
            let d = texts(decoder@);
            let r = texts(recorder@);
            let rate = decimal(bridge.dream_rate as nat);
            &&& p.len() == 3 && p[0] == "--device"@ && p[1] == bridge.input_sink@ && p[2] == file@
            &&& d.len() == 8 && d[0] == "-I"@ && d[1] == p[1] + ".monitor"@
            &&& d[2] == "-O"@ && d[3] == bridge.output_sink@
            &&& d[4] == "--sigsrate"@ && d[5] == rate && d[6] == "--audsrate"@ && d[7] == rate
            &&& r.len() == 7 && r[0] == "--record"@ && r[1] == "--device"@ && r[2] == d[3]
                + ".monitor"@
            &&& r[3] == "--channels=2"@ && r[4] == "--format=s16le"@ && r[5] == "--rate="@ + rate
                && r[6] == "--raw"@
        }),
{
}

/// Only a recording that was played to its end is given time for its tail:
/// one second.
pub proof fn law_only_a_played_recording_drains(event: FileEvent, r: u64)
    requires
        call_ensures(drain_ms, (event,), r),
    ensures
        event == FileEvent::PlayerDone ==> r == 1000,
        event != FileEvent::PlayerDone ==> r == 0,
{
}

/// A recording that is missing is named, and a sample reads as it was
/// written.
pub proof fn law_samples_and_files_are_told(
    path: &str,
    e: DspError,
    v: i16,
    r: i32,
)
    requires
        call_ensures(missing_file, (path,), e),
        call_ensures(sample, (sample_bytes(v)[0], sample_bytes(v)[1]), r),
    ensures
        e@ == DspErrorView::Drm("drm-file-test: input file does not exist: "@ + path@),
        r == v,
{
}

/// Fifty chunks make a second, of two channels with two bytes each.
pub proof fn law_fifty_chunks_make_a_second()
    ensures
        50 * FRAMES_PER_CHUNK == 48_000,
        BYTES_PER_CHUNK == 4 * FRAMES_PER_CHUNK,
{
}

} // verus!
