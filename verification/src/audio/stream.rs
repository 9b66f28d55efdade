//! How sound devices are set up, and how samples are laid out for them.
use vstd::prelude::*;
use vstd::string::*;

verus! {

/// Samples in an Opus frame: 20 ms at 48 kHz. Captured audio comes in blocks
/// of as many frames.
pub const OPUS_FRAME_SIZE: usize = 960;

/// The longest Opus packet, in bytes.
pub const MAX_OPUS_PACKET: usize = 1275;

/// Channels of the radio's sound card.
pub const CARD_CHANNELS: usize = 2;

/// The number that stands for full scale in a sample of 16 bits, in both
/// directions.
pub const FULL_SCALE: i32 = 32767;

/// Configuration of the loudspeaker.
#[derive(Debug, Clone)]
pub struct AlsaConfig {
    pub device: String,
    pub sample_rate: u32,
    /// Latency to aim for, in milliseconds.
    pub latency_ms: u32,
}

impl Default for AlsaConfig {
    /// The default device at 48 kHz with 50 ms.
    fn default() -> (r: Self)
        ensures
            r.device@ == "default"@,
            r.sample_rate == 48_000,
            r.latency_ms == 50,
    {
        AlsaConfig { device: "default".to_owned(), sample_rate: 48_000, latency_ms: 50 }
    }
}

/// The sizes of a device's buffer and of the periods it is filled in.
#[derive(Debug, Clone, Copy, PartialEq, Eq, Structural)]
pub struct BufferSize {
    pub buffer_frames: i64,
    pub period_frames: i64,
}

impl AlsaConfig {
    /// The buffer holds the latency, in four periods.
    pub fn buffer_size(&self) -> (r: BufferSize)
        requires
            self.sample_rate * self.latency_ms <= u32::MAX,
        ensures
            r.buffer_frames == self.sample_rate * self.latency_ms / 1000,
            r.period_frames == self.sample_rate * self.latency_ms / 1000 / 4,
    {
        let product: u32 = self.sample_rate * self.latency_ms;
        let buffer_frames: i64 = (product / 1000) as i64;
        BufferSize { buffer_frames, period_frames: buffer_frames / 4 }
    }

    /// Whether the buffer can be sized: rate and latency do not multiply to
    /// more than 32 bits hold.
    pub fn can_size(&self) -> (r: bool)
        ensures
            r == (self.sample_rate * self.latency_ms <= u32::MAX),
    {
        self.sample_rate.checked_mul(self.latency_ms).is_some()
    }
}

/// Configuration of the capture of received audio.
#[derive(Debug, Clone)]
pub struct UsbRxConfig {
    pub device: String,
    pub sample_rate: u32,
}

impl Default for UsbRxConfig {
    /// The default device at 48 kHz.
    fn default() -> (r: Self)
        ensures
            r.device@ == "default"@,
            r.sample_rate == 48_000,
    {
        UsbRxConfig { device: "default".to_owned(), sample_rate: 48_000 }
    }
}

/// Configuration of the playback of audio to transmit.
#[derive(Debug, Clone)]
pub struct UsbTxConfig {
    pub device: String,
    pub sample_rate: u32,
}

impl Default for UsbTxConfig {
    /// The default device at 48 kHz.
    fn default() -> (r: Self)
        ensures
            r.device@ == "default"@,
            r.sample_rate == 48_000,
    {
        UsbTxConfig { device: "default".to_owned(), sample_rate: 48_000 }
    }
}

/// The buffer of the radio's card: a tenth of a second.
pub fn card_buffer_frames(sample_rate: u32) -> (r: i64)
    ensures
        r == sample_rate as int / 10,
{
    (sample_rate / 10) as i64
}

/// A block of frames on its way to or from a device, which may take or give
/// only part of it at a time.
#[derive(Debug, Clone, Copy)]
pub struct Transfer {
    done: usize,
    total: usize,
}

impl Transfer {
    /// Frames moved so far.
    pub closed spec fn done(&self) -> nat {
        self.done as nat
    }

    /// Frames to move.
    pub closed spec fn total(&self) -> nat {
        self.total as nat
    }

    pub fn new(total: usize) -> (r: Self)
        ensures
            r.done() == 0,
            r.total() == total,
    {
        Transfer { done: 0, total }
    }

    /// The frame to go on with; `None` when all are moved.
    pub fn next(&self) -> (r: Option<usize>)
        ensures
            r == (if self.done() < self.total() {
                Some(self.done() as usize)
            } else {
                None
            }),
    {
        if self.done < self.total {
            Some(self.done)
        } else {
            None
        }
    }

    /// The device has moved this many frames.
    pub fn moved(&mut self, frames: usize)
        requires
            old(self).done() + frames <= usize::MAX,
        ensures
            final(self).done() == old(self).done() + frames,
            final(self).total() == old(self).total(),
    {
        self.done = self.done + frames;
    }
}

/// The two channels of a frame added up, and kept within full scale on both:
/// the least number of 16 bits lies one beyond it.
pub open spec fn pair_sum(samples: Seq<i16>, frame: int) -> int {
    let sum = samples[2 * frame] + samples[2 * frame + 1];
    if sum < -2 * FULL_SCALE {
        -2 * FULL_SCALE
    } else {
        sum
    }
}

/// The sum of the two channels for each whole frame, within full scale.
/// Halved and divided by full scale, it is the mono sample, from -1 to 1.
pub fn downmix(samples: &[i16]) -> (r: Vec<i32>)
    ensures
        r@.len() == samples@.len() / 2,
        forall|k: int| 0 <= k < r@.len() ==> #[trigger] r@[k] == pair_sum(samples@, k),
{
    let total: usize = samples.len();
    let frames: usize = total / 2;
    let mut out: Vec<i32> = Vec::new();
    let mut k: usize = 0;
    while k < frames
        invariant
            k <= frames == total / 2,
            total == samples@.len(),
            out@.len() == k,
            forall|j: int| 0 <= j < k ==> #[trigger] out@[j] == pair_sum(samples@, j),
        decreases frames - k,
    {
        let sum: i32 = samples[2 * k] as i32 + samples[2 * k + 1] as i32;
        out.push(if sum < -2 * FULL_SCALE { -2 * FULL_SCALE } else { sum });
        k += 1;
    }
    out
}

/// Every sample on both channels.
pub open spec fn doubled(samples: Seq<i16>) -> Seq<i16> {
    Seq::new(2 * samples.len(), |k: int| samples[k / 2])
}

/// Lays mono samples out on both channels of the card.
pub fn upmix(samples: &[i16]) -> (r: Vec<i16>)
    ensures
        r@ == doubled(samples@),
{
    let mut out: Vec<i16> = Vec::new();
    let mut k: usize = 0;
    while k < samples.len()
        invariant
            k <= samples@.len(),
            out@.len() == 2 * k,
            forall|j: int| 0 <= j < 2 * k ==> #[trigger] out@[j] == samples@[j / 2],
        decreases samples@.len() - k,
    {
        out.push(samples[k]);
        out.push(samples[k]);
        k += 1;
    }
    out
}

/// Audio laid out on both channels and mixed again is itself: twice the
/// sample, for two channels. Only the number beyond full scale comes back as
/// full scale.
pub proof fn law_mono_survives_the_card(samples: Seq<i16>, frame: int)
    requires
        0 <= frame < samples.len(),
    ensures
        doubled(samples).len() / 2 == samples.len(),
        samples[frame] >= -FULL_SCALE ==> pair_sum(doubled(samples), frame) == 2 * samples[frame],
        samples[frame] < -FULL_SCALE ==> pair_sum(doubled(samples), frame) == -2 * FULL_SCALE,
{
}

/// Whatever the card delivers, no mixed sample lies beyond full scale.
pub proof fn law_mixed_samples_stay_within_full_scale(samples: Seq<i16>, frame: int)
    requires
        0 <= frame < samples.len() / 2,
    ensures
        -2 * FULL_SCALE <= pair_sum(samples, frame) <= 2 * FULL_SCALE,
{
}

/// A mixed sample is what both channels add up to, whichever of them carries
/// it, and is only held back where that would pass full scale.
pub proof fn law_mixing_adds_the_channels(samples: &[i16], k: int, r: Vec<i32>)
    requires
        call_ensures(downmix, (samples,), r),
        0 <= k,
        2 * k + 1 < samples@.len(),
    ensures
        k < r@.len(),
        ({
            let sum = samples@[2 * k] + samples@[2 * k + 1];
            &&& -65_534 <= sum ==> r@[k] == sum
            &&& sum < -65_534 ==> r@[k] == -65_534
        }),
        2 * r@.len() <= samples@.len() < 2 * r@.len() + 2,
{
}

/// Every sample goes to both channels, in its own frame, and no frame is
/// added or lost.
pub proof fn law_both_channels_carry_every_sample(samples: &[i16], k: int, r: Vec<i16>)
    requires
        call_ensures(upmix, (samples,), r),
        0 <= k < samples@.len(),
    ensures
        r@.len() == 2 * samples@.len(),
        r@[2 * k] == samples@[k],
        r@[2 * k + 1] == samples@[k],
{
}

/// The loudspeaker's buffer holds the latency and no whole frame more, in
/// four periods that are as equal as whole frames can be. The card's holds a
/// tenth of a second.
pub proof fn law_buffers_hold_their_time(
    config: &AlsaConfig,
    r: BufferSize,
    rate: u32,
    card: i64,
)
    requires
        config.sample_rate * config.latency_ms <= u32::MAX,
        call_ensures(AlsaConfig::buffer_size, (config,), r),
        call_ensures(card_buffer_frames, (rate,), card),
    ensures
        1000 * r.buffer_frames <= config.sample_rate * config.latency_ms < 1000 * (r.buffer_frames
            + 1),
        4 * r.period_frames <= r.buffer_frames < 4 * r.period_frames + 4,
        10 * card <= rate < 10 * card + 10,
{
}

/// A transfer goes on behind what was moved, until all of it is.
pub proof fn law_transfers_go_on_behind_what_was_moved(
    t: &Transfer,
    total: usize,
    fresh: Transfer,
    at: Option<usize>,
)
    requires
        call_ensures(Transfer::new, (total,), fresh),
        call_ensures(Transfer::next, (t,), at),
    ensures
        fresh.done() == 0 && fresh.total() == total,
        at is None <==> t.total() <= t.done(),
        at matches Some(k) ==> k == t.done() && k < t.total(),
{
}

/// A packet is twenty milliseconds at the rate of the loudspeaker, and blocks
/// from recordings and from the DRM decoder have the same size. A sample of
/// 16 bits has its full scale at the largest number.
pub proof fn law_blocks_are_twenty_milliseconds()
    ensures
        1000 * OPUS_FRAME_SIZE == 20 * crate::client::ring::PLAY_RATE,
        crate::client::ring::PLAY_RATE == 48_000,
        crate::audio::file_source::FRAME_SAMPLES == OPUS_FRAME_SIZE,
        crate::dsp::drm_file::FRAMES_PER_CHUNK == OPUS_FRAME_SIZE,
        crate::dsp::drm_file::BYTES_PER_CHUNK == 2 * CARD_CHANNELS * OPUS_FRAME_SIZE,
        5 * crate::client::ring::RING_CAPACITY == crate::client::ring::PLAY_RATE,
        FULL_SCALE == i16::MAX,
        CARD_CHANNELS == 2,
        MAX_OPUS_PACKET == 1275,
{
}

/// Sound runs at 48 kHz on the default devices, and the loudspeaker with
/// 50 ms.
pub proof fn law_default_sound(a: AlsaConfig, rx: UsbRxConfig, tx: UsbTxConfig)
    requires
        call_ensures(<AlsaConfig as Default>::default, (), a),
        call_ensures(<UsbRxConfig as Default>::default, (), rx),
        call_ensures(<UsbTxConfig as Default>::default, (), tx),
    ensures
        a.device@ == "default"@ && rx.device@ == "default"@ && tx.device@ == "default"@,
        a.sample_rate == 48_000 && rx.sample_rate == 48_000 && tx.sample_rate == 48_000,
        a.latency_ms == 50,
{
}

/// What is moved counts, and a buffer can be sized while its product fits 32
/// bits.
pub proof fn law_moved_frames_count(t: &mut Transfer, frames: usize, c: &AlsaConfig, r: bool)
    requires
        old(t).done() + frames <= usize::MAX,
        call_ensures(AlsaConfig::can_size, (c,), r),
    ensures
        call_ensures(Transfer::moved, (t, frames), ()) ==> final(t).done() - old(t).done() == frames
            && final(t).total() == old(t).total(),
        r <==> c.sample_rate * c.latency_ms < 0x1_0000_0000,
{
}

/// A frame of sound lasts 20 ms at 48 kHz, a card has two channels, and full
/// scale is the largest sample.
pub proof fn law_frames_last_twenty_milliseconds()
    ensures
        50 * OPUS_FRAME_SIZE == 48_000,
        CARD_CHANNELS == 2,
        FULL_SCALE == i16::MAX,
{
}

} // verus!
