//! Recordings as a source of audio: whether a file fits, and what becomes of
//! each packet read from it.
use crate::audio::error::{AudioError, AudioErrorView};
use crate::text::{decimal, push_decimal};
use vstd::prelude::*;
use vstd::string::*;

verus! {

/// Samples in a block of audio read from a file.
pub const FRAME_SAMPLES: usize = 960;

/// The system's paths, as opaque values: they need not be text.
#[verifier::external_type_specification]
#[verifier::external_body]
pub struct ExPathBuf(std::path::PathBuf);

/// `PathBuf::clone`: copies a path. A path is opaque here, and nothing is
/// claimed of the copy.
pub assume_specification[ <std::path::PathBuf as Clone>::clone ](
    path: &std::path::PathBuf,
) -> (r: std::path::PathBuf)
;

/// Which file to play, and at which rate it must have been recorded.
#[derive(Debug, Clone)]
pub struct FileSourceConfig {
    pub path: std::path::PathBuf,
    pub sample_rate: u32,
}

/// What a file says of the first track that can be decoded.
#[derive(Debug, Clone, Copy)]
pub struct Track {
    pub id: u32,
    pub sample_rate: Option<u32>,
    pub channels: Option<usize>,
}

/// What playing a track needs to know.
#[derive(Debug, Clone, Copy, PartialEq, Eq, Structural)]
pub struct Playable {
    pub id: u32,
    pub channels: usize,
}

/// A track can be played if its rate is known and is the one configured, and
/// its channels are known.
pub open spec fn playable(wanted: u32, track: Option<Track>) -> Result<Playable, AudioErrorView> {
    match track {
        None => Err(AudioErrorView::FileConfig("no decodable track in file"@)),
        Some(t) => match t.sample_rate {
            None => Err(AudioErrorView::FileConfig("file sample rate unknown"@)),
            Some(rate) => if rate != wanted {
                Err(
                    AudioErrorView::FileConfig(
                        "file rate "@ + decimal(rate as nat)
                            + " Hz does not match configured rate "@ + decimal(wanted as nat)
                            + " Hz (no resampling yet)"@,
                    ),
                )
            } else {
                match t.channels {
                    None => Err(AudioErrorView::FileConfig("file channel layout unknown"@)),
                    Some(channels) => Ok(Playable { id: t.id, channels }),
                }
            },
        },
    }
}

impl FileSourceConfig {
    /// Whether a track can be played in this configuration.
    pub fn check(&self, track: Option<Track>) -> (r: Result<Playable, AudioError>)
        ensures
            match r {
                Ok(p) => playable(self.sample_rate, track) == Ok::<Playable, AudioErrorView>(p),
                Err(e) => playable(self.sample_rate, track) == Err::<Playable, AudioErrorView>(
                    e@,
                ),
            },
    {
        let t: Track = match track {
            Some(t) => t,
            None => {
                return Err(AudioError::FileConfig("no decodable track in file".to_owned()));
            },
        };
        let rate: u32 = match t.sample_rate {
            Some(rate) => rate,
            None => {
                return Err(AudioError::FileConfig("file sample rate unknown".to_owned()));
            },
        };
        if rate != self.sample_rate {
            let mut s: String = "file rate ".to_owned();
            push_decimal(&mut s, rate as u64);
            s.append(" Hz does not match configured rate ");
            push_decimal(&mut s, self.sample_rate as u64);
            s.append(" Hz (no resampling yet)");
            return Err(AudioError::FileConfig(s));
        }
        match t.channels {
            Some(channels) => Ok(Playable { id: t.id, channels }),
            None => Err(AudioError::FileConfig("file channel layout unknown".to_owned())),
        }
    }
}

/// What reading on in a file brings.
#[derive(Debug)]
pub enum Packet {
    /// The caller wants to stop.
    Cancelled,
    /// The file is at its end.
    End,
    /// The file cannot be read.
    Failed(String),
    /// A packet of this track.
    Of(u32),
}

/// What becomes of a packet.
#[derive(Debug)]
pub enum PacketStep {
    /// Decode it.
    Decode,
    /// Go on to the next.
    Skip,
    /// Hand on what waits, and stop.
    Finish,
    Fail(AudioError),
}

/// Packets of other tracks are passed over; the end of the file is a proper
/// end.
pub fn packet_step(packet: Packet, track: u32) -> (r: PacketStep)
    ensures
        match packet {
            Packet::Cancelled => r matches PacketStep::Fail(e) && e@ == AudioErrorView::Cancelled,
            Packet::End => r is Finish,
            Packet::Failed(why) => r matches PacketStep::Fail(e) && e@ == AudioErrorView::Decode(
                why@,
            ),
            Packet::Of(id) => if id == track {
                r is Decode
            } else {
                r is Skip
            },
        },
{
    match packet {
        Packet::Cancelled => PacketStep::Fail(AudioError::Cancelled),
        Packet::End => PacketStep::Finish,
        Packet::Failed(why) => PacketStep::Fail(AudioError::Decode(why)),
        Packet::Of(id) => if id == track {
            PacketStep::Decode
        } else {
            PacketStep::Skip
        },
    }
}

/// What decoding a packet brings.
#[derive(Debug)]
pub enum Decoding {
    Samples,
    /// The packet holds bad data.
    BadData,
    /// The decoder cannot go on.
    Failed(String),
}

/// What becomes of a decoded packet: bad data is passed over, a decoder that
/// cannot go on ends the source.
pub fn decode_step(decoding: Decoding) -> (r: Result<bool, AudioError>)
    ensures
        match decoding {
            Decoding::Samples => r == Ok::<bool, AudioError>(true),
            Decoding::BadData => r == Ok::<bool, AudioError>(false),
            Decoding::Failed(why) => r matches Err(e) && e@ == AudioErrorView::Decode(why@),
        },
{
    match decoding {
        Decoding::Samples => Ok(true),
        Decoding::BadData => Ok(false),
        Decoding::Failed(why) => Err(AudioError::Decode(why)),
    }
}

/// When this many samples have been played, in nanoseconds from the start.
pub open spec fn played_ns(samples: nat, rate: nat) -> nat {
    samples * 1_000_000_000 / rate
}

/// How long to wait before this many samples may have been handed on, in
/// nanoseconds, so that a file plays no faster than it was recorded.
pub fn pause_ns(samples: u64, rate: u32, elapsed_ns: u128) -> (r: u128)
    requires
        rate > 0,
    ensures
        r == (if played_ns(samples as nat, rate as nat) > elapsed_ns {
            played_ns(samples as nat, rate as nat) - elapsed_ns
        } else {
            0
        }),
{
    let due: u128 = samples as u128 * 1_000_000_000 / rate as u128;
    if due > elapsed_ns {
        due - elapsed_ns
    } else {
        0
    }
}

/// The more samples, the later: waiting for a block never undercuts the wait
/// for the one before.
pub proof fn law_time_moves_with_the_samples(samples: nat, more: nat, rate: nat)
    requires
        rate > 0,
    ensures
        played_ns(samples, rate) <= played_ns(samples + more, rate),
        played_ns(rate, rate) == 1_000_000_000,
{
    vstd::arithmetic::div_mod::lemma_div_is_ordered(
        (samples * 1_000_000_000) as int,
        ((samples + more) * 1_000_000_000) as int,
        rate as int,
    );
    vstd::arithmetic::div_mod::lemma_div_multiples_vanish(1_000_000_000, rate as int);
}

/// The kinds of recording whose names are known.
#[derive(Debug, Clone, Copy, PartialEq, Eq, Structural)]
pub enum Codec {
    Flac,
    PcmS16le,
    PcmS24le,
    PcmS32le,
    PcmF32le,
    PcmF64le,
    Other,
}

/// The name of a kind of recording.
pub open spec fn codec_name(codec: Codec) -> Seq<char> {
    match codec {
        Codec::Flac => "FLAC"@,
        Codec::PcmS16le => "PCM s16le"@,
        Codec::PcmS24le => "PCM s24le"@,
        Codec::PcmS32le => "PCM s32le"@,
        Codec::PcmF32le => "PCM f32le"@,
        Codec::PcmF64le => "PCM f64le"@,
        Codec::Other => "unknown"@,
    }
}

/// The name of a kind of recording.
pub fn codec_type_name(codec: Codec) -> (r: &'static str)
    ensures
        r@ == codec_name(codec),
{
    match codec {
        Codec::Flac => "FLAC",
        Codec::PcmS16le => "PCM s16le",
        Codec::PcmS24le => "PCM s24le",
        Codec::PcmS32le => "PCM s32le",
        Codec::PcmF32le => "PCM f32le",
        Codec::PcmF64le => "PCM f64le",
        Codec::Other => "unknown",
    }
}

/// A track is played if it is there, at the rate that is configured, and with
/// known channels; it is then played as itself.
pub proof fn law_tracks_are_played_as_they_are(
    config: &FileSourceConfig,
    track: Option<Track>,
    r: Result<Playable, AudioError>,
)
    requires
        call_ensures(FileSourceConfig::check, (config, track), r),
    ensures
        r is Ok <==> (track matches Some(t) && t.sample_rate == Some(config.sample_rate)
            && t.channels is Some),
        r matches Ok(p) ==> p.id == track->0.id && Some(p.channels) == track->0.channels,
        r matches Err(e) ==> e@ == AudioErrorView::FileConfig(
            if track is None {
                "no decodable track in file"@
            } else if track->0.sample_rate is None {
                "file sample rate unknown"@
            } else if track->0.sample_rate != Some(config.sample_rate) {
                "file rate "@ + decimal(track->0.sample_rate->0 as nat)
                    + " Hz does not match configured rate "@ + decimal(config.sample_rate as nat)
                    + " Hz (no resampling yet)"@
            } else {
                "file channel layout unknown"@
            },
        ),
{
}

/// Only packets of the track that is played are decoded. The end of the file
/// finishes properly, and only a wish to stop or a failure fails.
pub proof fn law_only_the_played_track_is_decoded(packet: Packet, track: u32, r: PacketStep)
    requires
        call_ensures(packet_step, (packet, track), r),
    ensures
        r is Decode <==> packet == Packet::Of(track),
        r is Finish <==> packet is End,
        r is Fail <==> packet is Cancelled || packet is Failed,
        packet is Cancelled ==> (r matches PacketStep::Fail(e) && e@ == AudioErrorView::Cancelled),
        packet matches Packet::Failed(why) ==> (r matches PacketStep::Fail(e) && e@
            == AudioErrorView::Decode(why@)),
{
}

/// Bad data costs its packet, and no more; a decoder that cannot go on costs
/// the source.
pub proof fn law_bad_data_costs_its_packet(decoding: Decoding, r: Result<bool, AudioError>)
    requires
        call_ensures(decode_step, (decoding,), r),
    ensures
        r == Ok::<bool, AudioError>(true) <==> decoding is Samples,
        r == Ok::<bool, AudioError>(false) <==> decoding is BadData,
        r is Err <==> decoding is Failed,
{
}

/// Samples are due when their number has passed at the rate of the file, to
/// within a nanosecond; the pause lasts until then, and there is none once it
/// is later.
pub proof fn law_samples_are_due_at_their_rate(
    samples: u64,
    rate: u32,
    elapsed_ns: u128,
    r: u128,
)
    requires
        rate > 0,
        call_ensures(pause_ns, (samples, rate, elapsed_ns), r),
    ensures
        ({
            let end = elapsed_ns + r;
            &&& r > 0 ==> end * rate <= samples * 1_000_000_000 < (end + 1) * rate
            &&& r == 0 ==> samples * 1_000_000_000 < (elapsed_ns + 1) * rate
        }),
{
    let x = samples * 1_000_000_000;
    let d = rate as int;
    let due = x / d;
    vstd::arithmetic::div_mod::lemma_fundamental_div_mod(x, d);
    vstd::arithmetic::div_mod::lemma_mod_pos_bound(x, d);
    assert(due * d <= x < (due + 1) * d) by (nonlinear_arith)
        requires
            x == d * due + x % d,
            0 <= x % d < d,
    ;
    if r == 0 {
        assert((due + 1) * d <= (elapsed_ns + 1) * d) by (nonlinear_arith)
            requires
                due <= elapsed_ns,
                d > 0,
        ;
    }
}

/// Recordings are named by their coding.
pub proof fn law_codings_have_names(codec: Codec, r: &'static str)
    requires
        call_ensures(codec_type_name, (codec,), r),
    ensures
        match codec {
            Codec::Flac => r@ == "FLAC"@,
            Codec::PcmS16le => r@ == "PCM s16le"@,
            Codec::PcmS24le => r@ == "PCM s24le"@,
            Codec::PcmS32le => r@ == "PCM s32le"@,
            Codec::PcmF32le => r@ == "PCM f32le"@,
            Codec::PcmF64le => r@ == "PCM f64le"@,
            Codec::Other => r@ == "unknown"@,
        },
{
}

/// Fifty frames of a file make a second.
pub proof fn law_fifty_frames_make_a_second()
    ensures
        50 * FRAME_SAMPLES == 48_000,
{
}

} // verus!
