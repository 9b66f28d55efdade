//! The samples that wait for the loudspeaker.
use crate::text::{decimal, push_decimal};
use std::collections::VecDeque;
use vstd::prelude::*;
use vstd::string::*;

verus! {

/// Samples that wait at most: a fifth of a second at 48 kHz.
pub const RING_CAPACITY: usize = 9600;

/// What waits after these samples have come in: the newest, as many as there
/// is room for.
pub open spec fn ring_after<T>(ring: Seq<T>, incoming: Seq<T>) -> Seq<T> {
    let all = ring + incoming;
    if all.len() > RING_CAPACITY {
        all.skip(all.len() - RING_CAPACITY)
    } else {
        all
    }
}

/// Samples in the order they are to be played.
pub struct Ring<T> {
    samples: VecDeque<T>,
}

impl<T> View for Ring<T> {
    type V = Seq<T>;

    closed spec fn view(&self) -> Seq<T> {
        self.samples@
    }
}

impl<T: Copy> Ring<T> {
    /// No more waits than there is room for.
    pub open spec fn valid(&self) -> bool {
        self@.len() <= RING_CAPACITY
    }

    pub fn new() -> (r: Self)
        ensures
            r.valid(),
            r@ == Seq::<T>::empty(),
    {
        Ring { samples: VecDeque::new() }
    }

    /// How many samples wait.
    pub fn len(&self) -> (r: usize)
        ensures
            r == self@.len(),
    {
        self.samples.len()
    }

    /// Takes samples in. Where they would be too many, the oldest are dropped,
    /// so that what is heard does not fall behind.
    pub fn push(&mut self, incoming: &[T])
        requires
            old(self).valid(),
            incoming@.len() <= RING_CAPACITY,
        ensures
            final(self).valid(),
            final(self)@ == ring_after(old(self)@, incoming@),
    {
        let have: usize = self.samples.len();
        let coming: usize = incoming.len();
        if have + coming > RING_CAPACITY {
            let drop: usize = have + coming - RING_CAPACITY;
            let newer: VecDeque<T> = self.samples.split_off(drop);
            self.samples = newer;
        }
        let ghost kept = self.samples@;
        let mut i: usize = 0;
        while i < coming
            invariant
                i <= coming == incoming@.len(),
                self.samples@ == kept + incoming@.take(i as int),
            decreases coming - i,
        {
            self.samples.push_back(incoming[i]);
            assert(kept + incoming@.take(i + 1) =~= (kept + incoming@.take(i as int)).push(
                incoming@[i as int],
            ));
            i += 1;
        }
    }

    /// Takes the next sample out, or a stand-in where none waits.
    pub fn pop(&mut self, silence: T) -> (r: T)
        requires
            old(self).valid(),
        ensures
            final(self).valid(),
            old(self)@.len() == 0 ==> r == silence && final(self)@ == old(self)@,
            old(self)@.len() > 0 ==> r == old(self)@[0] && final(self)@ == old(self)@.skip(1),
    {
        match self.samples.pop_front() {
            Some(r) => {
                r
            },
            None => silence,
        }
    }

    /// Fills `len` places, each sample on as many of them as there are
    /// channels, with a stand-in where none waits.
    pub fn play(&mut self, len: usize, channels: usize, silence: T) -> (r: Vec<T>)
        requires
            old(self).valid(),
            channels > 0,
        ensures
            final(self).valid(),
            final(self)@ == rest_of(old(self)@, frames_in(len as nat, channels as nat)),
            r@ == spread(old(self)@, len as nat, channels as nat, silence),
    {
        let ghost start = self@;
        let ghost mut q: nat = 0;
        let mut out: Vec<T> = Vec::new();
        let mut sample: T = silence;
        let mut left: usize = 0;
        let mut i: usize = 0;
        while i < len
            invariant
                i <= len,
                channels > 0,
                self.valid(),
                left < channels,
                i + left == q * channels,
                self@ == rest_of(start, q),
                left > 0 ==> q > 0 && sample == sample_at(start, q - 1, silence),
                out@ == spread(start, i as nat, channels as nat, silence),
            decreases len - i,
        {
            if left == 0 {
                sample = self.pop(silence);
                left = channels;
                proof {
                    q = q + 1;
                }
            }
            out.push(sample);
            left = left - 1;
            proof {
                assert((q - 1) * channels == q * channels - channels) by (nonlinear_arith);
                vstd::arithmetic::div_mod::lemma_fundamental_div_mod_converse(
                    i as int,
                    channels as int,
                    q - 1,
                    i - (q - 1) * channels,
                );
            }
            i += 1;
        }
        proof {
            vstd::arithmetic::div_mod::lemma_fundamental_div_mod_converse(
                len + channels - 1,
                channels as int,
                q as int,
                channels - 1 - left,
            );
        }
        out
    }
}

/// What waits after this many samples have been taken out.
pub open spec fn rest_of<T>(ring: Seq<T>, taken: nat) -> Seq<T> {
    if taken < ring.len() {
        ring.skip(taken as int)
    } else {
        ring.skip(ring.len() as int)
    }
}

/// The sample that is taken out at this turn.
pub open spec fn sample_at<T>(ring: Seq<T>, turn: int, silence: T) -> T {
    if turn < ring.len() {
        ring[turn]
    } else {
        silence
    }
}

/// How many frames it takes to fill `len` places; the last may not be whole.
pub open spec fn frames_in(len: nat, channels: nat) -> nat
    recommends
        channels > 0,
{
    ((len + channels - 1) / channels as int) as nat
}

/// Samples laid out frame by frame, each on every channel.
pub open spec fn spread<T>(ring: Seq<T>, len: nat, channels: nat, silence: T) -> Seq<T>
    recommends
        channels > 0,
{
    Seq::new(len, |i: int| sample_at(ring, i / (channels as int), silence))
}

/// The newest samples are the ones that stay, in their order, and none is lost
/// while there is room.
pub proof fn law_ring_keeps_the_newest<T>(ring: Seq<T>, incoming: Seq<T>)
    requires
        ring.len() <= RING_CAPACITY,
        incoming.len() <= RING_CAPACITY,
    ensures
        ring_after(ring, incoming).len() <= RING_CAPACITY,
        ring_after(ring, incoming).skip(
            ring_after(ring, incoming).len() - incoming.len(),
        ) == incoming,
        ring.len() + incoming.len() <= RING_CAPACITY ==> ring_after(ring, incoming) == ring
            + incoming,
        ring.len() + incoming.len() > RING_CAPACITY ==> ring_after(ring, incoming).len()
            == RING_CAPACITY,
        ring_after(ring, incoming) == (ring + incoming).skip(
            ring.len() + incoming.len() - ring_after(ring, incoming).len(),
        ),
{
    assert((ring + incoming).skip(0) =~= ring + incoming);
}

/// What the loudspeaker can be driven with.
#[derive(Debug, Clone, Copy)]
pub struct OutputConfig {
    pub is_float: bool,
    pub min_rate: u32,
    pub max_rate: u32,
}

/// The rate that the player needs.
pub const PLAY_RATE: u32 = 48_000;

/// The first configuration from `at` on that plays floating-point samples at
/// the right rate.
pub open spec fn fitting(configs: Seq<OutputConfig>, at: int) -> Option<int>
    decreases configs.len() - at,
{
    if at < 0 || at >= configs.len() {
        None
    } else if configs[at].is_float && configs[at].min_rate <= PLAY_RATE <= configs[at].max_rate {
        Some(at)
    } else {
        fitting(configs, at + 1)
    }
}

/// Which configuration to use.
#[derive(Debug, Clone, Copy, PartialEq, Eq, Structural)]
pub enum ConfigChoice {
    /// The one at this place, at the right rate.
    Listed(usize),
    /// The device's own default.
    DeviceDefault,
    /// None will do.
    Unusable,
}

/// Chooses a configuration: the first listed one that fits, else the default
/// if it runs at the right rate.
pub fn find_config(configs: &Vec<OutputConfig>, default_rate: u32) -> (r: ConfigChoice)
    ensures
        r == (match fitting(configs@, 0) {
            Some(k) => ConfigChoice::Listed(k as usize),
            None => if default_rate == PLAY_RATE {
                ConfigChoice::DeviceDefault
            } else {
                ConfigChoice::Unusable
            },
        }),
{
    let mut at: usize = 0;
    while at < configs.len()
        invariant
            at <= configs@.len(),
            fitting(configs@, 0) == fitting(configs@, at as int),
        decreases configs@.len() - at,
    {
        let c: OutputConfig = configs[at];
        if c.is_float && c.min_rate <= PLAY_RATE && PLAY_RATE <= c.max_rate {
            return ConfigChoice::Listed(at);
        }
        at += 1;
    }
    if default_rate == PLAY_RATE {
        ConfigChoice::DeviceDefault
    } else {
        ConfigChoice::Unusable
    }
}

/// The text that says that no configuration will do.
pub fn unusable_output(default_rate: u32) -> (r: String)
    ensures
        r@ == "no 48kHz output config found (default is "@ + decimal(default_rate as nat)
            + "Hz)"@,
{
    let mut s: String = "no 48kHz output config found (default is ".to_owned();
    push_decimal(&mut s, default_rate as u64);
    s.append("Hz)");
    s
}

/// What comes in is played last and in its order; the oldest samples make
/// room for it.
pub proof fn law_samples_queue_up<T: Copy>(ring: &mut Ring<T>, incoming: &[T])
    requires
        old(ring).valid(),
        incoming@.len() <= 9600,
    ensures
        call_ensures(Ring::<T>::push, (ring, incoming), ()) ==> {
            let all = old(ring)@ + incoming@;
            &&& all.len() <= 9600 ==> final(ring)@ == all
            &&& all.len() > 9600 ==> final(ring)@.len() == 9600 && final(ring)@ == all.skip(
                all.len() - 9600,
            )
        },
{
}

/// A sample is taken out in the order in which it came in, and silence only
/// where none waits.
pub proof fn law_samples_are_taken_in_order<T: Copy>(ring: &mut Ring<T>, silence: T, r: T)
    requires
        old(ring).valid(),
    ensures
        call_ensures(Ring::<T>::pop, (ring, silence), r) ==> {
            &&& old(ring)@.len() > 0 ==> old(ring)@ == seq![r] + final(ring)@
            &&& old(ring)@.len() == 0 ==> r == silence && final(ring)@ == old(ring)@
        },
{
    if old(ring)@.len() > 0 {
        assert(seq![old(ring)@[0]] + old(ring)@.skip(1) =~= old(ring)@);
    }
}

/// Every channel of a frame plays the same sample, frame after frame, and
/// silence once no more waits; what was played is gone.
pub proof fn law_all_channels_play_the_same<T: Copy>(
    ring: &mut Ring<T>,
    frames: usize,
    channels: usize,
    silence: T,
    f: int,
    c: int,
    r: Vec<T>,
)
    requires
        old(ring).valid(),
        channels > 0,
        frames * channels <= usize::MAX,
        0 <= f < frames,
        0 <= c < channels,
    ensures
        call_ensures(
            Ring::<T>::play,
            (ring, (frames * channels) as usize, channels, silence),
            r,
        ) ==> {
            &&& r@.len() == frames * channels
            &&& 0 <= f * channels + c < r@.len()
            &&& r@[f * channels + c] == if f < old(ring)@.len() {
                old(ring)@[f]
            } else {
                silence
            }
            &&& frames <= old(ring)@.len() ==> final(ring)@ == old(ring)@.skip(frames as int)
            &&& frames > old(ring)@.len() ==> final(ring)@.len() == 0
        },
{
    let n = channels as int;
    let at = f * n + c;
    assert(0 <= at < frames * n) by (nonlinear_arith)
        requires
            at == f * n + c,
            0 <= f < frames,
            0 <= c < n,
    ;
    vstd::arithmetic::div_mod::lemma_fundamental_div_mod_converse(at, n, f, c);
    let len = frames * n;
    vstd::arithmetic::div_mod::lemma_fundamental_div_mod_converse(
        len + n - 1,
        n,
        frames as int,
        n - 1,
    );
}

proof fn lemma_fitting(configs: Seq<OutputConfig>, at: int)
    requires
        0 <= at,
    ensures
        match fitting(configs, at) {
            Some(k) => at <= k < configs.len() && configs[k].is_float && configs[k].min_rate <= 48_000
                <= configs[k].max_rate && forall|i: int|
                at <= i < k ==> !((#[trigger] configs[i]).is_float && configs[i].min_rate <= 48_000
                    <= configs[i].max_rate),
            None => forall|i: int|
                at <= i < configs.len() ==> !((#[trigger] configs[i]).is_float
                    && configs[i].min_rate <= 48_000 <= configs[i].max_rate),
        },
    decreases configs.len() - at,
{
    if at < configs.len() {
        lemma_fitting(configs, at + 1);
    }
}

/// The first listed configuration that plays floating-point samples at
/// 48 kHz is chosen. Without one the default is, if it has that rate.
pub proof fn law_the_first_fitting_configuration_is_chosen(
    configs: &Vec<OutputConfig>,
    default_rate: u32,
    r: ConfigChoice,
)
    requires
        call_ensures(find_config, (configs, default_rate), r),
    ensures
        match r {
            ConfigChoice::Listed(k) => k < configs@.len() && configs@[k as int].is_float
                && configs@[k as int].min_rate <= 48_000 <= configs@[k as int].max_rate
                && forall|i: int|
                0 <= i < k ==> !((#[trigger] configs@[i]).is_float && configs@[i].min_rate <= 48_000
                    <= configs@[i].max_rate),
            other => (other is DeviceDefault <==> default_rate == 48_000) && forall|i: int|
                0 <= i < configs@.len() ==> !((#[trigger] configs@[i]).is_float
                    && configs@[i].min_rate <= 48_000 <= configs@[i].max_rate),
        },
{
    assert(configs.len() == configs@.len());
    lemma_fitting(configs@, 0);
}

/// A device that cannot play is named by its rate.
pub proof fn law_unusable_rates_are_named(rate: u32, r: String)
    requires
        call_ensures(unusable_output, (rate,), r),
    ensures
        r@ == "no 48kHz output config found (default is "@ + decimal(rate as nat) + "Hz)"@,
{
}

/// The length of a ring is how many samples can be taken before silence, and
/// a new ring has none.
pub proof fn law_the_length_counts_what_waits<T: Copy>(
    first: Ring<T>,
    ring: &mut Ring<T>,
    before: usize,
    silence: T,
    r: T,
    after: usize,
)
    requires
        old(ring).valid(),
        call_ensures(Ring::<T>::new, (), first),
        call_ensures(Ring::<T>::len, (old(ring),), before),
    ensures
        *old(ring) == first ==> before == 0,
        call_ensures(Ring::<T>::pop, (ring, silence), r) && call_ensures(
            Ring::<T>::len,
            (final(ring),),
            after,
        ) ==> after == if before > 0 {
            before - 1
        } else {
            0
        },
{
}

} // verus!
