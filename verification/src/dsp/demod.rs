//! The demodulator's decisions: how the stream is decimated, which filter
//! a tuning asks for, what a change of tuning sets off, and where the samples
//! of a mode go.
use crate::proto::codec::{equal_doubles, F64};
use crate::proto::filters::mode_digit;
use crate::proto::radio::Mode;
use vstd::arithmetic::power2::{
    lemma2_to64, lemma2_to64_rest, lemma_pow2_pos, lemma_pow2_strictly_increases,
    lemma_pow2_unfold, pow2,
};
use vstd::prelude::*;

verus! {

/// Configuration of the demodulator.
#[derive(Debug, Clone, Copy)]
pub struct DemodConfig {
    /// Rate of the IQ samples.
    pub input_rate: u32,
    /// Rate of the audio samples.
    pub output_rate: u32,
    /// The mode to start in.
    pub mode: Mode,
}

impl Default for DemodConfig {
    /// 192 kHz in, 48 kHz out, upper sideband.
    fn default() -> (r: Self)
        ensures
            r == (DemodConfig { input_rate: 192_000, output_rate: 48_000, mode: Mode::USB }),
    {
        DemodConfig { input_rate: 192_000, output_rate: 48_000, mode: Mode::USB }
    }
}

/// Taps of the channel filter that follows the decimator.
pub const CHANNEL_TAPS: usize = 127;

/// The two numbers that make the decimator of a configuration.
#[derive(Debug, Clone, Copy, PartialEq, Eq, Structural)]
pub struct Decimation {
    pub factor: u32,
    pub taps: u64,
}

impl DemodConfig {
    /// How many input samples make one output sample, and with how many taps
    /// they are filtered: eight for each of them, and one in the middle.
    pub fn decimation(&self) -> (r: Decimation)
        requires
            self.output_rate > 0,
        ensures
            r.factor == self.input_rate as int / self.output_rate as int,
            r.taps == 8 * (self.input_rate as int / self.output_rate as int) + 1,
    {
        let factor: u32 = self.input_rate / self.output_rate;
        Decimation { factor, taps: 8 * (factor as u64) + 1 }
    }
}

/// What the demodulator is tuned to.
#[derive(Debug, Clone, Copy)]
pub struct DemodTuning {
    pub mode: Mode,
    /// Offset from the centre of the IQ stream in hertz, positive above it.
    pub vfo_offset_hz: F64,
    /// Bandwidth of the channel filter in hertz.
    pub filter_bw_hz: F64,
}

/// Whether two tunings are the same, their numbers compared as floating-point
/// numbers are.
pub open spec fn same_tuning(a: DemodTuning, b: DemodTuning) -> bool {
    &&& a.mode == b.mode
    &&& equal_doubles(a.vfo_offset_hz.bits, b.vfo_offset_hz.bits)
    &&& equal_doubles(a.filter_bw_hz.bits, b.filter_bw_hz.bits)
}

impl PartialEq for DemodTuning {
    fn eq(&self, other: &DemodTuning) -> (r: bool) {
        self.mode == other.mode && self.vfo_offset_hz == other.vfo_offset_hz && self.filter_bw_hz
            == other.filter_bw_hz
    }
}

impl vstd::std_specs::cmp::PartialEqSpecImpl for DemodTuning {
    open spec fn obeys_eq_spec() -> bool {
        true
    }

    open spec fn eq_spec(&self, other: &DemodTuning) -> bool {
        same_tuning(*self, *other)
    }
}

/// The bits of 3000 Hz.
pub const DEFAULT_BANDWIDTH: u64 = 0x40A7_7000_0000_0000;

/// The bits of 10 kHz, so that both sidebands of a DRM signal pass.
pub const DRM_IF_BANDWIDTH: u64 = 0x40C3_8800_0000_0000;

impl Default for DemodTuning {
    /// Upper sideband at the centre, 3 kHz wide.
    fn default() -> (r: Self)
        ensures
            r == (DemodTuning {
                mode: Mode::USB,
                vfo_offset_hz: F64 { bits: 0 },
                filter_bw_hz: F64 { bits: DEFAULT_BANDWIDTH },
            }),
    {
        DemodTuning {
            mode: Mode::USB,
            vfo_offset_hz: F64 { bits: 0 },
            filter_bw_hz: F64 { bits: DEFAULT_BANDWIDTH },
        }
    }
}

/// Which side of the centre a channel filter passes.
#[derive(Debug, Clone, Copy, PartialEq, Eq, Structural)]
pub enum Side {
    /// From the centre up to the bandwidth.
    Upper,
    /// From the bandwidth below up to the centre.
    Lower,
    /// Half the bandwidth on either side.
    Both,
}

/// The channel filter a tuning asks for.
#[derive(Debug, Clone, Copy, PartialEq)]
pub struct ChannelShape {
    pub bandwidth: F64,
    pub side: Side,
}

/// The side that a mode is received on.
pub open spec fn side(mode: Mode) -> Side {
    match mode {
        Mode::USB | Mode::CW => Side::Upper,
        Mode::LSB | Mode::CWR => Side::Lower,
        _ => Side::Both,
    }
}

/// The channel filter of a tuning. DRM has a bandwidth of its own.
pub open spec fn shape(tuning: DemodTuning) -> ChannelShape {
    ChannelShape {
        bandwidth: if tuning.mode == Mode::DRM {
            F64 { bits: DRM_IF_BANDWIDTH }
        } else {
            tuning.filter_bw_hz
        },
        side: side(tuning.mode),
    }
}

impl DemodTuning {
    /// The channel filter for this tuning.
    pub fn channel(&self) -> (r: ChannelShape)
        ensures
            r == shape(*self),
    {
        let bandwidth = match self.mode {
            Mode::DRM => F64 { bits: DRM_IF_BANDWIDTH },
            _ => self.filter_bw_hz,
        };
        let side = match self.mode {
            Mode::USB | Mode::CW => Side::Upper,
            Mode::LSB | Mode::CWR => Side::Lower,
            _ => Side::Both,
        };
        ChannelShape { bandwidth, side }
    }
}

/// What a change of tuning sets off.
#[derive(Debug, Clone, Copy, PartialEq)]
pub struct Retune {
    /// The oscillator gets the new offset.
    pub shift: bool,
    /// The decimator forgets the stream.
    pub reset: bool,
    /// The channel filter is built anew, in this shape.
    pub filter: Option<ChannelShape>,
}

/// Only what changed is touched: the oscillator with the offset, the filter
/// with the bandwidth or the mode, the decimator with the mode.
pub fn retune(old_tuning: &DemodTuning, new_tuning: &DemodTuning) -> (r: Retune)
    ensures
        r.shift == !equal_doubles(new_tuning.vfo_offset_hz.bits, old_tuning.vfo_offset_hz.bits),
        r.reset == (new_tuning.mode != old_tuning.mode),
        r.filter == (if new_tuning.mode != old_tuning.mode || !equal_doubles(
            new_tuning.filter_bw_hz.bits,
            old_tuning.filter_bw_hz.bits,
        ) {
            Some(shape(*new_tuning))
        } else {
            None
        }),
{
    let reset = new_tuning.mode != old_tuning.mode;
    let filter = if reset || new_tuning.filter_bw_hz != old_tuning.filter_bw_hz {
        Some(new_tuning.channel())
    } else {
        None
    };
    Retune {
        shift: new_tuning.vfo_offset_hz != old_tuning.vfo_offset_hz,
        reset,
        filter,
    }
}

/// Only a tuning that differs touches anything, and one that differs always
/// does.
pub proof fn law_same_tuning_is_idle(a: DemodTuning, b: DemodTuning)
    ensures
        forall|r: Retune|
            call_ensures(retune, (&a, &b), r) ==> (same_tuning(a, b) <==> r == (Retune {
                shift: false,
                reset: false,
                filter: None,
            })),
{
}

/// How a sample of audio is made of a filtered IQ sample.
#[derive(Debug, Clone, Copy, PartialEq, Eq, Structural)]
pub enum Detector {
    /// The magnitude.
    Envelope,
    /// The real part: the filter has selected the sideband.
    RealPart,
    /// The change of phase.
    Phase,
    /// Nothing: DRM audio comes from its decoder.
    Silence,
}

/// The detector of a mode.
pub open spec fn detector_of(mode: Mode) -> Detector {
    match mode {
        Mode::AM | Mode::SAM | Mode::SAMU | Mode::SAML | Mode::DSB => Detector::Envelope,
        Mode::USB | Mode::LSB | Mode::CW | Mode::CWR | Mode::Unknown => Detector::RealPart,
        Mode::FM => Detector::Phase,
        Mode::DRM => Detector::Silence,
    }
}

/// How the samples of a mode are detected.
pub fn detector(mode: Mode) -> (r: Detector)
    ensures
        r == detector_of(mode),
{
    match mode {
        Mode::AM | Mode::SAM | Mode::SAMU | Mode::SAML | Mode::DSB => Detector::Envelope,
        Mode::USB | Mode::LSB | Mode::CW | Mode::CWR | Mode::Unknown => Detector::RealPart,
        Mode::FM => Detector::Phase,
        Mode::DRM => Detector::Silence,
    }
}

/// Where a block of filtered samples goes.
#[derive(Debug, Clone, Copy, PartialEq, Eq, Structural)]
pub enum Outlet {
    /// Detected, and on to the listener.
    Audio(Detector),
    /// As it is, to the DRM decoder.
    DrmIf,
    Nowhere,
}

/// Where the samples of a mode go: to the DRM decoder, if there is one, in
/// the DRM mode, and to the listener otherwise. An empty block goes nowhere.
pub open spec fn outlet_of(mode: Mode, has_drm: bool, samples: nat) -> Outlet {
    if samples == 0 || (mode == Mode::DRM && !has_drm) {
        Outlet::Nowhere
    } else if mode == Mode::DRM {
        Outlet::DrmIf
    } else {
        Outlet::Audio(detector_of(mode))
    }
}

/// Decides where a block of filtered samples goes.
pub fn outlet(mode: Mode, has_drm: bool, samples: usize) -> (r: Outlet)
    ensures
        r == outlet_of(mode, has_drm, samples as nat),
{
    if samples == 0 {
        return Outlet::Nowhere;
    }
    match mode {
        Mode::DRM => if has_drm {
            Outlet::DrmIf
        } else {
            Outlet::Nowhere
        },
        _ => Outlet::Audio(detector(mode)),
    }
}

/// A DRM signal never reaches the listener undecoded, and nothing else reaches
/// the decoder.
pub proof fn law_drm_is_kept_apart(mode: Mode, has_drm: bool, samples: nat)
    ensures
        outlet_of(mode, has_drm, samples) is DrmIf ==> mode == Mode::DRM,
        outlet_of(mode, has_drm, samples) is Audio ==> mode != Mode::DRM,
        outlet_of(mode, has_drm, samples) != Outlet::Audio(Detector::Silence),
{
}

/// Whether a number is a power of two.
pub open spec fn is_power_of_two(n: nat) -> bool {
    exists|k: nat| #[trigger] pow2(k) == n
}

/// Whether a number is a power of two.
fn power_of_two(n: u64) -> (r: bool)
    ensures
        r == is_power_of_two(n as nat),
{
    let mut p: u64 = 1;
    let ghost mut k: nat = 0;
    proof {
        lemma2_to64();
        lemma_pow2_pos(0);
    }
    if n == 0 {
        assert forall|j: nat| #[trigger] pow2(j) != 0 by {
            lemma_pow2_pos(j);
        }
        return false;
    }
    while p < n && p <= 0x7FFF_FFFF_FFFF_FFFF
        invariant
            p == pow2(k),
            n > 0,
            p == 1 || pow2((k - 1) as nat) < n,
            p == 1 ==> k == 0,
            p > 1 ==> k > 0,
        decreases 0xFFFF_FFFF_FFFF_FFFF - p,
    {
        proof {
            lemma_pow2_pos(k);
            lemma_pow2_unfold(k + 1);
        }
        p = p * 2;
        proof {
            k = k + 1;
        }
    }
    proof {
        if p != n {
            assert forall|j: nat| #[trigger] pow2(j) != n by {
                if j < k {
                    if j + 1 < k {
                        lemma_pow2_strictly_increases(j, (k - 1) as nat);
                    }
                } else if j > k {
                    lemma_pow2_strictly_increases(k, j);
                    lemma_pow2_unfold(k + 1);
                    if j > k + 1 {
                        lemma_pow2_strictly_increases(k + 1, j);
                    }
                }
            }
        }
    }
    p == n
}

/// Counts the audio blocks that were dropped because nothing took them.
#[derive(Debug, Clone, Copy)]
pub struct DropCounter {
    pub dropped: u64,
}

impl DropCounter {
    pub fn new() -> (r: Self)
        ensures
            r.dropped == 0,
    {
        DropCounter { dropped: 0 }
    }

    /// Counts one more, and says whether to report it: at every power of two,
    /// so that a lasting stall does not flood the log.
    pub fn count(&mut self) -> (r: bool)
        ensures
            final(self).dropped == (if old(self).dropped < u64::MAX {
                old(self).dropped + 1
            } else {
                u64::MAX as int
            }),
            r == is_power_of_two(final(self).dropped as nat),
    {
        if self.dropped < u64::MAX {
            self.dropped = self.dropped + 1;
        }
        power_of_two(self.dropped)
    }
}

// ---------------------------------------------------------------------------
// Laws
// ---------------------------------------------------------------------------

/// The edges of what a channel filter passes, in halves of its bandwidth
/// from the dial.
pub open spec fn channel_edges(side: Side) -> (int, int) {
    match side {
        Side::Upper => (0, 2),
        Side::Lower => (-2, 0),
        Side::Both => (-1, 1),
    }
}

/// The side on the other side of the dial.
pub open spec fn mirrored(side: Side) -> Side {
    match side {
        Side::Upper => Side::Lower,
        Side::Lower => Side::Upper,
        Side::Both => Side::Both,
    }
}

/// The filter passes the sideband that the mode is sent on: up from the dial
/// for USB and CW, down to it for LSB and CWR, and as much on either side for
/// every other mode. That is what the operator sees marked.
pub proof fn law_filter_passes_the_modes_sideband(tuning: &DemodTuning, c: ChannelShape)
    requires
        call_ensures(DemodTuning::channel, (tuning,), c),
    ensures
        ({
            let (low, high) = channel_edges(c.side);
            &&& tuning.mode == Mode::USB || tuning.mode == Mode::CW ==> low == 0 && high > 0
            &&& tuning.mode == Mode::LSB || tuning.mode == Mode::CWR ==> high == 0 && low < 0
            &&& !(tuning.mode == Mode::USB || tuning.mode == Mode::CW || tuning.mode == Mode::LSB
                || tuning.mode == Mode::CWR) ==> low == -high && high > 0
            &&& high - low == 2
            &&& (low, high) == crate::client::waterfall::passband(tuning.mode)
        }),
{
}

/// Changing to the other sideband turns the filter round, and changes
/// nothing else of it.
pub proof fn law_sidebands_mirror_each_other(
    upper: &DemodTuning,
    lower: &DemodTuning,
    u: ChannelShape,
    l: ChannelShape,
)
    requires
        upper.mode == Mode::USB && lower.mode == Mode::LSB || upper.mode == Mode::CW && lower.mode
            == Mode::CWR,
        upper.filter_bw_hz == lower.filter_bw_hz,
        call_ensures(DemodTuning::channel, (upper,), u),
        call_ensures(DemodTuning::channel, (lower,), l),
    ensures
        l.side == mirrored(u.side),
        l.side != u.side,
        l.bandwidth == u.bandwidth,
{
}

/// A filter is as wide as it is tuned, whatever else is tuned; only DRM has a
/// width of its own, which the tuning does not touch.
pub proof fn law_filter_is_as_wide_as_tuned(
    a: &DemodTuning,
    b: &DemodTuning,
    x: ChannelShape,
    y: ChannelShape,
)
    requires
        call_ensures(DemodTuning::channel, (a,), x),
        call_ensures(DemodTuning::channel, (b,), y),
    ensures
        a.mode != Mode::DRM ==> x.bandwidth == a.filter_bw_hz,
        a.mode == Mode::DRM && b.mode == Mode::DRM ==> x == y,
{
}

/// A double with these bits is this whole number: with the leading one, its
/// fraction is the number shifted up to 53 bits.
pub open spec fn is_whole_double(bits: u64, n: int, shift: nat) -> bool {
    &&& bits as int / 0x10_0000_0000_0000 == 1075 - shift
    &&& n * pow2(shift) == 0x10_0000_0000_0000 + bits as int % 0x10_0000_0000_0000
}

/// The two bandwidths that are fixed are 3 kHz and 10 kHz.
pub proof fn law_fixed_bandwidths(t: DemodTuning, drm: &DemodTuning, c: ChannelShape)
    requires
        call_ensures(<DemodTuning as Default>::default, (), t),
        drm.mode == Mode::DRM,
        call_ensures(DemodTuning::channel, (drm,), c),
    ensures
        is_whole_double(t.filter_bw_hz.bits, 3_000, 41),
        is_whole_double(c.bandwidth.bits, 10_000, 39),
        t.vfo_offset_hz.bits == 0,
{
    lemma2_to64_rest();
}

/// A change touches what it concerns and nothing else: the dial moves the
/// oscillator, the width or the mode build the filter anew as the new tuning
/// asks for it, and the mode alone empties the decimator.
pub proof fn law_changes_touch_what_they_concern(
    a: &DemodTuning,
    b: &DemodTuning,
    c: ChannelShape,
    r: Retune,
)
    requires
        call_ensures(retune, (a, b), r),
        call_ensures(DemodTuning::channel, (b,), c),
    ensures
        r.reset <==> a.mode != b.mode,
        r.shift <==> !equal_doubles(a.vfo_offset_hz.bits, b.vfo_offset_hz.bits),
        r.reset ==> r.filter == Some(c),
        !equal_doubles(a.filter_bw_hz.bits, b.filter_bw_hz.bits) ==> r.filter == Some(c),
        r.filter is Some ==> r.filter == Some(c) && (a.mode != b.mode || !equal_doubles(
            a.filter_bw_hz.bits,
            b.filter_bw_hz.bits,
        )),
{
}

/// Modes are detected as the radio groups them: what it receives as AM by the
/// envelope, FM by its phase, and everything with one sideband by the real
/// part. DRM alone is not detected.
pub proof fn law_detectors_follow_the_radios_groups(mode: Mode, d: Detector)
    requires
        call_ensures(detector, (mode,), d),
    ensures
        d == Detector::Envelope <==> mode_digit(mode) == Some('5') && mode != Mode::DRM,
        d == Detector::Phase <==> mode_digit(mode) == Some('4'),
        d == Detector::Silence <==> mode == Mode::DRM,
        d == Detector::RealPart <==> !(mode_digit(mode) == Some('4') || mode_digit(mode) == Some(
            '5',
        )),
        side(mode) != Side::Both ==> d == Detector::RealPart,
{
}

/// A block with samples is heard in every mode but DRM, and in DRM goes to
/// the decoder where there is one. An empty block goes nowhere.
pub proof fn law_every_block_has_its_outlet(
    mode: Mode,
    has_drm: bool,
    samples: usize,
    d: Detector,
    o: Outlet,
)
    requires
        call_ensures(detector, (mode,), d),
        call_ensures(outlet, (mode, has_drm, samples), o),
    ensures
        samples > 0 && mode != Mode::DRM ==> o == Outlet::Audio(d),
        samples > 0 && mode == Mode::DRM && has_drm ==> o == Outlet::DrmIf,
        samples > 0 && mode == Mode::DRM && !has_drm ==> o == Outlet::Nowhere,
        samples == 0 ==> o == Outlet::Nowhere,
{
}

/// The decimator takes the input rate down to the output rate, as far as
/// whole samples can, and weighs each with a number of taps that has a middle.
pub proof fn law_decimation_meets_the_output_rate(config: &DemodConfig, d: Decimation)
    requires
        config.output_rate > 0,
        call_ensures(DemodConfig::decimation, (config,), d),
    ensures
        d.factor * config.output_rate <= config.input_rate < (d.factor + 1) * config.output_rate,
        d.taps == 4 * d.factor + 1 + 4 * d.factor,
        d.taps % 2 == 1,
{
    let a = config.input_rate as int;
    let b = config.output_rate as int;
    vstd::arithmetic::div_mod::lemma_fundamental_div_mod(a, b);
    vstd::arithmetic::div_mod::lemma_mod_pos_bound(a, b);
    assert(d.factor * b <= a < (d.factor + 1) * b) by (nonlinear_arith)
        requires
            a == b * d.factor + a % b,
            0 <= a % b < b,
    ;
}

/// The first dropped block is reported, and from then on every report comes
/// after twice as many as the one before.
pub proof fn law_reports_become_rarer(n: nat)
    ensures
        is_power_of_two(1),
        n > 0 ==> (is_power_of_two(2 * n) <==> is_power_of_two(n)),
        n > 0 ==> !is_power_of_two(2 * n + 1),
        !is_power_of_two(0),
{
    lemma2_to64();
    assert(pow2(0) == 1);
    assert forall|k: nat| n > 0 && #[trigger] pow2(k) == 2 * n implies is_power_of_two(n) by {
        if k > 0 {
            lemma_pow2_unfold(k);
            assert(pow2((k - 1) as nat) == n);
        }
    }
    assert forall|k: nat| #[trigger] pow2(k) == n implies is_power_of_two(2 * n) by {
        lemma_pow2_unfold(k + 1);
        assert(pow2(k + 1) == 2 * n);
    }
    assert forall|k: nat| n > 0 implies #[trigger] pow2(k) != 2 * n + 1 by {
        if k > 0 {
            lemma_pow2_unfold(k);
        }
    }
    assert forall|k: nat| #[trigger] pow2(k) != 0 by {
        lemma_pow2_pos(k);
    }
}

/// Every dropped block is counted, up to what the counter holds, and reported
/// when the count is a power of two.
pub proof fn law_drops_are_counted(c: &mut DropCounter, r: bool)
    requires
        old(c).dropped < u64::MAX,
    ensures
        call_ensures(DropCounter::count, (c,), r) ==> final(c).dropped == old(c).dropped + 1 && (r
            <==> exists|k: nat| #[trigger] pow2(k) == old(c).dropped + 1),
{
}

/// The demodulator takes four samples for one, from 192 to 48 kHz, and starts
/// in the upper sideband.
pub proof fn law_default_demodulator(c: DemodConfig, d: Decimation, t: DemodTuning)
    requires
        call_ensures(<DemodConfig as Default>::default, (), c),
        call_ensures(DemodConfig::decimation, (&c,), d),
        call_ensures(<DemodTuning as Default>::default, (), t),
    ensures
        c.input_rate == 192_000 && c.output_rate == 48_000,
        d.factor == 4 && d.taps == 33,
        c.mode == Mode::USB && t.mode == Mode::USB,
        CHANNEL_TAPS == 127,
{
}

} // verus!
