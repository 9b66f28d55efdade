//! The part of the spectrum that is shown: its levels, its zoom and its pan.
//!
//! Pan counts in thousandths of the full span, and the visible part is given
//! as exact fractions of it.
use vstd::prelude::*;

verus! {

/// The zoom levels that the buttons step through.
pub open spec fn zoom_levels() -> Seq<i32> {
    seq![1i32, 2, 4, 6, 8, 10]
}

/// The magnitude of a zoom factor.
pub open spec fn factor(zoom: int) -> int {
    if zoom < 0 {
        -zoom
    } else {
        zoom
    }
}

/// The pan can go up to `reach / (2 * factor)` of the span either way: half of
/// the span less half of the visible part.
pub open spec fn reach(zoom: int) -> int {
    if zoom > 0 {
        zoom - 1
    } else {
        factor(zoom) + 1
    }
}

/// The pan lies beyond its reach by more than a tenth of a thousandth.
pub open spec fn beyond(zoom: int, pan: int) -> bool {
    10 * factor(pan) * factor(zoom) > 5000 * reach(zoom) + factor(zoom)
}

/// A pan within reach; one beyond it is moved to the last whole thousandth
/// within it.
pub open spec fn clamped(zoom: int, pan: int) -> int {
    if beyond(zoom, pan) {
        let most = 500 * reach(zoom) / factor(zoom);
        if pan > 0 {
            most
        } else {
            -most
        }
    } else {
        pan
    }
}

/// A number kept between zero and a bound.
pub open spec fn between(v: int, bound: int) -> int {
    if v < 0 {
        0
    } else if v > bound {
        bound
    } else {
        v
    }
}

/// The nearest number that fits into 32 bits.
pub open spec fn within_i32(n: int) -> int {
    if n > i32::MAX {
        i32::MAX as int
    } else if n < i32::MIN {
        i32::MIN as int
    } else {
        n
    }
}

/// A quotient with its fraction dropped.
pub open spec fn whole_part(n: int, d: int) -> int {
    if n < 0 {
        -((-n) / d)
    } else {
        n / d
    }
}

/// A pan moved by thousandths of the visible width, in whole thousandths of
/// the full span: the span is `factor` times as wide as what is visible.
pub open spec fn nudged(zoom: int, pan: int, thousandths: int) -> int {
    whole_part(pan * factor(zoom) + thousandths, factor(zoom))
}

/// An interval in fractions of the full span.
#[derive(Debug, Clone, Copy, PartialEq, Eq, Structural)]
pub struct Visible {
    pub start: i64,
    pub end: i64,
    /// What `start` and `end` are divided by.
    pub denominator: i64,
}

/// The middle of the visible part, in units of a thousandth of the span
/// divided by the zoom factor.
pub open spec fn middle(zoom: int, pan: int) -> int {
    (500 + pan) * factor(zoom)
}

/// Half of the visible part, in the same units.
pub open spec fn half(zoom: int) -> int {
    if zoom > 0 {
        500
    } else {
        -500
    }
}

/// What is shown of the spectrum. There is one of it: spectrum and waterfall
/// share it, and what one changes the other shows.
#[derive(Debug)]
pub struct DisplayRange {
    ref_level: i32,
    range: i32,
    zoom: i32,
    pan: i32,
}

/// A [`DisplayRange`] as mathematics.
pub struct RangeView {
    /// The level at the top, in dBm.
    pub ref_level: int,
    /// The span of levels, in dB.
    pub range: int,
    pub zoom: int,
    /// The pan, in thousandths of the full span.
    pub pan: int,
}

impl View for DisplayRange {
    type V = RangeView;

    closed spec fn view(&self) -> RangeView {
        RangeView {
            ref_level: self.ref_level as int,
            range: self.range as int,
            zoom: self.zoom as int,
            pan: self.pan as int,
        }
    }
}

impl DisplayRange {
    /// There is no zoom factor of zero.
    pub open spec fn valid(&self) -> bool {
        self@.zoom != 0
    }

    /// The full span between these levels.
    pub fn new(ref_level: i32, range: i32) -> (r: Self)
        ensures
            r.valid(),
            r@ == (RangeView {
                ref_level: ref_level as int,
                range: range as int,
                zoom: 1,
                pan: 0,
            }),
    {
        DisplayRange { ref_level, range, zoom: 1, pan: 0 }
    }

    /// The level at the top, in dBm.
    pub fn ref_level(&self) -> (r: i32)
        ensures
            r == self@.ref_level,
    {
        self.ref_level
    }

    /// The span of levels, in dB.
    pub fn range(&self) -> (r: i32)
        ensures
            r == self@.range,
    {
        self.range
    }

    /// The level at the top, in dBm.
    pub fn db_top(&self) -> (r: i32)
        ensures
            r == self@.ref_level,
    {
        self.ref_level
    }

    /// The level at the bottom, in dBm.
    pub fn db_bottom(&self) -> (r: i64)
        ensures
            r == self@.ref_level - self@.range,
    {
        self.ref_level as i64 - self.range as i64
    }

    /// Moves the level at the top.
    pub fn set_ref_level(&mut self, v: i32)
        ensures
            final(self)@ == (RangeView { ref_level: v as int, ..old(self)@ }),
    {
        self.ref_level = v;
    }

    /// Changes the span of levels.
    pub fn set_range(&mut self, v: i32)
        ensures
            final(self)@ == (RangeView { range: v as int, ..old(self)@ }),
    {
        self.range = v;
    }

    /// The zoom factor.
    pub fn zoom(&self) -> (r: i32)
        ensures
            r == self@.zoom,
    {
        self.zoom
    }

    /// Changes the zoom factor, and takes the pan back within reach.
    pub fn set_zoom(&mut self, z: i32)
        requires
            z != 0,
        ensures
            final(self).valid(),
            final(self)@ == (RangeView {
                zoom: z as int,
                pan: clamped(z as int, old(self)@.pan),
                ..old(self)@
            }),
    {
        self.zoom = z;
        self.clamp_pan();
    }

    /// The pan, in thousandths of the full span.
    pub fn pan_frac(&self) -> (r: i32)
        ensures
            r == self@.pan,
    {
        self.pan
    }

    /// Pans to a place, as far as the zoom lets it.
    pub fn set_pan_frac(&mut self, thousandths: i32)
        requires
            old(self).valid(),
        ensures
            final(self).valid(),
            final(self)@ == (RangeView {
                pan: clamped(old(self)@.zoom, thousandths as int),
                ..old(self)@
            }),
    {
        self.pan = thousandths;
        self.clamp_pan();
    }

    /// Moves the visible part, by thousandths of its own width.
    pub fn pan_by(&mut self, thousandths: i32)
        requires
            old(self).valid(),
        ensures
            final(self).valid(),
            final(self)@ == (RangeView {
                pan: clamped(
                    old(self)@.zoom,
                    within_i32(nudged(old(self)@.zoom, old(self)@.pan, thousandths as int)),
                ),
                ..old(self)@
            }),
    {
        let a: i64 = if self.zoom < 0 {
            -(self.zoom as i64)
        } else {
            self.zoom as i64
        };
        let pan: i64 = self.pan as i64;
        assert(-0x4000_0000_0000_0000 <= pan * a <= 0x4000_0000_0000_0000) by (nonlinear_arith)
            requires
                -0x8000_0000 <= pan <= 0x8000_0000,
                0 < a <= 0x8000_0000,
        ;
        let n: i64 = pan * a + thousandths as i64;
        let to: i64 = if n < 0 {
            -((-n) / a)
        } else {
            n / a
        };
        let near: i32 = if to > i32::MAX as i64 {
            i32::MAX
        } else if to < i32::MIN as i64 {
            i32::MIN
        } else {
            to as i32
        };
        self.set_pan_frac(near);
    }

    fn clamp_pan(&mut self)
        requires
            old(self).valid(),
        ensures
            final(self)@ == (RangeView {
                pan: clamped(old(self)@.zoom, old(self)@.pan),
                ..old(self)@
            }),
    {
        let a: i64 = if self.zoom < 0 {
            -(self.zoom as i64)
        } else {
            self.zoom as i64
        };
        let num: i64 = if self.zoom > 0 {
            a - 1
        } else {
            a + 1
        };
        let p: i64 = if self.pan < 0 {
            -(self.pan as i64)
        } else {
            self.pan as i64
        };
        assert(0 <= p * a <= 0x8000_0000 * 0x8000_0000) by (nonlinear_arith)
            requires
                0 <= p <= 0x8000_0000,
                0 < a <= 0x8000_0000,
        ;
        let far: i128 = 10 * (p as i128 * a as i128);
        assert(10 * factor(self@.pan) * factor(self@.zoom) == far) by (nonlinear_arith)
            requires
                factor(self@.pan) == p,
                factor(self@.zoom) == a,
                far == 10 * (p * a),
        ;
        if far > 5000 * (num as i128) + a as i128 {
            let most: i64 = 500 * num / a;
            proof {
                vstd::arithmetic::div_mod::lemma_fundamental_div_mod(500 * num as int, a as int);
                vstd::arithmetic::div_mod::lemma_mod_pos_bound(500 * num as int, a as int);
                assert(0 <= most <= 1000) by (nonlinear_arith)
                    requires
                        500 * num == a * most + (500 * num) % (a as int),
                        0 <= (500 * num) % (a as int) < a,
                        0 <= num <= a + 1,
                        a > 0,
                ;
            }
            self.pan = if self.pan > 0 {
                most as i32
            } else {
                -(most as i32)
            };
        }
    }

    /// The visible part of the full span.
    pub fn visible_range(&self) -> (r: Visible)
        requires
            self.valid(),
        ensures
            r.denominator == 1000 * factor(self@.zoom),
            r.start == between(
                middle(self@.zoom, self@.pan) - half(self@.zoom),
                1000 * factor(self@.zoom),
            ),
            r.end == between(
                middle(self@.zoom, self@.pan) + half(self@.zoom),
                1000 * factor(self@.zoom),
            ),
    {
        let a: i64 = if self.zoom < 0 {
            -(self.zoom as i64)
        } else {
            self.zoom as i64
        };
        let around: i64 = 500 + self.pan as i64;
        assert(-0x8000_0200 * 0x8000_0000 <= around * a <= 0x8000_0200 * 0x8000_0000)
            by (nonlinear_arith)
            requires
                -0x8000_0200 <= around <= 0x8000_0200,
                0 < a <= 0x8000_0000,
        ;
        let center: i64 = around * a;
        let side: i64 = if self.zoom > 0 {
            500
        } else {
            -500
        };
        let denominator: i64 = 1000 * a;
        Visible {
            start: keep(center - side, denominator),
            end: keep(center + side, denominator),
            denominator,
        }
    }

    /// Steps to the next zoom level, and gives it.
    pub fn zoom_in(&mut self) -> (r: i32)
        requires
            old(self).valid(),
        ensures
            r == level_above(old(self)@.zoom),
            final(self).valid(),
            final(self)@ == (RangeView {
                zoom: r as int,
                pan: clamped(r as int, old(self)@.pan),
                ..old(self)@
            }),
    {
        let cur: i32 = self.zoom;
        let next: i32 = if cur < 1 {
            1
        } else if cur < 2 {
            2
        } else if cur < 4 {
            4
        } else if cur < 6 {
            6
        } else if cur < 8 {
            8
        } else if cur < 10 {
            10
        } else {
            cur
        };
        self.set_zoom(next);
        next
    }

    /// Steps to the zoom level before, and gives it.
    pub fn zoom_out(&mut self) -> (r: i32)
        requires
            old(self).valid(),
        ensures
            r == level_below(old(self)@.zoom),
            final(self).valid(),
            final(self)@ == (RangeView {
                zoom: r as int,
                pan: clamped(r as int, old(self)@.pan),
                ..old(self)@
            }),
    {
        let cur: i32 = self.zoom;
        let prev: i32 = if cur > 10 {
            10
        } else if cur > 8 {
            8
        } else if cur > 6 {
            6
        } else if cur > 4 {
            4
        } else if cur > 2 {
            2
        } else if cur > 1 {
            1
        } else {
            cur
        };
        self.set_zoom(prev);
        prev
    }
}

fn keep(v: i64, bound: i64) -> (r: i64)
    ensures
        r == between(v as int, bound as int),
{
    if v < 0 {
        0
    } else if v > bound {
        bound
    } else {
        v
    }
}

/// The first zoom level above a factor, and the factor itself above them all.
pub open spec fn level_above(zoom: int) -> int {
    if zoom < 1 {
        1
    } else if zoom < 2 {
        2
    } else if zoom < 4 {
        4
    } else if zoom < 6 {
        6
    } else if zoom < 8 {
        8
    } else if zoom < 10 {
        10
    } else {
        zoom
    }
}

/// The last zoom level below a factor, and the factor itself below them all.
pub open spec fn level_below(zoom: int) -> int {
    if zoom > 10 {
        10
    } else if zoom > 8 {
        8
    } else if zoom > 6 {
        6
    } else if zoom > 4 {
        4
    } else if zoom > 2 {
        2
    } else if zoom > 1 {
        1
    } else {
        zoom
    }
}

/// The steps lead to levels: the next one is the least above, the one before
/// the greatest below.
pub proof fn law_steps_are_levels(zoom: int)
    ensures
        zoom < 10 ==> exists|k: int|
            0 <= k < zoom_levels().len() && level_above(zoom) == #[trigger] zoom_levels()[k],
        zoom > 1 ==> exists|k: int|
            0 <= k < zoom_levels().len() && level_below(zoom) == #[trigger] zoom_levels()[k],
        forall|k: int|
            0 <= k < zoom_levels().len() ==> (#[trigger] zoom_levels()[k] > zoom
                ==> zoom < level_above(zoom) <= zoom_levels()[k]),
        forall|k: int|
            0 <= k < zoom_levels().len() ==> (#[trigger] zoom_levels()[k] < zoom
                ==> zoom_levels()[k] <= level_below(zoom) < zoom),
{
    let l = zoom_levels();
    assert(l[0] == 1 && l[1] == 2 && l[2] == 4 && l[3] == 6 && l[4] == 8 && l[5] == 10);
}

/// Stepping in and out again comes back to the level it started from, and so
/// does stepping out and in.
pub proof fn law_zoom_steps_undo(k: int)
    requires
        0 <= k < zoom_levels().len(),
    ensures
        k < 5 ==> level_below(level_above(zoom_levels()[k] as int)) == zoom_levels()[k],
        k > 0 ==> level_above(level_below(zoom_levels()[k] as int)) == zoom_levels()[k],
{
}

/// Panning twice to the same place is panning once, and a zoom that is set
/// again leaves the pan alone.
pub proof fn law_clamping_settles(zoom: int, pan: int)
    requires
        zoom != 0,
    ensures
        clamped(zoom, clamped(zoom, pan)) == clamped(zoom, pan),
{
    if beyond(zoom, pan) {
        let a = factor(zoom);
        let x = 500 * reach(zoom);
        let most = x / a;
        vstd::arithmetic::div_mod::lemma_fundamental_div_mod(x, a);
        vstd::arithmetic::div_mod::lemma_mod_pos_bound(x, a);
        vstd::arithmetic::div_mod::lemma_div_pos_is_pos(x, a);
        assert(10 * most * a <= 10 * x) by (nonlinear_arith)
            requires
                x == a * most + x % a,
                0 <= x % a,
        ;
    }
}

/// A nudge moves the visible part by that share of its own width, to within
/// a thousandth of the full span, and exactly where that is whole
/// thousandths.
pub proof fn law_nudges_go_by_the_visible_width(zoom: int, pan: int, thousandths: int)
    requires
        zoom != 0,
    ensures
        ({
            let moved = factor(zoom) * (nudged(zoom, pan, thousandths) - pan);
            &&& -factor(zoom) < moved - thousandths < factor(zoom)
            &&& thousandths % factor(zoom) == 0 ==> moved == thousandths
        }),
{
    let a = factor(zoom);
    let n = pan * a + thousandths;
    let m = if n < 0 {
        -n
    } else {
        n
    };
    vstd::arithmetic::div_mod::lemma_fundamental_div_mod(m, a);
    vstd::arithmetic::div_mod::lemma_mod_pos_bound(m, a);
    let q = nudged(zoom, pan, thousandths);
    assert(a * (q - pan) == a * q - pan * a) by (nonlinear_arith);
    assert(a * (-(m / a)) == -(a * (m / a))) by (nonlinear_arith);
    if thousandths % a == 0 {
        let k = thousandths / a;
        vstd::arithmetic::div_mod::lemma_fundamental_div_mod(thousandths, a);
        let s = if n < 0 {
            -(pan + k)
        } else {
            pan + k
        };
        assert(m == s * a) by (nonlinear_arith)
            requires
                m == (if n < 0 { -n } else { n }),
                n == pan * a + a * k,
                s == (if n < 0 { -(pan + k) } else { pan + k }),
        ;
        vstd::arithmetic::div_mod::lemma_mod_multiples_basic(s, a);
    }
}

/// At every zoom level the visible part is a whole one: it has the width that
/// the zoom gives it, and none of it lies outside the span.
pub proof fn law_visible_part_is_whole(k: int, pan: int)
    requires
        0 <= k < zoom_levels().len(),
    ensures
        ({
            let z = zoom_levels()[k] as int;
            let p = clamped(z, pan);
            let start = middle(z, p) - half(z);
            let end = middle(z, p) + half(z);
            &&& 0 <= start <= end <= 1000 * z
            &&& (end - start) * z == 1000 * z
        }),
{
    let l = zoom_levels();
    let z = l[k] as int;
    if z == 1 {
        lemma_whole(1, pan, 0);
    } else if z == 2 {
        lemma_whole(2, pan, 250);
    } else if z == 4 {
        lemma_whole(4, pan, 375);
    } else if z == 6 {
        lemma_whole(6, pan, 416);
    } else if z == 8 {
        lemma_whole(8, pan, 437);
    } else if z == 10 {
        lemma_whole(10, pan, 450);
    }
}

/// The visible part at one zoom level, where the pan reaches up to `most`
/// thousandths and the part of one that is left is more than the tolerance.
proof fn lemma_whole(z: int, pan: int, most: int)
    requires
        z > 0,
        z * most <= 500 * (z - 1),
        5000 * (z - 1) + z < 10 * z * (most + 1),
    ensures
        ({
            let p = clamped(z, pan);
            let start = middle(z, p) - half(z);
            let end = middle(z, p) + half(z);
            &&& 0 <= start <= end <= 1000 * z
            &&& (end - start) * z == 1000 * z
        }),
{
    let x = 500 * (z - 1);
    let p = clamped(z, pan);
    let f = factor(p);
    if beyond(z, pan) {
        assert(0 <= x - z * most < z) by (nonlinear_arith)
            requires
                z > 0,
                x == 500 * (z - 1),
                z * most <= x,
                10 * x + z < 10 * z * (most + 1),
        ;
        assert(most * z == z * most) by (nonlinear_arith);
        vstd::arithmetic::div_mod::lemma_fundamental_div_mod_converse(x, z, most, x - z * most);
        assert(0 <= most) by (nonlinear_arith)
            requires
                z > 0,
                10 * x + z < 10 * z * (most + 1),
                x == 500 * (z - 1),
        ;
    } else {
        assert(f <= most) by (nonlinear_arith)
            requires
                10 * f * z <= 5000 * (z - 1) + z,
                5000 * (z - 1) + z < 10 * z * (most + 1),
                z > 0,
        ;
    }
    assert(-500 * (z - 1) <= p * z <= 500 * (z - 1)) by (nonlinear_arith)
        requires
            -most <= p <= most,
            z > 0,
            z * most <= 500 * (z - 1),
    ;
    assert((500 + p) * z == 500 * z + p * z) by (nonlinear_arith);
}

/// What is visible is as wide as the zoom says, and lies around the middle of
/// the span moved by the pan, as long as it fits.
pub proof fn law_the_visible_part_lies_around_the_pan(range: &DisplayRange, v: Visible)
    requires
        range@.zoom > 0,
        500 <= (500 + range@.pan) * range@.zoom <= 1000 * range@.zoom - 500,
        call_ensures(DisplayRange::visible_range, (range,), v),
    ensures
        v.denominator == 1000 * range@.zoom,
        (v.end - v.start) * range@.zoom == v.denominator,
        v.start + v.end == v.denominator + 2 * range@.pan * range@.zoom,
{
    let z = range@.zoom;
    let p = range@.pan;
    assert((500 + p) * z == 500 * z + p * z) by (nonlinear_arith);
    assert(2 * p * z == 2 * (p * z)) by (nonlinear_arith);
}

/// The visible part never leaves the span: an end that would is moved to the
/// edge, and the other stays.
pub proof fn law_the_visible_part_stays_in_the_span(range: &DisplayRange, v: Visible)
    requires
        range@.zoom > 0,
        call_ensures(DisplayRange::visible_range, (range,), v),
    ensures
        0 <= v.start <= v.denominator,
        0 <= v.end <= v.denominator,
        v.start <= v.end,
        v.start > 0 ==> v.start <= (500 + range@.pan) * range@.zoom - 500,
        v.start < v.denominator ==> v.start >= (500 + range@.pan) * range@.zoom - 500,
        v.end > 0 ==> v.end <= (500 + range@.pan) * range@.zoom + 500,
        v.end < v.denominator ==> v.end >= (500 + range@.pan) * range@.zoom + 500,
{
}

/// A pan that the zoom allows is taken as it is, and any other is brought
/// nearer to the middle, on its own side, as little as whole thousandths allow.
/// The limit is where the visible part meets the edge of the span. Zoom and
/// levels stay.
pub proof fn law_pans_are_taken_up_to_the_edge(range: &mut DisplayRange, p: i32)
    requires
        old(range)@.zoom > 0,
    ensures
        call_ensures(DisplayRange::set_pan_frac, (range, p), ()) ==> {
            let z = old(range)@.zoom;
            let q = final(range)@.pan;
            &&& final(range)@.zoom == z
            &&& final(range)@.ref_level == old(range)@.ref_level
            &&& final(range)@.range == old(range)@.range
            &&& factor(p as int) * z * 2 + 1000 <= 1000 * z ==> q == p
            &&& 0 <= p ==> 0 <= q <= p
            &&& p <= 0 ==> p <= q <= 0
            &&& 10 * (factor(q) * z * 2 + 1000) <= 10 * (1000 * z) + 2 * z
            &&& factor(p as int) * z * 2 + 1000 > 1000 * z ==> (factor(q) + 1) * z * 2 + 1000 > 1000
                * z
        },
{
    let z = old(range)@.zoom;
    let x = 500 * (z - 1);
    let most = x / z;
    vstd::arithmetic::div_mod::lemma_fundamental_div_mod(x, z);
    vstd::arithmetic::div_mod::lemma_mod_pos_bound(x, z);
    vstd::arithmetic::div_mod::lemma_div_pos_is_pos(x, z);
    let f = factor(p as int);
    assert(10 * f * z == 5 * (f * z * 2)) by (nonlinear_arith);
    assert(most * z <= x) by (nonlinear_arith)
        requires
            x == z * most + x % z,
            0 <= x % z,
    ;
    assert(10 * most * z == 5 * (most * z * 2)) by (nonlinear_arith);
    assert(most * z * 2 == 2 * (most * z)) by (nonlinear_arith);
    if beyond(z, p as int) {
        assert(most <= f) by (nonlinear_arith)
            requires
                most * z <= x,
                10 * f * z > 10 * x + z,
                z > 0,
        ;
        assert((most + 1) * z * 2 > 2 * x) by (nonlinear_arith)
            requires
                x == z * most + x % z,
                x % z < z,
        ;
    } else {
        assert((f + 1) * z * 2 == f * z * 2 + 2 * z) by (nonlinear_arith);
    }
}

/// A new zoom keeps the levels, and the pan as far as it still fits.
pub proof fn law_zooming_keeps_the_rest(range: &mut DisplayRange, z: i32)
    requires
        z > 0,
    ensures
        call_ensures(DisplayRange::set_zoom, (range, z), ()) ==> {
            let p = old(range)@.pan;
            &&& final(range)@.zoom == z
            &&& final(range)@.ref_level == old(range)@.ref_level
            &&& final(range)@.range == old(range)@.range
            &&& factor(p) * z * 2 + 1000 <= 1000 * z ==> final(range)@.pan == p
        },
{
    let f = factor(old(range)@.pan);
    assert(10 * f * z == 5 * (f * z * 2)) by (nonlinear_arith);
}

/// The bottom lies the range below the top.
pub proof fn law_levels_span_the_range(range: &DisplayRange, top: i32, bottom: i64)
    requires
        call_ensures(DisplayRange::db_top, (range,), top),
        call_ensures(DisplayRange::db_bottom, (range,), bottom),
    ensures
        top == range@.ref_level,
        top - bottom == range@.range,
{
}

/// Each level is set by itself.
pub proof fn law_levels_are_set_by_themselves(a: &mut DisplayRange, b: &mut DisplayRange, v: i32)
    ensures
        call_ensures(DisplayRange::set_ref_level, (a, v), ()) ==> final(a)@.ref_level == v
            && final(a)@.range == old(a)@.range && final(a)@.zoom == old(a)@.zoom && final(a)@.pan
            == old(a)@.pan,
        call_ensures(DisplayRange::set_range, (b, v), ()) ==> final(b)@.range == v
            && final(b)@.ref_level == old(b)@.ref_level && final(b)@.zoom == old(b)@.zoom && final(
            b)@.pan == old(b)@.pan,
{
}

/// The buttons step the zoom through its levels, one at a time.
pub proof fn law_buttons_step_through_the_levels(
    a: &mut DisplayRange,
    b: &mut DisplayRange,
    up: i32,
    down: i32,
    k: int,
)
    requires
        0 <= k < 6,
        old(a)@.zoom == seq![1int, 2, 4, 6, 8, 10][k],
        old(b)@.zoom == seq![1int, 2, 4, 6, 8, 10][k],
    ensures
        call_ensures(DisplayRange::zoom_in, (a,), up) ==> final(a)@.zoom == up && up == if k < 5 {
            seq![1int, 2, 4, 6, 8, 10][k + 1]
        } else {
            10
        },
        call_ensures(DisplayRange::zoom_out, (b,), down) ==> final(b)@.zoom == down && down == if k
            > 0 {
            seq![1int, 2, 4, 6, 8, 10][k - 1]
        } else {
            1
        },
{
}

/// A nudge moves the visible part by that share of its own width, to within
/// a thousandth of the span, as long as it stays in the span; and it changes
/// nothing else.
pub proof fn law_nudges_move_the_visible_part(range: &mut DisplayRange, thousandths: i32)
    requires
        old(range)@.zoom > 0,
        factor(old(range)@.pan * old(range)@.zoom + thousandths) * 2 + 1000 <= 1000
            * old(range)@.zoom,
    ensures
        call_ensures(DisplayRange::pan_by, (range, thousandths), ()) ==> {
            let z = old(range)@.zoom;
            let moved = z * (final(range)@.pan - old(range)@.pan);
            &&& -z < moved - thousandths < z
            &&& thousandths as int % z == 0 ==> moved == thousandths
            &&& final(range)@.zoom == z
            &&& final(range)@.ref_level == old(range)@.ref_level
            &&& final(range)@.range == old(range)@.range
        },
{
    let z = old(range)@.zoom;
    let p = old(range)@.pan;
    let t = thousandths as int;
    let n = p * z + t;
    law_nudges_go_by_the_visible_width(z, p, t);
    let m = factor(n);
    vstd::arithmetic::div_mod::lemma_fundamental_div_mod(m, z);
    vstd::arithmetic::div_mod::lemma_mod_pos_bound(m, z);
    vstd::arithmetic::div_mod::lemma_div_pos_is_pos(m, z);
    let q = nudged(z, p, t);
    let f = factor(q);
    assert(f == m / z);
    assert(f * z <= m) by (nonlinear_arith)
        requires
            m == z * f + m % z,
            0 <= m % z,
    ;
    assert(10 * f * z == 10 * (f * z)) by (nonlinear_arith);
    assert(f <= 500) by (nonlinear_arith)
        requires
            f * z <= m,
            m * 2 + 1000 <= 1000 * z,
            z > 0,
    ;
}

/// What the display tells of itself is what it shows: the level at the top
/// and the range down to the bottom, and a visible part as wide as the zoom
/// makes it and around the pan, where the span has room for it.
pub proof fn law_the_display_tells_what_it_shows(
    range: &DisplayRange,
    level: i32,
    width: i32,
    zoom: i32,
    pan: i32,
    top: i32,
    bottom: i64,
    v: Visible,
)
    requires
        call_ensures(DisplayRange::ref_level, (range,), level),
        call_ensures(DisplayRange::range, (range,), width),
        call_ensures(DisplayRange::zoom, (range,), zoom),
        call_ensures(DisplayRange::pan_frac, (range,), pan),
        call_ensures(DisplayRange::db_top, (range,), top),
        call_ensures(DisplayRange::db_bottom, (range,), bottom),
        call_ensures(DisplayRange::visible_range, (range,), v),
        zoom > 0,
        500 <= (500 + pan) * zoom <= 1000 * zoom - 500,
    ensures
        level == top,
        width == top - bottom,
        (v.end - v.start) * zoom == v.denominator == 1000 * zoom,
        v.start + v.end == v.denominator + 2 * pan * zoom,
{
    law_the_visible_part_lies_around_the_pan(range, v);
}

/// A negative zoom shows what the positive one shows, with the ends
/// exchanged.
pub proof fn law_a_negative_zoom_exchanges_the_ends(
    a: &DisplayRange,
    b: &DisplayRange,
    v: Visible,
    w: Visible,
)
    requires
        a@.zoom > 0,
        b@.zoom == -a@.zoom,
        b@.pan == a@.pan,
        call_ensures(DisplayRange::visible_range, (a,), v),
        call_ensures(DisplayRange::visible_range, (b,), w),
    ensures
        w.start == v.end,
        w.end == v.start,
        w.denominator == v.denominator,
{
}

/// With a negative zoom the pan may go as far beyond half of the span as the
/// positive one keeps it within: half of the visible part.
pub proof fn law_a_negative_zoom_pans_further(range: &mut DisplayRange, p: i32)
    requires
        old(range)@.zoom < 0,
    ensures
        call_ensures(DisplayRange::set_pan_frac, (range, p), ()) ==> {
            let a = -old(range)@.zoom;
            let q = final(range)@.pan;
            &&& final(range)@.zoom == old(range)@.zoom
            &&& factor(p as int) * a * 2 <= 1000 * a + 1000 ==> q == p
            &&& 0 <= p ==> 0 <= q <= p
            &&& p <= 0 ==> p <= q <= 0
            &&& 10 * (factor(q) * a * 2) <= 10 * (1000 * a + 1000) + 2 * a
            &&& factor(p as int) * a * 2 > 1000 * a + 1000 ==> (factor(q) + 1) * a * 2 > 1000 * a
                + 1000
        },
{
    let z = -old(range)@.zoom;
    let x = 500 * (z + 1);
    let most = x / z;
    vstd::arithmetic::div_mod::lemma_fundamental_div_mod(x, z);
    vstd::arithmetic::div_mod::lemma_mod_pos_bound(x, z);
    vstd::arithmetic::div_mod::lemma_div_pos_is_pos(x, z);
    let f = factor(p as int);
    assert(10 * f * z == 5 * (f * z * 2)) by (nonlinear_arith);
    assert(most * z <= x) by (nonlinear_arith)
        requires
            x == z * most + x % z,
            0 <= x % z,
    ;
    assert(10 * most * z == 5 * (most * z * 2)) by (nonlinear_arith);
    assert(most * z * 2 == 2 * (most * z)) by (nonlinear_arith);
    if beyond(-z, p as int) {
        assert(most <= f) by (nonlinear_arith)
            requires
                most * z <= x,
                10 * f * z > 10 * x + z,
                z > 0,
        ;
        assert((most + 1) * z * 2 > 2 * x) by (nonlinear_arith)
            requires
                x == z * most + x % z,
                x % z < z,
        ;
    } else {
        assert((f + 1) * z * 2 == f * z * 2 + 2 * z) by (nonlinear_arith);
    }
}

} // verus!
