//! The spectrum display's bookkeeping: which bin stands where, and how many
//! frames make one picture.
use crate::proto::codec::F32;
use vstd::prelude::*;

verus! {

/// Configuration of the spectrum task.
#[derive(Debug, Clone, Copy)]
pub struct FftConfig {
    /// Samples in a frame.
    pub fft_size: usize,
    /// Frames averaged into one picture.
    pub averaging: usize,
    /// Centre frequency in hertz, handed on with the bins.
    pub center_freq_hz: u64,
    /// Span in hertz, handed on with the bins.
    pub span_hz: u32,
    /// Reference level in dBm, handed on with the bins.
    pub ref_level_db: F32,
}

impl Default for FftConfig {
    /// 4096 samples, three frames, 192 kHz around 7.1 MHz, -20 dBm.
    fn default() -> (r: Self)
        ensures
            r == (FftConfig {
                fft_size: 4096,
                averaging: 3,
                center_freq_hz: 7_100_000,
                span_hz: 192_000,
                ref_level_db: F32 { bits: 0xC1A0_0000 },
            }),
    {
        FftConfig {
            fft_size: 4096,
            averaging: 3,
            center_freq_hz: 7_100_000,
            span_hz: 192_000,
            ref_level_db: F32 { bits: 0xC1A0_0000 },
        }
    }
}

/// The bin of a transform of `size` bins that stands at place `j` of the
/// picture: the halves change places, so that the centre frequency stands in
/// the middle. Of an odd size the middle place goes to the first half.
pub open spec fn shifted(j: nat, size: nat) -> nat
    recommends
        j < size,
{
    (j + size / 2) % size
}

/// The bin that stands at place `j` of the picture.
pub fn bin_at(j: usize, size: usize) -> (r: usize)
    requires
        j < size,
    ensures
        r == shifted(j as nat, size as nat),
{
    let half: usize = size / 2;
    proof {
        lemma_shifted(j as nat, size as nat);
    }
    if j < size - half {
        j + half
    } else {
        j - (size - half)
    }
}

proof fn lemma_shifted(j: nat, size: nat)
    requires
        j < size,
    ensures
        shifted(j, size) == if j < size - size / 2 {
            (j + size / 2) as int
        } else {
            j - (size - size / 2)
        },
{
    let x = (j + size / 2) as int;
    let s = size as int;
    if x < s {
        vstd::arithmetic::div_mod::lemma_small_mod(x as nat, size);
    } else {
        vstd::arithmetic::div_mod::lemma_fundamental_div_mod_converse(x, s, 1, x - s);
    }
}

/// The place of the picture where a bin stands.
pub open spec fn place_of(bin: nat, size: nat) -> nat
    recommends
        bin < size,
{
    if bin >= size / 2 {
        (bin - size / 2) as nat
    } else {
        (bin + (size - size / 2)) as nat
    }
}

/// The picture shows every bin, each in one place. Bin 0, the centre
/// frequency, stands behind half of them: in the middle, `size / 2`, of an
/// even size, and one place further of an odd one.
pub proof fn law_shift_rearranges(size: nat)
    requires
        size > 0,
    ensures
        forall|j: nat| j < size ==> #[trigger] shifted(j, size) < size,
        forall|i: nat, j: nat|
            i < size && j < size && #[trigger] shifted(i, size) == #[trigger] shifted(j, size)
                ==> i == j,
        forall|b: nat|
            b < size ==> #[trigger] place_of(b, size) < size && shifted(
                place_of(b, size),
                size,
            ) == b,
        size % 2 == 0 ==> shifted(size / 2, size) == 0,
        size % 2 == 1 && size > 1 ==> shifted(size / 2 + 1, size) == 0,
{
    assert forall|j: nat| j < size implies #[trigger] shifted(j, size) < size by {
        lemma_shifted(j, size);
    }
    assert forall|i: nat, j: nat|
        i < size && j < size && #[trigger] shifted(i, size) == #[trigger] shifted(
            j,
            size,
        ) implies i == j by {
        lemma_shifted(i, size);
        lemma_shifted(j, size);
    }
    assert forall|b: nat| b < size implies #[trigger] place_of(b, size) < size && shifted(
        place_of(b, size),
        size,
    ) == b by {
        lemma_shifted(place_of(b, size), size);
    }
    if size > 1 {
        lemma_shifted((size - size / 2) as nat, size);
    }
}

/// Counts frames until a picture is complete.
#[derive(Debug, Clone, Copy)]
pub struct Averager {
    needed: usize,
    have: usize,
}

impl Averager {
    /// Frames that make a picture.
    pub closed spec fn needed(&self) -> nat {
        self.needed as nat
    }

    /// Frames taken since the last picture.
    pub closed spec fn have(&self) -> nat {
        self.have as nat
    }

    /// The picture is not yet complete.
    pub open spec fn valid(&self) -> bool {
        self.have() < self.needed()
    }

    /// An averager over this many frames, and over one where none are asked
    /// for.
    pub fn new(averaging: usize) -> (r: Self)
        ensures
            r.valid(),
            r.have() == 0,
            r.needed() == if averaging == 0 {
                1
            } else {
                averaging as nat
            },
    {
        let needed: usize = if averaging == 0 {
            1
        } else {
            averaging
        };
        Averager { needed, have: 0 }
    }

    /// How many frames make a picture.
    pub fn frames(&self) -> (r: usize)
        ensures
            r == self.needed(),
    {
        self.needed
    }

    /// Takes one frame, and says whether it completes the picture.
    pub fn frame(&mut self) -> (r: bool)
        requires
            old(self).valid(),
        ensures
            final(self).valid(),
            final(self).needed() == old(self).needed(),
            r == (old(self).have() + 1 == old(self).needed()),
            final(self).have() == if r {
                0
            } else {
                old(self).have() + 1
            },
    {
        self.have = self.have + 1;
        if self.have >= self.needed {
            self.have = 0;
            true
        } else {
            false
        }
    }
}

/// Bins that are neighbours in frequency are neighbours in the picture, and
/// the frequency rises from left to right.
pub proof fn law_neighbours_stay_neighbours(j: usize, size: usize, a: usize, b: usize)
    requires
        j + 1 < size,
        call_ensures(bin_at, (j, size), a),
        call_ensures(bin_at, ((j + 1) as usize, size), b),
    ensures
        b == if a + 1 == size {
            0
        } else {
            a + 1
        },
{
    lemma_shifted(j as nat, size as nat);
    lemma_shifted((j + 1) as nat, size as nat);
}

/// The left edge of the picture is the lowest frequency: the bin behind the
/// first half.
pub proof fn law_the_picture_starts_at_the_lowest_frequency(size: usize, r: usize)
    requires
        size > 1,
        call_ensures(bin_at, (0usize, size), r),
    ensures
        r == size as int / 2,
{
    lemma_shifted(0, size as nat);
}

/// A picture is complete with every frame that fills its number, and the next
/// one starts over.
pub proof fn law_pictures_are_made_of_their_frames(a: &mut Averager, r: bool)
    requires
        old(a).valid(),
    ensures
        call_ensures(Averager::frame, (a,), r) ==> {
            &&& final(a).needed() == old(a).needed()
            &&& r <==> old(a).have() == old(a).needed() - 1
            &&& r ==> final(a).have() == 0
            &&& !r ==> final(a).have() == old(a).have() + 1
        },
{
}

/// An averager takes as many frames as it is asked for, and at least one.
pub proof fn law_averaging_takes_what_it_is_asked_for(n: usize, a: Averager, r: usize)
    requires
        call_ensures(Averager::new, (n,), a),
        call_ensures(Averager::frames, (&a,), r),
    ensures
        r >= 1,
        n >= 1 ==> r == n,
        a.have() == 0,
{
}

/// A spectrum is configured for 192 kHz around 7.1 MHz, below -20 dBm.
pub proof fn law_default_spectrum(c: FftConfig)
    requires
        call_ensures(<FftConfig as Default>::default, (), c),
    ensures
        c.fft_size == 4096 && c.averaging == 3,
        c.center_freq_hz == 7_100_000 && c.span_hz == 192_000,
        c.ref_level_db.bits as int / 0x8000_0000 == 1,
        c.ref_level_db.bits as int % 0x8000_0000 / 0x80_0000 == 127 + 4,
        (0x80_0000 + c.ref_level_db.bits as int % 0x80_0000) * 16 == 20 * 0x80_0000,
{
}

} // verus!
