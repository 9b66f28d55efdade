//! The waterfall's picture: how wide it is, which bin stands at which column,
//! and which row is written next.
use crate::proto::radio::Mode;
use vstd::prelude::*;

verus! {

/// Rows of the picture.
pub const WF_HEIGHT: usize = 512;

/// Columns of the picture at most.
pub const MAX_WIDTH: usize = 4096;

/// Columns of the picture before it is first drawn.
pub const FIRST_WIDTH: usize = 1024;

/// The width of the picture in a window of this width.
pub open spec fn picture_width(window: int) -> int {
    if window < 1 {
        1
    } else if window > MAX_WIDTH {
        MAX_WIDTH as int
    } else {
        window
    }
}

/// The bin that stands at a column.
pub open spec fn bin_for(x: int, bins: int, width: int) -> int {
    let n = if bins < 1 {
        1
    } else {
        bins
    };
    if x * n / width < n - 1 {
        x * n / width
    } else {
        n - 1
    }
}

/// The picture that rows are written into, round and round.
#[derive(Debug, Clone, Copy)]
pub struct Picture {
    width: usize,
    row: usize,
}

impl Picture {
    /// The width in columns.
    pub closed spec fn width(&self) -> nat {
        self.width as nat
    }

    /// The row that is written next.
    pub closed spec fn row(&self) -> nat {
        self.row as nat
    }

    /// The width is a possible one, and the next row exists.
    pub open spec fn valid(&self) -> bool {
        &&& 1 <= self.width() <= MAX_WIDTH
        &&& self.row() < WF_HEIGHT
    }

    pub fn new() -> (r: Self)
        ensures
            r.valid(),
            r.width() == FIRST_WIDTH,
            r.row() == 0,
    {
        Picture { width: FIRST_WIDTH, row: 0 }
    }

    /// Fits the picture into a window. Where the width changes, the picture
    /// starts over, and the result says so.
    pub fn resize(&mut self, window: usize) -> (r: bool)
        requires
            old(self).valid(),
        ensures
            final(self).valid(),
            final(self).width() == picture_width(window as int),
            r == (final(self).width() != old(self).width()),
            final(self).row() == if r {
                0
            } else {
                old(self).row()
            },
    {
        let wanted: usize = if window < 1 {
            1
        } else if window > MAX_WIDTH {
            MAX_WIDTH
        } else {
            window
        };
        if wanted != self.width {
            self.width = wanted;
            self.row = 0;
            true
        } else {
            false
        }
    }

    /// The columns of the picture.
    pub fn columns(&self) -> (r: usize)
        ensures
            r == self.width(),
    {
        self.width
    }

    /// The row that is written next.
    pub fn next_row(&self) -> (r: usize)
        ensures
            r == self.row(),
    {
        self.row
    }

    /// A row has been written.
    pub fn advance(&mut self)
        requires
            old(self).valid(),
        ensures
            final(self).valid(),
            final(self).width() == old(self).width(),
            final(self).row() == (old(self).row() + 1) % WF_HEIGHT as nat,
    {
        self.row = (self.row + 1) % WF_HEIGHT;
    }

    /// The bin that stands at a column of a line with this many bins.
    pub fn bin_at(&self, x: usize, bins: usize) -> (r: usize)
        requires
            self.valid(),
            x < self.width(),
            x * bins <= usize::MAX,
        ensures
            r == bin_for(x as int, bins as int, self.width() as int),
            bins > 0 ==> r < bins,
    {
        let n: usize = if bins < 1 {
            1
        } else {
            bins
        };
        assert(x * n <= usize::MAX);
        let at: usize = x * n / self.width;
        if at < n - 1 {
            at
        } else {
            n - 1
        }
    }
}

/// The first column shows the first bin, and columns further right show bins
/// no further left.
pub proof fn law_bins_run_left_to_right(x: int, y: int, bins: int, width: int)
    requires
        0 <= x <= y < width,
        bins > 0,
    ensures
        bin_for(0, bins, width) == 0,
        0 <= bin_for(x, bins, width) <= bin_for(y, bins, width) < bins,
{
    vstd::arithmetic::div_mod::lemma_div_basics(width);
    assert(0 <= x * bins <= y * bins) by (nonlinear_arith)
        requires
            0 <= x <= y,
            bins > 0,
    ;
    vstd::arithmetic::div_mod::lemma_div_is_ordered(x * bins, y * bins, width);
    vstd::arithmetic::div_mod::lemma_div_pos_is_pos(x * bins, width);
}

/// On which side of the dial a mode's passband lies: its lower and upper edge,
/// in halves of the bandwidth.
pub open spec fn passband(mode: Mode) -> (int, int) {
    match mode {
        Mode::USB | Mode::CW => (0, 2),
        Mode::LSB | Mode::CWR => (-2, 0),
        _ => (-1, 1),
    }
}

/// The edges of a mode's passband, in halves of the bandwidth.
pub fn passband_edges(mode: Mode) -> (r: (i32, i32))
    ensures
        (r.0 as int, r.1 as int) == passband(mode),
{
    match mode {
        Mode::USB | Mode::CW => (0, 2),
        Mode::LSB | Mode::CWR => (-2, 0),
        _ => (-1, 1),
    }
}

/// The passband is as wide as the bandwidth in every mode.
pub proof fn law_passband_is_the_bandwidth(mode: Mode)
    ensures
        passband(mode).1 - passband(mode).0 == 2,
        passband(mode).0 <= 0 <= passband(mode).1,
{
}

/// A column shows the bin that lies over it: bins and columns share the
/// width in proportion.
pub proof fn law_columns_show_what_lies_over_them(p: &Picture, x: usize, bins: usize, r: usize)
    requires
        p.valid(),
        x < p.width(),
        bins > 0,
        x * bins <= usize::MAX,
        call_ensures(Picture::bin_at, (p, x, bins), r),
    ensures
        r * p.width() <= x * bins < (r + 1) * p.width(),
        bins == p.width() ==> r == x,
{
    let w = p.width() as int;
    let y = x * bins;
    vstd::arithmetic::div_mod::lemma_fundamental_div_mod(y, w);
    vstd::arithmetic::div_mod::lemma_mod_pos_bound(y, w);
    let q = y / w;
    assert(q * w <= y < (q + 1) * w) by (nonlinear_arith)
        requires
            y == w * q + y % w,
            0 <= y % w < w,
    ;
    assert(q < bins) by (nonlinear_arith)
        requires
            q * w <= y,
            y == x * bins,
            x < w,
            bins > 0,
            w > 0,
    ;
    if bins == w {
        vstd::arithmetic::div_mod::lemma_div_multiples_vanish(x as int, w);
        assert(w * x == y) by (nonlinear_arith)
            requires
                y == x * bins,
                bins == w,
        ;
    }
}

/// Rows are written one after another, and after the last of 512 the first
/// one again.
pub proof fn law_rows_go_round(p: &mut Picture)
    requires
        old(p).valid(),
    ensures
        call_ensures(Picture::advance, (p,), ()) ==> {
            &&& old(p).row() < 511 ==> final(p).row() == old(p).row() + 1
            &&& old(p).row() == 511 ==> final(p).row() == 0
            &&& final(p).width() == old(p).width()
        },
{
}

/// The picture is as wide as its window, from one column up to 4096, and
/// starts over only where its width changes.
pub proof fn law_pictures_fit_their_window(p: &mut Picture, window: usize, r: bool)
    requires
        old(p).valid(),
    ensures
        call_ensures(Picture::resize, (p, window), r) ==> {
            &&& 1 <= window <= 4096 ==> final(p).width() == window
            &&& window == 0 ==> final(p).width() == 1
            &&& window > 4096 ==> final(p).width() == 4096
            &&& r <==> final(p).width() != old(p).width()
            &&& r ==> final(p).row() == 0
            &&& !r ==> final(p).row() == old(p).row()
        },
{
}

/// The marks lie where the mode is received: above the dial for USB and CW,
/// below it for LSB and CWR, and on both sides alike otherwise.
pub proof fn law_marks_lie_on_the_modes_side(mode: Mode, r: (i32, i32))
    requires
        call_ensures(passband_edges, (mode,), r),
    ensures
        ({
            let (low, high) = r;
            &&& high - low == 2
            &&& low == 0 <==> mode == Mode::USB || mode == Mode::CW
            &&& high == 0 <==> mode == Mode::LSB || mode == Mode::CWR
            &&& low != 0 && high != 0 ==> low == -high
        }),
{
}

/// A new picture has 1024 columns and starts at its first row, and the
/// columns and the row that a picture tells are those it draws by.
pub proof fn law_pictures_tell_where_they_are(first: Picture, p: &Picture, columns: usize, row: usize)
    requires
        call_ensures(Picture::new, (), first),
        call_ensures(Picture::columns, (p,), columns),
        call_ensures(Picture::next_row, (p,), row),
    ensures
        columns == p.width() && row == p.row(),
        *p == first ==> columns == 1024 && row == 0,
{
}

/// Without bins every column shows the first.
pub proof fn law_no_bins_show_the_first(p: &Picture, x: usize, r: usize)
    requires
        p.valid(),
        x < p.width(),
        call_ensures(Picture::bin_at, (p, x, 0), r),
    ensures
        r == 0,
{
    let w = p.width() as int;
    vstd::arithmetic::div_mod::lemma_div_pos_is_pos(x as int, w);
    vstd::arithmetic::div_mod::lemma_small_mod(x as nat, w as nat);
    vstd::arithmetic::div_mod::lemma_basic_div(x as int, w);
}

} // verus!
