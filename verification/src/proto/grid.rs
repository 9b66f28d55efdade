//! Names of the cells of the client's layout.
use vstd::prelude::*;

verus! {

/// A cell of the client's layout, top to bottom and left to right. The names
/// survive mode changes; only what fills a cell varies.
#[derive(Debug, Clone, Copy, PartialEq, Eq, Hash, Structural)]
pub enum GridCell {
    Disp0Left,
    Disp0Center,
    Disp0Right,
    Disp1Left,
    Disp1Center,
    Disp1Right,
    Disp2Left,
    Disp2Center,
    Disp2Right,
    Spectrum,
    /// The amplitude scale beside the spectrum.
    AmpAxis,
    /// The frequency scale between spectrum and waterfall.
    FreqAxis,
    Waterfall,
    /// The time scale beside the waterfall.
    TimeAxis,
    Ctrl0Left,
    Ctrl0Center,
    Ctrl0Right,
    Ctrl1Left,
    Ctrl1Center,
    Ctrl1Right,
}

} // verus!
