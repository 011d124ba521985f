//! Geometry of the panel and of its colour modulation.
use vstd::prelude::*;

verus! {

/// Logical rows of the panel (two sub-panels of eight rows each).
pub const ROWS: usize = 16;
/// Columns of the panel.
pub const COLUMNS: usize = 32;
/// Sub-panels that are driven at the same time.
pub const SUB_PANELS: usize = 2;
/// Double-rows: the scan lines, each driving one row of each sub-panel.
pub const DOUBLE_ROWS: usize = 8;
/// Bitplanes shown per double-row (bits of colour per channel).
pub const COLOR_DEPTH: usize = 8;

} // verus!
