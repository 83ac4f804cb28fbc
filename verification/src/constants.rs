//! Constants about the game world and its fixed-point arithmetic.

use vstd::prelude::*;

verus! {

/// The width of the playable map.
pub const WIDTH: usize = 200;

/// The height of the playable map.
pub const HEIGHT: usize = 100;

/// The number of cells of the playable map.
pub const CELLS: usize = 20000;

/// Heatmap values are fixed-point numbers with one decimal digit: a stored
/// value `v` stands for `v / UNIT`, so one step of travel costs `UNIT`.
pub const UNIT: i64 = 10;

/// The value of a cell that no source reaches: it stands for infinity.
pub const UNREACHED: i64 = 0x7fff_ffff_ffff_ffff;

/// The dijkstra map fleeing coefficient for cowards, in tenths.
pub const COWARDICE_COEFF: i64 = -11;

/// The dijkstra map fleeing coefficient for brave souls, in tenths.
pub const BRAVERY_COEFF: i64 = -16;

} // verus!
