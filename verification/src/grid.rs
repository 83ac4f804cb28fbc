//! Grids: state about every point in the game world.

use crate::constants::{CELLS, HEIGHT, WIDTH};
use vstd::prelude::*;

verus! {

/// A location in 2d space.
#[derive(Clone, Copy, Debug, PartialEq, Eq, PartialOrd, Ord, Structural)]
pub struct Point {
    /// The X coordinate.
    pub x: usize,
    /// The Y coordinate.
    pub y: usize,
}

impl Point {
    /// Whether the point lies on the playable map.
    pub open spec fn in_bounds(self) -> bool {
        self.x < WIDTH && self.y < HEIGHT
    }

    /// The position of the point's cell in a row-major buffer.
    pub open spec fn index(self) -> int {
        self.y * WIDTH + self.x
    }

    /// Offset one point by another.
    pub fn offset(&self, off: Point) -> (r: Point)
        requires
            self.x + off.x <= usize::MAX,
            self.y + off.y <= usize::MAX,
        ensures
            r.x == self.x + off.x,
            r.y == self.y + off.y,
    {
        Point { x: self.x + off.x, y: self.y + off.y }
    }
}

/// Distinct points of the map have distinct cells.
pub proof fn lemma_index_injective(p: Point, q: Point)
    requires
        p.in_bounds(),
        q.in_bounds(),
        p.index() == q.index(),
    ensures
        p == q,
{
}

/// A grid representing some state of the world: one value for every point
/// of the map, held in a single row-major buffer.
pub struct Grid<T> {
    cells: Vec<T>,
}

impl<T> Grid<T> {
    /// The values of the grid, row by row.
    pub closed spec fn view(&self) -> Seq<T> {
        self.cells@
    }

    /// Every grid holds exactly one value per cell of the map.
    #[verifier::type_invariant]
    pub open spec fn well_formed(self) -> bool {
        self@.len() == CELLS
    }

    /// The value held at a point.
    pub open spec fn value(&self, p: Point) -> T {
        self@[p.index()]
    }

}

impl<T: Copy> Grid<T> {
    /// Construct a new grid with a zero value.
    pub fn new(zero: T) -> (g: Grid<T>)
        ensures
            g@ == Seq::new(CELLS as nat, |i: int| zero),
            g@.len() == CELLS,
    {
        let mut cells: Vec<T> = Vec::new();
        let mut i: usize = 0;
        while i < CELLS
            invariant
                i <= CELLS,
                cells@.len() == i,
                forall|j: int| 0 <= j < i ==> cells@[j] == zero,
            decreases CELLS - i,
        {
            cells.push(zero);
            i = i + 1;
        }
        Grid { cells }
    }

    /// Look up a point in a grid.
    pub fn at(&self, p: Point) -> (v: T)
        requires
            p.in_bounds(),
        ensures
            v == self.value(p),
            self@.len() == CELLS,
    {
        proof {
            use_type_invariant(self);
        }
        self.cells[p.y * WIDTH + p.x]
    }

    /// Set a point in a grid.
    pub fn set(&mut self, p: Point, val: T)
        requires
            p.in_bounds(),
        ensures
            final(self)@ == old(self)@.update(p.index(), val),
            final(self)@.len() == CELLS,
    {
        proof {
            use_type_invariant(&*self);
        }
        self.cells[p.y * WIDTH + p.x] = val;
    }
}

} // verus!
