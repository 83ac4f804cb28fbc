//! Flee fields: the approach field scaled by a negative coefficient, then
//! smoothed by the propagator from the cells that came out lowest.

use crate::constants::{CELLS, COWARDICE_COEFF, UNIT, UNREACHED};
use crate::distance::{lemma_point_of, point_of};
use crate::flood::{all_in_bounds, flood_result};
use crate::grid::Point;
use vstd::prelude::*;

verus! {

/// The field in which every cell holds the sentinel.
pub open spec fn blank() -> Seq<i64> {
    Seq::new(CELLS as nat, |i: int| UNREACHED)
}

/// A whole number held inside `i64`.
pub open spec fn clamped(n: int) -> i64 {
    if n > i64::MAX {
        i64::MAX
    } else if n < i64::MIN {
        i64::MIN
    } else {
        n as i64
    }
}

/// A value times a coefficient given in tenths: the product, divided by
/// `UNIT` towards zero, held inside `i64`.
pub open spec fn scaled(v: i64, coeff: i64) -> i64 {
    let product = v * coeff;
    if product >= 0 {
        clamped(product / (UNIT as int))
    } else {
        clamped(-((-product) / (UNIT as int)))
    }
}

/// The approach field scaled: every cell that a source reaches holds its
/// scaled value, every other cell the sentinel.
pub open spec fn cast(approach: Seq<i64>, coeff: i64) -> Seq<i64> {
    Seq::new(
        CELLS as nat,
        |i: int|
            if approach[i] != UNREACHED {
                scaled(approach[i], coeff)
            } else {
                UNREACHED
            },
    )
}

/// The lowest value that `raw` holds among the first `n` cells that a
/// source reaches, or the sentinel where there is none.
pub open spec fn floor_upto(approach: Seq<i64>, raw: Seq<i64>, n: int) -> i64
    decreases n,
{
    if n <= 0 {
        UNREACHED
    } else {
        let rest = floor_upto(approach, raw, n - 1);
        if approach[n - 1] != UNREACHED && raw[n - 1] < rest {
            raw[n - 1]
        } else {
            rest
        }
    }
}

/// Those of the first `n` cells that a source reaches and that hold `m` in
/// `raw`, row by row.
pub open spec fn low_points_upto(approach: Seq<i64>, raw: Seq<i64>, n: int, m: i64) -> Seq<Point>
    decreases n,
{
    if n <= 0 {
        Seq::empty()
    } else {
        let rest = low_points_upto(approach, raw, n - 1, m);
        if approach[n - 1] != UNREACHED && raw[n - 1] == m {
            rest.push(point_of(n - 1))
        } else {
            rest
        }
    }
}

/// The cells that a source reaches and that hold the lowest value of `raw`
/// among such cells: all of them, row by row.
pub open spec fn low_points(approach: Seq<i64>, raw: Seq<i64>) -> Seq<Point> {
    low_points_upto(approach, raw, CELLS as int, floor_upto(approach, raw, CELLS as int))
}

/// The cells from which both flee fields of an approach field are
/// smoothed: the lowest cells of the cowardly scaling.
pub open spec fn flee_minima(approach: Seq<i64>) -> Seq<Point> {
    low_points(approach, cast(approach, COWARDICE_COEFF))
}

/// The flee field of an approach field for a coefficient: the scaled
/// field, smoothed by the propagator from the flee minima.
pub open spec fn flee_field(approach: Seq<i64>, coeff: i64, b: Seq<bool>) -> Seq<i64> {
    flood_result(cast(approach, coeff), flee_minima(approach), b)
}

/// No cell among the first `n` holds less than the floor of these cells.
pub proof fn lemma_floor_upto(approach: Seq<i64>, raw: Seq<i64>, n: int, i: int)
    requires
        0 <= i < n,
        approach[i] != UNREACHED,
    ensures
        floor_upto(approach, raw, n) <= raw[i],
    decreases n,
{
    if i < n - 1 {
        lemma_floor_upto(approach, raw, n - 1, i);
    }
}

/// Below the floor there are no low points.
pub proof fn lemma_low_points_none(approach: Seq<i64>, raw: Seq<i64>, n: int, m: i64)
    requires
        m < floor_upto(approach, raw, n),
    ensures
        low_points_upto(approach, raw, n, m) == Seq::<Point>::empty(),
    decreases n,
{
    if n > 0 {
        lemma_low_points_none(approach, raw, n - 1, m);
    }
}

/// The low points lie on the map, are reached by a source, and hold `m`.
pub proof fn lemma_low_points_upto(approach: Seq<i64>, raw: Seq<i64>, n: int, m: i64)
    requires
        n <= CELLS,
    ensures
        all_in_bounds(low_points_upto(approach, raw, n, m)),
        forall|j: int|
            0 <= j < low_points_upto(approach, raw, n, m).len() ==> {
                let p = #[trigger] low_points_upto(approach, raw, n, m)[j];
                approach[p.index()] != UNREACHED && raw[p.index()] == m
            },
    decreases n,
{
    if n > 0 {
        lemma_low_points_upto(approach, raw, n - 1, m);
        lemma_point_of(n - 1);
    }
}

} // verus!
