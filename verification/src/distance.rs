//! Distance on the map: how many steps lead from the nearest source to a
//! point, past the blocked cells, and the field that holds these distances.

use crate::constants::{CELLS, UNIT, UNREACHED, WIDTH};
use crate::flood::{cell, has_neighbor, lemma_lowest, lemma_neighbor_mirror, lowest, neighbor, shut};
use crate::grid::Point;
use crate::wavefront::settled;
use vstd::prelude::*;

verus! {

/// Whether `k` steps suffice to walk from a source to `p`: each step goes
/// to one of the 8 neighbours, and only the source itself may be blocked.
pub open spec fn reach(sources: Seq<Point>, b: Seq<bool>, p: Point, k: nat) -> bool
    decreases k,
{
    &&& p.in_bounds()
    &&& {
        ||| sources.contains(p)
        ||| k > 0 && !shut(b, p) && exists|j: int|
            has_neighbor(p, j) && reach(sources, b, #[trigger] neighbor(p, j), (k - 1) as nat)
    }
}

/// The least number of steps that lead from a source to `p`, if any does.
pub open spec fn steps(sources: Seq<Point>, b: Seq<bool>, p: Point) -> Option<nat> {
    if exists|k: nat| reach(sources, b, p, k) {
        Some(
            choose|k: nat|
                reach(sources, b, p, k) && forall|j: nat| j < k ==> !reach(sources, b, p, j),
        )
    } else {
        None
    }
}

/// A number of steps as a value of a field; the sentinel stands for what
/// does not fit below it.
pub open spec fn step_value(k: nat) -> i64 {
    if k * UNIT < UNREACHED {
        (k * UNIT) as i64
    } else {
        UNREACHED
    }
}

/// The value of the distance field at a point: the least number of steps
/// from a source, or the sentinel where no walk leads there.
pub open spec fn distance_value(sources: Seq<Point>, b: Seq<bool>, p: Point) -> i64 {
    match steps(sources, b, p) {
        Some(k) => step_value(k),
        None => UNREACHED,
    }
}

/// The point whose cell stands at a position of a row-major buffer.
pub open spec fn point_of(i: int) -> Point {
    Point { x: (i % WIDTH as int) as usize, y: (i / WIDTH as int) as usize }
}

/// The distance field of a set of sources in a world of obstructions.
pub open spec fn distance_field(sources: Seq<Point>, b: Seq<bool>) -> Seq<i64> {
    Seq::new(CELLS as nat, |i: int| distance_value(sources, b, point_of(i)))
}

/// What makes a field the distance field, said cell by cell: zero exactly
/// at the sources and nothing below zero; no cell that could be improved;
/// and every other cell that is reached is free and holds one step more
/// than its lowest neighbour.
pub open spec fn charted(f: Seq<i64>, sources: Seq<Point>, b: Seq<bool>) -> bool {
    &&& f.len() == CELLS
    &&& b.len() == CELLS
    &&& forall|p: Point| p.in_bounds() ==> (sources.contains(p) <==> #[trigger] cell(f, p) == 0)
    &&& forall|p: Point| p.in_bounds() ==> #[trigger] cell(f, p) >= 0
    &&& forall|p: Point| p.in_bounds() ==> #[trigger] settled(f, b, p)
    &&& forall|p: Point|
        p.in_bounds() && #[trigger] cell(f, p) != 0 && cell(f, p) != UNREACHED ==> !shut(b, p)
            && cell(f, p) == lowest(f, p) + UNIT
}

/// Every position of the buffer belongs to one point of the map, and every
/// point of the map to its position.
pub proof fn lemma_point_of(i: int)
    requires
        0 <= i < CELLS,
    ensures
        point_of(i).in_bounds(),
        point_of(i).index() == i,
{
}

/// The cell of a point in the distance field holds the point's distance.
pub proof fn lemma_distance_field_cell(sources: Seq<Point>, b: Seq<bool>, p: Point)
    requires
        p.in_bounds(),
    ensures
        distance_field(sources, b).len() == CELLS,
        cell(distance_field(sources, b), p) == distance_value(sources, b, p),
{
    assert(point_of(p.index()) == p);
}

/// More steps reach whatever fewer steps reach.
pub proof fn lemma_reach_more(sources: Seq<Point>, b: Seq<bool>, p: Point, k: nat, m: nat)
    requires
        reach(sources, b, p, k),
        k <= m,
    ensures
        reach(sources, b, p, m),
    decreases k,
{
    if !sources.contains(p) {
        let j = choose|j: int|
            has_neighbor(p, j) && reach(sources, b, #[trigger] neighbor(p, j), (k - 1) as nat);
        lemma_reach_more(sources, b, neighbor(p, j), (k - 1) as nat, (m - 1) as nat);
    }
}

/// Among the numbers of steps that reach a point there is a least.
pub proof fn lemma_least_steps(sources: Seq<Point>, b: Seq<bool>, p: Point, k: nat) -> (least: nat)
    requires
        reach(sources, b, p, k),
    ensures
        least <= k,
        reach(sources, b, p, least),
        forall|j: nat| j < least ==> !reach(sources, b, p, j),
    decreases k,
{
    if k > 0 && reach(sources, b, p, (k - 1) as nat) {
        lemma_least_steps(sources, b, p, (k - 1) as nat)
    } else {
        assert forall|j: nat| j < k implies !reach(sources, b, p, j) by {
            if reach(sources, b, p, j) {
                lemma_reach_more(sources, b, p, j, (k - 1) as nat);
            }
        }
        k
    }
}

/// What `steps` gives: the least number of steps that reach the point, and
/// nothing for a point that no number of steps reaches.
pub proof fn lemma_steps(sources: Seq<Point>, b: Seq<bool>, p: Point)
    ensures
        match steps(sources, b, p) {
            Some(k) => reach(sources, b, p, k) && forall|j: nat|
                j < k ==> !reach(sources, b, p, j),
            None => forall|k: nat| !reach(sources, b, p, k),
        },
{
    if exists|k: nat| reach(sources, b, p, k) {
        let k = choose|k: nat| reach(sources, b, p, k);
        let least = lemma_least_steps(sources, b, p, k);
    }
}

/// In a charted field a point that `k` steps reach holds at most `k` steps.
pub proof fn lemma_reached_is_low(
    f: Seq<i64>,
    sources: Seq<Point>,
    b: Seq<bool>,
    p: Point,
    k: nat,
)
    requires
        charted(f, sources, b),
        reach(sources, b, p, k),
    ensures
        cell(f, p) <= k * UNIT,
    decreases k,
{
    if !sources.contains(p) {
        let j = choose|j: int|
            has_neighbor(p, j) && reach(sources, b, #[trigger] neighbor(p, j), (k - 1) as nat);
        let q = neighbor(p, j);
        lemma_reached_is_low(f, sources, b, q, (k - 1) as nat);
        lemma_lowest(f, p);
        assert(settled(f, b, p));
        assert(cell(f, p) <= cell(f, q) + UNIT);
        assert((k - 1) * UNIT + UNIT == k * UNIT) by (nonlinear_arith);
    }
}

/// In a charted field a point that holds a value below the sentinel holds
/// a whole number of steps, and that many steps reach it.
pub proof fn lemma_finite_is_reached(f: Seq<i64>, sources: Seq<Point>, b: Seq<bool>, p: Point) -> (k:
    nat)
    requires
        charted(f, sources, b),
        p.in_bounds(),
        cell(f, p) != UNREACHED,
    ensures
        cell(f, p) == k * UNIT,
        reach(sources, b, p, k),
    decreases cell(f, p),
{
    assert(cell(f, p) >= 0);
    if cell(f, p) == 0 {
        0
    } else {
        lemma_lowest(f, p);
        assert(cell(f, p) == lowest(f, p) + UNIT);
        let j = choose|j: int|
            has_neighbor(p, j) && cell(f, #[trigger] neighbor(p, j)) == lowest(f, p);
        let q = neighbor(p, j);
        lemma_neighbor_mirror(p, j);
        assert(cell(f, q) >= 0);
        let m = lemma_finite_is_reached(f, sources, b, q);
        assert(m * UNIT + UNIT == (m + 1) * UNIT) by (nonlinear_arith);
        assert(reach(sources, b, neighbor(p, j), ((m + 1) - 1) as nat));
        (m + 1) as nat
    }
}

/// A charted field is the distance field of its sources.
pub proof fn lemma_charted_is_distance_field(f: Seq<i64>, sources: Seq<Point>, b: Seq<bool>)
    requires
        charted(f, sources, b),
    ensures
        f == distance_field(sources, b),
{
    let d = distance_field(sources, b);
    assert forall|i: int| 0 <= i < CELLS implies f[i] == d[i] by {
        let p = point_of(i);
        lemma_point_of(i);
        lemma_steps(sources, b, p);
        assert(f[i] == cell(f, p));
        match steps(sources, b, p) {
            Some(k) => {
                lemma_reached_is_low(f, sources, b, p, k);
                if cell(f, p) != UNREACHED {
                    let m = lemma_finite_is_reached(f, sources, b, p);
                    if m < k {
                        assert(!reach(sources, b, p, m));
                    }
                    assert(k * UNIT <= m * UNIT) by (nonlinear_arith)
                        requires
                            k <= m,
                    ;
                }
            },
            None => {
                if cell(f, p) != UNREACHED {
                    let m = lemma_finite_is_reached(f, sources, b, p);
                }
            },
        }
    }
    assert(f =~= d);
}

/// The distance field is charted.
pub proof fn lemma_distance_field_charted(sources: Seq<Point>, b: Seq<bool>)
    requires
        b.len() == CELLS,
    ensures
        charted(distance_field(sources, b), sources, b),
{
    let f = distance_field(sources, b);
    assert forall|p: Point| p.in_bounds() implies (sources.contains(p) <==> #[trigger] cell(f, p)
        == 0) && cell(f, p) >= 0 by {
        lemma_distance_field_cell(sources, b, p);
        lemma_steps(sources, b, p);
        if sources.contains(p) {
            assert(reach(sources, b, p, 0));
        }
        if cell(f, p) == 0 {
            let k = steps(sources, b, p)->0;
            assert(k == 0) by (nonlinear_arith)
                requires
                    k * UNIT == 0,
            ;
        }
    }
    assert forall|p: Point| p.in_bounds() implies #[trigger] settled(f, b, p) by {
        if !shut(b, p) {
            lemma_lowest(f, p);
            if lowest(f, p) != UNREACHED {
                let j = choose|j: int|
                    has_neighbor(p, j) && cell(f, #[trigger] neighbor(p, j)) == lowest(f, p);
                lemma_walk_on(sources, b, p, j);
            }
        }
    }
    assert forall|p: Point|
        p.in_bounds() && #[trigger] cell(f, p) != 0 && cell(f, p) != UNREACHED implies !shut(b, p)
        && cell(f, p) == lowest(f, p) + UNIT by {
        lemma_distance_field_cell(sources, b, p);
        lemma_steps(sources, b, p);
        let k = steps(sources, b, p)->0;
        assert(!sources.contains(p)) by {
            if sources.contains(p) {
                assert(reach(sources, b, p, 0));
            }
        }
        let j = choose|j: int|
            has_neighbor(p, j) && reach(sources, b, #[trigger] neighbor(p, j), (k - 1) as nat);
        let q = neighbor(p, j);
        lemma_neighbor_mirror(p, j);
        lemma_distance_field_cell(sources, b, q);
        lemma_steps(sources, b, q);
        let m = steps(sources, b, q)->0;
        lemma_walk_on(sources, b, p, j);
        assert(m == k - 1) by {
            if m < k - 1 {
                assert(reach(sources, b, neighbor(p, j), ((m + 1) - 1) as nat));
                assert(reach(sources, b, p, (m + 1) as nat));
            }
        }
        assert((k - 1) * UNIT + UNIT == k * UNIT) by (nonlinear_arith);
        lemma_lowest(f, p);
        if lowest(f, p) != UNREACHED {
            let i = choose|i: int|
                has_neighbor(p, i) && cell(f, #[trigger] neighbor(p, i)) == lowest(f, p);
            lemma_walk_on(sources, b, p, i);
        }
    }
}

/// One step on from a neighbour: a free point is at most one step further
/// from the sources than any of its neighbours.
pub proof fn lemma_walk_on(sources: Seq<Point>, b: Seq<bool>, p: Point, j: int)
    requires
        b.len() == CELLS,
        has_neighbor(p, j),
        !shut(b, p),
    ensures
        cell(distance_field(sources, b), p) <= cell(distance_field(sources, b), neighbor(p, j))
            + UNIT,
{
    let q = neighbor(p, j);
    lemma_neighbor_mirror(p, j);
    lemma_distance_field_cell(sources, b, p);
    lemma_distance_field_cell(sources, b, q);
    lemma_steps(sources, b, p);
    lemma_steps(sources, b, q);
    match steps(sources, b, q) {
        Some(m) => {
            assert(reach(sources, b, neighbor(p, j), ((m + 1) - 1) as nat));
            assert(reach(sources, b, p, (m + 1) as nat));
            let k = steps(sources, b, p)->0;
            assert(k <= m + 1) by {
                if m + 1 < k {
                    assert(!reach(sources, b, p, (m + 1) as nat));
                }
            }
            assert(k * UNIT <= m * UNIT + UNIT) by (nonlinear_arith)
                requires
                    k <= m + 1,
            ;
        },
        None => {},
    }
}

} // verus!
