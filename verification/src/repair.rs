//! Why the propagator yields the distance field: after a full rebuild from
//! a cleared field, and after the repair that follows a new source.

use crate::constants::{CELLS, UNIT, UNREACHED};
use crate::distance::{
    distance_field, lemma_charted_is_distance_field, lemma_distance_field_charted,
};
use crate::flood::{
    adjacent, all_in_bounds, cell, flood_result, has_neighbor, lemma_lowest,
    lemma_lowest_after_update, lemma_neighbor_mirror, lowest, neighbor, shut, Flood,
};
use crate::grid::{lemma_index_injective, Point};
use crate::progress::lemma_comes_to_rest;
use crate::wavefront::{
    awaited, bounded_below, calm, lemma_flood_result, lemma_flood_result_settled, sealed, settled,
};
use vstd::prelude::*;

verus! {

/// The field from which a rebuild starts: zero at the sources, the
/// sentinel everywhere else.
pub open spec fn seed_field(sources: Seq<Point>) -> Seq<i64> {
    Seq::new(
        CELLS as nat,
        |i: int|
            if sources.contains(crate::distance::point_of(i)) {
                0i64
            } else {
                UNREACHED
            },
    )
}

/// Where one field is nowhere above another, its lowest neighbour of a
/// point is not above the other's.
pub proof fn lemma_lowest_monotone(f: Seq<i64>, g: Seq<i64>, p: Point)
    requires
        f.len() == CELLS,
        g.len() == CELLS,
        forall|q: Point| q.in_bounds() ==> #[trigger] cell(g, q) <= cell(f, q),
    ensures
        lowest(g, p) <= lowest(f, p),
{
    lemma_lowest(f, p);
    lemma_lowest(g, p);
    if lowest(f, p) != UNREACHED {
        let k = choose|k: int|
            has_neighbor(p, k) && cell(f, #[trigger] neighbor(p, k)) == lowest(f, p);
        lemma_neighbor_mirror(p, k);
        assert(cell(g, neighbor(p, k)) <= cell(f, neighbor(p, k)));
    }
}

/// The cell of a point in the seed field.
pub proof fn lemma_seed_field_cell(sources: Seq<Point>, p: Point)
    requires
        p.in_bounds(),
    ensures
        seed_field(sources).len() == CELLS,
        cell(seed_field(sources), p) == if sources.contains(p) {
            0i64
        } else {
            UNREACHED
        },
{
    assert(crate::distance::point_of(p.index()) == p);
}

/// A full rebuild yields the distance field: the propagator, run from the
/// sources over the seed field, leaves the distance field of the sources.
pub proof fn lemma_rebuild_is_distance_field(sources: Seq<Point>, b: Seq<bool>)
    requires
        all_in_bounds(sources),
        b.len() == CELLS,
    ensures
        flood_result(seed_field(sources), sources, b) == distance_field(sources, b),
{
    let f0 = seed_field(sources);
    let f = flood_result(f0, sources, b);
    let start = Flood { field: f0, queue: Seq::empty() };
    assert forall|p: Point| p.in_bounds() implies #[trigger] cell(f0, p) >= 0 by {
        lemma_seed_field_cell(sources, p);
    }
    assert(bounded_below(f0, 0));
    assert forall|p: Point| p.in_bounds() implies #[trigger] settled(f0, b, p) || awaited(
        start,
        sources,
        p,
    ) by {
        lemma_seed_field_cell(sources, p);
        lemma_lowest(f0, p);
        if !sources.contains(p) && !shut(b, p) && lowest(f0, p) != UNREACHED {
            let k = choose|k: int|
                has_neighbor(p, k) && cell(f0, #[trigger] neighbor(p, k)) == lowest(f0, p);
            let q = neighbor(p, k);
            lemma_neighbor_mirror(p, k);
            lemma_seed_field_cell(sources, q);
            let j = choose|j: int| 0 <= j < sources.len() && sources[j] == q;
            assert(has_neighbor(q, 7 - k) && neighbor(q, 7 - k) == p);
            assert(adjacent(sources[j], p));
            assert(cell(f0, p) > cell(f0, sources[j]));
        }
    }
    assert(calm(start, b, sources));
    lemma_comes_to_rest(f0, sources, b);
    assert(sealed(Set::empty(), f0, b));
    lemma_flood_result(f0, sources, b, 0, Set::empty());
    lemma_flood_result_settled(f0, sources, b);
    assert forall|p: Point| p.in_bounds() implies (sources.contains(p) <==> #[trigger] cell(f, p)
        == 0) by {
        lemma_seed_field_cell(sources, p);
        lemma_above_zero(f, p);
        assert(cell(f, p) >= 0);
    }
    assert forall|p: Point|
        p.in_bounds() && #[trigger] cell(f, p) != 0 && cell(f, p) != UNREACHED implies !shut(b, p)
        && cell(f, p) == lowest(f, p) + UNIT by {
        lemma_seed_field_cell(sources, p);
    }
    assert forall|p: Point| p.in_bounds() implies #[trigger] cell(f, p) >= 0 by {}
    lemma_charted_is_distance_field(f, sources, b);
}

/// In a field with nothing below zero, the lowest neighbour of a point is
/// not below zero either.
pub proof fn lemma_above_zero(f: Seq<i64>, p: Point)
    requires
        bounded_below(f, 0),
    ensures
        lowest(f, p) >= 0,
{
    lemma_lowest(f, p);
    if lowest(f, p) != UNREACHED {
        let k = choose|k: int|
            has_neighbor(p, k) && cell(f, #[trigger] neighbor(p, k)) == lowest(f, p);
        lemma_neighbor_mirror(p, k);
        assert(cell(f, neighbor(p, k)) >= 0);
    }
}

/// The repair after a new source yields the distance field again: where a
/// field is the distance field of some sources, setting a further source
/// to zero and running the propagator from it alone leaves the distance
/// field of all of them.
pub proof fn lemma_repair_is_distance_field(sources: Seq<Point>, b: Seq<bool>, source: Point)
    requires
        b.len() == CELLS,
        source.in_bounds(),
    ensures
        flood_result(
            distance_field(sources, b).update(source.index(), 0),
            seq![source],
            b,
        ) == distance_field(sources.push(source), b),
{
    let old_a = distance_field(sources, b);
    let f0 = old_a.update(source.index(), 0);
    let seeds = seq![source];
    let f = flood_result(f0, seeds, b);
    let all = sources.push(source);
    let start = Flood { field: f0, queue: Seq::empty() };
    lemma_distance_field_charted(sources, b);
    assert(seeds[0] == source);
    assert(all_in_bounds(seeds));
    assert forall|p: Point| p.in_bounds() implies #[trigger] cell(f0, p) == (if p == source {
        0i64
    } else {
        cell(old_a, p)
    }) by {
        if p.index() == source.index() {
            lemma_index_injective(p, source);
        }
    }
    assert forall|p: Point| p.in_bounds() implies #[trigger] cell(f0, p) >= 0 by {
        assert(cell(old_a, p) >= 0);
    }
    assert(bounded_below(f0, 0));
    assert(cell(old_a, source) >= 0);
    assert forall|p: Point| p.in_bounds() implies #[trigger] settled(f0, b, p) || awaited(
        start,
        seeds,
        p,
    ) by {
        if p != source && !shut(b, p) {
            assert(settled(old_a, b, p));
            lemma_lowest_after_update(old_a, source, 0, p);
            if !settled(f0, b, p) {
                let k = choose|k: int| has_neighbor(source, k) && #[trigger] neighbor(source, k) == p;
                assert(adjacent(seeds[0], p));
                assert(cell(f0, p) > cell(f0, seeds[0]));
            }
        }
    }
    assert(calm(start, b, seeds));
    lemma_comes_to_rest(f0, seeds, b);
    assert(sealed(Set::empty(), f0, b));
    lemma_flood_result(f0, seeds, b, 0, Set::empty());
    lemma_flood_result_settled(f0, seeds, b);
    assert forall|p: Point| p.in_bounds() implies (all.contains(p) <==> #[trigger] cell(f, p)
        == 0) by {
        lemma_above_zero(f, p);
        assert(cell(f, p) >= 0);
        assert(cell(f, p) <= cell(f0, p));
        assert(sources.contains(p) <==> cell(old_a, p) == 0);
        if all.contains(p) {
            let j = choose|j: int| 0 <= j < all.len() && all[j] == p;
            if j < sources.len() {
                assert(sources[j] == p);
            }
        }
        if sources.contains(p) {
            let j = choose|j: int| 0 <= j < sources.len() && sources[j] == p;
            assert(all[j] == p);
        }
        assert(all[sources.len() as int] == source);
    }
    assert forall|p: Point| p.in_bounds() implies #[trigger] cell(f, p) >= 0 by {}
    assert forall|p: Point|
        p.in_bounds() && #[trigger] cell(f, p) != 0 && cell(f, p) != UNREACHED implies !shut(b, p)
        && cell(f, p) == lowest(f, p) + UNIT by {
        if cell(f, p) == cell(f0, p) {
            assert(p != source);
            assert(cell(old_a, p) != 0 && cell(old_a, p) != UNREACHED);
            assert(settled(f, b, p));
            assert forall|q: Point| q.in_bounds() implies #[trigger] cell(f, q) <= cell(
                old_a,
                q,
            ) by {
                assert(cell(f, q) <= cell(f0, q));
            }
            lemma_lowest_monotone(old_a, f, p);
        }
    }
    lemma_charted_is_distance_field(f, all, b);
}

} // verus!
