//! Laws of the heatmaps: what holds of every map that is up to date, and
//! of the operations on maps taken together.

use crate::constants::{CELLS, COWARDICE_COEFF, UNIT, UNREACHED};
use crate::dijkstra_map::{Heatmap, MapTag, Maps};
use crate::distance::{
    lemma_distance_field_cell, lemma_distance_field_charted, lemma_steps, reach,
    step_value, steps,
};
use crate::flee::{
    cast, flee_field, flee_minima, floor_upto, lemma_floor_upto, lemma_low_points_upto,
};
use crate::flood::{cell, has_neighbor, lemma_lowest, lowest, neighbor, shut};
use crate::grid::Point;
use crate::mobiles::ai::{
    attempt, best_upto, decision, heatmap_choice, nearby_from, path_step, score,
    sight_from, source_seen, task_step, term, wanted, Sight,
};
use crate::mobiles::{Mobile, Mobs};
use crate::progress::lemma_comes_to_rest;
use crate::types::World;
use crate::utils::sees;
use crate::wavefront::{bounded_below, lemma_flood_result, sealed};
use vstd::prelude::*;

verus! {

/// Distance correctness. In a map that is up to date every source holds
/// zero; every cell that a walk from a source reaches holds `UNIT` times
/// the least number of steps of such a walk (the sentinel standing for
/// what does not fit below it); and every other cell holds the sentinel.
pub proof fn lemma_distance_correct(map: Heatmap, world: &World, p: Point)
    requires
        map.is_current(world),
        p.in_bounds(),
    ensures
        map.sources@.contains(p) ==> map.approach.value(p) == 0,
        match steps(map.sources@, world.obstructions(), p) {
            Some(k) => {
                &&& reach(map.sources@, world.obstructions(), p, k)
                &&& forall|j: nat| j < k ==> !reach(map.sources@, world.obstructions(), p, j)
                &&& map.approach.value(p) == step_value(k)
            },
            None => {
                &&& forall|k: nat| !reach(map.sources@, world.obstructions(), p, k)
                &&& map.approach.value(p) == UNREACHED
            },
        },
{
    let b = world.obstructions();
    lemma_distance_field_cell(map.sources@, b, p);
    lemma_steps(map.sources@, b, p);
    lemma_distance_field_charted(map.sources@, b);
    assert(map.approach.value(p) == cell(map.approach@, p));
}

/// Monotonic neighbours of the approach map. In a map that is up to date
/// every cell that is no source and holds less than the sentinel has a
/// neighbour that holds exactly one step less.
pub proof fn lemma_approach_descends(map: Heatmap, world: &World, p: Point)
    requires
        map.is_current(world),
        p.in_bounds(),
        !map.sources@.contains(p),
        map.approach.value(p) != UNREACHED,
    ensures
        exists|k: int|
            has_neighbor(p, k) && map.approach.value(#[trigger] neighbor(p, k))
                == map.approach.value(p) - UNIT,
{
    let b = world.obstructions();
    let f = map.approach@;
    lemma_distance_field_charted(map.sources@, b);
    assert(cell(f, p) != 0);
    assert(cell(f, p) == lowest(f, p) + UNIT);
    lemma_lowest(f, p);
    let k = choose|k: int| has_neighbor(p, k) && cell(f, #[trigger] neighbor(p, k)) == lowest(f, p);
    assert(map.approach.value(neighbor(p, k)) == cell(f, neighbor(p, k)));
}

/// Monotonic neighbours of the flee maps. A flee field is nowhere above
/// the scaled approach field; a blocked cell holds its scaled value; and
/// every cell that holds less than its scaled value has a neighbour that
/// holds exactly one step less.
pub proof fn lemma_flee_descends(approach: Seq<i64>, coeff: i64, b: Seq<bool>, p: Point)
    requires
        approach.len() == CELLS,
        b.len() == CELLS,
        p.in_bounds(),
    ensures
        cell(flee_field(approach, coeff, b), p) <= cell(cast(approach, coeff), p),
        shut(b, p) ==> cell(flee_field(approach, coeff, b), p) == cell(cast(approach, coeff), p),
        cell(flee_field(approach, coeff, b), p) != cell(cast(approach, coeff), p) ==> exists|
            k: int,
        |
            has_neighbor(p, k) && cell(flee_field(approach, coeff, b), #[trigger] neighbor(p, k))
                == cell(flee_field(approach, coeff, b), p) - UNIT,
{
    let raw = cast(approach, coeff);
    let seeds = flee_minima(approach);
    let f = flee_field(approach, coeff, b);
    let low = floor_upto(approach, cast(approach, COWARDICE_COEFF), CELLS as int);
    lemma_low_points_upto(approach, cast(approach, COWARDICE_COEFF), CELLS as int, low);
    lemma_comes_to_rest(raw, seeds, b);
    assert(bounded_below(raw, i64::MIN as int));
    assert(sealed(Set::empty(), raw, b));
    lemma_flood_result(raw, seeds, b, i64::MIN as int, Set::empty());
    if cell(f, p) != cell(raw, p) {
        lemma_lowest(f, p);
        assert(cell(f, p) == lowest(f, p) + UNIT);
        let k = choose|k: int|
            has_neighbor(p, k) && cell(f, #[trigger] neighbor(p, k)) == lowest(f, p);
    }
}

/// The anchors of the cowardly flee map. The cells from which the flee
/// maps are smoothed keep their scaled value in the cowardly map, and no
/// cell of that map holds less than they do.
pub proof fn lemma_flee_anchored(approach: Seq<i64>, b: Seq<bool>, i: int, q: Point)
    requires
        approach.len() == CELLS,
        b.len() == CELLS,
        0 <= i < flee_minima(approach).len(),
        q.in_bounds(),
    ensures
        flee_minima(approach)[i].in_bounds(),
        cell(flee_field(approach, COWARDICE_COEFF, b), flee_minima(approach)[i]) == cell(
            cast(approach, COWARDICE_COEFF),
            flee_minima(approach)[i],
        ),
        cell(flee_field(approach, COWARDICE_COEFF, b), q) >= cell(
            flee_field(approach, COWARDICE_COEFF, b),
            flee_minima(approach)[i],
        ),
{
    let raw = cast(approach, COWARDICE_COEFF);
    let seeds = flee_minima(approach);
    let f = flee_field(approach, COWARDICE_COEFF, b);
    let low = floor_upto(approach, raw, CELLS as int);
    let anchor = seeds[i];
    lemma_low_points_upto(approach, raw, CELLS as int, low);
    assert(cell(raw, anchor) == low);
    assert forall|x: Point| x.in_bounds() implies #[trigger] cell(raw, x) >= low by {
        if approach[x.index()] != UNREACHED {
            lemma_floor_upto(approach, raw, CELLS as int, x.index());
        }
    }
    assert(bounded_below(raw, low as int));
    lemma_comes_to_rest(raw, seeds, b);
    assert(sealed(Set::empty(), raw, b));
    lemma_flood_result(raw, seeds, b, low as int, Set::empty());
    assert(cell(f, anchor) >= low);
    assert(cell(f, anchor) <= cell(raw, anchor));
    assert(cell(f, q) >= low);
}

/// Idempotence. The maps that a rebuild leaves depend on the sources and
/// the world alone: two maps that are up to date with the same sources in
/// the same world hold the same fields, so a second rebuild changes
/// nothing.
pub proof fn lemma_rebuild_idempotent(first: Heatmap, second: Heatmap, world: &World)
    requires
        first.is_current(world),
        second.is_current(world),
        first.sources@ == second.sources@,
    ensures
        first.approach@ == second.approach@,
        first.flee_cowardly@ == second.flee_cowardly@,
        first.flee_bravely@ == second.flee_bravely@,
{
}

/// Taking away all occurrences of a point that was just added to a list
/// in which it did not occur gives the list back.
pub proof fn lemma_push_then_filter(s: Seq<Point>, c: Point)
    requires
        !s.contains(c),
    ensures
        s.push(c).filter(|x: Point| x != c) == s,
    decreases s.len(),
{
    reveal(Seq::filter);
    let keep = |x: Point| x != c;
    assert(s.push(c).drop_last() == s);
    lemma_filter_keeps(s, c);
}

/// Taking away all occurrences of a point from a list in which it does
/// not occur changes nothing.
pub proof fn lemma_filter_keeps(s: Seq<Point>, c: Point)
    requires
        !s.contains(c),
    ensures
        s.filter(|x: Point| x != c) == s,
    decreases s.len(),
{
    reveal(Seq::filter);
    if s.len() > 0 {
        assert(s.last() == s[s.len() - 1]);
        assert forall|x: Point| s.drop_last().contains(x) implies s.contains(x) by {
            let j = choose|j: int| 0 <= j < s.drop_last().len() && s.drop_last()[j] == x;
            assert(s[j] == x);
        }
        lemma_filter_keeps(s.drop_last(), c);
        assert(s.drop_last().push(s.last()) == s);
    }
}

/// Add/remove symmetry. Where a map is up to date and a point is not among
/// its sources, adding the point as a source and then removing it gives
/// the map its sources and all its fields back.
pub proof fn lemma_add_remove_symmetry(
    before: Heatmap,
    added: Heatmap,
    removed: Heatmap,
    world: &World,
    c: Point,
)
    requires
        before.is_current(world),
        !before.sources@.contains(c),
        added.sources@ == before.sources@.push(c),
        removed.sources@ == added.sources@.filter(|s: Point| s != c),
        removed.is_current(world),
    ensures
        removed.sources@ == before.sources@,
        removed.approach@ == before.approach@,
        removed.flee_cowardly@ == before.flee_cowardly@,
        removed.flee_bravely@ == before.flee_bravely@,
{
    lemma_push_then_filter(before.sources@, c);
}

/// Whether two registries of maps hold the same sources and the same
/// fields for every tag.
pub open spec fn same_maps(a: &Maps, b: &Maps) -> bool {
    forall|tag: MapTag|
        {
            &&& (#[trigger] a.map_of(tag)).sources@ == b.map_of(tag).sources@
            &&& a.map_of(tag).approach@ == b.map_of(tag).approach@
            &&& a.map_of(tag).flee_cowardly@ == b.map_of(tag).flee_cowardly@
            &&& a.map_of(tag).flee_bravely@ == b.map_of(tag).flee_bravely@
        }
}

/// Two worlds with the same statics show the same from every position.
pub proof fn lemma_same_sight(pos: Point, a: &Maps, b: &Maps, v: &World, w: &World)
    requires
        same_maps(a, b),
        v.statics@ == w.statics@,
    ensures
        sight_from(pos, a, v) == sight_from(pos, b, w),
{
    assert forall|tag: MapTag| source_seen(pos, #[trigger] a.map_of(tag), v) == source_seen(
        pos,
        b.map_of(tag),
        w,
    ) by {
        let m = a.map_of(tag);
        let n = b.map_of(tag);
        assert(m.sources@ == n.sources@);
        assert forall|end: Point| sees(pos, end, v) == sees(pos, end, w) by {}
        if source_seen(pos, m, v) {
            let i = choose|i: int| 0 <= i < m.sources@.len() && sees(pos, #[trigger] m.sources@[i], v);
            assert(sees(pos, n.sources@[i], w));
        }
        if source_seen(pos, n, w) {
            let i = choose|i: int| 0 <= i < n.sources@.len() && sees(pos, #[trigger] n.sources@[i], w);
            assert(sees(pos, m.sources@[i], v));
        }
    }
    assert(a.map_of(MapTag::Adventure) == a.adventure);
    assert(a.map_of(MapTag::GeneralStore) == a.general_store);
    assert(a.map_of(MapTag::Rest) == a.rest);
    assert(a.map_of(MapTag::Sustenance) == a.sustenance);
    assert(b.map_of(MapTag::Adventure) == b.adventure);
    assert(b.map_of(MapTag::GeneralStore) == b.general_store);
    assert(b.map_of(MapTag::Rest) == b.rest);
    assert(b.map_of(MapTag::Sustenance) == b.sustenance);
}

/// The same maps give every point the same score.
pub proof fn lemma_same_score(mob: Mobile, a: &Maps, b: &Maps, sight: Sight, q: Point)
    requires
        same_maps(a, b),
    ensures
        score(mob, a, sight, q) == score(mob, b, sight, q),
{
    assert forall|tag: MapTag| term(mob, a, sight, tag, q) == term(mob, b, sight, tag, q) by {
        assert(a.map_of(tag).approach@ == b.map_of(tag).approach@);
    }
}

/// The same maps have the same best cell round every point.
pub proof fn lemma_same_best(mob: Mobile, a: &Maps, b: &Maps, sight: Sight, pos: Point, k: int)
    requires
        same_maps(a, b),
    ensures
        best_upto(mob, a, sight, pos, k) == best_upto(mob, b, sight, pos, k),
    decreases k,
{
    if k > 0 {
        lemma_same_best(mob, a, b, sight, pos, k - 1);
        lemma_same_score(mob, a, b, sight, crate::mobiles::ai::spot(pos, k - 1));
    }
}

/// The same maps show the same wanted things nearby.
pub proof fn lemma_same_nearby(mob: Mobile, a: &Maps, b: &Maps, pos: Point, k: int)
    requires
        same_maps(a, b),
    ensures
        nearby_from(mob, a, pos, k) == nearby_from(mob, b, pos, k),
    decreases 9 - k,
{
    if k < 9 {
        lemma_same_nearby(mob, a, b, pos, k + 1);
        let q = crate::mobiles::ai::spot(pos, k);
        assert(wanted(mob, a, q) == wanted(mob, b, q)) by {
            assert forall|tag: MapTag|
                crate::mobiles::ai::wants(mob, a, tag, q) == crate::mobiles::ai::wants(
                    mob,
                    b,
                    tag,
                    q,
                ) by {
                assert(a.map_of(tag).approach@ == b.map_of(tag).approach@);
            }
        }
    }
}

/// Determinism. What a mob does depends on the mob, its position, where
/// the other mobiles stand, the sources and fields of the maps and the
/// statics of the world, and on nothing else: the same of each gives the
/// same action.
pub proof fn lemma_decision_determined(
    mob: Mobile,
    pos: Point,
    mobs: &Mobs,
    others: &Mobs,
    a: &Maps,
    b: &Maps,
    v: &World,
    w: &World,
)
    requires
        mobs@ == others@,
        same_maps(a, b),
        v.statics@ == w.statics@,
    ensures
        decision(mob, pos, mobs, a, v) == decision(mob, pos, others, b, w),
{
    lemma_same_nearby(mob, a, b, pos, 0);
    assert(v.obstructions() =~= w.obstructions());
    assert forall|target: Point| path_step(pos, v, target) == path_step(pos, w, target) by {}
    assert(task_step(mob, pos, v) == task_step(mob, pos, w));
    lemma_same_sight(pos, a, b, v, w);
    lemma_same_best(mob, a, b, sight_from(pos, a, v), pos, 9);
    assert(heatmap_choice(mob, a, v, pos) == heatmap_choice(mob, b, w, pos));
    assert forall|q: Point|
        attempt(mob, mobs, a, v, q) == attempt(mob, others, b, w, q) by {
        lemma_same_sight(q, a, b, v, w);
        lemma_same_best(mob, a, b, sight_from(q, a, v), q, 9);
    }
}

} // verus!
