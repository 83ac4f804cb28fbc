//! Dijkstra maps.

use crate::constants::{BRAVERY_COEFF, CELLS, COWARDICE_COEFF, HEIGHT, UNIT, UNREACHED, WIDTH};
use crate::distance::{distance_field, lemma_point_of, point_of};
use crate::flee::{
    blank, cast, flee_field, floor_upto, lemma_low_points_none,
    lemma_low_points_upto, low_points_upto, scaled,
};
use crate::flood::{
    all_in_bounds, cell, drained, flood_result, has_neighbor, lowest,
    lowest_upto, neighbor, seeded, spread, visit, Flood,
};
use crate::grid::{Grid, Point};
use crate::progress::{backlog, lemma_turn_progress, weight};
use crate::repair::{lemma_rebuild_is_distance_field, lemma_repair_is_distance_field, seed_field};
use crate::types::World;
use crate::utils::signed_add;
use crate::wavefront::{
    comes_to_rest, kept, lemma_flood_result, lemma_flood_result_is, lemma_seeded_kept,
    lemma_turn_kept, lemma_visit_kept,
};
use std::collections::VecDeque;
use vstd::prelude::*;

verus! {

/// Symbolic names for the different maps.
#[derive(Clone, Copy, Debug, PartialEq, Eq, PartialOrd, Ord, Structural)]
pub enum MapTag {
    /// Places offering adventure, such as the dungeon entrance.
    Adventure,
    /// Stores, every store sells every type of thing currently.
    GeneralStore,
    /// Places to rest, such as inns.
    Rest,
    /// Sources of food and drink, such as inns.
    Sustenance,
}

/// The `k`-th neighbour of a point in scan order, unless it is off the map.
pub fn neighbor_at(pos: Point, k: usize) -> (r: Option<Point>)
    requires
        pos.in_bounds(),
        k < 8,
    ensures
        r is Some <==> has_neighbor(pos, k as int),
        r is Some ==> r->0 == neighbor(pos, k as int),
{
    let dx: i8 = if k == 0 || k == 3 || k == 5 {
        -1
    } else if k == 1 || k == 6 {
        0
    } else {
        1
    };
    let dy: i8 = if k <= 2 {
        -1
    } else if k <= 4 {
        0
    } else {
        1
    };
    if (dy < 0 && pos.y == 0) || (dy > 0 && pos.y == HEIGHT - 1) || (dx < 0 && pos.x == 0) || (dx
        > 0 && pos.x == WIDTH - 1) {
        None
    } else {
        Some(Point { x: signed_add(pos.x, dx), y: signed_add(pos.y, dy) })
    }
}

/// The lowest value among the neighbours of a point.
fn lowest_neighbor(map: &Grid<i64>, pos: Point) -> (m: i64)
    requires
        pos.in_bounds(),
    ensures
        m == lowest(map@, pos),
{
    let mut local_min: i64 = UNREACHED;
    let mut k: usize = 0;
    while k < 8
        invariant
            k <= 8,
            pos.in_bounds(),
            local_min == lowest_upto(map@, pos, k as int),
        decreases 8 - k,
    {
        match neighbor_at(pos, k) {
            Some(q) => {
                let here = map.at(q);
                if here < local_min {
                    local_min = here;
                }
            },
            None => {},
        }
        k = k + 1;
    }
    local_min
}

/// Put every neighbour that takes the wave from a point at the back of the
/// queue.
fn spread_wave(map: &Grid<i64>, queue: &mut VecDeque<Point>, world: &World, pos: Point)
    requires
        pos.in_bounds(),
    ensures
        final(queue)@ == spread(old(queue)@, map@, world.obstructions(), pos, 8),
{
    let here = map.at(pos);
    let mut k: usize = 0;
    while k < 8
        invariant
            k <= 8,
            pos.in_bounds(),
            here == cell(map@, pos),
            queue@ == spread(old(queue)@, map@, world.obstructions(), pos, k as int),
        decreases 8 - k,
    {
        match neighbor_at(pos, k) {
            Some(p) => {
                proof {
                    world.lemma_obstructions();
                }
                if map.at(p) > here && !world.is_impassable(p) {
                    queue.push_back(p);
                }
            },
            None => {},
        }
        k = k + 1;
    }
}

/// Visit one point: unless it is blocked, lower it to one step above its
/// lowest neighbour if that is less than it holds; then, if it was lowered,
/// holds zero or is a seed, pass the wave on to its neighbours.
fn visit_point(
    map: &mut Grid<i64>,
    queue: &mut VecDeque<Point>,
    world: &World,
    pos: Point,
    forced: bool,
)
    requires
        pos.in_bounds(),
    ensures
        (Flood { field: final(map)@, queue: final(queue)@ }) == visit(
            Flood { field: old(map)@, queue: old(queue)@ },
            world.obstructions(),
            pos,
            forced,
        ),
{
    proof {
        world.lemma_obstructions();
    }
    let val = map.at(pos);
    let mut lowered = false;
    if !world.is_impassable(pos) {
        let local_min = lowest_neighbor(map, pos);
        let my_min: i64 = if local_min > UNREACHED - UNIT {
            UNREACHED
        } else {
            local_min + UNIT
        };
        if my_min < val {
            map.set(pos, my_min);
            lowered = true;
        }
    }
    if forced || lowered || val == 0 {
        spread_wave(map, queue, world, pos);
    }
}

/// Flood fill out from some points. When considering a point, this behaves
/// as follows:
/// - If the point is impassable, it keeps its current value.
/// - If the point is passable, it is assigned the value 1+cheapest
///   neighbour, where that is less than it holds.
/// - Where that lowered it, or it holds zero, or it is one of the points
///   given, the neighbours that hold more than it are considered in turn.
///
/// This function assumes that the points given are the global minima; it
/// leaves a field that no longer improves anywhere only where every point
/// that can be improved is among them or next to one of them.
pub fn flood_fill(map: &mut Grid<i64>, minima: &Vec<Point>, world: &World)
    requires
        all_in_bounds(minima@),
    ensures
        comes_to_rest(old(map)@, minima@, world.obstructions()),
        final(map)@ == flood_result(old(map)@, minima@, world.obstructions()),
        forall|p: Point| p.in_bounds() ==> #[trigger] final(map).value(p) <= old(map).value(p),
        forall|p: Point|
            p.in_bounds() && world.impassable(p) ==> #[trigger] final(map).value(p)
                == old(map).value(p),
        forall|p: Point|
            p.in_bounds() && #[trigger] final(map).value(p) != old(map).value(p)
                ==> final(map).value(p) == lowest(final(map)@, p) + UNIT,
{
    let ghost f0 = map@;
    let ghost b = world.obstructions();
    let ghost low = i64::MIN as int;
    let ghost none = Set::<Point>::empty();
    proof {
        use_type_invariant(&*map);
        world.lemma_obstructions();
        lemma_seeded_kept(f0, minima@, b, 0, low, none);
    }
    let mut queue: VecDeque<Point> = VecDeque::with_capacity(WIDTH * HEIGHT / 2);
    let mut i: usize = 0;
    while i < minima.len()
        invariant
            i <= minima.len(),
            all_in_bounds(minima@),
            b == world.obstructions(),
            (Flood { field: map@, queue: queue@ }) == seeded(f0, minima@, b, i as int),
            kept(f0, seeded(f0, minima@, b, i as int), b, low, none),
        decreases minima.len() - i,
    {
        proof {
            lemma_visit_kept(f0, seeded(f0, minima@, b, i as int), b, minima@[i as int], true, low, none);
        }
        visit_point(map, &mut queue, world, minima[i], true);
        i = i + 1;
    }
    let ghost start = seeded(f0, minima@, b, minima@.len() as int);
    let ghost mut n: nat = 0;
    while queue.len() > 0
        invariant
            b == world.obstructions(),
            (Flood { field: map@, queue: queue@ }) == drained(start, b, n),
            kept(f0, drained(start, b, n), b, low, none),
        decreases weight(map@), backlog(queue@, map@),
    {
        proof {
            let s = drained(start, b, n);
            lemma_turn_kept(f0, s, b, low, none);
            lemma_turn_progress(s, b);
            assert(queue@.subrange(1, queue@.len() as int) == queue@.drop_first());
        }
        match queue.pop_front() {
            Some(pos) => {
                visit_point(map, &mut queue, world, pos, false);
            },
            None => {},
        }
        proof {
            n = n + 1;
        }
    }
    proof {
        lemma_flood_result_is(f0, minima@, b, n);
        lemma_flood_result(f0, minima@, b, low, none);
        assert forall|p: Point| p.in_bounds() implies #[trigger] map.value(p) <= cell(f0, p) && (
        world.impassable(p) ==> map.value(p) == cell(f0, p)) && (map.value(p) != cell(f0, p)
            ==> map.value(p) == lowest(map@, p) + UNIT) by {
            assert(map.value(p) == cell(map@, p));
        }
    }
}

/// A value times a coefficient given in tenths.
fn scale(v: i64, coeff: i64) -> (r: i64)
    ensures
        r == scaled(v, coeff),
{
    assert(-0x4000_0000_0000_0000_0000_0000_0000_0000 <= v * coeff
        <= 0x4000_0000_0000_0000_0000_0000_0000_0000) by (nonlinear_arith)
        requires
            -0x8000_0000_0000_0000 <= v <= 0x7fff_ffff_ffff_ffff,
            -0x8000_0000_0000_0000 <= coeff <= 0x7fff_ffff_ffff_ffff,
    ;
    let product: i128 = (v as i128) * (coeff as i128);
    let quotient: i128 = if product >= 0 {
        product / 10
    } else {
        -((-product) / 10)
    };
    if quotient > 0x7fff_ffff_ffff_ffff {
        i64::MAX
    } else if quotient < -0x8000_0000_0000_0000 {
        i64::MIN
    } else {
        quotient as i64
    }
}

/// A Dijkstra map, or heatmap.
pub struct Heatmap {
    /// The sources (the global minima of the approach map).
    pub sources: Vec<Point>,
    /// Dijkstra map for approaching.
    pub approach: Grid<i64>,
    /// Dijkstra map for fleeing, where the fleeing creature in question is
    /// not willing to take many risks to escape. This is the approaching map
    /// multiplied by a negative coefficient and rescanned to smooth out
    /// corners and the like.
    pub flee_cowardly: Grid<i64>,
    /// Dijkstra map for fleeing, where the fleeing creature in question is
    /// willing to take more risks to escape. This is the approaching map
    /// multiplied by a negative coefficient and rescanned to smooth out
    /// corners and the like.
    pub flee_bravely: Grid<i64>,
}

impl Heatmap {
    /// Whether every source lies on the map.
    pub open spec fn wf(&self) -> bool {
        all_in_bounds(self.sources@)
    }

    /// Whether both flee maps are what the approach map makes them in this
    /// world.
    pub open spec fn flees_current(&self, world: &World) -> bool {
        &&& self.flee_cowardly@ == flee_field(
            self.approach@,
            COWARDICE_COEFF,
            world.obstructions(),
        )
        &&& self.flee_bravely@ == flee_field(self.approach@, BRAVERY_COEFF, world.obstructions())
    }

    /// Whether the map is up to date with its sources and the world: the
    /// approach map is the distance field of the sources, and the flee maps
    /// are its flee fields.
    pub open spec fn is_current(&self, world: &World) -> bool {
        &&& self.approach@ == distance_field(self.sources@, world.obstructions())
        &&& self.flees_current(world)
    }

    /// A new empty map.
    pub fn new() -> (m: Heatmap)
        ensures
            m.sources@ == Seq::<Point>::empty(),
            m.approach@ == blank(),
            m.flee_cowardly@ == blank(),
            m.flee_bravely@ == blank(),
    {
        Heatmap {
            sources: Vec::new(),
            approach: Grid::new(UNREACHED),
            flee_cowardly: Grid::new(UNREACHED),
            flee_bravely: Grid::new(UNREACHED),
        }
    }

    /// Add a new source to the map: the approach map is repaired by a flood
    /// from the new source alone, then both flee maps are recomputed. Where
    /// the map was up to date before, it is up to date again.
    pub fn add_source(&mut self, source: Point, world: &World)
        requires
            old(self).wf(),
            source.in_bounds(),
        ensures
            final(self).sources@ == old(self).sources@.push(source),
            final(self).approach@ == flood_result(
                old(self).approach@.update(source.index(), 0),
                seq![source],
                world.obstructions(),
            ),
            final(self).flees_current(world),
            old(self).approach@ == distance_field(old(self).sources@, world.obstructions())
                ==> final(self).is_current(world),
            final(self).wf(),
    {
        self.add_source_no_rebuild(source);

        // Set the point to zero weighting and flood fill from that point.
        self.approach.set(source, 0);
        let seeds: Vec<Point> = vec![source];
        assert(seeds@ == seq![source]);
        flood_fill(&mut self.approach, &seeds, world);

        // Then completely recompute the flee maps.
        self.recompute_flee(world);
        proof {
            world.lemma_obstructions();
            if old(self).approach@ == distance_field(old(self).sources@, world.obstructions()) {
                lemma_repair_is_distance_field(old(self).sources@, world.obstructions(), source);
            }
        }
    }

    /// Add a new source to the map without rebuilding.
    pub fn add_source_no_rebuild(&mut self, source: Point)
        requires
            old(self).wf(),
            source.in_bounds(),
        ensures
            final(self).sources@ == old(self).sources@.push(source),
            final(self).approach == old(self).approach,
            final(self).flee_cowardly == old(self).flee_cowardly,
            final(self).flee_bravely == old(self).flee_bravely,
            final(self).wf(),
    {
        self.sources.push(source);
    }

    /// Remove a source from the map, wherever it stands among the sources,
    /// and rebuild the map in full.
    pub fn remove_source(&mut self, source: Point, world: &World)
        requires
            old(self).wf(),
        ensures
            final(self).sources@ == old(self).sources@.filter(|s: Point| s != source),
            final(self).is_current(world),
            final(self).wf(),
    {
        self.remove_source_no_rebuild(source);
        self.rebuild_from_sources(world);
    }

    /// Remove source from the map without rebuilding.
    pub fn remove_source_no_rebuild(&mut self, source: Point)
        requires
            old(self).wf(),
        ensures
            final(self).sources@ == old(self).sources@.filter(|s: Point| s != source),
            final(self).approach == old(self).approach,
            final(self).flee_cowardly == old(self).flee_cowardly,
            final(self).flee_bravely == old(self).flee_bravely,
            final(self).wf(),
    {
        let ghost keep = |s: Point| s != source;
        let ghost before = self.sources@;
        let mut kept: Vec<Point> = Vec::new();
        let mut i: usize = 0;
        proof {
            reveal(Seq::filter);
            assert(before.subrange(0, 0) == Seq::<Point>::empty());
        }
        while i < self.sources.len()
            invariant
                i <= self.sources.len(),
                self.sources@ == before,
                all_in_bounds(before),
                all_in_bounds(kept@),
                keep == |s: Point| s != source,
                kept@ == before.subrange(0, i as int).filter(keep),
            decreases self.sources.len() - i,
        {
            let s = self.sources[i];
            proof {
                reveal(Seq::filter);
                assert(before.subrange(0, i + 1).drop_last() == before.subrange(0, i as int));
            }
            if s != source {
                kept.push(s);
            }
            i = i + 1;
        }
        proof {
            assert(before.subrange(0, before.len() as int) == before);
        }
        self.sources = kept;
    }

    /// Recompute the map. This should be called when new obstructions are
    /// added: all three maps are cleared, the sources are set to zero, the
    /// approach map is flooded from all of them, and the flee maps are
    /// recomputed.
    pub fn rebuild_from_sources(&mut self, world: &World)
        requires
            old(self).wf(),
        ensures
            final(self).sources == old(self).sources,
            final(self).is_current(world),
    {
        // Reset the weights.
        proof {
            use_type_invariant(&self.approach);
        }
        let mut y: usize = 0;
        while y < HEIGHT
            invariant
                y <= HEIGHT,
                self.sources == old(self).sources,
                self.approach@.len() == CELLS,
                forall|i: int| 0 <= i < y * WIDTH ==> self.approach@[i] == UNREACHED,
            decreases HEIGHT - y,
        {
            let mut x: usize = 0;
            while x < WIDTH
                invariant
                    y < HEIGHT,
                    x <= WIDTH,
                    self.sources == old(self).sources,
                    self.approach@.len() == CELLS,
                    forall|i: int| 0 <= i < y * WIDTH + x ==> self.approach@[i] == UNREACHED,
                decreases WIDTH - x,
            {
                let p = Point { x: x, y: y };
                self.approach.set(p, UNREACHED);
                self.flee_cowardly.set(p, UNREACHED);
                self.flee_bravely.set(p, UNREACHED);
                x = x + 1;
            }
            y = y + 1;
        }

        // Make the goals all global minima.
        let ghost sources = self.sources@;
        let mut j: usize = 0;
        while j < self.sources.len()
            invariant
                j <= self.sources.len(),
                self.sources == old(self).sources,
                sources == self.sources@,
                all_in_bounds(sources),
                self.approach@.len() == CELLS,
                forall|i: int|
                    0 <= i < CELLS ==> #[trigger] self.approach@[i] == (if sources.subrange(
                        0,
                        j as int,
                    ).contains(point_of(i)) {
                        0i64
                    } else {
                        UNREACHED
                    }),
            decreases self.sources.len() - j,
        {
            let source = self.sources[j];
            self.approach.set(source, 0);
            proof {
                let done = sources.subrange(0, j as int);
                let more = sources.subrange(0, j + 1);
                assert(more[j as int] == source);
                assert forall|i: int| 0 <= i < CELLS implies #[trigger] self.approach@[i] == (
                if more.contains(point_of(i)) {
                    0i64
                } else {
                    UNREACHED
                }) by {
                    lemma_point_of(i);
                    if done.contains(point_of(i)) {
                        let k = choose|k: int| 0 <= k < done.len() && done[k] == point_of(i);
                        assert(more[k] == point_of(i));
                    }
                    if more.contains(point_of(i)) && point_of(i) != source {
                        let k = choose|k: int| 0 <= k < more.len() && more[k] == point_of(i);
                        assert(done[k] == point_of(i));
                    }
                }
            }
            j = j + 1;
        }
        proof {
            use_type_invariant(&self.approach);
            assert(sources.subrange(0, sources.len() as int) == sources);
            assert(self.approach@ =~= seed_field(sources));
            world.lemma_obstructions();
            lemma_rebuild_is_distance_field(sources, world.obstructions());
        }

        // Fill in the rest of the approach map.
        flood_fill(&mut self.approach, &self.sources, world);

        // Compute the fleeing maps and find their global minima.
        self.recompute_flee(world);
    }

    /// Recompute the fleeing maps: scale the approach map into both, note
    /// every cell where the cowardly map comes out lowest, and smooth both
    /// maps by flood filling from these cells.
    fn recompute_flee(&mut self, world: &World)
        ensures
            final(self).sources == old(self).sources,
            final(self).approach == old(self).approach,
            final(self).flees_current(world),
    {
        let ghost a = self.approach@;
        let ghost raw = cast(a, COWARDICE_COEFF);
        let ghost raw_brave = cast(a, BRAVERY_COEFF);
        let mut minima: Vec<Point> = Vec::new();
        let mut minimal: i64 = UNREACHED;
        proof {
            use_type_invariant(&self.approach);
            use_type_invariant(&self.flee_cowardly);
            use_type_invariant(&self.flee_bravely);
        }
        let mut y: usize = 0;
        while y < HEIGHT
            invariant
                y <= HEIGHT,
                a.len() == CELLS,
                self.flee_cowardly@.len() == CELLS,
                self.flee_bravely@.len() == CELLS,
                self.sources == old(self).sources,
                self.approach == old(self).approach,
                a == self.approach@,
                raw == cast(a, COWARDICE_COEFF),
                raw_brave == cast(a, BRAVERY_COEFF),
                forall|i: int| 0 <= i < y * WIDTH ==> self.flee_cowardly@[i] == raw[i],
                forall|i: int| 0 <= i < y * WIDTH ==> self.flee_bravely@[i] == raw_brave[i],
                minimal == floor_upto(a, raw, y * WIDTH),
                minima@ == low_points_upto(a, raw, y * WIDTH, minimal),
            decreases HEIGHT - y,
        {
            let mut x: usize = 0;
            while x < WIDTH
                invariant
                    y < HEIGHT,
                    x <= WIDTH,
                    a.len() == CELLS,
                    self.flee_cowardly@.len() == CELLS,
                    self.flee_bravely@.len() == CELLS,
                    self.sources == old(self).sources,
                    self.approach == old(self).approach,
                    a == self.approach@,
                    raw == cast(a, COWARDICE_COEFF),
                    raw_brave == cast(a, BRAVERY_COEFF),
                    forall|i: int| 0 <= i < y * WIDTH + x ==> self.flee_cowardly@[i] == raw[i],
                    forall|i: int| 0 <= i < y * WIDTH + x ==> self.flee_bravely@[i] == raw_brave[i],
                    minimal == floor_upto(a, raw, y * WIDTH + x),
                    minima@ == low_points_upto(a, raw, y * WIDTH + x, minimal),
                decreases WIDTH - x,
            {
                let p = Point { x: x, y: y };
                let ghost i = y * WIDTH + x;
                proof {
                    assert(point_of(i) == p);
                }
                let here = self.approach.at(p);
                if here != UNREACHED {
                    self.flee_cowardly.set(p, scale(here, COWARDICE_COEFF));
                    self.flee_bravely.set(p, scale(here, BRAVERY_COEFF));

                    let flee = self.flee_cowardly.at(p);
                    if flee == minimal {
                        minima.push(p);
                    } else if flee < minimal {
                        proof {
                            lemma_low_points_none(a, raw, i, flee);
                        }
                        minima = vec![p];
                        minimal = flee;
                        assert(minima@ == Seq::<Point>::empty().push(p));
                    }
                } else {
                    self.flee_cowardly.set(p, UNREACHED);
                    self.flee_bravely.set(p, UNREACHED);
                }
                x = x + 1;
            }
            y = y + 1;
        }
        proof {
            use_type_invariant(&self.flee_cowardly);
            use_type_invariant(&self.flee_bravely);
            assert(self.flee_cowardly@ =~= raw);
            assert(self.flee_bravely@ =~= raw_brave);
            lemma_low_points_upto(a, raw, CELLS as int, minimal);
        }

        // Smooth the fleeing maps by flood filling from their minima.
        flood_fill(&mut self.flee_cowardly, &minima, world);
        flood_fill(&mut self.flee_bravely, &minima, world);
    }
}

/// The collection of all Dijkstra maps: one for every tag.
pub struct Maps {
    /// Places offering adventure, such as the dungeon entrance.
    pub adventure: Heatmap,
    /// Stores, every store sells every type of thing currently.
    pub general_store: Heatmap,
    /// Places to rest, such as inns.
    pub rest: Heatmap,
    /// Sources of food and drink, such as inns.
    pub sustenance: Heatmap,
}

impl Maps {
    /// The map that belongs to a tag.
    pub open spec fn map_of(&self, tag: MapTag) -> Heatmap {
        match tag {
            MapTag::Adventure => self.adventure,
            MapTag::GeneralStore => self.general_store,
            MapTag::Rest => self.rest,
            MapTag::Sustenance => self.sustenance,
        }
    }

    /// These maps with the one of a tag replaced.
    pub open spec fn with_map(&self, tag: MapTag, map: Heatmap) -> Maps {
        match tag {
            MapTag::Adventure => Maps { adventure: map, ..*self },
            MapTag::GeneralStore => Maps { general_store: map, ..*self },
            MapTag::Rest => Maps { rest: map, ..*self },
            MapTag::Sustenance => Maps { sustenance: map, ..*self },
        }
    }

    /// Whether the sources of every map lie on the map.
    pub open spec fn wf(&self) -> bool {
        forall|tag: MapTag| (#[trigger] self.map_of(tag)).wf()
    }

    /// Whether every map is up to date with its sources and the world.
    pub open spec fn is_current(&self, world: &World) -> bool {
        forall|tag: MapTag| (#[trigger] self.map_of(tag)).is_current(world)
    }

    /// Construct empty maps.
    pub fn new() -> (maps: Maps)
        ensures
            maps.wf(),
            forall|tag: MapTag|
                {
                    let map = #[trigger] maps.map_of(tag);
                    &&& map.sources@ == Seq::<Point>::empty()
                    &&& map.approach@ == blank()
                    &&& map.flee_cowardly@ == blank()
                    &&& map.flee_bravely@ == blank()
                },
    {
        Maps {
            adventure: Heatmap::new(),
            general_store: Heatmap::new(),
            rest: Heatmap::new(),
            sustenance: Heatmap::new(),
        }
    }

    /// Look up a map by tag.
    pub fn get(&self, tag: MapTag) -> (map: &Heatmap)
        ensures
            *map == self.map_of(tag),
    {
        match tag {
            MapTag::Adventure => &self.adventure,
            MapTag::GeneralStore => &self.general_store,
            MapTag::Rest => &self.rest,
            MapTag::Sustenance => &self.sustenance,
        }
    }

    /// Look up a map by tag and return a mutable reference: what is done
    /// to the map is done to the map of that tag, and to no other.
    pub fn mutget(&mut self, tag: MapTag) -> (map: &mut Heatmap)
        ensures
            *map == old(self).map_of(tag),
            *final(self) == old(self).with_map(tag, *final(map)),
    {
        match tag {
            MapTag::Adventure => &mut self.adventure,
            MapTag::GeneralStore => &mut self.general_store,
            MapTag::Rest => &mut self.rest,
            MapTag::Sustenance => &mut self.sustenance,
        }
    }

    /// Recompute all maps. This should be called when a new obstruction is
    /// added.
    pub fn rebuild_all(&mut self, world: &World)
        requires
            old(self).wf(),
        ensures
            final(self).is_current(world),
            final(self).wf(),
            forall|tag: MapTag|
                (#[trigger] final(self).map_of(tag)).sources == old(self).map_of(tag).sources,
    {
        assert(old(self).map_of(MapTag::Adventure).wf());
        assert(old(self).map_of(MapTag::GeneralStore).wf());
        assert(old(self).map_of(MapTag::Rest).wf());
        assert(old(self).map_of(MapTag::Sustenance).wf());
        self.adventure.rebuild_from_sources(world);
        self.general_store.rebuild_from_sources(world);
        self.rest.rebuild_from_sources(world);
        self.sustenance.rebuild_from_sources(world);
    }
}

} // verus!
