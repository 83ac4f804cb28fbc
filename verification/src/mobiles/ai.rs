//! Mobile AI.

use crate::constants::{CELLS, HEIGHT, UNREACHED, WIDTH};
use crate::dijkstra_map::{flood_fill, neighbor_at, Heatmap, MapTag, Maps};
use crate::distance::distance_field;
use crate::flood::{cell, has_neighbor, neighbor};
use crate::grid::{Grid, Point};
use crate::mobiles::{Mobile, Mobs};
use crate::repair::{lemma_rebuild_is_distance_field, lemma_seed_field_cell, seed_field};
use crate::types::World;
use crate::utils::{can_see, is_occupied, occupied, sees, signed_add};
use vstd::prelude::*;

verus! {

/// Multiplier to the weight of a desire if a source can be seen.
pub const SIGHT_BONUS: i64 = 100;

/// What one interaction takes off the weight of the desire it satisfies,
/// in thousandths.
pub const RELIEF: i32 = 1000;

/// Specific tasks that an AI can perform.
#[derive(Clone, Copy, Debug, PartialEq, Eq, PartialOrd, Ord, Structural)]
pub enum Task {
    /// Move to the given location.
    MoveTo(Point),
}

/// What a mob did in its turn.
#[derive(Clone, Copy, Debug, PartialEq, Eq, Structural)]
pub enum Action {
    /// It interacted with what stands at the point.
    Interact(Point),
    /// It moved to the point.
    Move(Point),
    /// It stayed where it was and did nothing.
    Wait,
}

/// Which desires have a source in sight.
#[derive(Clone, Copy, Debug, PartialEq, Eq, Structural)]
pub struct Sight {
    /// Whether a source of adventure is in sight.
    pub adventure: bool,
    /// Whether a general store is in sight.
    pub general_store: bool,
    /// Whether a place of rest is in sight.
    pub rest: bool,
    /// Whether a source of sustenance is in sight.
    pub sustenance: bool,
}

impl Sight {
    /// Whether a source of the tag is in sight.
    pub open spec fn of(self, tag: MapTag) -> bool {
        match tag {
            MapTag::Adventure => self.adventure,
            MapTag::GeneralStore => self.general_store,
            MapTag::Rest => self.rest,
            MapTag::Sustenance => self.sustenance,
        }
    }

    /// Whether a source of the tag is in sight.
    pub fn get(&self, tag: MapTag) -> (r: bool)
        ensures
            r == self.of(tag),
    {
        match tag {
            MapTag::Adventure => self.adventure,
            MapTag::GeneralStore => self.general_store,
            MapTag::Rest => self.rest,
            MapTag::Sustenance => self.sustenance,
        }
    }
}

/// The horizontal offset of the `k`-th cell of the 3 by 3 block round a
/// point, in scan order: rows from top to bottom, each from left to right.
/// The point itself is the cell in the middle.
pub open spec fn spot_dx(k: int) -> int {
    if k == 0 || k == 3 || k == 6 {
        -1
    } else if k == 1 || k == 4 || k == 7 {
        0
    } else {
        1
    }
}

/// The vertical offset of the `k`-th cell of the block round a point.
pub open spec fn spot_dy(k: int) -> int {
    if k <= 2 {
        -1
    } else if k <= 5 {
        0
    } else {
        1
    }
}

/// Whether the `k`-th cell of the block round a point is on the map.
pub open spec fn has_spot(p: Point, k: int) -> bool {
    &&& p.in_bounds()
    &&& 0 <= k < 9
    &&& 0 <= p.x + spot_dx(k) < WIDTH
    &&& 0 <= p.y + spot_dy(k) < HEIGHT
}

/// The `k`-th cell of the block round a point.
pub open spec fn spot(p: Point, k: int) -> Point {
    Point { x: (p.x + spot_dx(k)) as usize, y: (p.y + spot_dy(k)) as usize }
}

/// Whether a source of a map can be seen from a position.
pub open spec fn source_seen(pos: Point, map: Heatmap, world: &World) -> bool {
    exists|i: int| 0 <= i < map.sources@.len() && sees(pos, #[trigger] map.sources@[i], world)
}

/// Which desires have a source in sight from a position.
pub open spec fn sight_from(pos: Point, maps: &Maps, world: &World) -> Sight {
    Sight {
        adventure: source_seen(pos, maps.adventure, world),
        general_store: source_seen(pos, maps.general_store, world),
        rest: source_seen(pos, maps.rest, world),
        sustenance: source_seen(pos, maps.sustenance, world),
    }
}

/// A weight as it counts: multiplied where a source is in sight.
pub open spec fn pull(weight: i32, seen: bool) -> int {
    if seen {
        weight * SIGHT_BONUS
    } else {
        weight as int
    }
}

/// What a desire of a given pull reads at a point: the approach map where
/// it attracts, else the flee map that fits the mob's boldness.
pub open spec fn reading(brave: bool, map: Heatmap, pull: int, q: Point) -> i64 {
    if pull >= 0 {
        map.approach.value(q)
    } else if brave {
        map.flee_bravely.value(q)
    } else {
        map.flee_cowardly.value(q)
    }
}

/// What one desire adds to the score of a point: its pull times what it
/// reads there. A tag without a weight adds nothing.
pub open spec fn term(mob: Mobile, maps: &Maps, sight: Sight, tag: MapTag, q: Point) -> int {
    match mob.desires.weight_of(tag) {
        Some(w) => pull(w, sight.of(tag)) * reading(
            mob.is_brave,
            maps.map_of(tag),
            pull(w, sight.of(tag)),
            q,
        ),
        None => 0,
    }
}

/// The score of a point: the sum over the desires of pull times reading.
/// The sentinel of the maps counts as the number it is.
pub open spec fn score(mob: Mobile, maps: &Maps, sight: Sight, q: Point) -> int {
    term(mob, maps, sight, MapTag::Adventure, q) + term(mob, maps, sight, MapTag::GeneralStore, q)
        + term(mob, maps, sight, MapTag::Rest, q) + term(mob, maps, sight, MapTag::Sustenance, q)
}

/// The best of the first `k` cells of the block round a point, with its
/// score: the first cell whose score is below the sentinel and below the
/// score of every cell before it.
pub open spec fn best_upto(mob: Mobile, maps: &Maps, sight: Sight, pos: Point, k: int) -> (
    Option<Point>,
    int,
)
    decreases k,
{
    if k <= 0 {
        (None, UNREACHED as int)
    } else {
        let before = best_upto(mob, maps, sight, pos, k - 1);
        if has_spot(pos, k - 1) && score(mob, maps, sight, spot(pos, k - 1)) < before.1 {
            (Some(spot(pos, k - 1)), score(mob, maps, sight, spot(pos, k - 1)))
        } else {
            before
        }
    }
}

/// The cell of least score among a point and its neighbours, seen from
/// that point: of several the first in scan order, and none where no score
/// is below the sentinel.
pub open spec fn heatmap_best(mob: Mobile, maps: &Maps, world: &World, pos: Point) -> (
    Option<Point>,
    int,
) {
    best_upto(mob, maps, sight_from(pos, maps, world), pos, 9)
}

/// Where the weighted sum of the heatmaps sends a mob: to the cell of
/// least score, unless that score is zero, which means that nothing
/// attracts or repels.
pub open spec fn heatmap_choice(mob: Mobile, maps: &Maps, world: &World, pos: Point) -> Option<
    Point,
> {
    if heatmap_best(mob, maps, world, pos).1 == 0 {
        None
    } else {
        heatmap_best(mob, maps, world, pos).0
    }
}

/// Whether a point is a goal: seen from the point itself, no neighbour
/// scores less than it.
pub open spec fn is_goal(mob: Mobile, maps: &Maps, world: &World, q: Point) -> bool {
    heatmap_best(mob, maps, world, q).0 == Some(q)
}

/// The lowest of the first `k` neighbours of a point that holds less than
/// the point itself and than every neighbour before it, with its value.
pub open spec fn downhill_upto(f: Seq<i64>, pos: Point, k: int) -> (Option<Point>, i64)
    decreases k,
{
    if k <= 0 {
        (None, cell(f, pos))
    } else {
        let before = downhill_upto(f, pos, k - 1);
        if has_neighbor(pos, k - 1) && cell(f, neighbor(pos, k - 1)) < before.1 {
            (Some(neighbor(pos, k - 1)), cell(f, neighbor(pos, k - 1)))
        } else {
            before
        }
    }
}

/// The first step of a path from a point to a target: the neighbour that
/// is nearest to the target, provided it is nearer than the point itself;
/// of several the first in scan order.
pub open spec fn path_step(pos: Point, world: &World, target: Point) -> Option<Point> {
    downhill_upto(distance_field(seq![target], world.obstructions()), pos, 8).0
}

/// The desire that the thing at a point satisfies, if any.
pub open spec fn offered(world: &World, target: Point) -> Option<MapTag> {
    match world.statics.value(target) {
        Some(s) => s.tag.produces(),
        None => None,
    }
}

/// Whether a mob can interact with what stands at a point: something
/// stands there that satisfies a desire which the mob has.
pub open spec fn can_interact(mob: Mobile, world: &World, target: Point) -> bool {
    match offered(world, target) {
        Some(tag) => mob.desires.weight_of(tag) is Some,
        None => false,
    }
}

/// A weight after one interaction: less by `RELIEF`, but not below zero.
pub open spec fn relieved(weight: i32) -> i32 {
    if weight - RELIEF < 0 {
        0
    } else {
        (weight - RELIEF) as i32
    }
}

/// A mob after it interacted with what stands at a point.
pub open spec fn after_interaction(mob: Mobile, world: &World, target: Point) -> Mobile {
    match offered(world, target) {
        Some(tag) => match mob.desires.weight_of(tag) {
            Some(w) => Mobile { desires: mob.desires.with_weight(tag, relieved(w)), ..mob },
            None => mob,
        },
        None => mob,
    }
}

/// Whether a mob wants what a point is the source of: some desire of
/// positive weight has a source there.
pub open spec fn wants(mob: Mobile, maps: &Maps, tag: MapTag, q: Point) -> bool {
    match mob.desires.weight_of(tag) {
        Some(w) => w > 0 && maps.map_of(tag).approach.value(q) == 0,
        None => false,
    }
}

/// Whether a point is the source of something that a mob wants.
pub open spec fn wanted(mob: Mobile, maps: &Maps, q: Point) -> bool {
    wants(mob, maps, MapTag::Adventure, q) || wants(mob, maps, MapTag::GeneralStore, q) || wants(
        mob,
        maps,
        MapTag::Rest,
        q,
    ) || wants(mob, maps, MapTag::Sustenance, q)
}

/// The first cell of the block round a point, from the `k`-th on, that is
/// the source of something that the mob wants.
pub open spec fn nearby_from(mob: Mobile, maps: &Maps, pos: Point, k: int) -> Option<Point>
    decreases 9 - k,
{
    if k >= 9 {
        None
    } else if has_spot(pos, k) && wanted(mob, maps, spot(pos, k)) {
        Some(spot(pos, k))
    } else {
        nearby_from(mob, maps, pos, k + 1)
    }
}

/// What comes of the attempt to move to a point: the move, where the point
/// is free; an interaction, where it is occupied but is a goal with which
/// the mob can interact; else nothing.
pub open spec fn attempt(
    mob: Mobile,
    mobs: &Mobs,
    maps: &Maps,
    world: &World,
    new_pos: Point,
) -> Option<Action> {
    if !occupied(new_pos, mobs, world) {
        Some(Action::Move(new_pos))
    } else if is_goal(mob, maps, world, new_pos) && can_interact(mob, world, new_pos) {
        Some(Action::Interact(new_pos))
    } else {
        None
    }
}

/// What comes of a stage that proposes a move, if anything.
pub open spec fn staged(
    mob: Mobile,
    mobs: &Mobs,
    maps: &Maps,
    world: &World,
    proposal: Option<Point>,
) -> Option<Action> {
    match proposal {
        Some(new_pos) => attempt(mob, mobs, maps, world, new_pos),
        None => None,
    }
}

/// What the priority task of a mob proposes, if it has one.
pub open spec fn task_step(mob: Mobile, pos: Point, world: &World) -> Option<Point> {
    match mob.priority_task {
        Some(Task::MoveTo(target)) => path_step(pos, world, target),
        None => None,
    }
}

/// What a mob does in its turn. The stages come in order, and the first
/// that finds something to do and can do it decides: interact with
/// something wanted nearby; advance the priority task; follow the weighted
/// sum of the heatmaps; wander home; else wait.
pub open spec fn decision(mob: Mobile, pos: Point, mobs: &Mobs, maps: &Maps, world: &World) -> Action {
    let near = nearby_from(mob, maps, pos, 0);
    if near is Some && can_interact(mob, world, near->0) {
        Action::Interact(near->0)
    } else if staged(mob, mobs, maps, world, task_step(mob, pos, world)) is Some {
        staged(mob, mobs, maps, world, task_step(mob, pos, world))->0
    } else if staged(mob, mobs, maps, world, heatmap_choice(mob, maps, world, pos)) is Some {
        staged(mob, mobs, maps, world, heatmap_choice(mob, maps, world, pos))->0
    } else if staged(mob, mobs, maps, world, path_step(pos, world, mob.home_pos)) is Some {
        staged(mob, mobs, maps, world, path_step(pos, world, mob.home_pos))->0
    } else {
        Action::Wait
    }
}

/// The mob after an action.
pub open spec fn mob_after(mob: Mobile, world: &World, action: Action) -> Mobile {
    match action {
        Action::Interact(target) => after_interaction(mob, world, target),
        _ => mob,
    }
}

/// The mobiles of the world after an action of the mob at `pos`: a move
/// takes whoever stands at `pos` away and puts the mob at its new place.
pub open spec fn mobs_after(
    mob: Mobile,
    pos: Point,
    mobs: Map<Point, Mobile>,
    action: Action,
) -> Map<Point, Mobile> {
    match action {
        Action::Move(new_pos) => mobs.remove(pos).insert(new_pos, mob),
        _ => mobs,
    }
}

/// The `k`-th cell of the block round a point, unless it is off the map.
pub fn spot_at(pos: Point, k: usize) -> (r: Option<Point>)
    requires
        pos.in_bounds(),
        k < 9,
    ensures
        r is Some <==> has_spot(pos, k as int),
        r is Some ==> r->0 == spot(pos, k as int),
{
    let dx: i8 = if k == 0 || k == 3 || k == 6 {
        -1
    } else if k == 1 || k == 4 || k == 7 {
        0
    } else {
        1
    };
    let dy: i8 = if k <= 2 {
        -1
    } else if k <= 5 {
        0
    } else {
        1
    };
    if (dy < 0 && pos.y == 0) || (dy > 0 && pos.y == HEIGHT - 1) || (dx < 0 && pos.x == 0) || (dx
        > 0 && pos.x == WIDTH - 1) {
        None
    } else {
        Some(Point { x: signed_add(pos.x, dx), y: signed_add(pos.y, dy) })
    }
}

/// Whether a source of a map can be seen from a position.
pub fn source_in_sight(pos: Point, map: &Heatmap, world: &World) -> (r: bool)
    requires
        pos.in_bounds(),
        map.wf(),
    ensures
        r == source_seen(pos, *map, world),
{
    let mut i: usize = 0;
    while i < map.sources.len()
        invariant
            i <= map.sources.len(),
            pos.in_bounds(),
            map.wf(),
            forall|j: int| 0 <= j < i ==> !sees(pos, #[trigger] map.sources@[j], world),
        decreases map.sources.len() - i,
    {
        if can_see(pos, map.sources[i], world) {
            return true;
        }
        i = i + 1;
    }
    false
}

/// Work out which desires have a source in sight from a position.
pub fn look_round(pos: Point, maps: &Maps, world: &World) -> (sight: Sight)
    requires
        pos.in_bounds(),
        maps.wf(),
    ensures
        sight == sight_from(pos, maps, world),
{
    assert(maps.map_of(MapTag::Adventure).wf());
    assert(maps.map_of(MapTag::GeneralStore).wf());
    assert(maps.map_of(MapTag::Rest).wf());
    assert(maps.map_of(MapTag::Sustenance).wf());
    Sight {
        adventure: source_in_sight(pos, &maps.adventure, world),
        general_store: source_in_sight(pos, &maps.general_store, world),
        rest: source_in_sight(pos, &maps.rest, world),
        sustenance: source_in_sight(pos, &maps.sustenance, world),
    }
}

/// The product of a pull and a reading stays far inside `i128`.
pub proof fn lemma_term_fits(pull: int, value: int)
    requires
        -0x4000_0000_0000 <= pull <= 0x4000_0000_0000,
        -0x8000_0000_0000_0000 <= value <= 0x8000_0000_0000_0000,
    ensures
        -0x2000_0000_0000_0000_0000_0000_0000 <= pull * value
            <= 0x2000_0000_0000_0000_0000_0000_0000,
{
    assert(-0x2000_0000_0000_0000_0000_0000_0000 <= pull * value
        <= 0x2000_0000_0000_0000_0000_0000_0000) by (nonlinear_arith)
        requires
            -0x4000_0000_0000 <= pull <= 0x4000_0000_0000,
            -0x8000_0000_0000_0000 <= value <= 0x8000_0000_0000_0000,
    ;
}

impl Mobile {
    /// What one desire adds to the score of a point.
    fn ai_term(&self, maps: &Maps, sight: Sight, tag: MapTag, q: Point) -> (r: i128)
        requires
            q.in_bounds(),
        ensures
            r == term(*self, maps, sight, tag, q),
            -0x2000_0000_0000_0000_0000_0000_0000 <= r <= 0x2000_0000_0000_0000_0000_0000_0000,
    {
        match self.desires.get(tag) {
            Some(weight) => {
                let wgt: i64 = if sight.get(tag) {
                    (weight as i64) * SIGHT_BONUS
                } else {
                    weight as i64
                };
                let map = maps.get(tag);
                let delta: i64 = if wgt >= 0 {
                    map.approach.at(q)
                } else if self.is_brave {
                    map.flee_bravely.at(q)
                } else {
                    map.flee_cowardly.at(q)
                };
                proof {
                    lemma_term_fits(wgt as int, delta as int);
                }
                (wgt as i128) * (delta as i128)
            },
            None => 0,
        }
    }

    /// The score of a point: the desire-weighted sum of the heatmaps.
    pub fn ai_score(&self, maps: &Maps, sight: Sight, q: Point) -> (r: i128)
        requires
            q.in_bounds(),
        ensures
            r == score(*self, maps, sight, q),
    {
        self.ai_term(maps, sight, MapTag::Adventure, q) + self.ai_term(
            maps,
            sight,
            MapTag::GeneralStore,
            q,
        ) + self.ai_term(maps, sight, MapTag::Rest, q) + self.ai_term(
            maps,
            sight,
            MapTag::Sustenance,
            q,
        )
    }

    /// The cell of least score among a point and its neighbours, with its
    /// score.
    pub fn ai_heatmap_best(&self, pos: Point, maps: &Maps, world: &World) -> (r: (
        Option<Point>,
        i128,
    ))
        requires
            pos.in_bounds(),
            maps.wf(),
        ensures
            r.0 == heatmap_best(*self, maps, world, pos).0,
            r.1 == heatmap_best(*self, maps, world, pos).1,
    {
        // Work out what sources are visible from here.
        let sight = look_round(pos, maps, world);

        // Find the minimum weighted sum of all the heatmaps in the local area:
        let mut new_pos: Option<Point> = None;
        let mut min_so_far: i128 = 0x7fff_ffff_ffff_ffff;
        let mut k: usize = 0;
        while k < 9
            invariant
                k <= 9,
                pos.in_bounds(),
                new_pos == best_upto(*self, maps, sight, pos, k as int).0,
                min_so_far == best_upto(*self, maps, sight, pos, k as int).1,
            decreases 9 - k,
        {
            match spot_at(pos, k) {
                Some(q) => {
                    // Compute the weight here, and compare with the
                    // minimum seen so far.
                    let weight_here = self.ai_score(maps, sight, q);
                    if weight_here < min_so_far {
                        new_pos = Some(q);
                        min_so_far = weight_here;
                    }
                },
                None => {},
            }
            k = k + 1;
        }
        (new_pos, min_so_far)
    }

    /// Choose a point to move to by taking the desire-weighted sum of the
    /// heatmaps. If a weight is negative, flee. If the source is visible,
    /// intensify the weight. Nothing is chosen where the least sum is zero.
    pub fn ai_heatmap_wsum(&self, pos: Point, maps: &Maps, world: &World) -> (r: Option<Point>)
        requires
            pos.in_bounds(),
            maps.wf(),
        ensures
            r == heatmap_choice(*self, maps, world, pos),
            r is Some ==> r->0.in_bounds(),
    {
        let (new_pos, min_so_far) = self.ai_heatmap_best(pos, maps, world);
        proof {
            lemma_best_on_the_map(*self, maps, sight_from(pos, maps, world), pos, 9);
        }
        if min_so_far == 0 {
            None
        } else {
            new_pos
        }
    }

    /// Determine if there is a nearby point we can interact with to satisfy
    /// a desire: a source of something wanted, at or next to the position.
    pub fn ai_interact_nearby(&self, pos: Point, maps: &Maps) -> (r: Option<Point>)
        requires
            pos.in_bounds(),
        ensures
            r == nearby_from(*self, maps, pos, 0),
            r is Some ==> r->0.in_bounds(),
    {
        let mut k: usize = 0;
        while k < 9
            invariant
                k <= 9,
                pos.in_bounds(),
                nearby_from(*self, maps, pos, 0) == nearby_from(*self, maps, pos, k as int),
            decreases 9 - k,
        {
            match spot_at(pos, k) {
                Some(new_pos) => {
                    // Check the weights here.
                    if self.ai_wants(maps, MapTag::Adventure, new_pos) || self.ai_wants(
                        maps,
                        MapTag::GeneralStore,
                        new_pos,
                    ) || self.ai_wants(maps, MapTag::Rest, new_pos) || self.ai_wants(
                        maps,
                        MapTag::Sustenance,
                        new_pos,
                    ) {
                        return Some(new_pos);
                    }
                },
                None => {},
            }
            k = k + 1;
        }
        None
    }

    /// Whether a point is a source of the tag and the mob desires the tag.
    fn ai_wants(&self, maps: &Maps, tag: MapTag, q: Point) -> (r: bool)
        requires
            q.in_bounds(),
        ensures
            r == wants(*self, maps, tag, q),
    {
        match self.desires.get(tag) {
            Some(weight) => weight > 0 && maps.get(tag).approach.at(q) == 0,
            None => false,
        }
    }

    /// Determine a position to move to which will advance the given task.
    pub fn ai_advance_task(&self, pos: Point, world: &World, target: &Task) -> (r: Option<Point>)
        requires
            pos.in_bounds(),
            match *target {
                Task::MoveTo(target_point) => target_point.in_bounds(),
            },
        ensures
            match *target {
                Task::MoveTo(target_point) => r == path_step(pos, world, target_point),
            },
            r is Some ==> r->0.in_bounds(),
    {
        match target {
            Task::MoveTo(target_point) => self.ai_pathfind(pos, world, *target_point),
        }
    }

    /// Find a path to the target and return the first point. If this
    /// returns `None` then no neighbour is nearer to the target than the
    /// position: the mob is there, or the point is inaccessible!
    pub fn ai_pathfind(&self, pos: Point, world: &World, target: Point) -> (r: Option<Point>)
        requires
            pos.in_bounds(),
            target.in_bounds(),
        ensures
            r == path_step(pos, world, target),
            r is Some ==> r->0.in_bounds(),
    {
        // For laziness, just re-use the existing dijkstra map machinery.
        let mut field: Grid<i64> = Grid::new(UNREACHED);
        field.set(target, 0);
        let seeds: Vec<Point> = vec![target];
        proof {
            let sources = seq![target];
            assert(seeds@ == sources);
            assert(sources[0] == target);
            assert forall|i: int| 0 <= i < CELLS implies #[trigger] field@[i] == seed_field(
                sources,
            )[i] by {
                crate::distance::lemma_point_of(i);
                let p = crate::distance::point_of(i);
                lemma_seed_field_cell(sources, p);
                if sources.contains(p) {
                    let j = choose|j: int| 0 <= j < sources.len() && sources[j] == p;
                }
            }
            assert(field@ =~= seed_field(sources));
            world.lemma_obstructions();
            lemma_rebuild_is_distance_field(sources, world.obstructions());
        }
        flood_fill(&mut field, &seeds, world);

        let mut new_pos: Option<Point> = None;
        let mut min_so_far: i64 = field.at(pos);
        let mut k: usize = 0;
        while k < 8
            invariant
                k <= 8,
                pos.in_bounds(),
                new_pos == downhill_upto(field@, pos, k as int).0,
                min_so_far == downhill_upto(field@, pos, k as int).1,
                new_pos is Some ==> new_pos->0.in_bounds(),
            decreases 8 - k,
        {
            match neighbor_at(pos, k) {
                Some(q) => {
                    let here = field.at(q);
                    if here < min_so_far {
                        new_pos = Some(q);
                        min_so_far = here;
                    }
                },
                None => {},
            }
            k = k + 1;
        }
        new_pos
    }

    /// What comes of the attempt to move to a new position: the move,
    /// where the position is free; an interaction, where it is occupied
    /// but is a goal with which the mob can interact; else nothing.
    pub fn ai_move_query(&self, mobs: &Mobs, maps: &Maps, world: &World, new_pos: Point) -> (r:
        Option<Action>)
        requires
            new_pos.in_bounds(),
            maps.wf(),
        ensures
            r == attempt(*self, mobs, maps, world, new_pos),
    {
        if !is_occupied(new_pos, mobs, world) {
            Some(Action::Move(new_pos))
        } else {
            let (best, _) = self.ai_heatmap_best(new_pos, maps, world);
            let is_goal = match best {
                Some(q) => q.x == new_pos.x && q.y == new_pos.y,
                None => false,
            };
            if is_goal && self.ai_interact_at_point_query(world, new_pos) {
                Some(Action::Interact(new_pos))
            } else {
                None
            }
        }
    }

    /// Move to a new position if possible. Where the new position is
    /// occupied but is a goal, interact with what stands there instead.
    /// Returns what was done, or `None` if nothing could be done.
    pub fn ai_move_commit(
        &mut self,
        pos: Point,
        mobs: &mut Mobs,
        maps: &Maps,
        world: &World,
        new_pos: Point,
    ) -> (r: Option<Action>)
        requires
            pos.in_bounds(),
            new_pos.in_bounds(),
            maps.wf(),
        ensures
            r == attempt(*old(self), old(mobs), maps, world, new_pos),
            match r {
                Some(action) => *final(self) == mob_after(*old(self), world, action)
                    && final(mobs)@ == mobs_after(*old(self), pos, old(mobs)@, action),
                None => *final(self) == *old(self) && final(mobs)@ == old(mobs)@,
            },
    {
        let r = self.ai_move_query(mobs, maps, world, new_pos);
        match r {
            Some(Action::Move(_)) => {
                let _ = mobs.remove(pos);
                let _ = mobs.insert(new_pos, *self);
            },
            Some(Action::Interact(_)) => {
                let _ = self.ai_interact_at_point_commit(world, new_pos);
            },
            _ => {},
        }
        r
    }

    /// Whether the mob can interact with the given target: something
    /// stands there that satisfies a desire of the mob.
    pub fn ai_interact_at_point_query(&self, world: &World, target_pos: Point) -> (r: bool)
        requires
            target_pos.in_bounds(),
        ensures
            r == can_interact(*self, world, target_pos),
    {
        match world.statics.at(target_pos) {
            Some(s) => match s.maptag() {
                Some(tag) => self.desires.get(tag).is_some(),
                None => false,
            },
            None => false,
        }
    }

    /// Interact with the given target: where something stands there that
    /// satisfies a desire of the mob, the weight of that desire is reduced,
    /// to a minimum of 0.
    pub fn ai_interact_at_point_commit(&mut self, world: &World, target_pos: Point) -> (r: bool)
        requires
            target_pos.in_bounds(),
        ensures
            r == can_interact(*old(self), world, target_pos),
            r ==> *final(self) == after_interaction(*old(self), world, target_pos),
            !r ==> *final(self) == *old(self),
    {
        // For now, the only interaction we have is satisfying a desire.
        match world.statics.at(target_pos) {
            Some(s) => match s.maptag() {
                Some(tag) => match self.desires.get(tag) {
                    Some(old) => {
                        let new: i32 = if old < i32::MIN + RELIEF {
                            0
                        } else if old - RELIEF < 0 {
                            0
                        } else {
                            old - RELIEF
                        };
                        let _ = self.desires.insert(tag, new);
                        true
                    },
                    None => false,
                },
                None => false,
            },
            None => false,
        }
    }

    /// What the mob does in its turn, without doing it. This uses a
    /// behaviour tree-style approach to decision making: the stages come
    /// in order, and the first that finds something to do and can do it
    /// decides.
    pub fn ai_decide(&self, pos: Point, mobs: &Mobs, maps: &Maps, world: &World) -> (action: Action)
        requires
            self.wf(),
            pos.in_bounds(),
            maps.wf(),
        ensures
            action == decision(*self, pos, mobs, maps, world),
            match action {
                Action::Move(new_pos) => new_pos.in_bounds() && !occupied(new_pos, mobs, world),
                Action::Interact(target) => target.in_bounds() && can_interact(*self, world, target),
                Action::Wait => true,
            },
    {
        // 1. INTERACT AT POINT
        //
        // Can the mob interact with something that it wants to interact with?
        if let Some(target_pos) = self.ai_interact_nearby(pos, maps) {
            if self.ai_interact_at_point_query(world, target_pos) {
                return Action::Interact(target_pos);
            }
        }
        // 2. PRIORITY TASK
        //
        // Does the mob have something that it absolutely must do, as a
        // matter of utmost priority? Furthermore, can it make useful
        // progress towards completing that task? If so, do that!

        if let Some(task) = self.priority_task {
            if let Some(new_pos) = self.ai_advance_task(pos, world, &task) {
                if let Some(action) = self.ai_move_query(mobs, maps, world, new_pos) {
                    return action;
                }
            }
        }
        // 3. HEATMAP TRAVEL
        //
        // Take the desire-weighted sum of the heatmaps, and determine if
        // there's a place we'd like to move towards.
        //
        // To encourage a "sensible" pathing behaviour, check if there are
        // any desires we can see the source of from this point. If so, we
        // *particularly* want to move towards it (or away from it, if it's
        // scary), even if there are other more pressing desires. This
        // discourages back-and-forth travel.

        if let Some(new_pos) = self.ai_heatmap_wsum(pos, maps, world) {
            if let Some(action) = self.ai_move_query(mobs, maps, world, new_pos) {
                return action;
            }
        }
        // 4. WANDERING
        //
        // The mob has reached a state of zen. It has nothing left to do in
        // this mortal plane. Satori is within reach. Just wander home.

        if let Some(new_pos) = self.ai_pathfind(pos, world, self.home_pos) {
            if let Some(action) = self.ai_move_query(mobs, maps, world, new_pos) {
                return action;
            }
        }
        // 5. GIVING UP
        //
        // Just stay where we are.

        Action::Wait
    }

    /// The AI: decide what to do, and do it. A move takes the mob from its
    /// position to the new one; an interaction changes the mob.
    pub fn ai(&mut self, pos: Point, mobs: &mut Mobs, maps: &Maps, world: &World) -> (action: Action)
        requires
            old(self).wf(),
            pos.in_bounds(),
            maps.wf(),
        ensures
            action == decision(*old(self), pos, old(mobs), maps, world),
            *final(self) == mob_after(*old(self), world, action),
            final(mobs)@ == mobs_after(*old(self), pos, old(mobs)@, action),
    {
        let action = self.ai_decide(pos, mobs, maps, world);
        match action {
            Action::Move(new_pos) => {
                let _ = mobs.remove(pos);
                let _ = mobs.insert(new_pos, *self);
            },
            Action::Interact(target_pos) => {
                let _ = self.ai_interact_at_point_commit(world, target_pos);
            },
            Action::Wait => {},
        }
        action
    }

    /// Do a turn.
    pub fn step(&mut self, pos: Point, mobs: &mut Mobs, maps: &Maps, world: &World) -> (action:
        Action)
        requires
            old(self).wf(),
            pos.in_bounds(),
            maps.wf(),
        ensures
            action == decision(*old(self), pos, old(mobs), maps, world),
            *final(self) == mob_after(*old(self), world, action),
            final(mobs)@ == mobs_after(*old(self), pos, old(mobs)@, action),
    {
        // Run the AI.
        self.ai(pos, mobs, maps, world)
    }
}

/// The best cell of a block lies on the map.
pub proof fn lemma_best_on_the_map(mob: Mobile, maps: &Maps, sight: Sight, pos: Point, k: int)
    requires
        0 <= k <= 9,
    ensures
        best_upto(mob, maps, sight, pos, k).0 is Some ==> best_upto(
            mob,
            maps,
            sight,
            pos,
            k,
        ).0->0.in_bounds(),
    decreases k,
{
    if k > 0 {
        lemma_best_on_the_map(mob, maps, sight, pos, k - 1);
    }
}

} // verus!
