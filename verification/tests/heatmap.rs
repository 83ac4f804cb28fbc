use rogue_mayor::constants::{HEIGHT, UNIT, UNREACHED, WIDTH};
use rogue_mayor::dijkstra_map::{flood_fill, neighbor_at, Heatmap, MapTag, Maps};
use rogue_mayor::grid::{Grid, Point};
use rogue_mayor::statics::{Static, StaticTag};
use rogue_mayor::types::World;

fn pt(x: usize, y: usize) -> Point {
    Point { x: x, y: y }
}

fn same_grid(a: &Grid<i64>, b: &Grid<i64>) -> bool {
    for y in 0..HEIGHT {
        for x in 0..WIDTH {
            if a.at(pt(x, y)) != b.at(pt(x, y)) {
                return false;
            }
        }
    }
    true
}

fn chebyshev(a: Point, b: Point) -> i64 {
    let dx = if a.x > b.x { a.x - b.x } else { b.x - a.x };
    let dy = if a.y > b.y { a.y - b.y } else { b.y - a.y };
    (if dx > dy { dx } else { dy }) as i64
}

#[test]
fn new_map_is_blank() {
    let map = Heatmap::new();
    assert!(map.sources.is_empty());
    assert_eq!(map.approach.at(pt(0, 0)), UNREACHED);
    assert_eq!(map.flee_cowardly.at(pt(17, 5)), UNREACHED);
    assert_eq!(map.flee_bravely.at(pt(199, 99)), UNREACHED);
}

#[test]
fn single_source_in_the_open_gives_chebyshev_distance() {
    let world = World::new();
    let mut map = Heatmap::new();
    map.add_source(pt(2, 2), &world);
    assert_eq!(map.sources, vec![pt(2, 2)]);
    assert_eq!(map.approach.at(pt(2, 2)), 0);
    assert_eq!(map.approach.at(pt(0, 0)), 2 * UNIT);
    assert_eq!(map.approach.at(pt(1, 1)), UNIT);
    assert_eq!(map.approach.at(pt(4, 3)), 2 * UNIT);
    for y in 0..HEIGHT {
        for x in 0..WIDTH {
            assert_eq!(map.approach.at(pt(x, y)), UNIT * chebyshev(pt(x, y), pt(2, 2)));
        }
    }
}

#[test]
fn two_sources_give_the_distance_to_the_nearer() {
    let world = World::new();
    let mut map = Heatmap::new();
    map.add_source(pt(0, 0), &world);
    map.add_source(pt(3, 0), &world);
    assert_eq!(map.approach.at(pt(0, 0)), 0);
    assert_eq!(map.approach.at(pt(3, 0)), 0);
    assert_eq!(map.approach.at(pt(1, 0)), UNIT);
    // This cell held two steps before the second source came: the repair
    // must lower it though it is only one step above what it should hold.
    assert_eq!(map.approach.at(pt(2, 0)), UNIT);
    assert_eq!(map.approach.at(pt(2, 1)), UNIT);
    assert_eq!(map.approach.at(pt(10, 0)), 7 * UNIT);
}

#[test]
fn walls_are_walked_round_and_stay_unreached() {
    let mut world = World::new();
    // A wall across the columns 5, from the top down to row 9.
    for y in 0..10 {
        world.statics.set(pt(5, y), Some(Static::new(StaticTag::Wall)));
    }
    let mut map = Heatmap::new();
    map.add_source_no_rebuild(pt(0, 0));
    map.rebuild_from_sources(&world);
    assert_eq!(map.approach.at(pt(4, 0)), 4 * UNIT);
    assert_eq!(map.approach.at(pt(5, 0)), UNREACHED);
    assert_eq!(map.approach.at(pt(5, 9)), UNREACHED);
    assert_eq!(map.flee_cowardly.at(pt(5, 3)), UNREACHED);
    assert_eq!(map.flee_bravely.at(pt(5, 3)), UNREACHED);
    // Round the lower end of the wall: down to row 10, then up again.
    assert_eq!(map.approach.at(pt(5, 10)), 10 * UNIT);
    assert_eq!(map.approach.at(pt(6, 9)), 11 * UNIT);
    assert_eq!(map.approach.at(pt(6, 0)), 20 * UNIT);
}

#[test]
fn enclosed_cells_are_unreached() {
    let mut world = World::new();
    for (x, y) in [(9, 9), (10, 9), (11, 9), (9, 10), (11, 10), (9, 11), (10, 11), (11, 11)] {
        world.statics.set(pt(x, y), Some(Static::new(StaticTag::Wall)));
    }
    let mut map = Heatmap::new();
    map.add_source(pt(0, 0), &world);
    assert_eq!(map.approach.at(pt(10, 10)), UNREACHED);
    assert_eq!(map.flee_cowardly.at(pt(10, 10)), UNREACHED);
    assert_eq!(map.approach.at(pt(12, 12)), 15 * UNIT);
}

#[test]
fn an_impassable_source_still_spreads() {
    let mut world = World::new();
    world.statics.set(pt(25, 25), Some(Static::new(StaticTag::Dungeon)));
    let mut map = Heatmap::new();
    map.add_source(pt(25, 25), &world);
    assert_eq!(map.approach.at(pt(25, 25)), 0);
    assert_eq!(map.approach.at(pt(24, 25)), UNIT);
    assert_eq!(map.approach.at(pt(20, 22)), 5 * UNIT);
}

#[test]
fn flee_maps_are_scaled_and_smoothed_from_the_farthest_cells() {
    let world = World::new();
    let mut map = Heatmap::new();
    map.add_source(pt(2, 2), &world);
    // The farthest cells are those of the last column, 197 steps away.
    assert_eq!(map.approach.at(pt(199, 50)), 197 * UNIT);
    assert_eq!(map.flee_cowardly.at(pt(199, 50)), -11 * 197);
    assert_eq!(map.flee_bravely.at(pt(199, 50)), -16 * 197);
    // One column nearer the scaled values would be -2156 and -3136: the
    // flood lowers them to one step above the column of minima.
    assert_eq!(map.flee_cowardly.at(pt(198, 50)), -11 * 197 + UNIT);
    assert_eq!(map.flee_bravely.at(pt(198, 50)), -16 * 197 + UNIT);
    assert_eq!(map.flee_cowardly.at(pt(2, 2)), -11 * 197 + 197 * UNIT);
    assert_eq!(map.flee_bravely.at(pt(2, 2)), -16 * 197 + 197 * UNIT);
}

#[test]
fn every_reached_cell_has_a_neighbour_one_step_below() {
    let mut world = World::new();
    for y in 20..60 {
        world.statics.set(pt(50, y), Some(Static::new(StaticTag::Wall)));
    }
    let mut map = Heatmap::new();
    map.add_source(pt(40, 40), &world);
    map.add_source(pt(120, 70), &world);
    for y in 0..HEIGHT {
        for x in 0..WIDTH {
            let p = pt(x, y);
            let v = map.approach.at(p);
            if v != UNREACHED && v != 0 {
                let mut found = false;
                for k in 0..8 {
                    if let Some(q) = neighbor_at(p, k) {
                        if map.approach.at(q) == v - UNIT {
                            found = true;
                        }
                    }
                }
                assert!(found);
            }
            let scaled = if v == UNREACHED { UNREACHED } else { v / UNIT * -11 };
            let f = map.flee_cowardly.at(p);
            assert!(f <= scaled);
            if f != scaled {
                let mut found = false;
                for k in 0..8 {
                    if let Some(q) = neighbor_at(p, k) {
                        if map.flee_cowardly.at(q) == f - UNIT {
                            found = true;
                        }
                    }
                }
                assert!(found);
            }
        }
    }
}

#[test]
fn rebuilding_twice_changes_nothing() {
    let mut world = World::new();
    for x in 30..70 {
        world.statics.set(pt(x, 30), Some(Static::new(StaticTag::Wall)));
    }
    let mut once = Heatmap::new();
    once.add_source_no_rebuild(pt(10, 10));
    once.add_source_no_rebuild(pt(150, 80));
    once.rebuild_from_sources(&world);
    let mut twice = Heatmap::new();
    twice.add_source_no_rebuild(pt(10, 10));
    twice.add_source_no_rebuild(pt(150, 80));
    twice.rebuild_from_sources(&world);
    twice.rebuild_from_sources(&world);
    assert_eq!(once.sources, twice.sources);
    assert!(same_grid(&once.approach, &twice.approach));
    assert!(same_grid(&once.flee_cowardly, &twice.flee_cowardly));
    assert!(same_grid(&once.flee_bravely, &twice.flee_bravely));
}

#[test]
fn adding_then_removing_a_source_gives_the_map_back() {
    let mut world = World::new();
    for y in 0..50 {
        world.statics.set(pt(100, y), Some(Static::new(StaticTag::Wall)));
    }
    let mut plain = Heatmap::new();
    plain.add_source(pt(10, 10), &world);
    plain.add_source(pt(190, 90), &world);
    let mut map = Heatmap::new();
    map.add_source(pt(10, 10), &world);
    map.add_source(pt(190, 90), &world);
    map.add_source(pt(101, 5), &world);
    assert_eq!(map.approach.at(pt(101, 5)), 0);
    assert_eq!(map.approach.at(pt(105, 5)), 4 * UNIT);
    map.remove_source(pt(101, 5), &world);
    assert_eq!(map.sources, vec![pt(10, 10), pt(190, 90)]);
    assert!(same_grid(&map.approach, &plain.approach));
    assert!(same_grid(&map.flee_cowardly, &plain.flee_cowardly));
    assert!(same_grid(&map.flee_bravely, &plain.flee_bravely));
}

#[test]
fn incremental_repair_equals_full_rebuild() {
    let mut world = World::new();
    for y in 40..100 {
        world.statics.set(pt(60, y), Some(Static::new(StaticTag::Wall)));
    }
    let mut repaired = Heatmap::new();
    repaired.add_source(pt(5, 95), &world);
    repaired.add_source(pt(61, 95), &world);
    repaired.add_source(pt(58, 41), &world);
    let mut rebuilt = Heatmap::new();
    rebuilt.add_source_no_rebuild(pt(5, 95));
    rebuilt.add_source_no_rebuild(pt(61, 95));
    rebuilt.add_source_no_rebuild(pt(58, 41));
    rebuilt.rebuild_from_sources(&world);
    assert!(same_grid(&repaired.approach, &rebuilt.approach));
    assert!(same_grid(&repaired.flee_cowardly, &rebuilt.flee_cowardly));
    assert!(same_grid(&repaired.flee_bravely, &rebuilt.flee_bravely));
}

#[test]
fn removing_a_source_removes_every_occurrence() {
    let world = World::new();
    let mut map = Heatmap::new();
    map.add_source_no_rebuild(pt(1, 1));
    map.add_source_no_rebuild(pt(2, 2));
    map.add_source_no_rebuild(pt(1, 1));
    map.remove_source_no_rebuild(pt(1, 1));
    assert_eq!(map.sources, vec![pt(2, 2)]);
    map.remove_source(pt(2, 2), &world);
    assert!(map.sources.is_empty());
    assert_eq!(map.approach.at(pt(2, 2)), UNREACHED);
    assert_eq!(map.flee_cowardly.at(pt(2, 2)), UNREACHED);
}

#[test]
fn flood_fill_without_seeds_does_nothing() {
    let world = World::new();
    let mut field: Grid<i64> = Grid::new(UNREACHED);
    field.set(pt(3, 3), 0);
    flood_fill(&mut field, &Vec::new(), &world);
    assert_eq!(field.at(pt(3, 3)), 0);
    assert_eq!(field.at(pt(3, 4)), UNREACHED);
}

#[test]
fn flood_fill_leaves_blocked_cells_alone_and_never_raises() {
    let mut world = World::new();
    world.statics.set(pt(4, 4), Some(Static::new(StaticTag::Wall)));
    let mut field: Grid<i64> = Grid::new(UNREACHED);
    field.set(pt(3, 4), 0);
    field.set(pt(4, 4), 70);
    field.set(pt(6, 4), 5);
    flood_fill(&mut field, &vec![pt(3, 4)], &world);
    assert_eq!(field.at(pt(3, 4)), 0);
    assert_eq!(field.at(pt(4, 4)), 70);
    assert_eq!(field.at(pt(6, 4)), 5);
    assert_eq!(field.at(pt(5, 4)), 15);
    assert_eq!(field.at(pt(2, 4)), 10);
}

#[test]
fn neighbours_do_not_wrap_round_the_edges() {
    assert_eq!(neighbor_at(pt(0, 0), 0), None);
    assert_eq!(neighbor_at(pt(0, 0), 1), None);
    assert_eq!(neighbor_at(pt(0, 0), 3), None);
    assert_eq!(neighbor_at(pt(0, 0), 4), Some(pt(1, 0)));
    assert_eq!(neighbor_at(pt(0, 0), 7), Some(pt(1, 1)));
    assert_eq!(neighbor_at(pt(WIDTH - 1, HEIGHT - 1), 7), None);
    assert_eq!(neighbor_at(pt(WIDTH - 1, HEIGHT - 1), 0), Some(pt(WIDTH - 2, HEIGHT - 2)));
    assert_eq!(neighbor_at(pt(5, 5), 6), Some(pt(5, 6)));
}

#[test]
fn registry_keeps_one_map_per_tag() {
    let world = World::new();
    let mut maps = Maps::new();
    maps.mutget(MapTag::Rest).add_source(pt(7, 7), &world);
    assert_eq!(maps.get(MapTag::Rest).approach.at(pt(7, 7)), 0);
    assert_eq!(maps.get(MapTag::Rest).sources, vec![pt(7, 7)]);
    assert_eq!(maps.get(MapTag::Adventure).approach.at(pt(7, 7)), UNREACHED);
    assert!(maps.get(MapTag::Sustenance).sources.is_empty());
    assert!(maps.get(MapTag::GeneralStore).sources.is_empty());
}

#[test]
fn rebuild_all_brings_every_map_up_to_date() {
    let mut world = World::new();
    let mut maps = Maps::new();
    maps.mutget(MapTag::Adventure).add_source_no_rebuild(pt(0, 0));
    maps.mutget(MapTag::Sustenance).add_source_no_rebuild(pt(9, 0));
    world.statics.set(pt(1, 0), Some(Static::new(StaticTag::Wall)));
    world.statics.set(pt(1, 1), Some(Static::new(StaticTag::Wall)));
    maps.rebuild_all(&world);
    assert_eq!(maps.get(MapTag::Adventure).approach.at(pt(0, 2)), 2 * UNIT);
    assert_eq!(maps.get(MapTag::Adventure).approach.at(pt(2, 0)), 4 * UNIT);
    assert_eq!(maps.get(MapTag::Sustenance).approach.at(pt(2, 0)), 7 * UNIT);
    assert_eq!(maps.get(MapTag::Rest).approach.at(pt(2, 0)), UNREACHED);
}
