use rogue_mayor::grid::Point;
use rogue_mayor::mobiles::{Desires, Mobile, Mobs};
use rogue_mayor::statics::{Static, StaticTag};
use rogue_mayor::dijkstra_map::MapTag;
use rogue_mayor::types::{Message, World};
use rogue_mayor::utils::{can_see, inclusive_range, is_occupied, make_delta, signed_add};

fn pt(x: usize, y: usize) -> Point {
    Point { x: x, y: y }
}

#[test]
fn inclusive_range_goes_up_and_down() {
    assert_eq!(inclusive_range(-1, 1), vec![-1, 0, 1]);
    assert_eq!(inclusive_range(3, 0), vec![3, 2, 1, 0]);
    assert_eq!(inclusive_range(5, 5), vec![5]);
    assert_eq!(inclusive_range(-60, -58), vec![-60, -59, -58]);
}

#[test]
fn signed_add_saturates_at_both_ends() {
    assert_eq!(signed_add(5, 3), 8);
    assert_eq!(signed_add(5, -3), 2);
    assert_eq!(signed_add(2, -3), 0);
    assert_eq!(signed_add(0, -128), 0);
    assert_eq!(signed_add(200, -128), 72);
    assert_eq!(signed_add(usize::MAX - 1, 127), usize::MAX);
    assert_eq!(signed_add(7, 0), 7);
}

#[test]
fn make_delta_gives_distance_and_direction() {
    assert_eq!(make_delta(3, 10), (7, true));
    assert_eq!(make_delta(10, 3), (7, false));
    assert_eq!(make_delta(4, 4), (0, false));
}

#[test]
fn sight_passes_where_nothing_opaque_stands_between() {
    let mut world = World::new();
    assert!(can_see(pt(0, 0), pt(10, 0), &world));
    assert!(can_see(pt(3, 3), pt(3, 3), &world));
    world.statics.set(pt(5, 0), Some(Static::new(StaticTag::Wall)));
    assert!(!can_see(pt(0, 0), pt(10, 0), &world));
    assert!(!can_see(pt(10, 0), pt(0, 0), &world));
    assert!(can_see(pt(0, 1), pt(10, 1), &world));
    // What is not opaque does not block.
    world.statics.set(pt(5, 1), Some(Static::new(StaticTag::Dungeon)));
    assert!(can_see(pt(0, 1), pt(10, 1), &world));
}

#[test]
fn the_ends_of_a_line_of_sight_do_not_block_it() {
    let mut world = World::new();
    world.statics.set(pt(0, 0), Some(Static::new(StaticTag::Wall)));
    world.statics.set(pt(6, 3), Some(Static::new(StaticTag::Wall)));
    assert!(can_see(pt(0, 0), pt(6, 3), &world));
    assert!(can_see(pt(6, 3), pt(0, 0), &world));
    assert!(can_see(pt(5, 3), pt(6, 3), &world));
}

#[test]
fn the_line_of_sight_drifts_by_rounding_to_the_nearest_cell() {
    // From (0,0) to (6,3) the line visits (1,1), (2,1), (3,2), (4,2),
    // (5,3): `i / 2` rounded, a half counting upwards.
    for (x, y, blocks) in [
        (1, 1, true),
        (2, 1, true),
        (3, 2, true),
        (4, 2, true),
        (5, 3, true),
        (1, 0, false),
        (2, 2, false),
        (3, 1, false),
        (4, 3, false),
        (5, 2, false),
    ] {
        let mut world = World::new();
        world.statics.set(pt(x, y), Some(Static::new(StaticTag::Wall)));
        assert_eq!(can_see(pt(0, 0), pt(6, 3), &world), !blocks);
    }
    // A steep line moves along the rows.
    let mut world = World::new();
    world.statics.set(pt(11, 7), Some(Static::new(StaticTag::Wall)));
    assert!(!can_see(pt(10, 10), pt(12, 4), &world));
    assert!(can_see(pt(10, 10), pt(9, 4), &world));
}

#[test]
fn occupied_means_a_mob_or_something_impassable() {
    let mut world = World::new();
    world.statics.set(pt(1, 1), Some(Static::new(StaticTag::Wall)));
    world.statics.set(pt(2, 2), Some(Static::new(StaticTag::Door)));
    let mut mobs = Mobs::new();
    let mob = Mobile::blank(pt(0, 0));
    let _ = mobs.insert(pt(3, 3), mob);
    assert!(is_occupied(pt(1, 1), &mobs, &world));
    assert!(!is_occupied(pt(2, 2), &mobs, &world));
    assert!(is_occupied(pt(3, 3), &mobs, &world));
    assert!(!is_occupied(pt(4, 4), &mobs, &world));
}

#[test]
fn mobs_are_kept_by_position() {
    let mut mobs = Mobs::new();
    let mut a = Mobile::blank(pt(0, 0));
    a.is_brave = true;
    let _ = a.desires.insert(MapTag::Rest, 5);
    let b = Mobile::blank(pt(9, 9));
    assert_eq!(mobs.insert(pt(5, 1), a), None);
    assert_eq!(mobs.insert(pt(1, 7), b), None);
    assert_eq!(mobs.insert(pt(5, 1), b), Some(a));
    assert!(mobs.contains(pt(1, 7)));
    assert!(!mobs.contains(pt(7, 1)));
    assert_eq!(mobs.get(pt(5, 1)), Some(b));
    assert_eq!(mobs.get(pt(5, 2)), None);
    // Columns first, then rows.
    let _ = mobs.insert(pt(1, 9), a);
    assert_eq!(mobs.positions(), vec![pt(1, 7), pt(1, 9), pt(5, 1)]);
    assert_eq!(mobs.remove(pt(1, 7)), Some(b));
    assert_eq!(mobs.remove(pt(1, 7)), None);
    assert_eq!(mobs.positions(), vec![pt(1, 9), pt(5, 1)]);
}

#[test]
fn desires_keep_one_weight_per_tag() {
    let mut d = Desires::new();
    assert_eq!(d.get(MapTag::Adventure), None);
    assert_eq!(d.insert(MapTag::Adventure, 10), None);
    assert_eq!(d.insert(MapTag::Adventure, -3), Some(10));
    assert_eq!(d.get(MapTag::Adventure), Some(-3));
    assert_eq!(d.get(MapTag::GeneralStore), None);
    assert_eq!(d.insert(MapTag::Sustenance, 1), None);
    assert_eq!(d.insert(MapTag::Rest, 2), None);
    assert_eq!(d.insert(MapTag::GeneralStore, 3), None);
    assert_eq!(d.get(MapTag::Sustenance), Some(1));
    assert_eq!(d.get(MapTag::Rest), Some(2));
    assert_eq!(d.get(MapTag::GeneralStore), Some(3));
}

#[test]
fn statics_know_what_they_block_and_offer() {
    let wall = Static::new(StaticTag::Wall);
    assert!(wall.is_impassable && wall.is_opaque);
    assert_eq!(wall.maptag(), None);
    let door = Static::new(StaticTag::Door);
    assert!(!door.is_impassable && !door.is_opaque);
    assert_eq!(door.maptag(), None);
    let bed = Static::new(StaticTag::Bed);
    assert!(!bed.is_impassable && !bed.is_opaque);
    assert_eq!(bed.maptag(), Some(MapTag::Rest));
    for (tag, offer) in [
        (StaticTag::Dungeon, MapTag::Adventure),
        (StaticTag::GStoreCounter, MapTag::GeneralStore),
        (StaticTag::InnCounter, MapTag::Sustenance),
    ] {
        let s = Static::new(tag);
        assert_eq!(s.tag, tag);
        assert!(s.is_impassable && !s.is_opaque);
        assert_eq!(s.maptag(), Some(offer));
    }
}

#[test]
fn a_new_world_is_empty_and_logs_newest_first() {
    let mut world = World::new();
    assert_eq!(world.cursor, pt(0, 0));
    assert!(world.template.is_none());
    assert!(world.messages.is_empty());
    assert_eq!(world.statics.at(pt(100, 50)), None);
    assert!(!world.is_impassable(pt(100, 50)));
    assert!(!world.is_opaque(pt(100, 50)));
    world.log(Message { msg: "one".to_string(), loc: None });
    world.log(Message { msg: "two".to_string(), loc: Some(pt(1, 2)) });
    world.step();
    assert_eq!(world.messages.len(), 2);
    assert_eq!(world.messages[0].msg, "two");
    assert_eq!(world.messages[0].loc, Some(pt(1, 2)));
    assert_eq!(world.messages[1].msg, "one");
}
