use rogue_mayor::constants::UNIT;
use rogue_mayor::dijkstra_map::{MapTag, Maps};
use rogue_mayor::grid::Point;
use rogue_mayor::mobiles::ai::{look_round, spot_at, Action, Sight, Task, RELIEF, SIGHT_BONUS};
use rogue_mayor::mobiles::{Mobile, Mobs};
use rogue_mayor::statics::{Static, StaticTag};
use rogue_mayor::types::World;

fn pt(x: usize, y: usize) -> Point {
    Point { x: x, y: y }
}

fn mob_at_home(home: Point) -> Mobile {
    Mobile::blank(home)
}

fn no_sight() -> Sight {
    Sight { adventure: false, general_store: false, rest: false, sustenance: false }
}

#[test]
fn end_to_end_walk_to_the_dungeon_and_interact() {
    let mut world = World::new();
    world.statics.set(pt(2, 2), Some(Static::new(StaticTag::Dungeon)));
    let mut maps = Maps::new();
    maps.mutget(MapTag::Adventure).add_source(pt(2, 2), &world);
    assert_eq!(maps.get(MapTag::Adventure).approach.at(pt(2, 2)), 0);
    assert_eq!(maps.get(MapTag::Adventure).approach.at(pt(0, 0)), 2 * UNIT);

    let mut mob = mob_at_home(pt(0, 0));
    let _ = mob.desires.insert(MapTag::Adventure, 1000);
    let mut mobs = Mobs::new();
    let _ = mobs.insert(pt(0, 0), mob);

    // Tick 1: the mob moves towards the source.
    let first = mob.step(pt(0, 0), &mut mobs, &maps, &world);
    assert_eq!(first, Action::Move(pt(1, 1)));
    assert!(!mobs.contains(pt(0, 0)));
    assert_eq!(mobs.get(pt(1, 1)), Some(mob));
    assert_eq!(mobs.positions(), vec![pt(1, 1)]);

    // Tick 2: the source is next to the mob and impassable: it interacts.
    let second = mob.step(pt(1, 1), &mut mobs, &maps, &world);
    assert_eq!(second, Action::Interact(pt(2, 2)));
    assert_eq!(mob.desires.get(MapTag::Adventure), Some(0));
    assert_eq!(mobs.positions(), vec![pt(1, 1)]);

    // Tick 3: nothing is wanted any more, so the mob wanders home.
    let third = mob.step(pt(1, 1), &mut mobs, &maps, &world);
    assert_eq!(third, Action::Move(pt(0, 0)));
    // Tick 4: at home there is nothing left to do.
    let fourth = mob.step(pt(0, 0), &mut mobs, &maps, &world);
    assert_eq!(fourth, Action::Wait);
}

#[test]
fn a_seen_source_outweighs_a_stronger_desire_out_of_sight() {
    let mut world = World::new();
    // A wall hides the far source from the mob.
    world.statics.set(pt(8, 10), Some(Static::new(StaticTag::Wall)));
    let mut maps = Maps::new();
    maps.mutget(MapTag::Adventure).add_source(pt(5, 10), &world);
    maps.mutget(MapTag::Rest).add_source(pt(11, 10), &world);
    assert_eq!(maps.get(MapTag::Adventure).approach.at(pt(10, 10)), 5 * UNIT);

    let mut mob = mob_at_home(pt(10, 10));
    let _ = mob.desires.insert(MapTag::Adventure, 1000);
    let _ = mob.desires.insert(MapTag::Rest, 20);

    let sight = look_round(pt(10, 10), &maps, &world);
    assert_eq!(
        sight,
        Sight { adventure: false, general_store: false, rest: true, sustenance: false }
    );
    // With the bonus the near, seen source decides.
    assert_eq!(mob.ai_score(&maps, sight, pt(11, 10)), 1000 * 60);
    assert_eq!(mob.ai_score(&maps, sight, pt(9, 10)), 1000 * 40 + 20 * SIGHT_BONUS as i128 * 20);
    assert_eq!(mob.ai_heatmap_wsum(pt(10, 10), &maps, &world), Some(pt(11, 10)));
    // Without it the stronger desire would.
    assert_eq!(mob.ai_score(&maps, no_sight(), pt(9, 10)), 1000 * 40 + 20 * 20);
    assert_eq!(mob.ai_score(&maps, no_sight(), pt(11, 10)), 1000 * 60);

    let mut mobs = Mobs::new();
    let _ = mobs.insert(pt(10, 10), mob);
    // There is nothing at the near source to interact with, so the mob
    // steps onto it.
    assert_eq!(mob.ai(pt(10, 10), &mut mobs, &maps, &world), Action::Move(pt(11, 10)));
    assert_eq!(mobs.positions(), vec![pt(11, 10)]);
}

#[test]
fn an_occupied_source_next_to_the_mob_is_interacted_with() {
    let mut world = World::new();
    world.statics.set(pt(5, 5), Some(Static::new(StaticTag::Bed)));
    let mut maps = Maps::new();
    maps.mutget(MapTag::Rest).add_source(pt(5, 5), &world);
    let sleeper = mob_at_home(pt(5, 5));
    let mut mob = mob_at_home(pt(0, 0));
    let _ = mob.desires.insert(MapTag::Rest, 2500);
    let mut mobs = Mobs::new();
    let _ = mobs.insert(pt(5, 5), sleeper);
    let _ = mobs.insert(pt(4, 5), mob);

    assert_eq!(mob.ai_interact_nearby(pt(4, 5), &maps), Some(pt(5, 5)));
    assert_eq!(mob.ai(pt(4, 5), &mut mobs, &maps, &world), Action::Interact(pt(5, 5)));
    assert_eq!(mob.desires.get(MapTag::Rest), Some(2500 - RELIEF));
    assert_eq!(mobs.positions(), vec![pt(4, 5), pt(5, 5)]);
    assert_eq!(mob.ai(pt(4, 5), &mut mobs, &maps, &world), Action::Interact(pt(5, 5)));
    assert_eq!(mob.desires.get(MapTag::Rest), Some(500));
    assert_eq!(mob.ai(pt(4, 5), &mut mobs, &maps, &world), Action::Interact(pt(5, 5)));
    assert_eq!(mob.desires.get(MapTag::Rest), Some(0));
}

#[test]
fn a_move_onto_an_occupied_goal_becomes_an_interaction() {
    let mut world = World::new();
    world.statics.set(pt(20, 20), Some(Static::new(StaticTag::InnCounter)));
    let mut maps = Maps::new();
    maps.mutget(MapTag::Sustenance).add_source(pt(20, 20), &world);
    let mut mob = mob_at_home(pt(0, 0));
    let _ = mob.desires.insert(MapTag::Sustenance, 700);
    let mut mobs = Mobs::new();
    let _ = mobs.insert(pt(19, 20), mob);
    let before = mob;

    let done = mob.ai_move_commit(pt(19, 20), &mut mobs, &maps, &world, pt(20, 20));
    assert_eq!(done, Some(Action::Interact(pt(20, 20))));
    assert_eq!(mob.desires.get(MapTag::Sustenance), Some(0));
    assert_eq!(mobs.get(pt(19, 20)), Some(before));
}

#[test]
fn a_move_onto_a_wall_fails() {
    let mut world = World::new();
    world.statics.set(pt(20, 20), Some(Static::new(StaticTag::Wall)));
    let maps = Maps::new();
    let mut mob = mob_at_home(pt(0, 0));
    let mut mobs = Mobs::new();
    let _ = mobs.insert(pt(19, 20), mob);
    assert_eq!(mob.ai_move_commit(pt(19, 20), &mut mobs, &maps, &world, pt(20, 20)), None);
    assert_eq!(mobs.positions(), vec![pt(19, 20)]);
}

#[test]
fn a_move_onto_another_mob_that_is_no_goal_fails() {
    let world = World::new();
    let mut maps = Maps::new();
    maps.mutget(MapTag::Adventure).add_source(pt(30, 20), &world);
    let mut mob = mob_at_home(pt(0, 0));
    let _ = mob.desires.insert(MapTag::Adventure, 1000);
    let mut mobs = Mobs::new();
    let _ = mobs.insert(pt(19, 20), mob);
    let _ = mobs.insert(pt(20, 20), mob_at_home(pt(1, 1)));
    assert_eq!(mob.ai_move_commit(pt(19, 20), &mut mobs, &maps, &world, pt(20, 20)), None);
    assert_eq!(mob.ai_move_commit(pt(19, 20), &mut mobs, &maps, &world, pt(20, 21)),
        Some(Action::Move(pt(20, 21))));
    assert_eq!(mobs.positions(), vec![pt(20, 20), pt(20, 21)]);
}

#[test]
fn the_priority_task_comes_before_the_heatmaps() {
    let world = World::new();
    let mut maps = Maps::new();
    maps.mutget(MapTag::Adventure).add_source(pt(0, 50), &world);
    let mut mob = mob_at_home(pt(0, 0));
    let _ = mob.desires.insert(MapTag::Adventure, 1000);
    mob.priority_task = Some(Task::MoveTo(pt(60, 50)));
    let mut mobs = Mobs::new();
    let _ = mobs.insert(pt(50, 50), mob);
    assert_eq!(mob.ai_advance_task(pt(50, 50), &world, &Task::MoveTo(pt(60, 50))),
        Some(pt(51, 49)));
    assert_eq!(mob.ai(pt(50, 50), &mut mobs, &maps, &world), Action::Move(pt(51, 49)));
    mob.priority_task = None;
    assert_eq!(mob.ai(pt(51, 49), &mut mobs, &maps, &world), Action::Move(pt(50, 48)));
}

#[test]
fn pathfinding_walks_round_walls_and_stops_at_the_target() {
    let mut world = World::new();
    for y in 0..=12 {
        world.statics.set(pt(10, y), Some(Static::new(StaticTag::Wall)));
    }
    let mob = mob_at_home(pt(0, 0));
    // The only way round the wall leads downwards.
    assert_eq!(mob.ai_pathfind(pt(9, 10), &world, pt(11, 10)), Some(pt(8, 11)));
    assert_eq!(mob.ai_pathfind(pt(9, 12), &world, pt(11, 10)), Some(pt(10, 13)));
    assert_eq!(mob.ai_pathfind(pt(11, 10), &world, pt(11, 10)), None);
    assert_eq!(mob.ai_pathfind(pt(11, 11), &world, pt(11, 10)), Some(pt(11, 10)));
}

#[test]
fn pathfinding_to_an_enclosed_target_finds_nothing() {
    let mut world = World::new();
    for (x, y) in [(9, 9), (10, 9), (11, 9), (9, 10), (11, 10), (9, 11), (10, 11), (11, 11)] {
        world.statics.set(pt(x, y), Some(Static::new(StaticTag::Wall)));
    }
    let mob = mob_at_home(pt(0, 0));
    assert_eq!(mob.ai_pathfind(pt(5, 5), &world, pt(10, 10)), None);
}

#[test]
fn nothing_to_want_and_at_home_means_waiting() {
    let world = World::new();
    let maps = Maps::new();
    let mut mob = mob_at_home(pt(7, 7));
    let mut mobs = Mobs::new();
    let _ = mobs.insert(pt(7, 7), mob);
    assert_eq!(mob.ai_heatmap_wsum(pt(7, 7), &maps, &world), None);
    assert_eq!(mob.ai(pt(7, 7), &mut mobs, &maps, &world), Action::Wait);
    assert_eq!(mobs.positions(), vec![pt(7, 7)]);
}

#[test]
fn a_desire_without_any_source_moves_nobody() {
    let world = World::new();
    let maps = Maps::new();
    let mut mob = mob_at_home(pt(7, 7));
    let _ = mob.desires.insert(MapTag::Rest, 1000);
    assert_eq!(mob.ai_heatmap_wsum(pt(7, 7), &maps, &world), None);
}

#[test]
fn a_zero_least_score_moves_nobody() {
    let world = World::new();
    let mut maps = Maps::new();
    maps.mutget(MapTag::Rest).add_source(pt(7, 7), &world);
    let mut mob = mob_at_home(pt(7, 7));
    let _ = mob.desires.insert(MapTag::Rest, 1000);
    // The mob stands on the source: the least score is zero.
    assert_eq!(mob.ai_heatmap_best(pt(7, 7), &maps, &world), (Some(pt(7, 7)), 0));
    assert_eq!(mob.ai_heatmap_wsum(pt(7, 7), &maps, &world), None);
}

#[test]
fn a_feared_source_is_fled_from_by_the_fitting_flee_map() {
    let world = World::new();
    let mut maps = Maps::new();
    maps.mutget(MapTag::Adventure).add_source(pt(100, 50), &world);
    let mut coward = mob_at_home(pt(0, 0));
    let _ = coward.desires.insert(MapTag::Adventure, -1000);
    let mut brave = coward;
    brave.is_brave = true;
    let sight = look_round(pt(90, 50), &maps, &world);
    assert!(sight.adventure);
    let timid_here = maps.get(MapTag::Adventure).flee_cowardly.at(pt(89, 50));
    let bold_here = maps.get(MapTag::Adventure).flee_bravely.at(pt(89, 50));
    assert_eq!(coward.ai_score(&maps, sight, pt(89, 50)), -100000 * timid_here as i128);
    assert_eq!(brave.ai_score(&maps, sight, pt(89, 50)), -100000 * bold_here as i128);
    assert!(timid_here != bold_here);
}

#[test]
fn interaction_needs_a_static_that_offers_a_desire_of_the_mob() {
    let mut world = World::new();
    world.statics.set(pt(3, 3), Some(Static::new(StaticTag::Bed)));
    world.statics.set(pt(4, 3), Some(Static::new(StaticTag::Door)));
    let mut mob = mob_at_home(pt(0, 0));
    let _ = mob.desires.insert(MapTag::Adventure, 300);
    assert!(!mob.ai_interact_at_point_commit(&world, pt(3, 3)));
    assert!(!mob.ai_interact_at_point_commit(&world, pt(4, 3)));
    assert!(!mob.ai_interact_at_point_commit(&world, pt(5, 3)));
    assert_eq!(mob.desires.get(MapTag::Adventure), Some(300));
    let _ = mob.desires.insert(MapTag::Rest, -50);
    assert!(mob.ai_interact_at_point_commit(&world, pt(3, 3)));
    assert_eq!(mob.desires.get(MapTag::Rest), Some(0));
    assert_eq!(mob.desires.get(MapTag::Adventure), Some(300));
}

#[test]
fn the_block_round_a_point_is_scanned_row_by_row() {
    assert_eq!(spot_at(pt(5, 5), 0), Some(pt(4, 4)));
    assert_eq!(spot_at(pt(5, 5), 4), Some(pt(5, 5)));
    assert_eq!(spot_at(pt(5, 5), 8), Some(pt(6, 6)));
    assert_eq!(spot_at(pt(0, 0), 0), None);
    assert_eq!(spot_at(pt(0, 0), 4), Some(pt(0, 0)));
    assert_eq!(spot_at(pt(199, 99), 5), None);
}

#[test]
fn the_same_inputs_give_the_same_action() {
    let mut world = World::new();
    world.statics.set(pt(30, 30), Some(Static::new(StaticTag::GStoreCounter)));
    let mut maps = Maps::new();
    maps.mutget(MapTag::GeneralStore).add_source(pt(30, 30), &world);
    let mut first = mob_at_home(pt(0, 0));
    let _ = first.desires.insert(MapTag::GeneralStore, 400);
    let mut second = first;
    let mut mobs = Mobs::new();
    let _ = mobs.insert(pt(40, 40), first);
    let mut others = Mobs::new();
    let _ = others.insert(pt(40, 40), second);
    let a = first.ai(pt(40, 40), &mut mobs, &maps, &world);
    let b = second.ai(pt(40, 40), &mut others, &maps, &world);
    assert_eq!(a, b);
    assert_eq!(a, Action::Move(pt(39, 39)));
    assert_eq!(mobs.positions(), others.positions());
    assert_eq!(first, second);
}

#[test]
fn a_query_says_what_the_commit_does_and_changes_nothing() {
    let mut world = World::new();
    world.statics.set(pt(2, 2), Some(Static::new(StaticTag::Dungeon)));
    world.statics.set(pt(0, 1), Some(Static::new(StaticTag::Wall)));
    let mut maps = Maps::new();
    maps.mutget(MapTag::Adventure).add_source(pt(2, 2), &world);
    let mut mob = mob_at_home(pt(0, 0));
    let _ = mob.desires.insert(MapTag::Adventure, 1500);
    let before = mob;
    let mut mobs = Mobs::new();
    let _ = mobs.insert(pt(1, 1), mob);

    assert!(mob.ai_interact_at_point_query(&world, pt(2, 2)));
    assert!(!mob.ai_interact_at_point_query(&world, pt(0, 1)));
    assert!(!mob.ai_interact_at_point_query(&world, pt(1, 0)));
    assert_eq!(mob.ai_move_query(&mobs, &maps, &world, pt(1, 0)), Some(Action::Move(pt(1, 0))));
    assert_eq!(mob.ai_move_query(&mobs, &maps, &world, pt(0, 1)), None);
    assert_eq!(mob.ai_move_query(&mobs, &maps, &world, pt(2, 2)), Some(Action::Interact(pt(2, 2))));
    assert_eq!(mob.ai_decide(pt(1, 1), &mobs, &maps, &world), Action::Interact(pt(2, 2)));
    assert_eq!(mob, before);
    assert_eq!(mobs.positions(), vec![pt(1, 1)]);

    assert_eq!(
        mob.ai_move_commit(pt(1, 1), &mut mobs, &maps, &world, pt(2, 2)),
        Some(Action::Interact(pt(2, 2)))
    );
    assert_eq!(mob.desires.get(MapTag::Adventure), Some(500));
    assert_eq!(mob.ai_move_commit(pt(1, 1), &mut mobs, &maps, &world, pt(0, 1)), None);
    assert_eq!(
        mob.ai_move_commit(pt(1, 1), &mut mobs, &maps, &world, pt(1, 0)),
        Some(Action::Move(pt(1, 0)))
    );
    assert_eq!(mobs.positions(), vec![pt(1, 0)]);
    assert_eq!(mobs.get(pt(1, 0)), Some(mob));
}
