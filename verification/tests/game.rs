use rogue_mayor::dijkstra_map::{MapTag, Maps};
use rogue_mayor::game::{obey, tick, Flow};
use rogue_mayor::grid::Point;
use rogue_mayor::mobiles::ai::{Action, Task, RELIEF};
use rogue_mayor::mobiles::{Mobile, Mobs};
use rogue_mayor::statics::{Static, StaticTag};
use rogue_mayor::templates::Templates;
use rogue_mayor::types::{Command, World};

fn cell(x: usize, y: usize) -> Point {
    Point { x: x, y: y }
}

fn adventurer(home: Point) -> Mobile {
    let mut mob = Mobile::blank(home);
    let _ = mob.desires.insert(MapTag::Adventure, 2500);
    mob
}

fn dungeon_at(p: Point) -> (World, Maps) {
    let mut world = World::new();
    world.statics.set(p, Some(Static::new(StaticTag::Dungeon)));
    let mut maps = Maps::new();
    maps.mutget(MapTag::Adventure).add_source(p, &world);
    (world, maps)
}

#[test]
fn a_turn_of_nobody_leaves_nobody() {
    let (world, maps) = dungeon_at(cell(10, 0));
    let next = tick(&Mobs::new(), &maps, &world);
    assert!(next.positions().is_empty());
}

#[test]
fn of_two_mobs_that_want_one_cell_the_first_gets_it() {
    let (world, maps) = dungeon_at(cell(10, 0));
    let first = adventurer(cell(0, 0));
    let second = adventurer(cell(0, 1));
    let mut mobs = Mobs::new();
    let _ = mobs.insert(cell(0, 1), second);
    let _ = mobs.insert(cell(0, 0), first);
    // Both decide for the same cell.
    assert_eq!(first.ai_decide(cell(0, 0), &mobs, &maps, &world), Action::Move(cell(1, 0)));
    assert_eq!(second.ai_decide(cell(0, 1), &mobs, &maps, &world), Action::Move(cell(1, 0)));
    let next = tick(&mobs, &maps, &world);
    assert_eq!(next.positions(), vec![cell(0, 1), cell(1, 0)]);
    assert_eq!(next.get(cell(1, 0)), Some(first));
    assert_eq!(next.get(cell(0, 1)), Some(second));
    // The registry that was handed in is as it was.
    assert_eq!(mobs.positions(), vec![cell(0, 0), cell(0, 1)]);
}

#[test]
fn nobody_steps_into_a_cell_that_is_left_in_the_same_turn() {
    let (world, maps) = dungeon_at(cell(10, 0));
    let behind = adventurer(cell(0, 0));
    let ahead = adventurer(cell(1, 0));
    let mut mobs = Mobs::new();
    let _ = mobs.insert(cell(0, 0), behind);
    let _ = mobs.insert(cell(1, 0), ahead);
    assert_eq!(behind.ai_decide(cell(0, 0), &mobs, &maps, &world), Action::Wait);
    let next = tick(&mobs, &maps, &world);
    assert_eq!(next.positions(), vec![cell(0, 0), cell(2, 0)]);
    // In the next turn the cell is free.
    let then = tick(&next, &maps, &world);
    assert_eq!(then.positions(), vec![cell(1, 0), cell(3, 0)]);
}

#[test]
fn a_decision_does_not_depend_on_the_mobs_that_moved_before() {
    let (world, maps) = dungeon_at(cell(10, 5));
    let mut mobs = Mobs::new();
    let mut y = 0;
    while y < 10 {
        let _ = mobs.insert(cell(0, y), adventurer(cell(0, y)));
        y += 1;
    }
    let mut decided = Vec::new();
    for p in mobs.positions() {
        decided.push(mobs.get(p).unwrap().ai_decide(p, &mobs, &maps, &world));
    }
    let next = tick(&mobs, &maps, &world);
    // Nobody is lost, and each mob stands where it was or where it decided to go.
    assert_eq!(next.positions().len(), 10);
    for (i, p) in mobs.positions().into_iter().enumerate() {
        match decided[i] {
            Action::Move(q) => assert!(next.get(q).is_some() || next.get(p).is_some()),
            _ => assert_eq!(next.get(p), mobs.get(p)),
        }
    }
}

#[test]
fn an_interaction_changes_the_mob_in_the_new_registry() {
    let (world, maps) = dungeon_at(cell(2, 2));
    let mob = adventurer(cell(0, 0));
    let mut mobs = Mobs::new();
    let _ = mobs.insert(cell(1, 1), mob);
    let next = tick(&mobs, &maps, &world);
    assert_eq!(next.positions(), vec![cell(1, 1)]);
    let after = next.get(cell(1, 1)).unwrap();
    assert_eq!(after.desires.get(MapTag::Adventure), Some(2500 - RELIEF));
    assert_eq!(mobs.get(cell(1, 1)), Some(mob));
    let twice = tick(&tick(&next, &maps, &world), &maps, &world);
    assert_eq!(twice.get(cell(1, 1)).unwrap().desires.get(MapTag::Adventure), Some(0));
    // With nothing left to want the mob goes home.
    let home = tick(&twice, &maps, &world);
    assert_eq!(home.positions(), vec![cell(0, 0)]);
    assert_eq!(tick(&home, &maps, &world).positions(), vec![cell(0, 0)]);
}

#[test]
fn a_task_goes_before_the_heatmaps() {
    let (world, maps) = dungeon_at(cell(10, 0));
    let mut mob = adventurer(cell(0, 0));
    mob.priority_task = Some(Task::MoveTo(cell(0, 5)));
    let mut mobs = Mobs::new();
    let _ = mobs.insert(cell(0, 0), mob);
    let next = tick(&mobs, &maps, &world);
    assert_eq!(next.positions(), vec![cell(0, 1)]);
}

#[test]
fn commands_change_the_world() {
    let mut world = World::new();
    let mut maps = Maps::new();
    assert_eq!(obey(&mut world, &mut maps, Command::SetCursorTo(cell(20, 30))), Flow::Prompt);
    assert_eq!(world.cursor, cell(20, 30));
    assert_eq!(obey(&mut world, &mut maps, Command::Render), Flow::Prompt);
    assert_eq!(obey(&mut world, &mut maps, Command::BuildTemplate), Flow::Prompt);
    assert_eq!(world.statics.at(cell(20, 30)), None);
    assert_eq!(obey(&mut world, &mut maps, Command::SetTemplateTo(Templates::Inn)), Flow::Prompt);
    assert_eq!(world.template.as_ref().map(|t| t.components.len()), Some(44));
    assert_eq!(world.cursor, cell(20, 30));
    assert_eq!(obey(&mut world, &mut maps, Command::BuildTemplate), Flow::Prompt);
    assert!(world.template.is_none());
    assert_eq!(world.statics.at(cell(20, 30)), Some(Static::new(StaticTag::Wall)));
    assert_eq!(maps.get(MapTag::Rest).sources, vec![cell(21, 31), cell(23, 31), cell(25, 31)]);
    assert_eq!(maps.get(MapTag::Rest).approach.at(cell(21, 31)), 0);
    assert_eq!(obey(&mut world, &mut maps, Command::Step), Flow::Advance);
    assert_eq!(obey(&mut world, &mut maps, Command::Quit), Flow::Quit);
    assert_eq!(world.cursor, cell(20, 30));
    assert_eq!(world.statics.at(cell(21, 31)), Some(Static::new(StaticTag::Bed)));
    assert!(world.messages.is_empty());
}
