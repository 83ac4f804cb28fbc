//! The course of the game: what one turn does to the mobiles of the world,
//! and what a command of the user does to the world.
//!
//! A turn is double-buffered. Every mobile decides against the mobiles as
//! they stood when the turn began, so that no decision depends on who moved
//! before; the decisions are then carried out one after the other, column by
//! column, into a new registry. Only where two mobiles want the same free
//! cell does the order show: the first gets it, and the second stays where
//! it is. Deciding against the registry as it changes would save the second
//! registry, and make every outcome depend on the order.

use crate::constants::{CELLS, HEIGHT, WIDTH};
use crate::dijkstra_map::{MapTag, Maps};
use crate::grid::Point;
use crate::mobiles::ai::{after_interaction, can_interact, decision, is_goal, Action};
use crate::mobiles::{cell_key, Mobile, Mobs};
use crate::templates::{components_of, rows_of, Template};
use crate::types::{fits, placed, sourced, Command, World};
use vstd::prelude::*;

verus! {

/// Whether a cell is taken: a mobile has claimed it in this turn, or
/// something impassable stands there.
pub open spec fn taken(q: Point, claimed: Map<Point, Mobile>, world: &World) -> bool {
    claimed.contains_key(q) || world.impassable(q)
}

/// Where a mobile stands after its turn: at the cell that it decided to
/// move to, unless that cell is taken by now.
pub open spec fn landing(pos: Point, claimed: Map<Point, Mobile>, world: &World, action: Action) -> Point {
    match action {
        Action::Move(q) => if taken(q, claimed, world) {
            pos
        } else {
            q
        },
        _ => pos,
    }
}

/// A mobile after its turn: an interaction changes it, and so does a move
/// to a cell that is taken by now but is a goal with which the mobile can
/// interact.
pub open spec fn outcome(
    mob: Mobile,
    claimed: Map<Point, Mobile>,
    maps: &Maps,
    world: &World,
    action: Action,
) -> Mobile {
    match action {
        Action::Move(q) => if taken(q, claimed, world) && is_goal(mob, maps, world, q)
            && can_interact(mob, world, q) {
            after_interaction(mob, world, q)
        } else {
            mob
        },
        Action::Interact(q) => after_interaction(mob, world, q),
        Action::Wait => mob,
    }
}

/// The cell with a given number, counting column by column.
pub open spec fn cell_point(c: nat) -> Point {
    Point { x: (c / HEIGHT as nat) as usize, y: (c % HEIGHT as nat) as usize }
}

/// The new registry after the mobiles of the first `c` cells had their
/// turns: each decided against the registry as the turn began, and took
/// its place among those that had their turns before.
#[verifier::opaque]
pub open spec fn ticked_upto(mobs: &Mobs, maps: &Maps, world: &World, c: nat) -> Map<Point, Mobile>
    decreases c,
{
    if c == 0 {
        Map::empty()
    } else {
        let claimed = ticked_upto(mobs, maps, world, (c - 1) as nat);
        let pos = cell_point((c - 1) as nat);
        if mobs@.contains_key(pos) {
            let mob = mobs@[pos];
            let action = decision(mob, pos, mobs, maps, world);
            claimed.remove(pos).insert(
                landing(pos, claimed, world, action),
                outcome(mob, claimed, maps, world, action),
            )
        } else {
            claimed
        }
    }
}

/// The registry after a turn.
pub open spec fn ticked(mobs: &Mobs, maps: &Maps, world: &World) -> Map<Point, Mobile> {
    ticked_upto(mobs, maps, world, CELLS as nat)
}

/// Where the mobile that stood at `pos` stands after the turn.
#[verifier::opaque]
pub open spec fn place_after(mobs: &Mobs, maps: &Maps, world: &World, pos: Point) -> Point {
    landing(
        pos,
        ticked_upto(mobs, maps, world, cell_key(pos) as nat),
        world,
        decision(mobs@[pos], pos, mobs, maps, world),
    )
}

/// The mobile that stood at `pos`, as it is after the turn.
#[verifier::opaque]
pub open spec fn mobile_after(mobs: &Mobs, maps: &Maps, world: &World, pos: Point) -> Mobile {
    outcome(
        mobs@[pos],
        ticked_upto(mobs, maps, world, cell_key(pos) as nat),
        maps,
        world,
        decision(mobs@[pos], pos, mobs, maps, world),
    )
}

/// Whether the mobiles of the first `c` cells, and no others, stand in the
/// new registry, each at its own place.
pub open spec fn kept_upto(mobs: &Mobs, maps: &Maps, world: &World, c: nat) -> bool {
    let claimed = ticked_upto(mobs, maps, world, c);
    &&& forall|p: Point|
        #![trigger mobs@.contains_key(p)]
        mobs@.contains_key(p) && cell_key(p) < c ==> claimed.contains_key(
            place_after(mobs, maps, world, p),
        ) && claimed[place_after(mobs, maps, world, p)] == mobile_after(mobs, maps, world, p)
    &&& forall|r: Point| #[trigger]
        claimed.contains_key(r) ==> exists|p: Point|
            #![trigger mobs@.contains_key(p)]
            mobs@.contains_key(p) && cell_key(p) < c && place_after(mobs, maps, world, p) == r
}

/// A mobile stays where it stood, or goes to a cell where nobody stood when
/// the turn began.
pub proof fn lemma_place_after(mobs: &Mobs, maps: &Maps, world: &World, p: Point)
    requires
        mobs@.contains_key(p),
    ensures
        place_after(mobs, maps, world, p) == p || !mobs@.contains_key(
            place_after(mobs, maps, world, p),
        ),
        !ticked_upto(mobs, maps, world, cell_key(p) as nat).contains_key(
            place_after(mobs, maps, world, p),
        ) || place_after(mobs, maps, world, p) == p,
{
    reveal(place_after);
}

/// What the turn of the mobile in one cell does to the new registry.
pub proof fn lemma_ticked_step(mobs: &Mobs, maps: &Maps, world: &World, c: nat)
    requires
        c < CELLS,
    ensures
        cell_point(c).in_bounds(),
        cell_key(cell_point(c)) == c,
        ticked_upto(mobs, maps, world, 0) == Map::<Point, Mobile>::empty(),
        ticked_upto(mobs, maps, world, c + 1) == if mobs@.contains_key(cell_point(c)) {
            ticked_upto(mobs, maps, world, c).remove(cell_point(c)).insert(
                place_after(mobs, maps, world, cell_point(c)),
                mobile_after(mobs, maps, world, cell_point(c)),
            )
        } else {
            ticked_upto(mobs, maps, world, c)
        },
{
    reveal(place_after);
    reveal(mobile_after);
    reveal(ticked_upto);
}

/// The number of a cell gives the cell back.
pub proof fn lemma_cell_point(p: Point)
    requires
        p.in_bounds(),
    ensures
        cell_point(cell_key(p) as nat) == p,
        cell_key(p) < CELLS,
{
}

/// The mobiles of the first `c` cells, and no others, stand in the new
/// registry, each at its own place.
pub proof fn lemma_kept_upto(mobs: &Mobs, maps: &Maps, world: &World, c: nat)
    requires
        c <= CELLS,
    ensures
        kept_upto(mobs, maps, world, c),
    decreases c,
{
    if c == 0 {
        lemma_ticked_step(mobs, maps, world, 0);
    } else {
        let c0 = (c - 1) as nat;
        lemma_kept_upto(mobs, maps, world, c0);
        lemma_ticked_step(mobs, maps, world, c0);
        let claimed = ticked_upto(mobs, maps, world, c0);
        let next = ticked_upto(mobs, maps, world, c);
        let pos = cell_point(c0);
        if mobs@.contains_key(pos) {
            let at = place_after(mobs, maps, world, pos);
            lemma_place_after(mobs, maps, world, pos);
            // Nobody stands yet where this mobile stood, or where it goes.
            assert(!claimed.contains_key(pos)) by {
                if claimed.contains_key(pos) {
                    let q = choose|q: Point|
                        #![trigger mobs@.contains_key(q)]
                        mobs@.contains_key(q) && cell_key(q) < c0 && place_after(
                            mobs,
                            maps,
                            world,
                            q,
                        ) == pos;
                    lemma_place_after(mobs, maps, world, q);
                }
            }
            assert(!claimed.contains_key(at));
            assert forall|p: Point|
                #![trigger mobs@.contains_key(p)]
                mobs@.contains_key(p) && cell_key(p) < c implies next.contains_key(
                place_after(mobs, maps, world, p),
            ) && next[place_after(mobs, maps, world, p)] == mobile_after(mobs, maps, world, p) by {
                if cell_key(p) < c0 {
                    assert(claimed.contains_key(place_after(mobs, maps, world, p)));
                } else if p != pos {
                    mobs.lemma_on_the_map(p);
                    crate::mobiles::lemma_cell_key_injective(p, pos);
                }
            }
            assert forall|r: Point| #[trigger] next.contains_key(r) implies exists|p: Point|
                #![trigger mobs@.contains_key(p)]
                mobs@.contains_key(p) && cell_key(p) < c && place_after(mobs, maps, world, p)
                    == r by {
                if r == at {
                    assert(mobs@.contains_key(pos) && cell_key(pos) < c);
                } else {
                    assert(claimed.contains_key(r));
                    let p = choose|p: Point|
                        #![trigger mobs@.contains_key(p)]
                        mobs@.contains_key(p) && cell_key(p) < c0 && place_after(
                            mobs,
                            maps,
                            world,
                            p,
                        ) == r;
                    assert(mobs@.contains_key(p) && cell_key(p) < c);
                }
            }
        } else {
            assert forall|p: Point|
                #![trigger mobs@.contains_key(p)]
                mobs@.contains_key(p) && cell_key(p) < c implies cell_key(p) < c0 by {
                if cell_key(p) == c0 && p != pos {
                    mobs.lemma_on_the_map(p);
                    crate::mobiles::lemma_cell_key_injective(p, pos);
                }
            }
            assert forall|r: Point| #[trigger] next.contains_key(r) implies exists|p: Point|
                #![trigger mobs@.contains_key(p)]
                mobs@.contains_key(p) && cell_key(p) < c && place_after(mobs, maps, world, p)
                    == r by {
                let p = choose|p: Point|
                    #![trigger mobs@.contains_key(p)]
                    mobs@.contains_key(p) && cell_key(p) < c0 && place_after(mobs, maps, world, p)
                        == r;
                assert(mobs@.contains_key(p) && cell_key(p) < c);
            }
        }
    }
}

/// A turn loses nobody and makes nobody up. Every mobile stands in the new
/// registry, at its own place and as its turn left it; no two mobiles come
/// to stand at one place; and whoever stands in the new registry stood in
/// the old one.
pub proof fn lemma_tick_keeps_everyone(mobs: &Mobs, maps: &Maps, world: &World)
    ensures
        forall|p: Point|
            #![trigger mobs@.contains_key(p)]
            mobs@.contains_key(p) ==> ticked(mobs, maps, world).contains_key(
                place_after(mobs, maps, world, p),
            ) && ticked(mobs, maps, world)[place_after(mobs, maps, world, p)] == mobile_after(
                mobs,
                maps,
                world,
                p,
            ),
        forall|p: Point, q: Point|
            #![trigger mobs@.contains_key(p), mobs@.contains_key(q)]
            mobs@.contains_key(p) && mobs@.contains_key(q) && p != q ==> place_after(
                mobs,
                maps,
                world,
                p,
            ) != place_after(mobs, maps, world, q),
        forall|r: Point| #[trigger]
            ticked(mobs, maps, world).contains_key(r) ==> exists|p: Point|
                #![trigger mobs@.contains_key(p)]
                mobs@.contains_key(p) && place_after(mobs, maps, world, p) == r,
{
    lemma_kept_upto(mobs, maps, world, CELLS as nat);
    assert forall|p: Point|
        #![trigger mobs@.contains_key(p)]
        mobs@.contains_key(p) implies cell_key(p) < CELLS by {
        mobs.lemma_on_the_map(p);
        lemma_cell_point(p);
    }
    assert forall|p: Point, q: Point|
        #![trigger mobs@.contains_key(p), mobs@.contains_key(q)]
        mobs@.contains_key(p) && mobs@.contains_key(q) && p != q implies place_after(
        mobs,
        maps,
        world,
        p,
    ) != place_after(mobs, maps, world, q) by {
        mobs.lemma_on_the_map(p);
        mobs.lemma_on_the_map(q);
        crate::mobiles::lemma_cell_key_injective(p, q);
        // The one with the later turn finds the place of the other claimed.
        let (first, second) = if cell_key(p) < cell_key(q) {
            (p, q)
        } else {
            (q, p)
        };
        lemma_kept_upto(mobs, maps, world, cell_key(second) as nat);
        lemma_place_after(mobs, maps, world, second);
        lemma_place_after(mobs, maps, world, first);
        assert(ticked_upto(mobs, maps, world, cell_key(second) as nat).contains_key(
            place_after(mobs, maps, world, first),
        ));
    }
}

/// Do a turn of every mobile. Each decides against the registry as it is
/// handed in, and the decisions are carried out column by column into the
/// registry that is returned.
pub fn tick(mobs: &Mobs, maps: &Maps, world: &World) -> (next: Mobs)
    requires
        maps.wf(),
        forall|p: Point| mobs@.contains_key(p) ==> (#[trigger] mobs@[p]).wf(),
    ensures
        next@ == ticked(mobs, maps, world),
{
    let mut next = Mobs::new();
    let mut x: usize = 0;
    proof {
        lemma_ticked_step(mobs, maps, world, 0);
    }
    while x < WIDTH
        invariant
            x <= WIDTH,
            maps.wf(),
            forall|p: Point| mobs@.contains_key(p) ==> (#[trigger] mobs@[p]).wf(),
            next@ == ticked_upto(mobs, maps, world, (x * HEIGHT) as nat),
        decreases WIDTH - x,
    {
        let mut y: usize = 0;
        while y < HEIGHT
            invariant
                x < WIDTH,
                y <= HEIGHT,
                maps.wf(),
                forall|p: Point| mobs@.contains_key(p) ==> (#[trigger] mobs@[p]).wf(),
                next@ == ticked_upto(mobs, maps, world, (x * HEIGHT + y) as nat),
            decreases HEIGHT - y,
        {
            let pos = Point { x: x, y: y };
            let ghost claimed = next@;
            proof {
                lemma_cell_point(pos);
                lemma_ticked_step(mobs, maps, world, (x * HEIGHT + y) as nat);
                reveal(place_after);
                reveal(mobile_after);
            }
            match mobs.get(pos) {
                Some(mob) => {
                    let mut me = mob;
                    let action = mob.ai_decide(pos, mobs, maps, world);
                    match action {
                        Action::Move(new_pos) => {
                            match me.ai_move_commit(pos, &mut next, maps, world, new_pos) {
                                Some(Action::Move(_)) => {},
                                _ => {
                                    let _ = next.insert(pos, me);
                                },
                            }
                        },
                        Action::Interact(target_pos) => {
                            let _ = me.ai_interact_at_point_commit(world, target_pos);
                            let _ = next.insert(pos, me);
                        },
                        Action::Wait => {
                            let _ = next.insert(pos, me);
                        },
                    }
                    assert(next@ =~= claimed.remove(pos).insert(
                        landing(pos, claimed, world, action),
                        outcome(mob, claimed, maps, world, action),
                    ));
                },
                None => {},
            }
            y += 1;
        }
        x += 1;
    }
    next
}

/// What the game does after a command.
#[derive(Clone, Copy, Debug, PartialEq, Eq, Structural)]
pub enum Flow {
    /// Ask the user for the next command.
    Prompt,
    /// Do a turn.
    Advance,
    /// End the game.
    Quit,
}

/// Carry out a command of the user. Building lays the active template down
/// at the cursor, as `World::build` says, and puts the template away.
pub fn obey(world: &mut World, maps: &mut Maps, command: Command) -> (flow: Flow)
    requires
        old(maps).wf(),
        command is BuildTemplate ==> match old(world).template {
            Some(tpl) => fits(tpl.components@, old(world).cursor),
            None => true,
        },
    ensures
        flow == match command {
            Command::Quit => Flow::Quit,
            Command::Step => Flow::Advance,
            _ => Flow::Prompt,
        },
        final(maps).wf(),
        final(world).messages == old(world).messages,
        match command {
            Command::BuildTemplate => {
                &&& final(world).cursor == old(world).cursor
                &&& final(world).template is None
                &&& match old(world).template {
                    Some(tpl) => {
                        &&& final(world).statics@ == placed(
                            old(world).statics@,
                            tpl.components@,
                            old(world).cursor,
                            tpl.components@.len() as int,
                        )
                        &&& forall|tag: MapTag|
                            (#[trigger] final(maps).map_of(tag)).sources@ == sourced(
                                old(maps).map_of(tag).sources@,
                                tpl.components@,
                                old(world).cursor,
                                tag,
                                tpl.components@.len() as int,
                            )
                        &&& final(maps).is_current(final(world))
                    },
                    None => final(world).statics == old(world).statics && *final(maps) == *old(
                        maps,
                    ),
                }
            },
            Command::SetCursorTo(c) => {
                &&& final(world).cursor == c
                &&& final(world).template == old(world).template
                &&& final(world).statics == old(world).statics
                &&& *final(maps) == *old(maps)
            },
            Command::SetTemplateTo(t) => {
                &&& final(world).cursor == old(world).cursor
                &&& final(world).template is Some
                &&& final(world).template->0.components@ == components_of(rows_of(t))
                &&& final(world).statics == old(world).statics
                &&& *final(maps) == *old(maps)
            },
            _ => *final(world) == *old(world) && *final(maps) == *old(maps),
        },
{
    match command {
        Command::BuildTemplate => {
            world.build(maps);
            world.template = None;
            Flow::Prompt
        },
        Command::Quit => Flow::Quit,
        Command::Render => Flow::Prompt,
        Command::SetCursorTo(c) => {
            world.cursor = c;
            Flow::Prompt
        },
        Command::SetTemplateTo(t) => {
            world.template = Some(Template::new(t));
            Flow::Prompt
        },
        Command::Step => {
            world.step();
            Flow::Advance
        },
    }
}

} // verus!
