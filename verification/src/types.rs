//! The state of the game world, and the commands that change it.

use crate::constants::{CELLS, HEIGHT, WIDTH};
use crate::dijkstra_map::{MapTag, Maps};
use crate::flood::shut;
use crate::grid::{Grid, Point};
use crate::statics::Static;
use crate::templates::{Template, Templates};
use std::collections::VecDeque;
use vstd::prelude::*;

verus! {

/// A command from the user.
#[derive(Clone, Copy, Debug, PartialEq, Eq, PartialOrd, Ord, Structural)]
pub enum Command {
    /// Build the active template at the world's cursor.
    BuildTemplate,
    /// Terminate.
    Quit,
    /// Re-render the UI.
    Render,
    /// Change the selected cell.
    SetCursorTo(Point),
    /// Change the active template.
    SetTemplateTo(Templates),
    /// Advance one turn.
    Step,
}

/// A message consists of some text and an optional location. The UI
/// intelligently handle the location (eg, jump-to-location).
#[derive(Clone, Debug, PartialEq, Eq, PartialOrd, Ord)]
pub struct Message {
    /// The message text.
    pub msg: String,
    /// The optional location.
    pub loc: Option<Point>,
}

/// The state of the visible map and the larger game world.
pub struct World {
    /// Things which have a fixed presence and location in the world.
    pub statics: Grid<Option<Static>>,
    /// Message log.
    pub messages: VecDeque<Message>,
    /// Selected cell.
    pub cursor: Point,
    /// Selected template.
    pub template: Option<Template>,
}

/// Whether a cell holds something that stops mobiles and heatmap flow.
pub open spec fn is_obstacle(s: Option<Static>) -> bool {
    match s {
        Some(s) => s.is_impassable,
        None => false,
    }
}

/// Whether a cell holds something that stops line of sight.
pub open spec fn is_screen(s: Option<Static>) -> bool {
    match s {
        Some(s) => s.is_opaque,
        None => false,
    }
}

/// Whether every component of a template, laid down at the cursor, comes
/// to lie on the map.
pub open spec fn fits(components: Seq<(Point, (Static, Option<MapTag>))>, cursor: Point) -> bool {
    forall|i: int|
        0 <= i < components.len() ==> (#[trigger] components[i]).0.x + cursor.x < WIDTH
            && components[i].0.y + cursor.y < HEIGHT
}

/// Where a component comes to lie when the template is laid down at the
/// cursor.
pub open spec fn laid_at(place: Point, cursor: Point) -> Point {
    Point { x: (place.x + cursor.x) as usize, y: (place.y + cursor.y) as usize }
}

/// The statics after the first `n` components of a template were laid
/// down at the cursor, one after the other.
pub open spec fn placed(
    statics: Seq<Option<Static>>,
    components: Seq<(Point, (Static, Option<MapTag>))>,
    cursor: Point,
    n: int,
) -> Seq<Option<Static>>
    decreases n,
{
    if n <= 0 {
        statics
    } else {
        placed(statics, components, cursor, n - 1).update(
            laid_at(components[n - 1].0, cursor).index(),
            Some(components[n - 1].1.0),
        )
    }
}

/// The sources of the map of a tag after the first `n` components of a
/// template were laid down at the cursor: each component that offers the
/// tag adds its place.
pub open spec fn sourced(
    sources: Seq<Point>,
    components: Seq<(Point, (Static, Option<MapTag>))>,
    cursor: Point,
    tag: MapTag,
    n: int,
) -> Seq<Point>
    decreases n,
{
    if n <= 0 {
        sources
    } else if components[n - 1].1.1 == Some(tag) {
        sourced(sources, components, cursor, tag, n - 1).push(
            laid_at(components[n - 1].0, cursor),
        )
    } else {
        sourced(sources, components, cursor, tag, n - 1)
    }
}

impl World {
    /// Whether a point holds an impassable static.
    pub open spec fn impassable(&self, p: Point) -> bool {
        is_obstacle(self.statics.value(p))
    }

    /// Whether a point holds an opaque static.
    pub open spec fn opaque(&self, p: Point) -> bool {
        is_screen(self.statics.value(p))
    }

    /// The impassable cells of the world, row by row.
    pub open spec fn obstructions(&self) -> Seq<bool> {
        Seq::new(CELLS as nat, |i: int| is_obstacle(self.statics@[i]))
    }

    /// The obstruction map says of every point of the map whether it is
    /// impassable.
    pub proof fn lemma_obstructions(&self)
        ensures
            self.obstructions().len() == CELLS,
            forall|p: Point|
                p.in_bounds() ==> #[trigger] shut(self.obstructions(), p) == self.impassable(p),
    {
    }

    /// Construct a new world.
    pub fn new() -> (w: World)
        ensures
            forall|p: Point| p.in_bounds() ==> #[trigger] w.statics.value(p) == None::<Static>,
            w.messages@.len() == 0,
            w.cursor == (Point { x: 0, y: 0 }),
            w.template is None,
    {
        World {
            statics: Grid::new(None),
            messages: VecDeque::new(),
            cursor: Point { x: 0, y: 0 },
            template: None,
        }
    }

    /// Log a new message: it becomes the first of the log.
    pub fn log(&mut self, msg: Message)
        ensures
            final(self).messages@ == seq![msg] + old(self).messages@,
            final(self).statics == old(self).statics,
            final(self).cursor == old(self).cursor,
            final(self).template == old(self).template,
    {
        self.messages.push_front(msg);
    }

    /// Do a turn: the world itself does nothing in one.
    pub fn step(&mut self)
        ensures
            *final(self) == *old(self),
    {
    }

    /// Whether a point holds an impassable static.
    pub fn is_impassable(&self, pos: Point) -> (r: bool)
        requires
            pos.in_bounds(),
        ensures
            r == self.impassable(pos),
    {
        match self.statics.at(pos) {
            Some(s) => s.is_impassable,
            None => false,
        }
    }

    /// Whether a point holds an opaque static.
    pub fn is_opaque(&self, pos: Point) -> (r: bool)
        requires
            pos.in_bounds(),
        ensures
            r == self.opaque(pos),
    {
        match self.statics.at(pos) {
            Some(s) => s.is_opaque,
            None => false,
        }
    }

    /// Whether the active template, laid down at the cursor, lies on the
    /// map: only then can it be built. No template at all fits.
    pub fn template_fits(&self) -> (r: bool)
        ensures
            r == match self.template {
                Some(tpl) => fits(tpl.components@, self.cursor),
                None => true,
            },
    {
        match &self.template {
            Some(tpl) => {
                let mut i: usize = 0;
                while i < tpl.components.len()
                    invariant
                        i <= tpl.components.len(),
                        self.template == Some(*tpl),
                        forall|j: int|
                            0 <= j < i ==> (#[trigger] tpl.components@[j]).0.x + self.cursor.x
                                < WIDTH && tpl.components@[j].0.y + self.cursor.y < HEIGHT,
                    decreases tpl.components.len() - i,
                {
                    let p = tpl.components[i].0;
                    if p.x >= WIDTH || self.cursor.x >= WIDTH - p.x || p.y >= HEIGHT
                        || self.cursor.y >= HEIGHT - p.y {
                        assert(tpl.components@[i as int].0 == p);
                        return false;
                    }
                    i = i + 1;
                }
                true
            },
            None => true,
        }
    }

    /// Build the active template at the cursor: its statics are laid down,
    /// each place that offers a desire becomes a source of that desire's
    /// map, and all maps are rebuilt. Without an active template nothing
    /// happens.
    pub fn build(&mut self, maps: &mut Maps)
        requires
            old(maps).wf(),
            match old(self).template {
                Some(tpl) => fits(tpl.components@, old(self).cursor),
                None => true,
            },
        ensures
            final(self).cursor == old(self).cursor,
            final(self).messages == old(self).messages,
            final(self).template == old(self).template,
            final(maps).wf(),
            match old(self).template {
                Some(tpl) => {
                    &&& final(self).statics@ == placed(
                        old(self).statics@,
                        tpl.components@,
                        old(self).cursor,
                        tpl.components@.len() as int,
                    )
                    &&& forall|tag: MapTag|
                        (#[trigger] final(maps).map_of(tag)).sources@ == sourced(
                            old(maps).map_of(tag).sources@,
                            tpl.components@,
                            old(self).cursor,
                            tag,
                            tpl.components@.len() as int,
                        )
                    &&& final(maps).is_current(final(self))
                },
                None => final(self).statics == old(self).statics && *final(maps) == *old(maps),
            },
    {
        let cursor = self.cursor;
        match &self.template {
            Some(tpl) => {
                proof {
                    use_type_invariant(&self.statics);
                }
                let mut i: usize = 0;
                while i < tpl.components.len()
                    invariant
                        i <= tpl.components.len(),
                        fits(tpl.components@, cursor),
                        self.cursor == old(self).cursor,
                        self.messages == old(self).messages,
                        self.template == old(self).template,
                        self.template == Some(*tpl),
                        maps.wf(),
                        self.statics@.len() == CELLS,
                        self.statics@ == placed(
                            old(self).statics@,
                            tpl.components@,
                            cursor,
                            i as int,
                        ),
                        forall|tag: MapTag|
                            (#[trigger] maps.map_of(tag)).sources@ == sourced(
                                old(maps).map_of(tag).sources@,
                                tpl.components@,
                                cursor,
                                tag,
                                i as int,
                            ),
                    decreases tpl.components.len() - i,
                {
                    let (p, (s, t)) = tpl.components[i];
                    let pos = p.offset(cursor);
                    self.statics.set(pos, Some(s));
                    match t {
                        Some(tag) => {
                            // Rebuild the maps at the end.
                            let ghost before = *maps;
                            assert(maps.map_of(tag).wf());
                            maps.mutget(tag).add_source_no_rebuild(pos);
                            proof {
                                assert forall|other: MapTag|
                                    (#[trigger] maps.map_of(other)).wf() && maps.map_of(
                                        other,
                                    ).sources@ == sourced(
                                        old(maps).map_of(other).sources@,
                                        tpl.components@,
                                        cursor,
                                        other,
                                        i + 1,
                                    ) by {
                                    assert(before.map_of(other).wf());
                                }
                            }
                        },
                        None => {},
                    }
                    i = i + 1;
                }
                maps.rebuild_all(self);
            },
            None => {},
        }
    }
}

} // verus!
