//! Construction templates.

use crate::dijkstra_map::MapTag;
use crate::grid::Point;
use crate::statics::{Static, StaticTag};
use vstd::prelude::*;

verus! {

/// The available templates
#[derive(Clone, Copy, Debug, PartialEq, Eq, PartialOrd, Ord, Structural)]
pub enum Templates {
    /// An small inn with a bedroom.
    Inn,
    /// A small general store.
    GeneralStore,
}

/// A template is a list of statics objects to place, with (0,0) being the
/// top-left corner of the template.
#[derive(Clone, Debug)]
pub struct Template {
    /// The components of the template, including possible maptags to place,
    /// each with its place.
    pub components: Vec<(Point, (Static, Option<MapTag>))>,
}

/// The static of a tag.
pub open spec fn static_of(tag: StaticTag) -> Static {
    Static { tag: tag, is_impassable: tag.blocks_movement(), is_opaque: tag.blocks_sight() }
}

/// What the first `n` cells of the row `y` of a grid contribute to a
/// template: every static with its place and with the desire it offers.
pub open spec fn row_entries(row: Seq<Option<StaticTag>>, y: int, n: int) -> Seq<
    (Point, (Static, Option<MapTag>)),
>
    decreases n,
{
    if n <= 0 {
        Seq::empty()
    } else {
        let before = row_entries(row, y, n - 1);
        match row[n - 1] {
            Some(tag) => before.push(
                (Point { x: (n - 1) as usize, y: y as usize }, (static_of(tag), tag.produces())),
            ),
            None => before,
        }
    }
}

/// What the first `m` rows of a grid contribute to a template, row by row.
pub open spec fn grid_entries(grid: Seq<Seq<Option<StaticTag>>>, m: int) -> Seq<
    (Point, (Static, Option<MapTag>)),
>
    decreases m,
{
    if m <= 0 {
        Seq::empty()
    } else {
        grid_entries(grid, m - 1) + row_entries(grid[m - 1], m - 1, grid[m - 1].len() as int)
    }
}

/// All that a grid contributes to a template.
pub open spec fn components_of(grid: Seq<Seq<Option<StaticTag>>>) -> Seq<
    (Point, (Static, Option<MapTag>)),
> {
    grid_entries(grid, grid.len() as int)
}

/// The rows of a grid.
pub open spec fn rows_view(grid: Seq<Vec<Option<StaticTag>>>) -> Seq<Seq<Option<StaticTag>>> {
    Seq::new(grid.len(), |y: int| grid[y]@)
}

/// The greatest row among the first `n` places, or zero.
pub open spec fn max_y(components: Seq<(Point, (Static, Option<MapTag>))>, n: int) -> usize
    decreases n,
{
    if n <= 0 {
        0
    } else if components[n - 1].0.y > max_y(components, n - 1) {
        components[n - 1].0.y
    } else {
        max_y(components, n - 1)
    }
}

/// The greatest column among the first `n` places, or zero.
pub open spec fn max_x(components: Seq<(Point, (Static, Option<MapTag>))>, n: int) -> usize
    decreases n,
{
    if n <= 0 {
        0
    } else if components[n - 1].0.x > max_x(components, n - 1) {
        components[n - 1].0.x
    } else {
        max_x(components, n - 1)
    }
}

/// No place among the first `n` lies below the greatest row.
pub proof fn lemma_max_y(components: Seq<(Point, (Static, Option<MapTag>))>, n: int, i: int)
    requires
        0 <= i < n,
    ensures
        components[i].0.y <= max_y(components, n),
    decreases n,
{
    if i < n - 1 {
        lemma_max_y(components, n - 1, i);
    }
}

/// No place among the first `n` lies right of the greatest column.
pub proof fn lemma_max_x(components: Seq<(Point, (Static, Option<MapTag>))>, n: int, i: int)
    requires
        0 <= i < n,
    ensures
        components[i].0.x <= max_x(components, n),
    decreases n,
{
    if i < n - 1 {
        lemma_max_x(components, n - 1, i);
    }
}

/// The rows of the general store.
pub open spec fn general_store_rows() -> Seq<Seq<Option<StaticTag>>> {
    let w = Some(StaticTag::Wall);
    let c = Some(StaticTag::GStoreCounter);
    let d = Some(StaticTag::Door);
    let o = None::<StaticTag>;
    seq![seq![w, w, w, w, w], seq![w, o, o, o, w], seq![w, c, c, d, w], seq![w, o, o, o, w], seq![
        w,
        w,
        d,
        w,
        w,
    ]]
}

/// The rows of the inn.
pub open spec fn inn_rows() -> Seq<Seq<Option<StaticTag>>> {
    let w = Some(StaticTag::Wall);
    let b = Some(StaticTag::Bed);
    let c = Some(StaticTag::InnCounter);
    let d = Some(StaticTag::Door);
    let o = None::<StaticTag>;
    seq![
        seq![w, w, w, w, w, w, w, w, w, w, w, w, w, w],
        seq![w, b, o, b, o, b, w, o, o, o, o, o, o, w],
        seq![w, o, o, o, o, o, d, o, o, o, o, c, o, w],
        seq![w, w, w, w, w, w, w, o, o, o, o, c, o, w],
        seq![o, o, o, o, o, o, d, o, o, o, o, c, o, w],
        seq![o, o, o, o, o, o, w, w, w, w, w, w, w, w],
    ]
}

/// The rows of a template.
pub open spec fn rows_of(tpl: Templates) -> Seq<Seq<Option<StaticTag>>> {
    match tpl {
        Templates::Inn => inn_rows(),
        Templates::GeneralStore => general_store_rows(),
    }
}

impl Template {
    /// Get a template: the components of its rows.
    pub fn new(tpl: Templates) -> (t: Template)
        ensures
            t.components@ == components_of(rows_of(tpl)),
    {
        match tpl {
            Templates::Inn => Template::inn(),
            Templates::GeneralStore => Template::general_store(),
        }
    }

    /// Rotate 90 degrees clockwise: every place (x,y) becomes (off-y,x),
    /// where off is the greatest row of the template.
    pub fn clockwise(&mut self)
        ensures
            final(self).components@.len() == old(self).components@.len(),
            forall|i: int|
                0 <= i < old(self).components@.len() ==> (#[trigger] final(self).components@[i])
                    == (
                    Point {
                        x: (max_y(old(self).components@, old(self).components@.len() as int) - old(
                            self,
                        ).components@[i].0.y) as usize,
                        y: old(self).components@[i].0.x,
                    },
                    old(self).components@[i].1,
                ),
    {
        let mut components: Vec<(Point, (Static, Option<MapTag>))> = Vec::new();

        // Find the maximum y value.
        let mut off: usize = 0;
        let mut i: usize = 0;
        while i < self.components.len()
            invariant
                i <= self.components.len(),
                off == max_y(self.components@, i as int),
            decreases self.components.len() - i,
        {
            let point = self.components[i].0;
            if point.y > off {
                off = point.y;
            }
            i = i + 1;
        }

        // Transform every point (x,y) to (off-y,x).
        let mut j: usize = 0;
        while j < self.components.len()
            invariant
                j <= self.components.len(),
                off == max_y(self.components@, self.components@.len() as int),
                components@.len() == j,
                forall|i: int|
                    0 <= i < j ==> (#[trigger] components@[i]) == (
                        Point {
                            x: (off - self.components@[i].0.y) as usize,
                            y: self.components@[i].0.x,
                        },
                        self.components@[i].1,
                    ),
            decreases self.components.len() - j,
        {
            let (point, s) = self.components[j];
            proof {
                lemma_max_y(self.components@, self.components@.len() as int, j as int);
            }
            let p = Point { x: off - point.y, y: point.x };
            components.push((p, s));
            j = j + 1;
        }

        self.components = components;
    }

    /// Rotate 90 degrees anticlockwise: every place (x,y) becomes
    /// (y,off-x), where off is the greatest column of the template.
    pub fn anticlockwise(&mut self)
        ensures
            final(self).components@.len() == old(self).components@.len(),
            forall|i: int|
                0 <= i < old(self).components@.len() ==> (#[trigger] final(self).components@[i])
                    == (
                    Point {
                        x: old(self).components@[i].0.y,
                        y: (max_x(old(self).components@, old(self).components@.len() as int) - old(
                            self,
                        ).components@[i].0.x) as usize,
                    },
                    old(self).components@[i].1,
                ),
    {
        let mut components: Vec<(Point, (Static, Option<MapTag>))> = Vec::new();

        // Find the maximum x value.
        let mut off: usize = 0;
        let mut i: usize = 0;
        while i < self.components.len()
            invariant
                i <= self.components.len(),
                off == max_x(self.components@, i as int),
            decreases self.components.len() - i,
        {
            let point = self.components[i].0;
            if point.x > off {
                off = point.x;
            }
            i = i + 1;
        }

        // Transform every point (x,y) to (y,off-x).
        let mut j: usize = 0;
        while j < self.components.len()
            invariant
                j <= self.components.len(),
                off == max_x(self.components@, self.components@.len() as int),
                components@.len() == j,
                forall|i: int|
                    0 <= i < j ==> (#[trigger] components@[i]) == (
                        Point {
                            x: self.components@[i].0.y,
                            y: (off - self.components@[i].0.x) as usize,
                        },
                        self.components@[i].1,
                    ),
            decreases self.components.len() - j,
        {
            let (point, s) = self.components[j];
            proof {
                lemma_max_x(self.components@, self.components@.len() as int, j as int);
            }
            let p = Point { x: point.y, y: off - point.x };
            components.push((p, s));
            j = j + 1;
        }

        self.components = components;
    }

    /// A general store.
    pub fn general_store() -> (t: Template)
        ensures
            t.components@ == components_of(general_store_rows()),
    {
        /*    #####
         *    #   #
         *    #cc|#
         *    #   #
         *    ##|##
         */
        let w = Some(StaticTag::Wall);
        let c = Some(StaticTag::GStoreCounter);
        let d = Some(StaticTag::Door);
        let o: Option<StaticTag> = None;
        let mut grid: Vec<Vec<Option<StaticTag>>> = Vec::new();
        grid.push(vec![w, w, w, w, w]);
        grid.push(vec![w, o, o, o, w]);
        grid.push(vec![w, c, c, d, w]);
        grid.push(vec![w, o, o, o, w]);
        grid.push(vec![w, w, d, w, w]);
        assert(rows_view(grid@) =~~= general_store_rows());
        from_grid(&grid)
    }

    /// An inn.
    pub fn inn() -> (t: Template)
        ensures
            t.components@ == components_of(inn_rows()),
    {
        /*    ##############
         *    #b b b#      #
         *    #     |    c #
         *    #######    c #
         *          |    c #
         *          ########
         */
        let w = Some(StaticTag::Wall);
        let b = Some(StaticTag::Bed);
        let c = Some(StaticTag::InnCounter);
        let d = Some(StaticTag::Door);
        let o: Option<StaticTag> = None;
        let mut grid: Vec<Vec<Option<StaticTag>>> = Vec::new();
        grid.push(vec![w, w, w, w, w, w, w, w, w, w, w, w, w, w]);
        grid.push(vec![w, b, o, b, o, b, w, o, o, o, o, o, o, w]);
        grid.push(vec![w, o, o, o, o, o, d, o, o, o, o, c, o, w]);
        grid.push(vec![w, w, w, w, w, w, w, o, o, o, o, c, o, w]);
        grid.push(vec![o, o, o, o, o, o, d, o, o, o, o, c, o, w]);
        grid.push(vec![o, o, o, o, o, o, w, w, w, w, w, w, w, w]);
        assert(rows_view(grid@) =~~= inn_rows());
        from_grid(&grid)
    }
}

/// Construct components from a grid: every static of the grid, row by row,
/// at its place and with the desire that it offers.
pub fn from_grid(grid: &Vec<Vec<Option<StaticTag>>>) -> (t: Template)
    ensures
        t.components@ == components_of(rows_view(grid@)),
{
    let mut components: Vec<(Point, (Static, Option<MapTag>))> = Vec::new();

    let mut y: usize = 0;
    while y < grid.len()
        invariant
            y <= grid.len(),
            components@ == grid_entries(rows_view(grid@), y as int),
        decreases grid.len() - y,
    {
        let ghost before = components@;
        let row = &grid[y];
        let mut x: usize = 0;
        while x < row.len()
            invariant
                x <= row.len(),
                y < grid.len(),
                row == grid@[y as int],
                components@ == before + row_entries(row@, y as int, x as int),
            decreases row.len() - x,
        {
            match row[x] {
                Some(tag) => {
                    let s = Static::new(tag);
                    components.push((Point { x: x, y: y }, (s, s.maptag())));
                },
                None => {},
            }
            x = x + 1;
        }
        y = y + 1;
    }

    Template { components: components }
}

} // verus!
