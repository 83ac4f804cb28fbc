//! What the interface decides: where things go on the screen, what a
//! key press or the mouse asks for, and how the viewport follows the
//! cursor. Drawing and waiting for events are left to the program.

use crate::constants::{HEIGHT, UNREACHED, WIDTH};
use crate::dijkstra_map::MapTag;
use crate::grid::{Grid, Point};
use crate::mobiles::Mobile;
use crate::statics::{Static, StaticTag};
use crate::templates::Templates;
use crate::types::Command;
use vstd::prelude::*;

verus! {

/// How many characters the font image has in a row.
pub const FONT_CHAR_WIDTH: u8 = 16;

/// Width of a character of the font, in pixels.
pub const FONT_PIXEL_WIDTH: u32 = 12;

/// Height of a character of the font, in pixels.
pub const FONT_PIXEL_HEIGHT: u32 = 12;

/// What is cut off a character on its left and on its right, in pixels.
pub const FONT_PIXEL_OFF_HORIZ: u32 = 2;

/// What is cut off a character above and below, in pixels.
pub const FONT_PIXEL_OFF_VERT: u32 = 0;

/// Height of the visible viewport, in cells.
pub const DEFAULT_VIEWPORT_CELL_HEIGHT: u32 = 50;

/// Width of the visible viewport, in cells.
pub const DEFAULT_VIEWPORT_CELL_WIDTH: u32 = 100;

/// Height of a cell, in pixels.
pub const DEFAULT_CELL_PIXEL_HEIGHT: u32 = 12;

/// Width of a cell, in pixels.
pub const DEFAULT_CELL_PIXEL_WIDTH: u32 = 8;

/// The framerate.
pub const DEFAULT_FRAMERATE: u32 = 15;

/// Width of the sidebar, in cells.
pub const SIDEBAR_WIDTH: u32 = 25;

/// Thickness of a border, in cells.
pub const BORDER_THICKNESS: u32 = 1;

/// Number of log entries to display above the map.
pub const LOG_ENTRIES_VISIBLE: u32 = 7;

/// Number of cells to "overshoot" the cursor by when scrolling.
pub const SCROLL_OVERSHOOT: usize = 25;

/// How far an arrow key goes while shift is held down.
pub const ZOOM_STEP: usize = 10;

/// A colour: red, green and blue.
pub type Rgb = (u8, u8, u8);

/// What menu to display in the sidebar.
#[derive(Clone, Copy, Debug, PartialEq, Eq, PartialOrd, Ord, Structural)]
pub enum Menu {
    /// The top menu.
    Main,
    /// The list of templates to build.
    Template,
}

/// Debugging display: a heatmap style to render.
#[derive(Clone, Copy, Debug, PartialEq, Eq, PartialOrd, Ord, Structural)]
pub enum Style {
    /// Render the approach map.
    Approach,
    /// Render the cowardly fleeing map.
    FleeCowardly,
    /// Render the bravely fleeing map.
    FleeBravely,
}

/// Screen positions, in cells.
#[derive(Clone, Copy, Debug, PartialEq, Eq, PartialOrd, Ord, Structural)]
pub struct ScreenPos {
    /// The column.
    pub x: u32,
    /// The row.
    pub y: u32,
}

/// Regions of the screen, measured in cells.
#[derive(Clone, Copy, Debug, PartialEq, Eq, PartialOrd, Ord, Structural)]
pub struct ScreenRect {
    /// The top-left cell.
    pub top_left: ScreenPos,
    /// The number of columns.
    pub width: u32,
    /// The number of rows.
    pub height: u32,
}

/// Regions of the screen, measured in pixels.
#[derive(Clone, Copy, Debug, PartialEq, Eq, PartialOrd, Ord, Structural)]
pub struct PixelRect {
    /// The leftmost pixel column.
    pub x: i32,
    /// The topmost pixel row.
    pub y: i32,
    /// The number of pixel columns.
    pub width: u32,
    /// The number of pixel rows.
    pub height: u32,
}

/// The product of two numbers of 32 bits fits in 64 bits.
proof fn lemma_product_fits(a: u32, b: u32)
    ensures
        0 <= a * b <= u64::MAX,
        b > 0 ==> a <= a * b,
{
    assert(0 <= a * b <= 0xffff_ffff * 0xffff_ffff) by (nonlinear_arith)
        requires
            0 <= a <= 0xffff_ffff,
            0 <= b <= 0xffff_ffff,
    ;
    assert(b > 0 ==> a <= a * b) by (nonlinear_arith)
        requires
            a >= 0,
    ;
}

impl ScreenPos {
    /// Get the `ScreenRect` that this position corresponds to.
    pub fn rect(self) -> (r: ScreenRect)
        ensures
            r == (ScreenRect { top_left: self, width: 1, height: 1 }),
    {
        ScreenRect { top_left: self, width: 1, height: 1 }
    }
}

impl ScreenRect {
    /// Construct a new `ScreenRect`.
    pub fn new(x: u32, y: u32, width: u32, height: u32) -> (r: ScreenRect)
        ensures
            r == (ScreenRect { top_left: ScreenPos { x: x, y: y }, width: width, height: height }),
    {
        ScreenRect { top_left: ScreenPos { x: x, y: y }, width: width, height: height }
    }

    /// Whether the region has room for a border, and ends on the screen's
    /// coordinates.
    pub open spec fn framed(self) -> bool {
        &&& self.width >= BORDER_THICKNESS
        &&& self.height >= BORDER_THICKNESS
        &&& self.top_left.x + self.width <= u32::MAX
        &&& self.top_left.y + self.height <= u32::MAX
    }

    /// The border of the region, inside it: the edges at the top, at the
    /// bottom, on the left and on the right.
    pub fn edges(&self) -> (r: (ScreenRect, ScreenRect, ScreenRect, ScreenRect))
        requires
            self.framed(),
        ensures
            r.0 == (ScreenRect {
                top_left: self.top_left,
                width: self.width,
                height: BORDER_THICKNESS,
            }),
            r.1 == (ScreenRect {
                top_left: ScreenPos {
                    x: self.top_left.x,
                    y: (self.top_left.y + self.height - BORDER_THICKNESS) as u32,
                },
                width: self.width,
                height: BORDER_THICKNESS,
            }),
            r.2 == (ScreenRect {
                top_left: self.top_left,
                width: BORDER_THICKNESS,
                height: self.height,
            }),
            r.3 == (ScreenRect {
                top_left: ScreenPos {
                    x: (self.top_left.x + self.width - BORDER_THICKNESS) as u32,
                    y: self.top_left.y,
                },
                width: BORDER_THICKNESS,
                height: self.height,
            }),
    {
        let top = ScreenRect::new(self.top_left.x, self.top_left.y, self.width, BORDER_THICKNESS);
        let bottom = ScreenRect::new(
            self.top_left.x,
            self.top_left.y + self.height - BORDER_THICKNESS,
            self.width,
            BORDER_THICKNESS,
        );
        let left = ScreenRect::new(self.top_left.x, self.top_left.y, BORDER_THICKNESS, self.height);
        let right = ScreenRect::new(
            self.top_left.x + self.width - BORDER_THICKNESS,
            self.top_left.y,
            BORDER_THICKNESS,
            self.height,
        );
        (top, bottom, left, right)
    }

    /// Whether the region can be measured in pixels, with cells of the
    /// given size.
    pub open spec fn measurable(self, cell_pixel_width: u32, cell_pixel_height: u32) -> bool {
        &&& self.top_left.x * cell_pixel_width <= i32::MAX
        &&& self.top_left.y * cell_pixel_height <= i32::MAX
        &&& self.width * cell_pixel_width <= u32::MAX
        &&& self.height * cell_pixel_height <= u32::MAX
    }

    /// Get the region in pixels that this corresponds to, if it can be
    /// measured in pixels.
    pub fn pixels(&self, cell_pixel_width: u32, cell_pixel_height: u32) -> (r: Option<PixelRect>)
        ensures
            r.is_some() == self.measurable(cell_pixel_width, cell_pixel_height),
            self.measurable(cell_pixel_width, cell_pixel_height) ==> {
                &&& r.unwrap().x == self.top_left.x * cell_pixel_width
                &&& r.unwrap().y == self.top_left.y * cell_pixel_height
                &&& r.unwrap().width == self.width * cell_pixel_width
                &&& r.unwrap().height == self.height * cell_pixel_height
            },
    {
        proof {
            lemma_product_fits(self.top_left.x, cell_pixel_width);
            lemma_product_fits(self.top_left.y, cell_pixel_height);
            lemma_product_fits(self.width, cell_pixel_width);
            lemma_product_fits(self.height, cell_pixel_height);
        }
        let x: u64 = self.top_left.x as u64 * cell_pixel_width as u64;
        let y: u64 = self.top_left.y as u64 * cell_pixel_height as u64;
        let width: u64 = self.width as u64 * cell_pixel_width as u64;
        let height: u64 = self.height as u64 * cell_pixel_height as u64;
        if x <= 0x7fff_ffff && y <= 0x7fff_ffff && width <= 0xffff_ffff && height <= 0xffff_ffff {
            Some(PixelRect { x: x as i32, y: y as i32, width: width as u32, height: height as u32 })
        } else {
            None
        }
    }
}

/// Where a character stands in the font image, in pixels: the characters
/// stand in rows of `FONT_CHAR_WIDTH`, and their margins are cut off.
pub fn glyph(b: u8) -> (r: PixelRect)
    ensures
        r.x == (b % FONT_CHAR_WIDTH) * FONT_PIXEL_WIDTH + FONT_PIXEL_OFF_HORIZ,
        r.y == (b / FONT_CHAR_WIDTH) * FONT_PIXEL_HEIGHT + FONT_PIXEL_OFF_VERT,
        r.width == FONT_PIXEL_WIDTH - 2 * FONT_PIXEL_OFF_HORIZ,
        r.height == FONT_PIXEL_HEIGHT - 2 * FONT_PIXEL_OFF_VERT,
{
    let x: u32 = (b % FONT_CHAR_WIDTH) as u32;
    let y: u32 = (b / FONT_CHAR_WIDTH) as u32;
    PixelRect {
        x: (x * FONT_PIXEL_WIDTH + FONT_PIXEL_OFF_HORIZ) as i32,
        y: (y * FONT_PIXEL_HEIGHT + FONT_PIXEL_OFF_VERT) as i32,
        width: FONT_PIXEL_WIDTH - 2 * FONT_PIXEL_OFF_HORIZ,
        height: FONT_PIXEL_HEIGHT - 2 * FONT_PIXEL_OFF_VERT,
    }
}

/// A value less a step, stopping at zero.
pub open spec fn back(v: usize, step: usize) -> usize {
    if v < step {
        0
    } else {
        (v - step) as usize
    }
}

/// A value plus a step, stopping at a limit.
pub open spec fn forth(v: usize, step: usize, limit: usize) -> usize {
    if v + step > limit {
        limit
    } else {
        (v + step) as usize
    }
}

/// Where the viewport begins along one axis once it has followed the
/// cursor: `top` is where it began, `extent` its size, `limit` the size
/// of the map, `at` the cursor.
pub open spec fn followed(top: usize, extent: u32, limit: usize, at: usize, overshoot: usize) -> int {
    if at < top {
        back(at, overshoot) as int
    } else if at >= top + extent {
        if limit - extent < at + overshoot - extent {
            limit - extent
        } else {
            at + overshoot - extent
        }
    } else {
        top as int
    }
}

/// Whether the viewport can follow the cursor along one axis: where the
/// cursor lies beyond it, the viewport must be no larger than the map.
pub open spec fn can_follow(top: usize, extent: u32, limit: usize, at: usize, overshoot: usize) -> bool {
    at >= top + extent ==> extent <= limit && at + overshoot <= usize::MAX
}

/// The screen's geometry. Width and height are measured in cells.
#[derive(Clone, Copy, Debug, PartialEq, Eq, Structural)]
pub struct Screen {
    /// Width of a cell, in pixels.
    pub cell_pixel_width: u32,
    /// Height of a cell, in pixels.
    pub cell_pixel_height: u32,
    /// Width of the viewport, in cells.
    pub viewport_width: u32,
    /// Height of the viewport, in cells.
    pub viewport_height: u32,
    /// The top-left of the viewport.
    pub viewport_top_left: Point,
}

impl Screen {
    /// Width of the screen in cells.
    pub open spec fn cells_wide(self) -> int {
        self.viewport_width + SIDEBAR_WIDTH + BORDER_THICKNESS * 3
    }

    /// Height of the screen in cells.
    pub open spec fn cells_high(self) -> int {
        self.viewport_height + LOG_ENTRIES_VISIBLE + BORDER_THICKNESS * 3
    }

    /// Whether a point of the world is inside the viewport.
    pub open spec fn shows(self, p: Point) -> bool {
        &&& self.viewport_top_left.x <= p.x < self.viewport_top_left.x + self.viewport_width
        &&& self.viewport_top_left.y <= p.y < self.viewport_top_left.y + self.viewport_height
    }

    /// The cell of the screen on which a point of the world is drawn: the
    /// viewport lies below the log and inside the window's border.
    pub open spec fn place(self, p: Point) -> (int, int) {
        (
            p.x - self.viewport_top_left.x + BORDER_THICKNESS,
            p.y - self.viewport_top_left.y + 2 * BORDER_THICKNESS + LOG_ENTRIES_VISIBLE,
        )
    }

    /// The column of the world that a pixel column of the window lies in:
    /// what is left of the viewport counts as its first column.
    pub open spec fn column_under(self, x: u32) -> int {
        let cell = x as int / self.cell_pixel_width as int;
        if cell < BORDER_THICKNESS {
            self.viewport_top_left.x as int
        } else {
            cell - BORDER_THICKNESS + self.viewport_top_left.x
        }
    }

    /// The row of the world that a pixel row of the window lies in: what
    /// is above the viewport counts as its first row.
    pub open spec fn row_under(self, y: u32) -> int {
        let cell = y as int / self.cell_pixel_height as int;
        if cell < LOG_ENTRIES_VISIBLE + BORDER_THICKNESS * 2 {
            self.viewport_top_left.y as int
        } else {
            cell - (LOG_ENTRIES_VISIBLE + BORDER_THICKNESS * 2) + self.viewport_top_left.y
        }
    }

    /// Whether the viewport is no larger than the map and begins on it.
    pub open spec fn on_the_map(self) -> bool {
        &&& self.viewport_width <= WIDTH
        &&& self.viewport_height <= HEIGHT
        &&& self.viewport_top_left.x <= WIDTH
        &&& self.viewport_top_left.y <= HEIGHT
    }

    /// Whether the whole screen can be measured in pixels: then every
    /// function of the screen's geometry can be called.
    pub open spec fn drawable(self) -> bool {
        &&& self.cell_pixel_width > 0
        &&& self.cell_pixel_height > 0
        &&& self.cells_wide() * self.cell_pixel_width <= i32::MAX
        &&& self.cells_high() * self.cell_pixel_height <= i32::MAX
    }

    /// Whether the whole screen can be measured in pixels.
    pub fn is_drawable(&self) -> (r: bool)
        ensures
            r == self.drawable(),
            r ==> self.cells_wide() <= u32::MAX && self.cells_high() <= u32::MAX,
    {
        let wide: u64 = self.viewport_width as u64 + SIDEBAR_WIDTH as u64 + BORDER_THICKNESS as u64
            * 3;
        let high: u64 = self.viewport_height as u64 + LOG_ENTRIES_VISIBLE as u64
            + BORDER_THICKNESS as u64 * 3;
        if self.cell_pixel_width == 0 || self.cell_pixel_height == 0 || wide > 0x7fff_ffff || high
            > 0x7fff_ffff {
            proof {
                if self.cell_pixel_width > 0 && self.cell_pixel_height > 0 {
                    lemma_product_fits(wide as u32, self.cell_pixel_width);
                    lemma_product_fits(high as u32, self.cell_pixel_height);
                    assert(wide <= 0xffff_ffff + 28);
                    assert(wide <= wide * self.cell_pixel_width) by (nonlinear_arith)
                        requires
                            wide >= 0,
                            self.cell_pixel_width > 0,
                    ;
                    assert(high <= high * self.cell_pixel_height) by (nonlinear_arith)
                        requires
                            high >= 0,
                            self.cell_pixel_height > 0,
                    ;
                }
            }
            false
        } else {
            proof {
                lemma_product_fits(wide as u32, self.cell_pixel_width);
                lemma_product_fits(high as u32, self.cell_pixel_height);
            }
            wide * self.cell_pixel_width as u64 <= 0x7fff_ffff && high
                * self.cell_pixel_height as u64 <= 0x7fff_ffff
        }
    }

    /// The screen as it is when the program starts.
    pub fn new() -> (s: Screen)
        ensures
            s.cell_pixel_width == DEFAULT_CELL_PIXEL_WIDTH,
            s.cell_pixel_height == DEFAULT_CELL_PIXEL_HEIGHT,
            s.viewport_width == DEFAULT_VIEWPORT_CELL_WIDTH,
            s.viewport_height == DEFAULT_VIEWPORT_CELL_HEIGHT,
            s.viewport_top_left == (Point { x: 0, y: 0 }),
    {
        Screen {
            cell_pixel_width: DEFAULT_CELL_PIXEL_WIDTH,
            cell_pixel_height: DEFAULT_CELL_PIXEL_HEIGHT,
            viewport_width: DEFAULT_VIEWPORT_CELL_WIDTH,
            viewport_height: DEFAULT_VIEWPORT_CELL_HEIGHT,
            viewport_top_left: Point { x: 0, y: 0 },
        }
    }

    /// Width of the screen in cells.
    pub fn cell_width(&self) -> (w: u32)
        requires
            self.cells_wide() <= u32::MAX,
        ensures
            w == self.cells_wide(),
    {
        self.viewport_width + SIDEBAR_WIDTH + BORDER_THICKNESS * 3
    }

    /// Height of the screen in cells.
    pub fn cell_height(&self) -> (h: u32)
        requires
            self.cells_high() <= u32::MAX,
        ensures
            h == self.cells_high(),
    {
        self.viewport_height + LOG_ENTRIES_VISIBLE + BORDER_THICKNESS * 3
    }

    /// Width of the screen in pixels.
    pub fn pixel_width(&self) -> (w: u32)
        requires
            self.cells_wide() * self.cell_pixel_width <= u32::MAX,
        ensures
            w == self.cells_wide() * self.cell_pixel_width,
    {
        proof {
            assert(self.cell_pixel_width > 0 ==> self.cells_wide() <= self.cells_wide()
                * self.cell_pixel_width) by (nonlinear_arith)
                requires
                    self.cells_wide() >= 0,
            ;
        }
        if self.cell_pixel_width == 0 {
            0
        } else {
            self.cell_width() * self.cell_pixel_width
        }
    }

    /// Height of the screen in pixels.
    pub fn pixel_height(&self) -> (h: u32)
        requires
            self.cells_high() * self.cell_pixel_height <= u32::MAX,
        ensures
            h == self.cells_high() * self.cell_pixel_height,
    {
        proof {
            assert(self.cell_pixel_height > 0 ==> self.cells_high() <= self.cells_high()
                * self.cell_pixel_height) by (nonlinear_arith)
                requires
                    self.cells_high() >= 0,
            ;
        }
        if self.cell_pixel_height == 0 {
            0
        } else {
            self.cell_height() * self.cell_pixel_height
        }
    }

    /// The whole window.
    pub fn frame(&self) -> (r: ScreenRect)
        requires
            self.cells_wide() <= u32::MAX,
            self.cells_high() <= u32::MAX,
        ensures
            r.top_left == (ScreenPos { x: 0, y: 0 }),
            r.width == self.cells_wide(),
            r.height == self.cells_high(),
            r.framed(),
    {
        ScreenRect::new(0, 0, self.cell_width(), self.cell_height())
    }

    /// The message log with its border: above the viewport, and as wide
    /// as the viewport with its border.
    pub fn log_frame(&self) -> (r: ScreenRect)
        requires
            self.cells_wide() <= u32::MAX,
        ensures
            r.top_left == (ScreenPos { x: 0, y: 0 }),
            r.width == self.viewport_width + 2 * BORDER_THICKNESS,
            r.height == LOG_ENTRIES_VISIBLE + 2 * BORDER_THICKNESS,
            r.framed(),
    {
        let log_width: u32 = self.cell_width() - BORDER_THICKNESS - SIDEBAR_WIDTH;
        let log_height: u32 = LOG_ENTRIES_VISIBLE + 2 * BORDER_THICKNESS;
        ScreenRect::new(0, 0, log_width, log_height)
    }

    /// The line of the log for a message, where `done` messages newer than
    /// it are shown: the newest message stands lowest.
    pub fn log_line(&self, done: u32) -> (r: ScreenRect)
        requires
            done < LOG_ENTRIES_VISIBLE,
        ensures
            r.top_left == (ScreenPos {
                x: BORDER_THICKNESS,
                y: (LOG_ENTRIES_VISIBLE - done - 1 + BORDER_THICKNESS) as u32,
            }),
            r.width == self.viewport_width,
            r.height == 1,
    {
        ScreenRect::new(
            BORDER_THICKNESS,
            LOG_ENTRIES_VISIBLE - done - 1 + BORDER_THICKNESS,
            self.viewport_width,
            1,
        )
    }

    /// The sidebar with its border: on the right of the viewport, and as
    /// high as the window. Its left border is the right border of the
    /// viewport.
    pub fn sidebar_frame(&self) -> (r: ScreenRect)
        requires
            self.cells_wide() <= u32::MAX,
            self.cells_high() <= u32::MAX,
        ensures
            r.top_left == (ScreenPos { x: (self.viewport_width + BORDER_THICKNESS) as u32, y: 0 }),
            r.width == SIDEBAR_WIDTH + 2 * BORDER_THICKNESS,
            r.height == self.cells_high(),
            r.framed(),
    {
        let sidebar_x: u32 = self.cell_width() - 2 * BORDER_THICKNESS - SIDEBAR_WIDTH;
        let sidebar_width: u32 = SIDEBAR_WIDTH + 2 * BORDER_THICKNESS;
        ScreenRect::new(sidebar_x, 0, sidebar_width, self.cell_height())
    }

    /// Where an entry of the sidebar stands in a given row: its key, two
    /// cells into the sidebar; the colon behind the key; and its text, two
    /// cells further on.
    pub fn sidebar_entry(&self, row: u32, key_len: u32) -> (r: (ScreenRect, ScreenPos, ScreenRect))
        requires
            self.cells_wide() <= u32::MAX,
            self.viewport_width + BORDER_THICKNESS + 4 + key_len <= u32::MAX,
        ensures
            r.0 == (ScreenRect {
                top_left: ScreenPos {
                    x: (self.viewport_width + BORDER_THICKNESS + 2) as u32,
                    y: row,
                },
                width: key_len,
                height: 1,
            }),
            r.1 == (ScreenPos {
                x: (self.viewport_width + BORDER_THICKNESS + 2 + key_len) as u32,
                y: row,
            }),
            r.2 == (ScreenRect {
                top_left: ScreenPos {
                    x: (self.viewport_width + BORDER_THICKNESS + 4 + key_len) as u32,
                    y: row,
                },
                width: (SIDEBAR_WIDTH + 2 * BORDER_THICKNESS) as u32,
                height: 1,
            }),
    {
        let sidebar_x: u32 = self.cell_width() - 2 * BORDER_THICKNESS - SIDEBAR_WIDTH;
        let sidebar_width: u32 = SIDEBAR_WIDTH + 2 * BORDER_THICKNESS;
        let x: u32 = sidebar_x + 2;
        (
            ScreenRect::new(x, row, key_len, 1),
            ScreenPos { x: x + key_len, y: row },
            ScreenRect::new(x + key_len + 2, row, sidebar_width, 1),
        )
    }

    /// Turn a point in the world into a `ScreenPos`, if it's on screen.
    pub fn to_screenpos(&self, p: Point) -> (r: Option<ScreenPos>)
        requires
            self.cells_high() <= u32::MAX,
        ensures
            r.is_some() == self.shows(p),
            self.shows(p) ==> r.unwrap().x == self.place(p).0 && r.unwrap().y == self.place(p).1,
    {
        if p.x < self.viewport_top_left.x || p.y < self.viewport_top_left.y || p.x
            - self.viewport_top_left.x >= self.viewport_width as usize || p.y
            - self.viewport_top_left.y >= self.viewport_height as usize {
            None
        } else {
            Some(
                ScreenPos {
                    x: (p.x - self.viewport_top_left.x) as u32 + BORDER_THICKNESS,
                    y: (p.y - self.viewport_top_left.y) as u32 + 2 * BORDER_THICKNESS
                        + LOG_ENTRIES_VISIBLE,
                },
            )
        }
    }

    /// Whether the mouse, over a pixel of the window, can be given a point
    /// of the world.
    pub fn can_read_mouse(&self, x: u32, y: u32) -> (r: bool)
        ensures
            r == (self.cell_pixel_width > 0 && self.cell_pixel_height > 0 && self.column_under(x)
                <= usize::MAX && self.row_under(y) <= usize::MAX),
    {
        if self.cell_pixel_width == 0 || self.cell_pixel_height == 0 {
            false
        } else {
            let cell_x: u32 = (x / self.cell_pixel_width).saturating_sub(BORDER_THICKNESS);
            let cell_y: u32 = (y / self.cell_pixel_height).saturating_sub(
                LOG_ENTRIES_VISIBLE + BORDER_THICKNESS * 2,
            );
            cell_x as usize <= usize::MAX - self.viewport_top_left.x && cell_y as usize
                <= usize::MAX - self.viewport_top_left.y
        }
    }

    /// Get the cursor position from the mouse.
    pub fn cursor_from_mouse(&self, x: u32, y: u32) -> (p: Point)
        requires
            self.cell_pixel_width > 0,
            self.cell_pixel_height > 0,
            self.column_under(x) <= usize::MAX,
            self.row_under(y) <= usize::MAX,
        ensures
            p.x == self.column_under(x),
            p.y == self.row_under(y),
    {
        let cell_x: u32 = (x / self.cell_pixel_width).saturating_sub(BORDER_THICKNESS);
        let cell_y: u32 = (y / self.cell_pixel_height).saturating_sub(
            LOG_ENTRIES_VISIBLE + BORDER_THICKNESS * 2,
        );
        Point {
            x: cell_x as usize + self.viewport_top_left.x,
            y: cell_y as usize + self.viewport_top_left.y,
        }
    }

    /// Whether the viewport can follow the cursor: where the cursor lies
    /// beyond it, the viewport must be no larger than the map.
    pub open spec fn follows(self, cursor: Point, overshoot: usize) -> bool {
        &&& can_follow(self.viewport_top_left.x, self.viewport_width, WIDTH, cursor.x, overshoot)
        &&& can_follow(self.viewport_top_left.y, self.viewport_height, HEIGHT, cursor.y, overshoot)
    }

    /// Whether the viewport can follow the cursor.
    pub fn can_scroll(&self, cursor: Point, overshoot: usize) -> (r: bool)
        ensures
            r == self.follows(cursor, overshoot),
    {
        let wide: usize = self.viewport_width as usize;
        let high: usize = self.viewport_height as usize;
        let across: bool = cursor.x < self.viewport_top_left.x || cursor.x
            - self.viewport_top_left.x < wide || (wide <= WIDTH && overshoot <= usize::MAX
            - cursor.x);
        let down: bool = cursor.y < self.viewport_top_left.y || cursor.y - self.viewport_top_left.y
            < high || (high <= HEIGHT && overshoot <= usize::MAX - cursor.y);
        across && down
    }

    /// The screen once its viewport has followed the cursor.
    pub open spec fn scrolled(self, cursor: Point, overshoot: usize) -> Screen {
        Screen {
            viewport_top_left: Point {
                x: followed(
                    self.viewport_top_left.x,
                    self.viewport_width,
                    WIDTH,
                    cursor.x,
                    overshoot,
                ) as usize,
                y: followed(
                    self.viewport_top_left.y,
                    self.viewport_height,
                    HEIGHT,
                    cursor.y,
                    overshoot,
                ) as usize,
            },
            ..self
        }
    }

    /// Scroll the viewport, with the given amount of overshoot, to fit the
    /// cursor. With an overshoot that is not zero and smaller than the
    /// viewport, a cursor on the map is inside the viewport afterwards.
    pub fn scroll_viewport(&mut self, cursor: Point, overshoot: usize)
        requires
            old(self).follows(cursor, overshoot),
        ensures
            *final(self) == old(self).scrolled(cursor, overshoot),
            old(self).on_the_map() ==> final(self).on_the_map(),
            old(self).on_the_map() && 0 < overshoot < old(self).viewport_width && overshoot < old(
                self,
            ).viewport_height && cursor.x < WIDTH && cursor.y < HEIGHT ==> final(self).shows(
                cursor,
            ),
    {
        let wide: usize = self.viewport_width as usize;
        let high: usize = self.viewport_height as usize;
        if cursor.x < self.viewport_top_left.x {
            self.viewport_top_left.x = cursor.x.saturating_sub(overshoot);
        } else if cursor.x - self.viewport_top_left.x >= wide {
            let far: usize = cursor.x + overshoot - wide;
            self.viewport_top_left.x = if WIDTH - wide < far {
                WIDTH - wide
            } else {
                far
            };
        }
        if cursor.y < self.viewport_top_left.y {
            self.viewport_top_left.y = cursor.y.saturating_sub(overshoot);
        } else if cursor.y - self.viewport_top_left.y >= high {
            let far: usize = cursor.y + overshoot - high;
            self.viewport_top_left.y = if HEIGHT - high < far {
                HEIGHT - high
            } else {
                far
            };
        }
    }

    /// The part of the map that the viewport shows: the first column and
    /// row, and the column and row after the last.
    pub fn window(&self) -> (r: (Point, Point))
        ensures
            r.0 == self.viewport_top_left,
            r.1.x == forth(self.viewport_top_left.x, self.viewport_width as usize, WIDTH),
            r.1.y == forth(self.viewport_top_left.y, self.viewport_height as usize, HEIGHT),
    {
        let min_x: usize = self.viewport_top_left.x;
        let min_y: usize = self.viewport_top_left.y;
        let max_x: usize = if min_x >= WIDTH || self.viewport_width as usize > WIDTH - min_x {
            WIDTH
        } else {
            min_x + self.viewport_width as usize
        };
        let max_y: usize = if min_y >= HEIGHT || self.viewport_height as usize > HEIGHT - min_y {
            HEIGHT
        } else {
            min_y + self.viewport_height as usize
        };
        (self.viewport_top_left, Point { x: max_x, y: max_y })
    }
}

/// The mouse, over any pixel of the cell on which a point of the world is
/// drawn, gives that point back.
pub proof fn lemma_mouse_finds_cell(s: Screen, p: Point, dx: u32, dy: u32)
    requires
        s.shows(p),
        s.cell_pixel_width > 0,
        s.cell_pixel_height > 0,
        dx < s.cell_pixel_width,
        dy < s.cell_pixel_height,
        s.place(p).0 * s.cell_pixel_width + dx <= u32::MAX,
        s.place(p).1 * s.cell_pixel_height + dy <= u32::MAX,
    ensures
        s.column_under((s.place(p).0 * s.cell_pixel_width + dx) as u32) == p.x,
        s.row_under((s.place(p).1 * s.cell_pixel_height + dy) as u32) == p.y,
{
    let w = s.cell_pixel_width as int;
    let h = s.cell_pixel_height as int;
    let cx = s.place(p).0;
    let cy = s.place(p).1;
    vstd::arithmetic::div_mod::lemma_fundamental_div_mod_converse(cx * w + dx, w, cx, dx as int);
    vstd::arithmetic::div_mod::lemma_fundamental_div_mod_converse(cy * h + dy, h, cy, dy as int);
    assert(cx * w == w * cx) by (nonlinear_arith);
    assert(cy * h == h * cy) by (nonlinear_arith);
}

/// Advance to the next active heatmap: through the three styles of one
/// map, then on to the next map, and round again after the last.
pub open spec fn heatmap_after(heatmap: (Style, MapTag)) -> (Style, MapTag) {
    match heatmap.0 {
        Style::Approach => (Style::FleeCowardly, heatmap.1),
        Style::FleeCowardly => (Style::FleeBravely, heatmap.1),
        Style::FleeBravely => (
            Style::Approach,
            match heatmap.1 {
                MapTag::Adventure => MapTag::GeneralStore,
                MapTag::GeneralStore => MapTag::Rest,
                MapTag::Rest => MapTag::Sustenance,
                MapTag::Sustenance => MapTag::Adventure,
            },
        ),
    }
}

/// Advance to the next active heatmap, or go back to the first after the
/// last one.
pub fn next_heatmap(heatmap: (Style, MapTag)) -> (r: (Style, MapTag))
    ensures
        r == heatmap_after(heatmap),
{
    match heatmap {
        (Style::Approach, tag) => (Style::FleeCowardly, tag),
        (Style::FleeCowardly, tag) => (Style::FleeBravely, tag),
        (Style::FleeBravely, MapTag::Adventure) => (Style::Approach, MapTag::GeneralStore),
        (Style::FleeBravely, MapTag::GeneralStore) => (Style::Approach, MapTag::Rest),
        (Style::FleeBravely, MapTag::Rest) => (Style::Approach, MapTag::Sustenance),
        (Style::FleeBravely, MapTag::Sustenance) => (Style::Approach, MapTag::Adventure),
    }
}

/// The heatmap shown after a number of presses of the key that changes it.
pub open spec fn heatmap_after_presses(heatmap: (Style, MapTag), presses: nat) -> (Style, MapTag)
    decreases presses,
{
    if presses == 0 {
        heatmap
    } else {
        heatmap_after(heatmap_after_presses(heatmap, (presses - 1) as nat))
    }
}

/// Twelve presses of the key that changes the heatmap lead through every
/// heatmap and back to the first.
pub proof fn lemma_heatmaps_cycle(heatmap: (Style, MapTag))
    ensures
        heatmap_after_presses(heatmap, 12) == heatmap,
{
    reveal_with_fuel(heatmap_after_presses, 13);
}

/// The keys that the interface listens to.
#[derive(Clone, Copy, Debug, PartialEq, Eq, PartialOrd, Ord, Structural)]
pub enum Key {
    /// The left shift key.
    LShift,
    /// The right shift key.
    RShift,
    /// The left alt key.
    LAlt,
    /// The right alt key.
    RAlt,
    /// The letter B.
    B,
    /// The letter G.
    G,
    /// The letter I.
    I,
    /// The escape key.
    Escape,
    /// The return key.
    Return,
    /// The up arrow.
    Up,
    /// The down arrow.
    Down,
    /// The left arrow.
    Left,
    /// The right arrow.
    Right,
    /// The function key F5.
    F5,
    /// The tabulator.
    Tab,
    /// The semicolon.
    Semicolon,
    /// The space bar.
    Space,
}

/// What the window system reports, as far as the interface listens.
#[derive(Clone, Copy, Debug, PartialEq, Eq, PartialOrd, Ord, Structural)]
pub enum Input {
    /// A key went down.
    KeyDown(Key),
    /// A key went up.
    KeyUp(Key),
    /// The window has a new size, in pixels.
    Resized {
        /// The new width.
        width: u32,
        /// The new height.
        height: u32,
    },
    /// The left mouse button went down over a pixel of the window.
    LeftButtonDown {
        /// The pixel column.
        x: u32,
        /// The pixel row.
        y: u32,
    },
    /// The mouse moved to a pixel of the window.
    MouseMotion {
        /// The pixel column.
        x: u32,
        /// The pixel row.
        y: u32,
    },
    /// The window was closed, or the program is asked to end.
    Quit,
}

/// What the interface remembers between two events.
#[derive(Clone, Copy, Debug, PartialEq, Eq)]
pub struct Controls {
    /// Debugging display: whether to show heatmaps.
    pub show_heatmap: bool,
    /// Debugging display: the heatmap to render.
    pub active_heatmap: (Style, MapTag),
    /// Whether the cursor is being moved by the mouse or not.
    pub is_mousing: bool,
    /// Whether we're zooming around or not (shift held down).
    pub is_zooming: bool,
    /// Whether we're scrolling the viewport or not (alt held down).
    pub is_scrolling: bool,
    /// What to display in the sidebar.
    pub menu: Menu,
}

/// A value less a number of cells, stopping at zero.
pub open spec fn less(v: u32, cells: u32) -> u32 {
    if v < cells {
        0
    } else {
        (v - cells) as u32
    }
}

impl Screen {
    /// The screen after the window has got a new size in pixels: the
    /// viewport takes the cells that the borders, and above it the log, leave.
    pub open spec fn resized(self, width: u32, height: u32) -> Screen {
        Screen {
            viewport_width: less(
                (width as int / self.cell_pixel_width as int) as u32,
                (2 * BORDER_THICKNESS) as u32,
            ),
            viewport_height: less(
                (height as int / self.cell_pixel_height as int) as u32,
                (3 * BORDER_THICKNESS + LOG_ENTRIES_VISIBLE) as u32,
            ),
            ..self
        }
    }

    /// The screen with its viewport beginning at another point.
    pub open spec fn moved_to(self, x: usize, y: usize) -> Screen {
        Screen { viewport_top_left: Point { x: x, y: y }, ..self }
    }

    /// The point of the world under a pixel of the window.
    pub open spec fn point_under(self, x: u32, y: u32) -> Point {
        Point { x: self.column_under(x) as usize, y: self.row_under(y) as usize }
    }

    /// Whether the mouse, over a pixel of the window, can be given a point
    /// of the world.
    pub open spec fn reads_mouse(self, x: u32, y: u32) -> bool {
        &&& self.cell_pixel_width > 0
        &&& self.cell_pixel_height > 0
        &&& self.column_under(x) <= usize::MAX
        &&& self.row_under(y) <= usize::MAX
    }
}

impl Controls {
    /// How far one press of an arrow key goes.
    pub open spec fn stride(self) -> usize {
        if self.is_zooming {
            ZOOM_STEP
        } else {
            1
        }
    }

    /// Whether an event can be answered on a screen: a new size and the
    /// mouse are counted in cells, which must have a size, and a viewport
    /// that the arrow keys have moved must be able to follow the cursor.
    pub open spec fn answers(self, screen: Screen, event: Input, cursor: Point) -> bool {
        let top = screen.viewport_top_left;
        match event {
            Input::Resized { .. } => screen.cell_pixel_width > 0 && screen.cell_pixel_height > 0,
            Input::LeftButtonDown { x, y } => self.is_mousing || screen.reads_mouse(x, y),
            Input::MouseMotion { x, y } => !self.is_mousing || screen.reads_mouse(x, y),
            Input::KeyDown(Key::Up) => !self.is_scrolling || screen.moved_to(
                top.x,
                back(top.y, self.stride()),
            ).follows(cursor, 0),
            Input::KeyDown(Key::Down) => !self.is_scrolling || screen.moved_to(
                top.x,
                forth(top.y, self.stride(), HEIGHT),
            ).follows(cursor, 0),
            Input::KeyDown(Key::Left) => !self.is_scrolling || screen.moved_to(
                back(top.x, self.stride()),
                top.y,
            ).follows(cursor, 0),
            Input::KeyDown(Key::Right) => !self.is_scrolling || screen.moved_to(
                forth(top.x, self.stride(), WIDTH),
                top.y,
            ).follows(cursor, 0),
            _ => true,
        }
    }

    /// Whether an event can be answered on a screen.
    pub fn can_answer(&self, screen: &Screen, event: Input, cursor: Point) -> (r: bool)
        ensures
            r == self.answers(*screen, event, cursor),
    {
        let step: usize = if self.is_zooming {
            ZOOM_STEP
        } else {
            1
        };
        let top = screen.viewport_top_left;
        match event {
            Input::Resized { .. } => screen.cell_pixel_width > 0 && screen.cell_pixel_height > 0,
            Input::LeftButtonDown { x, y } => self.is_mousing || screen.can_read_mouse(x, y),
            Input::MouseMotion { x, y } => !self.is_mousing || screen.can_read_mouse(x, y),
            Input::KeyDown(Key::Up) => !self.is_scrolling || (Screen {
                viewport_top_left: Point { x: top.x, y: top.y.saturating_sub(step) },
                ..*screen
            }).can_scroll(cursor, 0),
            Input::KeyDown(Key::Down) => !self.is_scrolling || (Screen {
                viewport_top_left: Point { x: top.x, y: toward(top.y, step, HEIGHT) },
                ..*screen
            }).can_scroll(cursor, 0),
            Input::KeyDown(Key::Left) => !self.is_scrolling || (Screen {
                viewport_top_left: Point { x: top.x.saturating_sub(step), y: top.y },
                ..*screen
            }).can_scroll(cursor, 0),
            Input::KeyDown(Key::Right) => !self.is_scrolling || (Screen {
                viewport_top_left: Point { x: toward(top.x, step, WIDTH), y: top.y },
                ..*screen
            }).can_scroll(cursor, 0),
            _ => true,
        }
    }

    /// What the interface remembers after an event.
    pub open spec fn after(self, event: Input) -> Controls {
        match event {
            Input::KeyDown(Key::LShift) | Input::KeyDown(Key::RShift) => Controls {
                is_zooming: true,
                ..self
            },
            Input::KeyUp(Key::LShift) | Input::KeyUp(Key::RShift) => Controls {
                is_zooming: false,
                ..self
            },
            Input::KeyDown(Key::LAlt) | Input::KeyDown(Key::RAlt) => Controls {
                is_scrolling: true,
                ..self
            },
            Input::KeyUp(Key::LAlt) | Input::KeyUp(Key::RAlt) => Controls {
                is_scrolling: false,
                ..self
            },
            Input::KeyDown(Key::B) => Controls { menu: Menu::Template, ..self },
            Input::KeyDown(Key::Escape) => Controls { menu: Menu::Main, ..self },
            Input::LeftButtonDown { .. } => Controls { is_mousing: !self.is_mousing, ..self },
            Input::KeyDown(Key::Tab) => Controls {
                active_heatmap: heatmap_after(self.active_heatmap),
                ..self
            },
            Input::KeyDown(Key::Semicolon) => Controls { show_heatmap: !self.show_heatmap, ..self },
            _ => self,
        }
    }

    /// The screen after an event: a new size changes the viewport's size,
    /// and while alt is held down the arrow keys move the viewport, which
    /// then follows the cursor without overshoot.
    pub open spec fn screen_after(self, screen: Screen, event: Input, cursor: Point) -> Screen {
        let top = screen.viewport_top_left;
        match event {
            Input::Resized { width, height } => screen.resized(width, height),
            Input::KeyDown(Key::Up) if self.is_scrolling => screen.moved_to(
                top.x,
                back(top.y, self.stride()),
            ).scrolled(cursor, 0),
            Input::KeyDown(Key::Down) if self.is_scrolling => screen.moved_to(
                top.x,
                forth(top.y, self.stride(), HEIGHT),
            ).scrolled(cursor, 0),
            Input::KeyDown(Key::Left) if self.is_scrolling => screen.moved_to(
                back(top.x, self.stride()),
                top.y,
            ).scrolled(cursor, 0),
            Input::KeyDown(Key::Right) if self.is_scrolling => screen.moved_to(
                forth(top.x, self.stride(), WIDTH),
                top.y,
            ).scrolled(cursor, 0),
            _ => screen,
        }
    }

    /// What an event asks the program to do, if it asks for anything.
    pub open spec fn command(self, screen: Screen, event: Input, cursor: Point) -> Option<Command> {
        match event {
            Input::KeyDown(Key::G) => if self.menu == Menu::Template {
                Some(Command::SetTemplateTo(Templates::GeneralStore))
            } else {
                Some(Command::Render)
            },
            Input::KeyDown(Key::I) => if self.menu == Menu::Template {
                Some(Command::SetTemplateTo(Templates::Inn))
            } else {
                Some(Command::Render)
            },
            Input::KeyDown(Key::Return) => if self.menu == Menu::Template {
                Some(Command::BuildTemplate)
            } else {
                Some(Command::Render)
            },
            Input::LeftButtonDown { x, y } => if self.is_mousing {
                Some(Command::Render)
            } else {
                Some(Command::SetCursorTo(screen.point_under(x, y)))
            },
            Input::MouseMotion { x, y } => if self.is_mousing {
                Some(Command::SetCursorTo(screen.point_under(x, y)))
            } else {
                None
            },
            Input::KeyDown(Key::Up) => if self.is_scrolling {
                Some(Command::Render)
            } else {
                Some(Command::SetCursorTo(Point { x: cursor.x, y: back(cursor.y, self.stride()) }))
            },
            Input::KeyDown(Key::Down) => if self.is_scrolling {
                Some(Command::Render)
            } else {
                Some(
                    Command::SetCursorTo(
                        Point { x: cursor.x, y: forth(cursor.y, self.stride(), HEIGHT) },
                    ),
                )
            },
            Input::KeyDown(Key::Left) => if self.is_scrolling {
                Some(Command::Render)
            } else {
                Some(Command::SetCursorTo(Point { x: back(cursor.x, self.stride()), y: cursor.y }))
            },
            Input::KeyDown(Key::Right) => if self.is_scrolling {
                Some(Command::Render)
            } else {
                Some(
                    Command::SetCursorTo(
                        Point { x: forth(cursor.x, self.stride(), WIDTH), y: cursor.y },
                    ),
                )
            },
            Input::KeyDown(Key::Space) => Some(Command::Step),
            Input::Quit => Some(Command::Quit),
            Input::KeyDown(_) | Input::Resized { .. } => Some(Command::Render),
            Input::KeyUp(Key::LShift) | Input::KeyUp(Key::RShift) | Input::KeyUp(Key::LAlt)
            | Input::KeyUp(Key::RAlt) => Some(Command::Render),
            Input::KeyUp(_) => None,
        }
    }

    /// What the interface remembers when the program starts.
    pub fn new() -> (c: Controls)
        ensures
            c == (Controls {
                show_heatmap: false,
                active_heatmap: (Style::Approach, MapTag::Adventure),
                is_mousing: false,
                is_zooming: false,
                is_scrolling: false,
                menu: Menu::Main,
            }),
    {
        Controls {
            show_heatmap: false,
            active_heatmap: (Style::Approach, MapTag::Adventure),
            is_mousing: false,
            is_zooming: false,
            is_scrolling: false,
            menu: Menu::Main,
        }
    }

    /// Handle input: take note of the event, change the screen where it
    /// asks for that, and say what the program is to do. An event that
    /// asks for nothing gives `None`.
    pub fn input_handler(&mut self, screen: &mut Screen, event: Input, cursor: Point) -> (r: Option<
        Command,
    >)
        requires
            old(self).answers(*old(screen), event, cursor),
        ensures
            *final(self) == old(self).after(event),
            *final(screen) == old(self).screen_after(*old(screen), event, cursor),
            r == old(self).command(*old(screen), event, cursor),
    {
        let step: usize = if self.is_zooming {
            ZOOM_STEP
        } else {
            1
        };
        match event {
            Input::KeyDown(Key::LShift) | Input::KeyDown(Key::RShift) => {
                self.is_zooming = true;
                Some(Command::Render)
            },
            Input::KeyUp(Key::LShift) | Input::KeyUp(Key::RShift) => {
                self.is_zooming = false;
                Some(Command::Render)
            },
            Input::KeyDown(Key::LAlt) | Input::KeyDown(Key::RAlt) => {
                self.is_scrolling = true;
                Some(Command::Render)
            },
            Input::KeyUp(Key::LAlt) | Input::KeyUp(Key::RAlt) => {
                self.is_scrolling = false;
                Some(Command::Render)
            },
            Input::KeyDown(Key::B) => {
                self.menu = Menu::Template;
                Some(Command::Render)
            },
            Input::KeyDown(Key::G) => {
                match self.menu {
                    Menu::Template => Some(Command::SetTemplateTo(Templates::GeneralStore)),
                    Menu::Main => Some(Command::Render),
                }
            },
            Input::KeyDown(Key::I) => {
                match self.menu {
                    Menu::Template => Some(Command::SetTemplateTo(Templates::Inn)),
                    Menu::Main => Some(Command::Render),
                }
            },
            Input::KeyDown(Key::Escape) => {
                self.menu = Menu::Main;
                Some(Command::Render)
            },
            Input::KeyDown(Key::Return) => {
                match self.menu {
                    Menu::Template => Some(Command::BuildTemplate),
                    Menu::Main => Some(Command::Render),
                }
            },
            Input::Resized { width, height } => {
                let cell_width: u32 = width / screen.cell_pixel_width;
                let cell_height: u32 = height / screen.cell_pixel_height;
                screen.viewport_width = cell_width.saturating_sub(2 * BORDER_THICKNESS);
                screen.viewport_height = cell_height.saturating_sub(
                    3 * BORDER_THICKNESS + LOG_ENTRIES_VISIBLE,
                );
                Some(Command::Render)
            },
            Input::LeftButtonDown { x, y } => {
                self.is_mousing = !self.is_mousing;
                if self.is_mousing {
                    Some(Command::SetCursorTo(screen.cursor_from_mouse(x, y)))
                } else {
                    Some(Command::Render)
                }
            },
            Input::MouseMotion { x, y } => {
                if self.is_mousing {
                    Some(Command::SetCursorTo(screen.cursor_from_mouse(x, y)))
                } else {
                    None
                }
            },
            Input::KeyDown(Key::Up) => {
                if self.is_scrolling {
                    screen.viewport_top_left.y = screen.viewport_top_left.y.saturating_sub(step);
                    screen.scroll_viewport(cursor, 0);
                    Some(Command::Render)
                } else {
                    Some(Command::SetCursorTo(Point { x: cursor.x, y: cursor.y.saturating_sub(step) }))
                }
            },
            Input::KeyDown(Key::Down) => {
                if self.is_scrolling {
                    screen.viewport_top_left.y = toward(screen.viewport_top_left.y, step, HEIGHT);
                    screen.scroll_viewport(cursor, 0);
                    Some(Command::Render)
                } else {
                    Some(Command::SetCursorTo(Point { x: cursor.x, y: toward(cursor.y, step, HEIGHT) }))
                }
            },
            Input::KeyDown(Key::Left) => {
                if self.is_scrolling {
                    screen.viewport_top_left.x = screen.viewport_top_left.x.saturating_sub(step);
                    screen.scroll_viewport(cursor, 0);
                    Some(Command::Render)
                } else {
                    Some(Command::SetCursorTo(Point { x: cursor.x.saturating_sub(step), y: cursor.y }))
                }
            },
            Input::KeyDown(Key::Right) => {
                if self.is_scrolling {
                    screen.viewport_top_left.x = toward(screen.viewport_top_left.x, step, WIDTH);
                    screen.scroll_viewport(cursor, 0);
                    Some(Command::Render)
                } else {
                    Some(Command::SetCursorTo(Point { x: toward(cursor.x, step, WIDTH), y: cursor.y }))
                }
            },
            Input::KeyDown(Key::F5) => Some(Command::Render),
            Input::KeyDown(Key::Tab) => {
                self.active_heatmap = next_heatmap(self.active_heatmap);
                Some(Command::Render)
            },
            Input::KeyDown(Key::Semicolon) => {
                self.show_heatmap = !self.show_heatmap;
                Some(Command::Render)
            },
            Input::Quit => Some(Command::Quit),
            Input::KeyDown(Key::Space) => Some(Command::Step),
            Input::KeyUp(_) => None,
        }
    }
}

/// A value plus a step, stopping at a limit.
fn toward(v: usize, step: usize, limit: usize) -> (r: usize)
    ensures
        r == forth(v, step, limit),
{
    let sum: usize = v.saturating_add(step);
    if limit < sum {
        limit
    } else {
        sum
    }
}

/// Initial cursor position: the central cell of the viewport as it is
/// when the program starts.
pub fn initial_cursor() -> (p: Point)
    ensures
        p.x == DEFAULT_VIEWPORT_CELL_WIDTH / 2,
        p.y == DEFAULT_VIEWPORT_CELL_HEIGHT / 2,
{
    Point {
        x: DEFAULT_VIEWPORT_CELL_WIDTH as usize / 2,
        y: DEFAULT_VIEWPORT_CELL_HEIGHT as usize / 2,
    }
}

/// What a thing looks like: its character in the font, the colour of the
/// character, and the colour behind it where it has one of its own.
pub type Visual = (u8, Rgb, Option<Rgb>);

impl StaticTag {
    /// What things of this kind look like.
    pub open spec fn looks(self) -> Visual {
        match self {
            StaticTag::GStoreCounter => (210u8, (133u8, 94u8, 66u8), None),
            StaticTag::InnCounter => (210u8, (133u8, 94u8, 66u8), None),
            StaticTag::Dungeon => (234u8, (129u8, 26u8, 26u8), Some((66u8, 66u8, 111u8))),
            StaticTag::Bed => (233u8, (166u8, 128u8, 100u8), None),
            StaticTag::Wall => (35u8, (0u8, 0u8, 0u8), Some((133u8, 94u8, 66u8))),
            StaticTag::Door => (186u8, (0u8, 0u8, 0u8), Some((133u8, 94u8, 66u8))),
        }
    }
}

impl Static {
    /// What the thing should look like.
    pub fn visual(&self) -> (v: Visual)
        ensures
            v == self.tag.looks(),
    {
        match self.tag {
            StaticTag::GStoreCounter => (210, (133, 94, 66), None),
            StaticTag::InnCounter => (210, (133, 94, 66), None),
            StaticTag::Dungeon => (234, (129, 26, 26), Some((66, 66, 111))),
            StaticTag::Bed => (233, (166, 128, 100), None),
            StaticTag::Wall => (35, (0, 0, 0), Some((133, 94, 66))),
            StaticTag::Door => (186, (0, 0, 0), Some((133, 94, 66))),
        }
    }
}

impl Mobile {
    /// What the mobile should look like: a green `m`.
    pub fn visual(&self) -> (v: Visual)
        ensures
            v == (109u8, (0u8, 255u8, 0u8), None::<Rgb>),
    {
        (109, (0, 255, 0), None)
    }
}

/// What is drawn in a cell: a mobile hides the static that it stands on.
pub open spec fn shown(s: Option<Static>, m: Option<Mobile>) -> Option<Visual> {
    match (m, s) {
        (Some(_), _) => Some((109u8, (0u8, 255u8, 0u8), None::<Rgb>)),
        (None, Some(s)) => Some(s.tag.looks()),
        (None, None) => None,
    }
}

/// What to draw in a cell, if anything: the character with its colour,
/// and the colour behind it. The colour that the thing in the cell has of
/// its own goes before the one that the cell was given.
pub fn cell_visual(s: Option<Static>, m: Option<Mobile>, color: Option<Rgb>) -> (r: (
    Option<(u8, Rgb)>,
    Option<Rgb>,
))
    ensures
        r.0 == match shown(s, m) {
            Some(v) => Some((v.0, v.1)),
            None => None,
        },
        r.1 == match shown(s, m) {
            Some((_, _, Some(own))) => Some(own),
            _ => color,
        },
{
    let to_render: Option<Visual> = match (m, s) {
        (Some(mob), _) => Some(mob.visual()),
        (_, Some(stat)) => Some(stat.visual()),
        _ => None,
    };
    match to_render {
        Some((b, fgcol, bgcol)) => {
            let background: Option<Rgb> = if bgcol.is_some() {
                bgcol
            } else {
                color
            };
            (Some((b, fgcol)), background)
        },
        None => (None, color),
    }
}

/// 255 times `part` over `whole`, rounded to the nearest number, a half
/// upwards.
pub open spec fn share(part: int, whole: int) -> int {
    (510 * part + whole) / (2 * whole)
}

/// The colour of a value on a heatmap whose visible values run from `min`
/// to `max`: green at the least value, red at the greatest and where the
/// map does not reach, and black where all values are the same.
pub open spec fn heat(val: i64, min: i64, max: i64) -> Rgb {
    if val == UNREACHED {
        (255u8, 0u8, 0u8)
    } else if max == min {
        (0u8, 0u8, 0u8)
    } else {
        (share(val - min, max - min) as u8, share(max - val, max - min) as u8, 0u8)
    }
}

/// The share of a part in a whole is a byte.
proof fn lemma_share(part: int, whole: int)
    requires
        0 <= part <= whole,
        0 < whole,
    ensures
        0 <= share(part, whole) <= 255,
{
    let n = 510 * part + whole;
    let d = 2 * whole;
    assert(0 <= n < 256 * d);
    vstd::arithmetic::div_mod::lemma_div_pos_is_pos(n, d);
    vstd::arithmetic::div_mod::lemma_fundamental_div_mod(n, d);
    vstd::arithmetic::div_mod::lemma_mod_bound(n, d);
    assert(n / d < 256) by (nonlinear_arith)
        requires
            n == d * (n / d) + n % d,
            0 <= n % d,
            n < 256 * d,
            d > 0,
    ;
}

/// The colour of a value on a heatmap whose visible values run from `min`
/// to `max`.
pub fn heat_color(val: i64, min: i64, max: i64) -> (c: Rgb)
    requires
        val == UNREACHED || min <= val <= max,
    ensures
        c == heat(val, min, max),
{
    if val == UNREACHED {
        (255, 0, 0)
    } else if max == min {
        (0, 0, 0)
    } else {
        let whole: i128 = max as i128 - min as i128;
        let up: i128 = val as i128 - min as i128;
        let down: i128 = max as i128 - val as i128;
        proof {
            lemma_share(up as int, whole as int);
            lemma_share(down as int, whole as int);
        }
        let red: i128 = (510 * up + whole) / (2 * whole);
        let green: i128 = (510 * down + whole) / (2 * whole);
        (red as u8, green as u8, 0)
    }
}

/// Whether a point lies in the part of the map between a first column and
/// row and the column and row after the last.
pub open spec fn in_window(p: Point, from: Point, to: Point) -> bool {
    from.x <= p.x < to.x && from.y <= p.y < to.y
}

/// Whether a point lies in a part of the map, in a row before `y`, or in
/// row `y` and a column before `x`.
pub open spec fn passed(p: Point, from: Point, to: Point, y: int, x: int) -> bool {
    in_window(p, from, to) && (p.y < y || (p.y == y && p.x < x))
}

/// Whether `min` is the least value among the first cells of a part of a
/// map, and `max` the greatest of those that are not `UNREACHED`. Where
/// there is no cell `min` is `UNREACHED`, and where there is no other
/// value `max` is the least number there is.
pub open spec fn spans_upto(
    map: Grid<i64>,
    from: Point,
    to: Point,
    y: int,
    x: int,
    min: i64,
    max: i64,
) -> bool {
    &&& forall|p: Point| #[trigger] passed(p, from, to, y, x) ==> min <= map.value(p)
    &&& forall|p: Point| #[trigger]
        passed(p, from, to, y, x) ==> map.value(p) == UNREACHED || map.value(p) <= max
    &&& min == UNREACHED || exists|p: Point| #[trigger]
        passed(p, from, to, y, x) && map.value(p) == min
    &&& max == i64::MIN || exists|p: Point| #[trigger]
        passed(p, from, to, y, x) && map.value(p) == max && max != UNREACHED
}

/// Whether `min` is the least value in a part of a map, and `max` the
/// greatest of those that are not `UNREACHED`. Where the part is empty
/// `min` is `UNREACHED`, and where it holds no other value `max` is the
/// least number there is.
pub open spec fn spans(map: Grid<i64>, from: Point, to: Point, min: i64, max: i64) -> bool {
    spans_upto(map, from, to, to.y as int, 0, min, max)
}

/// Taking one more cell into account.
proof fn lemma_spans_on(
    map: Grid<i64>,
    from: Point,
    to: Point,
    here: Point,
    min: i64,
    max: i64,
) -> (r: (i64, i64))
    requires
        in_window(here, from, to),
        spans_upto(map, from, to, here.y as int, here.x as int, min, max),
    ensures
        r.0 == if map.value(here) < min { map.value(here) } else { min },
        r.1 == if map.value(here) > max && map.value(here) != UNREACHED { map.value(here) } else { max },
        spans_upto(map, from, to, here.y as int, here.x + 1, r.0, r.1),
{
    let val = map.value(here);
    let low = if val < min { val } else { min };
    let high = if val > max && val != UNREACHED { val } else { max };
    let y = here.y as int;
    let x = here.x as int;
    assert forall|p: Point| #[trigger] passed(p, from, to, y, x + 1) implies low <= map.value(p)
        && (map.value(p) == UNREACHED || map.value(p) <= high) by {
        if !passed(p, from, to, y, x) {
            assert(p == here);
        }
    }
    assert(passed(here, from, to, y, x + 1));
    if low != UNREACHED {
        if low != val {
            let q = choose|q: Point| #[trigger]
                passed(q, from, to, y, x) && map.value(q) == min;
            assert(passed(q, from, to, y, x + 1));
        }
    }
    if high != i64::MIN {
        if high != val {
            let q = choose|q: Point| #[trigger]
                passed(q, from, to, y, x) && map.value(q) == max && max != UNREACHED;
            assert(passed(q, from, to, y, x + 1));
        }
    }
    (low, high)
}

/// Find the min and max values in the visible part of a heatmap.
pub fn heat_range(map: &Grid<i64>, from: Point, to: Point) -> (r: (i64, i64))
    requires
        to.x <= WIDTH,
        to.y <= HEIGHT,
    ensures
        spans(*map, from, to, r.0, r.1),
{
    let mut min: i64 = UNREACHED;
    let mut max: i64 = i64::MIN;
    let mut y: usize = from.y;
    assert forall|p: Point| !#[trigger] passed(p, from, to, y as int, 0) by {}
    while y < to.y
        invariant
            to.x <= WIDTH,
            to.y <= HEIGHT,
            from.y <= y,
            spans_upto(*map, from, to, y as int, 0, min, max),
        decreases to.y - y,
    {
        let mut x: usize = from.x;
        assert forall|p: Point|
            #![trigger passed(p, from, to, y as int, x as int)]
            #![trigger passed(p, from, to, y as int, 0)]
            passed(p, from, to, y as int, x as int) <==> passed(p, from, to, y as int, 0) by {}
        while x < to.x
            invariant
                to.x <= WIDTH,
                to.y <= HEIGHT,
                from.y <= y < to.y,
                from.x <= x,
                spans_upto(*map, from, to, y as int, x as int, min, max),
            decreases to.x - x,
        {
            let here = Point { x: x, y: y };
            let val: i64 = map.at(here);
            proof {
                lemma_spans_on(*map, from, to, here, min, max);
            }
            if val > max && val != UNREACHED {
                max = val;
            }
            if val < min {
                min = val;
            }
            x += 1;
        }
        assert forall|p: Point|
            #![trigger passed(p, from, to, y as int, x as int)]
            #![trigger passed(p, from, to, y + 1, 0)]
            passed(p, from, to, y as int, x as int) <==> passed(p, from, to, y + 1, 0) by {}
        y += 1;
    }
    assert forall|p: Point|
        #![trigger passed(p, from, to, y as int, 0)]
        #![trigger passed(p, from, to, to.y as int, 0)]
        passed(p, from, to, y as int, 0) <==> passed(p, from, to, to.y as int, 0) by {}
    (min, max)
}

} // verus!
