//! Coordinates, tile sizes and the mapping from ribbon positions to screen rectangles.

use vstd::prelude::*;

verus! {

/// Largest display width or height, in pixels, that the tiler works with.
pub const MAX_DIMENSION: i32 = 32_768;

/// End of the addressable part of the ribbon: every tile lies inside `[0, MAX_EXTENT]`.
pub const MAX_EXTENT: i32 = 1_073_741_824;

/// Highest row that a tile may occupy.
pub const MAX_ROW: i32 = 32_766;

/// Largest margin, horizontal or vertical.
pub const MAX_MARGIN: i32 = 200;

/// Every coordinate of a rectangle that the scheduler handles lies in
/// `[-COORD_LIMIT, COORD_LIMIT]`.
pub const COORD_LIMIT: i32 = 1_073_807_360;

/// A rectangle repositioned on its own must keep every coordinate strictly inside
/// `(-REACH_LIMIT, REACH_LIMIT)`.
pub const REACH_LIMIT: i32 = 20_000;

/// A restored window keeps at least this many pixels between its origin and the far
/// edges of the display.
pub const EDGE_ALLOWANCE: i32 = 100;

/// A screen rectangle, by its edges.
#[derive(Clone, Copy, Debug, PartialEq, Eq, Structural)]
pub struct Rect {
    pub left: i32,
    pub top: i32,
    pub right: i32,
    pub bottom: i32,
}

/// How much of the display's width a tile takes.
#[derive(Clone, Copy, Debug, PartialEq, Eq, Structural)]
pub enum TileSize {
    Full,
    Half,
}

/// Where a tile sits in the ribbon: virtual x, row, and size.
#[derive(Clone, Copy, Debug, PartialEq, Eq, Structural)]
pub struct RibbonPosition {
    pub x: i32,
    pub row: i32,
    pub size: TileSize,
}

/// The four directions that commands go in.
#[derive(Clone, Copy, Debug, PartialEq, Eq, Structural)]
pub enum Direction {
    Up,
    Down,
    Left,
    Right,
}

/// The primary display's size in pixels. A row is as high as the display.
#[derive(Clone, Copy, Debug, PartialEq, Eq, Structural)]
pub struct Display {
    pub width: i32,
    pub height: i32,
}

/// The space left free around every tile, split evenly between its two sides.
#[derive(Clone, Copy, Debug, PartialEq, Eq, Structural)]
pub struct Margins {
    pub horizontal: i32,
    pub vertical: i32,
}

/// Everything the geometry mapper needs besides the tile's position.
#[derive(Clone, Copy, Debug, PartialEq, Eq, Structural)]
pub struct Projection {
    pub display: Display,
    pub margins: Margins,
    pub offset_x: i32,
    pub offset_y: i32,
}

/// The value of `x` brought into `[lo, hi]`; `lo` wins where the bounds cross.
pub open spec fn clamp_int(x: int, lo: int, hi: int) -> int {
    if x < lo {
        lo
    } else if x > hi {
        hi
    } else {
        x
    }
}

/// The greater of two.
pub open spec fn max_int(a: int, b: int) -> int {
    if a >= b {
        a
    } else {
        b
    }
}

/// The lesser of two.
pub open spec fn min_int(a: int, b: int) -> int {
    if a <= b {
        a
    } else {
        b
    }
}

/// Quotient rounded toward zero, for a positive divisor.
pub open spec fn div_toward_zero(a: int, b: int) -> int {
    if a >= 0 {
        a / b
    } else {
        -((-a) / b)
    }
}

/// `x` brought into `[lo, hi]`.
pub fn clamp_i64(x: i64, lo: i64, hi: i64) -> (r: i64)
    ensures
        r == clamp_int(x as int, lo as int, hi as int),
{
    if x < lo {
        lo
    } else if x > hi {
        hi
    } else {
        x
    }
}

/// `x` brought into `[lo, hi]`.
pub fn clamp_i32(x: i32, lo: i32, hi: i32) -> (r: i32)
    ensures
        r == clamp_int(x as int, lo as int, hi as int),
{
    if x < lo {
        lo
    } else if x > hi {
        hi
    } else {
        x
    }
}

impl Rect {
    /// Right edge less left edge; negative where the edges are crossed.
    pub open spec fn width(self) -> int {
        self.right - self.left
    }

    /// Bottom edge less top edge; negative where the edges are crossed.
    pub open spec fn height(self) -> int {
        self.bottom - self.top
    }

    /// All four edges lie within `[-COORD_LIMIT, COORD_LIMIT]`.
    pub open spec fn bounded(self) -> bool {
        &&& -COORD_LIMIT <= self.left <= COORD_LIMIT
        &&& -COORD_LIMIT <= self.top <= COORD_LIMIT
        &&& -COORD_LIMIT <= self.right <= COORD_LIMIT
        &&& -COORD_LIMIT <= self.bottom <= COORD_LIMIT
    }

    /// The rectangle has an interior.
    pub open spec fn has_area(self) -> bool {
        self.width() > 0 && self.height() > 0
    }

    /// A rectangle fit for a batched reposition: it has an interior and reaches into the
    /// band of one display size around the display.
    pub open spec fn near_display(self, display: Display) -> bool {
        &&& self.has_area()
        &&& self.left < display.width * 2
        &&& self.right > -display.width
        &&& self.top < display.height * 2
        &&& self.bottom > -display.height
    }

    /// A rectangle fit for a reposition of its own: it has an interior and no coordinate
    /// is unreasonably far from the origin.
    pub open spec fn within_reach(self) -> bool {
        &&& self.has_area()
        &&& -REACH_LIMIT < self.left
        &&& -REACH_LIMIT < self.top
        &&& self.right < REACH_LIMIT
        &&& self.bottom < REACH_LIMIT
    }

    /// The rectangle with every edge brought into `[-COORD_LIMIT, COORD_LIMIT]`.
    pub open spec fn clipped(self) -> Rect {
        Rect {
            left: saturate(self.left as int) as i32,
            top: saturate(self.top as int) as i32,
            right: saturate(self.right as int) as i32,
            bottom: saturate(self.bottom as int) as i32,
        }
    }

    /// The rectangle with every edge brought within bounds.
    pub fn clip(&self) -> (r: Rect)
        ensures
            r == self.clipped(),
            r.bounded(),
            self.bounded() ==> r == *self,
    {
        Rect {
            left: saturate_i64(self.left as i64),
            top: saturate_i64(self.top as i64),
            right: saturate_i64(self.right as i64),
            bottom: saturate_i64(self.bottom as i64),
        }
    }

    /// Whether all four edges lie within bounds.
    pub fn is_bounded(&self) -> (b: bool)
        ensures
            b == self.bounded(),
    {
        -COORD_LIMIT <= self.left && self.left <= COORD_LIMIT && -COORD_LIMIT <= self.top
            && self.top <= COORD_LIMIT && -COORD_LIMIT <= self.right && self.right <= COORD_LIMIT
            && -COORD_LIMIT <= self.bottom && self.bottom <= COORD_LIMIT
    }

    /// Whether the rectangle is fit for a batched reposition.
    pub fn is_near_display(&self, display: &Display) -> (b: bool)
        requires
            display.valid(),
        ensures
            b == self.near_display(*display),
    {
        let width: i64 = self.right as i64 - self.left as i64;
        let height: i64 = self.bottom as i64 - self.top as i64;
        width > 0 && height > 0 && self.left < display.width * 2 && self.right > -display.width
            && self.top < display.height * 2 && self.bottom > -display.height
    }

    /// Whether the rectangle is fit for a reposition of its own.
    pub fn is_within_reach(&self) -> (b: bool)
        ensures
            b == self.within_reach(),
    {
        let width: i64 = self.right as i64 - self.left as i64;
        let height: i64 = self.bottom as i64 - self.top as i64;
        width > 0 && height > 0 && self.left > -REACH_LIMIT && self.top > -REACH_LIMIT
            && self.right < REACH_LIMIT && self.bottom < REACH_LIMIT
    }
}

impl TileSize {
    /// Full becomes Half and Half becomes Full.
    pub open spec fn toggled(self) -> TileSize {
        match self {
            TileSize::Full => TileSize::Half,
            TileSize::Half => TileSize::Full,
        }
    }

    /// The other size.
    pub fn toggle(self) -> (r: TileSize)
        ensures
            r == self.toggled(),
    {
        match self {
            TileSize::Full => TileSize::Half,
            TileSize::Half => TileSize::Full,
        }
    }
}

impl Display {
    /// At least two pixels wide, so that half a display is not empty, at least one pixel
    /// high, and no larger than `MAX_DIMENSION` either way.
    pub open spec fn valid(self) -> bool {
        &&& 2 <= self.width <= MAX_DIMENSION
        &&& 1 <= self.height <= MAX_DIMENSION
    }

    /// The width of a tile of the given size on this display.
    pub open spec fn tile_width(self, size: TileSize) -> int {
        match size {
            TileSize::Full => self.width as int,
            TileSize::Half => self.width / 2,
        }
    }

    /// Whether the tiler can work with a display of this size.
    pub fn is_valid(&self) -> (b: bool)
        ensures
            b == self.valid(),
    {
        2 <= self.width && self.width <= MAX_DIMENSION && 1 <= self.height && self.height
            <= MAX_DIMENSION
    }

    /// The width of a tile of the given size on this display.
    pub fn get_tile_width(&self, size: TileSize) -> (w: i32)
        requires
            self.valid(),
        ensures
            w == self.tile_width(size),
            1 <= w <= self.width,
    {
        match size {
            TileSize::Full => self.width,
            TileSize::Half => self.width / 2,
        }
    }
}

impl Margins {
    /// Both margins lie within `[0, MAX_MARGIN]`.
    pub open spec fn valid(self) -> bool {
        &&& 0 <= self.horizontal <= MAX_MARGIN
        &&& 0 <= self.vertical <= MAX_MARGIN
    }

    /// Both margins moved by `delta` and twice `delta`, staying within `[0, MAX_MARGIN]`.
    pub open spec fn adjusted(self, delta: int) -> Margins {
        Margins {
            horizontal: clamp_int(self.horizontal + delta, 0, MAX_MARGIN as int) as i32,
            vertical: clamp_int(self.vertical + delta * 2, 0, MAX_MARGIN as int) as i32,
        }
    }

    /// The margins moved by `delta`, the vertical one by twice as much.
    pub fn adjust(self, delta: i32) -> (r: Margins)
        requires
            self.valid(),
        ensures
            r == self.adjusted(delta as int),
            r.valid(),
    {
        let h: i64 = clamp_i64(self.horizontal as i64 + delta as i64, 0, MAX_MARGIN as i64);
        let v: i64 = clamp_i64(self.vertical as i64 + delta as i64 * 2, 0, MAX_MARGIN as i64);
        Margins { horizontal: h as i32, vertical: v as i32 }
    }
}

impl RibbonPosition {
    /// The position lies in the addressable part of the ribbon. The row may be the one
    /// row above `MAX_ROW` that the viewport can look at.
    pub open spec fn valid(self) -> bool {
        &&& 0 <= self.x <= MAX_EXTENT
        &&& 0 <= self.row <= MAX_ROW + 1
    }
}

impl Projection {
    /// The display and the margins are valid, and both offsets lie on the ribbon.
    pub open spec fn valid(self) -> bool {
        &&& self.display.valid()
        &&& self.margins.valid()
        &&& 0 <= self.offset_x <= MAX_EXTENT
        &&& 0 <= self.offset_y <= MAX_EXTENT
    }

    /// The screen rectangle of a tile at `pos`: its ribbon cell moved by the offsets and
    /// drawn in by half a margin on every side.
    pub open spec fn screen_rect(self, pos: RibbonPosition) -> Rect {
        let base_x = pos.x - self.offset_x;
        let base_y = pos.row * self.display.height - self.offset_y;
        Rect {
            left: (base_x + self.margins.horizontal / 2) as i32,
            top: (base_y + self.margins.vertical / 2) as i32,
            right: (base_x + self.display.tile_width(pos.size) - self.margins.horizontal / 2) as i32,
            bottom: (base_y + self.display.height - self.margins.vertical / 2) as i32,
        }
    }

    /// Whether a tile at `pos` touches the band of one display size around the display.
    pub open spec fn shows(self, pos: RibbonPosition) -> bool {
        let start = pos.x - self.offset_x;
        let end = start + self.display.tile_width(pos.size);
        let top = pos.row * self.display.height - self.offset_y;
        let bottom = top + self.display.height;
        &&& end >= -self.display.width
        &&& start <= self.display.width * 2
        &&& bottom >= -self.display.height
        &&& top <= self.display.height + self.display.height
    }

    /// The geometry mapper.
    pub fn ribbon_to_screen(&self, pos: &RibbonPosition) -> (rect: Rect)
        requires
            self.valid(),
            pos.valid(),
        ensures
            rect == self.screen_rect(*pos),
            rect.bounded(),
            rect.left == pos.x - self.offset_x + self.margins.horizontal / 2,
            rect.right == pos.x - self.offset_x + self.display.tile_width(pos.size)
                - self.margins.horizontal / 2,
            rect.top == pos.row * self.display.height - self.offset_y + self.margins.vertical / 2,
            rect.bottom == pos.row * self.display.height - self.offset_y + self.display.height
                - self.margins.vertical / 2,
    {
        proof {
            lemma_row_origin_bounds(pos.row as int, self.display.height as int);
        }
        let base_x: i32 = pos.x - self.offset_x;
        let base_y: i32 = pos.row * self.display.height - self.offset_y;
        let w: i32 = self.display.get_tile_width(pos.size);
        Rect {
            left: base_x + self.margins.horizontal / 2,
            top: base_y + self.margins.vertical / 2,
            right: base_x + w - self.margins.horizontal / 2,
            bottom: base_y + self.display.height - self.margins.vertical / 2,
        }
    }

    /// Whether a tile at `pos` touches the band of one display size around the display.
    pub fn is_window_visible(&self, pos: &RibbonPosition) -> (b: bool)
        requires
            self.valid(),
            pos.valid(),
        ensures
            b == self.shows(*pos),
    {
        proof {
            lemma_row_origin_bounds(pos.row as int, self.display.height as int);
        }
        let window_start: i32 = pos.x - self.offset_x;
        let window_end: i32 = window_start + self.display.get_tile_width(pos.size);
        let h_visible: bool = window_end >= -self.display.width && window_start
            <= self.display.width * 2;
        let window_top: i32 = pos.row * self.display.height - self.offset_y;
        let window_bottom: i32 = window_top + self.display.height;
        let v_visible: bool = window_bottom >= -self.display.height && window_top
            <= self.display.height + self.display.height;
        h_visible && v_visible
    }
}

/// The top of a row, before scrolling, stays below `MAX_EXTENT`.
pub proof fn lemma_row_origin_bounds(row: int, height: int)
    requires
        0 <= row <= MAX_ROW + 1,
        1 <= height <= MAX_DIMENSION,
    ensures
        0 <= row * height <= (MAX_ROW + 1) * MAX_DIMENSION,
        (MAX_ROW + 1) * MAX_DIMENSION < MAX_EXTENT,
        row * height + height <= MAX_EXTENT,
{
    assert(0 <= row * height <= (MAX_ROW + 1) * MAX_DIMENSION) by (nonlinear_arith)
        requires
            0 <= row <= MAX_ROW + 1,
            1 <= height <= MAX_DIMENSION,
    ;
}

/// Where a rectangle recorded before management is put back: unchanged if its origin is
/// on or near the display, centred otherwise, and in either case with its origin brought
/// into the band that leaves `EDGE_ALLOWANCE` pixels on the display. Its size is kept;
/// coordinates saturate at `COORD_LIMIT`.
pub open spec fn restoration_rect(saved: Rect, display: Display) -> Rect {
    let width = saved.width();
    let height = saved.height();
    let lo_x = -width + EDGE_ALLOWANCE;
    let hi_x = display.width - EDGE_ALLOWANCE;
    let lo_y = -height + EDGE_ALLOWANCE;
    let hi_y = display.height - EDGE_ALLOWANCE;
    let astray = saved.left < lo_x || saved.left > hi_x || saved.top < lo_y
        || saved.top > hi_y;
    let left = clamp_int(
        if astray {
            div_toward_zero(display.width - width, 2)
        } else {
            saved.left as int
        },
        lo_x,
        hi_x,
    );
    let top = clamp_int(
        if astray {
            div_toward_zero(display.height - height, 2)
        } else {
            saved.top as int
        },
        lo_y,
        hi_y,
    );
    Rect {
        left: saturate(left) as i32,
        top: saturate(top) as i32,
        right: saturate(left + width) as i32,
        bottom: saturate(top + height) as i32,
    }
}

/// `v` brought into `[-COORD_LIMIT, COORD_LIMIT]`.
pub open spec fn saturate(v: int) -> int {
    clamp_int(v, -COORD_LIMIT as int, COORD_LIMIT as int)
}

/// The rectangle recorded when a window comes under management: the window's own
/// rectangle if its origin is on or near the display, the same size centred otherwise.
pub open spec fn recorded_rect(current: Rect, display: Display) -> Rect {
    let width = current.width();
    let height = current.height();
    let astray = current.left < -width + EDGE_ALLOWANCE || current.left > display.width
        - EDGE_ALLOWANCE || current.top < -height + EDGE_ALLOWANCE || current.top
        > display.height - EDGE_ALLOWANCE;
    if astray {
        let left = div_toward_zero(display.width - width, 2);
        let top = div_toward_zero(display.height - height, 2);
        Rect {
            left: saturate(left) as i32,
            top: saturate(top) as i32,
            right: saturate(left + width) as i32,
            bottom: saturate(top + height) as i32,
        }
    } else {
        current
    }
}

fn saturate_i64(v: i64) -> (r: i32)
    ensures
        r == saturate(v as int),
        -COORD_LIMIT <= r <= COORD_LIMIT,
{
    clamp_i64(v, -(COORD_LIMIT as i64), COORD_LIMIT as i64) as i32
}

/// Where a window that leaves management is put back.
pub fn compute_restoration_rect(saved: &Rect, display: &Display) -> (rect: Rect)
    requires
        display.valid(),
    ensures
        rect == restoration_rect(*saved, *display),
        rect.bounded(),
{
    let width: i64 = saved.right as i64 - saved.left as i64;
    let height: i64 = saved.bottom as i64 - saved.top as i64;
    let lo_x: i64 = -width + EDGE_ALLOWANCE as i64;
    let hi_x: i64 = display.width as i64 - EDGE_ALLOWANCE as i64;
    let lo_y: i64 = -height + EDGE_ALLOWANCE as i64;
    let hi_y: i64 = display.height as i64 - EDGE_ALLOWANCE as i64;
    let mut left: i64 = saved.left as i64;
    let mut top: i64 = saved.top as i64;
    if left < lo_x || left > hi_x || top < lo_y || top > hi_y {
        left = (display.width as i64 - width) / 2;
        top = (display.height as i64 - height) / 2;
    }
    left = clamp_i64(left, lo_x, hi_x);
    top = clamp_i64(top, lo_y, hi_y);
    Rect {
        left: saturate_i64(left),
        top: saturate_i64(top),
        right: saturate_i64(left + width),
        bottom: saturate_i64(top + height),
    }
}

/// The rectangle that is recorded for a window that comes under management.
pub fn compute_recorded_rect(current: &Rect, display: &Display) -> (rect: Rect)
    requires
        display.valid(),
    ensures
        rect == recorded_rect(*current, *display),
{
    let width: i64 = current.right as i64 - current.left as i64;
    let height: i64 = current.bottom as i64 - current.top as i64;
    if (current.left as i64) < -width + EDGE_ALLOWANCE as i64 || current.left as i64
        > display.width as i64 - EDGE_ALLOWANCE as i64 || (current.top as i64) < -height
        + EDGE_ALLOWANCE as i64 || current.top as i64 > display.height as i64
        - EDGE_ALLOWANCE as i64 {
        let left: i64 = (display.width as i64 - width) / 2;
        let top: i64 = (display.height as i64 - height) / 2;
        Rect {
            left: saturate_i64(left),
            top: saturate_i64(top),
            right: saturate_i64(left + width),
            bottom: saturate_i64(top + height),
        }
    } else {
        *current
    }
}

} // verus!
