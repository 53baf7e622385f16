//! The viewport controller: the two scroll offsets, their targets, the row in view,
//! and the one scroll transition that may be under way.

use vstd::prelude::*;
use crate::animation::{ScrollAnimation, SCROLL_DURATION_MS};
use crate::geometry::{clamp_i32, clamp_int, Direction, Display, MAX_EXTENT, MAX_ROW};
use crate::layout::{highest_row, horizontal_limit, lemma_limits, max_offset, max_vertical, tiles_valid,
    top_row, vertical_limit, ManagedTile};

verus! {

/// How far the viewport may go, as the tiles allow it.
#[derive(Clone, Copy, Debug, PartialEq, Eq, Structural)]
pub struct Limits {
    /// Greatest horizontal offset.
    pub max_x: i32,
    /// Greatest vertical offset.
    pub max_y: i32,
    /// Highest occupied row.
    pub top_row: i32,
}

/// Where the viewport is, where it is going, and the scroll that takes it there.
#[derive(Clone, Copy, Debug, PartialEq, Eq)]
pub struct ViewportState {
    pub ribbon_offset: i32,
    pub ribbon_offset_target: i32,
    pub vertical_offset: i32,
    pub vertical_offset_target: i32,
    pub current_row: i32,
    pub scroll_animation: Option<ScrollAnimation>,
}

/// The limits that a set of tiles puts on the viewport: the horizontal offset ends
/// where the last tile leaves the display, the vertical one at the one empty row above
/// the highest row that holds a tile.
pub open spec fn limits_of(tiles: Seq<ManagedTile>, display: Display) -> Limits {
    Limits {
        max_x: max_offset(tiles, display) as i32,
        max_y: max_vertical(tiles, display) as i32,
        top_row: top_row(tiles) as i32,
    }
}

/// The limits that a set of tiles puts on the viewport.
pub fn compute_limits(tiles: &Vec<ManagedTile>, display: &Display) -> (l: Limits)
    requires
        display.valid(),
        tiles_valid(tiles@, *display),
    ensures
        l == limits_of(tiles@, *display),
        l.valid(*display),
{
    proof {
        lemma_limits(tiles@, *display);
    }
    Limits {
        max_x: horizontal_limit(tiles, display),
        max_y: vertical_limit(tiles, display),
        top_row: highest_row(tiles, display),
    }
}

impl Limits {
    /// The limits fit the ribbon, and the vertical one is the top of the row above the
    /// highest tile.
    pub open spec fn valid(self, display: Display) -> bool {
        &&& 0 <= self.max_x <= MAX_EXTENT
        &&& 0 <= self.top_row <= MAX_ROW
        &&& self.max_y == (self.top_row + 1) * display.height
        &&& 0 <= self.max_y <= MAX_EXTENT
    }
}

impl ViewportState {
    /// The viewport at rest at the origin.
    pub open spec fn origin() -> ViewportState {
        ViewportState {
            ribbon_offset: 0,
            ribbon_offset_target: 0,
            vertical_offset: 0,
            vertical_offset_target: 0,
            current_row: 0,
            scroll_animation: None,
        }
    }

    /// Both offsets and both targets lie within the limits, the row in view is at most
    /// one above the highest occupied row, and a scroll under way stays on the ribbon.
    pub open spec fn within(self, l: Limits) -> bool {
        &&& 0 <= self.ribbon_offset <= l.max_x
        &&& 0 <= self.ribbon_offset_target <= l.max_x
        &&& 0 <= self.vertical_offset <= l.max_y
        &&& 0 <= self.vertical_offset_target <= l.max_y
        &&& 0 <= self.current_row <= l.top_row + 1
        &&& match self.scroll_animation {
            Some(a) => a.valid(),
            None => true,
        }
    }

    /// The viewport brought within the limits, every value on its own.
    pub open spec fn clamped(self, l: Limits) -> ViewportState {
        ViewportState {
            ribbon_offset: clamp_int(self.ribbon_offset as int, 0, l.max_x as int) as i32,
            ribbon_offset_target: clamp_int(self.ribbon_offset_target as int, 0, l.max_x as int) as i32,
            vertical_offset: clamp_int(self.vertical_offset as int, 0, l.max_y as int) as i32,
            vertical_offset_target: clamp_int(self.vertical_offset_target as int, 0, l.max_y as int) as i32,
            current_row: clamp_int(self.current_row as int, 0, l.top_row + 1) as i32,
            scroll_animation: self.scroll_animation,
        }
    }

    /// The offsets where the scroll under way has them at `now`; the offsets as they
    /// are where none is under way.
    pub open spec fn offsets_at(self, now: u64) -> (int, int) {
        match self.scroll_animation {
            Some(a) => a.offsets_at(now),
            None => (self.ribbon_offset as int, self.vertical_offset as int),
        }
    }

    /// A scroll toward the targets, begun at `now` from where the viewport is at that
    /// moment. It takes the place of a scroll under way.
    pub open spec fn launched(self, l: Limits, now: u64) -> ViewportState {
        let from = self.offsets_at(now);
        let start_x = clamp_int(from.0, 0, l.max_x as int) as i32;
        let start_y = clamp_int(from.1, 0, l.max_y as int) as i32;
        let target_x = clamp_int(self.ribbon_offset_target as int, 0, l.max_x as int) as i32;
        let target_y = clamp_int(self.vertical_offset_target as int, 0, l.max_y as int) as i32;
        ViewportState {
            ribbon_offset: start_x,
            ribbon_offset_target: target_x,
            vertical_offset: start_y,
            vertical_offset_target: target_y,
            current_row: clamp_int(self.current_row as int, 0, l.top_row + 1) as i32,
            scroll_animation: Some(
                ScrollAnimation {
                    start_x,
                    start_y,
                    target_x,
                    target_y,
                    start_time: now,
                    duration: SCROLL_DURATION_MS,
                },
            ),
        }
    }

    /// Whether a horizontal pan in `direction` has anywhere to go.
    pub open spec fn can_pan(self, direction: Direction, l: Limits) -> bool {
        match direction {
            Direction::Left => self.ribbon_offset_target > 0,
            Direction::Right => self.ribbon_offset_target < l.max_x,
            _ => false,
        }
    }

    /// The viewport after a horizontal pan by `step`: the target moves by the step and
    /// stops at the limits, and a scroll toward it begins. At either end, and for a
    /// vertical direction, nothing changes.
    pub open spec fn panned(self, direction: Direction, step: int, l: Limits, now: u64) -> ViewportState {
        if self.can_pan(direction, l) {
            let target = match direction {
                Direction::Left => clamp_int(self.ribbon_offset_target - step, 0, l.max_x as int),
                _ => clamp_int(self.ribbon_offset_target + step, 0, l.max_x as int),
            };
            ViewportState { ribbon_offset_target: target as i32, ..self }.launched(l, now)
        } else {
            self
        }
    }

    /// Whether a row pan in `direction` has anywhere to go.
    pub open spec fn can_pan_row(self, direction: Direction, l: Limits) -> bool {
        match direction {
            Direction::Up => self.current_row > 0,
            Direction::Down => self.current_row < l.top_row + 1,
            _ => false,
        }
    }

    /// The viewport after a pan by one row: the row in view changes, the vertical
    /// target is the top of that row, and a scroll toward it begins. At the first row
    /// going up, at the empty row above the highest tile going down, and for a
    /// horizontal direction, nothing changes.
    pub open spec fn row_panned(self, direction: Direction, height: int, l: Limits, now: u64) -> ViewportState {
        if self.can_pan_row(direction, l) {
            let row = match direction {
                Direction::Up => self.current_row - 1,
                _ => self.current_row + 1,
            };
            ViewportState {
                current_row: row as i32,
                vertical_offset_target: (row * height) as i32,
                ..self
            }.launched(l, now)
        } else {
            self
        }
    }

    /// The viewport on its way to a tile of `row` whose centre is at `center`: the row
    /// in view is the tile's, the horizontal target puts the tile's centre in the
    /// middle of the display as far as the limits allow.
    pub open spec fn aimed(self, row: int, center: int, display: Display, l: Limits, now: u64) -> ViewportState {
        ViewportState {
            current_row: row as i32,
            vertical_offset_target: (row * display.height) as i32,
            ribbon_offset_target: clamp_int(center - display.width / 2, 0, l.max_x as int) as i32,
            ..self
        }.launched(l, now)
    }

    /// A scroll is under way and has run its full length at `now`.
    pub open spec fn arrives(self, now: u64) -> bool {
        match self.scroll_animation {
            Some(a) => a.finished(now),
            None => false,
        }
    }

    /// The viewport at a tick: a scroll that has run its length leaves the offsets and
    /// the targets at its targets and ends; one still running puts the offsets where it
    /// has them. Either way the result is brought within the limits.
    pub open spec fn advanced(self, l: Limits, now: u64) -> ViewportState {
        match self.scroll_animation {
            Some(a) => if a.finished(now) {
                ViewportState {
                    ribbon_offset: a.target_x,
                    ribbon_offset_target: a.target_x,
                    vertical_offset: a.target_y,
                    vertical_offset_target: a.target_y,
                    current_row: self.current_row,
                    scroll_animation: None,
                }.clamped(l)
            } else {
                ViewportState {
                    ribbon_offset: a.offsets_at(now).0 as i32,
                    vertical_offset: a.offsets_at(now).1 as i32,
                    ..self
                }.clamped(l)
            },
            None => self.clamped(l),
        }
    }

    /// What holds of the viewport whatever the tiles are.
    pub open spec fn valid(self) -> bool {
        &&& 0 <= self.ribbon_offset <= MAX_EXTENT
        &&& 0 <= self.ribbon_offset_target <= MAX_EXTENT
        &&& 0 <= self.vertical_offset <= MAX_EXTENT
        &&& 0 <= self.vertical_offset_target <= MAX_EXTENT
        &&& 0 <= self.current_row <= MAX_ROW + 1
        &&& match self.scroll_animation {
            Some(a) => a.valid(),
            None => true,
        }
    }

    /// The viewport at rest at the origin.
    pub fn new() -> (v: ViewportState)
        ensures
            v == ViewportState::origin(),
    {
        ViewportState {
            ribbon_offset: 0,
            ribbon_offset_target: 0,
            vertical_offset: 0,
            vertical_offset_target: 0,
            current_row: 0,
            scroll_animation: None,
        }
    }

    /// The viewport brought within the limits.
    pub fn clamp(&self, l: &Limits) -> (v: ViewportState)
        ensures
            v == self.clamped(*l),
            (match self.scroll_animation {
                Some(a) => a.valid(),
                None => true,
            }) && 0 <= l.max_x && 0 <= l.max_y && 0 <= l.top_row ==> v.within(*l),
            self.within(*l) ==> v == *self,
    {
        ViewportState {
            ribbon_offset: clamp_i32(self.ribbon_offset, 0, l.max_x),
            ribbon_offset_target: clamp_i32(self.ribbon_offset_target, 0, l.max_x),
            vertical_offset: clamp_i32(self.vertical_offset, 0, l.max_y),
            vertical_offset_target: clamp_i32(self.vertical_offset_target, 0, l.max_y),
            current_row: clamp_i32(self.current_row, 0, if l.top_row < i32::MAX {
                l.top_row + 1
            } else {
                l.top_row
            }),
            scroll_animation: self.scroll_animation,
        }
    }

    /// Starts, or starts over, the scroll toward the targets.
    pub fn start_scroll_animation(&self, l: &Limits, display: &Display, now: u64) -> (v: ViewportState)
        requires
            self.valid(),
            l.valid(*display),
        ensures
            v == self.launched(*l, now),
            v.within(*l),
            v.scroll_animation.is_some(),
            v.scroll_animation.unwrap().start_x == v.ribbon_offset,
            v.scroll_animation.unwrap().start_y == v.vertical_offset,
    {
        let from: (i32, i32) = match self.scroll_animation {
            Some(a) => a.sample(now),
            None => (self.ribbon_offset, self.vertical_offset),
        };
        let start_x: i32 = clamp_i32(from.0, 0, l.max_x);
        let start_y: i32 = clamp_i32(from.1, 0, l.max_y);
        let target_x: i32 = clamp_i32(self.ribbon_offset_target, 0, l.max_x);
        let target_y: i32 = clamp_i32(self.vertical_offset_target, 0, l.max_y);
        ViewportState {
            ribbon_offset: start_x,
            ribbon_offset_target: target_x,
            vertical_offset: start_y,
            vertical_offset_target: target_y,
            current_row: clamp_i32(self.current_row, 0, l.top_row + 1),
            scroll_animation: Some(
                ScrollAnimation {
                    start_x,
                    start_y,
                    target_x,
                    target_y,
                    start_time: now,
                    duration: SCROLL_DURATION_MS,
                },
            ),
        }
    }

    /// Whether a horizontal pan in `direction` has anywhere to go.
    pub fn pans(&self, direction: Direction, l: &Limits) -> (b: bool)
        ensures
            b == self.can_pan(direction, *l),
    {
        match direction {
            Direction::Left => self.ribbon_offset_target > 0,
            Direction::Right => self.ribbon_offset_target < l.max_x,
            _ => false,
        }
    }

    /// Whether a row pan in `direction` has anywhere to go.
    pub fn pans_row(&self, direction: Direction, l: &Limits) -> (b: bool)
        requires
            l.top_row <= MAX_ROW,
        ensures
            b == self.can_pan_row(direction, *l),
    {
        match direction {
            Direction::Up => self.current_row > 0,
            Direction::Down => self.current_row < l.top_row + 1,
            _ => false,
        }
    }

    /// Pans horizontally by half a display.
    pub fn pan_ribbon(&self, direction: Direction, l: &Limits, display: &Display, now: u64) -> (v: ViewportState)
        requires
            self.valid(),
            l.valid(*display),
            display.valid(),
        ensures
            v == self.panned(direction, display.width / 2, *l, now),
            self.within(*l) ==> v.within(*l),
    {
        let step: i32 = display.width / 2;
        let target: i32 = match direction {
            Direction::Left => {
                if self.ribbon_offset_target <= 0 {
                    return *self;
                }
                clamp_i32(self.ribbon_offset_target - step, 0, l.max_x)
            },
            Direction::Right => {
                if self.ribbon_offset_target >= l.max_x {
                    return *self;
                }
                clamp_i32(self.ribbon_offset_target + step, 0, l.max_x)
            },
            _ => {
                return *self;
            },
        };
        let aimed: ViewportState = ViewportState { ribbon_offset_target: target, ..*self };
        aimed.start_scroll_animation(l, display, now)
    }

    /// Pans by one row.
    pub fn pan_row(&self, direction: Direction, l: &Limits, display: &Display, now: u64) -> (v: ViewportState)
        requires
            self.valid(),
            l.valid(*display),
            display.valid(),
        ensures
            v == self.row_panned(direction, display.height as int, *l, now),
            self.within(*l) ==> v.within(*l),
            !self.can_pan_row(direction, *l) ==> v == *self,
            self.can_pan_row(direction, *l) && self.current_row <= l.top_row + 1 ==> {
                &&& v.current_row == (if direction == Direction::Up {
                    self.current_row - 1
                } else {
                    self.current_row + 1
                })
                &&& v.vertical_offset_target == v.current_row * display.height
                &&& v.scroll_animation.is_some()
                &&& v.scroll_animation.unwrap().target_y == v.vertical_offset_target
                &&& v.scroll_animation.unwrap().start_time == now
            },
    {
        let row: i32 = match direction {
            Direction::Up => {
                if self.current_row <= 0 {
                    return *self;
                }
                self.current_row - 1
            },
            Direction::Down => {
                if self.current_row >= l.top_row + 1 {
                    return *self;
                }
                self.current_row + 1
            },
            _ => {
                return *self;
            },
        };
        proof {
            crate::geometry::lemma_row_origin_bounds(row as int, display.height as int);
            if self.current_row <= l.top_row + 1 {
                assert(row * display.height <= (l.top_row + 1) * display.height) by (nonlinear_arith)
                    requires
                        0 <= row <= l.top_row + 1,
                        0 <= display.height,
                ;
            }
        }
        let aimed: ViewportState = ViewportState {
            current_row: row,
            vertical_offset_target: row * display.height,
            ..*self
        };
        aimed.start_scroll_animation(l, display, now)
    }

    /// Scrolls toward a tile of `row` whose centre is at `center`.
    pub fn aim(&self, row: i32, center: i32, l: &Limits, display: &Display, now: u64) -> (v: ViewportState)
        requires
            self.valid(),
            l.valid(*display),
            display.valid(),
            0 <= row <= MAX_ROW,
            0 <= center <= MAX_EXTENT,
        ensures
            v == self.aimed(row as int, center as int, *display, *l, now),
            v.within(*l),
    {
        proof {
            crate::geometry::lemma_row_origin_bounds(row as int, display.height as int);
        }
        let aimed: ViewportState = ViewportState {
            current_row: row,
            vertical_offset_target: row * display.height,
            ribbon_offset_target: clamp_i32(center - display.width / 2, 0, l.max_x),
            ..*self
        };
        aimed.start_scroll_animation(l, display, now)
    }

    /// Whether a scroll is under way and has run its full length at `now`.
    pub fn scroll_arrives(&self, now: u64) -> (b: bool)
        ensures
            b == self.arrives(now),
    {
        match self.scroll_animation {
            Some(a) => a.is_finished(now),
            None => false,
        }
    }

    /// Advances the scroll under way to `now`.
    pub fn advance(&self, l: &Limits, display: &Display, now: u64) -> (v: ViewportState)
        requires
            self.valid(),
            l.valid(*display),
        ensures
            v == self.advanced(*l, now),
            v.within(*l),
            self.arrives(now) ==> v.scroll_animation.is_none(),
            !self.arrives(now) ==> v.scroll_animation == self.scroll_animation,
    {
        match self.scroll_animation {
            Some(a) => {
                if a.is_finished(now) {
                    let landed: ViewportState = ViewportState {
                        ribbon_offset: a.target_x,
                        ribbon_offset_target: a.target_x,
                        vertical_offset: a.target_y,
                        vertical_offset_target: a.target_y,
                        current_row: self.current_row,
                        scroll_animation: None,
                    };
                    landed.clamp(l)
                } else {
                    let at: (i32, i32) = a.sample(now);
                    let moving: ViewportState = ViewportState {
                        ribbon_offset: at.0,
                        vertical_offset: at.1,
                        ..*self
                    };
                    moving.clamp(l)
                }
            },
            None => self.clamp(l),
        }
    }
}

} // verus!
