//! The tiler as a state machine: its state as plain mathematical values, and what every
//! operation makes of it.

use vstd::prelude::*;
use crate::animation::{elapsed_between, AnimationType, EXIT_DURATION_MS, RECALC_DEBOUNCE_MS};
use crate::arrange::{has_room, nearest_edge, shifted, without};
use crate::commands::{QueuedCommand, WindowProbe, COMMAND_KINDS};
use crate::geometry::{clamp_int, recorded_rect, restoration_rect, Direction, Display, Margins,
    Projection, RibbonPosition, TileSize, MAX_ROW};
use crate::layout::{manages, max_offset, tile_index, tiles_valid, ManagedTile, SavedWindow, MAX_TILES};
use crate::packing::packed;
use crate::schedule::{all_in_transition, all_placed, row_in_transition, row_settled,
    settling_placements, Placement};
use crate::viewport::{limits_of, Limits, ViewportState};

verus! {

/// The most transparent the tiles ever get.
pub const MIN_ALPHA: u8 = 50;

/// The display is asked for its size at most once in this many milliseconds.
pub const RESOLUTION_POLL_MS: u64 = 1000;

/// What became of a window that was to be added.
#[derive(Clone, Copy, Debug, PartialEq, Eq, Structural)]
pub enum AddOutcome {
    /// The window is a tile already.
    AlreadyManaged,
    /// The window may not be managed.
    Ineligible,
    /// The window is a popup: it is tracked, and floats.
    Floating,
    /// The window is a tile now.
    Tiled,
    /// The window would be a tile, but the ribbon has no room for one more.
    NoRoom,
}

/// The whole state of the tiler.
pub struct TilerState {
    pub tiles: Seq<ManagedTile>,
    pub floating: Seq<i64>,
    pub viewport: ViewportState,
    pub display: Display,
    pub margins: Margins,
    pub transparency: u8,
    pub animation_fps: u64,
    pub last_resolution_check: u64,
    pub needs_ribbon_recalc: bool,
    pub last_ribbon_recalc: u64,
    pub animation_running: bool,
    pub queue: Seq<QueuedCommand>,
    pub throttle: Seq<Option<u64>>,
}

impl AddOutcome {
    /// The window is under the tiler's care after the attempt, as a tile or floating,
    /// and was not before.
    pub open spec fn accepted(self) -> bool {
        self == AddOutcome::Floating || self == AddOutcome::Tiled
    }
}

impl TilerState {
    /// The state is consistent: the tiles lie on the ribbon with an id each, and the
    /// viewport is within the limits that they set.
    pub open spec fn wf(self) -> bool {
        &&& self.display.valid()
        &&& self.margins.valid()
        &&& tiles_valid(self.tiles, self.display)
        &&& self.viewport.within(self.limits())
        &&& self.throttle.len() == COMMAND_KINDS
        &&& self.transparency >= MIN_ALPHA
    }

    /// Everything of consistency that does not concern the place of the viewport: the
    /// display, the margins and the tiles are valid, and a scroll under way stays on
    /// the ribbon.
    pub open spec fn grounded(self) -> bool {
        &&& self.display.valid()
        &&& self.margins.valid()
        &&& tiles_valid(self.tiles, self.display)
        &&& self.throttle.len() == COMMAND_KINDS
        &&& self.transparency >= MIN_ALPHA
        &&& match self.viewport.scroll_animation {
            Some(a) => a.valid(),
            None => true,
        }
    }

    /// The limits that the tiles put on the viewport.
    pub open spec fn limits(self) -> Limits {
        limits_of(self.tiles, self.display)
    }

    /// What the geometry mapper goes by.
    pub open spec fn projection(self) -> Projection {
        Projection {
            display: self.display,
            margins: self.margins,
            offset_x: self.viewport.ribbon_offset,
            offset_y: self.viewport.vertical_offset,
        }
    }

    /// The state with the viewport brought within its limits.
    pub open spec fn settled(self) -> TilerState {
        TilerState { viewport: self.viewport.clamped(self.limits()), ..self }
    }

    /// The state a tiler starts in.
    pub open spec fn fresh(display: Display, now: u64) -> TilerState {
        TilerState {
            tiles: Seq::empty(),
            floating: Seq::empty(),
            viewport: ViewportState::origin(),
            display,
            margins: Margins { horizontal: 40, vertical: 80 },
            transparency: 255,
            animation_fps: 90,
            last_resolution_check: now,
            needs_ribbon_recalc: false,
            last_ribbon_recalc: now,
            animation_running: false,
            queue: Seq::empty(),
            throttle: Seq::new(COMMAND_KINDS as nat, |i: int| None),
        }
    }

    /// The state after the windows in `gone` were found to be gone: their tiles are
    /// dropped, and a recalculation is due if any was.
    pub open spec fn cleaned(self, gone: Seq<i64>) -> TilerState {
        let tiles = without(self.tiles, gone);
        TilerState {
            tiles,
            needs_ribbon_recalc: self.needs_ribbon_recalc || tiles.len() != self.tiles.len(),
            ..self
        }.settled()
    }

    /// The state after a recalculation. Every row is packed; the tiles at rest in the
    /// row in view are put in place; a horizontal offset beyond the new limit falls
    /// back to it, ending any scroll. Without tiles, the offsets return to zero. Either
    /// way no recalculation is needed any more, and the time of this one is noted.
    pub open spec fn recalculated(self, now: u64) -> TilerState {
        if self.tiles.len() == 0 {
            TilerState {
                viewport: ViewportState {
                    ribbon_offset: 0,
                    ribbon_offset_target: 0,
                    vertical_offset: 0,
                    vertical_offset_target: 0,
                    ..self.viewport
                },
                needs_ribbon_recalc: false,
                last_ribbon_recalc: now,
                ..self
            }.settled()
        } else {
            let tiles = packed(self.tiles, self.display);
            let limit = max_offset(tiles, self.display);
            TilerState {
                tiles: row_settled(tiles, self.projection(), self.viewport.current_row),
                viewport: if self.viewport.ribbon_offset > limit {
                    ViewportState {
                        ribbon_offset: limit as i32,
                        ribbon_offset_target: limit as i32,
                        scroll_animation: None,
                        ..self.viewport
                    }
                } else {
                    self.viewport
                },
                needs_ribbon_recalc: false,
                last_ribbon_recalc: now,
                ..self
            }.settled()
        }
    }

    /// The placements that a recalculation issues.
    pub open spec fn recalculation_placements(self) -> Seq<Placement> {
        if self.tiles.len() == 0 {
            Seq::empty()
        } else {
            packed(self.tiles, self.display).filter_map(
                settling_placements(self.projection(), self.viewport.current_row),
            )
        }
    }

    /// A recalculation that nobody asked for is due: one is needed, and the last one is
    /// more than `RECALC_DEBOUNCE_MS` ago.
    pub open spec fn recalculation_due(self, now: u64) -> bool {
        self.needs_ribbon_recalc && elapsed_between(self.last_ribbon_recalc, now)
            > RECALC_DEBOUNCE_MS
    }

    /// The state after every tile was sent on its way to its place on screen.
    pub open spec fn all_animated(self, now: u64) -> TilerState {
        TilerState {
            tiles: all_in_transition(self.tiles, self.projection(), now),
            animation_running: self.animation_running || self.tiles.len() > 0,
            ..self
        }
    }

    /// The state after every tile was put in its place on screen at once.
    pub open spec fn all_positioned(self) -> TilerState {
        TilerState { tiles: all_placed(self.tiles, self.projection()), ..self }
    }

    /// The state after a horizontal pan.
    pub open spec fn panned(self, direction: Direction, now: u64) -> TilerState {
        if self.tiles.len() > 0 && self.viewport.can_pan(direction, self.limits()) {
            TilerState {
                viewport: self.viewport.panned(direction, self.display.width / 2, self.limits(), now),
                animation_running: true,
                ..self
            }
        } else {
            self
        }
    }

    /// The state after a pan by one row.
    pub open spec fn row_panned(self, direction: Direction, now: u64) -> TilerState {
        if self.viewport.can_pan_row(direction, self.limits()) {
            TilerState {
                viewport: self.viewport.row_panned(direction, self.display.height as int, self.limits(), now),
                animation_running: true,
                ..self
            }
        } else {
            self
        }
    }

    /// The state after the viewport was sent to centre on a tile. Nothing changes where
    /// the window is no tile.
    pub open spec fn scrolled_to(self, id: i64, now: u64) -> TilerState {
        if manages(self.tiles, id) {
            let tile = self.tiles[tile_index(self.tiles, id)];
            TilerState {
                viewport: self.viewport.aimed(
                    tile.position.row as int,
                    tile.position.x + self.display.tile_width(tile.position.size) / 2,
                    self.display,
                    self.limits(),
                    now,
                ),
                animation_running: true,
                ..self
            }
        } else {
            self
        }
    }

    /// The state after the opacity was moved by `delta`, staying within
    /// `[MIN_ALPHA, 255]`, and every tile was put in its place.
    pub open spec fn transparency_adjusted(self, delta: i8) -> TilerState {
        TilerState {
            transparency: clamp_int(self.transparency + delta, MIN_ALPHA as int, 255) as u8,
            ..self
        }.all_positioned()
    }

    /// The state after the margins were moved by `delta`, and every tile was put in its
    /// place.
    pub open spec fn margins_adjusted(self, delta: i32) -> TilerState {
        TilerState { margins: self.margins.adjusted(delta as int), ..self }.all_positioned()
    }

    /// There is room for one more tile in the row in view.
    pub open spec fn can_add(self) -> bool {
        &&& has_room(self.tiles, self.display)
        &&& self.tiles.len() < MAX_TILES
        &&& self.viewport.current_row <= MAX_ROW
    }

    /// What becomes of a window that is to be added.
    pub open spec fn add_outcome(self, id: i64, probe: Option<WindowProbe>) -> AddOutcome {
        if manages(self.tiles, id) {
            AddOutcome::AlreadyManaged
        } else {
            match probe {
                Some(p) => if !p.eligible {
                    AddOutcome::Ineligible
                } else if p.popup {
                    AddOutcome::Floating
                } else {
                    AddOutcome::Tiled
                },
                None => AddOutcome::Ineligible,
            }
        }
    }

    /// What comes of the attempt to add a window: what becomes of the window, unless
    /// it would be a tile and the ribbon has no room for one more.
    pub open spec fn add_result(self, id: i64, probe: Option<WindowProbe>) -> AddOutcome {
        if self.add_outcome(id, probe) == AddOutcome::Tiled && !self.can_add() {
            AddOutcome::NoRoom
        } else {
            self.add_outcome(id, probe)
        }
    }

    /// The x that a new tile should be near: the centre of the focused tile, or the
    /// centre of the viewport where the focused window is no tile.
    pub open spec fn focus_center(self, foreground: i64) -> int {
        if manages(self.tiles, foreground) {
            let tile = self.tiles[tile_index(self.tiles, foreground)];
            tile.position.x + self.display.tile_width(tile.position.size) / 2
        } else {
            self.viewport.ribbon_offset + self.display.width / 2
        }
    }

    /// Where a new tile goes: in the row in view, half a display wide, at the tile edge
    /// of that row that is nearest to the focus; at the viewport's left edge where the
    /// row is empty.
    pub open spec fn insertion_point(self, foreground: i64) -> RibbonPosition {
        RibbonPosition {
            x: nearest_edge(
                self.tiles,
                self.display,
                self.viewport.current_row,
                self.focus_center(foreground),
                self.viewport.ribbon_offset as int,
            ) as i32,
            row: self.viewport.current_row,
            size: TileSize::Half,
        }
    }

    /// The tile that a window becomes.
    pub open spec fn new_tile(self, id: i64, probe: WindowProbe, foreground: i64) -> ManagedTile {
        ManagedTile {
            id,
            saved: SavedWindow {
                style: probe.style,
                ex_style: probe.ex_style,
                rect: recorded_rect(probe.rect, self.display),
            },
            position: self.insertion_point(foreground),
            animation: None,
            shown: probe.rect.clipped(),
        }
    }

    /// The state after a window was to be added. A popup is tracked as floating. Any
    /// other eligible window becomes a tile at the insertion point: the tiles of its
    /// row at or right of that point move right by its width, the viewport centres on
    /// it if it lies outside, it enters, and the tiles that moved are sent to their new
    /// places.
    pub open spec fn added(self, id: i64, probe: Option<WindowProbe>, foreground: i64, now: u64) -> TilerState {
        match self.add_outcome(id, probe) {
            AddOutcome::Floating => TilerState {
                floating: if self.floating.contains(id) {
                    self.floating
                } else {
                    self.floating.push(id)
                },
                ..self
            },
            AddOutcome::Tiled => {
                let tile = self.new_tile(id, probe.unwrap(), foreground);
                let half = self.display.tile_width(TileSize::Half);
                let x = tile.position.x;
                let tiles = shifted(self.tiles, tile.position.row, x as int, half, id).push(tile);
                let outside = x < self.viewport.ribbon_offset || x + half
                    > self.viewport.ribbon_offset + self.display.width;
                let viewport = if outside {
                    let c = clamp_int(
                        x + half / 2 - self.display.width / 2,
                        0,
                        max_offset(tiles, self.display),
                    ) as i32;
                    let v = (self.viewport.current_row * self.display.height) as i32;
                    ViewportState {
                        ribbon_offset: c,
                        ribbon_offset_target: c,
                        vertical_offset: v,
                        vertical_offset_target: v,
                        ..self.viewport
                    }
                } else {
                    self.viewport
                };
                let placed = TilerState { tiles, viewport, ..self }.settled();
                let entered = tiles.update(
                    tiles.len() - 1,
                    tile.in_transition(AnimationType::Entry, placed.projection(), now),
                );
                TilerState {
                    tiles: row_in_transition(
                        entered,
                        placed.projection(),
                        now,
                        tile.position.row,
                        x + half,
                        id,
                    ),
                    needs_ribbon_recalc: true,
                    animation_running: true,
                    ..placed
                }
            },
            _ => self,
        }
    }

    /// The state after a window was to be removed: its tile starts its exit toward the
    /// rectangle it is restored to. The tile stays until the exit has ended. Nothing
    /// changes where the window is no tile.
    pub open spec fn removed(self, id: i64, now: u64) -> TilerState {
        if manages(self.tiles, id) {
            let i = tile_index(self.tiles, id);
            let tile = self.tiles[i];
            TilerState {
                tiles: self.tiles.update(
                    i,
                    tile.animated_from(
                        AnimationType::Exit,
                        tile.shown,
                        restoration_rect(tile.saved.rect, self.display),
                        now,
                        EXIT_DURATION_MS,
                    ),
                ),
                animation_running: true,
                ..self
            }
        } else {
            self
        }
    }

    /// What follows a frame rate in the cycle 60, 90, 120, 144.
    pub open spec fn next_fps(fps: u64) -> u64 {
        if fps == 60 {
            90
        } else if fps == 90 {
            120
        } else if fps == 120 {
            144
        } else {
            60
        }
    }

    /// The state at the next frame rate.
    pub open spec fn fps_cycled(self) -> TilerState {
        TilerState { animation_fps: Self::next_fps(self.animation_fps), ..self }
    }
}

} // verus!
