//! The tiler itself: the state that one dispatch context owns, and the operations on it.

use vstd::prelude::*;
use crate::animation::{elapsed_since, AnimationType, EXIT_DURATION_MS, RECALC_DEBOUNCE_MS};
use crate::arrange::{contains_id, find_nearest_edge, has_room, lemma_extent_at_most, remove_tiles,
    shift_right};
use crate::commands::{QueuedCommand, Throttle, WindowProbe};
use crate::geometry::{clamp_i32, clamp_i64, compute_recorded_rect, compute_restoration_rect,
    lemma_row_origin_bounds, Direction, Display, Margins, Projection, Rect, RibbonPosition, TileSize,
    MAX_EXTENT, MAX_ROW};
use crate::layout::{extent, find_tile, horizontal_limit, lemma_extent, lemma_limits,
    lemma_positions_limits, manages, total_extent, ManagedTile, SavedWindow, MAX_TILES};
use crate::model::{AddOutcome, TilerState, MIN_ALPHA};
use crate::packing::pack;
use crate::schedule::{animate_all, animate_row, apply_with_animation_type, lemma_same_places,
    place_all, settle_row, start_animation, Placement};
use crate::viewport::{compute_limits, Limits, ViewportState};

verus! {

/// The tiler: the tiles, the viewport, and everything else that one dispatch context
/// owns and changes.
pub struct RibbonTiler {
    pub tiles: Vec<ManagedTile>,
    pub floating_windows: Vec<i64>,
    pub viewport: ViewportState,
    pub display: Display,
    pub margins: Margins,
    pub transparency: u8,
    pub animation_fps: u64,
    pub last_resolution_check: u64,
    pub needs_ribbon_recalc: bool,
    pub last_ribbon_recalc: u64,
    pub animation_running: bool,
    pub command_queue: Vec<QueuedCommand>,
    pub throttle: Throttle,
}

impl View for RibbonTiler {
    type V = TilerState;

    open spec fn view(&self) -> TilerState {
        TilerState {
            tiles: self.tiles@,
            floating: self.floating_windows@,
            viewport: self.viewport,
            display: self.display,
            margins: self.margins,
            transparency: self.transparency,
            animation_fps: self.animation_fps,
            last_resolution_check: self.last_resolution_check,
            needs_ribbon_recalc: self.needs_ribbon_recalc,
            last_ribbon_recalc: self.last_ribbon_recalc,
            animation_running: self.animation_running,
            queue: self.command_queue@,
            throttle: self.throttle.table(),
        }
    }
}

impl RibbonTiler {
    /// The tiler is in a consistent state.
    pub open spec fn wf(&self) -> bool {
        self@.wf()
    }

    /// A tiler for a display of the given size, with no window under its care.
    pub fn new(display: Display, now: u64) -> (tiler: RibbonTiler)
        requires
            display.valid(),
        ensures
            tiler.wf(),
            tiler@ == TilerState::fresh(display, now),
    {
        let tiler = RibbonTiler {
            tiles: Vec::new(),
            floating_windows: Vec::new(),
            viewport: ViewportState::new(),
            display,
            margins: Margins { horizontal: 40, vertical: 80 },
            transparency: 255,
            animation_fps: 90,
            last_resolution_check: now,
            needs_ribbon_recalc: false,
            last_ribbon_recalc: now,
            animation_running: false,
            command_queue: Vec::new(),
            throttle: Throttle::new(),
        };
        proof {
            assert(tiler@.throttle =~= TilerState::fresh(display, now).throttle);
            assert(tiler@.tiles =~= Seq::empty());
            assert(tiler@.floating =~= Seq::empty());
            assert(tiler@.queue =~= Seq::empty());
            lemma_limits(tiler@.tiles, display);
        }
        tiler
    }

    /// The limits that the tiles put on the viewport.
    pub fn limits(&self) -> (l: Limits)
        requires
            self.wf(),
        ensures
            l == self@.limits(),
            l.valid(self.display),
    {
        compute_limits(&self.tiles, &self.display)
    }

    /// What the geometry mapper goes by.
    pub fn projection(&self) -> (p: Projection)
        requires
            self.wf(),
        ensures
            p == self@.projection(),
            p.valid(),
    {
        proof {
            lemma_limits(self.tiles@, self.display);
        }
        Projection {
            display: self.display,
            margins: self.margins,
            offset_x: self.viewport.ribbon_offset,
            offset_y: self.viewport.vertical_offset,
        }
    }

    /// The geometry mapper, with the tiler's display, margins and offsets.
    pub fn ribbon_to_screen(&self, pos: &RibbonPosition) -> (rect: Rect)
        requires
            self.wf(),
            pos.valid(),
        ensures
            rect == self@.projection().screen_rect(*pos),
    {
        let p: Projection = self.projection();
        p.ribbon_to_screen(pos)
    }

    /// Whether a tile at `pos` is on or near the display.
    pub fn is_window_visible(&self, pos: &RibbonPosition) -> (b: bool)
        requires
            self.wf(),
            pos.valid(),
        ensures
            b == self@.projection().shows(*pos),
    {
        let p: Projection = self.projection();
        p.is_window_visible(pos)
    }

    /// The width of a tile of the given size.
    pub fn get_tile_width(&self, size: crate::geometry::TileSize) -> (w: i32)
        requires
            self.wf(),
        ensures
            w == self.display.tile_width(size),
    {
        self.display.get_tile_width(size)
    }

    /// Whether the window is a tile.
    pub fn is_managed(&self, id: i64) -> (b: bool)
        ensures
            b == crate::layout::manages(self.tiles@, id),
    {
        find_tile(&self.tiles, id).is_some()
    }

    /// Brings the viewport within the limits that the tiles set.
    pub fn settle(&mut self)
        requires
            old(self)@.grounded(),
        ensures
            final(self)@ == old(self)@.settled(),
            final(self).wf(),
            old(self).wf() ==> final(self)@ == old(self)@,
    {
        let l: Limits = compute_limits(&self.tiles, &self.display);
        self.viewport = self.viewport.clamp(&l);
    }

    /// Drops the tiles of windows that are gone. This is the cleanup pass for windows
    /// that were closed or hidden.
    pub fn clean_closed_windows(&mut self, closed: &Vec<i64>)
        requires
            old(self).wf(),
        ensures
            final(self).wf(),
            final(self)@ == old(self)@.cleaned(closed@),
    {
        let removed: bool = remove_tiles(&mut self.tiles, closed, &self.display);
        if removed {
            self.needs_ribbon_recalc = true;
        }
        self.settle();
    }

    /// Drops the tiles of windows that are minimized.
    pub fn clean_minimized_windows(&mut self, minimized: &Vec<i64>)
        requires
            old(self).wf(),
        ensures
            final(self).wf(),
            final(self)@ == old(self)@.cleaned(minimized@),
    {
        self.clean_closed_windows(minimized);
    }

    /// Asks for a recalculation at the next chance.
    pub fn reflow_ribbon(&mut self)
        ensures
            final(self)@ == (TilerState { needs_ribbon_recalc: true, ..old(self)@ }),
    {
        self.needs_ribbon_recalc = true;
    }

    /// Whether a recalculation that nobody asked for is due at `now`.
    pub fn recalculation_due(&self, now: u64) -> (due: bool)
        ensures
            due == self@.recalculation_due(now),
    {
        self.needs_ribbon_recalc && elapsed_since(self.last_ribbon_recalc, now) > RECALC_DEBOUNCE_MS
    }

    /// Defragments the ribbon: packs every row from x = 0, keeping the order of its
    /// tiles. Returns the placements that put the tiles at rest in the row in view
    /// where they now belong.
    pub fn recalculate_ribbon(&mut self, now: u64) -> (placements: Vec<Placement>)
        requires
            old(self).wf(),
        ensures
            final(self).wf(),
            final(self)@ == old(self)@.recalculated(now),
            placements@ == old(self)@.recalculation_placements(),
            crate::packing::is_packed(final(self).tiles@, final(self).display),
            !final(self).needs_ribbon_recalc,
            final(self).last_ribbon_recalc == now,
    {
        if self.tiles.len() == 0 {
            proof {
                crate::packing::lemma_nothing_is_packed(self.tiles@, self.display);
            }
            self.needs_ribbon_recalc = false;
            self.last_ribbon_recalc = now;
            self.viewport.ribbon_offset = 0;
            self.viewport.ribbon_offset_target = 0;
            self.viewport.vertical_offset = 0;
            self.viewport.vertical_offset_target = 0;
            self.settle();
            let placements: Vec<Placement> = Vec::new();
            proof {
                assert(placements@ =~= Seq::empty());
            }
            return placements;
        }
        let projection: Projection = self.projection();
        pack(&mut self.tiles, &self.display);
        let ghost before = old(self).tiles@;
        let ghost packed_tiles = self.tiles@;
        let placements: Vec<Placement> = settle_row(&mut self.tiles, &projection, self.viewport.current_row);
        proof {
            assert(crate::layout::same_positions(self.tiles@, packed_tiles));
            crate::packing::lemma_packed_places(before, self.tiles@, self.display);
            crate::layout::lemma_positions_limits(packed_tiles, self.tiles@, self.display);
        }
        let limit: i32 = crate::layout::horizontal_limit(&self.tiles, &self.display);
        if self.viewport.ribbon_offset > limit {
            self.viewport.ribbon_offset = limit;
            self.viewport.ribbon_offset_target = limit;
            self.viewport.scroll_animation = None;
        }
        self.needs_ribbon_recalc = false;
        self.last_ribbon_recalc = now;
        self.settle();
        placements
    }

    /// Where a new tile goes.
    pub fn find_viewport_position(&self, foreground: i64) -> (pos: RibbonPosition)
        requires
            self.wf(),
        ensures
            pos == self@.insertion_point(foreground),
            0 <= pos.x <= MAX_EXTENT,
            pos.x == self.viewport.ribbon_offset || pos.x <= extent(self.tiles@, self.display),
    {
        proof {
            lemma_limits(self.tiles@, self.display);
            lemma_extent(self.tiles@, self.display);
        }
        let center: i32 = match find_tile(&self.tiles, foreground) {
            Some(i) => {
                proof {
                    assert(self.tiles@[i as int].valid(self.display));
                }
                self.tiles[i].position.x + self.display.get_tile_width(self.tiles[i].position.size) / 2
            },
            None => self.viewport.ribbon_offset + self.display.width / 2,
        };
        let x: i32 = find_nearest_edge(
            &self.tiles,
            &self.display,
            self.viewport.current_row,
            center,
            self.viewport.ribbon_offset,
        );
        RibbonPosition { x, row: self.viewport.current_row, size: TileSize::Half }
    }

    /// Whether there is room for one more tile in the row in view.
    pub fn can_add(&self) -> (b: bool)
        requires
            self.wf(),
        ensures
            b == self@.can_add(),
    {
        let e: i32 = total_extent(&self.tiles, &self.display);
        e + self.display.width <= MAX_EXTENT && self.tiles.len() < MAX_TILES
            && self.viewport.current_row <= MAX_ROW
    }

    /// Whether the ribbon can take one more display width.
    pub fn has_room(&self) -> (b: bool)
        requires
            self.wf(),
        ensures
            b == has_room(self.tiles@, self.display),
    {
        let e: i32 = total_extent(&self.tiles, &self.display);
        e + self.display.width <= MAX_EXTENT
    }

    /// Notes a popup as floating.
    pub fn track_floating_window(&mut self, id: i64)
        ensures
            final(self)@ == (TilerState {
                floating: if old(self)@.floating.contains(id) {
                    old(self)@.floating
                } else {
                    old(self)@.floating.push(id)
                },
                ..old(self)@
            }),
    {
        if !contains_id(&self.floating_windows, id) {
            self.floating_windows.push(id);
        }
    }

    /// Takes a window under management. A window that is managed already or that is
    /// not eligible is turned away; a popup floats; any other window becomes a tile
    /// next to the focused tile and enters, unless the ribbon has no room for one more
    /// tile: then nothing changes.
    #[verifier::rlimit(20)]
    pub fn add_window(&mut self, id: i64, probe: Option<WindowProbe>, foreground: i64, now: u64) -> (outcome:
        AddOutcome)
        requires
            old(self).wf(),
        ensures
            final(self).wf(),
            outcome == old(self)@.add_result(id, probe),
            outcome != AddOutcome::NoRoom ==> final(self)@ == old(self)@.added(
                id,
                probe,
                foreground,
                now,
            ),
            outcome == AddOutcome::NoRoom ==> final(self)@ == old(self)@,
            outcome == AddOutcome::Tiled ==> final(self).tiles@.len() == old(self).tiles@.len() + 1
                && final(self).tiles@.last().id == id && extent(final(self).tiles@, final(self).display)
                <= extent(old(self).tiles@, old(self).display) + old(self).display.tile_width(
                TileSize::Half,
            ),
            outcome != AddOutcome::Tiled ==> final(self).tiles@ == old(self).tiles@,
            final(self)@.offsets_in_bounds(),
            outcome == AddOutcome::Tiled ==> old(self)@.centred_for(
                final(self)@,
                old(self)@.insertion_point(foreground).x as int,
            ),
    {
        proof {
            crate::laws::lemma_offsets_in_bounds(self@);
            if self@.add_result(id, probe) != AddOutcome::NoRoom {
                crate::upkeep::lemma_added_consistent(self@, id, probe, foreground, now);
                crate::laws::lemma_offsets_in_bounds(self@.added(id, probe, foreground, now));
                if self@.add_outcome(id, probe) == AddOutcome::Tiled {
                    crate::upkeep::lemma_add_centres_the_viewport(self@, id, probe, foreground, now);
                }
            }
        }
        if find_tile(&self.tiles, id).is_some() {
            return AddOutcome::AlreadyManaged;
        }
        let probe: WindowProbe = match probe {
            Some(p) => p,
            None => {
                return AddOutcome::Ineligible;
            },
        };
        if !probe.eligible {
            return AddOutcome::Ineligible;
        }
        if probe.popup {
            self.track_floating_window(id);
            return AddOutcome::Floating;
        }
        if !self.can_add() {
            return AddOutcome::NoRoom;
        }
        let ghost before = self@;
        let position: RibbonPosition = self.find_viewport_position(foreground);
        let tile: ManagedTile = ManagedTile {
            id,
            saved: SavedWindow {
                style: probe.style,
                ex_style: probe.ex_style,
                rect: compute_recorded_rect(&probe.rect, &self.display),
            },
            position,
            animation: None,
            shown: probe.rect.clip(),
        };
        let half: i32 = self.display.get_tile_width(TileSize::Half);
        let x: i32 = position.x;
        proof {
            lemma_limits(self.tiles@, self.display);
            lemma_extent(self.tiles@, self.display);
        }
        shift_right(&mut self.tiles, &self.display, position.row, x, half, id);
        let ghost shifted_tiles = self.tiles@;
        self.tiles.push(tile);
        proof {
            assert(tile.valid(self.display));
            assert forall|k: int| 0 <= k < shifted_tiles.len() implies (#[trigger] shifted_tiles[k]).id
                != id by {
                assert(before.tiles[k].id == shifted_tiles[k].id);
            }
            assert forall|k: int| 0 <= k < self.tiles@.len() implies (#[trigger] self.tiles@[k]).end(
                self.display,
            ) <= extent(before.tiles, self.display) + half by {
                if k < shifted_tiles.len() {
                    lemma_extent(shifted_tiles, self.display);
                    assert(self.tiles@[k] == shifted_tiles[k]);
                }
            }
            lemma_extent_at_most(self.tiles@, self.display, extent(before.tiles, self.display) + half);
        }
        if x < self.viewport.ribbon_offset || x + half > self.viewport.ribbon_offset + self.display.width {
            let limit: i32 = horizontal_limit(&self.tiles, &self.display);
            let c: i32 = clamp_i32(x + half / 2 - self.display.width / 2, 0, limit);
            proof {
                lemma_row_origin_bounds(self.viewport.current_row as int, self.display.height as int);
            }
            let v: i32 = self.viewport.current_row * self.display.height;
            self.viewport.ribbon_offset = c;
            self.viewport.ribbon_offset_target = c;
            self.viewport.vertical_offset = v;
            self.viewport.vertical_offset_target = v;
        }
        self.settle();
        let projection: Projection = self.projection();
        let last: usize = self.tiles.len() - 1;
        let ghost placed_tiles = self.tiles@;
        let entering: ManagedTile = apply_with_animation_type(&tile, AnimationType::Entry, &projection, now);
        self.tiles.set(last, entering);
        proof {
            assert(self.tiles@ =~= placed_tiles.update(last as int, entering));
            lemma_same_places(placed_tiles, self.tiles@, self.display);
        }
        let ghost entered_tiles = self.tiles@;
        animate_row(&mut self.tiles, &projection, now, position.row, x + half, id);
        self.needs_ribbon_recalc = true;
        self.animation_running = true;
        proof {
            lemma_positions_limits(placed_tiles, entered_tiles, self.display);
            lemma_positions_limits(entered_tiles, self.tiles@, self.display);
        }
        AddOutcome::Tiled
    }

    /// Starts the removal of a tile: it leaves for the rectangle its window is restored
    /// to, and is taken away when it has arrived. Says whether the window was a tile.
    pub fn remove_window(&mut self, id: i64, now: u64) -> (found: bool)
        requires
            old(self).wf(),
        ensures
            final(self).wf(),
            found == manages(old(self).tiles@, id),
            final(self)@ == old(self)@.removed(id, now),
    {
        match find_tile(&self.tiles, id) {
            Some(i) => {
                let ghost before = self.tiles@;
                proof {
                    assert(before[i as int].valid(self.display));
                }
                let tile: ManagedTile = self.tiles[i];
                let target: Rect = compute_restoration_rect(&tile.saved.rect, &self.display);
                let leaving: ManagedTile = start_animation(
                    &tile,
                    AnimationType::Exit,
                    tile.shown,
                    target,
                    now,
                    EXIT_DURATION_MS,
                    &self.display,
                );
                self.tiles.set(i, leaving);
                self.animation_running = true;
                proof {
                    lemma_same_places(before, self.tiles@, self.display);
                    lemma_positions_limits(before, self.tiles@, self.display);
                }
                true
            },
            None => false,
        }
    }

    /// Sends every tile to its place on screen: at once, or by a move.
    pub fn apply_all_windows(&mut self, animate: bool, now: u64) -> (placements: Vec<Placement>)
        requires
            old(self).wf(),
        ensures
            final(self).wf(),
            animate ==> final(self)@ == old(self)@.all_animated(now) && placements@.len() == 0,
            !animate ==> final(self)@ == old(self)@.all_positioned() && placements@
                == crate::schedule::placements_of(old(self).tiles@, old(self)@.projection()),
    {
        let projection: Projection = self.projection();
        let ghost before = self.tiles@;
        if animate {
            animate_all(&mut self.tiles, &projection, now);
            if self.tiles.len() > 0 {
                self.animation_running = true;
            }
            proof {
                crate::layout::lemma_positions_limits(before, self.tiles@, self.display);
            }
            Vec::new()
        } else {
            let placements: Vec<Placement> = place_all(&mut self.tiles, &projection);
            proof {
                crate::layout::lemma_positions_limits(before, self.tiles@, self.display);
            }
            placements
        }
    }

    /// Pans the viewport left or right by half a display.
    pub fn pan_ribbon(&mut self, direction: Direction, now: u64)
        requires
            old(self).wf(),
        ensures
            final(self).wf(),
            final(self)@ == old(self)@.panned(direction, now),
    {
        if self.tiles.len() == 0 {
            return;
        }
        let l: Limits = self.limits();
        proof {
            lemma_limits(self.tiles@, self.display);
        }
        if self.viewport.pans(direction, &l) {
            self.viewport = self.viewport.pan_ribbon(direction, &l, &self.display, now);
            self.animation_running = true;
        }
    }

    /// Pans the viewport up or down by one row, as far as the one empty row above the
    /// highest row that holds a tile. Where the row in view changes, the viewport
    /// scrolls to the top of that row.
    pub fn pan_row(&mut self, direction: Direction, now: u64)
        requires
            old(self).wf(),
        ensures
            final(self).wf(),
            final(self)@ == old(self)@.row_panned(direction, now),
            final(self).viewport.current_row == (match direction {
                Direction::Down => crate::geometry::min_int(
                    old(self).viewport.current_row + 1,
                    crate::layout::top_row(old(self).tiles@) + 1,
                ),
                Direction::Up => crate::geometry::max_int(old(self).viewport.current_row - 1, 0),
                _ => old(self).viewport.current_row as int,
            }),
            final(self).viewport.current_row != old(self).viewport.current_row ==> {
                &&& final(self).viewport.vertical_offset_target == final(self).viewport.current_row
                    * old(self).display.height
                &&& final(self).viewport.scroll_animation.is_some()
                &&& final(self).viewport.scroll_animation.unwrap().target_y
                    == final(self).viewport.vertical_offset_target
                &&& final(self).viewport.scroll_animation.unwrap().start_time == now
            },
            final(self).viewport.current_row == old(self).viewport.current_row ==> final(self)@
                == old(self)@,
    {
        let l: Limits = self.limits();
        proof {
            lemma_limits(self.tiles@, self.display);
        }
        if self.viewport.pans_row(direction, &l) {
            self.viewport = self.viewport.pan_row(direction, &l, &self.display, now);
            self.animation_running = true;
        }
    }

    /// Scrolls the viewport so that a tile comes to the middle of the display.
    pub fn scroll_to_window(&mut self, id: i64, now: u64)
        requires
            old(self).wf(),
        ensures
            final(self).wf(),
            final(self)@ == old(self)@.scrolled_to(id, now),
    {
        match find_tile(&self.tiles, id) {
            Some(i) => {
                let l: Limits = self.limits();
                proof {
                    lemma_limits(self.tiles@, self.display);
                    assert(self.tiles@[i as int].valid(self.display));
                }
                let tile: ManagedTile = self.tiles[i];
                let center: i32 = tile.position.x + self.display.get_tile_width(tile.position.size) / 2;
                self.viewport = self.viewport.aim(tile.position.row, center, &l, &self.display, now);
                self.animation_running = true;
            },
            None => {},
        }
    }

    /// Makes the tiles more or less transparent.
    pub fn adjust_transparency(&mut self, delta: i8) -> (placements: Vec<Placement>)
        requires
            old(self).wf(),
        ensures
            final(self).wf(),
            final(self)@ == old(self)@.transparency_adjusted(delta),
            placements@ == crate::schedule::placements_of(old(self).tiles@, old(self)@.projection()),
    {
        self.transparency = clamp_i64(self.transparency as i64 + delta as i64, MIN_ALPHA as i64, 255) as u8;
        self.apply_all_windows(false, 0)
    }

    /// Widens or narrows the margins.
    pub fn adjust_margins(&mut self, delta: i32) -> (placements: Vec<Placement>)
        requires
            old(self).wf(),
        ensures
            final(self).wf(),
            final(self)@ == old(self)@.margins_adjusted(delta),
            placements@ == crate::schedule::placements_of(
                old(self).tiles@,
                (TilerState { margins: old(self).margins.adjusted(delta as int), ..old(self)@ }).projection(),
            ),
    {
        self.margins = self.margins.adjust(delta);
        self.apply_all_windows(false, 0)
    }

    /// Moves on to the next frame rate.
    pub fn cycle_fps(&mut self)
        ensures
            final(self)@ == old(self)@.fps_cycled(),
            old(self).wf() ==> final(self).wf(),
    {
        self.animation_fps = if self.animation_fps == 60 {
            90
        } else if self.animation_fps == 90 {
            120
        } else if self.animation_fps == 120 {
            144
        } else {
            60
        };
    }
}

} // verus!
