//! The resolution monitor: noticing that the display changed its size, and laying the
//! ribbon out again for the new size.

use vstd::prelude::*;
use crate::animation::{elapsed_between, elapsed_since};
use crate::geometry::{clamp_i64, clamp_int, lemma_row_origin_bounds, Display};
use crate::layout::{horizontal_limit, lemma_limits, max_offset, max_vertical, tiles_sound, vertical_limit};
use crate::model::{TilerState, RESOLUTION_POLL_MS};
use crate::packing::{pack, packed};
use crate::schedule::{placements_of, Placement};
use crate::tiler::RibbonTiler;
use crate::viewport::ViewportState;

verus! {

impl TilerState {
    /// The state on a display of another size. Every row is packed at the new tile
    /// widths, in its old order; the horizontal offset is scaled by the ratio of the
    /// new width to the old; the vertical offset is the top of the row in view; and a
    /// recalculation is due. Without tiles, only the display changes.
    pub open spec fn on_display(self, display: Display) -> TilerState {
        if self.tiles.len() == 0 {
            TilerState { display, ..self }.settled()
        } else {
            let tiles = packed(self.tiles, display);
            let x = clamp_int(
                self.viewport.ribbon_offset * display.width / (self.display.width as int),
                0,
                max_offset(tiles, display),
            ) as i32;
            let y = clamp_int(
                self.viewport.current_row * display.height,
                0,
                max_vertical(tiles, display),
            ) as i32;
            TilerState {
                display,
                tiles,
                viewport: ViewportState {
                    ribbon_offset: x,
                    ribbon_offset_target: x,
                    vertical_offset: y,
                    vertical_offset_target: y,
                    ..self.viewport
                },
                needs_ribbon_recalc: true,
                ..self
            }.settled()
        }
    }

    /// Whether the display is looked at again at `now`.
    pub open spec fn resolution_poll_due(self, now: u64) -> bool {
        elapsed_between(self.last_resolution_check, now) >= RESOLUTION_POLL_MS
    }

    /// The state after the display was found to have the size `display` at `now`. A
    /// look sooner than `RESOLUTION_POLL_MS` after the last one is no look at all. On
    /// a change, the ribbon is laid out for the new size and every tile is put in its
    /// place at once.
    pub open spec fn resolution_checked(self, now: u64, display: Display) -> TilerState {
        if !self.resolution_poll_due(now) {
            self
        } else if display == self.display {
            TilerState { last_resolution_check: now, ..self }
        } else {
            TilerState { last_resolution_check: now, ..self }.on_display(display).all_positioned()
        }
    }

    /// The placements that such a look issues: one for every tile on a change, none
    /// otherwise.
    pub open spec fn resolution_placements(self, now: u64, display: Display) -> Seq<Placement> {
        if self.resolution_poll_due(now) && display != self.display {
            let laid_out = self.on_display(display);
            placements_of(laid_out.tiles, laid_out.projection())
        } else {
            Seq::empty()
        }
    }
}

impl RibbonTiler {
    /// Lays the ribbon out for a display of another size.
    pub fn recalculate_positions_for_new_resolution(&mut self, display: Display)
        requires
            old(self).wf(),
            display.valid(),
        ensures
            final(self).wf(),
            final(self)@ == old(self)@.on_display(display),
    {
        let old_width: i32 = self.display.width;
        proof {
            lemma_limits(self.tiles@, self.display);
            assert(tiles_sound(self.tiles@)) by {
                assert forall|i: int| 0 <= i < self.tiles@.len() implies (#[trigger] self.tiles@[i]).sound() by {
                    assert(self.tiles@[i].valid(self.display));
                }
            }
        }
        self.display = display;
        if self.tiles.len() == 0 {
            self.settle();
            return ;
        }
        pack(&mut self.tiles, &self.display);
        let limit_x: i32 = horizontal_limit(&self.tiles, &self.display);
        let limit_y: i32 = vertical_limit(&self.tiles, &self.display);
        proof {
            assert(0 <= self.viewport.ribbon_offset * display.width <= 0x4000_0000 * 0x8000)
                by (nonlinear_arith)
                requires
                    0 <= self.viewport.ribbon_offset <= 0x4000_0000,
                    0 <= display.width <= 0x8000,
            ;
            lemma_row_origin_bounds(self.viewport.current_row as int, display.height as int);
        }
        let scaled: i64 = (self.viewport.ribbon_offset as i64 * display.width as i64) / (old_width as i64);
        let x: i32 = clamp_i64(scaled, 0, limit_x as i64) as i32;
        let y: i32 = clamp_i64(
            self.viewport.current_row as i64 * display.height as i64,
            0,
            limit_y as i64,
        ) as i32;
        self.viewport.ribbon_offset = x;
        self.viewport.ribbon_offset_target = x;
        self.viewport.vertical_offset = y;
        self.viewport.vertical_offset_target = y;
        self.needs_ribbon_recalc = true;
        self.settle();
    }

    /// Takes note of the display's size, at most once in `RESOLUTION_POLL_MS`. On a
    /// change, lays the ribbon out again and returns a placement for every tile.
    pub fn check_monitor_dimensions(&mut self, now: u64, display: Display) -> (placements: Vec<Placement>)
        requires
            old(self).wf(),
            display.valid(),
        ensures
            final(self).wf(),
            final(self)@ == old(self)@.resolution_checked(now, display),
            placements@ == old(self)@.resolution_placements(now, display),
    {
        if elapsed_since(self.last_resolution_check, now) < RESOLUTION_POLL_MS {
            let none: Vec<Placement> = Vec::new();
            proof {
                assert(none@ =~= Seq::empty());
            }
            return none;
        }
        self.last_resolution_check = now;
        if display.width != self.display.width || display.height != self.display.height {
            self.recalculate_positions_for_new_resolution(display);
            self.apply_all_windows(false, now)
        } else {
            let none: Vec<Placement> = Vec::new();
            proof {
                assert(none@ =~= Seq::empty());
            }
            none
        }
    }
}

} // verus!
