//! What the dispatch context does when the ticker wakes it, and what it does at the end.

use vstd::prelude::*;
use crate::geometry::{compute_restoration_rect, restoration_rect};
use crate::layout::{lemma_limits, ManagedTile};
use crate::model::TilerState;
use crate::schedule::{after_tick, any_animating, focus_candidate, focus_visible_window, has_animation,
    moving_placements, resting_placements, restorations, tick_tiles, Placement, Restoration,
    TickOutput};
use crate::tiler::RibbonTiler;
use crate::viewport::{Limits, ViewportState};

verus! {

/// What one tick asks of the windowing side.
pub struct Frame {
    /// Rectangles to commit in one batch: first those of the tiles at rest, then those
    /// of the tiles in transition, each in the order of the tiles.
    pub batch: Vec<Placement>,
    /// Windows whose exit has ended; they are tiles no more.
    pub restorations: Vec<Restoration>,
    /// The tile that should have the focus, after a scroll has ended.
    pub focus: Option<i64>,
    /// Rectangles to set one by one after the recalculation that this tick brought on.
    pub settling: Vec<Placement>,
}

/// What the tiler leaves behind when it shuts down.
pub struct Shutdown {
    /// Every tile's window, in the order of the tiles, with where to put it back.
    pub restorations: Vec<Restoration>,
    /// The windows that floated.
    pub floating: Vec<i64>,
}

impl TilerState {
    /// The state after the viewport's scroll was advanced to `now`. A scroll that ends
    /// makes a recalculation due.
    pub open spec fn scrolled(self, now: u64) -> TilerState {
        TilerState {
            viewport: self.viewport.advanced(self.limits(), now),
            needs_ribbon_recalc: self.needs_ribbon_recalc || self.viewport.arrives(now),
            ..self
        }
    }

    /// The state after the scroll and every tile were advanced to `now`. A tile whose
    /// exit ends is taken away, and a recalculation is due.
    pub open spec fn advanced(self, now: u64) -> TilerState {
        let scrolled = self.scrolled(now);
        let tiles = self.tiles.filter_map(
            after_tick(scrolled.projection(), self.viewport.scroll_animation.is_some(), now),
        );
        TilerState {
            tiles,
            needs_ribbon_recalc: scrolled.needs_ribbon_recalc || tiles.len() != self.tiles.len(),
            ..scrolled
        }.settled()
    }

    /// No scroll and no tile is in transition.
    pub open spec fn idle(self) -> bool {
        self.viewport.scroll_animation.is_none() && !any_animating(self.tiles)
    }

    /// The tick takes a tile away: the exit of some tile has run its length.
    pub open spec fn tick_removes(self, now: u64) -> bool {
        self.advanced(now).tiles.len() != self.tiles.len()
    }

    /// The state with the ticker stopped where nothing is in transition; the state as
    /// it is where a scroll or a tile is.
    pub open spec fn wound_down(self) -> TilerState {
        if self.idle() {
            TilerState { animation_running: false, ..self }
        } else {
            self
        }
    }

    /// The state after the scroll and every tile were advanced to `now`, with the
    /// ticker stopped where nothing is in transition any more.
    pub open spec fn rested(self, now: u64) -> TilerState {
        self.advanced(now).wound_down()
    }

    /// The tick recalculates: it takes a tile away, or it finds nothing in transition
    /// any more and a recalculation due.
    pub open spec fn tick_recalculates(self, now: u64) -> bool {
        self.tick_removes(now) || (self.advanced(now).idle() && self.advanced(now).recalculation_due(
            now,
        ))
    }

    /// The state after a tick at `now`. A tick that takes a tile away recalculates at
    /// once; a tick that finds nothing in transition recalculates if a recalculation is
    /// due. Where nothing is in transition after all that, the ticker stops: also where
    /// it was the recalculation that ended the scroll.
    pub open spec fn ticked(self, now: u64) -> TilerState {
        if self.tick_recalculates(now) {
            self.rested(now).recalculated(now).wound_down()
        } else {
            self.rested(now)
        }
    }

    /// The batch of a tick at `now`.
    pub open spec fn tick_batch(self, now: u64) -> Seq<Placement> {
        self.tiles.filter_map(
            resting_placements(self.scrolled(now).projection(), self.viewport.scroll_animation.is_some()),
        ) + self.tiles.filter_map(moving_placements(self.display, now))
    }

    /// The restorations of a tick at `now`.
    pub open spec fn tick_restorations(self, now: u64) -> Seq<Restoration> {
        self.tiles.filter_map(restorations(now))
    }

    /// The tile that focus follows to at a tick at `now`: when a scroll ends, the tile
    /// nearest the middle of the display.
    pub open spec fn tick_focus(self, now: u64) -> Option<i64> {
        if self.viewport.arrives(now) {
            focus_candidate(self.tiles, self.scrolled(now).projection())
        } else {
            None
        }
    }

    /// The placements of the recalculation that a tick at `now` brings on.
    pub open spec fn tick_settling(self, now: u64) -> Seq<Placement> {
        if self.tick_recalculates(now) {
            self.rested(now).recalculation_placements()
        } else {
            Seq::empty()
        }
    }

    /// The state after shutdown: no tile, no floating window, the viewport at the
    /// origin, the ticker stopped.
    pub open spec fn shut_down(self) -> TilerState {
        TilerState {
            tiles: Seq::empty(),
            floating: Seq::empty(),
            viewport: ViewportState::origin(),
            animation_running: false,
            ..self
        }
    }

    /// The restorations of a shutdown: every tile's window goes back to where it was
    /// before it was managed, brought on or near the display.
    pub open spec fn final_restorations(self) -> Seq<Restoration> {
        Seq::new(
            self.tiles.len(),
            |i: int|
                Restoration {
                    id: self.tiles[i].id,
                    saved: self.tiles[i].saved,
                    rect: restoration_rect(self.tiles[i].saved.rect, self.display),
                },
        )
    }
}

impl RibbonTiler {
    /// Whether anything is in transition.
    pub fn is_idle(&self) -> (b: bool)
        ensures
            b == self@.idle(),
    {
        self.viewport.scroll_animation.is_none() && !has_animation(&self.tiles)
    }

    /// Advances the scroll and every tile to `now`.
    fn advance(&mut self, now: u64) -> (out: (TickOutput, Option<i64>))
        requires
            old(self).wf(),
        ensures
            final(self).wf(),
            final(self)@ == old(self)@.advanced(now),
            out.0.batch@ == old(self)@.tick_batch(now),
            out.0.restorations@ == old(self)@.tick_restorations(now),
            out.1 == old(self)@.tick_focus(now),
            final(self).tiles@.len() + out.0.restorations@.len() == old(self).tiles@.len(),
    {
        proof {
            lemma_limits(self.tiles@, self.display);
        }
        let scrolling: bool = self.viewport.scroll_animation.is_some();
        let arrived: bool = self.viewport.scroll_arrives(now);
        let l: Limits = self.limits();
        self.viewport = self.viewport.advance(&l, &self.display, now);
        if arrived {
            self.needs_ribbon_recalc = true;
        }
        let projection: crate::geometry::Projection = self.projection();
        let focus: Option<i64> = if arrived {
            focus_visible_window(&self.tiles, &projection)
        } else {
            None
        };
        let count: usize = self.tiles.len();
        let out: TickOutput = tick_tiles(&mut self.tiles, &projection, scrolling, now);
        if self.tiles.len() != count {
            self.reflow_ribbon();
        }
        self.settle();
        (out, focus)
    }

    /// One tick: advances every transition to `now`, and returns what is to be done to
    /// the windows. A transition that has run its length leaves its tile exactly at the
    /// target; an exit that has run its length takes its tile away, and the rows are
    /// packed at once.
    pub fn update_animations(&mut self, now: u64) -> (frame: Frame)
        requires
            old(self).wf(),
        ensures
            final(self).wf(),
            final(self)@ == old(self)@.ticked(now),
            frame.batch@ == old(self)@.tick_batch(now),
            frame.restorations@ == old(self)@.tick_restorations(now),
            frame.focus == old(self)@.tick_focus(now),
            frame.settling@ == old(self)@.tick_settling(now),
            old(self)@.tick_removes(now) == (frame.restorations@.len() > 0),
            old(self)@.tick_recalculates(now) ==> crate::packing::is_packed(
                final(self).tiles@,
                final(self).display,
            ) && !final(self).needs_ribbon_recalc,
            forall|j: int|
                0 <= j < old(self).tiles@.len() ==> #[trigger] old(self)@.tick_settles_tile(
                    j,
                    now,
                    final(self).tiles@,
                    frame.batch@,
                    frame.restorations@,
                ),
            old(self)@.tick_settles_scroll(now, final(self)@),
            final(self)@.idle() ==> !final(self).animation_running,
            !final(self)@.idle() ==> final(self).animation_running == old(self).animation_running,
    {
        let count: usize = self.tiles.len();
        let (out, focus) = self.advance(now);
        let removed: bool = self.tiles.len() != count;
        let idle: bool = self.is_idle();
        let mut settling: Vec<Placement> = Vec::new();
        proof {
            assert(settling@ =~= Seq::empty());
        }
        if idle {
            self.animation_running = false;
        }
        if removed || (idle && self.recalculation_due(now)) {
            settling = self.recalculate_ribbon(now);
            if self.is_idle() {
                self.animation_running = false;
            }
        }
        proof {
            assert(self@ == old(self)@.ticked(now));
            crate::landing::lemma_tick_settles(old(self)@, now);
        }
        Frame { batch: out.batch, restorations: out.restorations, focus, settling }
    }

    /// Ends management: every tile is dropped, and what is needed to put every window
    /// back is returned.
    pub fn shutdown(&mut self) -> (out: Shutdown)
        requires
            old(self).wf(),
        ensures
            final(self).wf(),
            final(self)@ == old(self)@.shut_down(),
            out.restorations@ == old(self)@.final_restorations(),
            out.floating@ == old(self)@.floating,
    {
        let mut restorations: Vec<Restoration> = Vec::new();
        let mut i: usize = 0;
        while i < self.tiles.len()
            invariant
                i <= self.tiles.len(),
                self.wf(),
                *self == *old(self),
                restorations.len() == i,
                forall|k: int| 0 <= k < i ==> #[trigger] restorations[k] == old(self)@.final_restorations()[k],
            decreases self.tiles.len() - i,
        {
            let tile: ManagedTile = self.tiles[i];
            restorations.push(
                Restoration {
                    id: tile.id,
                    saved: tile.saved,
                    rect: compute_restoration_rect(&tile.saved.rect, &self.display),
                },
            );
            i += 1;
        }
        proof {
            assert(restorations@ =~= old(self)@.final_restorations());
        }
        let mut floating: Vec<i64> = Vec::new();
        core::mem::swap(&mut floating, &mut self.floating_windows);
        self.tiles = Vec::new();
        self.viewport = ViewportState::new();
        self.animation_running = false;
        proof {
            assert(self@.tiles =~= Seq::empty());
            assert(self@.floating =~= Seq::empty());
            lemma_limits(self.tiles@, self.display);
        }
        Shutdown { restorations, floating }
    }
}

} // verus!
