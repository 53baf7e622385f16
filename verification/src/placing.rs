//! Sending a single tile to its place on screen.

use vstd::prelude::*;
use crate::animation::AnimationType;
use crate::geometry::Projection;
use crate::layout::{find_tile, lemma_positions_limits, manages, tile_index, ManagedTile};
use crate::model::TilerState;
use crate::reshape::lemma_replace_tile;
use crate::schedule::{apply_with_animation_type, positioning_placement, Placement};
use crate::tiler::RibbonTiler;

verus! {

impl TilerState {
    /// The state after the window's tile was sent on its way to its place on screen by
    /// a transition of the given kind. Nothing changes where the window is no tile.
    pub open spec fn sent(self, id: i64, kind: AnimationType, now: u64) -> TilerState {
        if manages(self.tiles, id) {
            let i = tile_index(self.tiles, id);
            TilerState {
                tiles: self.tiles.update(i, self.tiles[i].in_transition(kind, self.projection(), now)),
                animation_running: true,
                ..self
            }
        } else {
            self
        }
    }

    /// The state after the window's tile was put in its place on screen at once.
    /// Nothing changes where the window is no tile.
    pub open spec fn put(self, id: i64) -> TilerState {
        if manages(self.tiles, id) {
            let i = tile_index(self.tiles, id);
            TilerState { tiles: self.tiles.update(i, self.tiles[i].placed(self.projection())), ..self }
        } else {
            self
        }
    }

    /// The placement that putting the window's tile in its place issues.
    pub open spec fn put_placement(self, id: i64) -> Option<Placement> {
        if manages(self.tiles, id) {
            positioning_placement(self.tiles[tile_index(self.tiles, id)], self.projection())
        } else {
            None
        }
    }
}

impl RibbonTiler {
    /// Starts a transition of the window's tile toward its place on screen. A
    /// transition under way is superseded without a jump.
    pub fn apply_window_position_with_animation_type(&mut self, id: i64, kind: AnimationType, now: u64)
        requires
            old(self).wf(),
        ensures
            final(self).wf(),
            final(self)@ == old(self)@.sent(id, kind, now),
    {
        match find_tile(&self.tiles, id) {
            Some(i) => {
                let ghost before = self.tiles@;
                let projection: Projection = self.projection();
                proof {
                    assert(before[i as int].valid(self.display));
                }
                let tile: ManagedTile = apply_with_animation_type(&self.tiles[i], kind, &projection, now);
                self.tiles.set(i, tile);
                self.animation_running = true;
                proof {
                    lemma_replace_tile(before, i as int, tile, self.display);
                    lemma_positions_limits(before, self.tiles@, self.display);
                }
            },
            None => {},
        }
    }

    /// Sends the window's tile to its place on screen: by a move, or at once. At once,
    /// the placement is returned, unless the rectangle is not fit to be issued.
    pub fn apply_window_position(&mut self, id: i64, animate: bool, now: u64) -> (placement: Option<
        Placement,
    >)
        requires
            old(self).wf(),
        ensures
            final(self).wf(),
            animate ==> final(self)@ == old(self)@.sent(id, AnimationType::Move, now)
                && placement.is_none(),
            !animate ==> final(self)@ == old(self)@.put(id) && placement == old(self)@.put_placement(
                id,
            ),
    {
        if animate {
            self.apply_window_position_with_animation_type(id, AnimationType::Move, now);
            return None;
        }
        match find_tile(&self.tiles, id) {
            Some(i) => {
                let ghost before = self.tiles@;
                let projection: Projection = self.projection();
                proof {
                    assert(before[i as int].valid(self.display));
                }
                let mut tile: ManagedTile = self.tiles[i];
                let rect: crate::geometry::Rect = projection.ribbon_to_screen(&tile.position);
                if rect.is_within_reach() {
                    tile.shown = rect;
                    self.tiles.set(i, tile);
                    proof {
                        lemma_replace_tile(before, i as int, tile, self.display);
                        lemma_positions_limits(before, self.tiles@, self.display);
                    }
                    Some(Placement { id: tile.id, rect })
                } else {
                    proof {
                        assert(self.tiles@ =~= before.update(i as int, before[i as int]));
                    }
                    None
                }
            },
            None => None,
        }
    }
}

} // verus!
